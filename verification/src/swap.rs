use crate::action::{bytes_equal, copy_bytes};
use vstd::prelude::*;

verus! {

/// Why a conversion was refused.
#[derive(Clone, Copy, Debug, PartialEq, Eq, Structural)]
pub enum SwapError {
    /// Nothing was paid in.
    ZeroPayment,
    /// The tokens paid in are not the wrapped token.
    WrongToken,
    /// The contract holds less than is asked back.
    InsufficientFunds,
}

/// An amount of a token, as it is paid out.
#[derive(Clone, Debug)]
pub struct EsdtTokenPayment {
    pub token_identifier: Vec<u8>,
    pub token_nonce: u64,
    pub amount: u128,
}

/// Outcome of unwrapping `payment_amount` of `payment_token` at a swap that
/// issues `wrapped_token` and holds `locked_egld_balance` of the native coin:
/// the amount of native coin to pay back.
pub open spec fn unwrap_result(
    wrapped_token: Seq<u8>,
    payment_token: Seq<u8>,
    payment_amount: u128,
    locked_egld_balance: u128,
) -> Result<u128, SwapError> {
    if payment_token != wrapped_token {
        Err(SwapError::WrongToken)
    } else if payment_amount == 0 {
        Err(SwapError::ZeroPayment)
    } else if payment_amount > locked_egld_balance {
        Err(SwapError::InsufficientFunds)
    } else {
        Ok(payment_amount)
    }
}

/// A service that converts the native coin into a wrapped token and back,
/// one for one. It decides; minting, burning and sending are the caller's.
pub trait EgldEsdtSwap: Sized {
    /// The identifier of the wrapped token.
    spec fn wrapped_token(&self) -> Seq<u8>;

    /// A swap that issues the token `wrapped_egld_token_id`.
    fn init(wrapped_egld_token_id: Vec<u8>) -> (r: Self)
        ensures
            r.wrapped_token() == wrapped_egld_token_id@,
    ;

    /// The identifier of the wrapped token.
    fn wrapped_egld_token_id(&self) -> (id: Vec<u8>)
        ensures
            id@ == self.wrapped_token(),
    ;

    /// Decides the wrapping of `payment_amount` of the native coin: the
    /// payment to mint and to send to the caller is the same amount of the
    /// wrapped token.
    ///
    /// Fails with `ZeroPayment` exactly when nothing was paid in.
    fn wrap_egld(&self, payment_amount: u128) -> (r: Result<EsdtTokenPayment, SwapError>)
        ensures
            r is Err <==> payment_amount == 0,
            r is Err ==> r->Err_0 == SwapError::ZeroPayment,
            r matches Ok(payment) ==> payment.token_identifier@ == self.wrapped_token()
                && payment.token_nonce == 0 && payment.amount == payment_amount,
    ;

    /// Decides the unwrapping of `payment_amount` of `payment_token`, given
    /// the balance of native coin that the contract holds: the amount to burn
    /// and to pay back in native coin is `payment_amount`.
    ///
    /// Fails with `WrongToken` when the payment is not in the wrapped token,
    /// else with `ZeroPayment` when nothing was paid in, else with
    /// `InsufficientFunds` when the contract holds less than was paid in.
    fn unwrap_egld(
        &self,
        payment_token: &Vec<u8>,
        payment_amount: u128,
        locked_egld_balance: u128,
    ) -> (r: Result<u128, SwapError>)
        ensures
            r == unwrap_result(
                self.wrapped_token(),
                payment_token@,
                payment_amount,
                locked_egld_balance,
            ),
    ;
}

/// The state of a swap: the token it issues.
#[derive(Clone, Debug)]
pub struct WrappedEgldSwap {
    wrapped_egld_token_id: Vec<u8>,
}

impl EgldEsdtSwap for WrappedEgldSwap {
    closed spec fn wrapped_token(&self) -> Seq<u8> {
        self.wrapped_egld_token_id@
    }

    fn init(wrapped_egld_token_id: Vec<u8>) -> (r: Self) {
        WrappedEgldSwap { wrapped_egld_token_id }
    }

    fn wrapped_egld_token_id(&self) -> (id: Vec<u8>) {
        copy_bytes(&self.wrapped_egld_token_id)
    }

    fn wrap_egld(&self, payment_amount: u128) -> (r: Result<EsdtTokenPayment, SwapError>) {
        if payment_amount == 0 {
            return Err(SwapError::ZeroPayment);
        }
        Ok(
            EsdtTokenPayment {
                token_identifier: copy_bytes(&self.wrapped_egld_token_id),
                token_nonce: 0,
                amount: payment_amount,
            },
        )
    }

    fn unwrap_egld(
        &self,
        payment_token: &Vec<u8>,
        payment_amount: u128,
        locked_egld_balance: u128,
    ) -> (r: Result<u128, SwapError>) {
        if !bytes_equal(payment_token, &self.wrapped_egld_token_id) {
            return Err(SwapError::WrongToken);
        }
        if payment_amount == 0 {
            return Err(SwapError::ZeroPayment);
        }
        if payment_amount > locked_egld_balance {
            return Err(SwapError::InsufficientFunds);
        }
        Ok(payment_amount)
    }
}

} // verus!
