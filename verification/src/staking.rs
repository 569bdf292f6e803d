use crate::address::Address;
use crate::error::MultisigError;
use crate::multisig::Multisig;
use crate::user_role::UserRole;
use vstd::prelude::*;

verus! {

impl Multisig {
    /// Adds `payment` to the stake of `caller`.
    ///
    /// Fails, changing nothing, with `Unauthorized` when the caller is no
    /// board member, else with `LimitExceeded` when the balance would not
    /// fit.
    pub fn stake(&mut self, caller: &Address, payment: u128) -> (r: Result<(), MultisigError>)
        requires
            old(self).wf(),
        ensures
            final(self).wf(),
            r == old(self)@.stake_result(*caller, payment as nat),
            r is Ok ==> final(self)@ == old(self)@.stake(*caller, payment as nat),
            r is Err ==> final(self)@ == old(self)@,
    {
        let caller_id = self.board.get_user_id(caller);
        let caller_role = self.board.get_user_id_to_role(caller_id);
        match caller_role {
            UserRole::BoardMember => {},
            _ => {
                return Err(MultisigError::Unauthorized);
            },
        }
        self.stakes.stake(caller_id, payment)
    }

    /// Takes `amount` from the stake of `caller` and returns what is to be
    /// paid back to the caller, which is `amount`.
    ///
    /// Fails, changing nothing, with `InvariantViolation` when the amount is
    /// more than the caller has staked, or when the caller is a board member
    /// and less than the required stake would remain.
    pub fn unstake(&mut self, caller: &Address, amount: u128) -> (r: Result<u128, MultisigError>)
        requires
            old(self).wf(),
        ensures
            final(self).wf(),
            match r {
                Ok(payout) => payout == amount && old(self)@.unstake_result(*caller, amount as nat)
                    is Ok && final(self)@ == old(self)@.unstake(*caller, amount as nat),
                Err(e) => old(self)@.unstake_result(*caller, amount as nat) == Err::<
                    (),
                    MultisigError,
                >(e) && final(self)@ == old(self)@,
            },
    {
        let caller_id = self.board.get_user_id(caller);
        let keeps_minimum = match self.board.get_user_id_to_role(caller_id) {
            UserRole::BoardMember => true,
            _ => false,
        };
        match self.stakes.unstake(caller_id, amount, keeps_minimum) {
            Ok(()) => Ok(amount),
            Err(e) => Err(e),
        }
    }

    /// What `address` has staked.
    pub fn amount_staked(&self, address: &Address) -> (amount: u128)
        requires
            self.wf(),
        ensures
            amount == self@.stakes.balance_of(self@.id_of(*address)),
    {
        self.stakes.balance_of(self.board.get_user_id(address))
    }

    /// Whether `address` holds at least the required stake.
    pub fn has_enough_stake(&self, address: &Address) -> (r: bool)
        requires
            self.wf(),
        ensures
            r == self@.stakes.has_enough_stake(self@.id_of(*address)),
            r == (self@.stakes.balance_of(self@.id_of(*address))
                >= self@.stakes.required_stake_amount),
    {
        self.stakes.has_enough_stake(self.board.get_user_id(address))
    }
}

} // verus!
