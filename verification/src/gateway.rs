use crate::action::{
    byte_strings_view, transfers_view, ActionView, TransactionStatus, Transfer, TransferView,
};
use crate::address::Address;
use crate::error::MultisigError;
use vstd::prelude::*;

verus! {

/// Number of values by which the safe service reports one transaction.
pub const FIELDS_PER_TRANSACTION: usize = 6;

/// What the safe service answered when asked for its current batch: the batch
/// identifier and how many values it listed for the transactions.
#[derive(Clone, Copy, Debug, PartialEq, Eq, Structural)]
pub struct CurrentTxBatch {
    pub batch_id: u64,
    pub transaction_fields: usize,
}

impl CurrentTxBatch {
    /// Number of transactions in the batch.
    pub open spec fn spec_transaction_count(self) -> usize {
        self.transaction_fields / FIELDS_PER_TRANSACTION
    }

    /// Number of transactions in the batch.
    #[verifier::when_used_as_spec(spec_transaction_count)]
    pub fn transaction_count(self) -> (n: usize)
        ensures
            n == self.spec_transaction_count(),
    {
        self.transaction_fields / FIELDS_PER_TRANSACTION
    }
}

/// A call that the executor leaves to its caller once an action has run. The
/// caller makes the call and treats its failure as failure of the action.
#[derive(Clone, Debug)]
pub enum ExternalCall {
    /// The action needs no outside work.
    NoCall,
    /// Deploy `code` with `amount`, handing on all remaining resources.
    DeployContract { amount: u128, code: Vec<u8>, metadata: u16, args: Vec<Vec<u8>> },
    /// Report the statuses of batch `batch_id` to the safe service.
    SetTransactionBatchStatus { service: Address, batch_id: u64, statuses: Vec<TransactionStatus> },
    /// Run the transfers of batch `batch_id` on the multi-transfer service;
    /// its per-transfer statuses are then recorded.
    BatchTransfer { service: Address, batch_id: u64, transfers: Vec<Transfer> },
}

/// An `ExternalCall` as a mathematical value.
pub enum ExternalCallView {
    NoCall,
    DeployContract { amount: u128, code: Seq<u8>, metadata: u16, args: Seq<Seq<u8>> },
    SetTransactionBatchStatus { service: Address, batch_id: u64, statuses: Seq<TransactionStatus> },
    BatchTransfer { service: Address, batch_id: u64, transfers: Seq<TransferView> },
}

impl View for ExternalCall {
    type V = ExternalCallView;

    open spec fn view(&self) -> ExternalCallView {
        match *self {
            ExternalCall::NoCall => ExternalCallView::NoCall,
            ExternalCall::DeployContract { amount, code, metadata, args } => {
                ExternalCallView::DeployContract {
                    amount,
                    code: code@,
                    metadata,
                    args: byte_strings_view(args@),
                }
            },
            ExternalCall::SetTransactionBatchStatus { service, batch_id, statuses } => {
                ExternalCallView::SetTransactionBatchStatus { service, batch_id, statuses: statuses@ }
            },
            ExternalCall::BatchTransfer { service, batch_id, transfers } => {
                ExternalCallView::BatchTransfer {
                    service,
                    batch_id,
                    transfers: transfers_view(transfers@),
                }
            },
        }
    }
}

/// The call that `action` leaves to the caller, given the addresses of the two
/// delegated services.
pub open spec fn call_for(action: ActionView, esdt_safe: Address, multi_transfer: Address)
    -> ExternalCallView {
    match action {
        ActionView::DeployContract { amount, code, metadata, args } => {
            ExternalCallView::DeployContract { amount, code, metadata, args }
        },
        ActionView::SetExternalBatchStatus { batch_id, statuses } => {
            ExternalCallView::SetTransactionBatchStatus { service: esdt_safe, batch_id, statuses }
        },
        ActionView::BatchTransferTokens { batch_id, transfers } => {
            ExternalCallView::BatchTransfer { service: multi_transfer, batch_id, transfers }
        },
        _ => ExternalCallView::NoCall,
    }
}

/// Checks that both delegated services are contracts, the safe service first.
///
/// Fails with `ExternalCallFailure` exactly when one of them is a plain
/// account.
pub fn check_services(esdt_safe_is_contract: bool, multi_transfer_is_contract: bool) -> (r: Result<
    (),
    MultisigError,
>)
    ensures
        r is Ok <==> esdt_safe_is_contract && multi_transfer_is_contract,
        r is Err ==> r->Err_0 == MultisigError::ExternalCallFailure,
{
    if !esdt_safe_is_contract {
        return Err(MultisigError::ExternalCallFailure);
    }
    if !multi_transfer_is_contract {
        return Err(MultisigError::ExternalCallFailure);
    }
    Ok(())
}

} // verus!
