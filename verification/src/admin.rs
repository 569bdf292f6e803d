use crate::action::TransactionStatus;
use crate::address::Address;
use crate::error::MultisigError;
use crate::model::MultisigView;
use crate::multisig::{Multisig, StatusesAfterExecution};
use vstd::prelude::*;

verus! {

/// The shares of a fee distribution add up to this: one unit is a hundredth
/// of a percent.
pub const PERCENTAGE_TOTAL: u32 = 10_000;

/// A share of the fees and the address that receives it.
#[derive(Clone, Copy, Debug, PartialEq, Eq, Structural)]
pub struct AddressPercentagePair {
    pub address: Address,
    pub percentage: u32,
}

/// A requested share of the fees, with what the ledger says of the address:
/// whether it holds a contract.
#[derive(Clone, Copy, Debug, PartialEq, Eq, Structural)]
pub struct FeeDestination {
    pub address: Address,
    pub percentage: u32,
    pub is_smart_contract: bool,
}

/// The sum of the requested shares.
pub open spec fn total_percentage(destinations: Seq<FeeDestination>) -> nat
    decreases destinations.len(),
{
    if destinations.len() == 0 {
        0
    } else {
        total_percentage(destinations.drop_last()) + destinations.last().percentage as nat
    }
}

/// The shares as they are handed to the delegated services.
pub open spec fn fee_pairs(destinations: Seq<FeeDestination>) -> Seq<AddressPercentagePair> {
    destinations.map_values(
        |d: FeeDestination| AddressPercentagePair { address: d.address, percentage: d.percentage },
    )
}

/// Outcome of a fee distribution: no share may go to a contract, and the
/// shares must add up to the whole.
pub open spec fn distribute_fees_result(destinations: Seq<FeeDestination>) -> Result<
    (),
    MultisigError,
> {
    if exists|i: int| 0 <= i < destinations.len() && (#[trigger] destinations[i]).is_smart_contract {
        Err(MultisigError::InvalidState)
    } else if total_percentage(destinations) != PERCENTAGE_TOTAL {
        Err(MultisigError::InvariantViolation)
    } else {
        Ok(())
    }
}

impl Multisig {
    /// Checks a distribution of the fees that the two delegated services have
    /// collected and returns the shares to hand to each of them.
    ///
    /// Fails with `InvalidState` when a destination holds a contract, else
    /// with `InvariantViolation` when the shares do not add up to
    /// `PERCENTAGE_TOTAL`.
    pub fn distribute_fees_from_child_contracts(&self, destinations: &Vec<FeeDestination>) -> (r:
        Result<Vec<AddressPercentagePair>, MultisigError>)
        ensures
            match r {
                Ok(args) => distribute_fees_result(destinations@) is Ok && args@ == fee_pairs(
                    destinations@,
                ),
                Err(e) => distribute_fees_result(destinations@) == Err::<(), MultisigError>(e),
            },
    {
        let mut args: Vec<AddressPercentagePair> = Vec::new();
        let mut total: u128 = 0;
        let mut i: usize = 0;
        proof {
            assert(destinations@.take(0) =~= Seq::<FeeDestination>::empty());
        }
        while i < destinations.len()
            invariant
                0 <= i <= destinations.len(),
                total == total_percentage(destinations@.take(i as int)),
                total <= i * 0xffff_ffff,
                args@ == fee_pairs(destinations@.take(i as int)),
                forall|k: int| 0 <= k < i ==> !(#[trigger] destinations@[k]).is_smart_contract,
            decreases destinations.len() - i,
        {
            let destination = destinations[i];
            if destination.is_smart_contract {
                return Err(MultisigError::InvalidState);
            }
            proof {
                let prefix = destinations@.take(i + 1);
                assert(prefix.drop_last() =~= destinations@.take(i as int));
                assert(prefix.last() == destination);
            }
            total = total + destination.percentage as u128;
            args.push(
                AddressPercentagePair {
                    address: destination.address,
                    percentage: destination.percentage,
                },
            );
            proof {
                assert(args@ =~= fee_pairs(destinations@.take(i + 1)));
            }
            i += 1;
        }
        proof {
            assert(destinations@.take(i as int) =~= destinations@);
        }
        if total != PERCENTAGE_TOTAL as u128 {
            return Err(MultisigError::InvariantViolation);
        }
        Ok(args)
    }

    /// Stops the execution of actions, slashes excepted.
    pub fn pause(&mut self)
        requires
            old(self).wf(),
        ensures
            final(self).wf(),
            final(self)@ == (MultisigView { paused: true, ..old(self)@ }),
    {
        self.paused = true;
    }

    /// Lets actions be executed again.
    pub fn unpause(&mut self)
        requires
            old(self).wf(),
        ensures
            final(self).wf(),
            final(self)@ == (MultisigView { paused: false, ..old(self)@ }),
    {
        self.paused = false;
    }

    /// Records what the multi-transfer service answered to batch `batch_id`
    /// of `transfers_len` transfers, executed at block `block_nonce`: the last
    /// `transfers_len` values of `results` are the statuses of the transfers.
    ///
    /// Fails with `ExternalCallFailure`, changing nothing, exactly when
    /// `results` holds fewer values than the batch had transfers.
    pub fn record_batch_transfer_statuses(
        &mut self,
        batch_id: u64,
        transfers_len: usize,
        results: &Vec<TransactionStatus>,
        block_nonce: u64,
    ) -> (r: Result<(), MultisigError>)
        requires
            old(self).wf(),
        ensures
            final(self).wf(),
            r == MultisigView::record_statuses_result(transfers_len as nat, results@),
            r is Ok ==> final(self)@ == old(self)@.record_statuses(
                batch_id,
                transfers_len as nat,
                results@,
                block_nonce,
            ),
            r is Err ==> final(self)@ == old(self)@,
    {
        if results.len() < transfers_len {
            return Err(MultisigError::ExternalCallFailure);
        }
        let first: usize = results.len() - transfers_len;
        let mut statuses: Vec<TransactionStatus> = Vec::new();
        let mut i: usize = first;
        while i < results.len()
            invariant
                first <= i <= results.len(),
                statuses@ == results@.subrange(first as int, i as int),
            decreases results.len() - i,
        {
            statuses.push(results[i]);
            proof {
                assert(statuses@ =~= results@.subrange(first as int, i + 1));
            }
            i += 1;
        }
        self.statuses_after_execution = StatusesAfterExecution {
            block_executed: block_nonce,
            batch_id,
            statuses,
        };
        Ok(())
    }
}

} // verus!
