use crate::action::TransactionStatus;
use crate::action_log::ActionLog;
use crate::address::Address;
use crate::board::Board;
use crate::dedup::BatchDeduplicationIndex;
use crate::error::MultisigError;
use crate::gateway::check_services;
use crate::model::{MultisigView, StatusesAfterExecutionView};
use crate::stake::StakeLedger;
use vstd::prelude::*;

verus! {

/// The statuses that the last executed transfer batch came back with, the
/// block at which they were recorded and the batch they belong to.
#[derive(Clone, Debug)]
pub struct StatusesAfterExecution {
    pub block_executed: u64,
    pub batch_id: u64,
    pub statuses: Vec<TransactionStatus>,
}

impl View for StatusesAfterExecution {
    type V = StatusesAfterExecutionView;

    open spec fn view(&self) -> StatusesAfterExecutionView {
        StatusesAfterExecutionView {
            block_executed: self.block_executed,
            batch_id: self.batch_id,
            statuses: self.statuses@,
        }
    }
}

/// A shared account whose actions need a quorum of staked board members.
///
/// Every operation either succeeds and moves the state as its contract says,
/// or fails and leaves the state as it was.
#[derive(Clone, Debug)]
pub struct Multisig {
    pub(crate) board: Board,
    pub(crate) stakes: StakeLedger,
    pub(crate) log: ActionLog,
    pub(crate) quorum: u32,
    pub(crate) paused: bool,
    pub(crate) status_batches: BatchDeduplicationIndex,
    pub(crate) transfer_batches: BatchDeduplicationIndex,
    pub(crate) statuses_after_execution: StatusesAfterExecution,
    pub(crate) esdt_safe_address: Address,
    pub(crate) multi_transfer_esdt_address: Address,
}

impl View for Multisig {
    type V = MultisigView;

    open(crate) spec fn view(&self) -> MultisigView {
        MultisigView {
            board: self.board@,
            stakes: self.stakes@,
            log: self.log@,
            quorum: self.quorum as nat,
            paused: self.paused,
            status_batches: self.status_batches@,
            transfer_batches: self.transfer_batches@,
            statuses_after_execution: self.statuses_after_execution@,
            esdt_safe_address: self.esdt_safe_address,
            multi_transfer_esdt_address: self.multi_transfer_esdt_address,
        }
    }
}

impl Multisig {
    /// The state is sound: see `MultisigView::wf`. Set-up establishes it and
    /// every operation keeps it.
    pub open spec fn wf(&self) -> bool {
        self@.wf()
    }

    /// Sets the engine up: `board` become the board members, in this order,
    /// and the two delegated services are remembered.
    ///
    /// The two flags say whether each service address holds a contract. The
    /// set-up fails
    /// - with `LimitExceeded` when the board is larger than the identifiers
    ///   reach, else with `InvariantViolation` when an address occurs twice
    ///   in `board`;
    /// - else with `InvariantViolation` when the slash amount is more than
    ///   the required stake, or the quorum more than the board;
    /// - else with `ExternalCallFailure` when a service is not a contract.
    pub fn init(
        esdt_safe_sc_address: Address,
        multi_transfer_sc_address: Address,
        required_stake: u128,
        slash_amount: u128,
        quorum: u32,
        board: &Vec<Address>,
        esdt_safe_is_contract: bool,
        multi_transfer_is_contract: bool,
    ) -> (r: Result<Multisig, MultisigError>)
        ensures
            match r {
                Ok(state) => MultisigView::init_result(
                    required_stake as nat,
                    slash_amount as nat,
                    quorum as nat,
                    board@,
                    esdt_safe_is_contract,
                    multi_transfer_is_contract,
                ) is Ok && state.wf() && state@ == MultisigView::init(
                    esdt_safe_sc_address,
                    multi_transfer_sc_address,
                    required_stake as nat,
                    slash_amount as nat,
                    quorum as nat,
                    board@,
                ),
                Err(e) => MultisigView::init_result(
                    required_stake as nat,
                    slash_amount as nat,
                    quorum as nat,
                    board@,
                    esdt_safe_is_contract,
                    multi_transfer_is_contract,
                ) == Err::<(), MultisigError>(e),
            },
    {
        let members = match Board::with_members(board) {
            Ok(members) => members,
            Err(e) => {
                return Err(e);
            },
        };
        let stakes = match StakeLedger::new(required_stake, slash_amount) {
            Ok(stakes) => stakes,
            Err(e) => {
                return Err(e);
            },
        };
        if quorum > members.num_board_members() {
            return Err(MultisigError::InvariantViolation);
        }
        match check_services(esdt_safe_is_contract, multi_transfer_is_contract) {
            Ok(()) => {},
            Err(e) => {
                return Err(e);
            },
        }
        Ok(
            Multisig {
                board: members,
                stakes,
                log: ActionLog::new(),
                quorum,
                paused: false,
                status_batches: BatchDeduplicationIndex::new(),
                transfer_batches: BatchDeduplicationIndex::new(),
                statuses_after_execution: StatusesAfterExecution {
                    block_executed: u64::MAX,
                    batch_id: u64::MAX,
                    statuses: Vec::new(),
                },
                esdt_safe_address: esdt_safe_sc_address,
                multi_transfer_esdt_address: multi_transfer_sc_address,
            },
        )
    }
}

} // verus!
