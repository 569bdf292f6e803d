use crate::action::{ActionView, TransactionStatus};
use crate::action_log::{lemma_with_signer, lemma_without_signer, ActionLogView};
use crate::address::Address;
use crate::board::BoardView;
use crate::dedup::{bucket_ids, index_wf, lookup, without_batch, BatchContentView, DedupEntryView};
use crate::error::MultisigError;
use crate::gateway::{call_for, CurrentTxBatch, ExternalCallView};
use crate::quorum::count_valid_signers;
use crate::stake::StakeLedgerView;
use crate::user_role::UserRole;
use vstd::prelude::*;

verus! {

/// A status report counts as final once more than this many blocks have
/// passed since it was recorded.
pub const MIN_BLOCKS_FOR_FINALITY: u64 = 10;

/// The statuses that the last executed transfer batch came back with.
pub struct StatusesAfterExecutionView {
    pub block_executed: u64,
    pub batch_id: u64,
    pub statuses: Seq<TransactionStatus>,
}

/// Every signer of every action is a registered user.
pub open spec fn signers_registered(log: ActionLogView, user_count: nat) -> bool {
    forall|i: int, k: int|
        0 <= i < log.signers.len() && 0 <= k < log.signers[i].len() ==> 1 <= (
        #[trigger] log.signers[i][k]) <= user_count
}

/// The log after each action of `ids` was cleared as discarded, in order.
pub open spec fn clear_all(log: ActionLogView, ids: Seq<usize>) -> ActionLogView
    decreases ids.len(),
{
    if ids.len() == 0 {
        log
    } else {
        clear_all(log, ids.drop_last()).clear(ids.last() as nat, false)
    }
}

/// The log after a batch action ran: where more than one proposal was recorded
/// for the batch, all of them are cleared.
pub open spec fn settle_bucket(log: ActionLogView, index: Seq<DedupEntryView>, batch_id: u64)
    -> ActionLogView {
    let ids = bucket_ids(index, batch_id);
    if ids.len() > 1 {
        clear_all(log, ids)
    } else {
        log
    }
}

/// The whole state of the engine.
pub struct MultisigView {
    pub board: BoardView,
    pub stakes: StakeLedgerView,
    pub log: ActionLogView,
    pub quorum: nat,
    pub paused: bool,
    pub status_batches: Seq<DedupEntryView>,
    pub transfer_batches: Seq<DedupEntryView>,
    pub statuses_after_execution: StatusesAfterExecutionView,
    pub esdt_safe_address: Address,
    pub multi_transfer_esdt_address: Address,
}

impl MultisigView {
    /// What holds between operations: each component is sound, the quorum
    /// never exceeds the board, and only registered users have signed.
    pub open spec fn wf(self) -> bool {
        &&& self.board.wf()
        &&& self.stakes.wf()
        &&& self.log.wf()
        &&& index_wf(self.status_batches)
        &&& index_wf(self.transfer_batches)
        &&& self.quorum <= self.board.roles.num_board_members
        &&& signers_registered(self.log, self.board.users.len())
    }

    /// The identifier of `address`, 0 when it is not registered.
    pub open spec fn id_of(self, address: Address) -> nat {
        self.board.id_of(address)
    }

    /// The role of `address`; `NoRole` when it is not registered.
    pub open spec fn role_of(self, address: Address) -> UserRole {
        self.board.role_of(address)
    }

    /// Whether `address` is among the signers of action `id`.
    pub open spec fn has_signed(self, address: Address, id: nat) -> bool {
        self.log.signers_of(id).contains(self.id_of(address) as u32)
    }

    /// How many signers of action `id` count right now.
    pub open spec fn valid_signer_count(self, id: nat) -> nat {
        count_valid_signers(self.log.signers_of(id), self.board.roles, self.stakes)
    }

    /// Whether action `id` has gathered its quorum.
    pub open spec fn quorum_reached(self, id: nat) -> bool {
        self.valid_signer_count(id) >= self.quorum
    }

    /// The index that records batches of the kind of `content`.
    pub open spec fn index_for(self, content: BatchContentView) -> Seq<DedupEntryView> {
        match content {
            BatchContentView::Statuses(_) => self.status_batches,
            BatchContentView::Transfers(_) => self.transfer_batches,
        }
    }

    // ----- setting up -----

    /// Outcome of setting the engine up with `board` as its board.
    pub open spec fn init_result(
        required_stake: nat,
        slash_amount: nat,
        quorum: nat,
        board: Seq<Address>,
        esdt_safe_is_contract: bool,
        multi_transfer_is_contract: bool,
    ) -> Result<(), MultisigError> {
        match BoardView::of_members_result(board) {
            Err(e) => Err(e),
            Ok(()) => if slash_amount > required_stake {
                Err(MultisigError::InvariantViolation)
            } else if quorum > board.len() {
                Err(MultisigError::InvariantViolation)
            } else if !esdt_safe_is_contract || !multi_transfer_is_contract {
                Err(MultisigError::ExternalCallFailure)
            } else {
                Ok(())
            },
        }
    }

    /// The state right after set-up: the board members are the only users,
    /// nothing is staked or proposed, and no batch has run.
    pub open spec fn init(
        esdt_safe_address: Address,
        multi_transfer_esdt_address: Address,
        required_stake: nat,
        slash_amount: nat,
        quorum: nat,
        board: Seq<Address>,
    ) -> MultisigView {
        MultisigView {
            board: BoardView::of_members(board),
            stakes: StakeLedgerView {
                balances: Seq::empty(),
                required_stake_amount: required_stake,
                slash_amount,
                slashed_tokens_amount: 0,
            },
            log: ActionLogView { slots: Seq::empty(), signers: Seq::empty() },
            quorum,
            paused: false,
            status_batches: Seq::empty(),
            transfer_batches: Seq::empty(),
            statuses_after_execution: StatusesAfterExecutionView {
                block_executed: u64::MAX,
                batch_id: u64::MAX,
                statuses: Seq::empty(),
            },
            esdt_safe_address,
            multi_transfer_esdt_address,
        }
    }

    // ----- staking -----

    /// Outcome of `caller` staking `payment`: only board members stake.
    pub open spec fn stake_result(self, caller: Address, payment: nat) -> Result<(), MultisigError> {
        if self.role_of(caller) != UserRole::BoardMember {
            Err(MultisigError::Unauthorized)
        } else {
            self.stakes.stake_result(self.id_of(caller), payment)
        }
    }

    /// The state after `caller` staked `payment`.
    pub open spec fn stake(self, caller: Address, payment: nat) -> MultisigView {
        MultisigView { stakes: self.stakes.stake(self.id_of(caller), payment), ..self }
    }

    /// Outcome of `caller` unstaking `amount`: a board member keeps the
    /// required stake.
    pub open spec fn unstake_result(self, caller: Address, amount: nat) -> Result<
        (),
        MultisigError,
    > {
        self.stakes.unstake_result(
            self.id_of(caller),
            amount,
            self.role_of(caller) == UserRole::BoardMember,
        )
    }

    /// The state after `caller` unstaked `amount`.
    pub open spec fn unstake(self, caller: Address, amount: nat) -> MultisigView {
        MultisigView { stakes: self.stakes.unstake(self.id_of(caller), amount), ..self }
    }

    // ----- proposing and signing -----

    /// Outcome of a proposal by `caller`: the identifier of the new action.
    pub open spec fn propose_result(self, caller: Address) -> Result<usize, MultisigError> {
        if !self.role_of(caller).spec_can_propose() {
            Err(MultisigError::Unauthorized)
        } else if self.log.slots.len() >= usize::MAX {
            Err(MultisigError::LimitExceeded)
        } else {
            Ok((self.log.slots.len() + 1) as usize)
        }
    }

    /// The signature that a new action of `caller` starts with: the caller's,
    /// if the caller's role may sign.
    pub open spec fn first_signer(self, caller: Address) -> Option<u32> {
        if self.role_of(caller).spec_can_sign() {
            Some(self.id_of(caller) as u32)
        } else {
            None
        }
    }

    /// The state after `caller` proposed `action`.
    pub open spec fn propose(self, caller: Address, action: ActionView) -> MultisigView {
        MultisigView { log: self.log.propose(action, self.first_signer(caller)), ..self }
    }

    /// Outcome of proposing `content` for batch `batch_id`: a batch recorded
    /// with the same content is refused, naming the action that holds it.
    pub open spec fn propose_batch_result(
        self,
        caller: Address,
        batch_id: u64,
        content: BatchContentView,
    ) -> Result<usize, MultisigError> {
        match lookup(self.index_for(content), batch_id, content) {
            Some(existing) => Err(MultisigError::DuplicateProposal(existing)),
            None => self.propose_result(caller),
        }
    }

    /// The state after `caller` proposed `content` for batch `batch_id`: the
    /// action is appended and the pair is recorded with the new identifier.
    pub open spec fn propose_batch(self, caller: Address, batch_id: u64, content: BatchContentView)
        -> MultisigView {
        let entry = DedupEntryView {
            batch_id,
            content,
            action_id: (self.log.slots.len() + 1) as usize,
        };
        let proposed = self.propose(caller, content.to_action(batch_id));
        match content {
            BatchContentView::Statuses(_) => MultisigView {
                status_batches: self.status_batches.push(entry),
                ..proposed
            },
            BatchContentView::Transfers(_) => MultisigView {
                transfer_batches: self.transfer_batches.push(entry),
                ..proposed
            },
        }
    }

    /// Outcome of proposing the statuses of the safe service's batch
    /// `batch_id`, given what the service reports as its current batch.
    pub open spec fn propose_status_batch_result(
        self,
        caller: Address,
        batch_id: u64,
        statuses: Seq<TransactionStatus>,
        current: Option<CurrentTxBatch>,
    ) -> Result<usize, MultisigError> {
        match current {
            None => Err(MultisigError::ExternalCallFailure),
            Some(batch) => match lookup(
                self.status_batches,
                batch_id,
                BatchContentView::Statuses(statuses),
            ) {
                Some(existing) => Err(MultisigError::DuplicateProposal(existing)),
                None => if batch.spec_transaction_count() != statuses.len() {
                    Err(MultisigError::InvalidState)
                } else if batch_id != batch.batch_id {
                    Err(MultisigError::InvalidState)
                } else {
                    self.propose_result(caller)
                },
            },
        }
    }

    /// Outcome of `caller` signing or unsigning action `id`.
    pub open spec fn sign_result(self, caller: Address, id: nat) -> Result<(), MultisigError> {
        if !self.log.is_pending(id) {
            Err(MultisigError::InvalidState)
        } else if !self.role_of(caller).spec_can_sign() {
            Err(MultisigError::Unauthorized)
        } else if !self.stakes.has_enough_stake(self.id_of(caller)) {
            Err(MultisigError::Unauthorized)
        } else {
            Ok(())
        }
    }

    /// The state after `caller` signed action `id`.
    pub open spec fn sign(self, caller: Address, id: nat) -> MultisigView {
        MultisigView { log: self.log.sign(id, self.id_of(caller) as u32), ..self }
    }

    /// The state after `caller` withdrew from action `id`.
    pub open spec fn unsign(self, caller: Address, id: nat) -> MultisigView {
        MultisigView { log: self.log.unsign(id, self.id_of(caller) as u32), ..self }
    }

    /// Outcome of `caller` discarding action `id`: nobody whose signature
    /// counts right now may back it.
    pub open spec fn discard_result(self, caller: Address, id: nat) -> Result<(), MultisigError> {
        if !self.role_of(caller).spec_can_discard_action() {
            Err(MultisigError::Unauthorized)
        } else if self.valid_signer_count(id) != 0 {
            Err(MultisigError::InvalidState)
        } else {
            Ok(())
        }
    }

    /// The state after action `id` was discarded.
    pub open spec fn discard(self, id: nat) -> MultisigView {
        MultisigView { log: self.log.clear(id, false), ..self }
    }

    // ----- executing -----

    /// Outcome of moving `address` to `new_role` by an action: after the
    /// change the quorum must not exceed the board, and a removal must leave
    /// somebody who can propose.
    pub open spec fn role_change_result(self, address: Address, new_role: UserRole) -> Result<
        (),
        MultisigError,
    > {
        match self.board.change_user_role_result(address) {
            Err(e) => Err(e),
            Ok(()) => {
                let roles = self.board.change_user_role(address, new_role).roles;
                if new_role == UserRole::NoRole && roles.num_board_members + roles.num_proposers
                    == 0 {
                    Err(MultisigError::InvariantViolation)
                } else if self.quorum > roles.num_board_members {
                    Err(MultisigError::InvariantViolation)
                } else {
                    Ok(())
                }
            },
        }
    }

    /// Outcome of the effect of `action`.
    pub open spec fn effect_result(self, action: ActionView) -> Result<(), MultisigError> {
        match action {
            ActionView::AddBoardMember(address) => self.role_change_result(
                address,
                UserRole::BoardMember,
            ),
            ActionView::AddProposer(address) => self.role_change_result(
                address,
                UserRole::Proposer,
            ),
            ActionView::RemoveUser(address) => self.role_change_result(address, UserRole::NoRole),
            ActionView::SlashUser(address) => match self.role_change_result(
                address,
                UserRole::NoRole,
            ) {
                Err(e) => Err(e),
                Ok(()) => self.stakes.slash_result(
                    self.board.change_user_role(address, UserRole::NoRole).id_of(address),
                ),
            },
            ActionView::ChangeQuorum(quorum) => if quorum > self.board.roles.num_board_members {
                Err(MultisigError::InvariantViolation)
            } else {
                Ok(())
            },
            _ => Ok(()),
        }
    }

    /// The state after the effect of `action`.
    pub open spec fn apply(self, action: ActionView) -> MultisigView {
        match action {
            ActionView::AddBoardMember(address) => MultisigView {
                board: self.board.change_user_role(address, UserRole::BoardMember),
                ..self
            },
            ActionView::AddProposer(address) => MultisigView {
                board: self.board.change_user_role(address, UserRole::Proposer),
                ..self
            },
            ActionView::RemoveUser(address) => MultisigView {
                board: self.board.change_user_role(address, UserRole::NoRole),
                ..self
            },
            ActionView::SlashUser(address) => {
                let board = self.board.change_user_role(address, UserRole::NoRole);
                MultisigView { board, stakes: self.stakes.slash(board.id_of(address)), ..self }
            },
            ActionView::ChangeQuorum(quorum) => MultisigView { quorum: quorum as nat, ..self },
            ActionView::SetExternalBatchStatus { batch_id, statuses } => MultisigView {
                log: settle_bucket(self.log, self.status_batches, batch_id),
                status_batches: without_batch(self.status_batches, batch_id),
                ..self
            },
            ActionView::BatchTransferTokens { batch_id, transfers } => MultisigView {
                log: settle_bucket(self.log, self.transfer_batches, batch_id),
                transfer_batches: without_batch(self.transfer_batches, batch_id),
                ..self
            },
            _ => self,
        }
    }

    /// Outcome of executing action `id`, whoever asks and whatever the
    /// signatures.
    pub open spec fn perform_result(self, id: nat) -> Result<(), MultisigError> {
        match self.log.action_data(id) {
            None => Err(MultisigError::InvalidState),
            Some(action) => self.effect_result(action),
        }
    }

    /// The state after action `id` was executed: its slot is emptied first,
    /// then its effect is applied.
    pub open spec fn perform(self, id: nat) -> MultisigView {
        (MultisigView { log: self.log.clear(id, true), ..self }).apply(
            self.log.action_data(id)->Some_0,
        )
    }

    /// The call that executing action `id` leaves to the caller.
    pub open spec fn perform_call(self, id: nat) -> ExternalCallView {
        call_for(
            self.log.action_data(id)->Some_0,
            self.esdt_safe_address,
            self.multi_transfer_esdt_address,
        )
    }

    /// Outcome of `caller` asking for the execution of action `id`.
    pub open spec fn perform_endpoint_result(self, caller: Address, id: nat) -> Result<
        (),
        MultisigError,
    > {
        if !self.log.is_pending(id) {
            Err(MultisigError::InvalidState)
        } else if !self.role_of(caller).spec_can_perform_action() {
            Err(MultisigError::Unauthorized)
        } else if !self.quorum_reached(id) {
            Err(MultisigError::InvalidState)
        } else if self.paused && !self.log.action_data(id)->Some_0.is_pause_exempt() {
            Err(MultisigError::InvalidState)
        } else {
            self.perform_result(id)
        }
    }

    // ----- after a transfer batch -----

    /// Outcome of recording what the multi-transfer service answered to a
    /// batch of `transfers_len` transfers: it must hold a status for each.
    pub open spec fn record_statuses_result(transfers_len: nat, results: Seq<TransactionStatus>)
        -> Result<(), MultisigError> {
        if results.len() < transfers_len {
            Err(MultisigError::ExternalCallFailure)
        } else {
            Ok(())
        }
    }

    /// The state after the last `transfers_len` results were recorded as the
    /// statuses of batch `batch_id`, executed at block `block`.
    pub open spec fn record_statuses(
        self,
        batch_id: u64,
        transfers_len: nat,
        results: Seq<TransactionStatus>,
        block: u64,
    ) -> MultisigView {
        MultisigView {
            statuses_after_execution: StatusesAfterExecutionView {
                block_executed: block,
                batch_id,
                statuses: results.subrange(results.len() - transfers_len, results.len() as int),
            },
            ..self
        }
    }

    // ----- views -----

    /// The action recorded for `(batch_id, content)`, 0 when there is none.
    pub open spec fn action_id_for_batch(self, batch_id: u64, content: BatchContentView) -> usize {
        match lookup(self.index_for(content), batch_id, content) {
            Some(id) => id,
            None => 0,
        }
    }

    /// The statuses that batch `batch_id` came back with, if it was the last
    /// transfer batch executed, and whether they are final at block
    /// `current_block`.
    pub open spec fn statuses_after_execution_of(self, batch_id: u64, current_block: u64) -> Option<
        (bool, Seq<TransactionStatus>),
    > {
        if self.statuses_after_execution.batch_id == batch_id {
            Some(
                (
                    current_block - self.statuses_after_execution.block_executed
                        > MIN_BLOCKS_FOR_FINALITY,
                    self.statuses_after_execution.statuses,
                ),
            )
        } else {
            None
        }
    }
}

/// Clearing an action keeps the log sound and adds no signer.
pub proof fn lemma_clear_keeps_wf(log: ActionLogView, id: nat, executed: bool, user_count: nat)
    requires
        log.wf(),
    ensures
        log.clear(id, executed).wf(),
        log.clear(id, executed).slots.len() == log.slots.len(),
        signers_registered(log, user_count) ==> signers_registered(
            log.clear(id, executed),
            user_count,
        ),
        forall|other: nat|
            other != id ==> log.clear(id, executed).signers_of(other) == log.signers_of(other)
                && log.clear(id, executed).action_data(other) == log.action_data(other),
        log.clear(id, executed).action_data(id) is None,
        log.clear(id, executed).signers_of(id).len() == 0 || !log.is_valid_action_id(id),
{
    let next = log.clear(id, executed);
    if log.is_pending(id) {
        assert forall|i: int| 0 <= i < next.signers.len() implies (
        #[trigger] next.signers[i]).no_duplicates() by {
            if i != id - 1 {
                assert(next.signers[i] == log.signers[i]);
            }
        }
        assert forall|i: int|
            0 <= i < next.slots.len() && !(#[trigger] next.slots[i] is Pending)
                implies next.signers[i].len() == 0 by {
            if i != id - 1 {
                assert(next.slots[i] == log.slots[i]);
            }
        }
        if signers_registered(log, user_count) {
            assert forall|i: int, k: int|
                0 <= i < next.signers.len() && 0 <= k < next.signers[i].len() implies 1 <= (
            #[trigger] next.signers[i][k]) <= user_count by {
                assert(next.signers[i] == log.signers[i]);
                assert(1 <= log.signers[i][k] <= user_count);
            }
        }
    } else if log.is_valid_action_id(id) {
        assert(!(log.slots[id - 1] is Pending));
    }
}

/// Appending an action keeps the log sound; a first signer must be a
/// registered user.
pub proof fn lemma_propose_keeps_wf(
    log: ActionLogView,
    action: ActionView,
    signer: Option<u32>,
    user_count: nat,
)
    requires
        log.wf(),
        signers_registered(log, user_count),
        signer matches Some(user) ==> 1 <= user <= user_count,
    ensures
        log.propose(action, signer).wf(),
        signers_registered(log.propose(action, signer), user_count),
        log.propose(action, signer).is_pending(log.slots.len() + 1),
        log.propose(action, signer).action_data(log.slots.len() + 1) == Some(action),
{
    let next = log.propose(action, signer);
    assert forall|i: int| 0 <= i < next.signers.len() implies (
    #[trigger] next.signers[i]).no_duplicates() by {
        if i < log.signers.len() {
            assert(next.signers[i] == log.signers[i]);
        }
    }
    assert forall|i: int|
        0 <= i < next.slots.len() && !(#[trigger] next.slots[i] is Pending)
            implies next.signers[i].len() == 0 by {
        if i < log.slots.len() {
            assert(next.slots[i] == log.slots[i]);
            assert(next.signers[i] == log.signers[i]);
        }
    }
    assert forall|i: int, k: int|
        0 <= i < next.signers.len() && 0 <= k < next.signers[i].len() implies 1 <= (
    #[trigger] next.signers[i][k]) <= user_count by {
        if i < log.signers.len() {
            assert(next.signers[i] == log.signers[i]);
            assert(1 <= log.signers[i][k] <= user_count);
        }
    }
}

/// Signing keeps the log sound when the signer is a registered user.
pub proof fn lemma_sign_keeps_wf(log: ActionLogView, id: nat, user: u32, user_count: nat)
    requires
        log.wf(),
        signers_registered(log, user_count),
        log.is_pending(id),
        1 <= user <= user_count,
    ensures
        log.sign(id, user).wf(),
        signers_registered(log.sign(id, user), user_count),
        log.sign(id, user).signers_of(id).contains(user),
{
    let next = log.sign(id, user);
    let row = log.signers[id - 1];
    lemma_with_signer(row, user);
    assert forall|i: int| 0 <= i < next.signers.len() implies (
    #[trigger] next.signers[i]).no_duplicates() by {
        if i != id - 1 {
            assert(next.signers[i] == log.signers[i]);
        }
    }
    assert forall|i: int|
        0 <= i < next.slots.len() && !(#[trigger] next.slots[i] is Pending)
            implies next.signers[i].len() == 0 by {
        if i != id - 1 {
            assert(next.signers[i] == log.signers[i]);
        }
    }
    assert forall|i: int, k: int|
        0 <= i < next.signers.len() && 0 <= k < next.signers[i].len() implies 1 <= (
    #[trigger] next.signers[i][k]) <= user_count by {
        if i == id - 1 {
            let signer = next.signers[i][k];
            assert(next.signers[i].contains(signer));
            if signer != user {
                let at = row.index_of(signer);
                assert(0 <= at < row.len() && row[at] == signer);
                assert(1 <= log.signers[id - 1][at] <= user_count);
            }
        } else {
            assert(next.signers[i] == log.signers[i]);
            assert(1 <= log.signers[i][k] <= user_count);
        }
    }
}

/// Unsigning keeps the log sound and adds no signer.
pub proof fn lemma_unsign_keeps_wf(log: ActionLogView, id: nat, user: u32, user_count: nat)
    requires
        log.wf(),
        signers_registered(log, user_count),
        log.is_pending(id),
    ensures
        log.unsign(id, user).wf(),
        signers_registered(log.unsign(id, user), user_count),
        !log.unsign(id, user).signers_of(id).contains(user),
{
    let next = log.unsign(id, user);
    let row = log.signers[id - 1];
    lemma_without_signer(row, user);
    assert forall|i: int| 0 <= i < next.signers.len() implies (
    #[trigger] next.signers[i]).no_duplicates() by {
        if i != id - 1 {
            assert(next.signers[i] == log.signers[i]);
        }
    }
    assert forall|i: int|
        0 <= i < next.slots.len() && !(#[trigger] next.slots[i] is Pending)
            implies next.signers[i].len() == 0 by {
        if i != id - 1 {
            assert(next.signers[i] == log.signers[i]);
        }
    }
    assert forall|i: int, k: int|
        0 <= i < next.signers.len() && 0 <= k < next.signers[i].len() implies 1 <= (
    #[trigger] next.signers[i][k]) <= user_count by {
        if i == id - 1 {
            let signer = next.signers[i][k];
            assert(next.signers[i].contains(signer));
            let at = row.index_of(signer);
            assert(0 <= at < row.len() && row[at] == signer);
            assert(1 <= log.signers[id - 1][at] <= user_count);
        } else {
            assert(next.signers[i] == log.signers[i]);
            assert(1 <= log.signers[i][k] <= user_count);
        }
    }
}

/// Clearing several actions keeps the log sound and adds no signer.
pub proof fn lemma_clear_all_keeps_wf(log: ActionLogView, ids: Seq<usize>, user_count: nat)
    requires
        log.wf(),
    ensures
        clear_all(log, ids).wf(),
        clear_all(log, ids).slots.len() == log.slots.len(),
        signers_registered(log, user_count) ==> signers_registered(clear_all(log, ids), user_count),
    decreases ids.len(),
{
    if ids.len() > 0 {
        lemma_clear_all_keeps_wf(log, ids.drop_last(), user_count);
        lemma_clear_keeps_wf(clear_all(log, ids.drop_last()), ids.last() as nat, false, user_count);
    }
}

} // verus!
