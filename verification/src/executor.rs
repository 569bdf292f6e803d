use crate::action::Action;
use crate::action_log::ActionLog;
use crate::address::Address;
use crate::board::lemma_change_user_role;
use crate::dedup::{without_batch, BatchDeduplicationIndex};
use crate::error::MultisigError;
use crate::gateway::ExternalCall;
use crate::model::{
    clear_all, lemma_clear_all_keeps_wf, lemma_clear_keeps_wf, settle_bucket, signers_registered,
};
use crate::multisig::Multisig;
use crate::quorum::valid_signer_count;
use crate::registry::{lemma_id_of_range, lemma_with_user_keeps_ids};
use crate::roles::{counter_step, lemma_count_positive};
use crate::user_role::UserRole;
use vstd::prelude::*;

verus! {

/// Settles the bookkeeping of an executed batch: where more than one proposal
/// was recorded for the batch, every one of them is cleared from the log; then
/// everything recorded for the batch is dropped from the index.
fn settle_batch(log: &mut ActionLog, index: &mut BatchDeduplicationIndex, batch_id: u64)
    requires
        old(log).wf(),
        old(index).wf(),
    ensures
        final(log).wf(),
        final(index).wf(),
        final(log)@ == settle_bucket(old(log)@, old(index)@, batch_id),
        final(index)@ == without_batch(old(index)@, batch_id),
        final(log)@.slots.len() == old(log)@.slots.len(),
        forall|user_count: nat|
            signers_registered(old(log)@, user_count) ==> signers_registered(
                final(log)@,
                user_count,
            ),
{
    let ids = index.action_ids(batch_id);
    if ids.len() > 1 {
        let mut i: usize = 0;
        proof {
            assert(ids@.take(0) =~= Seq::<usize>::empty());
        }
        while i < ids.len()
            invariant
                0 <= i <= ids.len(),
                old(log).wf(),
                log.wf(),
                log@ == clear_all(old(log)@, ids@.take(i as int)),
            decreases ids.len() - i,
        {
            proof {
                let prefix = ids@.take(i + 1);
                assert(prefix.drop_last() =~= ids@.take(i as int));
                assert(prefix.last() == ids@[i as int]);
            }
            log.clear(ids[i], false);
            i += 1;
        }
        proof {
            assert(ids@.take(i as int) =~= ids@);
        }
    }
    proof {
        assert forall|user_count: nat| signers_registered(old(log)@, user_count) implies signers_registered(
            log@,
            user_count,
        ) by {
            lemma_clear_all_keeps_wf(old(log)@, ids@, user_count);
        }
        lemma_clear_all_keeps_wf(old(log)@, ids@, 0);
    }
    index.clear_batch(batch_id);
}

impl Multisig {
    /// Whether moving `address` to `new_role` by an action would be accepted.
    fn check_role_change(&self, address: &Address, new_role: UserRole) -> (r: Result<
        (),
        MultisigError,
    >)
        requires
            self.wf(),
        ensures
            r == self@.role_change_result(*address, new_role),
    {
        let id = self.board.get_user_id(address);
        if id == 0 && self.board.get_user_count() == u32::MAX {
            return Err(MultisigError::LimitExceeded);
        }
        let old_role = self.board.get_user_id_to_role(id);
        let mut board_members: u64 = self.board.num_board_members() as u64;
        let mut proposers: u64 = self.board.num_proposers() as u64;
        proof {
            let board = self@.board;
            let next = board.change_user_role(*address, new_role);
            lemma_id_of_range(board.users, *address);
            lemma_with_user_keeps_ids(board.users, *address, *address);
            lemma_change_user_role(board, *address, new_role);
            assert(board.roles.role_of(next.id_of(*address)) == old_role);
            if 1 <= id <= board.roles.roles.len() {
                lemma_count_positive(board.roles.roles, id as nat, old_role);
            }
            assert(next.roles.num_board_members == board_members + counter_step(
                old_role,
                new_role,
                UserRole::BoardMember,
            ));
            assert(next.roles.num_proposers == proposers + counter_step(
                old_role,
                new_role,
                UserRole::Proposer,
            ));
        }
        match new_role {
            UserRole::BoardMember => {
                board_members = board_members + 1;
            },
            UserRole::Proposer => {
                proposers = proposers + 1;
            },
            UserRole::NoRole => {},
        }
        match old_role {
            UserRole::BoardMember => {
                board_members = board_members - 1;
            },
            UserRole::Proposer => {
                proposers = proposers - 1;
            },
            UserRole::NoRole => {},
        }
        let removes = match new_role {
            UserRole::NoRole => true,
            _ => false,
        };
        if removes && board_members + proposers == 0 {
            return Err(MultisigError::InvariantViolation);
        }
        if self.quorum as u64 > board_members {
            return Err(MultisigError::InvariantViolation);
        }
        Ok(())
    }

    /// Whether the effect of `action` would be accepted in this state.
    fn check_effect(&self, action: &Action) -> (r: Result<(), MultisigError>)
        requires
            self.wf(),
        ensures
            r == self@.effect_result(action@),
    {
        match action {
            Action::AddBoardMember(address) => self.check_role_change(
                address,
                UserRole::BoardMember,
            ),
            Action::AddProposer(address) => self.check_role_change(address, UserRole::Proposer),
            Action::RemoveUser(address) => self.check_role_change(address, UserRole::NoRole),
            Action::SlashUser(address) => {
                match self.check_role_change(address, UserRole::NoRole) {
                    Err(e) => Err(e),
                    Ok(()) => {
                        let id = self.board.get_user_id(address);
                        self.check_slash(address, id)
                    },
                }
            },
            Action::ChangeQuorum(quorum) => {
                if *quorum > self.board.num_board_members() {
                    Err(MultisigError::InvariantViolation)
                } else {
                    Ok(())
                }
            },
            _ => Ok(()),
        }
    }

    /// Whether slashing `address`, whose identifier before the action is
    /// `id`, would be accepted.
    fn check_slash(&self, address: &Address, id: u32) -> (r: Result<(), MultisigError>)
        requires
            self.wf(),
            id == self@.id_of(*address),
            self@.board.change_user_role_result(*address) is Ok,
        ensures
            r == self@.stakes.slash_result(
                self@.board.change_user_role(*address, UserRole::NoRole).id_of(*address),
            ),
    {
        proof {
            let board = self@.board;
            lemma_id_of_range(board.users, *address);
            lemma_with_user_keeps_ids(board.users, *address, *address);
        }
        let user: u32 = if id == 0 {
            self.board.get_user_count() + 1
        } else {
            id
        };
        let balance = self.stakes.balance_of(user);
        if balance < self.stakes.slash_amount() {
            return Err(MultisigError::InvariantViolation);
        }
        match self.stakes.slashed_tokens_amount().checked_add(self.stakes.slash_amount()) {
            Some(_) => Ok(()),
            None => Err(MultisigError::LimitExceeded),
        }
    }

    /// Executes pending action `action_id`: empties its slot, applies its
    /// effect and returns the call that is left to the caller. Neither the
    /// caller's role nor the quorum is looked at here.
    ///
    /// The slot is emptied before the effect runs, so the action cannot run a
    /// second time. Fails, changing nothing,
    /// - with `InvalidState` when the action is not pending;
    /// - with `InvariantViolation` when the effect would leave the quorum
    ///   above the board, remove the last user who can propose, or slash more
    ///   than is staked;
    /// - with `LimitExceeded` when a new user would need an identifier and
    ///   none is left, or the slashed pool would not fit.
    pub fn perform_action(&mut self, action_id: usize) -> (r: Result<ExternalCall, MultisigError>)
        requires
            old(self).wf(),
        ensures
            final(self).wf(),
            match r {
                Ok(call) => old(self)@.perform_result(action_id as nat) is Ok && final(self)@ == old(
                    self,
                )@.perform(action_id as nat) && call@ == old(self)@.perform_call(action_id as nat),
                Err(e) => old(self)@.perform_result(action_id as nat) == Err::<(), MultisigError>(
                    e,
                ) && final(self)@ == old(self)@,
            },
    {
        let check = match self.log.get_action(action_id) {
            Some(action) => self.check_effect(action),
            None => Err(MultisigError::InvalidState),
        };
        match check {
            Ok(()) => {},
            Err(e) => {
                return Err(e);
            },
        }
        proof {
            lemma_clear_keeps_wf(
                old(self)@.log,
                action_id as nat,
                true,
                old(self)@.board.users.len(),
            );
        }
        let action = match self.log.clear(action_id, true) {
            Some(action) => action,
            None => {
                return Err(MultisigError::InvalidState);
            },
        };
        match action {
            Action::Nothing => Ok(ExternalCall::NoCall),
            Action::AddBoardMember(address) => self.apply_role_change(
                &address,
                UserRole::BoardMember,
            ),
            Action::AddProposer(address) => self.apply_role_change(&address, UserRole::Proposer),
            Action::RemoveUser(address) => self.apply_role_change(&address, UserRole::NoRole),
            Action::SlashUser(address) => {
                proof {
                    lemma_change_user_role(self@.board, address, UserRole::NoRole);
                }
                match self.board.change_user_role(&address, UserRole::NoRole) {
                    Ok(id) => match self.stakes.slash(id) {
                        Ok(()) => Ok(ExternalCall::NoCall),
                        Err(e) => Err(e),
                    },
                    Err(e) => Err(e),
                }
            },
            Action::ChangeQuorum(quorum) => {
                self.quorum = quorum;
                Ok(ExternalCall::NoCall)
            },
            Action::DeployContract { amount, code, metadata, args } => Ok(
                ExternalCall::DeployContract { amount, code, metadata, args },
            ),
            Action::SetExternalBatchStatus { batch_id, statuses } => {
                settle_batch(&mut self.log, &mut self.status_batches, batch_id);
                Ok(
                    ExternalCall::SetTransactionBatchStatus {
                        service: self.esdt_safe_address,
                        batch_id,
                        statuses,
                    },
                )
            },
            Action::BatchTransferTokens { batch_id, transfers } => {
                settle_batch(&mut self.log, &mut self.transfer_batches, batch_id);
                Ok(
                    ExternalCall::BatchTransfer {
                        service: self.multi_transfer_esdt_address,
                        batch_id,
                        transfers,
                    },
                )
            },
        }
    }

    /// Moves `address` to `new_role` after the change was found acceptable.
    fn apply_role_change(&mut self, address: &Address, new_role: UserRole) -> (r: Result<
        ExternalCall,
        MultisigError,
    >)
        requires
            old(self)@.board.wf(),
            old(self)@.stakes.wf(),
            old(self)@.log.wf(),
            crate::dedup::index_wf(old(self)@.status_batches),
            crate::dedup::index_wf(old(self)@.transfer_batches),
            signers_registered(old(self)@.log, old(self)@.board.users.len()),
            old(self)@.role_change_result(*address, new_role) is Ok,
        ensures
            final(self).wf(),
            r is Ok,
            r->Ok_0@ == crate::gateway::ExternalCallView::NoCall,
            final(self)@ == (crate::model::MultisigView {
                board: old(self)@.board.change_user_role(*address, new_role),
                ..old(self)@
            }),
    {
        proof {
            lemma_change_user_role(self@.board, *address, new_role);
        }
        match self.board.change_user_role(address, new_role) {
            Ok(_) => Ok(ExternalCall::NoCall),
            Err(e) => Err(e),
        }
    }

    /// How many signers of action `action_id` count right now: those whose
    /// current role may sign and who hold the required stake. A signer who
    /// lost either since signing is not counted.
    pub fn get_action_valid_signer_count(&self, action_id: usize) -> (n: u32)
        requires
            self.wf(),
        ensures
            n == self@.valid_signer_count(action_id as nat),
    {
        let signers = self.log.get_signers(action_id);
        let n = valid_signer_count(&signers, self.board.roles(), &self.stakes);
        proof {
            let log = self@.log;
            if log.is_valid_action_id(action_id as nat) {
                let row = log.signers[action_id - 1];
                assert forall|k: int| 0 <= k < row.len() implies 1 <= #[trigger] row[k]
                    <= self@.board.users.len() by {
                    assert(1 <= log.signers[action_id - 1][k] <= self@.board.users.len());
                }
                crate::quorum::lemma_distinct_ids_bounded(row, self@.board.users.len());
            }
            crate::quorum::lemma_count_valid_bound(signers@, self@.board.roles, self@.stakes);
        }
        n as u32
    }
}

} // verus!
