use crate::action::{Action, TransactionStatus, Transfer};
use crate::address::Address;
use crate::dedup::{BatchContent, BatchContentView};
use crate::error::MultisigError;
use crate::gateway::{CurrentTxBatch, ExternalCall};
use crate::model::{
    lemma_clear_keeps_wf, lemma_propose_keeps_wf, lemma_sign_keeps_wf, lemma_unsign_keeps_wf,
};
use crate::multisig::Multisig;
use crate::registry::lemma_id_of_range;
use vstd::prelude::*;

verus! {

impl Multisig {
    /// Appends `action` to the log for `caller` and returns its identifier.
    /// Where the caller's role may sign, the new action starts out signed by
    /// the caller, and by nobody else.
    ///
    /// Fails, changing nothing, with `Unauthorized` when the caller is neither
    /// proposer nor board member, else with `LimitExceeded` when no action
    /// identifier is left.
    pub fn propose_action(&mut self, caller: &Address, action: Action) -> (r: Result<
        usize,
        MultisigError,
    >)
        requires
            old(self).wf(),
        ensures
            final(self).wf(),
            r == old(self)@.propose_result(*caller),
            r is Ok ==> final(self)@ == old(self)@.propose(*caller, action@),
            r is Err ==> final(self)@ == old(self)@,
    {
        let caller_id = self.board.get_user_id(caller);
        let caller_role = self.board.get_user_id_to_role(caller_id);
        if !caller_role.can_propose() {
            return Err(MultisigError::Unauthorized);
        }
        let signer = if caller_role.can_sign() {
            Some(caller_id)
        } else {
            None
        };
        proof {
            lemma_id_of_range(self@.board.users, *caller);
            lemma_propose_keeps_wf(self@.log, action@, signer, self@.board.users.len());
        }
        self.log.propose(action, signer)
    }

    /// Proposes the action that carries `content` for batch `batch_id` and
    /// records the pair, so that the same batch with the same content is not
    /// proposed a second time.
    ///
    /// Fails, changing nothing, with `DuplicateProposal` when the pair is
    /// recorded already, naming the action that holds it; else as
    /// `propose_action` does.
    pub fn propose_or_get(&mut self, caller: &Address, batch_id: u64, content: BatchContent) -> (r:
        Result<usize, MultisigError>)
        requires
            old(self).wf(),
        ensures
            final(self).wf(),
            r == old(self)@.propose_batch_result(*caller, batch_id, content@),
            r is Ok ==> final(self)@ == old(self)@.propose_batch(*caller, batch_id, content@),
            r is Err ==> final(self)@ == old(self)@,
    {
        let is_status_batch = match &content {
            BatchContent::Statuses(_) => true,
            BatchContent::Transfers(_) => false,
        };
        let existing = if is_status_batch {
            self.status_batches.get(batch_id, &content)
        } else {
            self.transfer_batches.get(batch_id, &content)
        };
        match existing {
            Some(action_id) => {
                return Err(MultisigError::DuplicateProposal(action_id));
            },
            None => {},
        }
        let recorded = content.duplicate();
        let action = content.into_action(batch_id);
        let action_id = match self.propose_action(caller, action) {
            Ok(action_id) => action_id,
            Err(e) => {
                return Err(e);
            },
        };
        let inserted = if is_status_batch {
            self.status_batches.insert(batch_id, recorded, action_id)
        } else {
            self.transfer_batches.insert(batch_id, recorded, action_id)
        };
        match inserted {
            Ok(()) => Ok(action_id),
            Err(e) => Err(e),
        }
    }

    /// Proposes to report `tx_batch_status` as the statuses of the safe
    /// service's batch `esdt_safe_batch_id`. `current_batch` is what the safe
    /// service answered when asked for its current batch, `None` when it has
    /// none.
    ///
    /// Fails, changing nothing,
    /// - with `ExternalCallFailure` when the safe service has no current batch;
    /// - else with `DuplicateProposal` when these statuses were proposed for
    ///   this batch before;
    /// - else with `InvalidState` when the number of statuses is not the
    ///   number of transactions in the current batch, or the current batch
    ///   has another identifier;
    /// - else as `propose_action` does.
    pub fn propose_esdt_safe_set_current_transaction_batch_status(
        &mut self,
        caller: &Address,
        esdt_safe_batch_id: u64,
        tx_batch_status: Vec<TransactionStatus>,
        current_batch: Option<CurrentTxBatch>,
    ) -> (r: Result<usize, MultisigError>)
        requires
            old(self).wf(),
        ensures
            final(self).wf(),
            r == old(self)@.propose_status_batch_result(
                *caller,
                esdt_safe_batch_id,
                tx_batch_status@,
                current_batch,
            ),
            r is Ok ==> final(self)@ == old(self)@.propose_batch(
                *caller,
                esdt_safe_batch_id,
                BatchContentView::Statuses(tx_batch_status@),
            ),
            r is Err ==> final(self)@ == old(self)@,
    {
        let current = match current_batch {
            Some(current) => current,
            None => {
                return Err(MultisigError::ExternalCallFailure);
            },
        };
        let status_batch_len = tx_batch_status.len();
        let content = BatchContent::Statuses(tx_batch_status);
        match self.status_batches.get(esdt_safe_batch_id, &content) {
            Some(action_id) => {
                return Err(MultisigError::DuplicateProposal(action_id));
            },
            None => {},
        }
        let current_batch_len = current.transaction_count();
        if current_batch_len != status_batch_len {
            return Err(MultisigError::InvalidState);
        }
        if esdt_safe_batch_id != current.batch_id {
            return Err(MultisigError::InvalidState);
        }
        self.propose_or_get(caller, esdt_safe_batch_id, content)
    }

    /// Proposes to run `transfers` as batch `batch_id` on the multi-transfer
    /// service.
    ///
    /// Fails, changing nothing, with `DuplicateProposal` when these transfers
    /// were proposed for this batch before, naming the action that holds
    /// them; else as `propose_action` does.
    pub fn propose_multi_transfer_esdt_batch(
        &mut self,
        caller: &Address,
        batch_id: u64,
        transfers: Vec<Transfer>,
    ) -> (r: Result<usize, MultisigError>)
        requires
            old(self).wf(),
        ensures
            final(self).wf(),
            r == old(self)@.propose_batch_result(
                *caller,
                batch_id,
                BatchContentView::Transfers(crate::action::transfers_view(transfers@)),
            ),
            r is Ok ==> final(self)@ == old(self)@.propose_batch(
                *caller,
                batch_id,
                BatchContentView::Transfers(crate::action::transfers_view(transfers@)),
            ),
            r is Err ==> final(self)@ == old(self)@,
    {
        self.propose_or_get(caller, batch_id, BatchContent::Transfers(transfers))
    }

    /// Adds `caller` to the signers of action `action_id`. Signing twice has
    /// no further effect.
    ///
    /// Fails, changing nothing, with `InvalidState` when the action is not
    /// pending, else with `Unauthorized` when the caller's role may not sign
    /// or the caller holds less than the required stake.
    pub fn sign(&mut self, caller: &Address, action_id: usize) -> (r: Result<(), MultisigError>)
        requires
            old(self).wf(),
        ensures
            final(self).wf(),
            r == old(self)@.sign_result(*caller, action_id as nat),
            r is Ok ==> final(self)@ == old(self)@.sign(*caller, action_id as nat),
            r is Err ==> final(self)@ == old(self)@,
    {
        if !self.log.is_pending(action_id) {
            return Err(MultisigError::InvalidState);
        }
        let caller_id = self.board.get_user_id(caller);
        let caller_role = self.board.get_user_id_to_role(caller_id);
        if !caller_role.can_sign() {
            return Err(MultisigError::Unauthorized);
        }
        if !self.stakes.has_enough_stake(caller_id) {
            return Err(MultisigError::Unauthorized);
        }
        proof {
            lemma_id_of_range(self@.board.users, *caller);
            lemma_sign_keeps_wf(self@.log, action_id as nat, caller_id, self@.board.users.len());
        }
        match self.log.sign(action_id, caller_id) {
            Ok(()) => Ok(()),
            Err(e) => Err(e),
        }
    }

    /// Removes `caller` from the signers of action `action_id`. Nothing
    /// changes when the caller had not signed.
    ///
    /// Fails, changing nothing, with `InvalidState` when the action is not
    /// pending, else with `Unauthorized` when the caller's role may not sign
    /// or the caller holds less than the required stake.
    pub fn unsign(&mut self, caller: &Address, action_id: usize) -> (r: Result<(), MultisigError>)
        requires
            old(self).wf(),
        ensures
            final(self).wf(),
            r == old(self)@.sign_result(*caller, action_id as nat),
            r is Ok ==> final(self)@ == old(self)@.unsign(*caller, action_id as nat),
            r is Err ==> final(self)@ == old(self)@,
    {
        if !self.log.is_pending(action_id) {
            return Err(MultisigError::InvalidState);
        }
        let caller_id = self.board.get_user_id(caller);
        let caller_role = self.board.get_user_id_to_role(caller_id);
        if !caller_role.can_sign() {
            return Err(MultisigError::Unauthorized);
        }
        if !self.stakes.has_enough_stake(caller_id) {
            return Err(MultisigError::Unauthorized);
        }
        proof {
            lemma_unsign_keeps_wf(self@.log, action_id as nat, caller_id, self@.board.users.len());
        }
        match self.log.unsign(action_id, caller_id) {
            Ok(()) => Ok(()),
            Err(e) => Err(e),
        }
    }

    /// Whether action `action_id` is backed by at least a quorum of signers
    /// whose signature counts right now.
    pub fn quorum_reached(&self, action_id: usize) -> (r: bool)
        requires
            self.wf(),
        ensures
            r == self@.quorum_reached(action_id as nat),
            r == (self@.valid_signer_count(action_id as nat) >= self@.quorum),
    {
        self.get_action_valid_signer_count(action_id) >= self.quorum
    }

    /// Clears action `action_id`, together with its signers, as discarded.
    /// Signatures of users who have lost their right to sign do not stand in
    /// the way. An identifier that names no pending action leaves the state
    /// as it is.
    ///
    /// Fails, changing nothing, with `Unauthorized` when the caller is neither
    /// proposer nor board member, else with `InvalidState` when a signer
    /// whose signature counts right now still backs the action.
    pub fn discard_action(&mut self, caller: &Address, action_id: usize) -> (r: Result<
        (),
        MultisigError,
    >)
        requires
            old(self).wf(),
        ensures
            final(self).wf(),
            r == old(self)@.discard_result(*caller, action_id as nat),
            r is Ok ==> final(self)@ == old(self)@.discard(action_id as nat),
            r is Err ==> final(self)@ == old(self)@,
    {
        let caller_role = self.board.user_role(caller);
        if !caller_role.can_discard_action() {
            return Err(MultisigError::Unauthorized);
        }
        if self.get_action_valid_signer_count(action_id) != 0 {
            return Err(MultisigError::InvalidState);
        }
        proof {
            lemma_clear_keeps_wf(
                self@.log,
                action_id as nat,
                false,
                self@.board.users.len(),
            );
        }
        self.log.clear(action_id, false);
        Ok(())
    }

    /// Executes action `action_id` for `caller`, once it is ratified, and
    /// returns the call that is left to the caller.
    ///
    /// Fails, changing nothing,
    /// - with `InvalidState` when the action is not pending;
    /// - else with `Unauthorized` when the caller is neither proposer nor
    ///   board member;
    /// - else with `InvalidState` when the quorum is not reached, or the
    ///   system is paused and the action is no slash;
    /// - else as `perform_action` does.
    pub fn perform_action_endpoint(&mut self, caller: &Address, action_id: usize) -> (r: Result<
        ExternalCall,
        MultisigError,
    >)
        requires
            old(self).wf(),
        ensures
            final(self).wf(),
            match r {
                Ok(call) => old(self)@.perform_endpoint_result(*caller, action_id as nat) is Ok
                    && final(self)@ == old(self)@.perform(action_id as nat) && call@ == old(
                    self,
                )@.perform_call(action_id as nat),
                Err(e) => old(self)@.perform_endpoint_result(*caller, action_id as nat) == Err::<
                    (),
                    MultisigError,
                >(e) && final(self)@ == old(self)@,
            },
    {
        let pause_exempt = match self.log.get_action(action_id) {
            Some(action) => action.is_pause_exempt(),
            None => {
                return Err(MultisigError::InvalidState);
            },
        };
        let caller_role = self.board.user_role(caller);
        if !caller_role.can_perform_action() {
            return Err(MultisigError::Unauthorized);
        }
        if !self.quorum_reached(action_id) {
            return Err(MultisigError::InvalidState);
        }
        if self.paused && !pause_exempt {
            return Err(MultisigError::InvalidState);
        }
        self.perform_action(action_id)
    }
}

} // verus!
