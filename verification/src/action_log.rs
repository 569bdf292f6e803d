use crate::action::{Action, ActionView};
use crate::error::MultisigError;
use vstd::prelude::*;

verus! {

/// One entry of the log: an action that waits, or how it was settled.
#[derive(Clone, Debug)]
pub enum ActionSlot {
    Pending(Action),
    Executed,
    Discarded,
}

/// An `ActionSlot` as a mathematical value.
pub enum ActionSlotView {
    Pending(ActionView),
    Executed,
    Discarded,
}

impl View for ActionSlot {
    type V = ActionSlotView;

    open spec fn view(&self) -> ActionSlotView {
        match *self {
            ActionSlot::Pending(action) => ActionSlotView::Pending(action@),
            ActionSlot::Executed => ActionSlotView::Executed,
            ActionSlot::Discarded => ActionSlotView::Discarded,
        }
    }
}

/// The slot an action is left in when it is settled.
pub open spec fn settled_slot(executed: bool) -> ActionSlotView {
    if executed {
        ActionSlotView::Executed
    } else {
        ActionSlotView::Discarded
    }
}

/// `signers` with `user` among them.
pub open spec fn with_signer(signers: Seq<u32>, user: u32) -> Seq<u32> {
    if signers.contains(user) {
        signers
    } else {
        signers.push(user)
    }
}

/// `signers` without `user`: the last signer takes the place of `user`.
pub open spec fn without_signer(signers: Seq<u32>, user: u32) -> Seq<u32> {
    if signers.contains(user) {
        signers.update(signers.index_of(user), signers.last()).drop_last()
    } else {
        signers
    }
}

/// In a sequence without duplicates, `index_of` finds the one position.
pub proof fn lemma_index_of_unique(signers: Seq<u32>, i: int)
    requires
        signers.no_duplicates(),
        0 <= i < signers.len(),
    ensures
        signers.contains(signers[i]),
        signers.index_of(signers[i]) == i,
{
    assert(signers.contains(signers[i]));
    let k = signers.index_of(signers[i]);
    assert(0 <= k < signers.len() && signers[k] == signers[i]);
}

/// Adding a signer keeps the set free of duplicates and adds only that signer.
pub proof fn lemma_with_signer(signers: Seq<u32>, user: u32)
    requires
        signers.no_duplicates(),
    ensures
        with_signer(signers, user).no_duplicates(),
        with_signer(signers, user).contains(user),
        forall|other: u32|
            with_signer(signers, user).contains(other) <==> signers.contains(other) || other
                == user,
{
    let next = with_signer(signers, user);
    if !signers.contains(user) {
        assert forall|i: int, j: int| 0 <= i < next.len() && 0 <= j < next.len() && i != j implies next[i] != next[j] by {
            if i < signers.len() {
                assert(signers.contains(signers[i]));
            }
            if j < signers.len() {
                assert(signers.contains(signers[j]));
            }
        }
        assert(next[signers.len() as int] == user);
        assert forall|other: u32| next.contains(other) <==> signers.contains(other) || other
            == user by {
            if signers.contains(other) {
                let k = signers.index_of(other);
                assert(0 <= k < signers.len() && signers[k] == other);
                assert(next[k] == other);
            }
            if next.contains(other) && other != user {
                let k = next.index_of(other);
                assert(0 <= k < next.len() && next[k] == other);
                assert(signers[k] == other);
            }
        }
    }
}

/// Removing a signer keeps the set free of duplicates and removes only that
/// signer.
pub proof fn lemma_without_signer(signers: Seq<u32>, user: u32)
    requires
        signers.no_duplicates(),
    ensures
        without_signer(signers, user).no_duplicates(),
        !without_signer(signers, user).contains(user),
        forall|other: u32|
            without_signer(signers, user).contains(other) <==> signers.contains(other) && other
                != user,
{
    let next = without_signer(signers, user);
    if signers.contains(user) {
        let at = signers.index_of(user);
        let last = signers.len() - 1;
        assert(0 <= at < signers.len() && signers[at] == user);
        assert forall|i: int| 0 <= i < next.len() implies next[i] == if i == at {
            signers[last]
        } else {
            signers[i]
        } by {}
        assert forall|i: int, j: int| 0 <= i < next.len() && 0 <= j < next.len() && i != j implies next[i] != next[j] by {}
        assert forall|other: u32| next.contains(other) <==> signers.contains(other) && other
            != user by {
            if next.contains(other) {
                let k = next.index_of(other);
                assert(0 <= k < next.len() && next[k] == other);
                if k == at {
                    assert(signers[last] == other);
                } else {
                    assert(signers[k] == other);
                }
            }
            if signers.contains(other) && other != user {
                let k = signers.index_of(other);
                assert(0 <= k < signers.len() && signers[k] == other);
                if k == last {
                    assert(next[at] == other);
                } else {
                    assert(next[k] == other);
                }
            }
        }
    } else {
        assert forall|other: u32| next.contains(other) <==> signers.contains(other) && other
            != user by {}
    }
}

/// The log of proposed actions and, for each, the users who back it.
pub struct ActionLogView {
    pub slots: Seq<ActionSlotView>,
    pub signers: Seq<Seq<u32>>,
}

impl ActionLogView {
    /// Each action has a signer set without duplicates, and a settled action
    /// has no signers left.
    pub open spec fn wf(self) -> bool {
        &&& self.slots.len() == self.signers.len()
        &&& forall|i: int| 0 <= i < self.signers.len() ==> (#[trigger] self.signers[i]).no_duplicates()
        &&& forall|i: int|
            0 <= i < self.slots.len() && !(#[trigger] self.slots[i] is Pending)
                ==> self.signers[i].len() == 0
    }

    /// Identifiers run from 1 to the number of actions proposed so far.
    pub open spec fn is_valid_action_id(self, id: nat) -> bool {
        1 <= id <= self.slots.len()
    }

    /// Whether action `id` exists and is neither executed nor discarded.
    pub open spec fn is_pending(self, id: nat) -> bool {
        self.is_valid_action_id(id) && self.slots[id - 1] is Pending
    }

    /// Whether action `id` exists and was executed.
    pub open spec fn was_executed(self, id: nat) -> bool {
        self.is_valid_action_id(id) && self.slots[id - 1] is Executed
    }

    /// The payload of action `id` while it is pending.
    pub open spec fn action_data(self, id: nat) -> Option<ActionView> {
        if self.is_valid_action_id(id) {
            match self.slots[id - 1] {
                ActionSlotView::Pending(action) => Some(action),
                _ => None,
            }
        } else {
            None
        }
    }

    /// The users who back action `id`; nobody for an identifier not in use.
    pub open spec fn signers_of(self, id: nat) -> Seq<u32> {
        if 1 <= id <= self.signers.len() {
            self.signers[id - 1]
        } else {
            Seq::empty()
        }
    }

    /// The log after `action` was appended, signed by `signer` if there is one.
    pub open spec fn propose(self, action: ActionView, signer: Option<u32>) -> ActionLogView {
        ActionLogView {
            slots: self.slots.push(ActionSlotView::Pending(action)),
            signers: self.signers.push(
                match signer {
                    Some(user) => seq![user],
                    None => Seq::empty(),
                },
            ),
        }
    }

    /// The log after `user` signed pending action `id`.
    pub open spec fn sign(self, id: nat, user: u32) -> ActionLogView
        recommends
            self.is_pending(id),
    {
        ActionLogView {
            signers: self.signers.update(id - 1, with_signer(self.signers_of(id), user)),
            ..self
        }
    }

    /// The log after `user` withdrew from pending action `id`.
    pub open spec fn unsign(self, id: nat, user: u32) -> ActionLogView
        recommends
            self.is_pending(id),
    {
        ActionLogView {
            signers: self.signers.update(id - 1, without_signer(self.signers_of(id), user)),
            ..self
        }
    }

    /// The log after action `id` was cleared: a pending action is settled as
    /// executed or discarded and loses its signers; any other identifier
    /// leaves the log as it is.
    pub open spec fn clear(self, id: nat, executed: bool) -> ActionLogView {
        if self.is_pending(id) {
            ActionLogView {
                slots: self.slots.update(id - 1, settled_slot(executed)),
                signers: self.signers.update(id - 1, Seq::empty()),
            }
        } else {
            self
        }
    }
}

/// The identifiers up to `upto` of the actions that are pending, ascending.
pub open spec fn pending_ids(log: ActionLogView, upto: nat) -> Seq<usize>
    decreases upto,
{
    if upto == 0 {
        Seq::empty()
    } else if log.is_pending(upto) {
        pending_ids(log, (upto - 1) as nat).push(upto as usize)
    } else {
        pending_ids(log, (upto - 1) as nat)
    }
}

/// The slots of a log as mathematical values.
pub open spec fn slots_view(slots: Seq<ActionSlot>) -> Seq<ActionSlotView> {
    slots.map_values(|s: ActionSlot| s@)
}

/// The signer sets of a log as mathematical values.
pub open spec fn signers_view(signers: Seq<Vec<u32>>) -> Seq<Seq<u32>> {
    signers.map_values(|s: Vec<u32>| s@)
}

/// The position of `user` in `signers`, if it is there.
fn position_of(signers: &Vec<u32>, user: u32) -> (r: Option<usize>)
    ensures
        r is Some <==> signers@.contains(user),
        r matches Some(i) ==> i < signers@.len() && signers@[i as int] == user,
{
    let mut i: usize = 0;
    while i < signers.len()
        invariant
            0 <= i <= signers.len(),
            forall|j: int| 0 <= j < i ==> signers@[j] != user,
        decreases signers.len() - i,
    {
        if signers[i] == user {
            return Some(i);
        }
        i += 1;
    }
    None
}

/// Append-only store of proposed actions, numbered from 1, each with the set
/// of users who currently back it.
#[derive(Clone, Debug)]
pub struct ActionLog {
    slots: Vec<ActionSlot>,
    signers: Vec<Vec<u32>>,
}

impl View for ActionLog {
    type V = ActionLogView;

    closed spec fn view(&self) -> ActionLogView {
        ActionLogView { slots: slots_view(self.slots@), signers: signers_view(self.signers@) }
    }
}

impl ActionLog {
    /// The log is sound: see `ActionLogView::wf`.
    pub open spec fn wf(&self) -> bool {
        self@.wf()
    }

    /// A log without actions.
    pub fn new() -> (r: ActionLog)
        ensures
            r.wf(),
            r@ == (ActionLogView { slots: Seq::empty(), signers: Seq::empty() }),
    {
        let r = ActionLog { slots: Vec::new(), signers: Vec::new() };
        proof {
            assert(r@.slots =~= Seq::empty());
            assert(r@.signers =~= Seq::empty());
        }
        r
    }

    /// The identifier of the action proposed last; 0 before any proposal.
    pub fn len(&self) -> (n: usize)
        ensures
            n == self@.slots.len(),
    {
        self.slots.len()
    }

    /// Whether `id` names an action that was proposed at some time.
    pub fn is_valid_action_id(&self, id: usize) -> (r: bool)
        ensures
            r == self@.is_valid_action_id(id as nat),
    {
        let min_id: usize = 1;
        let max_id: usize = self.slots.len();
        id >= min_id && id <= max_id
    }

    /// Whether action `id` waits for signatures or execution.
    pub fn is_pending(&self, id: usize) -> (r: bool)
        ensures
            r == self@.is_pending(id as nat),
    {
        if self.is_valid_action_id(id) {
            match &self.slots[id - 1] {
                ActionSlot::Pending(_) => true,
                _ => false,
            }
        } else {
            false
        }
    }

    /// Whether action `id` was executed. An identifier not in use, a pending
    /// action and a discarded one all give `false`.
    pub fn was_executed(&self, id: usize) -> (r: bool)
        ensures
            r == self@.was_executed(id as nat),
    {
        if self.is_valid_action_id(id) {
            match &self.slots[id - 1] {
                ActionSlot::Executed => true,
                _ => false,
            }
        } else {
            false
        }
    }

    /// The identifiers of the pending actions, ascending.
    pub fn get_pending_ids(&self) -> (ids: Vec<usize>)
        ensures
            ids@ == pending_ids(self@, self@.slots.len()),
    {
        let mut ids: Vec<usize> = Vec::new();
        let mut id: usize = 0;
        while id < self.slots.len()
            invariant
                0 <= id <= self.slots.len(),
                ids@ == pending_ids(self@, id as nat),
            decreases self.slots.len() - id,
        {
            id += 1;
            if self.is_pending(id) {
                ids.push(id);
            }
        }
        ids
    }

    /// The payload of action `id` while it is pending.
    pub fn get_action(&self, id: usize) -> (r: Option<&Action>)
        ensures
            r is Some <==> self@.is_pending(id as nat),
            match r {
                Some(action) => Some(action@) == self@.action_data(id as nat),
                None => self@.action_data(id as nat) is None,
            },
    {
        if self.is_valid_action_id(id) {
            match &self.slots[id - 1] {
                ActionSlot::Pending(action) => Some(action),
                _ => None,
            }
        } else {
            None
        }
    }

    /// The identifiers of the users who back action `id`.
    pub fn get_signers(&self, id: usize) -> (r: Vec<u32>)
        requires
            self.wf(),
        ensures
            r@ == self@.signers_of(id as nat),
    {
        let mut copy: Vec<u32> = Vec::new();
        if self.is_valid_action_id(id) {
            let row = &self.signers[id - 1];
            let mut i: usize = 0;
            while i < row.len()
                invariant
                    0 <= i <= row.len(),
                    copy@ == row@.take(i as int),
                decreases row.len() - i,
            {
                copy.push(row[i]);
                proof {
                    assert(copy@ =~= row@.take(i + 1));
                }
                i += 1;
            }
            proof {
                assert(row@.take(i as int) =~= row@);
            }
        }
        copy
    }

    /// Appends `action` and returns its identifier. With `Some` signer the new
    /// action starts out backed by that user alone.
    ///
    /// Fails with `LimitExceeded`, changing nothing, exactly when no
    /// identifier is left.
    pub fn propose(&mut self, action: Action, signer: Option<u32>) -> (r: Result<
        usize,
        MultisigError,
    >)
        requires
            old(self).wf(),
        ensures
            final(self).wf(),
            r is Err <==> old(self)@.slots.len() == usize::MAX,
            r is Err ==> r->Err_0 == MultisigError::LimitExceeded && final(self)@ == old(self)@,
            r matches Ok(id) ==> id == old(self)@.slots.len() + 1 && final(self)@ == old(
                self,
            )@.propose(action@, signer),
    {
        if self.slots.len() == usize::MAX {
            return Err(MultisigError::LimitExceeded);
        }
        let mut row: Vec<u32> = Vec::new();
        match signer {
            Some(user) => {
                row.push(user);
            },
            None => {},
        }
        proof {
            assert(row@ =~= match signer {
                Some(user) => seq![user],
                None => Seq::empty(),
            });
        }
        let ghost action_view = action@;
        self.slots.push(ActionSlot::Pending(action));
        self.signers.push(row);
        proof {
            let next = old(self)@.propose(action_view, signer);
            assert(self@.slots =~= next.slots);
            assert(self@.signers =~= next.signers);
        }
        Ok(self.slots.len())
    }

    /// Adds `user` to the signers of action `id`; signing twice has no
    /// further effect.
    ///
    /// Fails with `InvalidState`, changing nothing, exactly when the action
    /// is not pending.
    pub fn sign(&mut self, id: usize, user: u32) -> (r: Result<(), MultisigError>)
        requires
            old(self).wf(),
        ensures
            final(self).wf(),
            r is Err <==> !old(self)@.is_pending(id as nat),
            r is Err ==> r->Err_0 == MultisigError::InvalidState && final(self)@ == old(self)@,
            r is Ok ==> final(self)@ == old(self)@.sign(id as nat, user),
    {
        if !self.is_pending(id) {
            return Err(MultisigError::InvalidState);
        }
        let index: usize = id - 1;
        proof {
            lemma_with_signer(old(self)@.signers[index as int], user);
        }
        if position_of(&self.signers[index], user).is_none() {
            self.signers[index].push(user);
        }
        proof {
            assert(self@.slots =~= old(self)@.slots);
            assert(self@.signers =~= old(self)@.sign(id as nat, user).signers);
        }
        Ok(())
    }

    /// Removes `user` from the signers of action `id`; nothing changes when
    /// the user had not signed.
    ///
    /// Fails with `InvalidState`, changing nothing, exactly when the action
    /// is not pending.
    pub fn unsign(&mut self, id: usize, user: u32) -> (r: Result<(), MultisigError>)
        requires
            old(self).wf(),
        ensures
            final(self).wf(),
            r is Err <==> !old(self)@.is_pending(id as nat),
            r is Err ==> r->Err_0 == MultisigError::InvalidState && final(self)@ == old(self)@,
            r is Ok ==> final(self)@ == old(self)@.unsign(id as nat, user),
    {
        if !self.is_pending(id) {
            return Err(MultisigError::InvalidState);
        }
        let index: usize = id - 1;
        proof {
            lemma_without_signer(old(self)@.signers[index as int], user);
        }
        match position_of(&self.signers[index], user) {
            Some(at) => {
                proof {
                    lemma_index_of_unique(old(self)@.signers[index as int], at as int);
                }
                self.signers[index].swap_remove(at);
            },
            None => {},
        }
        proof {
            assert(self@.slots =~= old(self)@.slots);
            assert(self@.signers =~= old(self)@.unsign(id as nat, user).signers);
        }
        Ok(())
    }

    /// Empties the slot and the signer set of pending action `id`, marking it
    /// executed or discarded, and hands the action out. Any other identifier
    /// leaves the log as it is and gives `None`.
    pub fn clear(&mut self, id: usize, executed: bool) -> (r: Option<Action>)
        requires
            old(self).wf(),
        ensures
            final(self).wf(),
            final(self)@ == old(self)@.clear(id as nat, executed),
            match r {
                Some(action) => Some(action@) == old(self)@.action_data(id as nat),
                None => old(self)@.action_data(id as nat) is None,
            },
    {
        if !self.is_pending(id) {
            return None;
        }
        let index: usize = id - 1;
        let mut slot = if executed {
            ActionSlot::Executed
        } else {
            ActionSlot::Discarded
        };
        core::mem::swap(&mut self.slots[index], &mut slot);
        self.signers.set(index, Vec::new());
        proof {
            let next = old(self)@.clear(id as nat, executed);
            assert(self@.slots =~= next.slots);
            assert(self@.signers =~= next.signers);
        }
        match slot {
            ActionSlot::Pending(action) => Some(action),
            _ => None,
        }
    }
}

} // verus!
