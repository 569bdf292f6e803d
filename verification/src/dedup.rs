use crate::action::{
    copy_statuses, copy_transfers, statuses_equal, transfers_equal, transfers_view, Action,
    ActionView, TransactionStatus, Transfer, TransferView,
};
use crate::error::MultisigError;
use vstd::prelude::*;

verus! {

/// What a batch holds: the part of a batch proposal that, together with the
/// batch identifier, tells one proposal from another.
#[derive(Clone, Debug)]
pub enum BatchContent {
    Statuses(Vec<TransactionStatus>),
    Transfers(Vec<Transfer>),
}

/// A `BatchContent` as a mathematical value.
pub enum BatchContentView {
    Statuses(Seq<TransactionStatus>),
    Transfers(Seq<TransferView>),
}

impl View for BatchContent {
    type V = BatchContentView;

    open spec fn view(&self) -> BatchContentView {
        match *self {
            BatchContent::Statuses(statuses) => BatchContentView::Statuses(statuses@),
            BatchContent::Transfers(transfers) => BatchContentView::Transfers(
                transfers_view(transfers@),
            ),
        }
    }
}

impl BatchContentView {
    /// The action that carries this content for batch `batch_id`.
    pub open spec fn to_action(self, batch_id: u64) -> ActionView {
        match self {
            BatchContentView::Statuses(statuses) => ActionView::SetExternalBatchStatus {
                batch_id,
                statuses,
            },
            BatchContentView::Transfers(transfers) => ActionView::BatchTransferTokens {
                batch_id,
                transfers,
            },
        }
    }
}

impl BatchContent {
    /// Whether two contents are of the same kind and hold the same items in
    /// the same order.
    pub fn same(&self, other: &BatchContent) -> (r: bool)
        ensures
            r == (self@ == other@),
    {
        match (self, other) {
            (BatchContent::Statuses(a), BatchContent::Statuses(b)) => statuses_equal(a, b),
            (BatchContent::Transfers(a), BatchContent::Transfers(b)) => transfers_equal(a, b),
            _ => false,
        }
    }

    /// A fresh copy of the content.
    pub fn duplicate(&self) -> (copy: BatchContent)
        ensures
            copy@ == self@,
    {
        match self {
            BatchContent::Statuses(statuses) => BatchContent::Statuses(copy_statuses(statuses)),
            BatchContent::Transfers(transfers) => BatchContent::Transfers(
                copy_transfers(transfers),
            ),
        }
    }

    /// The action that carries this content for batch `batch_id`.
    pub fn into_action(self, batch_id: u64) -> (action: Action)
        ensures
            action@ == self@.to_action(batch_id),
    {
        match self {
            BatchContent::Statuses(statuses) => Action::SetExternalBatchStatus {
                batch_id,
                statuses,
            },
            BatchContent::Transfers(transfers) => Action::BatchTransferTokens {
                batch_id,
                transfers,
            },
        }
    }
}

/// One recorded proposal: the batch, what it held, and the action it became.
#[derive(Clone, Debug)]
pub struct DedupEntry {
    pub batch_id: u64,
    pub content: BatchContent,
    pub action_id: usize,
}

/// A `DedupEntry` as a mathematical value.
pub struct DedupEntryView {
    pub batch_id: u64,
    pub content: BatchContentView,
    pub action_id: usize,
}

impl View for DedupEntry {
    type V = DedupEntryView;

    open spec fn view(&self) -> DedupEntryView {
        DedupEntryView {
            batch_id: self.batch_id,
            content: self.content@,
            action_id: self.action_id,
        }
    }
}

/// The entries of an index as mathematical values.
pub open spec fn entries_view(entries: Seq<DedupEntry>) -> Seq<DedupEntryView> {
    entries.map_values(|e: DedupEntry| e@)
}

/// Whether `entry` records the proposal of `content` for batch `batch_id`.
pub open spec fn has_key(entry: DedupEntryView, batch_id: u64, content: BatchContentView) -> bool {
    entry.batch_id == batch_id && entry.content == content
}

/// The action recorded for `(batch_id, content)`, if there is one.
pub open spec fn lookup(entries: Seq<DedupEntryView>, batch_id: u64, content: BatchContentView)
    -> Option<usize>
    decreases entries.len(),
{
    if entries.len() == 0 {
        None
    } else if has_key(entries.last(), batch_id, content) {
        Some(entries.last().action_id)
    } else {
        lookup(entries.drop_last(), batch_id, content)
    }
}

/// The actions recorded for batch `batch_id`, in the order of their proposal.
pub open spec fn bucket_ids(entries: Seq<DedupEntryView>, batch_id: u64) -> Seq<usize>
    decreases entries.len(),
{
    if entries.len() == 0 {
        Seq::empty()
    } else if entries.last().batch_id == batch_id {
        bucket_ids(entries.drop_last(), batch_id).push(entries.last().action_id)
    } else {
        bucket_ids(entries.drop_last(), batch_id)
    }
}

/// The entries that are left when everything recorded for batch `batch_id`
/// is dropped.
pub open spec fn without_batch(entries: Seq<DedupEntryView>, batch_id: u64) -> Seq<DedupEntryView>
    decreases entries.len(),
{
    if entries.len() == 0 {
        Seq::empty()
    } else if entries.last().batch_id == batch_id {
        without_batch(entries.drop_last(), batch_id)
    } else {
        without_batch(entries.drop_last(), batch_id).push(entries.last())
    }
}

/// No two entries record the same `(batch_id, content)`.
pub open spec fn index_wf(entries: Seq<DedupEntryView>) -> bool {
    forall|i: int, j: int|
        0 <= i < entries.len() && 0 <= j < entries.len() && i != j ==> !has_key(
            #[trigger] entries[j],
            (#[trigger] entries[i]).batch_id,
            entries[i].content,
        )
}

/// A lookup finds an entry with the key, and finds none only when there is
/// none.
pub proof fn lemma_lookup(entries: Seq<DedupEntryView>, batch_id: u64, content: BatchContentView)
    ensures
        lookup(entries, batch_id, content) is None <==> forall|i: int|
            0 <= i < entries.len() ==> !has_key(#[trigger] entries[i], batch_id, content),
        lookup(entries, batch_id, content) matches Some(id) ==> exists|i: int|
            0 <= i < entries.len() && has_key(#[trigger] entries[i], batch_id, content)
                && entries[i].action_id == id,
    decreases entries.len(),
{
    if entries.len() > 0 {
        let rest = entries.drop_last();
        lemma_lookup(rest, batch_id, content);
        let at = entries.len() - 1;
        assert(entries.last() == entries[at]);
        if has_key(entries.last(), batch_id, content) {
            assert(has_key(entries[at], batch_id, content));
        } else {
            assert forall|i: int| 0 <= i < rest.len() implies rest[i] == entries[i] by {}
            if lookup(rest, batch_id, content) is Some {
                let i = choose|i: int|
                    0 <= i < rest.len() && has_key(#[trigger] rest[i], batch_id, content)
                        && rest[i].action_id == lookup(rest, batch_id, content)->Some_0;
                assert(has_key(entries[i], batch_id, content));
            } else {
                assert forall|i: int| 0 <= i < entries.len() implies !has_key(
                    #[trigger] entries[i],
                    batch_id,
                    content,
                ) by {
                    if i < rest.len() {
                        assert(!has_key(rest[i], batch_id, content));
                    }
                }
            }
        }
    }
}

/// Recording a proposal whose key is new keeps the keys distinct; the new key
/// is then found, and every other lookup is as before.
pub proof fn lemma_insert(entries: Seq<DedupEntryView>, entry: DedupEntryView)
    requires
        index_wf(entries),
        lookup(entries, entry.batch_id, entry.content) is None,
    ensures
        index_wf(entries.push(entry)),
        forall|batch_id: u64, content: BatchContentView|
            #[trigger] lookup(entries.push(entry), batch_id, content) == if has_key(
                entry,
                batch_id,
                content,
            ) {
                Some(entry.action_id)
            } else {
                lookup(entries, batch_id, content)
            },
{
    let next = entries.push(entry);
    assert(next.drop_last() =~= entries);
    lemma_lookup(entries, entry.batch_id, entry.content);
    assert forall|i: int, j: int|
        0 <= i < next.len() && 0 <= j < next.len() && i != j implies !has_key(
        #[trigger] next[j],
        (#[trigger] next[i]).batch_id,
        next[i].content,
    ) by {
        if i < entries.len() && j < entries.len() {
            assert(!has_key(entries[j], entries[i].batch_id, entries[i].content));
        } else if i < entries.len() {
            assert(!has_key(entries[i], entry.batch_id, entry.content));
        } else {
            assert(!has_key(entries[j], entry.batch_id, entry.content));
        }
    }
}

/// What dropping a batch leaves: only entries that were there, none of the
/// dropped batch, distinct keys, and every lookup outside the batch as before.
pub proof fn lemma_without_batch(entries: Seq<DedupEntryView>, dropped: u64)
    ensures
        without_batch(entries, dropped).len() + bucket_ids(entries, dropped).len()
            == entries.len(),
        forall|i: int|
            0 <= i < without_batch(entries, dropped).len() ==> entries.contains(
                #[trigger] without_batch(entries, dropped)[i],
            ) && without_batch(entries, dropped)[i].batch_id != dropped,
        index_wf(entries) ==> index_wf(without_batch(entries, dropped)),
        forall|batch_id: u64, content: BatchContentView|
            #[trigger] lookup(without_batch(entries, dropped), batch_id, content) == if batch_id
                == dropped {
                None
            } else {
                lookup(entries, batch_id, content)
            },
        bucket_ids(without_batch(entries, dropped), dropped).len() == 0,
    decreases entries.len(),
{
    if entries.len() > 0 {
        let rest = entries.drop_last();
        let last = entries.last();
        let kept = without_batch(rest, dropped);
        let next = without_batch(entries, dropped);
        lemma_without_batch(rest, dropped);
        assert(entries[entries.len() - 1] == last);
        assert forall|i: int| 0 <= i < rest.len() implies rest[i] == entries[i] by {}
        assert forall|batch_id: u64, content: BatchContentView| #[trigger]
            lookup(next, batch_id, content) == if batch_id == dropped {
                None
            } else {
                lookup(entries, batch_id, content)
            } by {
            assert(lookup(kept, batch_id, content) == if batch_id == dropped {
                None
            } else {
                lookup(rest, batch_id, content)
            });
            if last.batch_id != dropped {
                assert(next =~= kept.push(last));
                assert(next.drop_last() =~= kept);
                assert(next.last() == last);
            }
        }
        assert forall|i: int| 0 <= i < kept.len() implies entries.contains(#[trigger] kept[i]) by {
            assert(rest.contains(kept[i]));
            let k = rest.index_of(kept[i]);
            assert(0 <= k < rest.len() && rest[k] == kept[i]);
            assert(entries[k] == kept[i]);
        }
        if last.batch_id != dropped {
            assert(next.drop_last() =~= kept);
            assert(next.last() == last);
            assert forall|i: int| 0 <= i < next.len() implies entries.contains(#[trigger] next[i])
                && next[i].batch_id != dropped by {
                if i < kept.len() {
                    assert(next[i] == kept[i]);
                }
            }
            if index_wf(entries) {
                assert(index_wf(rest));
                assert forall|i: int, j: int|
                    0 <= i < next.len() && 0 <= j < next.len() && i != j implies !has_key(
                    #[trigger] next[j],
                    (#[trigger] next[i]).batch_id,
                    next[i].content,
                ) by {
                    if i < kept.len() && j < kept.len() {
                        assert(next[i] == kept[i] && next[j] == kept[j]);
                        assert(!has_key(kept[j], kept[i].batch_id, kept[i].content));
                    } else {
                        let inner = if i < kept.len() {
                            i
                        } else {
                            j
                        };
                        assert(next[inner] == kept[inner]);
                        assert(rest.contains(kept[inner]));
                        let k = rest.index_of(kept[inner]);
                        assert(0 <= k < rest.len() && rest[k] == kept[inner]);
                        assert(entries[k] == kept[inner]);
                        assert(!has_key(
                            entries[k],
                            entries[entries.len() - 1].batch_id,
                            entries[entries.len() - 1].content,
                        ));
                        assert(!has_key(
                            entries[entries.len() - 1],
                            entries[k].batch_id,
                            entries[k].content,
                        ));
                    }
                }
            }
        } else {
            if index_wf(entries) {
                assert(index_wf(rest));
            }
        }
    }
}

/// Remembers which batches were proposed, so that the same batch with the same
/// content is not proposed twice.
#[derive(Clone, Debug)]
pub struct BatchDeduplicationIndex {
    entries: Vec<DedupEntry>,
}

impl View for BatchDeduplicationIndex {
    type V = Seq<DedupEntryView>;

    closed spec fn view(&self) -> Seq<DedupEntryView> {
        entries_view(self.entries@)
    }
}

impl BatchDeduplicationIndex {
    /// No pair of batch and content is recorded twice.
    pub open spec fn wf(&self) -> bool {
        index_wf(self@)
    }

    /// An index without entries.
    pub fn new() -> (r: BatchDeduplicationIndex)
        ensures
            r.wf(),
            r@ == Seq::<DedupEntryView>::empty(),
    {
        let r = BatchDeduplicationIndex { entries: Vec::new() };
        proof {
            assert(r@ =~= Seq::<DedupEntryView>::empty());
        }
        r
    }

    /// The action recorded for `(batch_id, content)`, if there is one.
    pub fn get(&self, batch_id: u64, content: &BatchContent) -> (r: Option<usize>)
        ensures
            r == lookup(self@, batch_id, content@),
    {
        let mut i: usize = self.entries.len();
        proof {
            assert(self@.take(i as int) =~= self@);
        }
        while i > 0
            invariant
                0 <= i <= self.entries.len(),
                lookup(self@, batch_id, content@) == lookup(
                    self@.take(i as int),
                    batch_id,
                    content@,
                ),
            decreases i,
        {
            let ghost prefix = self@.take(i as int);
            i -= 1;
            proof {
                assert(prefix.last() == self.entries@[i as int]@);
                assert(prefix.drop_last() =~= self@.take(i as int));
            }
            let entry = &self.entries[i];
            if entry.batch_id == batch_id && entry.content.same(content) {
                return Some(entry.action_id);
            }
        }
        None
    }

    /// Records that `content` was proposed for batch `batch_id` as action
    /// `action_id`.
    ///
    /// Fails with `DuplicateProposal`, naming the recorded action and
    /// changing nothing, exactly when the pair is recorded already.
    pub fn insert(&mut self, batch_id: u64, content: BatchContent, action_id: usize) -> (r: Result<
        (),
        MultisigError,
    >)
        requires
            old(self).wf(),
        ensures
            final(self).wf(),
            match lookup(old(self)@, batch_id, content@) {
                Some(existing) => r == Err::<(), MultisigError>(
                    MultisigError::DuplicateProposal(existing),
                ) && final(self)@ == old(self)@,
                None => r is Ok && final(self)@ == old(self)@.push(
                    DedupEntryView { batch_id, content: content@, action_id },
                ),
            },
    {
        match self.get(batch_id, &content) {
            Some(existing) => Err(MultisigError::DuplicateProposal(existing)),
            None => {
                let entry = DedupEntry { batch_id, content, action_id };
                proof {
                    lemma_insert(self@, entry@);
                }
                self.entries.push(entry);
                proof {
                    assert(self@ =~= old(self)@.push(entry@));
                }
                Ok(())
            },
        }
    }

    /// The actions recorded for batch `batch_id`, in the order of their
    /// proposal.
    pub fn action_ids(&self, batch_id: u64) -> (ids: Vec<usize>)
        ensures
            ids@ == bucket_ids(self@, batch_id),
    {
        let mut ids: Vec<usize> = Vec::new();
        let mut i: usize = 0;
        proof {
            assert(self@.take(0) =~= Seq::<DedupEntryView>::empty());
        }
        while i < self.entries.len()
            invariant
                0 <= i <= self.entries.len(),
                ids@ == bucket_ids(self@.take(i as int), batch_id),
            decreases self.entries.len() - i,
        {
            proof {
                let prefix = self@.take(i + 1);
                assert(prefix.last() == self.entries@[i as int]@);
                assert(prefix.drop_last() =~= self@.take(i as int));
            }
            if self.entries[i].batch_id == batch_id {
                ids.push(self.entries[i].action_id);
            }
            i += 1;
        }
        proof {
            assert(self@.take(i as int) =~= self@);
        }
        ids
    }

    /// Drops everything recorded for batch `batch_id`.
    pub fn clear_batch(&mut self, batch_id: u64)
        requires
            old(self).wf(),
        ensures
            final(self).wf(),
            final(self)@ == without_batch(old(self)@, batch_id),
    {
        let mut kept: Vec<DedupEntry> = Vec::new();
        let mut i: usize = 0;
        proof {
            assert(self@.take(0) =~= Seq::<DedupEntryView>::empty());
            assert(entries_view(kept@) =~= Seq::<DedupEntryView>::empty());
        }
        while i < self.entries.len()
            invariant
                0 <= i <= self.entries.len(),
                self.entries@ == old(self).entries@,
                entries_view(kept@) == without_batch(self@.take(i as int), batch_id),
            decreases self.entries.len() - i,
        {
            proof {
                let prefix = self@.take(i + 1);
                assert(prefix.last() == self.entries@[i as int]@);
                assert(prefix.drop_last() =~= self@.take(i as int));
            }
            let entry = &self.entries[i];
            if entry.batch_id != batch_id {
                let copy = DedupEntry {
                    batch_id: entry.batch_id,
                    content: entry.content.duplicate(),
                    action_id: entry.action_id,
                };
                let ghost before = kept@;
                kept.push(copy);
                proof {
                    assert(entries_view(kept@) =~= entries_view(before).push(copy@));
                }
            }
            i += 1;
        }
        proof {
            assert(self@.take(i as int) =~= self@);
            lemma_without_batch(old(self)@, batch_id);
        }
        self.entries = kept;
    }
}

} // verus!
