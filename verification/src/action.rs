use crate::address::Address;
use vstd::prelude::*;

verus! {

/// How the far side settled one transaction of a batch.
#[derive(Clone, Copy, Debug, PartialEq, Eq, Structural)]
pub enum TransactionStatus {
    NoStatus,
    Pending,
    InProgress,
    Executed,
    Rejected,
}

/// One payment of a transfer batch.
#[derive(Clone, Debug)]
pub struct Transfer {
    pub to: Address,
    pub token_id: Vec<u8>,
    pub amount: u128,
}

/// A `Transfer` as a mathematical value.
pub struct TransferView {
    pub to: Address,
    pub token_id: Seq<u8>,
    pub amount: u128,
}

impl View for Transfer {
    type V = TransferView;

    open spec fn view(&self) -> TransferView {
        TransferView { to: self.to, token_id: self.token_id@, amount: self.amount }
    }
}

/// The transfers of a batch as mathematical values.
pub open spec fn transfers_view(transfers: Seq<Transfer>) -> Seq<TransferView> {
    transfers.map_values(|t: Transfer| t@)
}

/// A list of byte strings as mathematical values.
pub open spec fn byte_strings_view(strings: Seq<Vec<u8>>) -> Seq<Seq<u8>> {
    strings.map_values(|s: Vec<u8>| s@)
}

/// A fresh copy of a byte string.
pub fn copy_bytes(bytes: &Vec<u8>) -> (copy: Vec<u8>)
    ensures
        copy@ == bytes@,
{
    let mut copy: Vec<u8> = Vec::new();
    let mut i: usize = 0;
    while i < bytes.len()
        invariant
            0 <= i <= bytes.len(),
            copy@ == bytes@.take(i as int),
        decreases bytes.len() - i,
    {
        copy.push(bytes[i]);
        proof {
            assert(copy@ =~= bytes@.take(i + 1));
        }
        i += 1;
    }
    proof {
        assert(bytes@.take(i as int) =~= bytes@);
    }
    copy
}

/// Whether two byte strings hold the same bytes.
pub fn bytes_equal(a: &Vec<u8>, b: &Vec<u8>) -> (r: bool)
    ensures
        r == (a@ == b@),
{
    if a.len() != b.len() {
        return false;
    }
    let mut i: usize = 0;
    while i < a.len()
        invariant
            0 <= i <= a.len(),
            a.len() == b.len(),
            forall|j: int| 0 <= j < i ==> a@[j] == b@[j],
        decreases a.len() - i,
    {
        if a[i] != b[i] {
            return false;
        }
        i += 1;
    }
    proof {
        assert(a@ =~= b@);
    }
    true
}

/// A fresh copy of a status list.
pub fn copy_statuses(statuses: &Vec<TransactionStatus>) -> (copy: Vec<TransactionStatus>)
    ensures
        copy@ == statuses@,
{
    let mut copy: Vec<TransactionStatus> = Vec::new();
    let mut i: usize = 0;
    while i < statuses.len()
        invariant
            0 <= i <= statuses.len(),
            copy@ == statuses@.take(i as int),
        decreases statuses.len() - i,
    {
        copy.push(statuses[i]);
        proof {
            assert(copy@ =~= statuses@.take(i + 1));
        }
        i += 1;
    }
    proof {
        assert(statuses@.take(i as int) =~= statuses@);
    }
    copy
}

/// Whether two status lists hold the same statuses in the same order.
pub fn statuses_equal(a: &Vec<TransactionStatus>, b: &Vec<TransactionStatus>) -> (r: bool)
    ensures
        r == (a@ == b@),
{
    if a.len() != b.len() {
        return false;
    }
    let mut i: usize = 0;
    while i < a.len()
        invariant
            0 <= i <= a.len(),
            a.len() == b.len(),
            forall|j: int| 0 <= j < i ==> a@[j] == b@[j],
        decreases a.len() - i,
    {
        if a[i] != b[i] {
            return false;
        }
        i += 1;
    }
    proof {
        assert(a@ =~= b@);
    }
    true
}

impl Transfer {
    /// A fresh copy of the transfer.
    pub fn duplicate(&self) -> (copy: Transfer)
        ensures
            copy@ == self@,
    {
        Transfer { to: self.to, token_id: copy_bytes(&self.token_id), amount: self.amount }
    }

    /// Whether two transfers pay the same amount of the same token to the
    /// same address.
    pub fn same(&self, other: &Transfer) -> (r: bool)
        ensures
            r == (self@ == other@),
    {
        self.to.same(&other.to) && self.amount == other.amount && bytes_equal(
            &self.token_id,
            &other.token_id,
        )
    }
}

/// A fresh copy of a transfer list.
pub fn copy_transfers(transfers: &Vec<Transfer>) -> (copy: Vec<Transfer>)
    ensures
        transfers_view(copy@) == transfers_view(transfers@),
{
    let mut copy: Vec<Transfer> = Vec::new();
    let mut i: usize = 0;
    while i < transfers.len()
        invariant
            0 <= i <= transfers.len(),
            copy@.len() == i,
            transfers_view(copy@) == transfers_view(transfers@).take(i as int),
        decreases transfers.len() - i,
    {
        let item = transfers[i].duplicate();
        let ghost before = copy@;
        copy.push(item);
        proof {
            assert forall|j: int| 0 <= j < i + 1 implies transfers_view(copy@)[j]
                == transfers_view(transfers@).take(i + 1)[j] by {
                if j < i {
                    assert(transfers_view(before)[j] == before[j]@);
                    assert(transfers_view(transfers@).take(i as int)[j] == transfers@[j]@);
                }
            }
            assert(transfers_view(copy@) =~= transfers_view(transfers@).take(i + 1));
        }
        i += 1;
    }
    proof {
        assert(transfers_view(transfers@).take(i as int) =~= transfers_view(transfers@));
    }
    copy
}

/// Whether two transfer lists hold the same transfers in the same order.
pub fn transfers_equal(a: &Vec<Transfer>, b: &Vec<Transfer>) -> (r: bool)
    ensures
        r == (transfers_view(a@) == transfers_view(b@)),
{
    if a.len() != b.len() {
        proof {
            assert(transfers_view(a@).len() != transfers_view(b@).len());
        }
        return false;
    }
    let mut i: usize = 0;
    while i < a.len()
        invariant
            0 <= i <= a.len(),
            a.len() == b.len(),
            forall|j: int| 0 <= j < i ==> a@[j]@ == b@[j]@,
        decreases a.len() - i,
    {
        if !a[i].same(&b[i]) {
            proof {
                assert(transfers_view(a@)[i as int] == a@[i as int]@);
                assert(transfers_view(b@)[i as int] == b@[i as int]@);
            }
            return false;
        }
        i += 1;
    }
    proof {
        assert(transfers_view(a@) =~= transfers_view(b@));
    }
    true
}

/// A proposed change, waiting for signatures.
#[derive(Clone, Debug)]
pub enum Action {
    Nothing,
    AddBoardMember(Address),
    AddProposer(Address),
    RemoveUser(Address),
    SlashUser(Address),
    ChangeQuorum(u32),
    DeployContract { amount: u128, code: Vec<u8>, metadata: u16, args: Vec<Vec<u8>> },
    SetExternalBatchStatus { batch_id: u64, statuses: Vec<TransactionStatus> },
    BatchTransferTokens { batch_id: u64, transfers: Vec<Transfer> },
}

/// An `Action` as a mathematical value.
pub enum ActionView {
    Nothing,
    AddBoardMember(Address),
    AddProposer(Address),
    RemoveUser(Address),
    SlashUser(Address),
    ChangeQuorum(u32),
    DeployContract { amount: u128, code: Seq<u8>, metadata: u16, args: Seq<Seq<u8>> },
    SetExternalBatchStatus { batch_id: u64, statuses: Seq<TransactionStatus> },
    BatchTransferTokens { batch_id: u64, transfers: Seq<TransferView> },
}

impl View for Action {
    type V = ActionView;

    open spec fn view(&self) -> ActionView {
        match *self {
            Action::Nothing => ActionView::Nothing,
            Action::AddBoardMember(a) => ActionView::AddBoardMember(a),
            Action::AddProposer(a) => ActionView::AddProposer(a),
            Action::RemoveUser(a) => ActionView::RemoveUser(a),
            Action::SlashUser(a) => ActionView::SlashUser(a),
            Action::ChangeQuorum(q) => ActionView::ChangeQuorum(q),
            Action::DeployContract { amount, code, metadata, args } => ActionView::DeployContract {
                amount,
                code: code@,
                metadata,
                args: byte_strings_view(args@),
            },
            Action::SetExternalBatchStatus { batch_id, statuses } => {
                ActionView::SetExternalBatchStatus { batch_id, statuses: statuses@ }
            },
            Action::BatchTransferTokens { batch_id, transfers } => {
                ActionView::BatchTransferTokens { batch_id, transfers: transfers_view(transfers@) }
            },
        }
    }
}

impl ActionView {
    /// The one kind of action that may run while the system is paused.
    pub open spec fn is_pause_exempt(self) -> bool {
        self is SlashUser
    }
}

impl Action {
    /// The one kind of action that may run while the system is paused.
    pub fn is_pause_exempt(&self) -> (r: bool)
        ensures
            r == self@.is_pause_exempt(),
    {
        match self {
            Action::SlashUser(_) => true,
            _ => false,
        }
    }
}

} // verus!
