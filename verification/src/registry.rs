use crate::address::Address;
use crate::error::MultisigError;
use vstd::prelude::*;

verus! {

/// The identifier of `address` among `users`: its 1-based position, or 0 when
/// the address is not registered.
pub open spec fn id_of(users: Seq<Address>, address: Address) -> nat {
    if users.contains(address) {
        (users.index_of(address) + 1) as nat
    } else {
        0
    }
}

/// The users after `address` has been looked up or registered.
pub open spec fn with_user(users: Seq<Address>, address: Address) -> Seq<Address> {
    if users.contains(address) {
        users
    } else {
        users.push(address)
    }
}

/// The users after every address of `list` has been looked up or registered,
/// in order.
pub open spec fn with_users(users: Seq<Address>, list: Seq<Address>) -> Seq<Address>
    decreases list.len(),
{
    if list.len() == 0 {
        users
    } else {
        with_user(with_users(users, list.drop_last()), list.last())
    }
}

/// A registry holds each address once and no more users than identifiers.
pub open spec fn registry_wf(users: Seq<Address>) -> bool {
    &&& users.no_duplicates()
    &&& users.len() <= u32::MAX
}

/// In a registry without duplicates, the address at position `i` has id `i + 1`.
pub proof fn lemma_id_of_position(users: Seq<Address>, i: int)
    requires
        users.no_duplicates(),
        0 <= i < users.len(),
    ensures
        id_of(users, users[i]) == i + 1,
{
    assert(users.contains(users[i]));
    let k = users.index_of(users[i]);
    assert(0 <= k < users.len() && users[k] == users[i]);
}

/// An id is 0 exactly for unknown addresses, and otherwise points at the address.
pub proof fn lemma_id_of_range(users: Seq<Address>, address: Address)
    ensures
        id_of(users, address) <= users.len(),
        id_of(users, address) == 0 <==> !users.contains(address),
        id_of(users, address) > 0 ==> users[id_of(users, address) - 1] == address,
{
    if users.contains(address) {
        let k = users.index_of(address);
        assert(0 <= k < users.len() && users[k] == address);
    }
}

/// Registering an address keeps every id that was already assigned.
pub proof fn lemma_with_user_keeps_ids(users: Seq<Address>, address: Address, other: Address)
    requires
        users.no_duplicates(),
    ensures
        with_user(users, address).no_duplicates(),
        users.contains(other) ==> id_of(with_user(users, address), other) == id_of(users, other),
        id_of(with_user(users, address), address) == if users.contains(address) {
            id_of(users, address)
        } else {
            users.len() + 1
        },
        with_user(users, address).contains(other) <==> users.contains(other) || other == address,
{
    let next = with_user(users, address);
    lemma_id_of_range(users, other);
    if !users.contains(address) {
        assert(next.no_duplicates()) by {
            assert forall|i: int, j: int| 0 <= i < next.len() && 0 <= j < next.len() && i != j implies next[i] != next[j] by {
                if i < users.len() {
                    assert(users.contains(users[i]));
                }
                if j < users.len() {
                    assert(users.contains(users[j]));
                }
            }
        }
        assert(next[users.len() as int] == address);
        lemma_id_of_position(next, users.len() as int);
        if users.contains(other) {
            let k = users.index_of(other);
            assert(next[k] == other);
            lemma_id_of_position(next, k);
        }
        assert(next.contains(address));
        if next.contains(other) && other != address {
            let k = next.index_of(other);
            assert(0 <= k < next.len() && next[k] == other);
            assert(users[k] == other);
        }
        if users.contains(other) {
            let k = users.index_of(other);
            assert(next[k] == other);
        }
    }
}

/// Bulk registration keeps the registry free of duplicates and never shrinks it.
pub proof fn lemma_with_users(users: Seq<Address>, list: Seq<Address>)
    requires
        users.no_duplicates(),
    ensures
        with_users(users, list).no_duplicates(),
        users.len() <= with_users(users, list).len() <= users.len() + list.len(),
        forall|a: Address| users.contains(a) ==> id_of(with_users(users, list), a) == id_of(users, a),
        forall|a: Address| #[trigger]
            with_users(users, list).contains(a) <==> users.contains(a) || list.contains(a),
    decreases list.len(),
{
    if list.len() > 0 {
        let before = with_users(users, list.drop_last());
        lemma_with_users(users, list.drop_last());
        assert forall|a: Address| users.contains(a) implies id_of(with_users(users, list), a)
            == id_of(users, a) by {
            assert(before.contains(a));
            lemma_with_user_keeps_ids(before, list.last(), a);
        }
        assert forall|a: Address| #[trigger]
            with_users(users, list).contains(a) <==> users.contains(a) || list.contains(a) by {
            lemma_with_user_keeps_ids(before, list.last(), a);
            assert(before.contains(a) <==> users.contains(a) || list.drop_last().contains(a));
            if list.drop_last().contains(a) {
                let k = list.drop_last().index_of(a);
                assert(list[k] == a);
            }
            if list.contains(a) && a != list.last() {
                let k = list.index_of(a);
                assert(0 <= k < list.len() && list[k] == a);
                assert(list.drop_last()[k] == a);
            }
            assert(list[list.len() - 1] == list.last());
        }
        lemma_with_user_keeps_ids(before, list.last(), list.last());
    }
}

/// Registering a list without repetitions into an empty registry yields the list.
pub proof fn lemma_with_users_from_empty(list: Seq<Address>)
    requires
        list.no_duplicates(),
    ensures
        with_users(Seq::<Address>::empty(), list) == list,
    decreases list.len(),
{
    if list.len() > 0 {
        let init = list.drop_last();
        lemma_with_users_from_empty(init);
        if init.contains(list.last()) {
            let k = init.index_of(list.last());
            assert(0 <= k < init.len() && init[k] == list.last());
            assert(list[k] == list[list.len() - 1]);
        }
        assert(init.push(list.last()) =~= list);
    } else {
        assert(list =~= Seq::<Address>::empty());
    }
}

/// Maps participant addresses to small dense identifiers and back.
///
/// Identifiers start at 1; 0 stands for "not registered". An identifier is
/// never reused and never moves to another address.
#[derive(Clone, Debug)]
pub struct UserRegistry {
    addresses: Vec<Address>,
}

impl View for UserRegistry {
    type V = Seq<Address>;

    closed spec fn view(&self) -> Seq<Address> {
        self.addresses@
    }
}

impl UserRegistry {
    /// Each address is registered once: see `registry_wf`.
    pub open spec fn wf(&self) -> bool {
        registry_wf(self@)
    }

    /// A registry without users.
    pub fn new() -> (r: UserRegistry)
        ensures
            r.wf(),
            r@ == Seq::<Address>::empty(),
    {
        UserRegistry { addresses: Vec::new() }
    }

    /// Number of registered users, which is also the largest identifier in use.
    pub fn get_user_count(&self) -> (n: u32)
        requires
            self.wf(),
        ensures
            n == self@.len(),
    {
        self.addresses.len() as u32
    }

    /// The identifier of `address`, or 0 when it is not registered.
    pub fn get_user_id(&self, address: &Address) -> (id: u32)
        requires
            self.wf(),
        ensures
            id == id_of(self@, *address),
    {
        let mut i: usize = 0;
        while i < self.addresses.len()
            invariant
                0 <= i <= self.addresses.len(),
                self.wf(),
                forall|j: int| 0 <= j < i ==> self.addresses@[j] != *address,
            decreases self.addresses.len() - i,
        {
            if self.addresses[i].same(address) {
                proof {
                    lemma_id_of_position(self@, i as int);
                }
                return (i + 1) as u32;
            }
            i += 1;
        }
        0
    }

    /// The address that holds `id`, if the identifier is in use.
    pub fn get_user_address(&self, id: u32) -> (r: Option<Address>)
        requires
            self.wf(),
        ensures
            r == if 1 <= id <= self@.len() {
                Some(self@[id - 1])
            } else {
                None
            },
    {
        if id >= 1 && (id as usize) <= self.addresses.len() {
            Some(self.addresses[(id - 1) as usize])
        } else {
            None
        }
    }

    /// Looks `address` up and registers it when it is new.
    ///
    /// Returns the identifier and whether it was assigned by this call. Fails
    /// with `LimitExceeded`, changing nothing, only when the address is new
    /// and no identifier is left.
    pub fn get_or_create_user(&mut self, address: &Address) -> (r: Result<(u32, bool), MultisigError>)
        requires
            old(self).wf(),
        ensures
            final(self).wf(),
            r is Err <==> !old(self)@.contains(*address) && old(self)@.len() == u32::MAX,
            r is Err ==> r == Err::<(u32, bool), MultisigError>(MultisigError::LimitExceeded)
                && final(self)@ == old(self)@,
            r is Ok ==> final(self)@ == with_user(old(self)@, *address),
            r matches Ok((id, was_new)) ==> id == id_of(final(self)@, *address) && id >= 1
                && was_new == !old(self)@.contains(*address),
    {
        let id = self.get_user_id(address);
        proof {
            lemma_id_of_range(self@, *address);
            lemma_with_user_keeps_ids(self@, *address, *address);
        }
        if id != 0 {
            return Ok((id, false));
        }
        if self.addresses.len() >= u32::MAX as usize {
            return Err(MultisigError::LimitExceeded);
        }
        self.addresses.push(*address);
        Ok((self.addresses.len() as u32, true))
    }

    /// Looks up or registers each address of `addresses`, in order.
    ///
    /// The result holds, for each address, its identifier and whether this call
    /// assigned it: an address that repeats an earlier one, or was registered
    /// before the call, is flagged `false`. Fails with `LimitExceeded`,
    /// changing nothing, when the identifiers run out.
    pub fn get_or_create_users(&mut self, addresses: &Vec<Address>) -> (r: Result<
        Vec<(u32, bool)>,
        MultisigError,
    >)
        requires
            old(self).wf(),
        ensures
            final(self).wf(),
            r is Err <==> with_users(old(self)@, addresses@).len() > u32::MAX,
            r is Err ==> r == Err::<Vec<(u32, bool)>, MultisigError>(MultisigError::LimitExceeded)
                && final(self)@ == old(self)@,
            r is Ok ==> final(self)@ == with_users(old(self)@, addresses@),
            r matches Ok(ids) ==> ids@.len() == addresses@.len() && forall|i: int|
                0 <= i < addresses@.len() ==> {
                    &&& (#[trigger] ids@[i]).0 == id_of(final(self)@, addresses@[i])
                    &&& ids@[i].0 >= 1
                    &&& ids@[i].1 == !with_users(old(self)@, addresses@.take(i)).contains(
                        addresses@[i],
                    )
                },
    {
        let initial_len = self.addresses.len();
        let mut ids: Vec<(u32, bool)> = Vec::new();
        let mut i: usize = 0;
        proof {
            assert(addresses@.take(0) =~= Seq::<Address>::empty());
        }
        while i < addresses.len()
            invariant
                0 <= i <= addresses.len(),
                old(self).wf(),
                self.wf(),
                initial_len == old(self)@.len(),
                self@ == with_users(old(self)@, addresses@.take(i as int)),
                ids@.len() == i,
                forall|j: int|
                    0 <= j < i ==> {
                        &&& (#[trigger] ids@[j]).0 == id_of(self@, addresses@[j])
                        &&& ids@[j].0 >= 1
                        &&& ids@[j].1 == !with_users(old(self)@, addresses@.take(j)).contains(
                            addresses@[j],
                        )
                    },
            decreases addresses.len() - i,
        {
            let ghost before = self@;
            let ghost seen = addresses@.take(i as int);
            let ghost next_seen = addresses@.take(i + 1);
            proof {
                assert(next_seen.drop_last() =~= seen);
                assert(next_seen.last() == addresses@[i as int]);
            }
            match self.get_or_create_user(&addresses[i]) {
                Ok(pair) => {
                    proof {
                        assert forall|j: int| 0 <= j < i implies (#[trigger] ids@[j]).0 == id_of(
                            self@,
                            addresses@[j],
                        ) by {
                            lemma_id_of_range(before, addresses@[j]);
                            lemma_with_user_keeps_ids(before, addresses@[i as int], addresses@[j]);
                        }
                    }
                    ids.push(pair);
                },
                Err(e) => {
                    proof {
                        lemma_with_users_grows(old(self)@, addresses@, i + 1);
                        lemma_with_users(old(self)@, seen);
                    }
                    self.addresses.truncate(initial_len);
                    proof {
                        lemma_with_users_prefix(old(self)@, seen);
                        assert(self@ =~= old(self)@);
                    }
                    return Err(MultisigError::LimitExceeded);
                },
            }
            i += 1;
        }
        proof {
            assert(addresses@.take(i as int) =~= addresses@);
        }
        Ok(ids)
    }
}

/// Bulk registration only appends: the old registry is a prefix of the new one.
pub proof fn lemma_with_users_prefix(users: Seq<Address>, list: Seq<Address>)
    ensures
        users.len() <= with_users(users, list).len(),
        with_users(users, list).subrange(0, users.len() as int) == users,
    decreases list.len(),
{
    if list.len() > 0 {
        lemma_with_users_prefix(users, list.drop_last());
        let before = with_users(users, list.drop_last());
        assert(with_user(before, list.last()).subrange(0, users.len() as int) =~= before.subrange(
            0,
            users.len() as int,
        ));
    } else {
        assert(users.subrange(0, users.len() as int) =~= users);
    }
}

/// Registering more of a list never yields fewer users.
pub proof fn lemma_with_users_grows(users: Seq<Address>, list: Seq<Address>, n: int)
    requires
        0 <= n <= list.len(),
    ensures
        with_users(users, list.take(n)).len() <= with_users(users, list).len(),
    decreases list.len() - n,
{
    if n < list.len() {
        lemma_with_users_grows(users, list, n + 1);
        assert(list.take(n + 1).drop_last() =~= list.take(n));
    } else {
        assert(list.take(n) =~= list);
    }
}

} // verus!
