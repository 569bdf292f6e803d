use crate::address::Address;
use crate::error::MultisigError;
use crate::registry::{
    id_of, lemma_id_of_range, lemma_with_user_keeps_ids, lemma_with_users,
    lemma_with_users_from_empty, registry_wf, with_user, with_users, UserRegistry,
};
use crate::roles::{lemma_with_role, RoleStore, RoleStoreView};
use crate::user_role::UserRole;
use vstd::prelude::*;

verus! {

/// The registered users and their roles.
pub struct BoardView {
    pub users: Seq<Address>,
    pub roles: RoleStoreView,
}

impl BoardView {
    /// Only registered users have a role, and the counters are true.
    pub open spec fn wf(self) -> bool {
        &&& registry_wf(self.users)
        &&& self.roles.wf()
        &&& self.roles.roles.len() <= self.users.len()
    }

    /// The identifier of `address`, 0 when it is not registered.
    pub open spec fn id_of(self, address: Address) -> nat {
        id_of(self.users, address)
    }

    /// The role of `address`; `NoRole` when it is not registered.
    pub open spec fn role_of(self, address: Address) -> UserRole {
        self.roles.role_of(self.id_of(address))
    }

    /// Outcome of giving `address` a role: it fails only when the address is
    /// new and no identifier is left.
    pub open spec fn change_user_role_result(self, address: Address) -> Result<(), MultisigError> {
        if !self.users.contains(address) && self.users.len() >= u32::MAX {
            Err(MultisigError::LimitExceeded)
        } else {
            Ok(())
        }
    }

    /// The board after `address` was registered, if it was new, and moved to
    /// `new_role`.
    pub open spec fn change_user_role(self, address: Address, new_role: UserRole) -> BoardView {
        let users = with_user(self.users, address);
        BoardView { users, roles: self.roles.change_role(id_of(users, address), new_role) }
    }

    /// A board made of `members`, each a board member.
    pub open spec fn of_members(members: Seq<Address>) -> BoardView {
        BoardView {
            users: members,
            roles: RoleStoreView {
                roles: Seq::new(members.len(), |i: int| UserRole::BoardMember),
                num_board_members: members.len(),
                num_proposers: 0,
            },
        }
    }

    /// Outcome of making a board of `members`.
    pub open spec fn of_members_result(members: Seq<Address>) -> Result<(), MultisigError> {
        if with_users(Seq::empty(), members).len() > u32::MAX {
            Err(MultisigError::LimitExceeded)
        } else if !members.no_duplicates() {
            Err(MultisigError::InvariantViolation)
        } else {
            Ok(())
        }
    }
}

/// What a change of role does: the user is registered, holds the new role, and
/// everybody else keeps identifier and role.
pub proof fn lemma_change_user_role(board: BoardView, address: Address, new_role: UserRole)
    requires
        board.wf(),
        board.change_user_role_result(address) is Ok,
    ensures
        board.change_user_role(address, new_role).wf(),
        board.change_user_role(address, new_role).role_of(address) == new_role,
        board.change_user_role(address, new_role).id_of(address) >= 1,
        board.users.len() <= board.change_user_role(address, new_role).users.len(),
        forall|other: Address|
            other != address ==> board.change_user_role(address, new_role).role_of(other)
                == board.role_of(other),
        forall|other: Address|
            board.users.contains(other) ==> board.change_user_role(address, new_role).id_of(other)
                == board.id_of(other),
        forall|id: nat|
            id != board.change_user_role(address, new_role).id_of(address)
                ==> board.change_user_role(address, new_role).roles.role_of(id)
                == board.roles.role_of(id),
{
    let next = board.change_user_role(address, new_role);
    let id = id_of(next.users, address);
    lemma_with_user_keeps_ids(board.users, address, address);
    lemma_id_of_range(board.users, address);
    lemma_id_of_range(next.users, address);
    lemma_with_role(board.roles.roles, id, new_role);
    assert forall|other: Address| other != address implies next.role_of(other) == board.role_of(
        other,
    ) by {
        lemma_with_user_keeps_ids(board.users, address, other);
        lemma_id_of_range(board.users, other);
        lemma_id_of_range(next.users, other);
        if next.id_of(other) == id && id >= 1 {
            assert(next.users[id - 1] == other);
        }
    }
    assert forall|other: Address| board.users.contains(other) implies next.id_of(other)
        == board.id_of(other) by {
        lemma_with_user_keeps_ids(board.users, address, other);
    }
}

/// The registered users together with their roles. A role changes only
/// through `change_user_role`, which moves the counters with it.
#[derive(Clone, Debug)]
pub struct Board {
    registry: UserRegistry,
    roles: RoleStore,
}

impl View for Board {
    type V = BoardView;

    closed spec fn view(&self) -> BoardView {
        BoardView { users: self.registry@, roles: self.roles@ }
    }
}

impl Board {
    /// The board is sound: see `BoardView::wf`.
    pub open spec fn wf(&self) -> bool {
        self@.wf()
    }

    /// A board without users.
    pub fn new() -> (r: Board)
        ensures
            r.wf(),
            r@ == BoardView::of_members(Seq::empty()),
    {
        let r = Board { registry: UserRegistry::new(), roles: RoleStore::new() };
        proof {
            assert(r@.roles.roles =~= BoardView::of_members(Seq::empty()).roles.roles);
            assert(crate::roles::count_role(r@.roles.roles, UserRole::BoardMember) == 0);
        }
        r
    }

    /// A board whose users are `members`, in this order, each a board member.
    ///
    /// Fails with `InvariantViolation` when an address occurs twice, and with
    /// `LimitExceeded` when there are more members than identifiers.
    pub fn with_members(members: &Vec<Address>) -> (r: Result<Board, MultisigError>)
        ensures
            match r {
                Ok(board) => BoardView::of_members_result(members@) is Ok && board.wf() && board@
                    == BoardView::of_members(members@),
                Err(e) => BoardView::of_members_result(members@) == Err::<(), MultisigError>(e),
            },
    {
        let mut registry = UserRegistry::new();
        let flags = match registry.get_or_create_users(members) {
            Ok(flags) => flags,
            Err(e) => {
                return Err(MultisigError::LimitExceeded);
            },
        };
        let mut i: usize = 0;
        while i < flags.len()
            invariant
                0 <= i <= flags.len(),
                flags@.len() == members@.len(),
                with_users(Seq::empty(), members@).len() <= u32::MAX,
                forall|k: int|
                    0 <= k < members@.len() ==> (#[trigger] flags@[k]).1 == !with_users(
                        Seq::empty(),
                        members@.take(k),
                    ).contains(members@[k]),
                forall|k: int, j: int| 0 <= j < k < i ==> members@[j] != members@[k],
            decreases flags.len() - i,
        {
            proof {
                lemma_with_users(Seq::empty(), members@.take(i as int));
                let seen = members@.take(i as int);
                if seen.contains(members@[i as int]) {
                    let j = seen.index_of(members@[i as int]);
                    assert(0 <= j < seen.len() && seen[j] == members@[i as int]);
                    assert(members@[j] == members@[i as int]);
                } else {
                    assert forall|j: int| 0 <= j < i implies members@[j] != members@[i as int] by {
                        assert(seen[j] == members@[j]);
                    }
                }
            }
            if !flags[i].1 {
                proof {
                    let seen = members@.take(i as int);
                    assert(seen.contains(members@[i as int]));
                    let j = seen.index_of(members@[i as int]);
                    assert(0 <= j < i && seen[j] == members@[i as int]);
                    assert(members@[j] == members@[i as int]);
                    assert(!members@.no_duplicates());
                }
                return Err(MultisigError::InvariantViolation);
            }
            i += 1;
        }
        proof {
            assert(members@.no_duplicates());
            lemma_with_users_from_empty(members@);
        }
        let mut roles = RoleStore::new();
        let mut n: u32 = 0;
        proof {
            assert(roles@.roles =~= BoardView::of_members(members@.take(0)).roles.roles);
        }
        let count: u32 = members.len() as u32;
        while n < count
            invariant
                0 <= n <= count,
                count == members@.len(),
                roles.wf(),
                roles@ == BoardView::of_members(members@.take(n as int)).roles,
            decreases count - n,
        {
            let ghost before = roles@.roles;
            roles.change_role(n + 1, UserRole::BoardMember);
            proof {
                let target = BoardView::of_members(members@.take(n + 1)).roles;
                assert(roles@.roles =~= before.push(UserRole::BoardMember));
                assert(roles@.roles =~= target.roles);
            }
            n += 1;
        }
        proof {
            assert(members@.take(n as int) =~= members@);
        }
        Ok(Board { registry, roles })
    }

    /// Number of registered users.
    pub fn get_user_count(&self) -> (n: u32)
        requires
            self.wf(),
        ensures
            n == self@.users.len(),
    {
        self.registry.get_user_count()
    }

    /// The identifier of `address`, or 0 when it is not registered.
    pub fn get_user_id(&self, address: &Address) -> (id: u32)
        requires
            self.wf(),
        ensures
            id == self@.id_of(*address),
            id <= self@.users.len(),
    {
        proof {
            lemma_id_of_range(self@.users, *address);
        }
        self.registry.get_user_id(address)
    }

    /// The address that holds `id`, if the identifier is in use.
    pub fn get_user_address(&self, id: u32) -> (r: Option<Address>)
        requires
            self.wf(),
        ensures
            r == if 1 <= id <= self@.users.len() {
                Some(self@.users[id - 1])
            } else {
                None
            },
    {
        self.registry.get_user_address(id)
    }

    /// The role of user `id`; `NoRole` for identifier 0.
    pub fn get_user_id_to_role(&self, id: u32) -> (role: UserRole)
        ensures
            role == self@.roles.role_of(id as nat),
    {
        self.roles.role_of(id)
    }

    /// The role of `address`; `NoRole` when it is not registered.
    pub fn user_role(&self, address: &Address) -> (role: UserRole)
        requires
            self.wf(),
        ensures
            role == self@.role_of(*address),
    {
        let id = self.registry.get_user_id(address);
        self.roles.role_of(id)
    }

    /// The roles of the users, by identifier.
    pub fn roles(&self) -> (r: &RoleStore)
        ensures
            r@ == self@.roles,
    {
        &self.roles
    }

    /// Number of users who are board members.
    pub fn num_board_members(&self) -> (n: u32)
        ensures
            n == self@.roles.num_board_members,
    {
        self.roles.num_board_members()
    }

    /// Number of users who are proposers.
    pub fn num_proposers(&self) -> (n: u32)
        ensures
            n == self@.roles.num_proposers,
    {
        self.roles.num_proposers()
    }

    /// Registers `address` if it is new, moves it to `new_role` and adjusts
    /// the counter of each role whose membership changed. Returns the user's
    /// identifier.
    ///
    /// Fails with `LimitExceeded`, changing nothing, exactly when the address
    /// is new and no identifier is left.
    pub fn change_user_role(&mut self, address: &Address, new_role: UserRole) -> (r: Result<
        u32,
        MultisigError,
    >)
        requires
            old(self).wf(),
        ensures
            final(self).wf(),
            match r {
                Ok(id) => old(self)@.change_user_role_result(*address) is Ok && final(self)@ == old(
                    self,
                )@.change_user_role(*address, new_role) && id == final(self)@.id_of(*address),
                Err(e) => old(self)@.change_user_role_result(*address) == Err::<(), MultisigError>(
                    e,
                ) && final(self)@ == old(self)@,
            },
    {
        match self.registry.get_or_create_user(address) {
            Ok((id, _)) => {
                proof {
                    lemma_change_user_role(old(self)@, *address, new_role);
                }
                self.roles.change_role(id, new_role);
                Ok(id)
            },
            Err(e) => Err(MultisigError::LimitExceeded),
        }
    }
}

} // verus!
