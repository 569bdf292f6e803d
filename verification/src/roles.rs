use crate::user_role::UserRole;
use vstd::prelude::*;

verus! {

/// How many entries of `roles` are `role`.
pub open spec fn count_role(roles: Seq<UserRole>, role: UserRole) -> nat
    decreases roles.len(),
{
    if roles.len() == 0 {
        0
    } else {
        count_role(roles.drop_last(), role) + if roles.last() == role {
            1nat
        } else {
            0nat
        }
    }
}

/// The role of user `id`. Identifier 0 and identifiers that never got a role
/// have `NoRole`.
pub open spec fn role_at(roles: Seq<UserRole>, id: nat) -> UserRole {
    if 1 <= id <= roles.len() {
        roles[id - 1]
    } else {
        UserRole::NoRole
    }
}

/// `roles` stretched with `NoRole` so that it covers `len` users.
pub open spec fn padded(roles: Seq<UserRole>, len: nat) -> Seq<UserRole> {
    if roles.len() >= len {
        roles
    } else {
        roles + Seq::new((len - roles.len()) as nat, |i: int| UserRole::NoRole)
    }
}

/// `roles` with the role of user `id` overwritten.
pub open spec fn with_role(roles: Seq<UserRole>, id: nat, role: UserRole) -> Seq<UserRole>
    recommends
        id >= 1,
{
    padded(roles, id).update(id - 1, role)
}

/// 1 when the role changes from or to `counted`, with its sign; else 0.
pub open spec fn counter_step(old_role: UserRole, new_role: UserRole, counted: UserRole) -> int {
    (if new_role == counted {
        1int
    } else {
        0int
    }) - (if old_role == counted {
        1int
    } else {
        0int
    })
}

/// The roles of all users, with the number of board members and of proposers
/// kept beside them.
pub struct RoleStoreView {
    pub roles: Seq<UserRole>,
    pub num_board_members: nat,
    pub num_proposers: nat,
}

impl RoleStoreView {
    /// The counters say how many users hold each role.
    pub open spec fn wf(self) -> bool {
        &&& self.roles.len() <= u32::MAX
        &&& self.num_board_members == count_role(self.roles, UserRole::BoardMember)
        &&& self.num_proposers == count_role(self.roles, UserRole::Proposer)
    }

    /// The role of user `id`; `NoRole` for identifier 0.
    pub open spec fn role_of(self, id: nat) -> UserRole {
        role_at(self.roles, id)
    }

    /// The store after user `id` moved to `new_role`: the role is overwritten
    /// and each counter whose membership changed moves by one.
    pub open spec fn change_role(self, id: nat, new_role: UserRole) -> RoleStoreView
        recommends
            id >= 1,
    {
        let old_role = self.role_of(id);
        RoleStoreView {
            roles: with_role(self.roles, id, new_role),
            num_board_members: (self.num_board_members + counter_step(
                old_role,
                new_role,
                UserRole::BoardMember,
            )) as nat,
            num_proposers: (self.num_proposers + counter_step(
                old_role,
                new_role,
                UserRole::Proposer,
            )) as nat,
        }
    }
}

/// Counting distributes over `push`.
pub proof fn lemma_count_push(roles: Seq<UserRole>, last: UserRole, counted: UserRole)
    ensures
        count_role(roles.push(last), counted) == count_role(roles, counted) + if last == counted {
            1nat
        } else {
            0nat
        },
{
    assert(roles.push(last).drop_last() =~= roles);
}

/// No count exceeds the number of users.
pub proof fn lemma_count_bound(roles: Seq<UserRole>, counted: UserRole)
    ensures
        count_role(roles, counted) <= roles.len(),
    decreases roles.len(),
{
    if roles.len() > 0 {
        lemma_count_bound(roles.drop_last(), counted);
    }
}

/// A user who holds `counted` makes its count positive.
pub proof fn lemma_count_positive(roles: Seq<UserRole>, id: nat, counted: UserRole)
    requires
        1 <= id <= roles.len(),
        roles[id - 1] == counted,
    ensures
        count_role(roles, counted) >= 1,
    decreases roles.len(),
{
    if id < roles.len() {
        lemma_count_positive(roles.drop_last(), id, counted);
    }
}

/// Overwriting one entry moves a count by `counter_step`.
pub proof fn lemma_count_update(roles: Seq<UserRole>, i: int, new_role: UserRole, counted: UserRole)
    requires
        0 <= i < roles.len(),
    ensures
        count_role(roles.update(i, new_role), counted) == count_role(roles, counted) + counter_step(
            roles[i],
            new_role,
            counted,
        ),
    decreases roles.len(),
{
    let next = roles.update(i, new_role);
    if i == roles.len() - 1 {
        assert(next.drop_last() =~= roles.drop_last());
    } else {
        lemma_count_update(roles.drop_last(), i, new_role, counted);
        assert(next.drop_last() =~= roles.drop_last().update(i, new_role));
    }
}

/// Padding with `NoRole` changes no count of another role and no role.
pub proof fn lemma_padded(roles: Seq<UserRole>, len: nat, counted: UserRole)
    ensures
        padded(roles, len).len() == if roles.len() >= len {
            roles.len()
        } else {
            len
        },
        counted != UserRole::NoRole ==> count_role(padded(roles, len), counted) == count_role(
            roles,
            counted,
        ),
        forall|id: nat| role_at(padded(roles, len), id) == role_at(roles, id),
    decreases len,
{
    if roles.len() < len {
        lemma_padded(roles, (len - 1) as nat, counted);
        assert(padded(roles, len) =~= padded(roles, (len - 1) as nat).push(UserRole::NoRole));
        lemma_count_push(padded(roles, (len - 1) as nat), UserRole::NoRole, counted);
    }
}

/// What overwriting a role does to each user's role and to each count.
pub proof fn lemma_with_role(roles: Seq<UserRole>, id: nat, new_role: UserRole)
    requires
        id >= 1,
    ensures
        with_role(roles, id, new_role).len() == if roles.len() >= id {
            roles.len()
        } else {
            id
        },
        forall|other: nat|
            role_at(with_role(roles, id, new_role), other) == if other == id {
                new_role
            } else {
                role_at(roles, other)
            },
        forall|counted: UserRole|
            counted != UserRole::NoRole ==> #[trigger] count_role(
                with_role(roles, id, new_role),
                counted,
            ) == count_role(roles, counted) + counter_step(role_at(roles, id), new_role, counted),
{
    lemma_padded(roles, id, UserRole::NoRole);
    assert forall|counted: UserRole| counted != UserRole::NoRole implies #[trigger] count_role(
        with_role(roles, id, new_role),
        counted,
    ) == count_role(roles, counted) + counter_step(role_at(roles, id), new_role, counted) by {
        lemma_padded(roles, id, counted);
        lemma_count_update(padded(roles, id), id - 1, new_role, counted);
    }
}

/// Changing a role through `change_role` keeps both counters true.
pub proof fn lemma_change_role_keeps_counts(store: RoleStoreView, id: nat, new_role: UserRole)
    requires
        store.wf(),
        1 <= id <= u32::MAX,
    ensures
        store.change_role(id, new_role).wf(),
{
    lemma_with_role(store.roles, id, new_role);
}

/// Per-user roles with the counts of board members and proposers.
///
/// The counters move only together with a role, in `change_role`, so they
/// cannot drift from the roles.
#[derive(Clone, Debug)]
pub struct RoleStore {
    roles: Vec<UserRole>,
    num_board_members: u32,
    num_proposers: u32,
}

impl View for RoleStore {
    type V = RoleStoreView;

    closed spec fn view(&self) -> RoleStoreView {
        RoleStoreView {
            roles: self.roles@,
            num_board_members: self.num_board_members as nat,
            num_proposers: self.num_proposers as nat,
        }
    }
}

impl RoleStore {
    /// The counters are true: see `RoleStoreView::wf`.
    pub open spec fn wf(&self) -> bool {
        self@.wf()
    }

    /// A store in which nobody has a role.
    pub fn new() -> (r: RoleStore)
        ensures
            r.wf(),
            r@ == (RoleStoreView {
                roles: Seq::<UserRole>::empty(),
                num_board_members: 0,
                num_proposers: 0,
            }),
    {
        RoleStore { roles: Vec::new(), num_board_members: 0, num_proposers: 0 }
    }

    /// The role of user `id`; `NoRole` for identifier 0.
    pub fn role_of(&self, id: u32) -> (role: UserRole)
        ensures
            role == self@.role_of(id as nat),
    {
        if id >= 1 && (id as usize) <= self.roles.len() {
            self.roles[(id - 1) as usize]
        } else {
            UserRole::NoRole
        }
    }

    /// Number of users who are board members.
    pub fn num_board_members(&self) -> (n: u32)
        ensures
            n == self@.num_board_members,
    {
        self.num_board_members
    }

    /// Number of users who are proposers.
    pub fn num_proposers(&self) -> (n: u32)
        ensures
            n == self@.num_proposers,
    {
        self.num_proposers
    }

    /// Overwrites the role of user `id` and leaves the counters alone.
    fn set_role(&mut self, id: u32, role: UserRole)
        requires
            id >= 1,
        ensures
            final(self).roles@ == with_role(old(self).roles@, id as nat, role),
            final(self).num_board_members == old(self).num_board_members,
            final(self).num_proposers == old(self).num_proposers,
    {
        let index: usize = (id - 1) as usize;
        while self.roles.len() <= index
            invariant
                index == id - 1,
                self.roles.len() <= index + 1 || self.roles@.len() == old(self).roles@.len(),
                self.roles@.len() >= old(self).roles@.len(),
                self.roles@ == padded(old(self).roles@, self.roles@.len()),
                self.num_board_members == old(self).num_board_members,
                self.num_proposers == old(self).num_proposers,
            decreases index + 1 - self.roles.len(),
        {
            let ghost before = self.roles@;
            self.roles.push(UserRole::NoRole);
            proof {
                assert(self.roles@ =~= padded(old(self).roles@, self.roles@.len()));
            }
        }
        proof {
            assert(self.roles@ =~= padded(old(self).roles@, id as nat));
        }
        self.roles.set(index, role);
    }

    /// Moves user `id` to `new_role` and adjusts the counter of each role
    /// whose membership changed.
    pub fn change_role(&mut self, id: u32, new_role: UserRole)
        requires
            old(self).wf(),
            id >= 1,
        ensures
            final(self).wf(),
            final(self)@ == old(self)@.change_role(id as nat, new_role),
    {
        let old_role = self.role_of(id);
        proof {
            lemma_with_role(self.roles@, id as nat, new_role);
            lemma_count_bound(with_role(self.roles@, id as nat, new_role), UserRole::BoardMember);
            lemma_count_bound(with_role(self.roles@, id as nat, new_role), UserRole::Proposer);
            if 1 <= id <= self.roles@.len() {
                lemma_count_positive(self.roles@, id as nat, old_role);
            }
        }
        self.set_role(id, new_role);
        match old_role {
            UserRole::BoardMember => {
                self.num_board_members = self.num_board_members - 1;
            },
            UserRole::Proposer => {
                self.num_proposers = self.num_proposers - 1;
            },
            UserRole::NoRole => {},
        }
        match new_role {
            UserRole::BoardMember => {
                self.num_board_members = self.num_board_members + 1;
            },
            UserRole::Proposer => {
                self.num_proposers = self.num_proposers + 1;
            },
            UserRole::NoRole => {},
        }
    }
}

} // verus!
