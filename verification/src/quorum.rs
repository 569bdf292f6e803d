use crate::roles::{RoleStore, RoleStoreView};
use crate::stake::{StakeLedger, StakeLedgerView};
use vstd::prelude::*;

verus! {

/// Whether a signature of `user` counts right now: the user's current role
/// may sign and the user holds the required stake.
pub open spec fn is_valid_signer(roles: RoleStoreView, stakes: StakeLedgerView, user: nat) -> bool {
    roles.role_of(user).spec_can_sign() && stakes.has_enough_stake(user)
}

/// How many of `signers` count right now.
pub open spec fn count_valid_signers(
    signers: Seq<u32>,
    roles: RoleStoreView,
    stakes: StakeLedgerView,
) -> nat
    decreases signers.len(),
{
    if signers.len() == 0 {
        0
    } else {
        count_valid_signers(signers.drop_last(), roles, stakes) + if is_valid_signer(
            roles,
            stakes,
            signers.last() as nat,
        ) {
            1nat
        } else {
            0nat
        }
    }
}

/// Those of `signers` who count right now, in the order in which they stand.
pub open spec fn valid_signers_of(
    signers: Seq<u32>,
    roles: RoleStoreView,
    stakes: StakeLedgerView,
) -> Seq<u32>
    decreases signers.len(),
{
    if signers.len() == 0 {
        Seq::empty()
    } else if is_valid_signer(roles, stakes, signers.last() as nat) {
        valid_signers_of(signers.drop_last(), roles, stakes).push(signers.last())
    } else {
        valid_signers_of(signers.drop_last(), roles, stakes)
    }
}

/// The count of valid signers is the length of their list, and every signer
/// on the list has signed and counts.
pub proof fn lemma_valid_signers_of(signers: Seq<u32>, roles: RoleStoreView, stakes: StakeLedgerView)
    ensures
        valid_signers_of(signers, roles, stakes).len() == count_valid_signers(
            signers,
            roles,
            stakes,
        ),
        forall|i: int|
            0 <= i < valid_signers_of(signers, roles, stakes).len() ==> signers.contains(
                #[trigger] valid_signers_of(signers, roles, stakes)[i],
            ) && is_valid_signer(roles, stakes, valid_signers_of(signers, roles, stakes)[i] as nat),
    decreases signers.len(),
{
    if signers.len() > 0 {
        let rest = signers.drop_last();
        lemma_valid_signers_of(rest, roles, stakes);
        let inner = valid_signers_of(rest, roles, stakes);
        let all = valid_signers_of(signers, roles, stakes);
        assert(signers[signers.len() - 1] == signers.last());
        assert forall|i: int| 0 <= i < all.len() implies signers.contains(#[trigger] all[i])
            && is_valid_signer(roles, stakes, all[i] as nat) by {
            if i < inner.len() {
                assert(all[i] == inner[i]);
                assert(rest.contains(inner[i]));
                let k = rest.index_of(inner[i]);
                assert(0 <= k < rest.len() && rest[k] == inner[i]);
                assert(signers[k] == inner[i]);
            }
        }
    }
}

/// No more signers count than have signed.
pub proof fn lemma_count_valid_bound(signers: Seq<u32>, roles: RoleStoreView, stakes: StakeLedgerView)
    ensures
        count_valid_signers(signers, roles, stakes) <= signers.len(),
    decreases signers.len(),
{
    if signers.len() > 0 {
        lemma_count_valid_bound(signers.drop_last(), roles, stakes);
    }
}

/// The count is zero exactly when no signer counts.
pub proof fn lemma_count_valid_zero(signers: Seq<u32>, roles: RoleStoreView, stakes: StakeLedgerView)
    ensures
        count_valid_signers(signers, roles, stakes) == 0 <==> forall|i: int|
            0 <= i < signers.len() ==> !is_valid_signer(roles, stakes, #[trigger] signers[i] as nat),
    decreases signers.len(),
{
    if signers.len() > 0 {
        let rest = signers.drop_last();
        lemma_count_valid_zero(rest, roles, stakes);
        if count_valid_signers(signers, roles, stakes) == 0 {
            assert forall|i: int| 0 <= i < signers.len() implies !is_valid_signer(
                roles,
                stakes,
                #[trigger] signers[i] as nat,
            ) by {
                if i < rest.len() {
                    assert(rest[i] == signers[i]);
                }
            }
        } else {
            if count_valid_signers(rest, roles, stakes) != 0 {
                let i = choose|i: int|
                    0 <= i < rest.len() && is_valid_signer(roles, stakes, #[trigger] rest[i] as nat);
                assert(signers[i] == rest[i]);
            }
        }
    }
}

/// Counting distributes over `push`.
pub proof fn lemma_count_valid_push(
    signers: Seq<u32>,
    user: u32,
    roles: RoleStoreView,
    stakes: StakeLedgerView,
)
    ensures
        count_valid_signers(signers.push(user), roles, stakes) == count_valid_signers(
            signers,
            roles,
            stakes,
        ) + if is_valid_signer(roles, stakes, user as nat) {
            1nat
        } else {
            0nat
        },
{
    assert(signers.push(user).drop_last() =~= signers);
}

/// Where every signer counts after a change exactly when it counted before,
/// the count is the same.
pub proof fn lemma_count_valid_same(
    signers: Seq<u32>,
    roles: RoleStoreView,
    stakes: StakeLedgerView,
    roles_after: RoleStoreView,
    stakes_after: StakeLedgerView,
)
    requires
        forall|i: int|
            0 <= i < signers.len() ==> is_valid_signer(roles, stakes, #[trigger] signers[i] as nat)
                == is_valid_signer(roles_after, stakes_after, signers[i] as nat),
    ensures
        count_valid_signers(signers, roles, stakes) == count_valid_signers(
            signers,
            roles_after,
            stakes_after,
        ),
    decreases signers.len(),
{
    if signers.len() > 0 {
        let rest = signers.drop_last();
        assert forall|i: int| 0 <= i < rest.len() implies is_valid_signer(
            roles,
            stakes,
            #[trigger] rest[i] as nat,
        ) == is_valid_signer(roles_after, stakes_after, rest[i] as nat) by {
            assert(rest[i] == signers[i]);
        }
        lemma_count_valid_same(rest, roles, stakes, roles_after, stakes_after);
        assert(signers.last() == signers[signers.len() - 1]);
    }
}

/// Where one signer who counted stops counting and every other signer counts
/// as before, the count drops by exactly one.
pub proof fn lemma_count_valid_drops(
    signers: Seq<u32>,
    user: u32,
    roles: RoleStoreView,
    stakes: StakeLedgerView,
    roles_after: RoleStoreView,
    stakes_after: StakeLedgerView,
)
    requires
        signers.no_duplicates(),
        signers.contains(user),
        is_valid_signer(roles, stakes, user as nat),
        !is_valid_signer(roles_after, stakes_after, user as nat),
        forall|i: int|
            0 <= i < signers.len() && signers[i] != user ==> is_valid_signer(
                roles,
                stakes,
                #[trigger] signers[i] as nat,
            ) == is_valid_signer(roles_after, stakes_after, signers[i] as nat),
    ensures
        count_valid_signers(signers, roles_after, stakes_after) + 1 == count_valid_signers(
            signers,
            roles,
            stakes,
        ),
    decreases signers.len(),
{
    let rest = signers.drop_last();
    let at = signers.index_of(user);
    assert(0 <= at < signers.len() && signers[at] == user);
    assert(signers.last() == signers[signers.len() - 1]);
    assert forall|i: int| 0 <= i < rest.len() implies rest[i] == signers[i] by {}
    if signers.last() == user {
        assert forall|i: int| 0 <= i < rest.len() implies is_valid_signer(
            roles,
            stakes,
            #[trigger] rest[i] as nat,
        ) == is_valid_signer(roles_after, stakes_after, rest[i] as nat) by {
            assert(rest[i] == signers[i]);
        }
        lemma_count_valid_same(rest, roles, stakes, roles_after, stakes_after);
    } else {
        assert(rest[at] == user);
        assert(rest.contains(user));
        assert(rest.no_duplicates());
        assert forall|i: int| 0 <= i < rest.len() && rest[i] != user implies is_valid_signer(
            roles,
            stakes,
            #[trigger] rest[i] as nat,
        ) == is_valid_signer(roles_after, stakes_after, rest[i] as nat) by {
            assert(rest[i] == signers[i]);
        }
        lemma_count_valid_drops(rest, user, roles, stakes, roles_after, stakes_after);
    }
}

/// Distinct identifiers between 1 and `bound` are at most `bound` many.
pub proof fn lemma_distinct_ids_bounded(ids: Seq<u32>, bound: nat)
    requires
        ids.no_duplicates(),
        forall|i: int| 0 <= i < ids.len() ==> 1 <= #[trigger] ids[i] <= bound,
    ensures
        ids.len() <= bound,
    decreases bound,
{
    if ids.len() == 0 {
    } else if bound == 0 {
        assert(1 <= ids[0] <= bound);
    } else {
        if exists|k: int| 0 <= k < ids.len() && ids[k] == bound {
            let k = choose|k: int| 0 <= k < ids.len() && ids[k] == bound;
            let rest = ids.remove(k);
            assert forall|i: int| 0 <= i < rest.len() implies rest[i] == if i < k {
                ids[i]
            } else {
                ids[i + 1]
            } by {}
            assert forall|i: int| 0 <= i < rest.len() implies 1 <= #[trigger] rest[i] <= (bound
                - 1) as nat by {
                if i < k {
                    assert(ids[i] != ids[k]);
                } else {
                    assert(ids[i + 1] != ids[k]);
                }
            }
            assert(rest.no_duplicates());
            lemma_distinct_ids_bounded(rest, (bound - 1) as nat);
        } else {
            assert forall|i: int| 0 <= i < ids.len() implies 1 <= #[trigger] ids[i] <= (bound
                - 1) as nat by {
                assert(1 <= ids[i] <= bound);
            }
            lemma_distinct_ids_bounded(ids, (bound - 1) as nat);
        }
    }
}

/// Lists the signers whose signature counts right now, in the order in which
/// they stand among `signers`.
pub fn valid_signers(signers: &Vec<u32>, roles: &RoleStore, stakes: &StakeLedger) -> (r: Vec<u32>)
    ensures
        r@ == valid_signers_of(signers@, roles@, stakes@),
{
    let mut valid: Vec<u32> = Vec::new();
    let mut i: usize = 0;
    proof {
        assert(signers@.take(0) =~= Seq::<u32>::empty());
    }
    while i < signers.len()
        invariant
            0 <= i <= signers.len(),
            valid@ == valid_signers_of(signers@.take(i as int), roles@, stakes@),
        decreases signers.len() - i,
    {
        let user = signers[i];
        proof {
            let prefix = signers@.take(i + 1);
            assert(prefix.drop_last() =~= signers@.take(i as int));
            assert(prefix.last() == user);
        }
        if roles.role_of(user).can_sign() && stakes.has_enough_stake(user) {
            valid.push(user);
        }
        i += 1;
    }
    proof {
        assert(signers@.take(i as int) =~= signers@);
    }
    valid
}

/// Counts the signers whose signature counts right now. Eligibility is read
/// from the current roles and stakes, not from the time of signing.
pub fn valid_signer_count(signers: &Vec<u32>, roles: &RoleStore, stakes: &StakeLedger) -> (n: usize)
    ensures
        n == count_valid_signers(signers@, roles@, stakes@),
{
    let mut n: usize = 0;
    let mut i: usize = 0;
    proof {
        assert(signers@.take(0) =~= Seq::<u32>::empty());
    }
    while i < signers.len()
        invariant
            0 <= i <= signers.len(),
            n <= i,
            n == count_valid_signers(signers@.take(i as int), roles@, stakes@),
        decreases signers.len() - i,
    {
        let user = signers[i];
        proof {
            assert(signers@.take(i + 1) =~= signers@.take(i as int).push(user));
            lemma_count_valid_push(signers@.take(i as int), user, roles@, stakes@);
        }
        if roles.role_of(user).can_sign() && stakes.has_enough_stake(user) {
            n += 1;
        }
        i += 1;
    }
    proof {
        assert(signers@.take(i as int) =~= signers@);
    }
    n
}

} // verus!
