use crate::action::{ActionView, TransactionStatus};
use crate::action_log::ActionLogView;
use crate::address::Address;
use crate::board::{lemma_change_user_role, BoardView};
use crate::dedup::{
    bucket_ids, lemma_insert, lemma_without_batch, BatchContentView, DedupEntryView,
};
use crate::error::MultisigError;
use crate::gateway::CurrentTxBatch;
use crate::model::{
    clear_all, lemma_clear_all_keeps_wf, lemma_clear_keeps_wf, lemma_propose_keeps_wf, lemma_sign_keeps_wf,
    lemma_unsign_keeps_wf, MultisigView,
};
use crate::quorum::{
    count_valid_signers, is_valid_signer, lemma_count_valid_drops, lemma_count_valid_same,
};
use crate::registry::{lemma_id_of_range, lemma_with_user_keeps_ids};
use crate::roles::count_role;
use crate::stake::lemma_with_balance;
use crate::user_role::UserRole;
use crate::views::users_with_role;
use vstd::prelude::*;

verus! {

// ----- the counters never drift -----

/// In every sound state the two counters are the numbers of users who hold
/// the role, and the quorum does not exceed the board.
pub proof fn lemma_counters_match_roles(state: MultisigView)
    requires
        state.wf(),
    ensures
        state.board.roles.num_board_members == count_role(
            state.board.roles.roles,
            UserRole::BoardMember,
        ),
        state.board.roles.num_proposers == count_role(state.board.roles.roles, UserRole::Proposer),
        state.quorum <= state.board.roles.num_board_members,
{
}

/// Among the first `upto` users, as many hold `role` as the roles say.
pub proof fn lemma_users_with_role_len(board: BoardView, role: UserRole, upto: nat)
    requires
        role != UserRole::NoRole,
    ensures
        users_with_role(board, role, upto).len() == count_role(
            board.roles.roles.take(
                if upto <= board.roles.roles.len() {
                    upto as int
                } else {
                    board.roles.roles.len() as int
                },
            ),
            role,
        ),
    decreases upto,
{
    let roles = board.roles.roles;
    if upto > 0 {
        lemma_users_with_role_len(board, role, (upto - 1) as nat);
        if upto <= roles.len() {
            assert(roles.take(upto as int).drop_last() =~= roles.take(upto - 1));
            assert(roles.take(upto as int).last() == roles[upto - 1]);
        }
    } else {
        assert(roles.take(0) =~= Seq::<UserRole>::empty());
    }
}

/// In every sound state the list of board members is as long as the counter
/// of board members says, and the list of proposers as long as the counter
/// of proposers.
pub proof fn lemma_member_lists_match_counters(state: MultisigView)
    requires
        state.wf(),
    ensures
        users_with_role(state.board, UserRole::BoardMember, state.board.users.len()).len()
            == state.board.roles.num_board_members,
        users_with_role(state.board, UserRole::Proposer, state.board.users.len()).len()
            == state.board.roles.num_proposers,
{
    let roles = state.board.roles.roles;
    lemma_users_with_role_len(state.board, UserRole::BoardMember, state.board.users.len());
    lemma_users_with_role_len(state.board, UserRole::Proposer, state.board.users.len());
    assert(roles.take(roles.len() as int) =~= roles);
}

/// The state right after a successful set-up is sound.
pub proof fn lemma_init_is_sound(
    esdt_safe_address: Address,
    multi_transfer_esdt_address: Address,
    required_stake: nat,
    slash_amount: nat,
    quorum: nat,
    board: Seq<Address>,
)
    requires
        required_stake <= u128::MAX,
        MultisigView::init_result(required_stake, slash_amount, quorum, board, true, true) is Ok,
    ensures
        MultisigView::init(
            esdt_safe_address,
            multi_transfer_esdt_address,
            required_stake,
            slash_amount,
            quorum,
            board,
        ).wf(),
        MultisigView::init(
            esdt_safe_address,
            multi_transfer_esdt_address,
            required_stake,
            slash_amount,
            quorum,
            board,
        ).board.roles.num_board_members == board.len(),
{
    let state = MultisigView::init(
        esdt_safe_address,
        multi_transfer_esdt_address,
        required_stake,
        slash_amount,
        quorum,
        board,
    );
    crate::registry::lemma_with_users_from_empty(board);
    lemma_count_all(board.len(), UserRole::BoardMember, UserRole::BoardMember);
    lemma_count_all(board.len(), UserRole::BoardMember, UserRole::Proposer);
}

/// Among `len` users who all hold `held`, all of them count for `held` and
/// none for another role.
pub proof fn lemma_count_all(len: nat, held: UserRole, counted: UserRole)
    ensures
        count_role(Seq::new(len, |i: int| held), counted) == if held == counted {
            len
        } else {
            0
        },
    decreases len,
{
    if len > 0 {
        lemma_count_all((len - 1) as nat, held, counted);
        assert(Seq::new(len, |i: int| held).drop_last() =~= Seq::new(
            (len - 1) as nat,
            |i: int| held,
        ));
    }
}

/// Staking keeps the state sound.
pub proof fn lemma_stake_keeps_wf(state: MultisigView, caller: Address, payment: nat)
    requires
        state.wf(),
        state.stake_result(caller, payment) is Ok,
    ensures
        state.stake(caller, payment).wf(),
{
    lemma_id_of_range(state.board.users, caller);
    let id = state.id_of(caller);
    lemma_with_balance(
        state.stakes.balances,
        id,
        (state.stakes.balance_of(id) + payment) as u128,
    );
}

/// Unstaking keeps the state sound.
pub proof fn lemma_unstake_keeps_wf(state: MultisigView, caller: Address, amount: nat)
    requires
        state.wf(),
        state.unstake_result(caller, amount) is Ok,
    ensures
        state.unstake(caller, amount).wf(),
{
    lemma_id_of_range(state.board.users, caller);
    let id = state.id_of(caller);
    if id != 0 {
        lemma_with_balance(
            state.stakes.balances,
            id,
            (state.stakes.balance_of(id) - amount) as u128,
        );
    }
}

/// Proposing keeps the state sound.
pub proof fn lemma_propose_keeps_state_wf(state: MultisigView, caller: Address, action: ActionView)
    requires
        state.wf(),
        state.propose_result(caller) is Ok,
    ensures
        state.propose(caller, action).wf(),
{
    lemma_id_of_range(state.board.users, caller);
    lemma_propose_keeps_wf(
        state.log,
        action,
        state.first_signer(caller),
        state.board.users.len(),
    );
}

/// Proposing a batch keeps the state sound.
pub proof fn lemma_propose_batch_keeps_wf(
    state: MultisigView,
    caller: Address,
    batch_id: u64,
    content: BatchContentView,
)
    requires
        state.wf(),
        state.propose_batch_result(caller, batch_id, content) is Ok,
    ensures
        state.propose_batch(caller, batch_id, content).wf(),
{
    lemma_propose_keeps_state_wf(state, caller, content.to_action(batch_id));
    lemma_insert(
        state.index_for(content),
        DedupEntryView { batch_id, content, action_id: (state.log.slots.len() + 1) as usize },
    );
}

/// Signing keeps the state sound.
pub proof fn lemma_sign_keeps_state_wf(state: MultisigView, caller: Address, id: nat)
    requires
        state.wf(),
        state.sign_result(caller, id) is Ok,
    ensures
        state.sign(caller, id).wf(),
{
    lemma_id_of_range(state.board.users, caller);
    lemma_sign_keeps_wf(state.log, id, state.id_of(caller) as u32, state.board.users.len());
}

/// Unsigning keeps the state sound.
pub proof fn lemma_unsign_keeps_state_wf(state: MultisigView, caller: Address, id: nat)
    requires
        state.wf(),
        state.sign_result(caller, id) is Ok,
    ensures
        state.unsign(caller, id).wf(),
{
    lemma_unsign_keeps_wf(state.log, id, state.id_of(caller) as u32, state.board.users.len());
}

/// Discarding keeps the state sound.
pub proof fn lemma_discard_keeps_wf(state: MultisigView, id: nat)
    requires
        state.wf(),
    ensures
        state.discard(id).wf(),
{
    lemma_clear_keeps_wf(state.log, id, false, state.board.users.len());
}

/// Moving a user to another role, where the executor accepts it, keeps the
/// state sound: the counters follow the roles and the quorum stays within
/// the board.
pub proof fn lemma_role_change_keeps_wf(state: MultisigView, address: Address, new_role: UserRole)
    requires
        state.wf(),
        state.role_change_result(address, new_role) is Ok,
    ensures
        (MultisigView { board: state.board.change_user_role(address, new_role), ..state }).wf(),
{
    lemma_change_user_role(state.board, address, new_role);
}

/// Executing an action keeps the state sound, whatever the action.
pub proof fn lemma_perform_keeps_wf(state: MultisigView, id: nat)
    requires
        state.wf(),
        state.perform_result(id) is Ok,
    ensures
        state.perform(id).wf(),
{
    let action = state.log.action_data(id)->Some_0;
    let cleared = MultisigView { log: state.log.clear(id, true), ..state };
    lemma_clear_keeps_wf(state.log, id, true, state.board.users.len());
    assert(cleared.wf());
    match action {
        ActionView::AddBoardMember(address) => {
            lemma_role_change_keeps_wf(cleared, address, UserRole::BoardMember);
        },
        ActionView::AddProposer(address) => {
            lemma_role_change_keeps_wf(cleared, address, UserRole::Proposer);
        },
        ActionView::RemoveUser(address) => {
            lemma_role_change_keeps_wf(cleared, address, UserRole::NoRole);
        },
        ActionView::SlashUser(address) => {
            lemma_role_change_keeps_wf(cleared, address, UserRole::NoRole);
            lemma_change_user_role(state.board, address, UserRole::NoRole);
            let board = state.board.change_user_role(address, UserRole::NoRole);
            let user = board.id_of(address);
            lemma_id_of_range(board.users, address);
            lemma_with_balance(
                state.stakes.balances,
                user,
                (state.stakes.balance_of(user) - state.stakes.slash_amount) as u128,
            );
        },
        ActionView::SetExternalBatchStatus { batch_id, statuses } => {
            lemma_clear_all_keeps_wf(
                cleared.log,
                bucket_ids(state.status_batches, batch_id),
                state.board.users.len(),
            );
            lemma_without_batch(state.status_batches, batch_id);
        },
        ActionView::BatchTransferTokens { batch_id, transfers } => {
            lemma_clear_all_keeps_wf(
                cleared.log,
                bucket_ids(state.transfer_batches, batch_id),
                state.board.users.len(),
            );
            lemma_without_batch(state.transfer_batches, batch_id);
        },
        _ => {},
    }
}

/// Clearing actions never reopens one that is settled.
pub proof fn lemma_clear_all_keeps_settled(log: ActionLogView, ids: Seq<usize>, id: nat)
    requires
        log.is_valid_action_id(id),
        !log.is_pending(id),
    ensures
        clear_all(log, ids).slots.len() == log.slots.len(),
        clear_all(log, ids).slots[id - 1] == log.slots[id - 1],
    decreases ids.len(),
{
    if ids.len() > 0 {
        lemma_clear_all_keeps_settled(log, ids.drop_last(), id);
    }
}

/// An action runs once: after its execution it counts as executed, and every
/// further attempt to execute it is refused, whoever asks.
pub proof fn lemma_action_runs_once(state: MultisigView, id: nat, caller: Address)
    requires
        state.wf(),
        state.perform_result(id) is Ok,
    ensures
        state.log.is_pending(id),
        state.perform(id).log.was_executed(id),
        !state.perform(id).log.is_pending(id),
        state.perform(id).perform_result(id) == Err::<(), MultisigError>(
            MultisigError::InvalidState,
        ),
        state.perform(id).perform_endpoint_result(caller, id) == Err::<(), MultisigError>(
            MultisigError::InvalidState,
        ),
        state.perform(id).sign_result(caller, id) == Err::<(), MultisigError>(
            MultisigError::InvalidState,
        ),
{
    let action = state.log.action_data(id)->Some_0;
    let cleared = state.log.clear(id, true);
    lemma_clear_keeps_wf(state.log, id, true, state.board.users.len());
    assert(cleared.slots[id - 1] is Executed);
    match action {
        ActionView::SetExternalBatchStatus { batch_id, statuses } => {
            lemma_clear_all_keeps_settled(cleared, bucket_ids(state.status_batches, batch_id), id);
        },
        ActionView::BatchTransferTokens { batch_id, transfers } => {
            lemma_clear_all_keeps_settled(
                cleared,
                bucket_ids(state.transfer_batches, batch_id),
                id,
            );
        },
        _ => {},
    }
}

/// Recording the statuses of a transfer batch keeps the state sound.
pub proof fn lemma_record_statuses_keeps_wf(
    state: MultisigView,
    batch_id: u64,
    transfers_len: nat,
    results: Seq<TransactionStatus>,
    block: u64,
)
    requires
        state.wf(),
    ensures
        state.record_statuses(batch_id, transfers_len, results, block).wf(),
{
}

// ----- the quorum looks at the signers as they are now -----

/// An action has its quorum exactly when the signers who count right now are
/// at least as many as the quorum.
pub proof fn lemma_quorum_follows_valid_signers(state: MultisigView, id: nat)
    ensures
        state.quorum_reached(id) <==> state.valid_signer_count(id) >= state.quorum,
        state.valid_signer_count(id) == count_valid_signers(
            state.log.signers_of(id),
            state.board.roles,
            state.stakes,
        ),
{
}

/// When a signer whose signature counts is moved to a role that may not
/// sign, every action that the signer backs loses exactly one valid
/// signature, while its signer set stays as it is: nobody has to unsign.
pub proof fn lemma_demotion_drops_valid_signer(
    state: MultisigView,
    address: Address,
    new_role: UserRole,
    id: nat,
)
    requires
        state.wf(),
        !new_role.spec_can_sign(),
        state.has_signed(address, id),
        is_valid_signer(state.board.roles, state.stakes, state.id_of(address)),
    ensures
        ({
            let next = MultisigView {
                board: state.board.change_user_role(address, new_role),
                ..state
            };
            &&& next.log.signers_of(id) == state.log.signers_of(id)
            &&& next.valid_signer_count(id) + 1 == state.valid_signer_count(id)
            &&& next.quorum_reached(id) <==> state.valid_signer_count(id) - 1 >= state.quorum
        }),
{
    let next = MultisigView { board: state.board.change_user_role(address, new_role), ..state };
    let signers = state.log.signers_of(id);
    let user = state.id_of(address);
    lemma_id_of_range(state.board.users, address);
    lemma_with_user_keeps_ids(state.board.users, address, address);
    lemma_change_user_role(state.board, address, new_role);
    assert(next.board.id_of(address) == user);
    assert(state.log.is_valid_action_id(id));
    assert(signers.no_duplicates());
    assert forall|i: int| 0 <= i < signers.len() && signers[i] != user as u32 implies is_valid_signer(
        state.board.roles,
        state.stakes,
        #[trigger] signers[i] as nat,
    ) == is_valid_signer(next.board.roles, next.stakes, signers[i] as nat) by {
        assert(signers[i] as nat != next.board.id_of(address));
    }
    lemma_count_valid_drops(
        signers,
        user as u32,
        state.board.roles,
        state.stakes,
        next.board.roles,
        next.stakes,
    );
}

/// Executing the removal of a user whose signature counts takes one valid
/// signature from every other action that the user backs, without touching
/// its signer set.
pub proof fn lemma_removal_drops_valid_signer(
    state: MultisigView,
    removal: nat,
    address: Address,
    id: nat,
)
    requires
        state.wf(),
        state.log.action_data(removal) == Some(ActionView::RemoveUser(address)),
        state.perform_result(removal) is Ok,
        id != removal,
        state.has_signed(address, id),
        is_valid_signer(state.board.roles, state.stakes, state.id_of(address)),
    ensures
        state.perform(removal).log.signers_of(id) == state.log.signers_of(id),
        state.perform(removal).valid_signer_count(id) + 1 == state.valid_signer_count(id),
{
    let cleared = MultisigView { log: state.log.clear(removal, true), ..state };
    lemma_clear_keeps_wf(state.log, removal, true, state.board.users.len());
    lemma_demotion_drops_valid_signer(cleared, address, UserRole::NoRole, id);
}

/// A change of role or stake that leaves every signer of an action as
/// eligible as before leaves the count of its valid signers as it was.
pub proof fn lemma_valid_count_depends_on_signers_only(
    state: MultisigView,
    after: MultisigView,
    id: nat,
)
    requires
        after.log.signers_of(id) == state.log.signers_of(id),
        forall|i: int|
            0 <= i < state.log.signers_of(id).len() ==> is_valid_signer(
                state.board.roles,
                state.stakes,
                #[trigger] state.log.signers_of(id)[i] as nat,
            ) == is_valid_signer(
                after.board.roles,
                after.stakes,
                state.log.signers_of(id)[i] as nat,
            ),
    ensures
        after.valid_signer_count(id) == state.valid_signer_count(id),
{
    lemma_count_valid_same(
        state.log.signers_of(id),
        state.board.roles,
        state.stakes,
        after.board.roles,
        after.stakes,
    );
}

// ----- signing is idempotent -----

/// Signing twice leaves the state that signing once leaves.
pub proof fn lemma_sign_twice_is_sign_once(state: MultisigView, caller: Address, id: nat)
    requires
        state.wf(),
        state.sign_result(caller, id) is Ok,
    ensures
        state.sign(caller, id).sign_result(caller, id) is Ok,
        state.sign(caller, id).sign(caller, id) == state.sign(caller, id),
{
    let once = state.sign(caller, id);
    let twice = once.sign(caller, id);
    let user = state.id_of(caller) as u32;
    crate::action_log::lemma_with_signer(state.log.signers[id - 1], user);
    assert(twice.log.signers =~= once.log.signers);
}

/// Unsigning by somebody who has not signed changes nothing.
pub proof fn lemma_unsign_of_non_signer_changes_nothing(
    state: MultisigView,
    caller: Address,
    id: nat,
)
    requires
        state.wf(),
        state.sign_result(caller, id) is Ok,
        !state.has_signed(caller, id),
    ensures
        state.unsign(caller, id) == state,
{
    assert(state.unsign(caller, id).log.signers =~= state.log.signers);
}

/// Unsigning after signing removes the signature again.
pub proof fn lemma_unsign_removes_signature(state: MultisigView, caller: Address, id: nat)
    requires
        state.wf(),
        state.sign_result(caller, id) is Ok,
    ensures
        state.sign(caller, id).has_signed(caller, id),
        !state.sign(caller, id).unsign(caller, id).has_signed(caller, id),
{
    lemma_id_of_range(state.board.users, caller);
    let user = state.id_of(caller) as u32;
    lemma_sign_keeps_wf(state.log, id, user, state.board.users.len());
    let signed = state.sign(caller, id);
    lemma_unsign_keeps_wf(signed.log, id, user, state.board.users.len());
}

// ----- proposing and discarding -----

/// A proposal that is discarded right away leaves no trace but the used
/// identifier: the action has no data and no signers, it does not count as
/// executed, and everything else is as before the proposal. This holds where
/// the proposer's own signature does not count, so that nobody backs the
/// new action.
pub proof fn lemma_propose_then_discard(state: MultisigView, caller: Address, action: ActionView)
    requires
        state.wf(),
        state.propose_result(caller) is Ok,
        !is_valid_signer(state.board.roles, state.stakes, state.id_of(caller)),
    ensures
        ({
            let id = (state.log.slots.len() + 1) as nat;
            let proposed = state.propose(caller, action);
            let discarded = proposed.discard(id);
            &&& proposed.log.action_data(id) == Some(action)
            &&& proposed.discard_result(caller, id) is Ok
            &&& discarded.wf()
            &&& discarded.log.action_data(id) is None
            &&& discarded.log.action_data(id) == state.log.action_data(id)
            &&& discarded.log.signers_of(id) == state.log.signers_of(id)
            &&& discarded.log.signers_of(id).len() == 0
            &&& discarded.valid_signer_count(id) == 0
            &&& !discarded.log.was_executed(id)
            &&& !discarded.log.is_pending(id)
            &&& discarded == (MultisigView { log: discarded.log, ..state })
            &&& forall|other: nat|
                other != id ==> discarded.log.action_data(other) == state.log.action_data(other)
                    && discarded.log.signers_of(other) == state.log.signers_of(other)
        }),
{
    let id = (state.log.slots.len() + 1) as nat;
    let proposed = state.propose(caller, action);
    let discarded = proposed.discard(id);
    lemma_propose_keeps_state_wf(state, caller, action);
    lemma_propose_keeps_wf(
        state.log,
        action,
        state.first_signer(caller),
        state.board.users.len(),
    );
    lemma_clear_keeps_wf(proposed.log, id, false, state.board.users.len());
    let row = proposed.log.signers_of(id);
    assert(row == proposed.log.signers[id - 1]);
    if state.first_signer(caller) is Some {
        assert(row =~= seq![state.id_of(caller) as u32]);
        assert(row.drop_last() =~= Seq::<u32>::empty());
        lemma_id_of_range(state.board.users, caller);
    } else {
        assert(row =~= Seq::<u32>::empty());
    }
    lemma_id_of_range(state.board.users, caller);
    crate::quorum::lemma_count_valid_zero(row, state.board.roles, state.stakes);
    assert(proposed.valid_signer_count(id) == 0);
    assert forall|other: nat| other != id implies discarded.log.action_data(other)
        == state.log.action_data(other) && discarded.log.signers_of(other)
        == state.log.signers_of(other) by {
        if 1 <= other <= state.log.slots.len() {
            assert(proposed.log.slots[other - 1] == state.log.slots[other - 1]);
            assert(proposed.log.signers[other - 1] == state.log.signers[other - 1]);
        }
    }
}

/// Where the proposer's own signature counts, the proposal leaves no trace
/// once the proposer has withdrawn the signature and discarded the action.
pub proof fn lemma_propose_unsign_then_discard(
    state: MultisigView,
    caller: Address,
    action: ActionView,
)
    requires
        state.wf(),
        state.propose_result(caller) is Ok,
        is_valid_signer(state.board.roles, state.stakes, state.id_of(caller)),
    ensures
        ({
            let id = (state.log.slots.len() + 1) as nat;
            let proposed = state.propose(caller, action);
            let unsigned = proposed.unsign(caller, id);
            let discarded = unsigned.discard(id);
            &&& proposed.has_signed(caller, id)
            &&& proposed.valid_signer_count(id) == 1
            &&& proposed.discard_result(caller, id) == Err::<(), MultisigError>(
                MultisigError::InvalidState,
            )
            &&& proposed.sign_result(caller, id) is Ok
            &&& unsigned.discard_result(caller, id) is Ok
            &&& discarded.wf()
            &&& discarded.log.action_data(id) is None
            &&& discarded.log.signers_of(id).len() == 0
            &&& !discarded.log.was_executed(id)
            &&& discarded == (MultisigView { log: discarded.log, ..state })
            &&& forall|other: nat|
                other != id ==> discarded.log.action_data(other) == state.log.action_data(other)
                    && discarded.log.signers_of(other) == state.log.signers_of(other)
        }),
{
    let id = (state.log.slots.len() + 1) as nat;
    let proposed = state.propose(caller, action);
    let unsigned = proposed.unsign(caller, id);
    let discarded = unsigned.discard(id);
    let user = state.id_of(caller) as u32;
    lemma_id_of_range(state.board.users, caller);
    lemma_propose_keeps_state_wf(state, caller, action);
    lemma_propose_keeps_wf(
        state.log,
        action,
        state.first_signer(caller),
        state.board.users.len(),
    );
    let row = proposed.log.signers_of(id);
    assert(row == proposed.log.signers[id - 1]);
    assert(row =~= seq![user]);
    assert(row[0] == user);
    assert(Seq::<u32>::empty().push(user) =~= row);
    crate::quorum::lemma_count_valid_push(
        Seq::<u32>::empty(),
        user,
        state.board.roles,
        state.stakes,
    );
    assert(proposed.valid_signer_count(id) == 1);
    lemma_unsign_keeps_wf(proposed.log, id, user, state.board.users.len());
    crate::action_log::lemma_without_signer(row, user);
    let after = unsigned.log.signers_of(id);
    assert(after == unsigned.log.signers[id - 1]);
    assert(after =~= Seq::<u32>::empty());
    assert(unsigned.valid_signer_count(id) == 0);
    lemma_clear_keeps_wf(unsigned.log, id, false, state.board.users.len());
    assert forall|other: nat| other != id implies discarded.log.action_data(other)
        == state.log.action_data(other) && discarded.log.signers_of(other)
        == state.log.signers_of(other) by {
        if 1 <= other <= state.log.slots.len() {
            assert(proposed.log.slots[other - 1] == state.log.slots[other - 1]);
            assert(proposed.log.signers[other - 1] == state.log.signers[other - 1]);
            assert(unsigned.log.signers[other - 1] == proposed.log.signers[other - 1]);
        }
    }
}

// ----- a batch is proposed once -----

/// Once a batch is proposed, proposing the same batch with the same content
/// again is refused, whoever asks: the refusal names the action of the first
/// proposal, which is also what the lookup gives, and no second action is
/// made.
pub proof fn lemma_duplicate_batch_is_refused(
    state: MultisigView,
    caller: Address,
    second_caller: Address,
    batch_id: u64,
    content: BatchContentView,
)
    requires
        state.wf(),
        state.propose_batch_result(caller, batch_id, content) is Ok,
    ensures
        ({
            let id = state.propose_batch_result(caller, batch_id, content)->Ok_0;
            let next = state.propose_batch(caller, batch_id, content);
            &&& next.wf()
            &&& id == state.log.slots.len() + 1
            &&& next.log.slots.len() == state.log.slots.len() + 1
            &&& next.log.action_data(id as nat) == Some(content.to_action(batch_id))
            &&& next.action_id_for_batch(batch_id, content) == id
            &&& next.propose_batch_result(second_caller, batch_id, content) == Err::<
                usize,
                MultisigError,
            >(MultisigError::DuplicateProposal(id))
        }),
{
    let id = (state.log.slots.len() + 1) as usize;
    let entry = DedupEntryView { batch_id, content, action_id: id };
    lemma_propose_batch_keeps_wf(state, caller, batch_id, content);
    lemma_insert(state.index_for(content), entry);
    lemma_id_of_range(state.board.users, caller);
    lemma_propose_keeps_wf(
        state.log,
        content.to_action(batch_id),
        state.first_signer(caller),
        state.board.users.len(),
    );
}

/// The same for the statuses of a batch of the safe service: the second
/// proposal of the same statuses for the same batch is refused and names the
/// first.
pub proof fn lemma_duplicate_status_batch_is_refused(
    state: MultisigView,
    caller: Address,
    second_caller: Address,
    batch_id: u64,
    statuses: Seq<TransactionStatus>,
    current: CurrentTxBatch,
)
    requires
        state.wf(),
        state.propose_status_batch_result(caller, batch_id, statuses, Some(current)) is Ok,
    ensures
        ({
            let id = state.propose_status_batch_result(
                caller,
                batch_id,
                statuses,
                Some(current),
            )->Ok_0;
            let next = state.propose_batch(caller, batch_id, BatchContentView::Statuses(statuses));
            &&& next.propose_status_batch_result(second_caller, batch_id, statuses, Some(current))
                == Err::<usize, MultisigError>(MultisigError::DuplicateProposal(id))
        }),
{
    lemma_duplicate_batch_is_refused(
        state,
        caller,
        second_caller,
        batch_id,
        BatchContentView::Statuses(statuses),
    );
}

} // verus!
