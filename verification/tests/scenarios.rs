use multisig::{Action, Address, ExternalCall, Multisig, MultisigError, UserRole};

fn addr(n: u128) -> Address {
    Address::new(0, n)
}

fn staked_board(members: &[u128], quorum: u32) -> Multisig {
    let board: Vec<Address> = members.iter().map(|n| addr(*n)).collect();
    let mut state = Multisig::init(addr(100), addr(101), 100, 10, quorum, &board, true, true)
        .expect("set-up succeeds");
    for member in board.iter() {
        state.stake(member, 100).expect("board members may stake");
    }
    state
}

#[test]
fn change_quorum_end_to_end() {
    let mut state = staked_board(&[1, 2, 3], 2);
    let id = state.propose_action(&addr(1), Action::ChangeQuorum(3)).unwrap();
    assert_eq!(id, 1);
    assert_eq!(state.get_action_signer_ids(id), vec![1]);
    assert_eq!(state.get_action_valid_signer_count(id), 1);
    assert!(!state.quorum_reached(id));
    state.sign(&addr(2), id).unwrap();
    assert!(state.quorum_reached(id));
    let call = state.perform_action_endpoint(&addr(3), id).unwrap();
    assert!(matches!(call, ExternalCall::NoCall));
    assert_eq!(state.get_quorum(), 3);
    assert_eq!(state.get_num_board_members(), 3);
    assert!(state.was_action_executed(id));
    assert!(state.get_action_data(id).is_none());
    assert_eq!(state.get_action_signer_count(id), 0);

    let next = state.propose_action(&addr(1), Action::ChangeQuorum(4)).unwrap();
    assert_eq!(next, 2);
    state.sign(&addr(2), next).unwrap();
    state.sign(&addr(3), next).unwrap();
    assert_eq!(state.get_action_valid_signer_count(next), 3);
    let refused = state.perform_action_endpoint(&addr(1), next);
    assert_eq!(refused.unwrap_err(), MultisigError::InvariantViolation);
    assert_eq!(state.get_quorum(), 3);
    assert!(!state.was_action_executed(next));
    assert!(matches!(state.get_action_data(next), Some(Action::ChangeQuorum(4))));
    assert_eq!(state.get_action_signer_count(next), 3);
    assert_eq!(state.user_role(&addr(1)), UserRole::BoardMember);
}

#[test]
fn unstake_boundary_for_board_member_and_after_demotion() {
    let mut state = staked_board(&[1, 2], 1);
    assert_eq!(state.amount_staked(&addr(2)), 100);
    assert_eq!(state.unstake(&addr(2), 1), Err(MultisigError::InvariantViolation));
    assert_eq!(state.unstake(&addr(2), 100), Err(MultisigError::InvariantViolation));
    assert_eq!(state.unstake(&addr(2), 0), Ok(0));
    assert_eq!(state.amount_staked(&addr(2)), 100);

    let removal = state.propose_action(&addr(1), Action::RemoveUser(addr(2))).unwrap();
    state.perform_action_endpoint(&addr(1), removal).unwrap();
    assert_eq!(state.user_role(&addr(2)), UserRole::NoRole);
    assert_eq!(state.unstake(&addr(2), 101), Err(MultisigError::InvariantViolation));
    assert_eq!(state.unstake(&addr(2), 100), Ok(100));
    assert_eq!(state.amount_staked(&addr(2)), 0);
}

#[test]
fn unstake_above_minimum_leaves_the_rest() {
    let mut state = staked_board(&[1], 1);
    state.stake(&addr(1), 50).unwrap();
    assert_eq!(state.unstake(&addr(1), 51), Err(MultisigError::InvariantViolation));
    assert_eq!(state.unstake(&addr(1), 50), Ok(50));
    assert_eq!(state.amount_staked(&addr(1)), 100);
    assert!(state.has_enough_stake(&addr(1)));
}

#[test]
fn unknown_address_unstakes_nothing() {
    let mut state = staked_board(&[1], 1);
    assert_eq!(state.unstake(&addr(9), 0), Ok(0));
    assert_eq!(state.unstake(&addr(9), 1), Err(MultisigError::InvariantViolation));
    assert_eq!(state.get_user_id(&addr(9)), 0);
}

#[test]
fn counters_follow_every_role_change() {
    let mut state = staked_board(&[1, 2, 3], 1);
    assert_eq!(state.get_num_board_members(), 3);
    assert_eq!(state.get_num_proposers(), 0);

    let a = state.propose_action(&addr(1), Action::AddProposer(addr(7))).unwrap();
    state.perform_action_endpoint(&addr(1), a).unwrap();
    assert_eq!((state.get_num_board_members(), state.get_num_proposers()), (3, 1));
    assert_eq!(state.get_all_proposers(), vec![addr(7)]);

    let b = state.propose_action(&addr(7), Action::AddBoardMember(addr(7))).unwrap();
    assert_eq!(state.get_action_signer_count(b), 0);
    state.sign(&addr(2), b).unwrap();
    state.perform_action_endpoint(&addr(7), b).unwrap();
    assert_eq!((state.get_num_board_members(), state.get_num_proposers()), (4, 0));

    let c = state.propose_action(&addr(1), Action::AddProposer(addr(3))).unwrap();
    state.perform_action_endpoint(&addr(1), c).unwrap();
    assert_eq!((state.get_num_board_members(), state.get_num_proposers()), (3, 1));

    let d = state.propose_action(&addr(1), Action::RemoveUser(addr(3))).unwrap();
    state.perform_action_endpoint(&addr(1), d).unwrap();
    assert_eq!((state.get_num_board_members(), state.get_num_proposers()), (3, 0));

    let e = state.propose_action(&addr(1), Action::AddBoardMember(addr(1))).unwrap();
    state.perform_action_endpoint(&addr(1), e).unwrap();
    assert_eq!((state.get_num_board_members(), state.get_num_proposers()), (3, 0));
    assert_eq!(state.get_all_board_members(), vec![addr(1), addr(2), addr(7)]);
    assert_eq!(state.get_all_board_members().len() as u32, state.get_num_board_members());
}

#[test]
fn demotion_reduces_valid_signers_without_unsign() {
    let mut state = staked_board(&[1, 2, 3], 2);
    let watched = state.propose_action(&addr(1), Action::Nothing).unwrap();
    state.sign(&addr(2), watched).unwrap();
    assert_eq!(state.get_action_valid_signer_count(watched), 2);
    assert!(state.quorum_reached(watched));

    let removal = state.propose_action(&addr(1), Action::RemoveUser(addr(2))).unwrap();
    state.sign(&addr(3), removal).unwrap();
    state.perform_action_endpoint(&addr(1), removal).unwrap();

    assert_eq!(state.get_action_signer_ids(watched), vec![1, 2]);
    assert_eq!(state.get_action_signers(watched), vec![addr(1), addr(2)]);
    assert_eq!(state.get_action_signer_count(watched), 2);
    assert_eq!(state.get_action_valid_signer_count(watched), 1);
    assert!(!state.quorum_reached(watched));
    assert_eq!(
        state.perform_action_endpoint(&addr(1), watched).unwrap_err(),
        MultisigError::InvalidState
    );
}

#[test]
fn lowering_the_quorum_ratifies_pending_actions() {
    let mut state = staked_board(&[1, 2, 3], 2);
    let watched = state.propose_action(&addr(1), Action::Nothing).unwrap();
    assert!(!state.quorum_reached(watched));
    let lower = state.propose_action(&addr(2), Action::ChangeQuorum(1)).unwrap();
    state.sign(&addr(3), lower).unwrap();
    state.perform_action_endpoint(&addr(2), lower).unwrap();
    assert!(state.quorum_reached(watched));
}

#[test]
fn a_signer_who_loses_the_stake_stops_counting() {
    let mut state = staked_board(&[1, 2], 1);
    let watched = state.propose_action(&addr(1), Action::Nothing).unwrap();
    state.sign(&addr(2), watched).unwrap();
    assert_eq!(state.get_action_valid_signer_count(watched), 2);

    let removal = state.propose_action(&addr(1), Action::RemoveUser(addr(2))).unwrap();
    state.perform_action_endpoint(&addr(1), removal).unwrap();
    assert_eq!(state.unstake(&addr(2), 100), Ok(100));
    let back = state.propose_action(&addr(1), Action::AddBoardMember(addr(2))).unwrap();
    state.perform_action_endpoint(&addr(1), back).unwrap();

    assert_eq!(state.user_role(&addr(2)), UserRole::BoardMember);
    assert_eq!(state.get_action_signer_count(watched), 2);
    assert_eq!(state.get_action_valid_signer_count(watched), 1);
    state.stake(&addr(2), 100).unwrap();
    assert_eq!(state.get_action_valid_signer_count(watched), 2);
}

#[test]
fn sign_is_idempotent_and_unsign_of_non_signer_is_a_no_op() {
    let mut state = staked_board(&[1, 2, 3], 2);
    let id = state.propose_action(&addr(1), Action::Nothing).unwrap();
    state.sign(&addr(2), id).unwrap();
    let once = state.get_action_signer_ids(id);
    state.sign(&addr(2), id).unwrap();
    assert_eq!(state.get_action_signer_ids(id), once);
    assert_eq!(once, vec![1, 2]);

    state.unsign(&addr(3), id).unwrap();
    assert_eq!(state.get_action_signer_ids(id), vec![1, 2]);
}

#[test]
fn unsign_moves_the_last_signer_into_the_gap() {
    let mut state = staked_board(&[1, 2, 3], 2);
    let id = state.propose_action(&addr(1), Action::Nothing).unwrap();
    state.sign(&addr(2), id).unwrap();
    state.sign(&addr(3), id).unwrap();
    assert_eq!(state.get_action_signer_ids(id), vec![1, 2, 3]);
    state.unsign(&addr(1), id).unwrap();
    assert_eq!(state.get_action_signer_ids(id), vec![3, 2]);
    state.unsign(&addr(2), id).unwrap();
    assert_eq!(state.get_action_signer_ids(id), vec![3]);
    state.unsign(&addr(3), id).unwrap();
    assert_eq!(state.get_action_signer_ids(id), Vec::<u32>::new());
}

#[test]
fn propose_then_discard_leaves_no_trace() {
    let mut state = staked_board(&[1, 2], 1);
    let grant = state.propose_action(&addr(1), Action::AddProposer(addr(5))).unwrap();
    state.perform_action_endpoint(&addr(1), grant).unwrap();

    let id = state.propose_action(&addr(5), Action::ChangeQuorum(2)).unwrap();
    assert_eq!(id, 2);
    assert!(matches!(state.get_action_data(id), Some(Action::ChangeQuorum(2))));
    assert_eq!(state.get_action_signer_count(id), 0);
    state.discard_action(&addr(5), id).unwrap();

    assert!(state.get_action_data(id).is_none());
    assert_eq!(state.get_action_signer_count(id), 0);
    assert_eq!(state.get_action_signers(id), Vec::<Address>::new());
    assert_eq!(state.get_action_valid_signer_count(id), 0);
    assert!(!state.was_action_executed(id));
    assert!(state.is_valid_action_id(id));
    assert_eq!(state.sign(&addr(1), id), Err(MultisigError::InvalidState));
    assert_eq!(
        state.perform_action_endpoint(&addr(1), id).unwrap_err(),
        MultisigError::InvalidState
    );
    assert_eq!(state.get_quorum(), 1);
    assert_eq!(state.propose_action(&addr(5), Action::Nothing), Ok(3));
}

#[test]
fn discard_waits_for_the_proposers_own_valid_signature() {
    let mut state = staked_board(&[1, 2], 1);
    let id = state.propose_action(&addr(1), Action::Nothing).unwrap();
    assert_eq!(state.discard_action(&addr(2), id), Err(MultisigError::InvalidState));
    state.unsign(&addr(1), id).unwrap();
    assert_eq!(state.discard_action(&addr(2), id), Ok(()));
    assert!(state.get_action_data(id).is_none());
    assert!(!state.was_action_executed(id));
}

#[test]
fn stale_signatures_do_not_block_discard() {
    let mut state = staked_board(&[1, 2, 3], 1);
    let watched = state.propose_action(&addr(2), Action::Nothing).unwrap();
    let removal = state.propose_action(&addr(1), Action::RemoveUser(addr(2))).unwrap();
    state.perform_action_endpoint(&addr(1), removal).unwrap();
    assert_eq!(state.get_action_signer_count(watched), 1);
    assert_eq!(state.get_action_valid_signer_count(watched), 0);
    assert_eq!(state.discard_action(&addr(3), watched), Ok(()));
    assert_eq!(state.get_action_signer_count(watched), 0);
}

#[test]
fn discard_of_an_unknown_action_changes_nothing() {
    let mut state = staked_board(&[1], 1);
    assert_eq!(state.discard_action(&addr(1), 0), Ok(()));
    assert_eq!(state.discard_action(&addr(1), 5), Ok(()));
    assert_eq!(state.get_action_last_index(), 0);
}

#[test]
fn slash_moves_stake_to_the_pool_and_runs_while_paused() {
    let mut state = staked_board(&[1, 2, 3], 2);
    let quorum_change = state.propose_action(&addr(1), Action::ChangeQuorum(1)).unwrap();
    state.sign(&addr(3), quorum_change).unwrap();
    let slash = state.propose_action(&addr(1), Action::SlashUser(addr(2))).unwrap();
    state.sign(&addr(3), slash).unwrap();

    state.pause();
    assert!(state.is_paused());
    assert_eq!(
        state.perform_action_endpoint(&addr(1), quorum_change).unwrap_err(),
        MultisigError::InvalidState
    );
    assert_eq!(state.get_quorum(), 2);
    state.perform_action_endpoint(&addr(1), slash).unwrap();
    assert_eq!(state.user_role(&addr(2)), UserRole::NoRole);
    assert_eq!(state.amount_staked(&addr(2)), 90);
    assert_eq!(state.slashed_tokens_amount(), 10);
    assert_eq!(state.get_num_board_members(), 2);

    state.unpause();
    state.perform_action_endpoint(&addr(1), quorum_change).unwrap();
    assert_eq!(state.get_quorum(), 1);
}

#[test]
fn slash_of_a_user_without_stake_is_refused_and_rolled_back() {
    let board = vec![addr(1), addr(2), addr(3)];
    let mut state =
        Multisig::init(addr(100), addr(101), 100, 10, 1, &board, true, true).unwrap();
    state.stake(&addr(1), 100).unwrap();
    let slash = state.propose_action(&addr(1), Action::SlashUser(addr(2))).unwrap();
    assert_eq!(
        state.perform_action_endpoint(&addr(1), slash).unwrap_err(),
        MultisigError::InvariantViolation
    );
    assert_eq!(state.user_role(&addr(2)), UserRole::BoardMember);
    assert_eq!(state.get_num_board_members(), 3);
    assert!(matches!(state.get_action_data(slash), Some(Action::SlashUser(_))));
    assert_eq!(state.get_action_signer_ids(slash), vec![1]);
    assert_eq!(state.slashed_tokens_amount(), 0);
}

#[test]
fn removal_may_not_push_the_board_below_the_quorum() {
    let mut state = staked_board(&[1, 2], 2);
    let removal = state.propose_action(&addr(1), Action::RemoveUser(addr(2))).unwrap();
    state.sign(&addr(2), removal).unwrap();
    assert_eq!(
        state.perform_action_endpoint(&addr(1), removal).unwrap_err(),
        MultisigError::InvariantViolation
    );
    assert_eq!(state.get_num_board_members(), 2);
    let demotion = state.propose_action(&addr(1), Action::AddProposer(addr(2))).unwrap();
    state.sign(&addr(2), demotion).unwrap();
    assert_eq!(
        state.perform_action_endpoint(&addr(1), demotion).unwrap_err(),
        MultisigError::InvariantViolation
    );
    assert_eq!(state.user_role(&addr(2)), UserRole::BoardMember);
}

#[test]
fn the_last_user_who_can_propose_may_not_be_removed() {
    let board = vec![addr(1)];
    let mut state =
        Multisig::init(addr(100), addr(101), 100, 10, 0, &board, true, true).unwrap();
    let removal = state.propose_action(&addr(1), Action::RemoveUser(addr(1))).unwrap();
    assert_eq!(
        state.perform_action_endpoint(&addr(1), removal).unwrap_err(),
        MultisigError::InvariantViolation
    );
    assert_eq!(state.get_num_board_members(), 1);
    let demotion = state.propose_action(&addr(1), Action::AddProposer(addr(1))).unwrap();
    state.perform_action_endpoint(&addr(1), demotion).unwrap();
    assert_eq!((state.get_num_board_members(), state.get_num_proposers()), (0, 1));
}

#[test]
fn removing_an_unknown_address_registers_it_without_role() {
    let mut state = staked_board(&[1, 2], 1);
    let removal = state.propose_action(&addr(1), Action::RemoveUser(addr(9))).unwrap();
    state.perform_action_endpoint(&addr(1), removal).unwrap();
    assert_eq!(state.get_user_id(&addr(9)), 3);
    assert_eq!(state.get_user_address(3), Some(addr(9)));
    assert_eq!(state.user_role(&addr(9)), UserRole::NoRole);
    assert_eq!(state.get_num_board_members(), 2);
}

#[test]
fn deploy_is_handed_to_the_caller() {
    let mut state = staked_board(&[1], 1);
    let action = Action::DeployContract {
        amount: 5,
        code: vec![0, 97, 115, 109],
        metadata: 0x0100,
        args: vec![vec![1], vec![2, 3]],
    };
    let id = state.propose_action(&addr(1), action).unwrap();
    match state.perform_action_endpoint(&addr(1), id).unwrap() {
        ExternalCall::DeployContract { amount, code, metadata, args } => {
            assert_eq!(amount, 5);
            assert_eq!(code, vec![0, 97, 115, 109]);
            assert_eq!(metadata, 0x0100);
            assert_eq!(args, vec![vec![1], vec![2, 3]]);
        }
        other => panic!("unexpected call {:?}", other),
    }
    assert!(state.was_action_executed(id));
}

#[test]
fn perform_action_skips_the_checks_of_the_endpoint() {
    let mut state = staked_board(&[1, 2, 3], 3);
    let id = state.propose_action(&addr(1), Action::ChangeQuorum(1)).unwrap();
    assert!(!state.quorum_reached(id));
    assert!(matches!(state.perform_action(id), Ok(ExternalCall::NoCall)));
    assert_eq!(state.get_quorum(), 1);
    assert_eq!(state.perform_action(id).unwrap_err(), MultisigError::InvalidState);
    assert_eq!(state.perform_action(0).unwrap_err(), MultisigError::InvalidState);
    assert_eq!(state.perform_action(7).unwrap_err(), MultisigError::InvalidState);
}

#[test]
fn valid_signers_are_listed_in_signing_order() {
    let mut state = staked_board(&[1, 2, 3], 2);
    let id = state.propose_action(&addr(3), Action::Nothing).unwrap();
    state.sign(&addr(1), id).unwrap();
    state.sign(&addr(2), id).unwrap();
    assert_eq!(state.get_action_signers(id), vec![addr(3), addr(1), addr(2)]);
    assert_eq!(state.get_action_valid_signers(id), vec![addr(3), addr(1), addr(2)]);

    let removal = state.propose_action(&addr(2), Action::RemoveUser(addr(1))).unwrap();
    state.sign(&addr(3), removal).unwrap();
    state.perform_action_endpoint(&addr(2), removal).unwrap();
    assert_eq!(state.get_action_signers(id), vec![addr(3), addr(1), addr(2)]);
    assert_eq!(state.get_action_valid_signers(id), vec![addr(3), addr(2)]);
    assert_eq!(
        state.get_action_valid_signers(id).len() as u32,
        state.get_action_valid_signer_count(id)
    );
    assert_eq!(state.get_action_valid_signers(9), Vec::<Address>::new());
}

#[test]
fn pending_actions_are_listed_until_they_are_settled() {
    let mut state = staked_board(&[1, 2], 1);
    assert_eq!(state.get_pending_action_ids(), Vec::<usize>::new());
    let a = state.propose_action(&addr(1), Action::Nothing).unwrap();
    let b = state.propose_action(&addr(2), Action::ChangeQuorum(2)).unwrap();
    let c = state.propose_action(&addr(1), Action::Nothing).unwrap();
    assert_eq!(state.get_pending_action_ids(), vec![a, b, c]);
    state.perform_action_endpoint(&addr(1), b).unwrap();
    assert_eq!(state.get_pending_action_ids(), vec![a, c]);
    state.unsign(&addr(1), a).unwrap();
    state.discard_action(&addr(2), a).unwrap();
    assert_eq!(state.get_pending_action_ids(), vec![c]);
    assert_eq!(state.get_action_last_index(), 3);
}
