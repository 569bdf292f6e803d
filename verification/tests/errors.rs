use multisig::{Action, Address, Multisig, MultisigError, UserRole};

fn addr(n: u128) -> Address {
    Address::new(0, n)
}

fn fresh(quorum: u32) -> Multisig {
    let board = vec![addr(1), addr(2), addr(3)];
    Multisig::init(addr(100), addr(101), 100, 10, quorum, &board, true, true).unwrap()
}

#[test]
fn init_sets_up_board_and_thresholds() {
    let state = fresh(2);
    assert_eq!(state.get_quorum(), 2);
    assert_eq!(state.get_num_board_members(), 3);
    assert_eq!(state.get_num_proposers(), 0);
    assert_eq!(state.get_user_id(&addr(1)), 1);
    assert_eq!(state.get_user_id(&addr(3)), 3);
    assert_eq!(state.get_user_id(&addr(4)), 0);
    assert_eq!(state.get_user_address(2), Some(addr(2)));
    assert_eq!(state.get_user_address(0), None);
    assert_eq!(state.get_user_address(4), None);
    assert_eq!(state.user_role(&addr(2)), UserRole::BoardMember);
    assert_eq!(state.user_role(&addr(4)), UserRole::NoRole);
    assert_eq!(state.required_stake_amount(), 100);
    assert_eq!(state.slash_amount(), 10);
    assert_eq!(state.slashed_tokens_amount(), 0);
    assert_eq!(state.esdt_safe_address(), addr(100));
    assert_eq!(state.multi_transfer_esdt_address(), addr(101));
    assert_eq!(state.get_action_last_index(), 0);
    assert!(!state.is_paused());
    assert_eq!(state.get_statuses_after_execution(u64::MAX, 0), Some((false, vec![])));
    assert_eq!(state.get_statuses_after_execution(0, 0), None);
}

#[test]
fn init_rejects_a_duplicate_board_member() {
    let board = vec![addr(1), addr(2), addr(1)];
    let r = Multisig::init(addr(100), addr(101), 100, 10, 1, &board, true, true);
    assert_eq!(r.unwrap_err(), MultisigError::InvariantViolation);
}

#[test]
fn init_rejects_a_slash_above_the_required_stake() {
    let board = vec![addr(1)];
    let r = Multisig::init(addr(100), addr(101), 100, 101, 1, &board, true, true);
    assert_eq!(r.unwrap_err(), MultisigError::InvariantViolation);
    assert!(Multisig::init(addr(100), addr(101), 100, 100, 1, &board, true, true).is_ok());
}

#[test]
fn init_rejects_a_quorum_above_the_board() {
    let board = vec![addr(1), addr(2)];
    let r = Multisig::init(addr(100), addr(101), 100, 10, 3, &board, true, true);
    assert_eq!(r.unwrap_err(), MultisigError::InvariantViolation);
    assert!(Multisig::init(addr(100), addr(101), 100, 10, 2, &board, true, true).is_ok());
    assert!(Multisig::init(addr(100), addr(101), 0, 0, 0, &vec![], true, true).is_ok());
}

#[test]
fn init_rejects_services_that_are_plain_accounts() {
    let board = vec![addr(1)];
    let r = Multisig::init(addr(100), addr(101), 100, 10, 1, &board, false, true);
    assert_eq!(r.unwrap_err(), MultisigError::ExternalCallFailure);
    let r = Multisig::init(addr(100), addr(101), 100, 10, 1, &board, true, false);
    assert_eq!(r.unwrap_err(), MultisigError::ExternalCallFailure);
}

#[test]
fn init_reports_board_faults_before_service_faults() {
    let board = vec![addr(1), addr(1)];
    let r = Multisig::init(addr(100), addr(101), 100, 101, 9, &board, false, false);
    assert_eq!(r.unwrap_err(), MultisigError::InvariantViolation);
}

#[test]
fn only_board_members_stake() {
    let mut state = fresh(1);
    assert_eq!(state.stake(&addr(9), 5), Err(MultisigError::Unauthorized));
    assert_eq!(state.amount_staked(&addr(9)), 0);
    state.stake(&addr(1), 100).unwrap();
    let grant = state.propose_action(&addr(1), Action::AddProposer(addr(9))).unwrap();
    state.perform_action_endpoint(&addr(1), grant).unwrap();
    assert_eq!(state.stake(&addr(9), 5), Err(MultisigError::Unauthorized));
    assert_eq!(state.stake(&addr(2), 5), Ok(()));
    assert_eq!(state.stake(&addr(2), 7), Ok(()));
    assert_eq!(state.amount_staked(&addr(2)), 12);
    assert!(!state.has_enough_stake(&addr(2)));
}

#[test]
fn a_balance_that_would_not_fit_is_refused() {
    let mut state = fresh(1);
    state.stake(&addr(1), u128::MAX).unwrap();
    assert_eq!(state.stake(&addr(1), 1), Err(MultisigError::LimitExceeded));
    assert_eq!(state.amount_staked(&addr(1)), u128::MAX);
    assert_eq!(state.stake(&addr(1), 0), Ok(()));
}

#[test]
fn only_proposers_and_board_members_propose() {
    let mut state = fresh(1);
    assert_eq!(
        state.propose_action(&addr(9), Action::Nothing),
        Err(MultisigError::Unauthorized)
    );
    assert_eq!(state.get_action_last_index(), 0);
    assert_eq!(state.propose_action(&addr(1), Action::Nothing), Ok(1));
    assert_eq!(state.propose_action(&addr(2), Action::Nothing), Ok(2));
}

#[test]
fn signing_needs_a_pending_action_the_role_and_the_stake() {
    let mut state = fresh(1);
    let id = state.propose_action(&addr(1), Action::Nothing).unwrap();
    assert_eq!(state.sign(&addr(1), 0), Err(MultisigError::InvalidState));
    assert_eq!(state.sign(&addr(1), 2), Err(MultisigError::InvalidState));
    assert_eq!(state.sign(&addr(9), id), Err(MultisigError::Unauthorized));
    assert_eq!(state.sign(&addr(2), id), Err(MultisigError::Unauthorized));
    assert_eq!(state.unsign(&addr(2), id), Err(MultisigError::Unauthorized));
    state.stake(&addr(2), 99).unwrap();
    assert_eq!(state.sign(&addr(2), id), Err(MultisigError::Unauthorized));
    state.stake(&addr(2), 1).unwrap();
    assert_eq!(state.sign(&addr(2), id), Ok(()));
    assert_eq!(state.get_action_signer_ids(id), vec![1, 2]);
    assert_eq!(state.get_action_valid_signer_count(id), 1);
    assert_eq!(state.unsign(&addr(9), id), Err(MultisigError::Unauthorized));
    assert_eq!(state.unsign(&addr(2), 5), Err(MultisigError::InvalidState));
}

#[test]
fn a_proposer_cannot_sign() {
    let mut state = fresh(1);
    state.stake(&addr(1), 100).unwrap();
    let grant = state.propose_action(&addr(1), Action::AddProposer(addr(9))).unwrap();
    state.perform_action_endpoint(&addr(1), grant).unwrap();
    let id = state.propose_action(&addr(9), Action::Nothing).unwrap();
    assert_eq!(state.get_action_signer_count(id), 0);
    assert_eq!(state.sign(&addr(9), id), Err(MultisigError::Unauthorized));
}

#[test]
fn execution_needs_role_and_quorum() {
    let mut state = fresh(2);
    state.stake(&addr(1), 100).unwrap();
    state.stake(&addr(2), 100).unwrap();
    let id = state.propose_action(&addr(1), Action::ChangeQuorum(1)).unwrap();
    assert_eq!(
        state.perform_action_endpoint(&addr(9), id).unwrap_err(),
        MultisigError::Unauthorized
    );
    assert_eq!(
        state.perform_action_endpoint(&addr(1), id).unwrap_err(),
        MultisigError::InvalidState
    );
    assert_eq!(
        state.perform_action_endpoint(&addr(1), 0).unwrap_err(),
        MultisigError::InvalidState
    );
    assert_eq!(
        state.perform_action_endpoint(&addr(9), 2).unwrap_err(),
        MultisigError::InvalidState
    );
    state.sign(&addr(2), id).unwrap();
    assert!(state.perform_action_endpoint(&addr(3), id).is_ok());
    assert_eq!(
        state.perform_action_endpoint(&addr(3), id).unwrap_err(),
        MultisigError::InvalidState
    );
}

#[test]
fn an_unstaked_proposers_signature_does_not_count() {
    let mut state = fresh(1);
    let id = state.propose_action(&addr(1), Action::ChangeQuorum(0)).unwrap();
    assert_eq!(state.get_action_signer_ids(id), vec![1]);
    assert_eq!(state.get_action_valid_signer_count(id), 0);
    assert!(!state.quorum_reached(id));
    state.stake(&addr(1), 100).unwrap();
    assert_eq!(state.get_action_valid_signer_count(id), 1);
    assert!(state.quorum_reached(id));
}

#[test]
fn only_proposers_and_board_members_discard() {
    let mut state = fresh(1);
    let id = state.propose_action(&addr(1), Action::Nothing).unwrap();
    assert_eq!(state.discard_action(&addr(9), id), Err(MultisigError::Unauthorized));
    assert!(state.get_action_data(id).is_some());
    assert_eq!(state.discard_action(&addr(2), id), Ok(()));
}

#[test]
fn role_capabilities_are_ordered() {
    assert!(!UserRole::NoRole.can_propose());
    assert!(!UserRole::NoRole.can_sign());
    assert!(!UserRole::NoRole.can_perform_action());
    assert!(!UserRole::NoRole.can_discard_action());
    assert!(UserRole::Proposer.can_propose());
    assert!(UserRole::Proposer.can_perform_action());
    assert!(UserRole::Proposer.can_discard_action());
    assert!(!UserRole::Proposer.can_sign());
    assert!(UserRole::BoardMember.can_propose());
    assert!(UserRole::BoardMember.can_perform_action());
    assert!(UserRole::BoardMember.can_discard_action());
    assert!(UserRole::BoardMember.can_sign());
}
