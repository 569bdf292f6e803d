use multisig::admin::{AddressPercentagePair, FeeDestination, PERCENTAGE_TOTAL};
use multisig::model::MIN_BLOCKS_FOR_FINALITY;
use multisig::{
    Action, Address, CurrentTxBatch, ExternalCall, Multisig, MultisigError, TransactionStatus,
    Transfer,
};

fn addr(n: u128) -> Address {
    Address::new(0, n)
}

fn staked_board(quorum: u32) -> Multisig {
    let board = vec![addr(1), addr(2), addr(3)];
    let mut state =
        Multisig::init(addr(100), addr(101), 100, 10, quorum, &board, true, true).unwrap();
    for member in board.iter() {
        state.stake(member, 100).unwrap();
    }
    state
}

fn transfer(to: u128, token: &str, amount: u128) -> Transfer {
    Transfer { to: addr(to), token_id: token.as_bytes().to_vec(), amount }
}

fn two_transfers() -> Vec<Transfer> {
    vec![transfer(50, "WEGLD-abcdef", 7), transfer(51, "USDC-123456", 9)]
}

#[test]
fn proposing_the_same_transfer_batch_twice_names_the_first_action() {
    let mut state = staked_board(1);
    assert_eq!(state.get_action_id_for_transfer_batch(5, &two_transfers()), 0);
    assert!(!state.was_transfer_action_proposed(5, &two_transfers()));

    let id = state.propose_multi_transfer_esdt_batch(&addr(1), 5, two_transfers()).unwrap();
    assert_eq!(id, 1);
    assert_eq!(state.get_action_id_for_transfer_batch(5, &two_transfers()), 1);
    assert!(state.was_transfer_action_proposed(5, &two_transfers()));

    let again = state.propose_multi_transfer_esdt_batch(&addr(2), 5, two_transfers());
    assert_eq!(again, Err(MultisigError::DuplicateProposal(1)));
    assert_eq!(state.get_action_last_index(), 1);
    assert_eq!(state.get_action_signer_ids(1), vec![1]);
}

#[test]
fn another_batch_or_other_content_is_a_new_proposal() {
    let mut state = staked_board(1);
    assert_eq!(state.propose_multi_transfer_esdt_batch(&addr(1), 5, two_transfers()), Ok(1));
    assert_eq!(state.propose_multi_transfer_esdt_batch(&addr(1), 6, two_transfers()), Ok(2));
    let mut reordered = two_transfers();
    reordered.reverse();
    assert_eq!(state.propose_multi_transfer_esdt_batch(&addr(1), 5, reordered), Ok(3));
    let other_amount = vec![transfer(50, "WEGLD-abcdef", 8), transfer(51, "USDC-123456", 9)];
    assert_eq!(state.propose_multi_transfer_esdt_batch(&addr(1), 5, other_amount), Ok(4));
    let other_token = vec![transfer(50, "WEGLD-abcdeg", 7), transfer(51, "USDC-123456", 9)];
    assert_eq!(state.propose_multi_transfer_esdt_batch(&addr(1), 5, other_token), Ok(5));
    assert_eq!(state.propose_multi_transfer_esdt_batch(&addr(1), 5, vec![]), Ok(6));
    assert_eq!(state.get_action_id_for_transfer_batch(6, &two_transfers()), 2);
    assert_eq!(state.get_action_id_for_transfer_batch(7, &two_transfers()), 0);
}

#[test]
fn an_unauthorized_batch_proposal_records_nothing() {
    let mut state = staked_board(1);
    let r = state.propose_multi_transfer_esdt_batch(&addr(9), 5, two_transfers());
    assert_eq!(r, Err(MultisigError::Unauthorized));
    assert!(!state.was_transfer_action_proposed(5, &two_transfers()));
    assert_eq!(state.get_action_last_index(), 0);
}

#[test]
fn transfer_batch_runs_and_its_statuses_are_kept() {
    let mut state = staked_board(1);
    let id = state.propose_multi_transfer_esdt_batch(&addr(1), 5, two_transfers()).unwrap();
    let call = state.perform_action_endpoint(&addr(2), id).unwrap();
    match call {
        ExternalCall::BatchTransfer { service, batch_id, transfers } => {
            assert_eq!(service, addr(101));
            assert_eq!(batch_id, 5);
            assert_eq!(transfers.len(), 2);
            assert_eq!(transfers[0].to, addr(50));
            assert_eq!(transfers[0].token_id, b"WEGLD-abcdef".to_vec());
            assert_eq!(transfers[0].amount, 7);
            assert_eq!(transfers[1].amount, 9);
        }
        other => panic!("unexpected call {:?}", other),
    }
    assert!(state.was_action_executed(id));
    assert!(!state.was_transfer_action_proposed(5, &two_transfers()));
    assert_eq!(state.get_action_id_for_transfer_batch(5, &two_transfers()), 0);

    let results = vec![TransactionStatus::Executed, TransactionStatus::Rejected];
    assert_eq!(state.record_batch_transfer_statuses(5, 2, &results, 50), Ok(()));
    assert_eq!(MIN_BLOCKS_FOR_FINALITY, 10);
    assert_eq!(state.get_statuses_after_execution(5, 50), Some((false, results.clone())));
    assert_eq!(state.get_statuses_after_execution(5, 60), Some((false, results.clone())));
    assert_eq!(state.get_statuses_after_execution(5, 61), Some((true, results.clone())));
    assert_eq!(state.get_statuses_after_execution(5, 49), Some((false, results.clone())));
    assert_eq!(state.get_statuses_after_execution(6, 61), None);
}

#[test]
fn only_the_last_results_are_the_statuses() {
    let mut state = staked_board(1);
    let results = vec![
        TransactionStatus::Pending,
        TransactionStatus::Executed,
        TransactionStatus::Rejected,
    ];
    assert_eq!(state.record_batch_transfer_statuses(8, 2, &results, 3), Ok(()));
    assert_eq!(
        state.get_statuses_after_execution(8, 100),
        Some((true, vec![TransactionStatus::Executed, TransactionStatus::Rejected]))
    );
    assert_eq!(state.record_batch_transfer_statuses(9, 0, &results, 4), Ok(()));
    assert_eq!(state.get_statuses_after_execution(9, 4), Some((false, vec![])));
    assert_eq!(state.get_statuses_after_execution(8, 100), None);
}

#[test]
fn too_few_results_are_a_failed_call() {
    let mut state = staked_board(1);
    let results = vec![TransactionStatus::Executed];
    assert_eq!(
        state.record_batch_transfer_statuses(5, 2, &results, 50),
        Err(MultisigError::ExternalCallFailure)
    );
    assert_eq!(state.get_statuses_after_execution(5, 99), None);
    assert_eq!(state.get_statuses_after_execution(u64::MAX, 99), Some((false, vec![])));
}

#[test]
fn executing_one_variant_of_a_batch_clears_the_others() {
    let mut state = staked_board(1);
    let first = state.propose_multi_transfer_esdt_batch(&addr(1), 5, two_transfers()).unwrap();
    let variant = vec![transfer(50, "WEGLD-abcdef", 8)];
    let second = state.propose_multi_transfer_esdt_batch(&addr(2), 5, variant.clone()).unwrap();
    let other_batch = state.propose_multi_transfer_esdt_batch(&addr(3), 6, variant.clone()).unwrap();
    assert_eq!((first, second, other_batch), (1, 2, 3));

    state.perform_action_endpoint(&addr(1), first).unwrap();
    assert!(state.was_action_executed(first));
    assert!(!state.was_action_executed(second));
    assert!(state.get_action_data(second).is_none());
    assert_eq!(state.get_action_signer_count(second), 0);
    assert!(!state.was_transfer_action_proposed(5, &variant));
    assert!(!state.was_transfer_action_proposed(5, &two_transfers()));
    assert!(state.get_action_data(other_batch).is_some());
    assert!(state.was_transfer_action_proposed(6, &variant));
    assert_eq!(
        state.perform_action_endpoint(&addr(1), second).unwrap_err(),
        MultisigError::InvalidState
    );
    assert_eq!(state.propose_multi_transfer_esdt_batch(&addr(1), 5, variant), Ok(4));
}

#[test]
fn a_discarded_batch_proposal_stays_on_record() {
    let mut state = staked_board(1);
    let id = state.propose_multi_transfer_esdt_batch(&addr(1), 5, two_transfers()).unwrap();
    state.unsign(&addr(1), id).unwrap();
    state.discard_action(&addr(1), id).unwrap();
    assert!(state.was_transfer_action_proposed(5, &two_transfers()));
    assert!(!state.was_action_executed(id));
    assert_eq!(
        state.propose_multi_transfer_esdt_batch(&addr(1), 5, two_transfers()),
        Err(MultisigError::DuplicateProposal(id))
    );
}

#[test]
fn status_batch_is_checked_against_the_current_batch() {
    let mut state = staked_board(1);
    let statuses = vec![TransactionStatus::Executed, TransactionStatus::Rejected];
    let current = Some(CurrentTxBatch { batch_id: 7, transaction_fields: 12 });

    let r = state.propose_esdt_safe_set_current_transaction_batch_status(
        &addr(1),
        7,
        statuses.clone(),
        None,
    );
    assert_eq!(r, Err(MultisigError::ExternalCallFailure));

    let r = state.propose_esdt_safe_set_current_transaction_batch_status(
        &addr(1),
        7,
        vec![TransactionStatus::Executed],
        current,
    );
    assert_eq!(r, Err(MultisigError::InvalidState));

    let r = state.propose_esdt_safe_set_current_transaction_batch_status(
        &addr(1),
        8,
        statuses.clone(),
        current,
    );
    assert_eq!(r, Err(MultisigError::InvalidState));

    let r = state.propose_esdt_safe_set_current_transaction_batch_status(
        &addr(9),
        7,
        statuses.clone(),
        current,
    );
    assert_eq!(r, Err(MultisigError::Unauthorized));
    assert_eq!(state.get_action_last_index(), 0);
    assert!(!state.was_set_current_transaction_batch_status_action_proposed(7, &statuses));

    let r = state.propose_esdt_safe_set_current_transaction_batch_status(
        &addr(1),
        7,
        statuses.clone(),
        current,
    );
    assert_eq!(r, Ok(1));
    assert!(state.was_set_current_transaction_batch_status_action_proposed(7, &statuses));
    assert_eq!(state.get_action_id_for_set_current_transaction_batch_status(7, &statuses), 1);
    assert_eq!(state.get_action_id_for_set_current_transaction_batch_status(8, &statuses), 0);

    let r = state.propose_esdt_safe_set_current_transaction_batch_status(
        &addr(2),
        7,
        statuses.clone(),
        current,
    );
    assert_eq!(r, Err(MultisigError::DuplicateProposal(1)));
    let r = state.propose_esdt_safe_set_current_transaction_batch_status(
        &addr(2),
        7,
        statuses.clone(),
        Some(CurrentTxBatch { batch_id: 9, transaction_fields: 0 }),
    );
    assert_eq!(r, Err(MultisigError::DuplicateProposal(1)));
}

#[test]
fn transaction_count_divides_the_fields_by_six() {
    assert_eq!(CurrentTxBatch { batch_id: 1, transaction_fields: 0 }.transaction_count(), 0);
    assert_eq!(CurrentTxBatch { batch_id: 1, transaction_fields: 6 }.transaction_count(), 1);
    assert_eq!(CurrentTxBatch { batch_id: 1, transaction_fields: 17 }.transaction_count(), 2);
    assert_eq!(CurrentTxBatch { batch_id: 1, transaction_fields: 18 }.transaction_count(), 3);
}

#[test]
fn status_batch_runs_on_the_safe_service() {
    let mut state = staked_board(2);
    let statuses = vec![TransactionStatus::Executed, TransactionStatus::InProgress];
    let other = vec![TransactionStatus::Rejected, TransactionStatus::InProgress];
    let current = Some(CurrentTxBatch { batch_id: 7, transaction_fields: 13 });
    let first = state
        .propose_esdt_safe_set_current_transaction_batch_status(&addr(1), 7, statuses.clone(), current)
        .unwrap();
    let second = state
        .propose_esdt_safe_set_current_transaction_batch_status(&addr(2), 7, other.clone(), current)
        .unwrap();
    state.sign(&addr(3), second).unwrap();
    match state.perform_action_endpoint(&addr(1), second).unwrap() {
        ExternalCall::SetTransactionBatchStatus { service, batch_id, statuses } => {
            assert_eq!(service, addr(100));
            assert_eq!(batch_id, 7);
            assert_eq!(statuses, other);
        }
        other => panic!("unexpected call {:?}", other),
    }
    assert!(state.was_action_executed(second));
    assert!(!state.was_action_executed(first));
    assert!(state.get_action_data(first).is_none());
    assert!(!state.was_set_current_transaction_batch_status_action_proposed(7, &statuses));
    assert!(!state.was_set_current_transaction_batch_status_action_proposed(7, &other));
}

#[test]
fn status_and_transfer_batches_are_recorded_apart() {
    let mut state = staked_board(1);
    let current = Some(CurrentTxBatch { batch_id: 5, transaction_fields: 0 });
    let a = state
        .propose_esdt_safe_set_current_transaction_batch_status(&addr(1), 5, vec![], current)
        .unwrap();
    let b = state.propose_multi_transfer_esdt_batch(&addr(1), 5, vec![]).unwrap();
    assert_eq!((a, b), (1, 2));
    state.perform_action_endpoint(&addr(1), a).unwrap();
    assert!(state.was_transfer_action_proposed(5, &vec![]));
    assert!(matches!(state.get_action_data(b), Some(Action::BatchTransferTokens { .. })));
}

#[test]
fn fee_shares_must_add_up_and_go_to_accounts() {
    let state = staked_board(1);
    let dest = |n: u128, percentage: u32, is_smart_contract: bool| FeeDestination {
        address: addr(n),
        percentage,
        is_smart_contract,
    };
    assert_eq!(PERCENTAGE_TOTAL, 10_000);
    let shares = vec![dest(20, 6_000, false), dest(21, 4_000, false)];
    assert_eq!(
        state.distribute_fees_from_child_contracts(&shares),
        Ok(vec![
            AddressPercentagePair { address: addr(20), percentage: 6_000 },
            AddressPercentagePair { address: addr(21), percentage: 4_000 },
        ])
    );
    let short = vec![dest(20, 6_000, false), dest(21, 3_999, false)];
    assert_eq!(
        state.distribute_fees_from_child_contracts(&short),
        Err(MultisigError::InvariantViolation)
    );
    let long = vec![dest(20, 6_000, false), dest(21, 4_001, false)];
    assert_eq!(
        state.distribute_fees_from_child_contracts(&long),
        Err(MultisigError::InvariantViolation)
    );
    assert_eq!(
        state.distribute_fees_from_child_contracts(&vec![]),
        Err(MultisigError::InvariantViolation)
    );
    let wrapped = vec![dest(20, u32::MAX, false), dest(21, 10_001, false)];
    assert_eq!(
        state.distribute_fees_from_child_contracts(&wrapped),
        Err(MultisigError::InvariantViolation)
    );
    let to_contract = vec![dest(20, 6_000, false), dest(21, 4_000, true)];
    assert_eq!(
        state.distribute_fees_from_child_contracts(&to_contract),
        Err(MultisigError::InvalidState)
    );
    let both_wrong = vec![dest(20, 1, true)];
    assert_eq!(
        state.distribute_fees_from_child_contracts(&both_wrong),
        Err(MultisigError::InvalidState)
    );
}
