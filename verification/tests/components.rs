use multisig::action_log::ActionLog;
use multisig::board::Board;
use multisig::dedup::{BatchContent, BatchDeduplicationIndex};
use multisig::gateway::check_services;
use multisig::quorum::valid_signer_count;
use multisig::registry::UserRegistry;
use multisig::roles::RoleStore;
use multisig::stake::StakeLedger;
use multisig::{Action, Address, MultisigError, TransactionStatus, Transfer, UserRole};

fn addr(n: u128) -> Address {
    Address::new(n, n + 1)
}

#[test]
fn addresses_compare_by_both_halves() {
    assert!(Address::new(1, 2).same(&Address::new(1, 2)));
    assert!(!Address::new(1, 2).same(&Address::new(1, 3)));
    assert!(!Address::new(1, 2).same(&Address::new(2, 2)));
    assert!(!Address::new(1, 2).same(&Address::new(2, 1)));
}

#[test]
fn registry_assigns_dense_ids_once() {
    let mut registry = UserRegistry::new();
    assert_eq!(registry.get_user_count(), 0);
    assert_eq!(registry.get_user_id(&addr(5)), 0);
    assert_eq!(registry.get_or_create_user(&addr(5)), Ok((1, true)));
    assert_eq!(registry.get_or_create_user(&addr(6)), Ok((2, true)));
    assert_eq!(registry.get_or_create_user(&addr(5)), Ok((1, false)));
    assert_eq!(registry.get_user_count(), 2);
    assert_eq!(registry.get_user_id(&addr(6)), 2);
    assert_eq!(registry.get_user_address(1), Some(addr(5)));
    assert_eq!(registry.get_user_address(2), Some(addr(6)));
    assert_eq!(registry.get_user_address(0), None);
    assert_eq!(registry.get_user_address(3), None);
}

#[test]
fn bulk_registration_flags_known_and_repeated_addresses() {
    let mut registry = UserRegistry::new();
    registry.get_or_create_user(&addr(7)).unwrap();
    let list = vec![addr(1), addr(7), addr(2), addr(1), addr(3)];
    let ids = registry.get_or_create_users(&list).unwrap();
    assert_eq!(ids, vec![(2, true), (1, false), (3, true), (2, false), (4, true)]);
    assert_eq!(registry.get_user_count(), 4);
    assert_eq!(registry.get_user_address(4), Some(addr(3)));
    assert_eq!(registry.get_or_create_users(&vec![]), Ok(vec![]));
}

#[test]
fn role_store_counts_follow_the_roles() {
    let mut roles = RoleStore::new();
    assert_eq!(roles.role_of(0), UserRole::NoRole);
    assert_eq!(roles.role_of(3), UserRole::NoRole);
    roles.change_role(3, UserRole::BoardMember);
    assert_eq!(roles.role_of(3), UserRole::BoardMember);
    assert_eq!(roles.role_of(1), UserRole::NoRole);
    assert_eq!(roles.role_of(2), UserRole::NoRole);
    assert_eq!((roles.num_board_members(), roles.num_proposers()), (1, 0));
    roles.change_role(1, UserRole::Proposer);
    assert_eq!((roles.num_board_members(), roles.num_proposers()), (1, 1));
    roles.change_role(3, UserRole::Proposer);
    assert_eq!((roles.num_board_members(), roles.num_proposers()), (0, 2));
    roles.change_role(3, UserRole::Proposer);
    assert_eq!((roles.num_board_members(), roles.num_proposers()), (0, 2));
    roles.change_role(1, UserRole::NoRole);
    assert_eq!((roles.num_board_members(), roles.num_proposers()), (0, 1));
    roles.change_role(1, UserRole::NoRole);
    assert_eq!((roles.num_board_members(), roles.num_proposers()), (0, 1));
    roles.change_role(3, UserRole::BoardMember);
    assert_eq!((roles.num_board_members(), roles.num_proposers()), (1, 0));
}

#[test]
fn board_registers_on_role_change() {
    let mut board = Board::new();
    assert_eq!(board.get_user_count(), 0);
    assert_eq!(board.user_role(&addr(1)), UserRole::NoRole);
    assert_eq!(board.change_user_role(&addr(1), UserRole::Proposer), Ok(1));
    assert_eq!(board.change_user_role(&addr(2), UserRole::NoRole), Ok(2));
    assert_eq!(board.change_user_role(&addr(1), UserRole::BoardMember), Ok(1));
    assert_eq!(board.get_user_count(), 2);
    assert_eq!(board.get_user_id(&addr(2)), 2);
    assert_eq!(board.get_user_address(1), Some(addr(1)));
    assert_eq!(board.get_user_id_to_role(1), UserRole::BoardMember);
    assert_eq!(board.user_role(&addr(2)), UserRole::NoRole);
    assert_eq!((board.num_board_members(), board.num_proposers()), (1, 0));
    assert_eq!(board.roles().role_of(1), UserRole::BoardMember);
}

#[test]
fn board_of_members_rejects_repetition() {
    let board = Board::with_members(&vec![addr(1), addr(2)]).unwrap();
    assert_eq!(board.num_board_members(), 2);
    assert_eq!(board.user_role(&addr(2)), UserRole::BoardMember);
    let r = Board::with_members(&vec![addr(1), addr(2), addr(2)]);
    assert_eq!(r.unwrap_err(), MultisigError::InvariantViolation);
    assert_eq!(Board::with_members(&vec![]).unwrap().num_board_members(), 0);
}

#[test]
fn stake_ledger_adds_takes_and_slashes() {
    assert_eq!(StakeLedger::new(10, 11).unwrap_err(), MultisigError::InvariantViolation);
    let mut ledger = StakeLedger::new(100, 30).unwrap();
    assert_eq!(ledger.required_stake_amount(), 100);
    assert_eq!(ledger.slash_amount(), 30);
    assert_eq!(ledger.balance_of(0), 0);
    assert_eq!(ledger.balance_of(4), 0);
    assert!(!ledger.has_enough_stake(4));
    assert_eq!(ledger.stake(4, 60), Ok(()));
    assert_eq!(ledger.stake(4, 40), Ok(()));
    assert_eq!(ledger.balance_of(4), 100);
    assert_eq!(ledger.balance_of(3), 0);
    assert!(ledger.has_enough_stake(4));
    assert_eq!(ledger.unstake(4, 1, true), Err(MultisigError::InvariantViolation));
    assert_eq!(ledger.unstake(4, 1, false), Ok(()));
    assert_eq!(ledger.balance_of(4), 99);
    assert!(!ledger.has_enough_stake(4));
    assert_eq!(ledger.unstake(4, 100, false), Err(MultisigError::InvariantViolation));
    assert_eq!(ledger.slash(4), Ok(()));
    assert_eq!(ledger.balance_of(4), 69);
    assert_eq!(ledger.slashed_tokens_amount(), 30);
    assert_eq!(ledger.slash(4), Ok(()));
    assert_eq!(ledger.balance_of(4), 39);
    assert_eq!(ledger.slashed_tokens_amount(), 60);
    assert_eq!(ledger.slash(4), Ok(()));
    assert_eq!(ledger.slash(4), Err(MultisigError::InvariantViolation));
    assert_eq!(ledger.balance_of(4), 9);
    assert_eq!(ledger.slashed_tokens_amount(), 90);
    assert_eq!(ledger.slash(2), Err(MultisigError::InvariantViolation));
    assert_eq!(ledger.unstake(0, 0, true), Err(MultisigError::InvariantViolation));
    assert_eq!(ledger.unstake(0, 0, false), Ok(()));
}

#[test]
fn slashed_pool_that_would_not_fit_is_refused() {
    let mut ledger = StakeLedger::new(u128::MAX, u128::MAX).unwrap();
    ledger.stake(1, u128::MAX).unwrap();
    ledger.stake(2, u128::MAX).unwrap();
    assert_eq!(ledger.slash(1), Ok(()));
    assert_eq!(ledger.slash(2), Err(MultisigError::LimitExceeded));
    assert_eq!(ledger.balance_of(2), u128::MAX);
    let mut free = StakeLedger::new(0, 0).unwrap();
    assert!(free.has_enough_stake(0));
    assert_eq!(free.slash(9), Ok(()));
    assert_eq!(free.slashed_tokens_amount(), 0);
}

#[test]
fn action_log_numbers_actions_from_one() {
    let mut log = ActionLog::new();
    assert_eq!(log.len(), 0);
    assert!(!log.is_valid_action_id(0));
    assert!(!log.is_valid_action_id(1));
    assert_eq!(log.propose(Action::Nothing, None), Ok(1));
    assert_eq!(log.propose(Action::ChangeQuorum(2), Some(4)), Ok(2));
    assert_eq!(log.len(), 2);
    assert!(log.is_valid_action_id(1) && log.is_valid_action_id(2));
    assert!(!log.is_valid_action_id(3));
    assert!(log.is_pending(1));
    assert!(matches!(log.get_action(1), Some(Action::Nothing)));
    assert!(matches!(log.get_action(2), Some(Action::ChangeQuorum(2))));
    assert!(log.get_action(3).is_none());
    assert_eq!(log.get_signers(1), Vec::<u32>::new());
    assert_eq!(log.get_signers(2), vec![4]);
    assert_eq!(log.get_signers(3), Vec::<u32>::new());
}

#[test]
fn action_log_signs_unsigns_and_clears() {
    let mut log = ActionLog::new();
    log.propose(Action::Nothing, Some(1)).unwrap();
    assert_eq!(log.sign(1, 2), Ok(()));
    assert_eq!(log.sign(1, 3), Ok(()));
    assert_eq!(log.sign(1, 2), Ok(()));
    assert_eq!(log.get_signers(1), vec![1, 2, 3]);
    assert_eq!(log.unsign(1, 9), Ok(()));
    assert_eq!(log.get_signers(1), vec![1, 2, 3]);
    assert_eq!(log.unsign(1, 2), Ok(()));
    assert_eq!(log.get_signers(1), vec![1, 3]);
    assert_eq!(log.sign(2, 1), Err(MultisigError::InvalidState));
    assert_eq!(log.unsign(0, 1), Err(MultisigError::InvalidState));

    assert!(log.clear(2, true).is_none());
    assert!(matches!(log.clear(1, false), Some(Action::Nothing)));
    assert!(!log.is_pending(1));
    assert!(!log.was_executed(1));
    assert!(log.get_action(1).is_none());
    assert_eq!(log.get_signers(1), Vec::<u32>::new());
    assert!(log.clear(1, true).is_none());
    assert!(!log.was_executed(1));
    assert_eq!(log.sign(1, 1), Err(MultisigError::InvalidState));

    log.propose(Action::ChangeQuorum(1), Some(5)).unwrap();
    assert!(matches!(log.clear(2, true), Some(Action::ChangeQuorum(1))));
    assert!(log.was_executed(2));
    assert!(!log.is_pending(2));
    assert!(log.clear(2, false).is_none());
    assert!(log.was_executed(2));
    assert_eq!(log.len(), 2);
}

#[test]
fn valid_signers_are_counted_by_current_role_and_stake() {
    let mut roles = RoleStore::new();
    let mut stakes = StakeLedger::new(100, 10).unwrap();
    roles.change_role(1, UserRole::BoardMember);
    roles.change_role(2, UserRole::BoardMember);
    roles.change_role(3, UserRole::Proposer);
    roles.change_role(4, UserRole::BoardMember);
    stakes.stake(1, 100).unwrap();
    stakes.stake(2, 99).unwrap();
    stakes.stake(3, 500).unwrap();
    stakes.stake(4, 101).unwrap();
    stakes.stake(5, 500).unwrap();
    assert_eq!(valid_signer_count(&vec![], &roles, &stakes), 0);
    assert_eq!(valid_signer_count(&vec![1, 2, 3, 4, 5, 0, 77], &roles, &stakes), 2);
    stakes.stake(2, 1).unwrap();
    assert_eq!(valid_signer_count(&vec![1, 2, 3, 4, 5], &roles, &stakes), 3);
    roles.change_role(4, UserRole::NoRole);
    assert_eq!(valid_signer_count(&vec![1, 2, 3, 4, 5], &roles, &stakes), 2);
    roles.change_role(3, UserRole::BoardMember);
    assert_eq!(valid_signer_count(&vec![3], &roles, &stakes), 1);
}

#[test]
fn dedup_index_keys_by_batch_and_content() {
    let statuses = |list: &[TransactionStatus]| BatchContent::Statuses(list.to_vec());
    let mut index = BatchDeduplicationIndex::new();
    let a = [TransactionStatus::Executed];
    let b = [TransactionStatus::Rejected];
    assert_eq!(index.get(1, &statuses(&a)), None);
    assert_eq!(index.insert(1, statuses(&a), 10), Ok(()));
    assert_eq!(index.insert(1, statuses(&b), 11), Ok(()));
    assert_eq!(index.insert(2, statuses(&a), 12), Ok(()));
    assert_eq!(index.insert(1, statuses(&a), 13), Err(MultisigError::DuplicateProposal(10)));
    assert_eq!(index.get(1, &statuses(&a)), Some(10));
    assert_eq!(index.get(1, &statuses(&b)), Some(11));
    assert_eq!(index.get(2, &statuses(&a)), Some(12));
    assert_eq!(index.get(2, &statuses(&b)), None);
    assert_eq!(index.get(1, &statuses(&[])), None);
    assert_eq!(index.get(1, &BatchContent::Transfers(vec![])), None);
    assert_eq!(index.action_ids(1), vec![10, 11]);
    assert_eq!(index.action_ids(2), vec![12]);
    assert_eq!(index.action_ids(3), Vec::<usize>::new());
    index.clear_batch(1);
    assert_eq!(index.get(1, &statuses(&a)), None);
    assert_eq!(index.get(1, &statuses(&b)), None);
    assert_eq!(index.get(2, &statuses(&a)), Some(12));
    assert_eq!(index.action_ids(1), Vec::<usize>::new());
    assert_eq!(index.insert(1, statuses(&a), 14), Ok(()));
    assert_eq!(index.get(1, &statuses(&a)), Some(14));
}

#[test]
fn batch_content_compares_and_copies_by_value() {
    let t = |amount: u128| Transfer { to: addr(1), token_id: vec![1, 2, 3], amount };
    let one = BatchContent::Transfers(vec![t(1), t(2)]);
    let same = BatchContent::Transfers(vec![t(1), t(2)]);
    let shorter = BatchContent::Transfers(vec![t(1)]);
    let empty_transfers = BatchContent::Transfers(vec![]);
    let empty_statuses = BatchContent::Statuses(vec![]);
    assert!(one.same(&same));
    assert!(one.same(&one.duplicate()));
    assert!(!one.same(&shorter));
    assert!(!empty_transfers.same(&empty_statuses));
    assert!(t(1).same(&t(1).duplicate()));
    assert!(!t(1).same(&t(2)));
    assert!(!t(1).same(&Transfer { to: addr(2), token_id: vec![1, 2, 3], amount: 1 }));
    assert!(!t(1).same(&Transfer { to: addr(1), token_id: vec![1, 2], amount: 1 }));
    assert!(matches!(
        one.into_action(9),
        Action::BatchTransferTokens { batch_id: 9, transfers } if transfers.len() == 2
    ));
    assert!(matches!(
        empty_statuses.into_action(4),
        Action::SetExternalBatchStatus { batch_id: 4, statuses } if statuses.is_empty()
    ));
}

#[test]
fn only_slashes_run_while_paused() {
    assert!(Action::SlashUser(addr(1)).is_pause_exempt());
    assert!(!Action::RemoveUser(addr(1)).is_pause_exempt());
    assert!(!Action::Nothing.is_pause_exempt());
    assert!(!Action::ChangeQuorum(1).is_pause_exempt());
}

#[test]
fn both_services_must_be_contracts() {
    assert_eq!(check_services(true, true), Ok(()));
    assert_eq!(check_services(false, true), Err(MultisigError::ExternalCallFailure));
    assert_eq!(check_services(true, false), Err(MultisigError::ExternalCallFailure));
    assert_eq!(check_services(false, false), Err(MultisigError::ExternalCallFailure));
}
