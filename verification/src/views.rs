use crate::action::{copy_statuses, copy_transfers, Action, TransactionStatus, Transfer};
use crate::action_log::pending_ids;
use crate::address::Address;
use crate::board::BoardView;
use crate::dedup::{BatchContent, BatchContentView};
use crate::model::MIN_BLOCKS_FOR_FINALITY;
use crate::multisig::Multisig;
use crate::quorum::{lemma_valid_signers_of, valid_signers, valid_signers_of};
use crate::user_role::UserRole;
use vstd::prelude::*;

verus! {

/// The users among the first `upto` who hold `role`, in the order of their
/// identifiers.
pub open spec fn users_with_role(board: BoardView, role: UserRole, upto: nat) -> Seq<Address>
    decreases upto,
{
    if upto == 0 {
        Seq::empty()
    } else {
        let rest = users_with_role(board, role, (upto - 1) as nat);
        if board.roles.role_of(upto) == role {
            rest.push(board.users[upto - 1])
        } else {
            rest
        }
    }
}

/// The addresses of the users `ids`, in the same order.
pub open spec fn addresses_of(users: Seq<Address>, ids: Seq<u32>) -> Seq<Address> {
    ids.map_values(|id: u32| users[id - 1])
}

impl Multisig {
    /// The number of signers, counted at the time of execution, that an
    /// action needs.
    pub fn get_quorum(&self) -> (quorum: u32)
        ensures
            quorum == self@.quorum,
    {
        self.quorum
    }

    /// Number of users who are board members.
    pub fn get_num_board_members(&self) -> (n: u32)
        ensures
            n == self@.board.roles.num_board_members,
    {
        self.board.num_board_members()
    }

    /// Number of users who are proposers.
    pub fn get_num_proposers(&self) -> (n: u32)
        ensures
            n == self@.board.roles.num_proposers,
    {
        self.board.num_proposers()
    }

    /// The role of `address`; `NoRole` when it is not registered.
    pub fn user_role(&self, address: &Address) -> (role: UserRole)
        requires
            self.wf(),
        ensures
            role == self@.role_of(*address),
    {
        self.board.user_role(address)
    }

    /// The identifier of `address`, or 0 when it is not registered.
    pub fn get_user_id(&self, address: &Address) -> (id: u32)
        requires
            self.wf(),
        ensures
            id == self@.id_of(*address),
    {
        self.board.get_user_id(address)
    }

    /// The address that holds `id`, if the identifier is in use.
    pub fn get_user_address(&self, id: u32) -> (r: Option<Address>)
        requires
            self.wf(),
        ensures
            r == if 1 <= id <= self@.board.users.len() {
                Some(self@.board.users[id - 1])
            } else {
                None
            },
    {
        self.board.get_user_address(id)
    }

    /// The users who hold `role`, in the order of their identifiers.
    pub fn get_all_users_with_role(&self, role: UserRole) -> (r: Vec<Address>)
        requires
            self.wf(),
        ensures
            r@ == users_with_role(self@.board, role, self@.board.users.len()),
    {
        let mut found: Vec<Address> = Vec::new();
        let count = self.board.get_user_count();
        let mut id: u32 = 0;
        while id < count
            invariant
                0 <= id <= count,
                count == self@.board.users.len(),
                self.wf(),
                found@ == users_with_role(self@.board, role, id as nat),
            decreases count - id,
        {
            id += 1;
            if self.board.get_user_id_to_role(id) == role {
                match self.board.get_user_address(id) {
                    Some(address) => {
                        found.push(address);
                    },
                    None => {},
                }
            }
        }
        found
    }

    /// The board members, in the order of their identifiers.
    pub fn get_all_board_members(&self) -> (r: Vec<Address>)
        requires
            self.wf(),
        ensures
            r@ == users_with_role(self@.board, UserRole::BoardMember, self@.board.users.len()),
    {
        self.get_all_users_with_role(UserRole::BoardMember)
    }

    /// The proposers, in the order of their identifiers.
    pub fn get_all_proposers(&self) -> (r: Vec<Address>)
        requires
            self.wf(),
        ensures
            r@ == users_with_role(self@.board, UserRole::Proposer, self@.board.users.len()),
    {
        self.get_all_users_with_role(UserRole::Proposer)
    }

    /// Whether execution is paused.
    pub fn is_paused(&self) -> (paused: bool)
        ensures
            paused == self@.paused,
    {
        self.paused
    }

    /// The address of the safe service.
    pub fn esdt_safe_address(&self) -> (address: Address)
        ensures
            address == self@.esdt_safe_address,
    {
        self.esdt_safe_address
    }

    /// The address of the multi-transfer service.
    pub fn multi_transfer_esdt_address(&self) -> (address: Address)
        ensures
            address == self@.multi_transfer_esdt_address,
    {
        self.multi_transfer_esdt_address
    }

    /// The stake a board member must hold for a signature to count.
    pub fn required_stake_amount(&self) -> (amount: u128)
        ensures
            amount == self@.stakes.required_stake_amount,
    {
        self.stakes.required_stake_amount()
    }

    /// What one slash takes from a user.
    pub fn slash_amount(&self) -> (amount: u128)
        ensures
            amount == self@.stakes.slash_amount,
    {
        self.stakes.slash_amount()
    }

    /// What slashing has taken so far.
    pub fn slashed_tokens_amount(&self) -> (amount: u128)
        ensures
            amount == self@.stakes.slashed_tokens_amount,
    {
        self.stakes.slashed_tokens_amount()
    }

    /// The identifier of the action proposed last; 0 before any proposal.
    pub fn get_action_last_index(&self) -> (n: usize)
        ensures
            n == self@.log.slots.len(),
    {
        self.log.len()
    }

    /// Whether `action_id` names an action that was proposed at some time.
    pub fn is_valid_action_id(&self, action_id: usize) -> (r: bool)
        ensures
            r == self@.log.is_valid_action_id(action_id as nat),
            r == (1 <= action_id <= self@.log.slots.len()),
    {
        self.log.is_valid_action_id(action_id)
    }

    /// Whether action `action_id` was executed. An identifier that was never
    /// assigned, a pending action and a discarded action give `false`.
    pub fn was_action_executed(&self, action_id: usize) -> (r: bool)
        ensures
            r == self@.log.was_executed(action_id as nat),
    {
        self.log.was_executed(action_id)
    }

    /// The payload of action `action_id` while it is pending; `None` for any
    /// other identifier.
    pub fn get_action_data(&self, action_id: usize) -> (r: Option<&Action>)
        ensures
            match r {
                Some(action) => Some(action@) == self@.log.action_data(action_id as nat),
                None => self@.log.action_data(action_id as nat) is None,
            },
    {
        self.log.get_action(action_id)
    }

    /// The identifiers of the users who back action `action_id`, whether
    /// their signature counts right now or not.
    pub fn get_action_signer_ids(&self, action_id: usize) -> (r: Vec<u32>)
        requires
            self.wf(),
        ensures
            r@ == self@.log.signers_of(action_id as nat),
    {
        self.log.get_signers(action_id)
    }

    /// How many users back action `action_id`, whether their signature counts
    /// right now or not.
    pub fn get_action_signer_count(&self, action_id: usize) -> (n: usize)
        requires
            self.wf(),
        ensures
            n == self@.log.signers_of(action_id as nat).len(),
    {
        self.log.get_signers(action_id).len()
    }

    /// The addresses of the users who back action `action_id`.
    pub fn get_action_signers(&self, action_id: usize) -> (r: Vec<Address>)
        requires
            self.wf(),
        ensures
            r@ == addresses_of(self@.board.users, self@.log.signers_of(action_id as nat)),
    {
        let ids = self.log.get_signers(action_id);
        let mut addresses: Vec<Address> = Vec::new();
        let mut i: usize = 0;
        while i < ids.len()
            invariant
                0 <= i <= ids.len(),
                self.wf(),
                ids@ == self@.log.signers_of(action_id as nat),
                addresses@ == addresses_of(self@.board.users, ids@.take(i as int)),
            decreases ids.len() - i,
        {
            proof {
                if self@.log.is_valid_action_id(action_id as nat) {
                    assert(1 <= self@.log.signers[action_id - 1][i as int]
                        <= self@.board.users.len());
                }
            }
            match self.board.get_user_address(ids[i]) {
                Some(address) => {
                    addresses.push(address);
                },
                None => {},
            }
            proof {
                assert(addresses@ =~= addresses_of(self@.board.users, ids@.take(i + 1)));
            }
            i += 1;
        }
        proof {
            assert(ids@.take(i as int) =~= ids@);
        }
        addresses
    }

    /// The addresses of the users who back action `action_id` and whose
    /// signature counts right now.
    pub fn get_action_valid_signers(&self, action_id: usize) -> (r: Vec<Address>)
        requires
            self.wf(),
        ensures
            r@ == addresses_of(
                self@.board.users,
                valid_signers_of(
                    self@.log.signers_of(action_id as nat),
                    self@.board.roles,
                    self@.stakes,
                ),
            ),
            r@.len() == self@.valid_signer_count(action_id as nat),
    {
        let signers = self.log.get_signers(action_id);
        let ids = valid_signers(&signers, self.board.roles(), &self.stakes);
        let mut addresses: Vec<Address> = Vec::new();
        let mut i: usize = 0;
        proof {
            lemma_valid_signers_of(signers@, self@.board.roles, self@.stakes);
        }
        while i < ids.len()
            invariant
                0 <= i <= ids.len(),
                self.wf(),
                signers@ == self@.log.signers_of(action_id as nat),
                forall|k: int| 0 <= k < ids@.len() ==> signers@.contains(#[trigger] ids@[k]),
                addresses@ == addresses_of(self@.board.users, ids@.take(i as int)),
            decreases ids.len() - i,
        {
            proof {
                let user = ids@[i as int];
                assert(signers@.contains(user));
                let at = signers@.index_of(user);
                assert(0 <= at < signers@.len() && signers@[at] == user);
                if self@.log.is_valid_action_id(action_id as nat) {
                    assert(1 <= self@.log.signers[action_id - 1][at] <= self@.board.users.len());
                }
            }
            match self.board.get_user_address(ids[i]) {
                Some(address) => {
                    addresses.push(address);
                },
                None => {},
            }
            proof {
                assert(addresses@ =~= addresses_of(self@.board.users, ids@.take(i + 1)));
            }
            i += 1;
        }
        proof {
            assert(ids@.take(i as int) =~= ids@);
        }
        addresses
    }

    /// The identifiers of the actions that wait for signatures or execution,
    /// ascending. The payload and the signers of each are given by
    /// `get_action_data` and `get_action_signers`.
    pub fn get_pending_action_ids(&self) -> (ids: Vec<usize>)
        ensures
            ids@ == pending_ids(self@.log, self@.log.slots.len()),
    {
        self.log.get_pending_ids()
    }

    /// The action that holds the proposal of `transfers` for batch
    /// `batch_id`, 0 when there is none.
    pub fn get_action_id_for_transfer_batch(&self, batch_id: u64, transfers: &Vec<Transfer>) -> (id:
        usize)
        ensures
            id == self@.action_id_for_batch(
                batch_id,
                BatchContentView::Transfers(crate::action::transfers_view(transfers@)),
            ),
    {
        let content = BatchContent::Transfers(copy_transfers(transfers));
        match self.transfer_batches.get(batch_id, &content) {
            Some(id) => id,
            None => 0,
        }
    }

    /// Whether `transfers` were proposed for batch `batch_id` and the
    /// proposal is still on record. Whether the action was executed as well
    /// is told by `was_action_executed`.
    pub fn was_transfer_action_proposed(&self, batch_id: u64, transfers: &Vec<Transfer>) -> (r:
        bool)
        ensures
            r == self@.log.is_valid_action_id(
                self@.action_id_for_batch(
                    batch_id,
                    BatchContentView::Transfers(crate::action::transfers_view(transfers@)),
                ) as nat,
            ),
    {
        let action_id = self.get_action_id_for_transfer_batch(batch_id, transfers);
        self.is_valid_action_id(action_id)
    }

    /// The action that holds the proposal of `expected_tx_batch_status` for
    /// the safe service's batch `esdt_safe_batch_id`, 0 when there is none.
    pub fn get_action_id_for_set_current_transaction_batch_status(
        &self,
        esdt_safe_batch_id: u64,
        expected_tx_batch_status: &Vec<TransactionStatus>,
    ) -> (id: usize)
        ensures
            id == self@.action_id_for_batch(
                esdt_safe_batch_id,
                BatchContentView::Statuses(expected_tx_batch_status@),
            ),
    {
        let content = BatchContent::Statuses(copy_statuses(expected_tx_batch_status));
        match self.status_batches.get(esdt_safe_batch_id, &content) {
            Some(id) => id,
            None => 0,
        }
    }

    /// Whether `expected_tx_batch_status` were proposed for the safe
    /// service's batch `esdt_safe_batch_id` and the proposal is still on
    /// record.
    pub fn was_set_current_transaction_batch_status_action_proposed(
        &self,
        esdt_safe_batch_id: u64,
        expected_tx_batch_status: &Vec<TransactionStatus>,
    ) -> (r: bool)
        ensures
            r == self@.log.is_valid_action_id(
                self@.action_id_for_batch(
                    esdt_safe_batch_id,
                    BatchContentView::Statuses(expected_tx_batch_status@),
                ) as nat,
            ),
    {
        let action_id = self.get_action_id_for_set_current_transaction_batch_status(
            esdt_safe_batch_id,
            expected_tx_batch_status,
        );
        self.is_valid_action_id(action_id)
    }

    /// The statuses that batch `batch_id` came back with, if it was the last
    /// transfer batch executed, and whether they are final: whether more than
    /// `MIN_BLOCKS_FOR_FINALITY` blocks lie between the execution and
    /// `current_block`.
    pub fn get_statuses_after_execution(&self, batch_id: u64, current_block: u64) -> (r: Option<
        (bool, Vec<TransactionStatus>),
    >)
        ensures
            match r {
                Some((is_final, statuses)) => Some((is_final, statuses@))
                    == self@.statuses_after_execution_of(batch_id, current_block),
                None => self@.statuses_after_execution_of(batch_id, current_block) is None,
            },
    {
        if self.statuses_after_execution.batch_id == batch_id {
            let block_executed = self.statuses_after_execution.block_executed;
            let is_final = current_block >= block_executed && current_block - block_executed
                > MIN_BLOCKS_FOR_FINALITY;
            Some((is_final, copy_statuses(&self.statuses_after_execution.statuses)))
        } else {
            None
        }
    }
}

} // verus!
