use crate::error::MultisigError;
use vstd::prelude::*;

verus! {

/// The staked balance of user `id`; 0 for identifier 0 and for users who
/// never staked.
pub open spec fn balance_at(balances: Seq<u128>, id: nat) -> nat {
    if 1 <= id <= balances.len() {
        balances[id - 1] as nat
    } else {
        0
    }
}

/// `balances` stretched with zeros so that it covers `len` users.
pub open spec fn padded_balances(balances: Seq<u128>, len: nat) -> Seq<u128> {
    if balances.len() >= len {
        balances
    } else {
        balances + Seq::new((len - balances.len()) as nat, |i: int| 0u128)
    }
}

/// `balances` with the balance of user `id` overwritten.
pub open spec fn with_balance(balances: Seq<u128>, id: nat, amount: u128) -> Seq<u128>
    recommends
        id >= 1,
{
    padded_balances(balances, id).update(id - 1, amount)
}

/// What overwriting a balance does to each user's balance.
pub proof fn lemma_with_balance(balances: Seq<u128>, id: nat, amount: u128)
    requires
        id >= 1,
    ensures
        with_balance(balances, id, amount).len() == if balances.len() >= id {
            balances.len()
        } else {
            id
        },
        forall|other: nat|
            balance_at(with_balance(balances, id, amount), other) == if other == id {
                amount as nat
            } else {
                balance_at(balances, other)
            },
{
}

/// The staked balances, the two thresholds and the pool of slashed tokens.
pub struct StakeLedgerView {
    pub balances: Seq<u128>,
    pub required_stake_amount: nat,
    pub slash_amount: nat,
    pub slashed_tokens_amount: nat,
}

impl StakeLedgerView {
    /// A slash never takes more than the stake a board member must hold.
    pub open spec fn wf(self) -> bool {
        &&& self.balances.len() <= u32::MAX
        &&& self.slash_amount <= self.required_stake_amount <= u128::MAX
        &&& self.slashed_tokens_amount <= u128::MAX
    }

    /// The staked balance of user `id`.
    pub open spec fn balance_of(self, id: nat) -> nat {
        balance_at(self.balances, id)
    }

    /// Whether user `id` holds at least the required stake.
    pub open spec fn has_enough_stake(self, id: nat) -> bool {
        self.balance_of(id) >= self.required_stake_amount
    }

    /// The ledger with the balance of user `id` set to `amount`.
    pub open spec fn set_balance(self, id: nat, amount: nat) -> StakeLedgerView {
        StakeLedgerView { balances: with_balance(self.balances, id, amount as u128), ..self }
    }

    /// Outcome of staking `amount` for user `id`.
    pub open spec fn stake_result(self, id: nat, amount: nat) -> Result<(), MultisigError> {
        if self.balance_of(id) + amount > u128::MAX {
            Err(MultisigError::LimitExceeded)
        } else {
            Ok(())
        }
    }

    /// The ledger after user `id` staked `amount`.
    pub open spec fn stake(self, id: nat, amount: nat) -> StakeLedgerView {
        self.set_balance(id, self.balance_of(id) + amount)
    }

    /// Outcome of unstaking `amount` for user `id`, who must keep the required
    /// stake when `keeps_minimum` is set.
    pub open spec fn unstake_result(self, id: nat, amount: nat, keeps_minimum: bool) -> Result<
        (),
        MultisigError,
    > {
        if amount > self.balance_of(id) {
            Err(MultisigError::InvariantViolation)
        } else if keeps_minimum && self.balance_of(id) - amount < self.required_stake_amount {
            Err(MultisigError::InvariantViolation)
        } else {
            Ok(())
        }
    }

    /// The ledger after user `id` unstaked `amount`. A user without an
    /// identifier has nothing staked and nothing is written for them.
    pub open spec fn unstake(self, id: nat, amount: nat) -> StakeLedgerView {
        if id == 0 {
            self
        } else {
            self.set_balance(id, (self.balance_of(id) - amount) as nat)
        }
    }

    /// Outcome of slashing user `id`.
    pub open spec fn slash_result(self, id: nat) -> Result<(), MultisigError> {
        if self.balance_of(id) < self.slash_amount {
            Err(MultisigError::InvariantViolation)
        } else if self.slashed_tokens_amount + self.slash_amount > u128::MAX {
            Err(MultisigError::LimitExceeded)
        } else {
            Ok(())
        }
    }

    /// The ledger after user `id` was slashed: the slash amount moves from the
    /// user's balance to the pool.
    pub open spec fn slash(self, id: nat) -> StakeLedgerView {
        StakeLedgerView {
            slashed_tokens_amount: self.slashed_tokens_amount + self.slash_amount,
            ..self.set_balance(id, (self.balance_of(id) - self.slash_amount) as nat)
        }
    }
}

/// Per-user staked balances, the minimum a board member must hold, and what
/// slashing takes and has taken.
#[derive(Clone, Debug)]
pub struct StakeLedger {
    balances: Vec<u128>,
    required_stake_amount: u128,
    slash_amount: u128,
    slashed_tokens_amount: u128,
}

impl View for StakeLedger {
    type V = StakeLedgerView;

    closed spec fn view(&self) -> StakeLedgerView {
        StakeLedgerView {
            balances: self.balances@,
            required_stake_amount: self.required_stake_amount as nat,
            slash_amount: self.slash_amount as nat,
            slashed_tokens_amount: self.slashed_tokens_amount as nat,
        }
    }
}

impl StakeLedger {
    /// The ledger is sound: see `StakeLedgerView::wf`.
    pub open spec fn wf(&self) -> bool {
        self@.wf()
    }

    /// An empty ledger with the two thresholds.
    ///
    /// Fails with `InvariantViolation` exactly when the slash amount is more
    /// than the required stake.
    pub fn new(required_stake_amount: u128, slash_amount: u128) -> (r: Result<
        StakeLedger,
        MultisigError,
    >)
        ensures
            r is Err <==> slash_amount > required_stake_amount,
            r is Err ==> r->Err_0 == MultisigError::InvariantViolation,
            r matches Ok(ledger) ==> ledger.wf() && ledger@ == (StakeLedgerView {
                balances: Seq::<u128>::empty(),
                required_stake_amount: required_stake_amount as nat,
                slash_amount: slash_amount as nat,
                slashed_tokens_amount: 0,
            }),
    {
        if slash_amount > required_stake_amount {
            return Err(MultisigError::InvariantViolation);
        }
        Ok(
            StakeLedger {
                balances: Vec::new(),
                required_stake_amount,
                slash_amount,
                slashed_tokens_amount: 0,
            },
        )
    }

    /// The staked balance of user `id`.
    pub fn balance_of(&self, id: u32) -> (amount: u128)
        ensures
            amount == self@.balance_of(id as nat),
    {
        if id >= 1 && (id as usize) <= self.balances.len() {
            self.balances[(id - 1) as usize]
        } else {
            0
        }
    }

    /// The stake a board member must hold for a signature to count.
    pub fn required_stake_amount(&self) -> (amount: u128)
        ensures
            amount == self@.required_stake_amount,
    {
        self.required_stake_amount
    }

    /// What one slash takes from a user.
    pub fn slash_amount(&self) -> (amount: u128)
        ensures
            amount == self@.slash_amount,
    {
        self.slash_amount
    }

    /// What slashing has taken so far.
    pub fn slashed_tokens_amount(&self) -> (amount: u128)
        ensures
            amount == self@.slashed_tokens_amount,
    {
        self.slashed_tokens_amount
    }

    /// Whether user `id` holds at least the required stake.
    pub fn has_enough_stake(&self, id: u32) -> (r: bool)
        ensures
            r == self@.has_enough_stake(id as nat),
    {
        self.balance_of(id) >= self.required_stake_amount
    }

    /// Overwrites the balance of user `id`.
    fn set_balance(&mut self, id: u32, amount: u128)
        requires
            id >= 1,
        ensures
            final(self)@ == old(self)@.set_balance(id as nat, amount as nat),
    {
        let index: usize = (id - 1) as usize;
        while self.balances.len() <= index
            invariant
                index == id - 1,
                self.balances.len() <= index + 1 || self.balances@.len() == old(
                    self,
                ).balances@.len(),
                self.balances@.len() >= old(self).balances@.len(),
                self.balances@ == padded_balances(old(self).balances@, self.balances@.len()),
                self.required_stake_amount == old(self).required_stake_amount,
                self.slash_amount == old(self).slash_amount,
                self.slashed_tokens_amount == old(self).slashed_tokens_amount,
            decreases index + 1 - self.balances.len(),
        {
            self.balances.push(0);
            proof {
                assert(self.balances@ =~= padded_balances(
                    old(self).balances@,
                    self.balances@.len(),
                ));
            }
        }
        proof {
            assert(self.balances@ =~= padded_balances(old(self).balances@, id as nat));
        }
        self.balances.set(index, amount);
    }

    /// Adds `amount` to the balance of user `id`.
    ///
    /// Fails with `LimitExceeded`, changing nothing, exactly when the balance
    /// would not fit.
    pub fn stake(&mut self, id: u32, amount: u128) -> (r: Result<(), MultisigError>)
        requires
            old(self).wf(),
            id >= 1,
        ensures
            final(self).wf(),
            r == old(self)@.stake_result(id as nat, amount as nat),
            r is Ok ==> final(self)@ == old(self)@.stake(id as nat, amount as nat),
            r is Err ==> final(self)@ == old(self)@,
    {
        let balance = self.balance_of(id);
        match balance.checked_add(amount) {
            Some(sum) => {
                proof {
                    lemma_with_balance(self.balances@, id as nat, sum);
                }
                self.set_balance(id, sum);
                Ok(())
            },
            None => Err(MultisigError::LimitExceeded),
        }
    }

    /// Takes `amount` from the balance of user `id`.
    ///
    /// Fails with `InvariantViolation`, changing nothing, exactly when the
    /// amount is more than the balance, or when `keeps_minimum` is set and
    /// less than the required stake would remain.
    pub fn unstake(&mut self, id: u32, amount: u128, keeps_minimum: bool) -> (r: Result<
        (),
        MultisigError,
    >)
        requires
            old(self).wf(),
        ensures
            final(self).wf(),
            r == old(self)@.unstake_result(id as nat, amount as nat, keeps_minimum),
            r is Ok ==> final(self)@ == old(self)@.unstake(id as nat, amount as nat),
            r is Err ==> final(self)@ == old(self)@,
    {
        let balance = self.balance_of(id);
        if amount > balance {
            return Err(MultisigError::InvariantViolation);
        }
        let remaining: u128 = balance - amount;
        if keeps_minimum && remaining < self.required_stake_amount {
            return Err(MultisigError::InvariantViolation);
        }
        if id >= 1 {
            proof {
                lemma_with_balance(self.balances@, id as nat, remaining);
            }
            self.set_balance(id, remaining);
        }
        Ok(())
    }

    /// Moves the slash amount from the balance of user `id` to the pool.
    ///
    /// Fails, changing nothing, with `InvariantViolation` when the balance is
    /// less than the slash amount, else with `LimitExceeded` when the pool
    /// would not fit.
    pub fn slash(&mut self, id: u32) -> (r: Result<(), MultisigError>)
        requires
            old(self).wf(),
            id >= 1,
        ensures
            final(self).wf(),
            r == old(self)@.slash_result(id as nat),
            r is Ok ==> final(self)@ == old(self)@.slash(id as nat),
            r is Err ==> final(self)@ == old(self)@,
    {
        let balance = self.balance_of(id);
        if balance < self.slash_amount {
            return Err(MultisigError::InvariantViolation);
        }
        match self.slashed_tokens_amount.checked_add(self.slash_amount) {
            Some(pool) => {
                let remaining: u128 = balance - self.slash_amount;
                proof {
                    lemma_with_balance(self.balances@, id as nat, remaining);
                }
                self.set_balance(id, remaining);
                self.slashed_tokens_amount = pool;
                Ok(())
            },
            None => Err(MultisigError::LimitExceeded),
        }
    }
}

} // verus!
