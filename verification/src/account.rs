//! The per-account ledger state machine: how each kind of operation
//! moves money between the available and held balances of one account,
//! and how the dispute lifecycle locks an account for good.

use std::collections::HashMap;
use vstd::prelude::*;

verus! {

broadcast use vstd::std_specs::hash::group_hash_axioms;

/// The five kinds of operation the ledger accepts.
#[derive(Clone, Copy, Debug, PartialEq, Eq, Structural)]
pub enum AccountOperationType {
    Deposit,
    Withdrawal,
    Dispute,
    Resolve,
    Chargeback,
}

/// One operation addressed to an account: its kind, the account it
/// targets, the transaction it names, and the amount it carries in
/// minor units, where the kind calls for one.
#[derive(Debug)]
pub struct AccountOperation {
    kind: AccountOperationType,
    client: u16,
    tx: u32,
    amount: Option<i64>,
}

/// The mathematical image of an operation.
pub ghost struct OperationView {
    pub kind: AccountOperationType,
    pub client: u16,
    pub tx: u32,
    pub amount: Option<i64>,
}

impl View for AccountOperation {
    type V = OperationView;

    closed spec fn view(&self) -> OperationView {
        OperationView { kind: self.kind, client: self.client, tx: self.tx, amount: self.amount }
    }
}

impl AccountOperation {
    pub fn new(kind: AccountOperationType, client: u16, tx: u32, amount: Option<i64>) -> (op:
        AccountOperation)
        ensures
            op@ == (OperationView { kind, client, tx, amount }),
    {
        AccountOperation { kind, client, tx, amount }
    }

    #[inline]
    pub fn get_type(&self) -> (r: &AccountOperationType)
        ensures
            *r == self@.kind,
    {
        &self.kind
    }

    #[inline]
    pub fn get_amount(&self) -> (r: &Option<i64>)
        ensures
            *r == self@.amount,
    {
        &self.amount
    }

    #[inline]
    pub fn get_tx(&self) -> (r: &u32)
        ensures
            *r == self@.tx,
    {
        &self.tx
    }

    #[inline]
    pub fn get_client(&self) -> (r: &u16)
        ensures
            *r == self@.client,
    {
        &self.client
    }
}

/// Whether a balance stays representable in minor units.
pub open spec fn fits_amount(v: int) -> bool {
    i64::MIN <= v <= i64::MAX
}

/// The mathematical image of an account: its balances in minor units
/// and the amounts currently under dispute, keyed by transaction.
pub ghost struct AccountView {
    pub client: u16,
    pub locked: bool,
    pub available: i64,
    pub held: i64,
    pub disputes: Map<u32, i64>,
}

impl AccountView {
    /// The state an account is born with.
    pub open spec fn initial(client: u16) -> AccountView {
        AccountView { client, locked: false, available: 0, held: 0, disputes: Map::empty() }
    }

    /// The funds of the account as a whole, disputed or not.
    pub open spec fn total(self) -> int {
        self.available + self.held
    }

    /// A deposit takes effect when the account is open, an amount is
    /// carried, and the new available balance stays representable.
    pub open spec fn deposit_applies(self, amount: Option<i64>) -> bool {
        &&& !self.locked
        &&& amount is Some
        &&& fits_amount(self.available + amount->0)
    }

    pub open spec fn deposited(self, amount: Option<i64>) -> AccountView {
        if self.deposit_applies(amount) {
            AccountView { available: (self.available + amount->0) as i64, ..self }
        } else {
            self
        }
    }

    /// A withdrawal takes effect when the account is open, an amount is
    /// carried, and the available balance covers it.
    pub open spec fn withdraw_applies(self, amount: Option<i64>) -> bool {
        &&& !self.locked
        &&& amount is Some
        &&& self.available >= amount->0
        &&& fits_amount(self.available - amount->0)
    }

    pub open spec fn withdrawn(self, amount: Option<i64>) -> AccountView {
        if self.withdraw_applies(amount) {
            AccountView { available: (self.available - amount->0) as i64, ..self }
        } else {
            self
        }
    }

    /// A dispute moves the carried amount from available to held, even
    /// past zero: disputed funds may well have been spent already.
    pub open spec fn dispute_applies(self, amount: Option<i64>) -> bool {
        &&& !self.locked
        &&& amount is Some
        &&& fits_amount(self.available - amount->0)
        &&& fits_amount(self.held + amount->0)
    }

    pub open spec fn disputed(self, amount: Option<i64>, tx: u32) -> AccountView {
        if self.dispute_applies(amount) {
            AccountView {
                available: (self.available - amount->0) as i64,
                held: (self.held + amount->0) as i64,
                disputes: self.disputes.insert(tx, amount->0),
                ..self
            }
        } else {
            self
        }
    }

    /// A resolve gives the disputed amount back to available and closes
    /// the dispute; it needs the named transaction to be under dispute.
    pub open spec fn resolve_applies(self, tx: u32) -> bool {
        &&& !self.locked
        &&& self.disputes.contains_key(tx)
        &&& fits_amount(self.available + self.disputes[tx])
        &&& fits_amount(self.held - self.disputes[tx])
    }

    pub open spec fn resolved(self, tx: u32) -> AccountView {
        if self.resolve_applies(tx) {
            AccountView {
                available: (self.available + self.disputes[tx]) as i64,
                held: (self.held - self.disputes[tx]) as i64,
                disputes: self.disputes.remove(tx),
                ..self
            }
        } else {
            self
        }
    }

    /// A chargeback locks the account and leaves the balances and the
    /// dispute record as they stand, for later audit.
    pub open spec fn chargeback_applies(self, tx: u32) -> bool {
        &&& !self.locked
        &&& self.disputes.contains_key(tx)
    }

    pub open spec fn charged_back(self, tx: u32) -> AccountView {
        if self.chargeback_applies(tx) {
            AccountView { locked: true, ..self }
        } else {
            self
        }
    }

    /// The whole transition table in one step function. Every failed
    /// precondition leaves the account exactly as it was.
    pub open spec fn apply(self, op: OperationView) -> AccountView {
        match op.kind {
            AccountOperationType::Deposit => self.deposited(op.amount),
            AccountOperationType::Withdrawal => self.withdrawn(op.amount),
            AccountOperationType::Dispute => self.disputed(op.amount, op.tx),
            AccountOperationType::Resolve => self.resolved(op.tx),
            AccountOperationType::Chargeback => self.charged_back(op.tx),
        }
    }
}

/// A stream of operations applied to one account, in order.
pub open spec fn run_ops(a: AccountView, ops: Seq<OperationView>) -> AccountView
    decreases ops.len(),
{
    if ops.len() == 0 {
        a
    } else {
        run_ops(a.apply(ops.first()), ops.drop_first())
    }
}

/// How much one operation moves in or out of the account as a whole:
/// an applied deposit adds its amount, an applied withdrawal takes its
/// amount, and everything else moves nothing.
pub open spec fn step_flow(a: AccountView, op: OperationView) -> int {
    match op.kind {
        AccountOperationType::Deposit => if a.deposit_applies(op.amount) {
            op.amount->0 as int
        } else {
            0
        },
        AccountOperationType::Withdrawal => if a.withdraw_applies(op.amount) {
            -(op.amount->0 as int)
        } else {
            0
        },
        _ => 0,
    }
}

/// The net flow of a whole stream of operations.
pub open spec fn net_flow(a: AccountView, ops: Seq<OperationView>) -> int
    decreases ops.len(),
{
    if ops.len() == 0 {
        0
    } else {
        step_flow(a, ops.first()) + net_flow(a.apply(ops.first()), ops.drop_first())
    }
}

/// Law: one step moves the account's total only by what an applied
/// deposit brings in or an applied withdrawal takes out. Dispute and
/// resolve shift money between available and held, never out of the
/// total, and a chargeback only locks.
pub proof fn lemma_total_conservation(a: AccountView, op: OperationView)
    ensures
        a.apply(op).total() == a.total() + step_flow(a, op),
        op.kind == AccountOperationType::Dispute ==> a.apply(op).total() == a.total(),
        op.kind == AccountOperationType::Resolve ==> a.apply(op).total() == a.total(),
        op.kind == AccountOperationType::Chargeback ==> a.apply(op).total() == a.total(),
{
}

/// Law: after any stream of operations, the account's total equals
/// what it started with plus every applied deposit minus every applied
/// withdrawal.
pub proof fn lemma_total_after_run(a: AccountView, ops: Seq<OperationView>)
    ensures
        run_ops(a, ops).total() == a.total() + net_flow(a, ops),
    decreases ops.len(),
{
    if ops.len() > 0 {
        lemma_total_conservation(a, ops.first());
        lemma_total_after_run(a.apply(ops.first()), ops.drop_first());
    }
}

/// Law: from a fresh account, the total after any stream of
/// operations is exactly the applied deposits minus the applied
/// withdrawals.
pub proof fn lemma_total_from_birth(client: u16, ops: Seq<OperationView>)
    ensures
        run_ops(AccountView::initial(client), ops).total() == net_flow(
            AccountView::initial(client),
            ops,
        ),
{
    lemma_total_after_run(AccountView::initial(client), ops);
}

/// Law: a locked account is frozen. No operation of any kind changes
/// its balances, its lock, or its dispute record.
pub proof fn lemma_locked_account_frozen(a: AccountView, op: OperationView)
    requires
        a.locked,
    ensures
        a.apply(op) == a,
{
}

/// Law: a locked account stays frozen under any whole stream of
/// operations.
pub proof fn lemma_locked_account_frozen_run(a: AccountView, ops: Seq<OperationView>)
    requires
        a.locked,
    ensures
        run_ops(a, ops) == a,
    decreases ops.len(),
{
    if ops.len() > 0 {
        lemma_locked_account_frozen(a, ops.first());
        lemma_locked_account_frozen_run(a, ops.drop_first());
    }
}

/// An account the ledger tracks. Balances are kept in minor units;
/// `active_disputes` holds, per disputed transaction, the amount that
/// was moved to held.
#[derive(Debug)]
pub struct Account {
    client: u16,
    locked: bool,
    available: i64,
    held: i64,
    active_disputes: HashMap<u32, i64>,
}

impl View for Account {
    type V = AccountView;

    closed spec fn view(&self) -> AccountView {
        AccountView {
            client: self.client,
            locked: self.locked,
            available: self.available,
            held: self.held,
            disputes: self.active_disputes@,
        }
    }
}

impl Account {
    pub fn new(client: u16) -> (a: Account)
        ensures
            a@ == AccountView::initial(client),
    {
        let a = Account {
            client,
            locked: false,
            available: 0,
            held: 0,
            active_disputes: HashMap::new(),
        };
        proof {
            assert(a@.disputes =~= Map::<u32, i64>::empty());
        }
        a
    }

    pub fn get_client(&self) -> (r: u16)
        ensures
            r == self@.client,
    {
        self.client
    }

    pub fn get_available(&self) -> (r: i64)
        ensures
            r == self@.available,
    {
        self.available
    }

    pub fn get_held(&self) -> (r: i64)
        ensures
            r == self@.held,
    {
        self.held
    }

    /// The sum of available and held, widened so it is exact even when
    /// both balances sit near the ends of their range.
    pub fn get_total(&self) -> (r: i128)
        ensures
            r == self@.total(),
    {
        self.available as i128 + self.held as i128
    }

    pub fn is_locked(&self) -> (r: bool)
        ensures
            r == self@.locked,
    {
        self.locked
    }

    /// The amount under dispute for the named transaction, if any.
    pub fn get_disputed(&self, tx_id: &u32) -> (r: Option<i64>)
        ensures
            r is Some <==> self@.disputes.contains_key(*tx_id),
            r matches Some(v) ==> v == self@.disputes[*tx_id],
    {
        match self.active_disputes.get(tx_id) {
            Some(v) => Some(*v),
            None => None,
        }
    }

    pub fn lock(&mut self)
        ensures
            final(self)@ == (AccountView { locked: true, ..old(self)@ }),
    {
        self.locked = true;
    }

    pub fn deposit(&mut self, amount: &Option<i64>)
        ensures
            final(self)@ == old(self)@.deposited(*amount),
    {
        if self.is_locked() {
            return ;
        }
        if let Some(v) = *amount {
            match self.available.checked_add(v) {
                Some(next) => {
                    self.available = next;
                },
                None => {},
            }
        }
    }

    pub fn withdraw(&mut self, amount: &Option<i64>)
        ensures
            final(self)@ == old(self)@.withdrawn(*amount),
    {
        if self.is_locked() {
            return ;
        }
        if let Some(v) = *amount {
            if self.available < v {
                return ;
            }
            match self.available.checked_sub(v) {
                Some(next) => {
                    self.available = next;
                },
                None => {},
            }
        }
    }

    pub fn dispute(&mut self, amount: &Option<i64>, tx_id: &u32)
        ensures
            final(self)@ == old(self)@.disputed(*amount, *tx_id),
    {
        if self.is_locked() {
            return ;
        }
        if let Some(v) = *amount {
            match (self.available.checked_sub(v), self.held.checked_add(v)) {
                (Some(next_available), Some(next_held)) => {
                    self.available = next_available;
                    self.held = next_held;
                    self.active_disputes.insert(*tx_id, v);
                },
                _ => {},
            }
        }
    }

    pub fn resolve(&mut self, tx_id: &u32)
        ensures
            final(self)@ == old(self)@.resolved(*tx_id),
    {
        if self.is_locked() {
            return ;
        }
        let amount = match self.active_disputes.get(tx_id) {
            Some(v) => Some(*v),
            None => None,
        };
        if let Some(v) = amount {
            match (self.available.checked_add(v), self.held.checked_sub(v)) {
                (Some(next_available), Some(next_held)) => {
                    self.available = next_available;
                    self.held = next_held;
                    self.active_disputes.remove(tx_id);
                },
                _ => {},
            }
        }
    }

    pub fn chargeback(&mut self, tx_id: &u32)
        ensures
            final(self)@ == old(self)@.charged_back(*tx_id),
    {
        if self.is_locked() {
            return ;
        }
        // The dispute record is kept even after the lock, for later
        // research of why the account was locked.
        if self.active_disputes.contains_key(tx_id) {
            self.lock();
        }
    }
}

} // verus!
