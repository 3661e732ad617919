//! The concurrent dispatch layer: a shard worker that owns a disjoint
//! slice of the account space and applies operations in mailbox order,
//! and a dispatcher that routes every operation for one account to the
//! same shard and gathers the final report across all shards.

use crate::account::{Account, AccountOperation, AccountView, OperationView};
use crate::channel::{channel_bounded, channel_recv, channel_send};
use std::collections::HashMap;
use vstd::prelude::*;

verus! {

broadcast use vstd::std_specs::hash::group_hash_axioms;

/// Why the dispatcher refused to be built or lost a shard.
#[derive(Clone, Copy, Debug, PartialEq, Eq, Structural)]
pub enum ProcessorError {
    InvalidShardCount,
    InvalidMailboxCapacity,
    ChannelClosed,
}

/// What a shard worker's mailbox carries: one operation to apply, or
/// the request to send the whole account mapping back and stop.
pub enum AccountCommand {
    Report(crossbeam_channel::Sender<HashMap<u16, Account>>),
    Operate(AccountOperation),
}

/// The mathematical image of a shard's account mapping.
pub open spec fn accounts_view(accounts: Map<u16, Account>) -> Map<u16, AccountView> {
    accounts.map_values(|a: Account| a@)
}

/// The account a mapping answers for a client: the stored one, or a
/// fresh one the first time the client is seen.
pub open spec fn account_at(accounts: Map<u16, AccountView>, client: u16) -> AccountView {
    if accounts.contains_key(client) {
        accounts[client]
    } else {
        AccountView::initial(client)
    }
}

/// One step of a shard: the operation applied to the account it
/// addresses, every other account untouched.
pub open spec fn shard_apply(accounts: Map<u16, AccountView>, op: OperationView) -> Map<
    u16,
    AccountView,
> {
    accounts.insert(op.client, account_at(accounts, op.client).apply(op))
}

/// A whole stream of operations applied in order.
pub open spec fn shard_run(accounts: Map<u16, AccountView>, ops: Seq<OperationView>) -> Map<
    u16,
    AccountView,
>
    decreases ops.len(),
{
    if ops.len() == 0 {
        accounts
    } else {
        shard_run(shard_apply(accounts, ops.first()), ops.drop_first())
    }
}

proof fn lemma_accounts_view_insert(m: Map<u16, Account>, k: u16, a: Account)
    ensures
        accounts_view(m.insert(k, a)) =~= accounts_view(m).insert(k, a@),
{
}

/// Puts a fresh account in the mapping the first time a client is
/// seen; an already known client leaves the mapping untouched.
pub fn ensure_account(accounts: &mut HashMap<u16, Account>, account_id: &u16)
    ensures
        old(accounts)@.contains_key(*account_id) ==> final(accounts)@ == old(accounts)@,
        !old(accounts)@.contains_key(*account_id) ==> accounts_view(final(accounts)@)
            == accounts_view(old(accounts)@).insert(
            *account_id,
            AccountView::initial(*account_id),
        ),
        final(accounts)@.contains_key(*account_id),
{
    if accounts.get(account_id).is_none() {
        let account = Account::new(*account_id);
        let ghost before: Map<u16, Account> = accounts@;
        let ghost fresh: Account = account;
        accounts.insert(*account_id, account);
        proof {
            lemma_accounts_view_insert(before, *account_id, fresh);
        }
    }
}

/// Applies one operation to one account, by its kind.
pub fn apply_operation(account: &mut Account, operation: AccountOperation)
    ensures
        final(account)@ == old(account)@.apply(operation@),
{
    match *operation.get_type() {
        crate::account::AccountOperationType::Deposit => account.deposit(operation.get_amount()),
        crate::account::AccountOperationType::Withdrawal => account.withdraw(
            operation.get_amount(),
        ),
        crate::account::AccountOperationType::Dispute => account.dispute(
            operation.get_amount(),
            operation.get_tx(),
        ),
        crate::account::AccountOperationType::Resolve => account.resolve(operation.get_tx()),
        crate::account::AccountOperationType::Chargeback => account.chargeback(operation.get_tx()),
    }
}

/// The mathematical image of a shard worker: its accounts and whether
/// it still accepts commands.
pub ghost struct ShardWorkerView {
    pub accounts: Map<u16, AccountView>,
    pub running: bool,
}

/// One shard: the accounts it owns and its place in the two-state
/// lifecycle Running / Terminated. Once it has answered a report it
/// accepts nothing more.
pub struct ShardWorker {
    accounts: HashMap<u16, Account>,
    running: bool,
}

impl View for ShardWorker {
    type V = ShardWorkerView;

    closed spec fn view(&self) -> ShardWorkerView {
        ShardWorkerView { accounts: accounts_view(self.accounts@), running: self.running }
    }
}

impl ShardWorker {
    pub fn new() -> (w: ShardWorker)
        ensures
            w@ == (ShardWorkerView { accounts: Map::empty(), running: true }),
    {
        let w = ShardWorker { accounts: HashMap::new(), running: true };
        proof {
            assert(w@.accounts =~= Map::<u16, AccountView>::empty());
        }
        w
    }

    pub fn is_running(&self) -> (r: bool)
        ensures
            r == self@.running,
    {
        self.running
    }

    /// Applies one operation to the account it addresses, creating the
    /// account on first sight; a terminated worker ignores it.
    pub fn handle_operation(&mut self, operation: AccountOperation)
        ensures
            final(self)@.running == old(self)@.running,
            old(self)@.running ==> final(self)@.accounts == shard_apply(
                old(self)@.accounts,
                operation@,
            ),
            !old(self)@.running ==> final(self)@ == old(self)@,
    {
        if !self.running {
            return ;
        }
        let ghost m0: Map<u16, Account> = self.accounts@;
        let client = *operation.get_client();
        ensure_account(&mut self.accounts, &client);
        let ghost m1: Map<u16, Account> = self.accounts@;
        match self.accounts.remove(&client) {
            Some(mut account) => {
                let ghost taken: Account = account;
                apply_operation(&mut account, operation);
                let ghost applied: Account = account;
                self.accounts.insert(client, account);
                proof {
                    let v0 = accounts_view(m0);
                    let v1 = accounts_view(m1);
                    assert(m1.contains_key(client));
                    assert(taken == m1[client]);
                    assert(v1[client] == taken@);
                    if m0.contains_key(client) {
                        assert(v1 == v0);
                        assert(v1[client] == account_at(v0, client));
                    } else {
                        assert(v1[client] == AccountView::initial(client));
                        assert(v1[client] == account_at(v0, client));
                    }
                    assert(applied@ == account_at(v0, client).apply(operation@));
                    assert(self.accounts@ == m1.remove(client).insert(client, applied));
                    let m2 = self.accounts@;
                    let target = shard_apply(v0, operation@);
                    assert(operation@.client == client);
                    assert forall|k: u16| #![auto]
                        accounts_view(m2).contains_key(k) == target.contains_key(k) by {
                        assert(accounts_view(m2).contains_key(k) == m2.contains_key(k));
                        assert(v0.contains_key(k) == m0.contains_key(k));
                        assert(v1.contains_key(k) == m1.contains_key(k));
                        assert(target.contains_key(k) == (k == client || v0.contains_key(k)));
                        if k != client {
                            assert(m2.contains_key(k) == m1.contains_key(k));
                            assert(v1.contains_key(k) == v0.contains_key(k));
                        } else {
                            assert(m2.contains_key(k));
                        }
                    }
                    assert forall|k: u16| #![auto]
                        accounts_view(m2).contains_key(k) implies accounts_view(m2)[k]
                        == target[k] by {
                        assert(accounts_view(m2)[k] == m2[k]@);
                        if k != client {
                            assert(m2[k] == m1[k]);
                            assert(v1[k] == v0[k]);
                            assert(target[k] == v0[k]);
                            assert(m1[k]@ == v1[k]);
                        } else {
                            assert(m2[k] == applied);
                            assert(target[k] == account_at(v0, client).apply(operation@));
                        }
                    }
                    assert(accounts_view(m2) =~= target);
                }
            },
            None => {},
        }
    }

    /// Hands the complete account mapping over and terminates: the
    /// worker keeps nothing and accepts nothing more.
    pub fn take_snapshot(&mut self) -> (snapshot: HashMap<u16, Account>)
        ensures
            accounts_view(snapshot@) == old(self)@.accounts,
            final(self)@.running == false,
            final(self)@.accounts == Map::<u16, AccountView>::empty(),
    {
        let mut snapshot: HashMap<u16, Account> = HashMap::new();
        core::mem::swap(&mut snapshot, &mut self.accounts);
        self.running = false;
        proof {
            assert(accounts_view(self.accounts@) =~= Map::<u16, AccountView>::empty());
        }
        snapshot
    }

    /// Stops the worker without a report, when its mailbox is gone.
    pub fn shutdown(&mut self)
        ensures
            final(self)@.running == false,
            final(self)@.accounts == old(self)@.accounts,
    {
        self.running = false;
    }

    /// One turn of a shard's life: wait for the next command and act
    /// on it. An operation is applied and the worker keeps running; a
    /// report request hands the accounts over and terminates it; a
    /// closed mailbox terminates it with its accounts untouched. The
    /// caller loops over this while `is_running` holds.
    pub fn step(&mut self, receiver: &crossbeam_channel::Receiver<AccountCommand>)
        requires
            old(self)@.running,
        ensures
            final(self)@.running ==> exists|op: OperationView|
                final(self)@.accounts == shard_apply(old(self)@.accounts, op),
            !final(self)@.running ==> final(self)@.accounts == Map::<u16, AccountView>::empty()
                || final(self)@.accounts == old(self)@.accounts,
    {
        match channel_recv(receiver) {
            Ok(command) => match command {
                AccountCommand::Operate(operation) => {
                    let ghost op: OperationView = operation@;
                    let ghost before: Map<u16, AccountView> = self@.accounts;
                    self.handle_operation(operation);
                    proof {
                        assert(self@.accounts == shard_apply(before, op));
                    }
                },
                AccountCommand::Report(reply) => {
                    let snapshot = self.take_snapshot();
                    let _ = channel_send(&reply, snapshot);
                },
            },
            Err(_) => self.shutdown(),
        }
    }
}

/// Which shard an operation for `client` is routed to.
pub open spec fn route_spec(client: u16, pool_size: u16) -> int
    recommends
        pool_size >= 1,
{
    (client as int) % (pool_size as int)
}

/// Shard routing: the remainder of the client number by the shard
/// count, so every operation for one account lands in one shard.
pub fn route(client: u16, pool_size: u16) -> (idx: u16)
    ensures
        pool_size >= 1 ==> idx == route_spec(client, pool_size) && idx < pool_size,
        pool_size == 0 ==> idx == 0,
{
    match client.checked_rem(pool_size) {
        Some(r) => r,
        None => 0,
    }
}

/// Law: routing is deterministic. Two operations that address the
/// same account land in the same shard, whatever the shard count the
/// dispatcher was built with, so one account's operations are applied
/// in submission order by one worker.
pub proof fn lemma_routing_deterministic(a: OperationView, b: OperationView, pool_size: u16)
    requires
        a.client == b.client,
        pool_size >= 1,
    ensures
        route_spec(a.client, pool_size) == route_spec(b.client, pool_size),
        0 <= route_spec(a.client, pool_size) < pool_size,
{
}

/// The subsequence of a stream addressed to one client, in order.
pub open spec fn ops_for(client: u16, ops: Seq<OperationView>) -> Seq<OperationView>
    decreases ops.len(),
{
    if ops.len() == 0 {
        Seq::empty()
    } else if ops.first().client == client {
        seq![ops.first()] + ops_for(client, ops.drop_first())
    } else {
        ops_for(client, ops.drop_first())
    }
}

/// Law: per-account sequential consistency. A shard that applies a
/// whole stream in mailbox order leaves each account exactly where
/// its own operations, taken alone and in submission order, leave it;
/// operations for other accounts do not touch it.
pub proof fn lemma_shard_per_account(
    accounts: Map<u16, AccountView>,
    ops: Seq<OperationView>,
    client: u16,
)
    ensures
        account_at(shard_run(accounts, ops), client) == crate::account::run_ops(
            account_at(accounts, client),
            ops_for(client, ops),
        ),
    decreases ops.len(),
{
    if ops.len() > 0 {
        let first = ops.first();
        lemma_shard_per_account(shard_apply(accounts, first), ops.drop_first(), client);
        if first.client == client {
            let own = seq![first] + ops_for(client, ops.drop_first());
            assert(own.first() == first);
            assert(own.drop_first() =~= ops_for(client, ops.drop_first()));
            assert(account_at(shard_apply(accounts, first), client) == account_at(
                accounts,
                client,
            ).apply(first));
        } else {
            assert(account_at(shard_apply(accounts, first), client) == account_at(
                accounts,
                client,
            ));
        }
    }
}

/// Law: a report is stable. The mapping a report observes after some
/// stream of operations, observed again with no operation submitted in
/// between, is the same mapping.
pub proof fn lemma_report_stable(accounts: Map<u16, AccountView>, ops: Seq<OperationView>)
    ensures
        shard_run(shard_run(accounts, ops), Seq::<OperationView>::empty()) == shard_run(
            accounts,
            ops,
        ),
{
}

/// The dispatcher: one bounded mailbox per shard, and the routing rule
/// that keys a shard by the client number.
pub struct AccountProcessor {
    pool_senders: Vec<crossbeam_channel::Sender<AccountCommand>>,
    pool_size: u16,
}

impl AccountProcessor {
    /// A dispatcher is well formed when it has at least one shard and
    /// one mailbox per shard.
    pub closed spec fn wf(&self) -> bool {
        self.pool_size >= 1 && self.pool_senders@.len() == self.pool_size as int
    }

    pub closed spec fn shard_count(&self) -> u16 {
        self.pool_size
    }

    /// Builds the mailboxes for `pool_size` shards, each holding at
    /// most `max_queue` pending commands, and hands back the receiving
    /// ends, one per shard, for the caller to drive with
    /// `ShardWorker::step` on a scheduling unit of its own. A shard
    /// count or mailbox capacity of zero is refused before any work
    /// starts.
    pub fn new(pool_size: u16, max_queue: usize) -> (r: Result<
        (AccountProcessor, Vec<crossbeam_channel::Receiver<AccountCommand>>),
        ProcessorError,
    >)
        ensures
            r is Err <==> (pool_size == 0 || max_queue == 0),
            pool_size == 0 ==> (r matches Err(e) && e == ProcessorError::InvalidShardCount),
            pool_size >= 1 && max_queue == 0 ==> (r matches Err(e) && e
                == ProcessorError::InvalidMailboxCapacity),
            r matches Ok(pair) ==> pair.0.wf() && pair.0.shard_count() == pool_size
                && pair.1@.len() == pool_size as int,
    {
        if pool_size == 0 {
            return Err(ProcessorError::InvalidShardCount);
        }
        if max_queue == 0 {
            return Err(ProcessorError::InvalidMailboxCapacity);
        }
        let mut pool_senders: Vec<crossbeam_channel::Sender<AccountCommand>> = Vec::new();
        let mut receivers: Vec<crossbeam_channel::Receiver<AccountCommand>> = Vec::new();
        let mut i: u16 = 0;
        while i < pool_size
            invariant
                i <= pool_size,
                pool_senders@.len() == i as int,
                receivers@.len() == i as int,
            decreases pool_size - i,
        {
            let (sender, shard_receiver) = channel_bounded::<AccountCommand>(max_queue);
            pool_senders.push(sender);
            receivers.push(shard_receiver);
            i = i + 1;
        }
        Ok((AccountProcessor { pool_senders, pool_size }, receivers))
    }

    /// Routes one operation to the shard its client belongs to. This
    /// never reads or writes ledger state; it only picks the mailbox
    /// and enqueues, waiting when the mailbox is full.
    pub fn process_operation(&self, operation: AccountOperation) -> (r: Result<(), ProcessorError>)
        requires
            self.wf(),
        ensures
            r matches Err(e) ==> e == ProcessorError::ChannelClosed,
    {
        let client_id = *operation.get_client();
        let sender_index = route(client_id, self.pool_size);
        let sender = &self.pool_senders[sender_index as usize];
        channel_send(sender, AccountCommand::Operate(operation))
    }

    /// Asks every shard for its accounts and merges the answers. Each
    /// mailbox is drained in order, so the report reflects every
    /// operation enqueued before it; answering terminates the shard.
    pub fn report(&self) -> (r: Result<HashMap<u16, Account>, ProcessorError>)
        requires
            self.wf(),
        ensures
            r matches Err(e) ==> e == ProcessorError::ChannelClosed,
    {
        let mut receivers: Vec<crossbeam_channel::Receiver<HashMap<u16, Account>>> = Vec::new();
        let mut i: usize = 0;
        while i < self.pool_senders.len()
            invariant
                i <= self.pool_senders@.len(),
            decreases self.pool_senders@.len() - i,
        {
            let (report_sender, report_receiver) = channel_bounded::<HashMap<u16, Account>>(0);
            match channel_send(&self.pool_senders[i], AccountCommand::Report(report_sender)) {
                Ok(()) => {},
                Err(e) => {
                    return Err(e);
                },
            }
            receivers.push(report_receiver);
            i = i + 1;
        }
        let mut parts: Vec<HashMap<u16, Account>> = Vec::new();
        let mut j: usize = 0;
        while j < receivers.len()
            invariant
                j <= receivers@.len(),
            decreases receivers@.len() - j,
        {
            match channel_recv(&receivers[j]) {
                Ok(part) => {
                    parts.push(part);
                },
                Err(e) => {
                    return Err(e);
                },
            }
            j = j + 1;
        }
        Ok(merge_reports(parts))
    }
}

/// What merging a row of per-shard reports yields, later parts winning
/// a key that two parts share.
pub open spec fn merged_from(parts: Seq<HashMap<u16, Account>>, acc: Map<u16, Account>) -> Map<
    u16,
    Account,
>
    decreases parts.len(),
{
    if parts.len() == 0 {
        acc
    } else {
        merged_from(parts.drop_first(), acc.union_prefer_right(parts.first()@))
    }
}

/// Relies on std's HashMap::extend: every pair of `src` is inserted
/// into `dst`, a pair of `src` winning a key both maps hold.
#[verifier::external_body]
fn merge_into(dst: &mut HashMap<u16, Account>, src: HashMap<u16, Account>)
    ensures
        final(dst)@ == old(dst)@.union_prefer_right(src@),
{
    dst.extend(src);
}

/// Merges the per-shard account mappings into one. The shards own
/// disjoint accounts by construction, but the merge does not lean on
/// that: a shared key would go to the later part.
pub fn merge_reports(parts: Vec<HashMap<u16, Account>>) -> (merged: HashMap<u16, Account>)
    ensures
        merged@ == merged_from(parts@, Map::empty()),
{
    let ghost all_parts: Seq<HashMap<u16, Account>> = parts@;
    let mut parts = parts;
    let mut merged: HashMap<u16, Account> = HashMap::new();
    proof {
        assert(merged@ =~= Map::<u16, Account>::empty());
    }
    while parts.len() > 0
        invariant
            merged_from(all_parts, Map::empty()) == merged_from(parts@, merged@),
        decreases parts@.len(),
    {
        let ghost parts_before: Seq<HashMap<u16, Account>> = parts@;
        let part = parts.remove(0);
        merge_into(&mut merged, part);
        proof {
            assert(parts@ =~= parts_before.drop_first());
        }
    }
    merged
}

} // verus!
