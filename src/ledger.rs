//! Transaction batches: events against accounts, applied in order, each one
//! failing on its own, then reconciled into the set of changed accounts.

use vstd::prelude::*;

use crate::account::{Account, AccountTrait, AccountView};
use crate::block::{accounts_view, strings_view, BlockView};
use crate::chain::{chain_view, resolve, Chain, ChainTrait};
use crate::digest::{decimal_text, push_decimal};

verus! {

/// What a transaction does to the account at its address.
pub enum Events {
    AddAccount,
    Punish,
    Reward,
    Stake,
    Transfer(String, u64),
    Unstake,
}

/// The mathematical value of an [`Events`].
pub enum EventView {
    AddAccount,
    Punish,
    Reward,
    Stake,
    Transfer(Seq<char>, u64),
    Unstake,
}

impl View for Events {
    type V = EventView;

    open spec fn view(&self) -> EventView {
        match self {
            Events::AddAccount => EventView::AddAccount,
            Events::Punish => EventView::Punish,
            Events::Reward => EventView::Reward,
            Events::Stake => EventView::Stake,
            Events::Transfer(to, amount) => EventView::Transfer(to@, *amount),
            Events::Unstake => EventView::Unstake,
        }
    }
}

/// A change to be mined into a block, made by the account at `address`.
pub struct Transaction {
    pub address: String,
    pub event: Events,
}

/// The mathematical value of a [`Transaction`].
pub struct TransactionView {
    pub address: Seq<char>,
    pub event: EventView,
}

impl View for Transaction {
    type V = TransactionView;

    open spec fn view(&self) -> TransactionView {
        TransactionView { address: self.address@, event: self.event@ }
    }
}

pub open spec fn transactions_view(txs: Seq<Transaction>) -> Seq<TransactionView> {
    txs.map_values(|t: Transaction| t@)
}

/// The state of a batch while its transactions are applied: the accounts it
/// started from (mutated in place), the accounts it will commit, and the errors.
pub struct BatchState {
    pub before: Seq<AccountView>,
    pub after: Seq<AccountView>,
    pub errors: Seq<Seq<char>>,
}

/// The index of the first account at `address`.
pub open spec fn position(accounts: Seq<AccountView>, address: Seq<char>) -> Option<int>
    decreases accounts.len(),
{
    if accounts.len() == 0 {
        None
    } else {
        match position(accounts.drop_last(), address) {
            Some(i) => Some(i),
            None => if accounts.last().address == address {
                Some(accounts.len() - 1)
            } else {
                None
            },
        }
    }
}

pub open spec fn cannot_unstake_text(address: Seq<char>) -> Seq<char> {
    "'"@ + address + "' cannot unstake"@
}

pub open spec fn cannot_stake_text(address: Seq<char>) -> Seq<char> {
    "'"@ + address + "' cannot stake"@
}

pub open spec fn self_transfer_text(address: Seq<char>) -> Seq<char> {
    "'"@ + address + "' cannot transfer to itself"@
}

pub open spec fn cannot_transfer_text(address: Seq<char>, amount: u64) -> Seq<char> {
    "'"@ + address + "' cannot transfer "@ + decimal_text(amount as nat) + " tokens"@
}

pub open spec fn recipient_missing_text(to: Seq<char>) -> Seq<char> {
    "Recipient '"@ + to + "' not found in chain"@
}

pub open spec fn invalid_event_text(address: Seq<char>) -> Seq<char> {
    "'"@ + address + "' transacted with an invalid event"@
}

pub open spec fn not_found_text(address: Seq<char>) -> Seq<char> {
    "'"@ + address + "' not found in chain"@
}

pub open spec fn with_staked(a: AccountView, staked: int) -> AccountView {
    AccountView { address: a.address, staked: staked as u64, tokens: a.tokens }
}

pub open spec fn with_tokens(a: AccountView, tokens: int) -> AccountView {
    AccountView { address: a.address, staked: a.staked, tokens: tokens as u64 }
}

pub open spec fn with_error(st: BatchState, e: Seq<char>) -> BatchState {
    BatchState { errors: st.errors.push(e), ..st }
}

/// A transfer from the account at index `i` of `before`, whose guards passed.
/// A credit that would overflow the recipient's balance fails like an
/// unaffordable transfer.
pub open spec fn apply_transfer(
    chain: Seq<BlockView>,
    st: BatchState,
    i: int,
    to: Seq<char>,
    amount: u64,
) -> BatchState {
    let node = st.before[i];
    let debited = st.before.update(i, with_tokens(node, node.tokens - amount));
    match position(st.after, to) {
        Some(j) => if st.after[j].tokens + amount <= u64::MAX {
            BatchState {
                before: debited,
                after: st.after.update(j, with_tokens(st.after[j], st.after[j].tokens + amount)),
                errors: st.errors,
            }
        } else {
            with_error(st, cannot_transfer_text(node.address, amount))
        },
        None => match resolve(chain, to) {
            Some(r) => if r.tokens + amount <= u64::MAX {
                BatchState {
                    before: debited,
                    after: st.after.push(with_tokens(r, r.tokens + amount)),
                    errors: st.errors,
                }
            } else {
                with_error(st, cannot_transfer_text(node.address, amount))
            },
            None => with_error(st, recipient_missing_text(to)),
        },
    }
}

/// One transaction applied to the batch state.
pub open spec fn apply_tx(
    chain: Seq<BlockView>,
    st: BatchState,
    tx: TransactionView,
) -> BatchState {
    match position(st.before, tx.address) {
        Some(i) => {
            let node = st.before[i];
            match tx.event {
                EventView::Unstake => if node.can_unstake() {
                    let before = st.before.update(i, with_staked(node, node.staked - 1));
                    BatchState { before, ..st }
                } else {
                    with_error(st, cannot_unstake_text(node.address))
                },
                EventView::Stake => if node.can_stake() {
                    let before = st.before.update(i, with_staked(node, node.staked + 1));
                    BatchState { before, ..st }
                } else {
                    with_error(st, cannot_stake_text(node.address))
                },
                EventView::Transfer(to, amount) => if to == node.address {
                    with_error(st, self_transfer_text(node.address))
                } else if node.can_transfer(amount) {
                    apply_transfer(chain, st, i, to, amount)
                } else {
                    with_error(st, cannot_transfer_text(node.address, amount))
                },
                _ => with_error(st, invalid_event_text(node.address)),
            }
        },
        None => match tx.event {
            EventView::AddAccount => BatchState {
                after: st.after.push(AccountView::fresh(tx.address)),
                ..st
            },
            _ => with_error(st, not_found_text(tx.address)),
        },
    }
}

/// The transactions applied in order.
pub open spec fn apply_all(
    chain: Seq<BlockView>,
    st: BatchState,
    txs: Seq<TransactionView>,
) -> BatchState
    decreases txs.len(),
{
    if txs.len() == 0 {
        st
    } else {
        apply_tx(chain, apply_all(chain, st, txs.drop_last()), txs.last())
    }
}

/// The distinct current accounts of the transactions' addresses, in the order
/// the addresses first occur.
pub open spec fn starting_accounts(
    chain: Seq<BlockView>,
    txs: Seq<TransactionView>,
) -> Seq<AccountView>
    decreases txs.len(),
{
    if txs.len() == 0 {
        Seq::empty()
    } else {
        let found = starting_accounts(chain, txs.drop_last());
        match resolve(chain, txs.last().address) {
            Some(a) => if position(found, a.address) is Some {
                found
            } else {
                found.push(a)
            },
            None => found,
        }
    }
}

/// Each account of `before`, in order, overwrites the first account of `after`
/// at its address.
pub open spec fn reconcile(after: Seq<AccountView>, before: Seq<AccountView>) -> Seq<AccountView>
    decreases before.len(),
{
    if before.len() == 0 {
        after
    } else {
        let f = reconcile(after, before.drop_last());
        match position(f, before.last().address) {
            Some(j) => f.update(j, before.last()),
            None => f,
        }
    }
}

/// The batch applied to the chain: the accounts to commit, and the error of
/// each transaction that failed, in order.
pub open spec fn batch_outcome(
    chain: Seq<BlockView>,
    txs: Seq<TransactionView>,
) -> (Seq<AccountView>, Seq<Seq<char>>) {
    let start = starting_accounts(chain, txs);
    let init = BatchState { before: start, after: start, errors: Seq::empty() };
    let st = apply_all(chain, init, txs);
    (reconcile(st.after, st.before), st.errors)
}

pub proof fn lemma_position(accounts: Seq<AccountView>, address: Seq<char>)
    ensures
        match position(accounts, address) {
            Some(i) => 0 <= i < accounts.len() && accounts[i].address == address,
            None => forall|k: int|
                0 <= k < accounts.len() ==> #[trigger] accounts[k].address != address,
        },
    decreases accounts.len(),
{
    if accounts.len() > 0 {
        lemma_position(accounts.drop_last(), address);
        match position(accounts.drop_last(), address) {
            Some(i) => {},
            None => {
                assert forall|k: int| 0 <= k < accounts.len() - 1 implies #[trigger] accounts[k].address
                    != address by {
                    assert(accounts.drop_last()[k] == accounts[k]);
                }
            },
        }
    }
}

fn position_in(accounts: &Vec<Account>, address: &String) -> (r: Option<usize>)
    ensures
        match r {
            Some(i) => position(accounts_view(accounts@), address@) == Some(i as int) && i
                < accounts@.len(),
            None => position(accounts_view(accounts@), address@) is None,
        },
{
    let ghost whole = accounts_view(accounts@);
    let mut found: Option<usize> = None;
    let mut j: usize = 0;
    while j < accounts.len()
        invariant
            j <= accounts@.len(),
            whole == accounts_view(accounts@),
            match found {
                Some(i) => position(whole.take(j as int), address@) == Some(i as int) && i < j,
                None => position(whole.take(j as int), address@) is None,
            },
        decreases accounts@.len() - j,
    {
        assert(whole.take(j as int + 1).drop_last() =~= whole.take(j as int));
        if found.is_none() && accounts[j].address == *address {
            found = Some(j);
        }
        j = j + 1;
    }
    assert(whole.take(j as int) =~= whole);
    found
}

fn quoted_message(address: &String, suffix: &str) -> (r: String)
    ensures
        r@ == "'"@ + address@ + suffix@,
{
    let mut m = "'".to_owned();
    m.append(address.as_str());
    m.append(suffix);
    m
}

pub open spec fn state_of(
    before: Seq<Account>,
    after: Seq<Account>,
    errors: Seq<String>,
) -> BatchState {
    BatchState {
        before: accounts_view(before),
        after: accounts_view(after),
        errors: strings_view(errors),
    }
}

/// Records that the account at `address` could not transfer `amount`.
fn refuse_transfer(errors: &mut Vec<String>, address: &String, amount: u64)
    ensures
        strings_view(final(errors)@) == strings_view(old(errors)@).push(
            cannot_transfer_text(address@, amount),
        ),
{
    let mut m = quoted_message(address, "' cannot transfer ");
    push_decimal(&mut m, amount);
    m.append(" tokens");
    errors.push(m);
    assert(strings_view(errors@) =~= strings_view(old(errors)@).push(
        cannot_transfer_text(address@, amount),
    ));
}

/// Records an error message.
fn record(errors: &mut Vec<String>, message: String)
    ensures
        strings_view(final(errors)@) == strings_view(old(errors)@).push(message@),
{
    errors.push(message);
    assert(strings_view(errors@) =~= strings_view(old(errors)@).push(message@));
}

/// Replaces the account at index `i`.
fn replace(accounts: &mut Vec<Account>, i: usize, account: Account)
    requires
        i < old(accounts)@.len(),
    ensures
        accounts_view(final(accounts)@) == accounts_view(old(accounts)@).update(i as int, account@),
{
    accounts.set(i, account);
    assert(accounts_view(accounts@) =~= accounts_view(old(accounts)@).update(i as int, account@));
}

fn transfer(
    chain: &Chain,
    before: &mut Vec<Account>,
    after: &mut Vec<Account>,
    errors: &mut Vec<String>,
    i: usize,
    to: &String,
    amount: u64,
)
    requires
        i < old(before)@.len(),
        old(before)@[i as int].tokens >= amount,
    ensures
        state_of(final(before)@, final(after)@, final(errors)@) == apply_transfer(
            chain_view(chain@),
            state_of(old(before)@, old(after)@, old(errors)@),
            i as int,
            to@,
            amount,
        ),
{
    let node = before[i].clone();
    let debited = Account {
        address: node.address.clone(),
        staked: node.staked,
        tokens: node.tokens - amount,
    };
    match position_in(after, to) {
        Some(j) => {
            let r = after[j].clone();
            if r.tokens <= u64::MAX - amount {
                let tokens = r.tokens + amount;
                let credited = Account { address: r.address, staked: r.staked, tokens };
                replace(after, j, credited);
                replace(before, i, debited);
            } else {
                refuse_transfer(errors, &node.address, amount);
            }
        },
        None => match chain.get_account_by_address(to.as_str()) {
            Some(r) => {
                if r.tokens <= u64::MAX - amount {
                    let credited = Account {
                        address: r.address.clone(),
                        staked: r.staked,
                        tokens: r.tokens + amount,
                    };
                    let ghost old_after = accounts_view(after@);
                    after.push(credited);
                    let ghost expected = old_after.push(with_tokens(r@, r.tokens + amount));
                    assert(accounts_view(after@) =~= expected);
                    replace(before, i, debited);
                } else {
                    refuse_transfer(errors, &node.address, amount);
                }
            },
            None => {
                let mut m = "Recipient '".to_owned();
                m.append(to.as_str());
                m.append("' not found in chain");
                record(errors, m);
            },
        },
    }
}

/// Applies one transaction to the batch state.
fn apply_transaction(
    chain: &Chain,
    before: &mut Vec<Account>,
    after: &mut Vec<Account>,
    errors: &mut Vec<String>,
    tx: &Transaction,
)
    ensures
        state_of(final(before)@, final(after)@, final(errors)@) == apply_tx(
            chain_view(chain@),
            state_of(old(before)@, old(after)@, old(errors)@),
            tx@,
        ),
{
    match position_in(before, &tx.address) {
        Some(i) => {
            proof {
                lemma_position(accounts_view(before@), tx.address@);
            }
            let node = before[i].clone();
            match &tx.event {
                Events::Unstake => {
                    if node.can_unstake() {
                        let staked = node.staked - 1;
                        let a = Account { address: node.address, staked, tokens: node.tokens };
                        replace(before, i, a);
                    } else {
                        record(errors, quoted_message(&node.address, "' cannot unstake"));
                    }
                },
                Events::Stake => {
                    if node.can_stake() {
                        let staked = node.staked + 1;
                        let a = Account { address: node.address, staked, tokens: node.tokens };
                        replace(before, i, a);
                    } else {
                        record(errors, quoted_message(&node.address, "' cannot stake"));
                    }
                },
                Events::Transfer(to, amount) => {
                    if node.address == *to {
                        let m = quoted_message(&node.address, "' cannot transfer to itself");
                        record(errors, m);
                    } else if node.can_transfer(amount) {
                        transfer(chain, before, after, errors, i, to, *amount);
                    } else {
                        refuse_transfer(errors, &node.address, *amount);
                    }
                },
                _ => {
                    let m = quoted_message(&node.address, "' transacted with an invalid event");
                    record(errors, m);
                },
            }
        },
        None => match &tx.event {
            Events::AddAccount => {
                let ghost old_after = accounts_view(after@);
                after.push(Account::new(tx.address.as_str()));
                assert(accounts_view(after@) =~= old_after.push(AccountView::fresh(tx.address@)));
            },
            _ => {
                record(errors, quoted_message(&tx.address, "' not found in chain"));
            },
        },
    }
}

fn collect_starting_accounts(chain: &Chain, transactions: &Vec<Transaction>) -> (r: Vec<Account>)
    ensures
        accounts_view(r@) == starting_accounts(
            chain_view(chain@),
            transactions_view(transactions@),
        ),
{
    let ghost cv = chain_view(chain@);
    let ghost tv = transactions_view(transactions@);
    let mut found: Vec<Account> = Vec::new();
    let mut k: usize = 0;
    assert(tv.take(0) =~= Seq::<TransactionView>::empty());
    assert(accounts_view(found@) =~= Seq::<AccountView>::empty());
    while k < transactions.len()
        invariant
            k <= transactions@.len(),
            cv == chain_view(chain@),
            tv == transactions_view(transactions@),
            accounts_view(found@) == starting_accounts(cv, tv.take(k as int)),
        decreases transactions@.len() - k,
    {
        assert(tv.take(k as int + 1).drop_last() =~= tv.take(k as int));
        assert(tv.take(k as int + 1).last() == transactions@[k as int]@);
        match chain.get_account_by_address(transactions[k].address.as_str()) {
            Some(node) => {
                if position_in(&found, &node.address).is_none() {
                    found.push(node.clone());
                    assert(accounts_view(found@) =~= starting_accounts(cv, tv.take(k as int + 1)));
                }
            },
            None => {},
        }
        k = k + 1;
    }
    assert(tv.take(k as int) =~= tv);
    found
}

fn reconcile_into(after: &mut Vec<Account>, before: &Vec<Account>)
    ensures
        accounts_view(final(after)@) == reconcile(
            accounts_view(old(after)@),
            accounts_view(before@),
        ),
{
    let ghost start = accounts_view(after@);
    let ghost bv = accounts_view(before@);
    let mut k: usize = 0;
    assert(bv.take(0) =~= Seq::<AccountView>::empty());
    while k < before.len()
        invariant
            k <= before@.len(),
            bv == accounts_view(before@),
            accounts_view(after@) == reconcile(start, bv.take(k as int)),
        decreases before@.len() - k,
    {
        assert(bv.take(k as int + 1).drop_last() =~= bv.take(k as int));
        let ghost f = accounts_view(after@);
        match position_in(after, &before[k].address) {
            Some(j) => {
                replace(after, j, before[k].clone());
            },
            None => {},
        }
        k = k + 1;
    }
    assert(bv.take(k as int) =~= bv);
}

/// Applies a batch of transactions to the chain's accounts: returns the accounts
/// to commit and the error of each transaction that failed, in order.
pub fn apply_transactions(chain: &Chain, transactions: &Vec<Transaction>) -> (r: (
    Vec<Account>,
    Vec<String>,
))
    ensures
        (accounts_view(r.0@), strings_view(r.1@)) == batch_outcome(
            chain_view(chain@),
            transactions_view(transactions@),
        ),
{
    let ghost cv = chain_view(chain@);
    let ghost tv = transactions_view(transactions@);
    let mut before = collect_starting_accounts(chain, transactions);
    let mut after = before.clone();
    assert(after@ =~= before@);
    let mut errors: Vec<String> = Vec::new();
    let ghost start = accounts_view(before@);
    let ghost init = BatchState { before: start, after: start, errors: Seq::empty() };
    assert(tv.take(0) =~= Seq::<TransactionView>::empty());
    assert(strings_view(errors@) =~= Seq::<Seq<char>>::empty());
    assert(state_of(before@, after@, errors@) == init);
    let mut k: usize = 0;
    while k < transactions.len()
        invariant
            k <= transactions@.len(),
            cv == chain_view(chain@),
            tv == transactions_view(transactions@),
            state_of(before@, after@, errors@) == apply_all(cv, init, tv.take(k as int)),
        decreases transactions@.len() - k,
    {
        assert(tv.take(k as int + 1).drop_last() =~= tv.take(k as int));
        assert(tv.take(k as int + 1).last() == transactions@[k as int]@);
        apply_transaction(chain, &mut before, &mut after, &mut errors, &transactions[k]);
        k = k + 1;
    }
    assert(tv.take(k as int) =~= tv);
    reconcile_into(&mut after, &before);
    (after, errors)
}

} // verus!
