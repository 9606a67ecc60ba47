//! Accounts: the ledger entries that blocks carry, and their guard predicates.

use vstd::prelude::*;

use crate::block::{links_to, validate_link, Block};
use crate::sealer::DIFFICULTY_PREFIX;

verus! {

/// A ledger entry, keyed by its address.
pub struct Account {
    pub address: String,
    pub staked: u64,
    pub tokens: u64,
}

/// The mathematical value of an [`Account`].
pub struct AccountView {
    pub address: Seq<char>,
    pub staked: u64,
    pub tokens: u64,
}

impl View for Account {
    type V = AccountView;

    open spec fn view(&self) -> AccountView {
        AccountView { address: self.address@, staked: self.staked, tokens: self.tokens }
    }
}

/// Tokens that a fresh account starts with.
pub const INITIAL_TOKENS: u64 = 20;

/// Price of a server rack, in tokens.
pub const RACK_PRICE: u64 = 10;

impl AccountView {
    pub open spec fn fresh(address: Seq<char>) -> AccountView {
        AccountView { address, staked: 0, tokens: INITIAL_TOKENS }
    }

    pub open spec fn can_buy_rack(self) -> bool {
        self.tokens - self.staked >= RACK_PRICE
    }

    pub open spec fn can_stake(self) -> bool {
        self.tokens > self.staked
    }

    pub open spec fn can_unstake(self) -> bool {
        self.staked > 0
    }

    pub open spec fn can_transfer(self, amount: u64) -> bool {
        self.tokens >= amount
    }

    pub open spec fn can_punish(self) -> bool {
        self.tokens > 0
    }
}

impl Clone for Account {
    fn clone(&self) -> (r: Self)
        ensures
            r == *self,
    {
        Account { address: self.address.clone(), staked: self.staked, tokens: self.tokens }
    }
}

/// Behaviour that an account offers.
pub trait AccountTrait: Sized {
    /// Creates a fresh account at the given address.
    fn new(address: &str) -> Self;

    /// Whether the unstaked tokens pay for a server rack.
    fn can_buy_rack(&self) -> bool;

    /// Whether some tokens are not staked yet.
    fn can_stake(&self) -> bool;

    /// Whether some tokens are staked.
    fn can_unstake(&self) -> bool;

    /// Whether the balance covers `amount`.
    fn can_transfer(&self, amount: &u64) -> bool;

    /// Whether there is any balance to take.
    fn can_punish(&self) -> bool;

    /// Weight of the account when the next producer is drawn.
    fn weight_as_miner(&self) -> u64;

    /// Weight of the account when validators are drawn.
    fn weight_as_validator(&self) -> u64;

    /// Whether two adjacent blocks were correctly sealed.
    fn validate_block(block: &Block, previous_block: &Block) -> bool;
}

impl AccountTrait for Account {
    fn new(address: &str) -> (r: Account)
        ensures
            r@ == AccountView::fresh(address@),
    {
        Account { address: address.to_owned(), staked: 0, tokens: INITIAL_TOKENS }
    }

    fn can_buy_rack(&self) -> (r: bool)
        ensures
            r == self@.can_buy_rack(),
    {
        self.tokens >= self.staked && self.tokens - self.staked >= RACK_PRICE
    }

    fn can_stake(&self) -> (r: bool)
        ensures
            r == self@.can_stake(),
    {
        self.tokens > self.staked
    }

    fn can_unstake(&self) -> (r: bool)
        ensures
            r == self@.can_unstake(),
    {
        self.staked > 0
    }

    fn can_transfer(&self, amount: &u64) -> (r: bool)
        ensures
            r == self@.can_transfer(*amount),
    {
        self.tokens >= *amount
    }

    fn can_punish(&self) -> (r: bool)
        ensures
            r == self@.can_punish(),
    {
        self.tokens > 0
    }

    fn weight_as_miner(&self) -> (r: u64)
        ensures
            r == self.staked,
    {
        self.staked
    }

    fn weight_as_validator(&self) -> (r: u64)
        ensures
            r == self.staked,
    {
        self.staked
    }

    fn validate_block(block: &Block, previous_block: &Block) -> (r: bool)
        ensures
            r == links_to(block@, previous_block@, DIFFICULTY_PREFIX@),
    {
        validate_link(block, previous_block, DIFFICULTY_PREFIX)
    }
}

} // verus!
