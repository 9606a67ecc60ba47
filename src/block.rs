//! Blocks: the sealed, hash-linked units of the chain.

use vstd::prelude::*;

use crate::account::{Account, AccountView};
use crate::digest::{calculate_hash, hash_to_binary};
use crate::sealer::{has_prefix, meets_difficulty};

verus! {

/// A block of the chain. `data` holds the accounts whose state changed in it.
pub struct Block {
    pub id: u64,
    pub hash: String,
    pub previous_hash: String,
    pub timestamp: u64,
    pub data: Vec<Account>,
    pub nonce: u64,
    pub next_miner: String,
    pub next_validators: Vec<String>,
}

/// The mathematical value of a [`Block`].
pub struct BlockView {
    pub id: u64,
    pub hash: Seq<char>,
    pub previous_hash: Seq<char>,
    pub timestamp: u64,
    pub data: Seq<AccountView>,
    pub nonce: u64,
    pub next_miner: Seq<char>,
    pub next_validators: Seq<Seq<char>>,
}

pub open spec fn accounts_view(accounts: Seq<Account>) -> Seq<AccountView> {
    accounts.map_values(|a: Account| a@)
}

pub open spec fn strings_view(strings: Seq<String>) -> Seq<Seq<char>> {
    strings.map_values(|s: String| s@)
}

impl View for Block {
    type V = BlockView;

    open spec fn view(&self) -> BlockView {
        BlockView {
            id: self.id,
            hash: self.hash@,
            previous_hash: self.previous_hash@,
            timestamp: self.timestamp,
            data: accounts_view(self.data@),
            nonce: self.nonce,
            next_miner: self.next_miner@,
            next_validators: strings_view(self.next_validators@),
        }
    }
}

impl Clone for Block {
    fn clone(&self) -> (r: Self)
        ensures
            r@ == self@,
    {
        let data = self.data.clone();
        let next_validators = self.next_validators.clone();
        assert(data@ =~= self.data@);
        assert(next_validators@ =~= self.next_validators@);
        Block {
            id: self.id,
            hash: self.hash.clone(),
            previous_hash: self.previous_hash.clone(),
            timestamp: self.timestamp,
            data,
            nonce: self.nonce,
            next_miner: self.next_miner.clone(),
            next_validators,
        }
    }
}

/// The outcome of checking a block against its predecessor: the first check
/// that failed, in the order they are made, or `Valid`.
#[derive(PartialEq, Eq, Structural, Debug, Clone, Copy)]
pub enum LinkCheck {
    Valid,
    PreviousHashMismatch,
    DifficultyNotMet,
    IdNotIncremented,
    HashMismatch,
}

/// The first failing check of `block` against `previous`, in the fixed order:
/// previous hash, difficulty, id, recomputed hash.
pub open spec fn link_check(block: BlockView, previous: BlockView, prefix: Seq<char>) -> LinkCheck {
    if block.previous_hash != previous.hash {
        LinkCheck::PreviousHashMismatch
    } else if !meets_difficulty(block.hash, prefix) {
        LinkCheck::DifficultyNotMet
    } else if block.id != previous.id + 1 {
        LinkCheck::IdNotIncremented
    } else if block.hash != block.computed_hash() {
        LinkCheck::HashMismatch
    } else {
        LinkCheck::Valid
    }
}

/// Whether `block` is correctly sealed onto `previous`.
pub open spec fn links_to(block: BlockView, previous: BlockView, prefix: Seq<char>) -> bool {
    link_check(block, previous, prefix) == LinkCheck::Valid
}

/// Checks `block` against `previous_block`, stopping at the first failing check.
pub fn check_link(block: &Block, previous_block: &Block, difficulty_prefix: &str) -> (r: LinkCheck)
    ensures
        r == link_check(block@, previous_block@, difficulty_prefix@),
{
    if block.previous_hash != previous_block.hash {
        return LinkCheck::PreviousHashMismatch;
    }
    if !has_prefix(block.hash.as_str(), difficulty_prefix) {
        return LinkCheck::DifficultyNotMet;
    }
    if previous_block.id == u64::MAX || block.id != previous_block.id + 1 {
        return LinkCheck::IdNotIncremented;
    }
    let digest = calculate_hash(
        &block.data,
        block.id,
        block.next_miner.as_str(),
        &block.next_validators,
        block.nonce,
        block.previous_hash.as_str(),
        block.timestamp,
    );
    let text = hash_to_binary(digest.as_slice());
    if text != block.hash {
        return LinkCheck::HashMismatch;
    }
    LinkCheck::Valid
}

/// Whether `block` is correctly sealed onto `previous_block` under the given difficulty.
pub fn validate_link(block: &Block, previous_block: &Block, difficulty_prefix: &str) -> (r: bool)
    ensures
        r == links_to(block@, previous_block@, difficulty_prefix@),
{
    check_link(block, previous_block, difficulty_prefix) == LinkCheck::Valid
}

} // verus!
