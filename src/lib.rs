//! A single-node proof-of-stake ledger: accounts, hash-linked blocks, stake-weighted
//! producer selection, nonce-search sealing and transaction batches.

pub mod account;
pub mod block;
pub mod chain;
pub mod digest;
pub mod laws;
pub mod ledger;
pub mod sealer;
pub mod selection;

pub use digest::{calculate_hash, hash_to_binary};
pub use ledger::{Events, Transaction};
pub use sealer::DIFFICULTY_PREFIX;

use vstd::prelude::*;

use account::{Account, AccountTrait, AccountView};
use block::{accounts_view, links_to, strings_view, Block, BlockView};
use chain::{chain_view, seal_outcome, unsealable, Chain, ChainTrait};
use ledger::{apply_transactions, batch_outcome, transactions_view};

verus! {

/// A batch to be mined: the chain as the caller holds it, the participants of
/// the network, and the transactions to apply.
pub struct NodeState {
    pub chain: Chain,
    pub network: Vec<String>,
    pub transactions: Vec<Transaction>,
}

/// Why an operation on the chain was refused.
#[derive(PartialEq, Eq, Structural, Debug, Clone, Copy)]
pub enum BlockchainError {
    /// Every transaction failed, or no account changed.
    InvalidTransactions,
    /// Validation needs at least two blocks.
    ChainTooShort,
    /// No nonce below `u64::MAX` meets the difficulty.
    SealingFailed,
}

pub open spec fn error_text(e: BlockchainError) -> Seq<char> {
    match e {
        BlockchainError::InvalidTransactions => "Invalid transactions. No change in chain"@,
        BlockchainError::ChainTooShort => "Chain is too short"@,
        BlockchainError::SealingFailed => "No nonce meets the difficulty"@,
    }
}

impl BlockchainError {
    /// The message that describes the error.
    pub fn message(&self) -> (r: String)
        ensures
            r@ == error_text(*self),
    {
        match self {
            BlockchainError::InvalidTransactions => {
                "Invalid transactions. No change in chain".to_owned()
            },
            BlockchainError::ChainTooShort => "Chain is too short".to_owned(),
            BlockchainError::SealingFailed => "No nonce meets the difficulty".to_owned(),
        }
    }
}

/// What mining a batch may return: the batch rejected when every transaction
/// failed or no account changed; otherwise the chain with one block sealed from
/// the reconciled accounts, and the errors of the failed transactions.
pub open spec fn mine_result(
    chain: Seq<Block>,
    network: Seq<String>,
    transactions: Seq<Transaction>,
    r: Result<(Chain, Vec<String>), BlockchainError>,
) -> bool {
    let cv = chain_view(chain);
    let outcome = batch_outcome(cv, transactions_view(transactions));
    let rejected = outcome.1.len() == transactions.len() || outcome.0.len() == 0;
    match r {
        Ok((c, e)) => {
            &&& !rejected
            &&& strings_view(e@) == outcome.1
            &&& c@.len() == chain.len() + 1
            &&& seal_outcome(chain, c@, outcome.0, strings_view(network), DIFFICULTY_PREFIX@)
        },
        Err(BlockchainError::InvalidTransactions) => rejected,
        Err(BlockchainError::SealingFailed) => {
            &&& !rejected
            &&& unsealable(cv, outcome.0, strings_view(network), DIFFICULTY_PREFIX@)
        },
        Err(BlockchainError::ChainTooShort) => false,
    }
}

/// Applies the batch's transactions and seals the changed accounts into a new block.
pub fn mine_block(node_state: NodeState) -> (r: Result<(Chain, Vec<String>), BlockchainError>)
    ensures
        mine_result(node_state.chain@, node_state.network@, node_state.transactions@, r),
{
    let NodeState { chain, network, transactions } = node_state;
    let ghost before = chain@;
    let (accounts, errors) = apply_transactions(&chain, &transactions);
    if errors.len() == transactions.len() || accounts.len() == 0 {
        return Err(BlockchainError::InvalidTransactions);
    }
    let mut chain = chain;
    let length = chain.len();
    chain.mine_block(accounts, network);
    if chain.len() == length {
        return Err(BlockchainError::SealingFailed);
    }
    Ok((chain, errors))
}

/// The validation of a chain: its last block checked against the one before.
pub open spec fn chain_validation(chain: Seq<BlockView>) -> Result<bool, BlockchainError> {
    if chain.len() < 2 {
        Err(BlockchainError::ChainTooShort)
    } else {
        Ok(links_to(chain.last(), chain[chain.len() - 2], DIFFICULTY_PREFIX@))
    }
}

/// Checks the last block of the chain against its predecessor.
pub fn validate_block(chain: &Chain) -> (r: Result<bool, BlockchainError>)
    ensures
        r == chain_validation(chain_view(chain@)),
{
    let n = chain.len();
    if n < 2 {
        return Err(BlockchainError::ChainTooShort);
    }
    Ok(Account::validate_block(&chain[n - 1], &chain[n - 2]))
}

/// Starts a chain: a fresh account at `address` sealed into block 0, with the
/// network made of that address alone.
pub fn initialise_chain(address: String) -> (r: Result<Chain, BlockchainError>)
    ensures
        match r {
            Ok(c) => c@.len() == 1 && seal_outcome(
                Seq::empty(),
                c@,
                seq![AccountView::fresh(address@)],
                seq![address@],
                DIFFICULTY_PREFIX@,
            ),
            Err(e) => e == BlockchainError::SealingFailed && unsealable(
                Seq::empty(),
                seq![AccountView::fresh(address@)],
                seq![address@],
                DIFFICULTY_PREFIX@,
            ),
        },
{
    let mut chain: Chain = Chain::new();
    let genesis = Account::new(address.as_str());
    let data = vec![genesis];
    let network = vec![address];
    assert(accounts_view(data@) =~= seq![AccountView::fresh(address@)]);
    assert(strings_view(network@) =~= seq![address@]);
    assert(chain_view(chain@) =~= Seq::<BlockView>::empty());
    chain.mine_block(data, network);
    if chain.len() == 0 {
        return Err(BlockchainError::SealingFailed);
    }
    Ok(chain)
}

} // verus!
