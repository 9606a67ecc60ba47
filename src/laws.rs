//! Properties that hold of the ledger as a whole, stated over the same spec
//! functions as the contracts of the operations they speak of.

use vstd::prelude::*;

use crate::account::AccountView;
use crate::block::{links_to, Block, BlockView};
use crate::chain::{chain_view, last_hash, seal_outcome, sealed_onto};
use crate::ledger::{apply_tx, lemma_position, position, with_staked, BatchState, TransactionView};
use crate::sealer::DIFFICULTY_PREFIX;
use crate::selection::{draw_bound_of, first_above, pick_index, total};
use crate::{chain_validation, BlockchainError};

verus! {

/// A `Stake` or `Unstake` applied to an account of the batch moves its stake by
/// one when its guard passes and not at all otherwise, so the stake never goes
/// below zero, and it leaves the balance alone. A `Stake` that passes its guard
/// leaves the stake no larger than the balance; either event keeps a stake that
/// was within the balance within it. An `Unstake` does not bring back within the
/// balance a stake that a transfer left above it.
pub proof fn lemma_staking_within_balance(
    chain: Seq<BlockView>,
    st: BatchState,
    tx: TransactionView,
)
    requires
        tx.event is Stake || tx.event is Unstake,
        position(st.before, tx.address) is Some,
    ensures
        ({
            let i = position(st.before, tx.address)->0;
            let old_account = st.before[i];
            let new_account = apply_tx(chain, st, tx).before[i];
            let step: int = if tx.event is Stake {
                if old_account.can_stake() {
                    1
                } else {
                    0
                }
            } else if old_account.can_unstake() {
                -1
            } else {
                0
            };
            &&& new_account.staked == old_account.staked + step
            &&& new_account.tokens == old_account.tokens
            &&& tx.event is Stake && old_account.can_stake() ==> new_account.staked
                <= new_account.tokens
            &&& old_account.staked <= old_account.tokens ==> new_account.staked
                <= new_account.tokens
        }),
{
    lemma_position(st.before, tx.address);
    let i = position(st.before, tx.address)->0;
    let node = st.before[i];
    let next = apply_tx(chain, st, tx);
    if tx.event is Stake {
        if node.can_stake() {
            assert(next.before == st.before.update(i, with_staked(node, node.staked + 1)));
        } else {
            assert(next.before == st.before);
        }
    } else {
        if node.can_unstake() {
            assert(next.before == st.before.update(i, with_staked(node, node.staked - 1)));
        } else {
            assert(next.before == st.before);
        }
    }
}

/// Validation is a function of the chain: validating the same chain twice gives
/// the same result.
pub proof fn lemma_validation_repeatable(
    chain: Seq<Block>,
    first: Result<bool, BlockchainError>,
    second: Result<bool, BlockchainError>,
)
    requires
        first == chain_validation(chain_view(chain)),
        second == chain_validation(chain_view(chain)),
    ensures
        first == second,
{
}

/// A block sealed onto a chain whose last id is its length minus one validates
/// against its predecessor; under the default difficulty, validating the
/// extended chain returns `true`.
pub proof fn lemma_sealed_block_validates(
    before: Seq<Block>,
    after: Seq<Block>,
    data: Seq<AccountView>,
    network: Seq<Seq<char>>,
    prefix: Seq<char>,
)
    requires
        before.len() >= 1,
        before.last().id == before.len() - 1,
        after.len() == before.len() + 1,
        seal_outcome(before, after, data, network, prefix),
    ensures
        links_to(after.last()@, after[after.len() - 2]@, prefix),
        prefix == DIFFICULTY_PREFIX@ ==> chain_validation(chain_view(after))
            == Ok::<bool, BlockchainError>(true),
{
    let cv = chain_view(before);
    assert(after.take(before.len() as int) == before);
    assert(after[after.len() - 2] == before.last());
    assert(cv.last() == before.last()@);
    assert(last_hash(cv) == before.last()@.hash);
    assert(sealed_onto(cv, data, network, prefix, after.last()@));
    let av = chain_view(after);
    assert(av.last() == after.last()@);
    assert(av[av.len() - 2] == after[after.len() - 2]@);
}

pub proof fn lemma_total_front(ws: Seq<u64>)
    requires
        ws.len() > 0,
    ensures
        total(ws) == ws[0] + total(ws.subrange(1, ws.len() as int)),
    decreases ws.len(),
{
    let rest = ws.subrange(1, ws.len() as int);
    if ws.len() > 1 {
        lemma_total_front(ws.drop_last());
        assert(ws.drop_last().subrange(1, ws.len() - 1) =~= rest.drop_last());
        assert(rest.last() == ws.last());
        assert(ws.drop_last()[0] == ws[0]);
    } else {
        assert(ws.drop_last() =~= Seq::<u64>::empty());
        assert(rest =~= Seq::<u64>::empty());
    }
}

/// With positive total weight, draw `d` selects candidate `i` exactly when `d`
/// lies in `[total of the first i weights, total of the first i + 1 weights)`.
/// The draws that select a candidate thus number its weight, so uniform draws
/// below the total select each candidate in proportion to its stake.
pub proof fn lemma_draw_selects_interval(ws: Seq<u64>, i: int, d: int)
    requires
        total(ws) > 0,
        0 <= i < ws.len(),
        0 <= d < total(ws),
    ensures
        pick_index(ws, d) == i <==> total(ws.take(i)) <= d < total(ws.take(i + 1)),
{
    lemma_first_above_interval(ws, i, d);
}

proof fn lemma_first_above_interval(ws: Seq<u64>, i: int, d: int)
    requires
        0 <= i < ws.len(),
        0 <= d,
    ensures
        first_above(ws, d) == i <==> total(ws.take(i)) <= d < total(ws.take(i + 1)),
    decreases ws.len(),
{
    let rest = ws.subrange(1, ws.len() as int);
    lemma_total_front(ws.take(i + 1));
    assert(ws.take(i + 1).subrange(1, i + 1) =~= rest.take(i));
    assert(ws.take(i + 1)[0] == ws[0]);
    lemma_first_above_nonnegative(rest, d - ws[0]);
    if i > 0 {
        lemma_total_front(ws.take(i));
        assert(ws.take(i).subrange(1, i) =~= rest.take(i - 1));
        assert(ws.take(i)[0] == ws[0]);
        crate::selection::lemma_total_prefix(rest, i - 1);
        if d >= ws[0] {
            lemma_first_above_interval(rest, i - 1, d - ws[0]);
        }
    } else {
        assert(ws.take(0) =~= Seq::<u64>::empty());
        assert(rest.take(0) =~= Seq::<u64>::empty());
    }
}

proof fn lemma_first_above_nonnegative(ws: Seq<u64>, d: int)
    ensures
        first_above(ws, d) >= 0,
    decreases ws.len(),
{
    if ws.len() > 0 && d >= ws[0] {
        lemma_first_above_nonnegative(ws.subrange(1, ws.len() as int), d - ws[0]);
    }
}

/// When every candidate has zero stake, draws are taken below the number of
/// candidates and each draw selects the candidate at its own index: a uniform choice.
pub proof fn lemma_zero_stake_uniform(ws: Seq<u64>, d: int)
    requires
        forall|k: int| 0 <= k < ws.len() ==> ws[k] == 0,
        0 <= d < ws.len(),
    ensures
        total(ws) == 0,
        draw_bound_of(ws) == ws.len(),
        pick_index(ws, d) == d,
{
    lemma_total_zero(ws);
}

proof fn lemma_total_zero(ws: Seq<u64>)
    requires
        forall|k: int| 0 <= k < ws.len() ==> ws[k] == 0,
    ensures
        total(ws) == 0,
    decreases ws.len(),
{
    if ws.len() > 0 {
        lemma_total_zero(ws.drop_last());
    }
}

} // verus!
