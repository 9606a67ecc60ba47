//! Stake-weighted selection: candidates sorted by stake, one integer draw
//! below the total stake, and the first candidate whose cumulative stake
//! exceeds the draw. With no stake at all, the draw is below the number of
//! candidates and picks one of them uniformly.

use vstd::prelude::*;

use crate::account::{Account, AccountView};
use crate::block::accounts_view;

verus! {

pub open spec fn weights_of(accounts: Seq<AccountView>) -> Seq<u64> {
    accounts.map_values(|a: AccountView| a.staked)
}

/// Sum of the weights.
pub open spec fn total(ws: Seq<u64>) -> int
    decreases ws.len(),
{
    if ws.len() == 0 {
        0
    } else {
        total(ws.drop_last()) + ws.last()
    }
}

/// Draws are taken below this bound: the total weight, or, when it is zero,
/// the number of candidates.
pub open spec fn draw_bound_of(ws: Seq<u64>) -> int {
    if total(ws) > 0 {
        total(ws)
    } else {
        ws.len() as int
    }
}

/// The first index whose cumulative weight exceeds `draw`.
pub open spec fn first_above(ws: Seq<u64>, draw: int) -> int
    decreases ws.len(),
{
    if ws.len() == 0 {
        0
    } else if draw < ws[0] {
        0
    } else {
        1 + first_above(ws.subrange(1, ws.len() as int), draw - ws[0])
    }
}

/// The candidate that `draw` selects: by cumulative weight, or, with zero
/// total weight, the draw itself as an index.
pub open spec fn pick_index(ws: Seq<u64>, draw: int) -> int {
    if total(ws) > 0 {
        first_above(ws, draw)
    } else {
        draw
    }
}

/// Where an account of weight `w` goes in a list sorted by weight: after every
/// account of weight at most `w` at its front.
pub open spec fn insert_position(sorted: Seq<AccountView>, w: u64) -> int
    decreases sorted.len(),
{
    if sorted.len() == 0 {
        0
    } else if sorted[0].staked <= w {
        1 + insert_position(sorted.subrange(1, sorted.len() as int), w)
    } else {
        0
    }
}

/// The accounts sorted by ascending stake; accounts of equal stake keep their order.
pub open spec fn stake_sorted(accounts: Seq<AccountView>) -> Seq<AccountView>
    decreases accounts.len(),
{
    if accounts.len() == 0 {
        accounts
    } else {
        let rest = stake_sorted(accounts.drop_last());
        rest.insert(insert_position(rest, accounts.last().staked), accounts.last())
    }
}

pub proof fn lemma_total_prefix(ws: Seq<u64>, i: int)
    requires
        0 <= i <= ws.len(),
    ensures
        0 <= total(ws.take(i)) <= total(ws),
        total(ws) <= ws.len() * 0xffff_ffff_ffff_ffff,
    decreases ws.len(),
{
    if ws.len() > 0 {
        if i == ws.len() {
            assert(ws.take(i) =~= ws);
            lemma_total_prefix(ws.drop_last(), i - 1);
        } else {
            assert(ws.take(i) =~= ws.drop_last().take(i));
            lemma_total_prefix(ws.drop_last(), i);
        }
    }
}

/// The sum of the accounts' stakes.
pub fn total_stake(accounts: &Vec<Account>) -> (r: u128)
    ensures
        r == total(weights_of(accounts_view(accounts@))),
{
    let ghost ws = weights_of(accounts_view(accounts@));
    let mut sum: u128 = 0;
    let mut i: usize = 0;
    while i < accounts.len()
        invariant
            i <= accounts@.len(),
            ws == weights_of(accounts_view(accounts@)),
            sum == total(ws.take(i as int)),
        decreases accounts@.len() - i,
    {
        assert(ws.take(i as int + 1).drop_last() =~= ws.take(i as int));
        proof {
            lemma_total_prefix(ws, i as int + 1);
            lemma_total_prefix(ws.take(i as int + 1), i as int + 1);
            assert(ws.take(i as int + 1).take(i as int + 1) =~= ws.take(i as int + 1));
            let n = i as int + 1;
            assert(n * 0xffff_ffff_ffff_ffff <= 0x1_0000_0000_0000_0000 * 0xffff_ffff_ffff_ffff)
                by (nonlinear_arith)
                requires
                    n <= 0x1_0000_0000_0000_0000,
            ;
        }
        sum = sum + accounts[i].staked as u128;
        i = i + 1;
    }
    assert(ws.take(i as int) =~= ws);
    sum
}

/// The bound below which a draw over these candidates is taken.
pub fn draw_bound(accounts: &Vec<Account>) -> (r: u128)
    ensures
        r == draw_bound_of(weights_of(accounts_view(accounts@))),
{
    let t = total_stake(accounts);
    if t > 0 {
        t
    } else {
        accounts.len() as u128
    }
}

/// The index of the candidate that `draw` selects.
pub fn select_index(accounts: &Vec<Account>, draw: u128) -> (r: usize)
    requires
        accounts@.len() > 0,
        draw < draw_bound_of(weights_of(accounts_view(accounts@))),
    ensures
        r == pick_index(weights_of(accounts_view(accounts@)), draw as int),
        r < accounts@.len(),
{
    let ghost ws = weights_of(accounts_view(accounts@));
    assert(ws.len() == accounts@.len());
    let t = total_stake(accounts);
    if t == 0 {
        let n = accounts.len();
        assert(draw < n);
        return draw as usize;
    }
    let mut i: usize = 0;
    let mut cumulative: u128 = 0;
    assert(ws.subrange(0, ws.len() as int) =~= ws);
    assert(ws.take(0) =~= Seq::<u64>::empty());
    while i < accounts.len()
        invariant_except_break
            i <= accounts@.len(),
            ws == weights_of(accounts_view(accounts@)),
            t == total(ws),
            draw < t,
            cumulative == total(ws.take(i as int)),
            cumulative <= draw,
            i == accounts@.len() ==> cumulative == t,
            first_above(ws, draw as int) == i + first_above(
                ws.subrange(i as int, ws.len() as int),
                draw - cumulative,
            ),
        ensures
            i < accounts@.len(),
            first_above(ws, draw as int) == i,
        decreases accounts@.len() - i,
    {
        proof {
            lemma_total_prefix(ws, i as int + 1);
            assert(ws.take(i as int + 1).drop_last() =~= ws.take(i as int));
            let rest = ws.subrange(i as int, ws.len() as int);
            assert(rest.subrange(1, rest.len() as int) =~= ws.subrange(
                i as int + 1,
                ws.len() as int,
            ));
        }
        let next = cumulative + accounts[i].staked as u128;
        if next > draw {
            break;
        }
        cumulative = next;
        i = i + 1;
        if i == accounts.len() {
            assert(ws.take(i as int) =~= ws);
        }
    }
    i
}

/// Sorts the candidates by ascending stake, keeping the order of equal stakes.
pub fn sort_by_stake(accounts: &Vec<Account>) -> (r: Vec<Account>)
    ensures
        accounts_view(r@) == stake_sorted(accounts_view(accounts@)),
{
    let ghost whole = accounts_view(accounts@);
    let mut sorted: Vec<Account> = Vec::new();
    let mut i: usize = 0;
    assert(whole.take(0) =~= Seq::<AccountView>::empty());
    assert(accounts_view(sorted@) =~= Seq::<AccountView>::empty());
    while i < accounts.len()
        invariant
            i <= accounts@.len(),
            whole == accounts_view(accounts@),
            accounts_view(sorted@) == stake_sorted(whole.take(i as int)),
        decreases accounts@.len() - i,
    {
        let w = accounts[i].staked;
        let ghost sv = accounts_view(sorted@);
        let mut p: usize = 0;
        assert(sv.subrange(0, sv.len() as int) =~= sv);
        while p < sorted.len() && sorted[p].staked <= w
            invariant
                p <= sorted@.len(),
                sv == accounts_view(sorted@),
                insert_position(sv, w) == p + insert_position(
                    sv.subrange(p as int, sv.len() as int),
                    w,
                ),
            decreases sorted@.len() - p,
        {
            proof {
                let rest = sv.subrange(p as int, sv.len() as int);
                let tail = sv.subrange(p as int + 1, sv.len() as int);
                assert(rest.subrange(1, rest.len() as int) =~= tail);
            }
            p = p + 1;
        }
        sorted.insert(p, accounts[i].clone());
        proof {
            let t = whole.take(i as int + 1);
            assert(t.drop_last() =~= whole.take(i as int));
            assert(t.last() == accounts@[i as int]@);
            assert(accounts_view(sorted@) =~= sv.insert(p as int, accounts@[i as int]@));
        }
        i = i + 1;
    }
    assert(whole.take(i as int) =~= whole);
    sorted
}

} // verus!
