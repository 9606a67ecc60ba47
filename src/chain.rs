//! The chain: an append-only sequence of blocks, how the current state of an
//! account is read from it, and how the next block is sealed onto it.

use rand::Rng;
use vstd::prelude::*;

use crate::account::{Account, AccountView};
use crate::block::{accounts_view, strings_view, Block, BlockView};
use crate::digest::fields_hash_text;
use crate::sealer::{meets_difficulty, search_nonce, DIFFICULTY_PREFIX};
use crate::selection::{
    draw_bound, draw_bound_of, pick_index, select_index, sort_by_stake, stake_sorted, weights_of,
};

verus! {

/// The chain: blocks in the order they were sealed.
pub type Chain = Vec<Block>;

pub open spec fn chain_view(chain: Seq<Block>) -> Seq<BlockView> {
    chain.map_values(|b: Block| b@)
}

/// The first account of `data` at `address`.
pub open spec fn find_in(data: Seq<AccountView>, address: Seq<char>) -> Option<AccountView>
    decreases data.len(),
{
    if data.len() == 0 {
        None
    } else {
        match find_in(data.drop_last(), address) {
            Some(a) => Some(a),
            None => if data.last().address == address {
                Some(data.last())
            } else {
                None
            },
        }
    }
}

/// The current state of the account at `address`: its copy in the newest block
/// that holds one.
pub open spec fn resolve(chain: Seq<BlockView>, address: Seq<char>) -> Option<AccountView>
    decreases chain.len(),
{
    if chain.len() == 0 {
        None
    } else {
        match find_in(chain.last().data, address) {
            Some(a) => Some(a),
            None => resolve(chain.drop_last(), address),
        }
    }
}

pub open spec fn refs_view(accounts: Seq<&Account>) -> Seq<AccountView> {
    accounts.map_values(|a: &Account| a@)
}

pub open spec fn has_address(accounts: Seq<AccountView>, address: Seq<char>) -> bool {
    exists|k: int| 0 <= k < accounts.len() && #[trigger] accounts[k].address == address
}

/// `seen` followed by each account of `data` whose address is not listed yet.
pub open spec fn add_unseen(seen: Seq<AccountView>, data: Seq<AccountView>) -> Seq<AccountView>
    decreases data.len(),
{
    if data.len() == 0 {
        seen
    } else {
        let before = add_unseen(seen, data.drop_last());
        if has_address(before, data.last().address) {
            before
        } else {
            before.push(data.last())
        }
    }
}

/// `seen` followed by the accounts of `chain` not listed yet, newest block first.
pub open spec fn gather(seen: Seq<AccountView>, chain: Seq<BlockView>) -> Seq<AccountView>
    decreases chain.len(),
{
    if chain.len() == 0 {
        seen
    } else {
        gather(add_unseen(seen, chain.last().data), chain.drop_last())
    }
}

/// Every account of the chain once, in its newest state, newest block first.
pub open spec fn resolved_accounts(chain: Seq<BlockView>) -> Seq<AccountView> {
    gather(Seq::empty(), chain)
}

fn find_in_block<'a>(data: &'a Vec<Account>, address: &String) -> (r: Option<&'a Account>)
    ensures
        match r {
            Some(a) => find_in(accounts_view(data@), address@) == Some(a@),
            None => find_in(accounts_view(data@), address@) is None,
        },
{
    let ghost whole = accounts_view(data@);
    let mut found: Option<&Account> = None;
    let mut j: usize = 0;
    while j < data.len()
        invariant
            j <= data@.len(),
            whole == accounts_view(data@),
            match found {
                Some(a) => find_in(whole.take(j as int), address@) == Some(a@),
                None => find_in(whole.take(j as int), address@) is None,
            },
        decreases data@.len() - j,
    {
        assert(whole.take(j as int + 1).drop_last() =~= whole.take(j as int));
        if found.is_none() && data[j].address == *address {
            found = Some(&data[j]);
        }
        j = j + 1;
    }
    assert(whole.take(j as int) =~= whole);
    found
}

fn contains_address(accounts: &Vec<&Account>, address: &String) -> (r: bool)
    ensures
        r == has_address(accounts@.map_values(|a: &Account| a@), address@),
{
    let ghost view = accounts@.map_values(|a: &Account| a@);
    let mut k: usize = 0;
    while k < accounts.len()
        invariant
            k <= accounts@.len(),
            view == accounts@.map_values(|a: &Account| a@),
            forall|m: int| 0 <= m < k ==> view[m].address != address@,
        decreases accounts@.len() - k,
    {
        if accounts[k].address == *address {
            assert(view[k as int].address == address@);
            return true;
        }
        k = k + 1;
    }
    false
}

/// Relies on `rand::Rng::gen_range` over `rand::thread_rng()`: a value drawn from `0..bound`.
#[verifier::external_body]
fn random_below(bound: u128) -> (r: u128)
    requires
        bound > 0,
    ensures
        r < bound,
{
    rand::thread_rng().gen_range(0..bound)
}

/// Relies on `chrono::Utc::now`: the current time in whole seconds since the Unix epoch.
#[verifier::external_body]
fn now_seconds() -> (r: u64) {
    chrono::Utc::now().timestamp() as u64
}

/// The producer named when the chain holds no account.
pub const DEFAULT_MINER: &'static str = "Camper";

/// The candidates of a draw: the chain's accounts sorted by ascending stake.
pub open spec fn candidates(chain: Seq<BlockView>) -> Seq<AccountView> {
    stake_sorted(resolved_accounts(chain))
}

/// The address that `draw` selects among the candidates.
pub open spec fn drawn_address(cands: Seq<AccountView>, draw: int) -> Seq<char> {
    cands[pick_index(weights_of(cands), draw)].address
}

/// `address` is what some admissible draw selects among the candidates.
pub open spec fn drawable(cands: Seq<AccountView>, address: Seq<char>) -> bool {
    exists|d: int|
        0 <= d < draw_bound_of(weights_of(cands)) && #[trigger] drawn_address(cands, d) == address
}

/// `miner` is a possible outcome of drawing the next producer on `chain`.
pub open spec fn possible_miner(chain: Seq<BlockView>, miner: Seq<char>) -> bool {
    if candidates(chain).len() == 0 {
        miner == DEFAULT_MINER@
    } else {
        drawable(candidates(chain), miner)
    }
}

/// The largest stake among the accounts, or zero.
pub open spec fn max_stake(accounts: Seq<AccountView>) -> u64
    decreases accounts.len(),
{
    if accounts.len() == 0 {
        0
    } else {
        let m = max_stake(accounts.drop_last());
        if accounts.last().staked > m {
            accounts.last().staked
        } else {
            m
        }
    }
}

/// How many validators the next block needs: one more than the producer's stake
/// lies below the largest stake, but no more than the network has members.
pub open spec fn validator_count(chain: Seq<BlockView>, miner: Seq<char>, network_len: int) -> int {
    let miner_staked = match resolve(chain, miner) {
        Some(a) => a.staked,
        None => 0,
    };
    let top = max_stake(resolved_accounts(chain));
    let raw = if top >= miner_staked {
        top - miner_staked
    } else {
        0
    };
    if raw > network_len {
        network_len
    } else {
        raw + 1
    }
}

/// The validator named when the chain holds no account: the first network
/// member, or the default producer when the network is empty too.
pub open spec fn fallback_validator(network: Seq<Seq<char>>) -> Seq<char> {
    if network.len() > 0 {
        network[0]
    } else {
        DEFAULT_MINER@
    }
}

/// `validators` is a possible outcome of drawing the validators of the next block.
pub open spec fn possible_validators(
    chain: Seq<BlockView>,
    miner: Seq<char>,
    network: Seq<Seq<char>>,
    validators: Seq<Seq<char>>,
) -> bool {
    &&& validators.len() == validator_count(chain, miner, network.len() as int)
    &&& forall|k: int|
        0 <= k < validators.len() ==> if candidates(chain).len() == 0 {
            #[trigger] validators[k] == fallback_validator(network)
        } else {
            drawable(candidates(chain), validators[k])
        }
}

/// No nonce below `u64::MAX` seals these fields.
pub open spec fn no_nonce_meets(
    id: u64,
    previous_hash: Seq<char>,
    data: Seq<AccountView>,
    timestamp: u64,
    miner: Seq<char>,
    validators: Seq<Seq<char>>,
    prefix: Seq<char>,
) -> bool {
    forall|k: u64|
        k < u64::MAX ==> !meets_difficulty(
            #[trigger] fields_hash_text(id, previous_hash, data, timestamp, k, miner, validators),
            prefix,
        )
}

pub open spec fn last_hash(chain: Seq<BlockView>) -> Seq<char> {
    if chain.len() == 0 {
        Seq::empty()
    } else {
        chain.last().hash
    }
}

/// `block` is a block that sealing `data` onto `before` may produce: the next id,
/// linked to the last hash, producer and validators drawn from the chain, and the
/// first nonce whose hash text meets the difficulty.
pub open spec fn sealed_onto(
    before: Seq<BlockView>,
    data: Seq<AccountView>,
    network: Seq<Seq<char>>,
    prefix: Seq<char>,
    block: BlockView,
) -> bool {
    &&& block.id == before.len()
    &&& block.previous_hash == last_hash(before)
    &&& block.data == data
    &&& possible_miner(before, block.next_miner)
    &&& possible_validators(before, block.next_miner, network, block.next_validators)
    &&& block.hash == block.computed_hash()
    &&& meets_difficulty(block.hash, prefix)
    &&& forall|k: u64|
        k < block.nonce ==> !meets_difficulty(
            #[trigger] fields_hash_text(
                block.id,
                block.previous_hash,
                block.data,
                block.timestamp,
                k,
                block.next_miner,
                block.next_validators,
            ),
            prefix,
        )
}

/// Sealing `data` onto `before` may find no nonce at all: for some admissible
/// producer, validators and time, every nonce below `u64::MAX` misses the difficulty.
pub open spec fn unsealable(
    before: Seq<BlockView>,
    data: Seq<AccountView>,
    network: Seq<Seq<char>>,
    prefix: Seq<char>,
) -> bool {
    exists|t: u64, m: Seq<char>, vs: Seq<Seq<char>>|
        #[trigger] no_nonce_meets(before.len() as u64, last_hash(before), data, t, m, vs, prefix)
            && possible_miner(before, m) && possible_validators(before, m, network, vs)
}

/// The outcome of sealing `data` onto `before`: one sealed block appended, or
/// the chain unchanged because no nonce meets the difficulty.
pub open spec fn seal_outcome(
    before: Seq<Block>,
    after: Seq<Block>,
    data: Seq<AccountView>,
    network: Seq<Seq<char>>,
    prefix: Seq<char>,
) -> bool {
    ||| {
        &&& after.len() == before.len() + 1
        &&& after.take(before.len() as int) == before
        &&& sealed_onto(chain_view(before), data, network, prefix, after.last()@)
    }
    ||| {
        &&& after == before
        &&& unsealable(chain_view(before), data, network, prefix)
    }
}

fn owned_accounts(refs: &Vec<&Account>) -> (r: Vec<Account>)
    ensures
        accounts_view(r@) == refs_view(refs@),
{
    let mut out: Vec<Account> = Vec::new();
    let mut i: usize = 0;
    while i < refs.len()
        invariant
            i <= refs@.len(),
            out@.len() == i,
            accounts_view(out@) == refs_view(refs@).take(i as int),
        decreases refs@.len() - i,
    {
        out.push(refs[i].clone());
        assert(accounts_view(out@) =~= refs_view(refs@).take(i as int + 1));
        i = i + 1;
    }
    assert(refs_view(refs@).take(i as int) =~= refs_view(refs@));
    out
}

/// Seals `data` onto `chain` under the given difficulty: draws the producer and
/// the validators, reads the time, and searches the nonces from zero.
pub fn seal_block(
    chain: &mut Chain,
    data: Vec<Account>,
    network: Vec<String>,
    difficulty_prefix: &str,
)
    ensures
        seal_outcome(
            old(chain)@,
            final(chain)@,
            accounts_view(data@),
            strings_view(network@),
            difficulty_prefix@,
        ),
{
    let id = chain.len() as u64;
    let next_miner = chain.get_next_miner();
    let next_validators = chain.get_next_validators(&next_miner, network);
    let previous_hash = if chain.len() == 0 {
        String::new()
    } else {
        chain[chain.len() - 1].hash.clone()
    };
    let timestamp = now_seconds();
    let found = search_nonce(
        &data,
        id,
        next_miner.as_str(),
        &next_validators,
        previous_hash.as_str(),
        timestamp,
        difficulty_prefix,
        0,
        u64::MAX,
    );
    match found {
        Some((nonce, hash)) => {
            let block = Block {
                id,
                hash,
                previous_hash,
                timestamp,
                data,
                nonce,
                next_miner,
                next_validators,
            };
            let ghost before = chain@;
            chain.push(block);
            assert(chain@.take(before.len() as int) =~= before);
        },
        None => {
            let ghost cv = chain_view(chain@);
            assert(no_nonce_meets(
                cv.len() as u64,
                last_hash(cv),
                accounts_view(data@),
                timestamp,
                next_miner@,
                strings_view(next_validators@),
                difficulty_prefix@,
            ));
        },
    }
}

/// Behaviour that a chain offers.
pub trait ChainTrait: Sized {
    /// Creates an empty chain.
    fn new() -> Self;

    /// The newest block, if there is one.
    fn get_last_block(&self) -> Option<Block>;

    /// Draws the producer of the next block, weighted by stake.
    fn get_next_miner(&self) -> String;

    /// Draws the validators of the next block, weighted by stake.
    fn get_next_validators(&self, next_miner: &String, network: Vec<String>) -> Vec<String>;

    /// The current state of the account at `name`, if the chain holds one.
    fn get_account_by_address(&self, name: &str) -> Option<&Account>;

    /// Every account of the chain once, in its current state.
    fn get_accounts(&self) -> Vec<&Account>;

    /// Seals `data` into a new block on the chain.
    fn mine_block(&mut self, data: Vec<Account>, network: Vec<String>);
}

impl ChainTrait for Chain {
    fn new() -> (r: Chain)
        ensures
            r@.len() == 0,
    {
        Vec::new()
    }

    fn get_last_block(&self) -> (r: Option<Block>)
        ensures
            self@.len() == 0 ==> r is None,
            self@.len() > 0 ==> r is Some && r->0@ == self@.last()@,
    {
        if self.len() == 0 {
            None
        } else {
            Some(self[self.len() - 1].clone())
        }
    }

    fn get_next_miner(&self) -> (r: String)
        ensures
            possible_miner(chain_view(self@), r@),
    {
        let nodes = owned_accounts(&self.get_accounts());
        let sorted = sort_by_stake(&nodes);
        if sorted.len() == 0 {
            return DEFAULT_MINER.to_owned();
        }
        let draw = random_below(draw_bound(&sorted));
        let index = select_index(&sorted, draw);
        let ghost cands = candidates(chain_view(self@));
        assert(drawn_address(cands, draw as int) == sorted@[index as int]@.address);
        sorted[index].address.clone()
    }

    fn get_next_validators(&self, next_miner: &String, network: Vec<String>) -> (r: Vec<String>)
        ensures
            possible_validators(
                chain_view(self@),
                next_miner@,
                strings_view(network@),
                strings_view(r@),
            ),
    {
        let ghost cv = chain_view(self@);
        let ghost nv = strings_view(network@);
        let miner_staked = match self.get_account_by_address(next_miner.as_str()) {
            Some(node) => node.staked,
            None => 0,
        };
        let nodes = owned_accounts(&self.get_accounts());
        let mut max_staked: u64 = 0;
        let mut i: usize = 0;
        while i < nodes.len()
            invariant
                i <= nodes@.len(),
                max_staked == max_stake(accounts_view(nodes@).take(i as int)),
            decreases nodes@.len() - i,
        {
            let ghost nv = accounts_view(nodes@);
            assert(nv.take(i as int + 1).drop_last() =~= nv.take(i as int));
            if nodes[i].staked > max_staked {
                max_staked = nodes[i].staked;
            }
            i = i + 1;
        }
        assert(accounts_view(nodes@).take(i as int) =~= accounts_view(nodes@));
        let raw: u64 = if max_staked >= miner_staked { max_staked - miner_staked } else { 0 };
        let count: u128 = if raw as u128 > network.len() as u128 {
            network.len() as u128
        } else {
            raw as u128 + 1
        };
        let sorted = sort_by_stake(&nodes);
        let mut next_validators: Vec<String> = Vec::new();
        let mut k: u128 = 0;
        while k < count
            invariant
                k <= count,
                count == validator_count(cv, next_miner@, nv.len() as int),
                accounts_view(sorted@) == candidates(cv),
                nv == strings_view(network@),
                next_validators@.len() == k,
                forall|j: int|
                    0 <= j < k ==> if candidates(cv).len() == 0 {
                        #[trigger] next_validators@[j]@ == fallback_validator(nv)
                    } else {
                        drawable(candidates(cv), next_validators@[j]@)
                    },
            decreases count - k,
        {
            if sorted.len() == 0 {
                if network.len() > 0 {
                    next_validators.push(network[0].clone());
                } else {
                    next_validators.push(DEFAULT_MINER.to_owned());
                }
            } else {
                let draw = random_below(draw_bound(&sorted));
                let index = select_index(&sorted, draw);
                let ghost picked = sorted@[index as int]@.address;
                assert(drawn_address(candidates(cv), draw as int) == picked);
                next_validators.push(sorted[index].address.clone());
            }
            k = k + 1;
        }
        assert(possible_validators(cv, next_miner@, nv, strings_view(next_validators@)));
        next_validators
    }

    fn get_account_by_address(&self, name: &str) -> (r: Option<&Account>)
        ensures
            match r {
                Some(a) => resolve(chain_view(self@), name@) == Some(a@),
                None => resolve(chain_view(self@), name@) is None,
            },
    {
        let key = name.to_owned();
        let ghost cv = chain_view(self@);
        let mut i: usize = self.len();
        assert(cv.take(i as int) =~= cv);
        while i > 0
            invariant
                i <= self@.len(),
                cv == chain_view(self@),
                key@ == name@,
                resolve(cv, name@) == resolve(cv.take(i as int), name@),
            decreases i,
        {
            let ghost prefix = cv.take(i as int);
            assert(prefix.drop_last() =~= cv.take(i as int - 1));
            assert(prefix.last() == self@[i as int - 1]@);
            match find_in_block(&self[i - 1].data, &key) {
                Some(a) => {
                    return Some(a);
                },
                None => {},
            }
            i = i - 1;
        }
        assert(cv.take(0) =~= Seq::<BlockView>::empty());
        None
    }

    fn get_accounts(&self) -> (r: Vec<&Account>)
        ensures
            refs_view(r@) == resolved_accounts(chain_view(self@)),
    {
        let ghost cv = chain_view(self@);
        let mut nodes: Vec<&Account> = Vec::new();
        let mut i: usize = self.len();
        assert(cv.take(i as int) =~= cv);
        assert(refs_view(nodes@) =~= Seq::<AccountView>::empty());
        while i > 0
            invariant
                i <= self@.len(),
                cv == chain_view(self@),
                resolved_accounts(cv) == gather(refs_view(nodes@), cv.take(i as int)),
            decreases i,
        {
            let ghost seen = refs_view(nodes@);
            let data = &self[i - 1].data;
            let ghost dv = accounts_view(data@);
            assert(dv == cv[i as int - 1].data);
            let mut j: usize = 0;
            assert(dv.take(0) =~= Seq::<AccountView>::empty());
            while j < data.len()
                invariant
                    j <= data@.len(),
                    dv == accounts_view(data@),
                    refs_view(nodes@) == add_unseen(seen, dv.take(j as int)),
                decreases data@.len() - j,
            {
                assert(dv.take(j as int + 1).drop_last() =~= dv.take(j as int));
                if !contains_address(&nodes, &data[j].address) {
                    nodes.push(&data[j]);
                    assert(refs_view(nodes@) =~= add_unseen(seen, dv.take(j as int + 1)));
                }
                j = j + 1;
            }
            assert(dv.take(j as int) =~= dv);
            let ghost prefix = cv.take(i as int);
            assert(prefix.drop_last() =~= cv.take(i as int - 1));
            i = i - 1;
        }
        assert(cv.take(0) =~= Seq::<BlockView>::empty());
        nodes
    }

    fn mine_block(&mut self, data: Vec<Account>, network: Vec<String>)
        ensures
            seal_outcome(
                old(self)@,
                final(self)@,
                accounts_view(data@),
                strings_view(network@),
                DIFFICULTY_PREFIX@,
            ),
    {
        seal_block(self, data, network, DIFFICULTY_PREFIX)
    }
}

} // verus!
