use blockchain::account::Account;
use blockchain::block::Block;
use blockchain::chain::{Chain, ChainTrait};
use blockchain::selection::{draw_bound, select_index, sort_by_stake, total_stake};

fn staked(address: &str, staked: u64) -> Account {
    Account { address: address.to_string(), staked, tokens: 100 }
}

fn chain_of(data: Vec<Account>) -> Chain {
    vec![Block {
        id: 0,
        hash: String::new(),
        previous_hash: String::new(),
        timestamp: 0,
        data,
        nonce: 0,
        next_miner: String::new(),
        next_validators: vec![],
    }]
}

#[test]
fn sort_by_stake_is_stable() {
    let accounts = vec![staked("A", 3), staked("B", 1), staked("C", 3), staked("D", 0)];
    let sorted = sort_by_stake(&accounts);
    let order: Vec<&str> = sorted.iter().map(|a| a.address.as_str()).collect();
    assert_eq!(order, vec!["D", "B", "A", "C"]);
}

#[test]
fn draws_select_by_cumulative_stake() {
    let sorted = vec![staked("A", 1), staked("B", 2), staked("C", 3), staked("D", 4)];
    assert_eq!(total_stake(&sorted), 10);
    assert_eq!(draw_bound(&sorted), 10);
    let picks: Vec<usize> = (0..10u128).map(|d| select_index(&sorted, d)).collect();
    assert_eq!(picks, vec![0, 1, 1, 2, 2, 2, 3, 3, 3, 3]);
}

#[test]
fn draws_per_candidate_equal_stake() {
    let sorted = vec![staked("A", 0), staked("B", 5), staked("C", 7), staked("D", 13)];
    let bound = draw_bound(&sorted);
    assert_eq!(bound, 25);
    let mut counts = [0u128; 4];
    for d in 0..bound {
        counts[select_index(&sorted, d)] += 1;
    }
    assert_eq!(counts, [0, 5, 7, 13]);
}

#[test]
fn zero_stake_draws_pick_uniformly() {
    let sorted = vec![staked("A", 0), staked("B", 0), staked("C", 0)];
    assert_eq!(total_stake(&sorted), 0);
    assert_eq!(draw_bound(&sorted), 3);
    for d in 0..3u128 {
        assert_eq!(select_index(&sorted, d), d as usize);
    }
}

#[test]
fn large_stakes_do_not_overflow() {
    let sorted = vec![staked("A", u64::MAX), staked("B", u64::MAX)];
    let bound = draw_bound(&sorted);
    assert_eq!(bound, 2 * (u64::MAX as u128));
    assert_eq!(select_index(&sorted, u64::MAX as u128 - 1), 0);
    assert_eq!(select_index(&sorted, u64::MAX as u128), 1);
    assert_eq!(select_index(&sorted, bound - 1), 1);
}

#[test]
fn producer_frequency_follows_stake() {
    let chain = chain_of(vec![staked("A", 1), staked("B", 2), staked("C", 3), staked("D", 4)]);
    let mut counts = std::collections::HashMap::new();
    for _ in 0..1000 {
        *counts.entry(chain.get_next_miner()).or_insert(0u32) += 1;
    }
    for (address, expected) in [("A", 100.0), ("B", 200.0), ("C", 300.0), ("D", 400.0)] {
        let seen = *counts.get(address).unwrap_or(&0) as f64;
        assert!((seen - expected).abs() < 75.0, "{} drawn {} times", address, seen);
    }
}

#[test]
fn zero_stake_producer_is_any_account() {
    let chain = chain_of(vec![staked("A", 0), staked("B", 0), staked("C", 0)]);
    let mut seen = std::collections::HashSet::new();
    for _ in 0..300 {
        let miner = chain.get_next_miner();
        assert!(["A", "B", "C"].contains(&miner.as_str()));
        seen.insert(miner);
    }
    assert_eq!(seen.len(), 3);
    let validators = chain.get_next_validators(&"A".to_string(), vec!["n".to_string()]);
    assert_eq!(validators.len(), 1);
    assert!(["A", "B", "C"].contains(&validators[0].as_str()));
}
