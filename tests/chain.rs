use blockchain::account::{Account, AccountTrait};
use blockchain::block::Block;
use blockchain::chain::{Chain, ChainTrait};

#[test]
fn block_has_correct_fields() {
    let _block = Block {
        id: 0u64,
        hash: "example".to_string(),
        previous_hash: "example".to_string(),
        timestamp: 0u64,
        data: vec![],
        nonce: 0u64,
        next_miner: "Example".to_string(),
        next_validators: vec![String::from("Example")],
    };
}

#[test]
fn block_data_is_vec_of_accounts() {
    let _block = Block {
        id: 0u64,
        hash: "example".to_string(),
        previous_hash: "example".to_string(),
        timestamp: 0u64,
        data: vec![Account::new(&"example".to_string())],
        nonce: 0u64,
        next_miner: "Example".to_string(),
        next_validators: vec![String::from("Example")],
    };
}

#[test]
fn chain_is_vec_of_block() {
    let block = Block {
        id: 0,
        hash: "".to_string(),
        previous_hash: "".to_string(),
        timestamp: 0,
        data: vec![],
        nonce: 0,
        next_miner: "".to_string(),
        next_validators: vec![],
    };
    let _chain: Chain = vec![block];
}

#[test]
fn chain_implements_chain_trait() {
    let chain: Chain = Chain::new();
    let _last_block = chain.get_last_block();
    let next_miner = chain.get_next_miner();
    let _next_validators = chain.get_next_validators(&next_miner, vec!["Camper".to_string()]);
    let _node = chain.get_account_by_address("");
    let _nodes = chain.get_accounts();
    type FuncTest = fn(&mut Chain, Vec<Account>, Vec<String>) -> ();
    let _func_test: FuncTest = Chain::mine_block;
}

#[test]
fn new_chain_returns_empty_vec() {
    let chain: Chain = Chain::new();
    assert_eq!(chain.len(), 0);
}

#[test]
fn get_last_block_returns_none_when_chain_is_empty() {
    let chain: Chain = Chain::new();
    assert!(chain.get_last_block().is_none());
}

#[test]
fn get_last_block_returns_last_block_when_chain_is_not_empty() {
    let chain = fixture_chain();
    let last_block = chain.get_last_block();
    assert!(last_block.is_some());
    let last_block = last_block.unwrap();
    assert_eq!(last_block.id, 1);
    assert!(last_block.next_miner.is_ascii());
}

#[test]
fn get_next_miner_can_return_different_miner_when_chain_is_not_empty() {
    let chain = fixture_chain();
    let mut i = 0;
    let a = loop {
        let previous_miner = chain.get_last_block().unwrap().next_miner.clone();
        let next_miner = chain.get_next_miner();
        if previous_miner != next_miner {
            break true;
        }
        if i == 99 {
            break false;
        }
        i += 1;
    };
    assert!(a);
}

#[test]
fn get_next_validators_can_return_different_validators_when_chain_is_not_empty() {
    let chain = fixture_chain();
    let mut i = 0;
    let a = loop {
        let network = vec![String::from("node_1"), String::from("node_2")];
        let previous_validators = chain.get_last_block().unwrap().next_validators.clone();
        let next_validators = chain.get_next_validators(&chain.get_next_miner(), network);
        if previous_validators != next_validators {
            break true;
        }
        if i == 99 {
            break false;
        }
        i += 1;
    };
    assert!(a);
}

#[test]
fn get_account_by_address_returns_none_when_node_is_not_in_chain() {
    let chain = fixture_chain();
    assert!(chain.get_account_by_address("node_not_in_chain").is_none());
}

#[test]
fn get_account_by_address_returns_node_when_node_is_in_chain() {
    let chain = fixture_chain();
    assert!(chain.get_account_by_address("Camper").is_some());
}

#[test]
fn get_accounts_returns_all_nodes_in_chain() {
    let chain = fixture_chain();
    let nodes = chain.get_accounts();
    assert_eq!(nodes.len(), 4);
}

#[test]
fn mine_block_does_not_panic() {
    let mut chain = fixture_chain();
    let network = vec![String::from("node_1"), String::from("node_2")];
    chain.mine_block(vec![Account::new("node_3")], network);
    assert_eq!(chain.len(), 3);
}

#[test]
fn empty_chain_miner_is_default_sentinel() {
    let chain: Chain = Chain::new();
    assert_eq!(chain.get_next_miner(), "Camper");
}

#[test]
fn empty_chain_validators_fall_back_to_network() {
    let chain: Chain = Chain::new();
    let validators = chain.get_next_validators(&"Camper".to_string(), vec!["node_1".to_string()]);
    assert_eq!(validators, vec!["node_1".to_string()]);
    let validators = chain.get_next_validators(&"Camper".to_string(), vec![]);
    assert_eq!(validators, vec!["Camper".to_string()]);
}

#[test]
fn newest_copy_of_an_account_wins() {
    let mut old = Account::new("Camper");
    old.staked = 3;
    let mut newer = Account::new("Camper");
    newer.staked = 7;
    let chain: Chain = vec![block_with(0, vec![old]), block_with(1, vec![newer])];
    assert_eq!(chain.get_account_by_address("Camper").unwrap().staked, 7);
    let accounts = chain.get_accounts();
    assert_eq!(accounts.len(), 1);
    assert_eq!(accounts[0].staked, 7);
}

#[test]
fn accounts_listed_newest_block_first() {
    let chain: Chain = vec![
        block_with(0, vec![Account::new("A"), Account::new("B")]),
        block_with(1, vec![Account::new("C"), Account::new("A")]),
    ];
    let addresses: Vec<String> = chain.get_accounts().iter().map(|a| a.address.clone()).collect();
    assert_eq!(addresses, vec!["C".to_string(), "A".to_string(), "B".to_string()]);
}

#[test]
fn validator_count_follows_stake_gap() {
    // Largest stake 80, producer "Camper" has 5: the gap exceeds the network size.
    let chain = fixture_chain();
    let network = vec!["a".to_string(), "b".to_string(), "c".to_string()];
    let validators = chain.get_next_validators(&"Camper".to_string(), network.clone());
    assert_eq!(validators.len(), 3);
    // The producer with the largest stake needs a single validator.
    let validators = chain.get_next_validators(&"Mrugesh".to_string(), network.clone());
    assert_eq!(validators.len(), 1);
    // A gap of 2 within the network size needs 3 validators.
    let mut x = Account::new("X");
    x.staked = 78;
    x.tokens = 100;
    let mut chain = chain;
    chain.push(block_with(2, vec![x]));
    let validators = chain.get_next_validators(&"X".to_string(), network);
    assert_eq!(validators.len(), 3);
    let known = ["Camper", "Tom", "Mrugesh", "Ahmad", "X"];
    for v in validators.iter() {
        assert!(known.contains(&v.as_str()));
    }
}

#[test]
fn sealed_block_links_to_previous() {
    let chain = fixture_chain();
    let last = &chain[1];
    let previous = &chain[0];
    assert_eq!(last.previous_hash, previous.hash);
    assert_eq!(last.id, 1);
    assert!(last.hash.starts_with("0"));
    assert!(previous.previous_hash.is_empty());
    assert!(Account::validate_block(last, previous));
}

fn block_with(id: u64, data: Vec<Account>) -> Block {
    Block {
        id,
        hash: String::new(),
        previous_hash: String::new(),
        timestamp: 0,
        data,
        nonce: 0,
        next_miner: String::new(),
        next_validators: vec![],
    }
}

fn fixture_chain() -> Chain {
    let mut chain = Chain::new();

    let mut camper = Account::new("Camper");
    camper.tokens = 10;
    camper.staked = 5;
    let mut tom = Account::new("Tom");
    tom.tokens = 20;
    tom.staked = 10;
    let mut mrugesh = Account::new("Mrugesh");
    mrugesh.tokens = 100;
    mrugesh.staked = 80;
    let mut ahmad = Account::new("Ahmad");
    ahmad.tokens = 30;
    ahmad.staked = 22;

    let data = vec![camper, tom, mrugesh];
    let mut network: Vec<String> = data.iter().map(|node| node.address.clone()).collect();

    chain.mine_block(data, network.clone());

    network.push(ahmad.address.clone());
    let data = vec![ahmad];

    chain.mine_block(data, network);
    chain
}
