use blockchain::account::{Account, AccountTrait};
use blockchain::block::{check_link, validate_link, Block, LinkCheck};
use blockchain::digest::canonical_payload;
use blockchain::sealer::{has_prefix, search_nonce};
use blockchain::{calculate_hash, hash_to_binary};

#[test]
fn calculate_hash_works() {
    let data = vec![Account::new("Shaun")];
    let hash = calculate_hash(&data, 1, "test", &vec!["test".to_string()], 1, "test", 1);
    let expected_hash = [
        104, 101, 236, 24, 3, 47, 224, 77, 47, 52, 255, 237, 205, 181, 209, 162, 180, 139, 160,
        115, 147, 254, 129, 29, 245, 49, 171, 8, 28, 29, 116, 198,
    ];
    assert_eq!(hash.len(), 32);
    assert_eq!(hash, expected_hash);
    let data = vec![Account::new("Tom")];
    let hash = calculate_hash(
        &data,
        1,
        "Mrugesh",
        &vec!["Shaun".to_string()],
        1,
        "Quincy",
        1,
    );
    let expected_hash = [
        5, 115, 102, 222, 65, 49, 98, 111, 42, 138, 233, 77, 213, 12, 96, 154, 168, 222, 27,
        251, 144, 8, 233, 164, 50, 174, 141, 146, 8, 145, 8, 72,
    ];
    assert_eq!(hash.len(), 32);
    assert_eq!(hash, expected_hash);
}

#[test]
fn hash_to_binary_works() {
    let hash = [0, 1, 2, 3, 4, 5, 6, 7, 8, 9, 10, 11, 12, 13, 14, 15];
    let hash_str = hash_to_binary(&hash);
    assert_eq!(
        hash_str,
        "01101110010111011110001001101010111100110111101111"
    );
    assert_eq!(hash_str.len(), 50);
    let hash = [
        5, 115, 102, 222, 65, 49, 98, 111, 42, 138, 233, 77, 213, 12, 96, 154, 168, 222, 27,
        251, 144, 8, 233, 164, 50, 174, 141, 146, 8, 145, 8, 72,
    ];
    let hash_str = hash_to_binary(&hash);
    assert_eq!(
        hash_str,
        "10111100111100110110111101000001110001110001011011111010101000101011101001100110111010101110011000001001101010101000110111101101111111011100100001000111010011010010011001010101110100011011001001010001001000110001001000"
    );
    assert_eq!(hash_str.len(), 218);
}

#[test]
fn binary_text_is_unpadded() {
    assert_eq!(hash_to_binary(&[5]), "101");
    assert_eq!(hash_to_binary(&[0, 255]), "011111111");
    assert_eq!(hash_to_binary(&[]), "");
}

#[test]
fn canonical_payload_orders_keys() {
    let data = vec![Account::new("Shaun")];
    let payload = canonical_payload(&data, 1, "test", &vec!["test".to_string()], 12345, "prev", 1648987026);
    assert_eq!(
        payload,
        "{\"data\":[{\"address\":\"Shaun\",\"staked\":0,\"tokens\":20}],\"id\":1,\"next_miner\":\"test\",\"next_validators\":[\"test\"],\"nonce\":12345,\"previous_hash\":\"prev\",\"timestamp\":1648987026}"
    );
}

#[test]
fn canonical_payload_lists_and_escapes() {
    let data = vec![
        Account { address: "a\"b".to_string(), staked: 18446744073709551615, tokens: 7 },
        Account { address: "c\\d\n".to_string(), staked: 10, tokens: 0 },
    ];
    let validators = vec!["x".to_string(), "y".to_string()];
    let payload = canonical_payload(&data, 0, "m", &validators, 0, "", 0);
    assert_eq!(
        payload,
        "{\"data\":[{\"address\":\"a\\\"b\",\"staked\":18446744073709551615,\"tokens\":7},{\"address\":\"c\\\\d\\n\",\"staked\":10,\"tokens\":0}],\"id\":0,\"next_miner\":\"m\",\"next_validators\":[\"x\",\"y\"],\"nonce\":0,\"previous_hash\":\"\",\"timestamp\":0}"
    );
    let empty = canonical_payload(&vec![], 2, "", &vec![], 3, "p", 4);
    assert_eq!(
        empty,
        "{\"data\":[],\"id\":2,\"next_miner\":\"\",\"next_validators\":[],\"nonce\":3,\"previous_hash\":\"p\",\"timestamp\":4}"
    );
}

#[test]
fn prefix_check() {
    assert!(has_prefix("0101", "0"));
    assert!(has_prefix("0101", ""));
    assert!(has_prefix("0101", "0101"));
    assert!(!has_prefix("1010", "0"));
    assert!(!has_prefix("0", "00"));
}

#[test]
fn nonce_search_finds_first_match() {
    let data = vec![Account::new("Camper")];
    let validators = vec!["Camper".to_string()];
    let found = search_nonce(&data, 0, "Camper", &validators, "", 1, "0", 0, 100_000);
    let (nonce, hash) = found.expect("a nonce below 100000");
    assert!(hash.starts_with('0'));
    assert_eq!(hash, hash_to_binary(&calculate_hash(&data, 0, "Camper", &validators, nonce, "", 1)));
    for k in 0..nonce {
        let text = hash_to_binary(&calculate_hash(&data, 0, "Camper", &validators, k, "", 1));
        assert!(!text.starts_with('0'));
    }
    let none = search_nonce(&data, 0, "Camper", &validators, "", 1, "0", nonce + 1, nonce + 1);
    assert!(none.is_none());
}

fn sealed_pair() -> (Block, Block) {
    let data = vec![Account::new("Camper")];
    let validators = vec!["Camper".to_string()];
    let (n0, h0) = search_nonce(&data, 0, "Camper", &validators, "", 5, "0", 0, 1_000_000).unwrap();
    let genesis = Block {
        id: 0,
        hash: h0.clone(),
        previous_hash: String::new(),
        timestamp: 5,
        data: data.clone(),
        nonce: n0,
        next_miner: "Camper".to_string(),
        next_validators: validators.clone(),
    };
    let (n1, h1) = search_nonce(&data, 1, "Camper", &validators, &h0, 6, "0", 0, 1_000_000).unwrap();
    let block = Block {
        id: 1,
        hash: h1,
        previous_hash: h0,
        timestamp: 6,
        data,
        nonce: n1,
        next_miner: "Camper".to_string(),
        next_validators: validators,
    };
    (genesis, block)
}

#[test]
fn link_checks_report_first_failure() {
    let (genesis, block) = sealed_pair();
    assert_eq!(check_link(&block, &genesis, "0"), LinkCheck::Valid);
    assert!(validate_link(&block, &genesis, "0"));

    let mut b = block.clone();
    b.previous_hash = "1".to_string();
    assert_eq!(check_link(&b, &genesis, "0"), LinkCheck::PreviousHashMismatch);

    let mut b = block.clone();
    b.hash = format!("1{}", &b.hash[1..]);
    assert_eq!(check_link(&b, &genesis, "0"), LinkCheck::DifficultyNotMet);

    let mut b = block.clone();
    b.id = 5;
    assert_eq!(check_link(&b, &genesis, "0"), LinkCheck::IdNotIncremented);

    let mut b = block.clone();
    b.nonce += 1;
    assert_eq!(check_link(&b, &genesis, "0"), LinkCheck::HashMismatch);
    assert!(!validate_link(&b, &genesis, "0"));
}
