use balance_history::account::{keep_well_formed_ids, AccountId};

#[test]
fn account_id_parses_well_formed_text() {
    let id = AccountId::parse("alice.near").unwrap();
    assert_eq!(id.as_str(), "alice.near");
    assert_eq!(AccountId::parse("a_b-c.d1").unwrap().as_str(), "a_b-c.d1");
}

#[test]
fn account_id_rejects_malformed_text() {
    for bad in ["", "a", "Alice", "alice..near", "-alice", "alice.", "al ice", "ali\u{e7}e"] {
        assert!(AccountId::parse(bad).is_none(), "{}", bad);
    }
    assert!(AccountId::parse(&"b".repeat(65)).is_none());
    assert!(AccountId::parse(&"b".repeat(64)).is_some());
}

#[test]
fn keeps_only_well_formed_ids_in_order() {
    let ids: Vec<String> = ["wrap.near", "Bad", "usdt.tether-token.near", "x", "dai.bridge.near"]
        .iter()
        .map(|s| s.to_string())
        .collect();
    assert_eq!(keep_well_formed_ids(&ids), vec!["wrap.near", "usdt.tether-token.near", "dai.bridge.near"]);
    assert!(keep_well_formed_ids(&vec![]).is_empty());
}
