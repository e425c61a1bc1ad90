use monero_wallet_backend::model::{Registry, WalletMeta};

fn on(network: &str, label: &str) -> WalletMeta {
    WalletMeta { network: network.into(), label: label.into(), ..Default::default() }
}

#[test]
fn registry_round_trips_and_never_holds_a_secret() {
    let mut r = Registry::new(None);
    r.upsert("main", on("stagenet", "Main"));
    let entries = r.entries();
    let text = r.list_json().to_text();
    assert!(!text.contains("password") && !text.contains("seed"));
    let r = Registry::new(Some(entries));
    assert_eq!(r.get("main").unwrap().network, "stagenet");
    assert_eq!(r.get("main").unwrap().label, "Main");
}

#[test]
fn wallets_are_listed_by_name() {
    let mut r = Registry::new(Some(vec![
        ("b".to_string(), on("mainnet", "one")),
        ("a".to_string(), on("testnet", "")),
        ("b".to_string(), on("regtest", "two")),
    ]));
    assert_eq!(r.names(), ["a", "b"]);
    assert_eq!(r.get("b"), Some(&on("regtest", "two")));
    r.upsert("Z", on("mainnet", ""));
    r.upsert("a", WalletMeta { view_only: true, restore_height: 7, address: "4x".into(), ..on("stagenet", "l") });
    assert_eq!(r.names(), ["Z", "a", "b"]);
    assert_eq!(
        r.list_json().to_text(),
        r#"[{"address":"","label":"","name":"Z","network":"mainnet","restoreHeight":0,"viewOnly":false},{"address":"4x","label":"l","name":"a","network":"stagenet","restoreHeight":7,"viewOnly":true},{"address":"","label":"two","name":"b","network":"regtest","restoreHeight":0,"viewOnly":false}]"#
    );
}

#[test]
fn a_forgotten_wallet_is_gone() {
    let mut r = Registry::new(None);
    assert!(!r.remove("a"));
    r.upsert("a", on("mainnet", ""));
    r.upsert("c", on("mainnet", ""));
    r.upsert("b", on("mainnet", ""));
    assert!(r.remove("b"));
    assert!(!r.remove("b"));
    assert!(r.get("b").is_none());
    assert_eq!(r.names(), ["a", "c"]);
}
