use monero_wallet_backend::backend::wallets::{
    balances, change_password, close_wallet, history, node_health, receive_info,
};
use monero_wallet_backend::backend::Backend;
use monero_wallet_backend::json::Json;
use monero_wallet_backend::model::WalletMeta;

fn json(text: &str) -> Json {
    Json::parse(text).unwrap()
}

fn on(network: &str) -> WalletMeta {
    WalletMeta { network: network.into(), ..Default::default() }
}

#[test]
fn networks_are_listed_and_switched() {
    let mut b = Backend::default();
    assert_eq!(b.list_networks(), r#"{"active":"stagenet","networks":["mainnet","stagenet","testnet","regtest"],"ok":true}"#);
    let (reply, switched) = b.set_active_network("moon".into(), &Json::Null);
    assert_eq!((reply.as_str(), switched), (r#"{"error":"unknown network: moon","ok":false}"#, false));
    let (reply, switched) = b.set_active_network("mainnet".into(), &json(r#"{"state":"ready"}"#));
    assert_eq!((reply.as_str(), switched), (r#"{"error":"close the open wallet before switching networks","ok":false}"#, false));
    b.sends.begin(Json::object()).unwrap();
    let (reply, switched) = b.set_active_network("mainnet".into(), &Json::Null);
    assert_eq!((reply.as_str(), switched), (r#"{"error":"a send is in flight","ok":false}"#, false));
    assert_eq!(b.active, "stagenet");
    b.cancel_send("s1").unwrap();
    let (reply, switched) = b.set_active_network("mainnet".into(), &json(r#"{"state":"no_wallet"}"#));
    assert_eq!((reply.as_str(), switched), (r#"{"active":"mainnet","ok":true}"#, true));
    assert_eq!(b.active, "mainnet");
}

#[test]
fn settings_are_taken_up_again() {
    let mut b = Backend::default();
    b.set_active_network("regtest".into(), &Json::Null);
    assert_eq!(b.settings_text(), r#"{"activeNetwork":"regtest"}"#);
    let text = b.settings_text();
    let mut again = Backend::default();
    again.on_context_ready(Some(vec![("w".to_string(), on("mainnet"))]), Some(&text));
    assert_eq!(again.active, "regtest");
    assert_eq!(again.registry.names(), ["w"]);
    for bad in ["", "{", "[]", r#"{"activeNetwork":"moon"}"#, r#"{"activeNetwork":7}"#] {
        let mut fresh = Backend::default();
        fresh.on_context_ready(None, Some(bad));
        assert_eq!(fresh.active, "stagenet");
        assert!(fresh.registry.names().is_empty());
    }
    again.on_context_ready(None, None);
    assert_eq!(again.active, "regtest");
}

#[test]
fn wallets_on_disk_are_remembered() {
    let mut b = Backend::default();
    b.registry.upsert("old", WalletMeta { label: "L".into(), ..on("mainnet") });
    let (reply, changed) = b.list_wallets(&json(r#"["new","old",5,"new"]"#));
    assert!(changed);
    assert_eq!(
        reply,
        r#"{"ok":true,"wallets":[{"address":"","label":"","name":"new","network":"stagenet","restoreHeight":0,"viewOnly":false},{"address":"","label":"L","name":"old","network":"mainnet","restoreHeight":0,"viewOnly":false}]}"#
    );
    let (_, changed) = b.list_wallets(&json(r#"["new","old"]"#));
    assert!(!changed);
    let (reply, changed) = Backend::default().list_wallets(&Json::Null);
    assert_eq!((reply.as_str(), changed), (r#"{"ok":true,"wallets":[]}"#, false));
}

#[test]
fn jobs_that_open_a_wallet() {
    let mut b = Backend::default();
    b.registry.upsert("old", on("mainnet"));
    let j = b.open_wallet("old", "pw");
    assert_eq!((j.kind.as_str(), j.wallet.as_str(), j.meta.is_none()), ("open_wallet", "old", true));
    assert_eq!(j.params.to_text(), r#"{"name":"old","network":"stagenet","password":"pw"}"#);
    assert_eq!(b.open_wallet("x", "").params.text_at("network"), Some("stagenet"));
    let j = b.create_wallet("n", "pw", "Label".into());
    assert_eq!((j.kind.as_str(), j.wallet.as_str()), ("create_wallet", "n"));
    assert_eq!(j.params.to_text(), r#"{"name":"n","network":"stagenet","password":"pw"}"#);
    assert_eq!(j.meta, Some(WalletMeta { label: "Label".into(), ..on("stagenet") }));
    let j = close_wallet();
    assert_eq!((j.kind.as_str(), j.wallet.as_str(), j.params.to_text().as_str()), ("close_wallet", "", "{}"));
    let j = change_password("a", "b");
    assert_eq!((j.kind.as_str(), j.params.to_text().as_str()), ("change_password", r#"{"newPassword":"b","oldPassword":"a"}"#));
}

#[test]
fn wallets_are_restored() {
    let b = Backend::default();
    let j = b.restore_from_seed(r#"{"name":"w","password":"p","seed":"s e","restoreHeight":9,"label":"L"}"#).unwrap();
    assert_eq!(j.kind, "restore_from_seed");
    assert_eq!(j.params.to_text(), r#"{"name":"w","network":"stagenet","password":"p","restoreHeight":9,"seed":"s e","seedOffset":""}"#);
    assert_eq!(j.meta, Some(WalletMeta { label: "L".into(), restore_height: 9, ..on("stagenet") }));
    assert_eq!(b.restore_from_seed("{}").unwrap_err(), "name is required");
    assert_eq!(b.restore_from_seed(r#"{"name":7}"#).unwrap_err(), "name is required");
    assert_eq!(b.restore_from_seed("[").unwrap_err(), "EOF while parsing a list at line 1 column 1");
    let j = b.restore_from_keys(r#"{"name":"w","address":"4","viewKey":"v","restoreHeight":-1}"#).unwrap();
    assert_eq!(j.kind, "restore_from_keys");
    assert_eq!(j.params.to_text(), r#"{"address":"4","name":"w","network":"stagenet","password":"","restoreHeight":0,"spendKey":"","viewKey":"v"}"#);
    assert!(j.meta.unwrap().view_only);
    let j = b.restore_from_keys(r#"{"name":"w","spendKey":"k"}"#).unwrap();
    assert!(!j.meta.unwrap().view_only);
    assert!(b.restore_from_keys(r#"{"name":"w","spendKey":""}"#).unwrap().meta.unwrap().view_only);
    assert_eq!(b.restore_from_keys(r#"{"name":""}"#).unwrap_err(), "name is required");
    assert_eq!(b.restore_from_keys("x").unwrap_err(), "expected value at line 1 column 1");
}

#[test]
fn nothing_of_a_restore_but_its_meta_is_kept() {
    let mut b = Backend::default();
    let j = b.restore_from_seed(r#"{"name":"w","password":"hunter2","seed":"abbey"}"#).unwrap();
    let meta = format!("{:?}", j.meta);
    assert!(!meta.contains("hunter2") && !meta.contains("abbey"));
    b.start_core_job(j, Ok(json(r#"{"jobId":"c","receipt":"r"}"#))).unwrap();
    b.finish_job("b1", Ok(Json::Null), 0);
    let told = b.list_wallets(&Json::Null).0 + &b.job_status("b1") + &b.settings_text();
    assert!(!told.contains("hunter2") && !told.contains("abbey"));
}

#[test]
fn the_status_is_extended() {
    let mut b = Backend::default();
    assert_eq!(b.wallet_status(None), r#"{"activeNetwork":"stagenet","ok":true,"state":"unavailable","syncPercent":0}"#);
    b.registry.upsert("w", on("mainnet"));
    assert_eq!(
        b.wallet_status(Some(json(r#"{"state":"ready","wallet":"w","walletHeight":2,"daemonHeight":3}"#))),
        r#"{"activeNetwork":"stagenet","daemonHeight":3,"meta":{"address":"","label":"","network":"mainnet","restoreHeight":0,"viewOnly":false},"ok":true,"state":"ready","syncPercent":66,"wallet":"w","walletHeight":2}"#
    );
    assert_eq!(
        b.wallet_status(Some(json(r#"{"wallet":"other","walletHeight":18446744073709551615,"daemonHeight":18446744073709551615}"#))),
        r#"{"activeNetwork":"stagenet","daemonHeight":18446744073709551615,"ok":true,"syncPercent":100,"wallet":"other","walletHeight":18446744073709551615}"#
    );
    assert_eq!(b.wallet_status(Some(Json::Null)), r#"{"activeNetwork":"stagenet","ok":true,"syncPercent":0}"#);
}

#[test]
fn what_the_open_wallet_shows() {
    assert_eq!(
        balances(Some("1500000000000".into()), None),
        r#"{"balance":"1500000000000","balanceXmr":"1.500000000000","ok":true,"unlocked":"0","unlockedXmr":"0.000000000000"}"#
    );
    assert_eq!(balances(Some("?".into()), Some("1".into())), r#"{"balance":"?","balanceXmr":"","ok":true,"unlocked":"1","unlockedXmr":"0.000000000001"}"#);
    assert_eq!(receive_info(None, None), r#"{"address":"","ok":true,"subaddresses":[]}"#);
    assert_eq!(
        receive_info(Some("4x".into()), Some(json(r#"[{"index":1}]"#))),
        r#"{"address":"4x","ok":true,"subaddresses":[{"index":1}]}"#
    );
    assert_eq!(history(None), r#"{"ok":true,"rows":[]}"#);
    assert!(history(Some(json(r#"[{"txid":"a"}]"#))).contains("\"txid\":\"a\""));
    assert_eq!(node_health(Ok("fine".into())), "fine");
    assert_eq!(node_health(Err("Gone".into())), r#"{"error":"node module: Gone","ok":false}"#);
}
