use monero_wallet_backend::json::Json;
use monero_wallet_backend::model::normalize_history;

fn json(text: &str) -> Json {
    Json::parse(text).unwrap()
}

fn rows(list: &Json) -> &Vec<Json> {
    match list {
        Json::List(rows) => rows,
        _ => panic!("not a list"),
    }
}

#[test]
fn history_carries_every_detail_the_expanded_row_shows() {
    let given = json(
        r#"[{
            "txid": "a1", "direction": "in", "amount": "100000000000", "fee": "0",
            "height": 10, "confirmations": 2, "timestamp": 1788900000,
            "paymentId": "pid7", "description": "rent", "subaddrIndex": "1",
            "coinbase": false, "destinations": []
        }, {
            "txid": "b2", "direction": "out", "amount": "50000000000", "fee": "30000000",
            "height": 11, "confirmations": 1, "timestamp": 1788900100,
            "destinations": [{ "address": "58hpB", "amount": "50000000000" }]
        }]"#,
    );
    let out = normalize_history(&given);
    let a = rows(&out);
    let incoming = a.iter().find(|r| r.text_at("txid") == Some("a1")).unwrap();
    assert_eq!(incoming.text_at("paymentId"), Some("pid7"));
    assert_eq!(incoming.text_at("description"), Some("rent"));
    assert_eq!(incoming.text_at("subaddrIndex"), Some("1"));
    assert_eq!(incoming.text_at("amountXmr"), Some("0.100000000000"));
    assert!(rows(incoming.get("destinations").unwrap()).is_empty(), "an incoming transfer records no destination");
    let outgoing = a.iter().find(|r| r.text_at("txid") == Some("b2")).unwrap();
    assert_eq!(rows(outgoing.get("destinations").unwrap())[0].text_at("address"), Some("58hpB"));
    assert_eq!(outgoing.text_at("feeXmr"), Some("0.000030000000"), "30000000 atomic units is 0.00003 XMR — 1 XMR is 1e12");
    assert_eq!(outgoing.text_at("paymentId"), Some(""));
    assert_eq!(outgoing.text_at("description"), Some(""));
    assert_eq!(outgoing.bool_at("coinbase"), Some(false));
}

#[test]
fn history_sorts_newest_first_with_pending_on_top() {
    let given = json(
        r#"[
            {"txid":"a","height":100,"amount":"1","fee":"0"},
            {"txid":"b","height":0,"amount":"2","fee":"0","pending":true},
            {"txid":"c","height":200,"amount":"3","fee":"0"}
        ]"#,
    );
    let out = normalize_history(&given);
    let ids: Vec<&str> = rows(&out).iter().map(|r| r.text_at("txid").unwrap()).collect();
    assert_eq!(ids, ["b", "c", "a"]);
    assert_eq!(rows(&out)[0].text_at("amountXmr"), Some("0.000000000002"));
}

#[test]
fn equally_new_rows_stay_as_they_stood() {
    let given = json(
        r#"[
            {"txid":"a","height":5},
            {"txid":"b"},
            {"txid":"c","height":7},
            {"txid":"d","height":5},
            {"txid":"e","height":"9"},
            {"txid":"f","height":7},
            {"txid":"g","height":-3}
        ]"#,
    );
    let out = normalize_history(&given);
    let ids: Vec<&str> = rows(&out).iter().map(|r| r.text_at("txid").unwrap()).collect();
    assert_eq!(ids, ["b", "e", "g", "c", "f", "a", "d"]);
    assert_eq!(rows(&out)[1].text_at("height"), Some("9"), "what the engine gave is carried as it is");
}

#[test]
fn a_row_of_which_nothing_is_known() {
    let out = normalize_history(&json("[7]"));
    assert_eq!(
        rows(&out)[0].to_text(),
        r#"{"account":0,"amount":"0","amountXmr":"0.000000000000","coinbase":false,"confirmations":0,"description":"","destinations":[],"direction":"in","failed":false,"fee":"0","feeXmr":"0.000000000000","height":0,"paymentId":"","pending":false,"subaddrIndex":"","timestamp":0,"txid":"","unlockTime":0}"#
    );
    let out = normalize_history(&json(r#"[{"amount":"much","txid":null}]"#));
    assert_eq!(rows(&out)[0].text_at("amount"), Some("much"));
    assert_eq!(rows(&out)[0].text_at("amountXmr"), Some(""));
    assert!(matches!(rows(&out)[0].get("txid"), Some(Json::Null)));
}

#[test]
fn anything_but_a_list_is_no_rows() {
    assert_eq!(normalize_history(&json("null")).to_text(), "[]");
    assert_eq!(normalize_history(&json(r#"{"rows":[]}"#)).to_text(), "[]");
    assert_eq!(normalize_history(&json("[]")).to_text(), "[]");
}

#[test]
fn many_rows_are_sorted() {
    let mut text = String::from("[");
    for i in 0..101u64 {
        if i > 0 {
            text.push(',');
        }
        text.push_str(&format!("{{\"txid\":\"t{}\",\"height\":{}}}", i, (i * 37) % 101 + 1));
    }
    text.push(']');
    let out = normalize_history(&json(&text));
    let heights: Vec<u64> = rows(&out).iter().map(|r| r.unsigned_at("height")).collect();
    let expected: Vec<u64> = (1..=101u64).rev().collect();
    assert_eq!(heights, expected);
}
