use monero_wallet_backend::model::{format_xmr, is_network, parse_xmr, ATOMIC_PER_XMR, NETWORKS};

#[test]
fn format_is_exact_to_twelve_places() {
    assert_eq!(format_xmr("1000000000000").unwrap(), "1.000000000000");
    assert_eq!(format_xmr("1").unwrap(), "0.000000000001");
    assert_eq!(format_xmr("1234567890123").unwrap(), "1.234567890123");
    assert_eq!(format_xmr("18446744073709551615").unwrap(), "18446744.073709551615");
    assert!(format_xmr("x").is_none());
}

#[test]
fn parse_round_trips_and_refuses_precision_loss() {
    assert_eq!(parse_xmr("1.5").unwrap(), "1500000000000");
    assert_eq!(parse_xmr("0.000000000001").unwrap(), "1");
    assert_eq!(parse_xmr("12").unwrap(), "12000000000000");
    assert_eq!(parse_xmr(".5").unwrap(), "500000000000");
    assert!(parse_xmr("0.0000000000001").is_none(), "13 fractional digits must be refused, not rounded");
    assert!(parse_xmr("-1").is_none());
    assert!(parse_xmr("1e3").is_none());
    for a in ["0", "1", "999999999999", "1000000000000", "123456789012345"] {
        assert_eq!(parse_xmr(&format_xmr(a).unwrap()).unwrap(), a);
    }
}

#[test]
fn amounts_at_the_edges() {
    assert_eq!(format_xmr("+7").unwrap(), "0.000000000007");
    assert_eq!(format_xmr("007").unwrap(), "0.000000000007");
    assert!(format_xmr("18446744073709551616").is_none());
    assert!(format_xmr("").is_none());
    assert!(format_xmr("+").is_none());
    assert!(format_xmr(" 1").is_none());
    assert!(format_xmr("-0").is_none());
    assert_eq!(parse_xmr(".").unwrap(), "0");
    assert_eq!(parse_xmr("5.").unwrap(), "5000000000000");
    assert_eq!(parse_xmr(" \t1.25\u{3000}").unwrap(), "1250000000000");
    assert_eq!(parse_xmr("18446744.073709551615").unwrap(), "18446744073709551615");
    assert!(parse_xmr("18446744.073709551616").is_none());
    assert!(parse_xmr("18446745").is_none());
    assert!(parse_xmr("99999999999999999999").is_none());
    assert!(parse_xmr("").is_none());
    assert!(parse_xmr("   ").is_none());
    assert!(parse_xmr("+1").is_none());
    assert!(parse_xmr("1.2.3").is_none());
    assert!(parse_xmr("1. 5").is_none());
    assert!(parse_xmr("\u{661}").is_none(), "only the ten ASCII digits count");
    assert_eq!(ATOMIC_PER_XMR, 1_000_000_000_000);
}

#[test]
fn four_networks() {
    assert_eq!(NETWORKS, ["mainnet", "stagenet", "testnet", "regtest"]);
    for n in NETWORKS {
        assert!(is_network(n));
    }
    assert!(!is_network("Mainnet"));
    assert!(!is_network(""));
}
