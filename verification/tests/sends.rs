use monero_wallet_backend::json::Json;
use monero_wallet_backend::model::{SendState, Sends, PREVIEW_TTL};

#[test]
fn only_one_send_in_flight_at_a_time() {
    let mut s = Sends::default();
    let a = s.begin(Json::object()).unwrap();
    assert!(s.begin(Json::object()).is_err(), "second prepare must be refused while the first is open");
    s.get_mut(&a).unwrap().state = SendState::Cancelled;
    assert!(s.begin(Json::object()).is_ok());
}

#[test]
fn a_stale_preview_expires_instead_of_committing() {
    let now: u128 = 1_000_000_000_000;
    let mut s = Sends::default();
    let a = s.begin(Json::object()).unwrap();
    let r = s.get_mut(&a).unwrap();
    r.state = SendState::Previewed;
    r.prepared_at = Some(now - PREVIEW_TTL - 1_000_000_000);
    let expired = s.expire(now);
    assert_eq!(expired, vec![a.clone()]);
    assert_eq!(s.status_json(&a).text_at("state"), Some("failed"));
}

#[test]
fn a_preview_lives_for_its_time_and_no_longer() {
    let mut s = Sends::default();
    let a = s.begin(Json::object()).unwrap();
    {
        let r = s.get_mut(&a).unwrap();
        r.state = SendState::Previewed;
        r.prepared_at = Some(5);
    }
    assert!(s.expire(0).is_empty(), "a clock before the preview expires nothing");
    assert!(s.expire(5 + PREVIEW_TTL).is_empty());
    assert_eq!(s.get(&a).unwrap().state, SendState::Previewed);
    assert_eq!(s.expire(6 + PREVIEW_TTL), vec![a.clone()]);
    assert_eq!(s.get(&a).unwrap().state, SendState::Failed("preview expired".into()));
    assert!(s.expire(6 + PREVIEW_TTL).is_empty(), "it expires once");
    assert_eq!(PREVIEW_TTL, 120_000_000_000);
}

#[test]
fn only_previews_expire() {
    let mut s = Sends::default();
    let a = s.begin(Json::object()).unwrap();
    for state in [SendState::Preparing, SendState::Committing, SendState::Sent, SendState::Cancelled] {
        let r = s.get_mut(&a).unwrap();
        r.state = state;
        r.prepared_at = Some(0);
        assert!(s.expire(2 * PREVIEW_TTL).is_empty());
    }
    let r = s.get_mut(&a).unwrap();
    r.state = SendState::Previewed;
    r.prepared_at = None;
    assert!(s.expire(2 * PREVIEW_TTL).is_empty());
}

#[test]
fn a_refusal_names_the_send_in_flight() {
    let mut s = Sends::default();
    assert_eq!(s.begin(Json::object()).unwrap(), "s1");
    assert_eq!(s.begin(Json::Null).unwrap_err(), "a send is already in flight (s1: preparing)");
    s.get_mut("s1").unwrap().state = SendState::Committing;
    assert_eq!(s.begin(Json::Null).unwrap_err(), "a send is already in flight (s1: committing)");
    s.get_mut("s1").unwrap().state = SendState::Failed("x".into());
    assert_eq!(s.begin(Json::Null).unwrap(), "s2");
    assert_eq!(s.open_requests(), ["s2"]);
    assert!(s.any_open());
    assert!(s.get("s3").is_none() && s.get_mut("s3").is_none());
}

#[test]
fn statuses_as_they_are_told() {
    let mut s = Sends::default();
    assert_eq!(s.status_json("s1").to_text(), r#"{"error":"unknown requestId","ok":false}"#);
    assert_eq!(s.all_json().to_text(), "[]");
    s.begin(Json::object()).unwrap();
    assert_eq!(
        s.status_json("s1").to_text(),
        r#"{"error":null,"ok":true,"preview":null,"requestId":"s1","state":"preparing","txids":null}"#
    );
    {
        let r = s.get_mut("s1").unwrap();
        r.state = SendState::Failed("no".into());
        r.preview = Some(Json::object().with("fee", Json::text("1")));
        r.txids = Some("t".into());
    }
    assert_eq!(
        s.status_json("s1").to_text(),
        r#"{"error":"no","ok":true,"preview":{"fee":"1"},"requestId":"s1","state":"failed","txids":"t"}"#
    );
    s.begin(Json::object()).unwrap();
    assert_eq!(
        s.all_json().to_text(),
        r#"[{"requestId":"s1","state":"failed"},{"requestId":"s2","state":"preparing"}]"#
    );
}

#[test]
fn ids_are_listed_as_texts() {
    let mut s = Sends::default();
    for _ in 0..11 {
        let id = s.begin(Json::object()).unwrap();
        s.get_mut(&id).unwrap().state = SendState::Sent;
    }
    s.get_mut("s2").unwrap().state = SendState::Previewed;
    s.get_mut("s10").unwrap().state = SendState::Preparing;
    assert_eq!(s.open_requests(), ["s10", "s2"]);
    assert_eq!(s.begin(Json::Null).unwrap_err(), "a send is already in flight (s10: preparing)");
}

#[test]
fn states_have_names_and_ends() {
    let all = [
        (SendState::Preparing, "preparing", false),
        (SendState::Previewed, "previewed", false),
        (SendState::Committing, "committing", false),
        (SendState::Sent, "sent", true),
        (SendState::Failed("why".into()), "failed", true),
        (SendState::Cancelled, "cancelled", true),
    ];
    for (state, name, terminal) in all {
        assert_eq!(state.name(), name);
        assert_eq!(state.terminal(), terminal);
    }
}
