use monero_wallet_backend::backend::reactor::{Answer, Ask, Turn};
use monero_wallet_backend::backend::sending::read_send;
use monero_wallet_backend::backend::{Backend, EngineJob, Event};
use monero_wallet_backend::json::Json;
use monero_wallet_backend::model::{SendState, PREVIEW_TTL};

fn json(text: &str) -> Json {
    Json::parse(text).unwrap()
}

fn value(text: &str) -> Answer {
    Answer::Value(Ok(json(text)))
}

fn started(b: &mut Backend, kind: &str, wallet: &str, n: u64) {
    let job = EngineJob { kind: kind.into(), params: Json::object(), wallet: wallet.into(), meta: None };
    let ticket = json(&format!("{{\"jobId\":\"c{}\",\"receipt\":\"r{}\"}}", n, n));
    b.start_core_job(job, Ok(ticket)).unwrap();
}

fn asks(turn: &Turn) -> String {
    format!("{:?}", turn.ask())
}

#[test]
fn an_idle_turn_asks_for_nothing() {
    let b = Backend::default();
    assert!(matches!(Turn::begin(&b, false).ask(), Ask::Rest));
    assert!(matches!(Turn::begin(&b, true).ask(), Ask::Status));
}

#[test]
fn jobs_are_polled_collected_and_acknowledged() {
    let mut b = Backend::default();
    started(&mut b, "open_wallet", "w", 1);
    started(&mut b, "close_wallet", "", 2);
    started(&mut b, "change_password", "", 3);
    started(&mut b, "x", "", 4);
    let mut turn = Turn::begin(&b, false);
    assert_eq!(asks(&turn), r#"JobStatus("c1", "r1")"#);
    let done = turn.step(&mut b, value(r#"{"state":"done"}"#), 0);
    assert!(done.events.is_empty() && !done.store_registry);
    assert_eq!(asks(&turn), r#"JobResult("c1", "r1")"#);
    turn.step(&mut b, value(r#"{"success":true,"value":{"address":"9"}}"#), 0);
    assert_eq!(asks(&turn), r#"Acknowledge("c1", "r1")"#);
    assert!(b.registry.get("w").is_none(), "nothing is acted on before it is acknowledged");
    let done = turn.step(&mut b, Answer::Noted, 0);
    assert!(done.store_registry);
    assert_eq!(done.events, vec![Event::JobFinished("b1".into(), "done".into())]);
    assert_eq!(b.registry.get("w").unwrap().address, "9");

    assert_eq!(asks(&turn), r#"JobStatus("c2", "r2")"#);
    turn.step(&mut b, value(r#"{"state":"failed","error":"no"}"#), 0);
    assert_eq!(asks(&turn), r#"Acknowledge("c2", "r2")"#);
    let done = turn.step(&mut b, Answer::Noted, 0);
    assert_eq!(done.events, vec![Event::JobFinished("b2".into(), "failed".into())]);

    assert_eq!(asks(&turn), r#"JobStatus("c3", "r3")"#);
    turn.step(&mut b, value(r#"{"state":"running"}"#), 0);
    assert_eq!(asks(&turn), r#"JobStatus("c4", "r4")"#);
    turn.step(&mut b, Answer::Value(Err("gone".into())), 0);
    assert!(matches!(turn.ask(), Ask::Rest));
    assert!(b.job_status("b3").contains("\"state\":\"running\""));
    assert!(b.job_status("b4").contains("\"state\":\"queued\""));
    let again = Turn::begin(&b, false);
    assert_eq!(asks(&again), r#"JobStatus("c3", "r3")"#);
}

#[test]
fn a_result_that_cannot_be_fetched_is_a_failure() {
    let mut b = Backend::default();
    started(&mut b, "x", "", 1);
    started(&mut b, "y", "", 2);
    let mut turn = Turn::begin(&b, false);
    turn.step(&mut b, value(r#"{"state":"done"}"#), 0);
    turn.step(&mut b, Answer::Value(Err("Timeout".into())), 0);
    turn.step(&mut b, Answer::Noted, 0);
    assert!(b.job_status("b1").contains("\"error\":\"wallet core: Timeout\""));
    turn.step(&mut b, value(r#"{"state":"failed"}"#), 0);
    turn.step(&mut b, Answer::Noted, 0);
    assert!(b.job_status("b2").contains("\"error\":\"job failed\""));
}

#[test]
fn a_slow_turn_sees_status_and_balance_and_lets_previews_expire() {
    let mut b = Backend::default();
    let draft = read_send(r#"{"address":"4a","amount":"5"}"#).unwrap();
    let build = b.begin_send(draft, true).unwrap();
    b.start_core_job(build, Ok(json(r#"{"jobId":"c","receipt":"r"}"#))).unwrap();
    let mut turn = Turn::begin(&b, true);
    turn.step(&mut b, value(r#"{"state":"done"}"#), 0);
    turn.step(&mut b, value(r#"{"txHandle":"h"}"#), 0);
    let done = turn.step(&mut b, Answer::Noted, 1000);
    assert_eq!(
        done.events,
        vec![Event::SendStatusChanged("s1".into(), "previewed".into()), Event::JobFinished("b1".into(), "done".into())]
    );
    assert_eq!(b.sends.get("s1").unwrap().prepared_at, Some(1000));
    assert!(matches!(turn.ask(), Ask::Status));
    let done = turn.step(&mut b, value(r#"{"state":"ready"}"#), 1001 + PREVIEW_TTL);
    assert_eq!(done.events.len(), 2);
    assert_eq!(b.sends.get("s1").unwrap().state, SendState::Previewed);
    assert!(matches!(turn.ask(), Ask::Balance));
    let done = turn.step(&mut b, Answer::Balance(Some("3".into()), Some("2".into())), 1001 + PREVIEW_TTL);
    assert_eq!(
        done.events,
        vec![
            Event::BalanceChanged(r#"{"balance":"3","unlocked":"2"}"#.into()),
            Event::SendStatusChanged("s1".into(), "failed".into()),
        ]
    );
    assert!(matches!(turn.ask(), Ask::Rest));
}

#[test]
fn previews_expire_even_where_the_engine_is_silent() {
    for answer in [Answer::Value(Err("x".into())), value(r#"{"state":"no_wallet"}"#)] {
        let mut b = Backend::default();
        b.sends.begin(Json::object()).unwrap();
        b.sends.get_mut("s1").unwrap().state = SendState::Previewed;
        b.sends.get_mut("s1").unwrap().prepared_at = Some(0);
        let mut turn = Turn::begin(&b, true);
        let done = turn.step(&mut b, answer, PREVIEW_TTL + 1);
        assert_eq!(done.events.last(), Some(&Event::SendStatusChanged("s1".into(), "failed".into())));
        assert!(matches!(turn.ask(), Ask::Rest));
        assert_eq!(b.sends.get("s1").unwrap().state, SendState::Failed("preview expired".into()));
    }
}
