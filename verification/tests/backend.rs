use monero_wallet_backend::backend::jobs::job_reply;
use monero_wallet_backend::backend::sending::{draft_send, read_send};
use monero_wallet_backend::backend::{engine_result, pass_on, Backend, EngineJob, Event};
use monero_wallet_backend::json::Json;
use monero_wallet_backend::model::{SendState, WalletMeta, PREVIEW_TTL};

fn json(text: &str) -> Json {
    Json::parse(text).unwrap()
}

fn ticket(n: u64) -> Result<Json, String> {
    Ok(json(&format!("{{\"success\":true,\"value\":{{\"jobId\":\"c{}\",\"receipt\":\"r{}\"}}}}", n, n)))
}

fn job(kind: &str, wallet: &str) -> EngineJob {
    EngineJob { kind: kind.into(), params: Json::object(), wallet: wallet.into(), meta: None }
}

/// A send that waits for review, with the id of its send.
fn previewed(b: &mut Backend, now: u128) -> String {
    let draft = read_send(r#"{"address":"4addr","amountXmr":"1.5"}"#).unwrap();
    let build = b.begin_send(draft, true).unwrap();
    let id = build.wallet.clone();
    let start = b.start_core_job(build, ticket(1));
    let job_id = start.clone().unwrap();
    b.send_started(&id, start);
    let built = json(r#"{"txHandle":"h1","amount":"1500000000000","fee":"30000000","destination":"4addr","txCount":2,"txids":"t1"}"#);
    b.finish_job(&job_id, Ok(built), now);
    id
}

#[test]
fn a_job_is_followed_under_its_own_id() {
    let mut b = Backend::default();
    let r = b.start_core_job(job("open_wallet", "w"), ticket(7));
    assert_eq!(r.clone().unwrap(), "b1");
    assert_eq!(job_reply(&r), r#"{"jobId":"b1","ok":true}"#);
    assert_eq!(b.pending_jobs(), vec![("b1".to_string(), ("c7".to_string(), "r7".to_string()))]);
    assert_eq!(
        b.job_status("b1"),
        r#"{"error":null,"jobId":"b1","kind":"open_wallet","ok":true,"result":null,"state":"queued"}"#
    );
    assert_eq!(b.job_status("b2"), r#"{"error":"unknown jobId","ok":false}"#);
    assert!(!b.job_status("b1").contains("c7") && !b.job_status("b1").contains("r7"));
    b.note_job_state("b1", "running".into());
    assert_eq!(b.pending_jobs().len(), 1);
    b.note_job_state("b1", "paused".into());
    assert!(b.pending_jobs().is_empty());
    b.note_job_state("b9", "running".into());
    assert_eq!(b.start_core_job(job("x", ""), ticket(8)).unwrap(), "b2");
}

#[test]
fn a_start_that_the_engine_refuses_is_not_followed() {
    let mut b = Backend::default();
    let r = b.start_core_job(job("x", ""), Err("Timeout".into()));
    assert_eq!(r.clone().unwrap_err(), "wallet core: Timeout");
    assert_eq!(job_reply(&r), r#"{"error":"wallet core: Timeout","ok":false}"#);
    let r = b.start_core_job(job("x", ""), Ok(json(r#"{"success":false,"error":"busy"}"#)));
    assert_eq!(r.unwrap_err(), "busy");
    let r = b.start_core_job(job("x", ""), Ok(json(r#"{"ok":false}"#)));
    assert_eq!(r.unwrap_err(), "engine error");
    let r = b.start_core_job(job("x", ""), Ok(json(r#"{"ok":true,"result":{"jobId":"c"}}"#)));
    assert_eq!(r.unwrap_err(), "engine returned no job id");
    let r = b.start_core_job(job("x", ""), Ok(json(r#"{"jobId":"c","receipt":"r"}"#)));
    assert_eq!(r.unwrap(), "b1");
}

#[test]
fn envelopes_are_opened() {
    assert_eq!(engine_result(Ok(json(r#"{"success":true,"value":5}"#))).unwrap().to_text(), "5");
    assert_eq!(engine_result(Ok(json(r#"{"success":true}"#))).unwrap().to_text(), "null");
    assert_eq!(engine_result(Ok(json(r#"{"ok":true,"result":[1]}"#))).unwrap().to_text(), "[1]");
    assert_eq!(engine_result(Ok(json(r#"{"ok":true,"a":1}"#))).unwrap().to_text(), r#"{"a":1,"ok":true}"#);
    assert_eq!(engine_result(Ok(json(r#"{"ok":"yes"}"#))).unwrap().to_text(), r#"{"ok":"yes"}"#);
    assert_eq!(engine_result(Ok(json("7"))).unwrap().to_text(), "7");
    assert_eq!(pass_on(Ok(json(r#"{"success":true,"value":{"seed":"a b"}}"#))), r#"{"ok":true,"seed":"a b"}"#);
    assert_eq!(pass_on(Ok(json(r#"{"success":true}"#))), r#"{"ok":true}"#);
    assert_eq!(pass_on(Err("Gone".into())), r#"{"error":"wallet core: Gone","ok":false}"#);
}

#[test]
fn a_wallet_that_has_opened_is_remembered() {
    let mut b = Backend::default();
    let meta = WalletMeta { network: "testnet".into(), label: "L".into(), ..Default::default() };
    let create = EngineJob { meta: Some(meta), ..job("create_wallet", "w") };
    b.start_core_job(create, ticket(1)).unwrap();
    let done = b.finish_job("b1", Ok(json(r#"{"address":"9x","watchOnly":true}"#)), 0);
    assert!(done.store_registry);
    assert_eq!(done.events, vec![Event::JobFinished("b1".into(), "done".into())]);
    let m = b.registry.get("w").unwrap();
    assert_eq!((m.network.as_str(), m.label.as_str(), m.address.as_str(), m.view_only), ("testnet", "L", "9x", true));
    b.start_core_job(job("open_wallet", "w"), ticket(2)).unwrap();
    b.finish_job("b2", Ok(Json::object()), 0);
    assert_eq!(b.registry.get("w").unwrap().label, "L");
    assert_eq!(b.registry.get("w").unwrap().address, "9x");
    b.start_core_job(job("open_wallet", "new"), ticket(3)).unwrap();
    b.finish_job("b3", Ok(Json::Null), 0);
    assert_eq!(b.registry.get("new").unwrap().network, "stagenet");
    assert_eq!(
        b.job_status("b1"),
        r#"{"error":null,"jobId":"b1","kind":"create_wallet","ok":true,"result":{"address":"9x","watchOnly":true},"state":"done"}"#
    );
}

#[test]
fn a_job_that_failed_says_why() {
    let mut b = Backend::default();
    b.start_core_job(job("open_wallet", "w"), ticket(1)).unwrap();
    let done = b.finish_job("b1", Err("bad password".into()), 0);
    assert!(!done.store_registry);
    assert_eq!(done.events, vec![Event::JobFinished("b1".into(), "failed".into())]);
    assert!(b.registry.get("w").is_none());
    assert_eq!(
        b.job_status("b1"),
        r#"{"error":"bad password","jobId":"b1","kind":"open_wallet","ok":true,"result":null,"state":"failed"}"#
    );
    assert!(b.finish_job("b7", Ok(Json::Null), 0).events.is_empty());
    b.start_core_job(job("commit_transaction", "s9"), ticket(2)).unwrap();
    let done = b.finish_job("b2", Err("x".into()), 0);
    assert_eq!(
        done.events,
        vec![Event::SendStatusChanged("s9".into(), "failed".into()), Event::JobFinished("b2".into(), "failed".into())]
    );
    assert!(b.sends.get("s9").is_none());
}

#[test]
fn a_send_is_drafted_from_its_request() {
    let d = read_send(r#"{"address":"4a","amountXmr":" 0.5 ","amount":"9"}"#).unwrap();
    assert_eq!((d.address.as_str(), d.amount.as_str()), ("4a", "500000000000"));
    let d = read_send(r#"{"address":"4a","amount":"whatever"}"#).unwrap();
    assert_eq!(d.amount, "whatever");
    assert_eq!(read_send(r#"{"address":"4a","amountXmr":"0.0000000000001"}"#).unwrap_err(), "amountXmr is not a valid XMR amount (max 12 decimals)");
    assert_eq!(read_send(r#"{"address":"4a"}"#).unwrap_err(), "amountXmr or amount is required");
    assert_eq!(read_send(r#"{"address":"4a","amount":5}"#).unwrap_err(), "amountXmr or amount is required");
    assert_eq!(read_send(r#"{"amount":"5"}"#).unwrap_err(), "address is required");
    assert_eq!(read_send(r#"{"amount":"5","address":""}"#).unwrap_err(), "address is required");
    assert_eq!(read_send("nonsense").unwrap_err(), "expected ident at line 1 column 2");
    assert_eq!(draft_send(json(r#"{"address":"4a","amount":"5"}"#)).unwrap().request.to_text(), r#"{"address":"4a","amount":"5"}"#);
}

#[test]
fn a_send_is_begun_once_its_address_is_valid() {
    let mut b = Backend::default();
    let draft = read_send(r#"{"address":"4a","amount":"5","priority":2}"#).unwrap();
    assert_eq!(b.begin_send(draft, false).unwrap_err(), "invalid address for the active network");
    let draft = read_send(r#"{"address":"4a","amount":"5","priority":2}"#).unwrap();
    let build = b.begin_send(draft, true).unwrap();
    assert_eq!((build.kind.as_str(), build.wallet.as_str()), ("create_transaction", "s1"));
    assert_eq!(build.params.to_text(), r#"{"accountIndex":0,"address":"4a","amount":"5","priority":2}"#);
    let draft = read_send(r#"{"address":"4a","amount":"5"}"#).unwrap();
    assert_eq!(b.begin_send(draft, true).unwrap_err(), "a send is already in flight (s1: preparing)");
    let (reply, event) = b.send_started("s1", Ok("b1".into()));
    assert_eq!(reply, r#"{"ok":true,"requestId":"s1"}"#);
    assert_eq!(event, Some(Event::SendStatusChanged("s1".into(), "preparing".into())));
    let (reply, event) = b.send_started("s1", Err("engine returned no job id".into()));
    assert_eq!(reply, r#"{"error":"engine returned no job id","ok":false}"#);
    assert_eq!(event, None);
    assert_eq!(b.sends.get("s1").unwrap().state, SendState::Failed("engine returned no job id".into()));
}

#[test]
fn a_send_goes_through_review_to_broadcast() {
    let mut b = Backend::default();
    let id = previewed(&mut b, 100);
    assert_eq!(
        b.send_status(&id),
        r#"{"error":null,"ok":true,"preview":{"amount":"1500000000000","amountXmr":"1.500000000000","destination":"4addr","fee":"30000000","feeXmr":"0.000030000000","total":"1500030000000","totalXmr":"1.500030000000","txCount":2,"txids":"t1"},"requestId":"s1","state":"previewed","txids":null}"#
    );
    let (commit, event) = b.confirm_send(&id, 100).unwrap();
    assert_eq!((commit.kind.as_str(), commit.wallet.as_str()), ("commit_transaction", "s1"));
    assert_eq!(commit.params.to_text(), r#"{"txHandle":"h1"}"#);
    assert_eq!(event, Event::SendStatusChanged("s1".into(), "committing".into()));
    assert_eq!(b.confirm_send(&id, 100).map(|_| ()).unwrap_err(), "send is committing, not previewed");
    assert_eq!(b.cancel_send(&id).map(|_| ()).unwrap_err(), "cannot cancel a broadcast in progress");
    let job_id = b.start_core_job(commit, ticket(2)).unwrap();
    let done = b.finish_job(&job_id, Ok(json(r#"{"txids":"t1"}"#)), 200);
    assert_eq!(
        done.events,
        vec![Event::SendStatusChanged("s1".into(), "sent".into()), Event::JobFinished("b2".into(), "done".into())]
    );
    assert_eq!(b.sends.get(&id).unwrap().state, SendState::Sent);
    assert_eq!(b.sends.get(&id).unwrap().txids.as_deref(), Some("t1"));
    assert_eq!(b.cancel_send(&id).map(|_| ()).unwrap_err(), "send already sent");
}

#[test]
fn a_preview_of_which_little_is_known() {
    let mut b = Backend::default();
    b.sends.begin(Json::object()).unwrap();
    b.start_core_job(job("create_transaction", "s1"), ticket(1)).unwrap();
    b.finish_job("b1", Ok(json(r#"{"amount":"18446744073709551615","fee":"1"}"#)), 0);
    let preview = b.sends.get("s1").unwrap().preview.clone().unwrap();
    assert_eq!(preview.text_at("total"), Some("18446744073709551615"), "the sum stops at the largest amount");
    assert_eq!(preview.to_text(), r#"{"amount":"18446744073709551615","amountXmr":"18446744.073709551615","destination":"","fee":"1","feeXmr":"0.000000000001","total":"18446744073709551615","totalXmr":"18446744.073709551615","txCount":1,"txids":""}"#);
    assert_eq!(b.confirm_send("s1", 100).map(|_| ()).unwrap_err(), "no transaction handle");
    assert_eq!(b.confirm_send("s2", 100).map(|_| ()).unwrap_err(), "unknown requestId");
    assert_eq!(b.cancel_send("s2").map(|_| ()).unwrap_err(), "unknown requestId");
    assert_eq!(b.send_status("s2"), r#"{"error":"unknown requestId","ok":false}"#);
}

#[test]
fn a_withdrawn_send_lets_its_transaction_go() {
    let mut b = Backend::default();
    let id = previewed(&mut b, 0);
    let done = b.cancel_send(&id).unwrap();
    assert_eq!(done.reply, r#"{"ok":true,"requestId":"s1"}"#);
    assert_eq!(done.event, Event::SendStatusChanged("s1".into(), "cancelled".into()));
    assert_eq!(done.dispose.unwrap().to_text(), r#"{"txHandle":"h1"}"#);
    assert!(b.sends.get(&id).unwrap().tx_handle.is_none());
    assert_eq!(b.confirm_send(&id, 100).map(|_| ()).unwrap_err(), "send is cancelled, not previewed");
    assert_eq!(b.cancel_send(&id).map(|_| ()).unwrap_err(), "send already cancelled");
    let draft = read_send(r#"{"address":"4a","amount":"5"}"#).unwrap();
    let build = b.begin_send(draft, true).unwrap();
    assert_eq!(build.wallet, "s2");
    assert!(b.cancel_send("s2").unwrap().dispose.is_none());
}

#[test]
fn a_send_that_was_withdrawn_meanwhile_stays_withdrawn() {
    let mut b = Backend::default();
    let draft = read_send(r#"{"address":"4a","amount":"5"}"#).unwrap();
    let build = b.begin_send(draft, true).unwrap();
    b.start_core_job(build, ticket(1)).unwrap();
    b.cancel_send("s1").unwrap();
    let draft = read_send(r#"{"address":"4a","amount":"6"}"#).unwrap();
    b.begin_send(draft, true).unwrap();
    assert_eq!(b.sends.open_requests(), ["s2"]);
    let done = b.finish_job("b1", Ok(json(r#"{"txHandle":"h"}"#)), 0);
    assert_eq!(done.events, vec![Event::JobFinished("b1".into(), "done".into())]);
    assert_eq!(b.sends.get("s1").unwrap().state, SendState::Cancelled);
    assert!(b.sends.get("s1").unwrap().tx_handle.is_none());
    assert_eq!(b.sends.open_requests(), ["s2"]);
}

#[test]
fn a_withdrawn_send_fails_with_its_job_and_stays_at_its_end() {
    let mut b = Backend::default();
    let draft = read_send(r#"{"address":"4a","amount":"5"}"#).unwrap();
    let build = b.begin_send(draft, true).unwrap();
    b.start_core_job(build, ticket(1)).unwrap();
    b.cancel_send("s1").unwrap();
    let done = b.finish_job("b1", Err("no".into()), 0);
    assert_eq!(
        done.events,
        vec![Event::SendStatusChanged("s1".into(), "failed".into()), Event::JobFinished("b1".into(), "failed".into())]
    );
    assert_eq!(b.sends.get("s1").unwrap().state, SendState::Failed("no".into()));
    assert!(b.sends.open_requests().is_empty());
    let (reply, event) = b.send_started("s1", Err("busy".into()));
    assert_eq!((reply.as_str(), event), (r#"{"error":"busy","ok":false}"#, None));
    assert_eq!(b.sends.get("s1").unwrap().state, SendState::Failed("busy".into()));
}

#[test]
fn a_send_fails_with_its_job() {
    let mut b = Backend::default();
    let draft = read_send(r#"{"address":"4a","amount":"5"}"#).unwrap();
    let build = b.begin_send(draft, true).unwrap();
    b.start_core_job(build, ticket(1)).unwrap();
    let done = b.finish_job("b1", Err("no funds".into()), 0);
    assert_eq!(
        done.events,
        vec![Event::SendStatusChanged("s1".into(), "failed".into()), Event::JobFinished("b1".into(), "failed".into())]
    );
    assert_eq!(b.sends.get("s1").unwrap().state, SendState::Failed("no funds".into()));
}

#[test]
fn a_send_advances_only_with_the_job_it_waits_for() {
    let mut b = Backend::default();
    b.sends.begin(Json::object()).unwrap();
    b.start_core_job(job("commit_transaction", "s1"), ticket(1)).unwrap();
    let done = b.finish_job("b1", Ok(json(r#"{"txids":"t"}"#)), 0);
    assert_eq!(done.events, vec![Event::JobFinished("b1".into(), "done".into())]);
    assert_eq!(b.sends.get("s1").unwrap().state, SendState::Preparing);
    assert!(b.sends.get("s1").unwrap().txids.is_none());
}

#[test]
fn a_stale_preview_is_refused_before_it_is_swept() {
    let mut b = Backend::default();
    let id = previewed(&mut b, 10);
    assert_eq!(b.confirm_send(&id, 11 + PREVIEW_TTL).map(|_| ()).unwrap_err(), "preview expired");
    assert_eq!(b.sends.get(&id).unwrap().state, SendState::Previewed);
    let (commit, _) = b.confirm_send(&id, 10 + PREVIEW_TTL).unwrap();
    assert_eq!(commit.kind, "commit_transaction");
}

#[test]
fn what_has_not_changed_is_not_told() {
    let mut b = Backend::default();
    let status = json(r#"{"state":"syncing","walletHeight":50,"daemonHeight":200,"x":1}"#);
    let seen = b.see_status(&status);
    assert!(seen.ask_balance);
    assert_eq!(
        seen.events,
        vec![
            Event::WalletStateChanged(r#"{"activeNetwork":"stagenet","daemonHeight":200,"ok":true,"state":"syncing","syncPercent":25,"walletHeight":50,"x":1}"#.into()),
            Event::SyncProgressed(r#"{"daemonHeight":200,"percent":25,"synchronized":false,"walletHeight":50}"#.into()),
        ]
    );
    assert!(b.see_status(&status).events.is_empty());
    let seen = b.see_status(&json(r#"{"state":"syncing","walletHeight":250,"daemonHeight":200,"synchronized":true}"#));
    assert_eq!(
        seen.events,
        vec![Event::SyncProgressed(r#"{"daemonHeight":200,"percent":100,"synchronized":true,"walletHeight":250}"#.into())]
    );
    assert_eq!(
        b.see_status(&json("[7]")).events[0],
        Event::WalletStateChanged("[7]".into()),
        "what is no status is told as it is"
    );
    b.see_status(&status);
    let seen = b.see_status(&Json::Null);
    assert!(!seen.ask_balance);
    assert_eq!(seen.events.len(), 2);
    assert_eq!(
        b.see_balance(Some("7".into()), None),
        Some(Event::BalanceChanged(r#"{"balance":"7","unlocked":"0"}"#.into()))
    );
    assert_eq!(b.see_balance(Some("7".into()), Some("0".into())), None);
}

#[test]
fn expired_previews_are_told() {
    let mut b = Backend::default();
    let id = previewed(&mut b, 10);
    assert!(b.expire_sends(10 + PREVIEW_TTL).is_empty());
    assert_eq!(b.expire_sends(11 + PREVIEW_TTL), vec![Event::SendStatusChanged(id.clone(), "failed".into())]);
    assert_eq!(b.confirm_send(&id, 100).map(|_| ()).unwrap_err(), "send is failed, not previewed");
}
