//! What the engine's jobs are for: what a started job is, what is told of it, and what its end does
//! to the wallets and the sends.

use vstd::prelude::*;

use crate::backend::jobs::{
    is_send_job, opens_wallet, preview_of, start_outcome, start_reply, step_of, total_of, JobStepView,
};
use crate::backend::{
    engine_outcome, err_reply, job_id, ok_reply, passed_on, unwrapped, Backend, BackendView, EventView,
};
use crate::json::JsonView;
use crate::model::amount::{formatted, parse_undoes_format, parsed};
use crate::model::history::shown;
use crate::model::registry::WalletMetaView;
use crate::model::sends::SendStateView;
use crate::ordered::filter_push;
use crate::text::{numeral, numeral_reads_back, u64_of};

verus! {

// ---------------------------------------------------------------------------------------------
// Replies and envelopes
// ---------------------------------------------------------------------------------------------

/// Law: a good reply carries all that it has to tell, beside the mark of success.
pub proof fn a_good_reply_carries_everything(value: JsonView, field: Seq<char>)
    requires
        value.takes_fields(),
    ensures
        ok_reply(value).get("ok"@) == Some(JsonView::Bool(true)),
        field != "ok"@ ==> ok_reply(value).get(field) == value.get(field),
        ok_reply(value) is Object,
{
}

/// Law: a bad reply says that it is one and why, and nothing else.
pub proof fn a_bad_reply_says_why(words: Seq<char>, field: Seq<char>)
    ensures
        err_reply(words).get("ok"@) == Some(JsonView::Bool(false)),
        err_reply(words).get("error"@) == Some(JsonView::Text(words)),
        err_reply(words).get(field) is Some ==> field == "ok"@ || field == "error"@,
{
    reveal_strlit("ok");
    reveal_strlit("error");
    assert("ok"@.len() == 2);
    assert("error"@.len() == 5);
}

/// Law: what an envelope holds. A success holds its value, or null; a good reply its result, or
/// itself; a failure of either its error, or that there was one; and what is no envelope is
/// itself.
pub proof fn what_an_envelope_holds(value: JsonView)
    ensures
        value.get("success"@) == Some(JsonView::Bool(true)) ==> unwrapped(value)
            == Ok::<JsonView, Seq<char>>(
            if value.get("value"@) is Some {
                value.get("value"@)->0
            } else {
                JsonView::Null
            },
        ),
        value.get("success"@) == Some(JsonView::Bool(false)) ==> unwrapped(value)
            == Err::<JsonView, Seq<char>>(
            if value.text_at("error"@) is Some {
                value.text_at("error"@)->0
            } else {
                "engine error"@
            },
        ),
        !(value.get("success"@) is Some && value.get("success"@)->0 is Bool) ==> {
            &&& value.get("ok"@) == Some(JsonView::Bool(true)) ==> unwrapped(value)
                == Ok::<JsonView, Seq<char>>(
                if value.get("result"@) is Some {
                    value.get("result"@)->0
                } else {
                    value
                },
            )
            &&& value.get("ok"@) == Some(JsonView::Bool(false)) ==> unwrapped(value)
                == Err::<JsonView, Seq<char>>(
                if value.text_at("error"@) is Some {
                    value.text_at("error"@)->0
                } else {
                    "engine error"@
                },
            )
            &&& !(value.get("ok"@) is Some && value.get("ok"@)->0 is Bool) ==> unwrapped(value)
                == Ok::<JsonView, Seq<char>>(value)
        },
{
}

/// Law: a call of the engine gives what is in its envelope; a call that failed names the engine.
pub proof fn what_a_call_gives(value: JsonView, words: Seq<char>)
    ensures
        engine_outcome(Ok::<JsonView, Seq<char>>(value)) == unwrapped(value),
        engine_outcome(Err::<JsonView, Seq<char>>(words)) == Err::<JsonView, Seq<char>>(
            "wallet core: "@ + words,
        ),
{
}

/// Law: what the engine gives is handed on as it is, or why it gives nothing.
pub proof fn what_is_handed_on(value: JsonView, words: Seq<char>, field: Seq<char>)
    requires
        value.takes_fields(),
    ensures
        passed_on(Ok::<JsonView, Seq<char>>(value)).get("ok"@) == Some(JsonView::Bool(true)),
        field != "ok"@ ==> passed_on(Ok::<JsonView, Seq<char>>(value)).get(field) == value.get(field),
        passed_on(Err::<JsonView, Seq<char>>(words)).get("ok"@) == Some(JsonView::Bool(false)),
        passed_on(Err::<JsonView, Seq<char>>(words)).get("error"@) == Some(JsonView::Text(words)),
{
    a_bad_reply_says_why(words, field);
}

// ---------------------------------------------------------------------------------------------
// Starting
// ---------------------------------------------------------------------------------------------

/// Law: a job has started just where the engine's value names both a job and a receipt.
pub proof fn when_a_job_has_started(
    r: Result<JsonView, Seq<char>>,
    id: Seq<char>,
    receipt: Seq<char>,
)
    ensures
        start_outcome(r) == Ok::<(Seq<char>, Seq<char>), Seq<char>>((id, receipt)) <==> engine_outcome(
            r,
        ) is Ok && engine_outcome(r)->Ok_0.get("jobId"@) == Some(JsonView::Text(id))
            && engine_outcome(r)->Ok_0.get("receipt"@) == Some(JsonView::Text(receipt)),
        engine_outcome(r) is Err ==> start_outcome(r) == Err::<(Seq<char>, Seq<char>), Seq<char>>(
            engine_outcome(r)->Err_0,
        ),
        engine_outcome(r) is Ok && (engine_outcome(r)->Ok_0.text_at("jobId"@) is None
            || engine_outcome(r)->Ok_0.text_at("receipt"@) is None) ==> start_outcome(r)
            == Err::<(Seq<char>, Seq<char>), Seq<char>>("engine returned no job id"@),
{
}

/// Law: the reply to a start names the job, or says why it did not start, and nothing else.
pub proof fn what_is_told_of_a_start(id: Seq<char>, words: Seq<char>, field: Seq<char>)
    ensures
        ({
            let told = start_reply(Ok::<Seq<char>, Seq<char>>(id));
            &&& told.get("ok"@) == Some(JsonView::Bool(true))
            &&& told.get("jobId"@) == Some(JsonView::Text(id))
            &&& told.get(field) is Some ==> field == "ok"@ || field == "jobId"@
        }),
        ({
            let told = start_reply(Err::<Seq<char>, Seq<char>>(words));
            &&& told.get("ok"@) == Some(JsonView::Bool(false))
            &&& told.get("error"@) == Some(JsonView::Text(words))
            &&& told.get(field) is Some ==> field == "ok"@ || field == "error"@
        }),
{
    reveal_strlit("ok");
    reveal_strlit("jobId");
    reveal_strlit("error");
    assert("ok"@.len() == 2);
    assert("jobId"@.len() == 5);
    assert("error"@.len() == 5);
    assert("jobId"@[0] != "error"@[0]);
}

/// Law: a started job is followed under the next id, as it was started; every other job, and all
/// else, stays as it was.
pub proof fn a_started_job_is_followed(
    b: BackendView,
    kind: Seq<char>,
    core: (Seq<char>, Seq<char>),
    wallet: Seq<char>,
    meta: Option<WalletMetaView>,
    other: Seq<char>,
)
    requires
        b.next_job < u64::MAX,
    ensures
        ({
            let after = b.tracking(kind, core, wallet, meta);
            let id = job_id(b.next_job as nat);
            let job = after.jobs[id];
            &&& after.jobs.contains_key(id)
            &&& job.kind == kind && job.core == core && job.wallet == wallet && job.meta == meta
            &&& job.state == "queued"@
            &&& after.next_job == b.next_job + 1
            &&& other != id ==> (after.jobs.contains_key(other) <==> b.jobs.contains_key(other))
            &&& other != id && b.jobs.contains_key(other) ==> after.jobs[other] == b.jobs[other]
            &&& after.registry == b.registry && after.sends == b.sends && after.active == b.active
            &&& after.next_send == b.next_send && after.last_state == b.last_state
            &&& after.last_sync == b.last_sync && after.last_balance == b.last_balance
        }),
{
}

/// Law: the id of a job is a b and its number.
pub proof fn the_id_of_a_job(n: nat)
    ensures
        job_id(n).len() == numeral(n).len() + 1,
        job_id(n)[0] == 'b',
        job_id(n).skip(1) == numeral(n),
{
    reveal_strlit("b");
    assert(job_id(n).skip(1) =~= numeral(n));
}

// ---------------------------------------------------------------------------------------------
// Polling
// ---------------------------------------------------------------------------------------------

/// What is kept of a list is what it has and what is picked.
proof fn kept(names: Seq<Seq<char>>, pred: spec_fn(Seq<char>) -> bool, name: Seq<char>)
    ensures
        names.filter(pred).contains(name) <==> names.contains(name) && pred(name),
    decreases names.len(),
{
    if names.len() == 0 {
        reveal(Seq::filter);
        assert(names.filter(pred) =~= names);
    } else {
        let rest = names.drop_last();
        kept(rest, pred, name);
        filter_push(rest, pred, names.last());
        assert(rest.push(names.last()) =~= names);
        let part = rest.filter(pred);
        let all = names.filter(pred);
        if part.contains(name) {
            let i = choose|i: int| 0 <= i < part.len() && part[i] == name;
            assert(all[i] == name);
        }
        if rest.contains(name) {
            let i = choose|i: int| 0 <= i < rest.len() && rest[i] == name;
            assert(names[i] == name);
        }
        if names.contains(name) && pred(name) && !rest.contains(name) {
            let i = choose|i: int| 0 <= i < names.len() && names[i] == name;
            assert(i == names.len() - 1);
            assert(all[all.len() - 1] == name);
        }
        if all.contains(name) && !part.contains(name) {
            let i = choose|i: int| 0 <= i < all.len() && all[i] == name;
            assert(i == part.len());
            assert(names[names.len() - 1] == name);
        }
    }
}

/// Law: just the jobs that are queued or running are polled, each under its own ticket.
pub proof fn what_is_polled(b: Backend, id: Seq<char>, i: int)
    requires
        b.wf(),
    ensures
        (exists|k: int| 0 <= k < b.polls().len() && (#[trigger] b.polls()[k]).0 == id)
            <==> b@.jobs.contains_key(id) && (b@.jobs[id].state == "queued"@ || b@.jobs[id].state
            == "running"@),
        0 <= i < b.polls().len() ==> b.polls()[i].1 == b@.jobs[b.polls()[i].0].core,
{
    let names = b.jobs.names();
    let pred = |id: Seq<char>| b@.jobs[id].waits();
    let waiting = names.filter(pred);
    kept(names, pred, id);
    assert(names.contains(id) <==> b@.jobs.contains_key(id));
    if waiting.contains(id) {
        let k = choose|k: int| 0 <= k < waiting.len() && waiting[k] == id;
        assert(b.polls()[k].0 == id);
    }
    if exists|k: int| 0 <= k < b.polls().len() && (#[trigger] b.polls()[k]).0 == id {
        let k = choose|k: int| 0 <= k < b.polls().len() && (#[trigger] b.polls()[k]).0 == id;
        assert(waiting[k] == id);
    }
}

/// Law: what the engine's status of a job asks for: one that is done is collected, one that failed
/// fails with its error, another state is noted, and where there is none nothing is done.
pub proof fn what_a_status_asks_for(status: JsonView)
    ensures
        status.get("state"@) == Some(JsonView::Text("done"@)) ==> step_of(status) is Collect,
        status.get("state"@) == Some(JsonView::Text("failed"@)) ==> step_of(status)
            == JobStepView::Fail(
            if status.text_at("error"@) is Some {
                status.text_at("error"@)->0
            } else {
                "job failed"@
            },
        ),
        status.text_at("state"@) is Some && status.text_at("state"@)->0.len() > 0
            && status.text_at("state"@)->0 != "done"@ && status.text_at("state"@)->0 != "failed"@
            ==> step_of(status) == JobStepView::Note(status.text_at("state"@)->0),
        status.text_at("state"@) is None || status.text_at("state"@)->0.len() == 0 ==> step_of(status) is Wait,
{
    reveal_strlit("done");
    reveal_strlit("failed");
    assert("done"@.len() == 4);
    assert("failed"@.len() == 6);
    reveal_strlit("");
}

/// Law: noting a job's state changes that and nothing else.
pub proof fn what_noting_changes(b: BackendView, id: Seq<char>, state: Seq<char>, other: Seq<char>)
    ensures
        ({
            let after = b.noted(id, state);
            &&& after.jobs.contains_key(other) <==> b.jobs.contains_key(other)
            &&& b.jobs.contains_key(id) ==> after.jobs[id].state == state
            &&& b.jobs.contains_key(id) ==> after.jobs[id].kind == b.jobs[id].kind
            &&& b.jobs.contains_key(id) ==> after.jobs[id].core == b.jobs[id].core
            &&& b.jobs.contains_key(id) ==> after.jobs[id].wallet == b.jobs[id].wallet
            &&& b.jobs.contains_key(id) ==> after.jobs[id].meta == b.jobs[id].meta
            &&& other != id && b.jobs.contains_key(other) ==> after.jobs[other] == b.jobs[other]
            &&& after.registry == b.registry && after.sends == b.sends && after.active == b.active
            &&& after.next_job == b.next_job && after.next_send == b.next_send
        }),
{
}

/// Law: what is told of a job: its id, its kind, its state, its result once it is done and its
/// error once it has failed, null before, and nothing else; of a job that is not there, that.
pub proof fn what_is_told_of_a_job(b: BackendView, id: Seq<char>, field: Seq<char>)
    ensures
        b.jobs.contains_key(id) ==> ({
            let job = b.jobs[id];
            let told = b.job_told(id);
            &&& told.get("ok"@) == Some(JsonView::Bool(true))
            &&& told.get("jobId"@) == Some(JsonView::Text(id))
            &&& told.get("kind"@) == Some(JsonView::Text(job.kind))
            &&& told.get("state"@) == Some(JsonView::Text(job.state))
            &&& job.state == "done"@ ==> told.get("result"@) == Some(job.result)
            &&& job.state != "done"@ ==> told.get("result"@) == Some(JsonView::Null)
            &&& job.state == "failed"@ ==> told.get("error"@) == Some(JsonView::Text(job.error))
            &&& job.state != "failed"@ ==> told.get("error"@) == Some(JsonView::Null)
            &&& told.get(field) is Some ==> {
                ||| field == "ok"@
                ||| field == "jobId"@
                ||| field == "kind"@
                ||| field == "state"@
                ||| field == "result"@
                ||| field == "error"@
            }
        }),
        !b.jobs.contains_key(id) ==> ({
            let told = b.job_told(id);
            &&& told.get("ok"@) == Some(JsonView::Bool(false))
            &&& told.get("error"@) == Some(JsonView::Text("unknown jobId"@))
        }),
{
    reveal_strlit("jobId");
    reveal_strlit("kind");
    reveal_strlit("state");
    reveal_strlit("result");
    reveal_strlit("error");
    reveal_strlit("ok");
    assert("jobId"@.len() == 5);
    assert("kind"@.len() == 4);
    assert("state"@.len() == 5);
    assert("result"@.len() == 6);
    assert("error"@.len() == 5);
    assert("ok"@.len() == 2);
    assert("jobId"@[0] != "state"@[0]);
    assert("jobId"@[0] != "error"@[0]);
    assert("state"@[0] != "error"@[0]);
}

// ---------------------------------------------------------------------------------------------
// The end of a job
// ---------------------------------------------------------------------------------------------

/// Law: the jobs that open a wallet, and those of a send.
pub proof fn the_kinds_of_jobs(kind: Seq<char>)
    ensures
        opens_wallet(kind) <==> {
            ||| kind == "open_wallet"@
            ||| kind == "create_wallet"@
            ||| kind == "restore_from_seed"@
            ||| kind == "restore_from_keys"@
        },
        is_send_job(kind) <==> kind == "create_transaction"@ || kind == "commit_transaction"@,
        !(opens_wallet(kind) && is_send_job(kind)),
{
    reveal_strlit("open_wallet");
    reveal_strlit("create_wallet");
    reveal_strlit("restore_from_seed");
    reveal_strlit("restore_from_keys");
    reveal_strlit("create_transaction");
    reveal_strlit("commit_transaction");
    assert("open_wallet"@.len() == 11);
    assert("create_wallet"@.len() == 13);
    assert("restore_from_seed"@.len() == 17);
    assert("restore_from_keys"@.len() == 17);
    assert("create_transaction"@.len() == 18);
    assert("commit_transaction"@.len() == 18);
    assert("restore_from_seed"@[13] != "restore_from_keys"@[13]);
    assert("create_transaction"@[1] != "commit_transaction"@[1]);
}

/// Law: a job that has ended is told as ended, with its result or its error, and stays what it
/// was; every other job stays as it was, and so does all that no end of a job is about.
pub proof fn what_the_end_of_a_job_leaves(
    b: BackendView,
    id: Seq<char>,
    outcome: Result<JsonView, Seq<char>>,
    now: u128,
    other: Seq<char>,
)
    ensures
        ({
            let after = b.finished(id, outcome, now);
            &&& !b.jobs.contains_key(id) ==> after == b
            &&& b.jobs.contains_key(id) ==> after.jobs.contains_key(id)
            &&& b.jobs.contains_key(id) && outcome is Ok ==> after.jobs[id].state == "done"@
                && after.jobs[id].result == outcome->Ok_0
            &&& b.jobs.contains_key(id) && outcome is Err ==> after.jobs[id].state == "failed"@
                && after.jobs[id].error == outcome->Err_0
            &&& b.jobs.contains_key(id) ==> after.jobs[id].kind == b.jobs[id].kind
                && after.jobs[id].core == b.jobs[id].core && after.jobs[id].wallet == b.jobs[id].wallet
            &&& other != id ==> (after.jobs.contains_key(other) <==> b.jobs.contains_key(other))
            &&& other != id && b.jobs.contains_key(other) ==> after.jobs[other] == b.jobs[other]
            &&& after.active == b.active && after.next_job == b.next_job
            &&& after.next_send == b.next_send && after.last_state == b.last_state
            &&& after.last_sync == b.last_sync && after.last_balance == b.last_balance
        }),
{
}

/// Law: a wallet that has opened is remembered with what the engine has learned of it, whether it
/// was remembered before or not; what the engine has not said is as it was to be remembered, or
/// was; a wallet without a network is on the active one. No other wallet is touched.
pub proof fn an_opened_wallet_is_remembered(
    b: BackendView,
    id: Seq<char>,
    result: JsonView,
    now: u128,
    other: Seq<char>,
)
    requires
        b.jobs.contains_key(id),
        b.jobs[id].kind == "open_wallet"@ || b.jobs[id].kind == "create_wallet"@ || b.jobs[id].kind
            == "restore_from_seed"@ || b.jobs[id].kind == "restore_from_keys"@,
    ensures
        ({
            let wallet = b.jobs[id].wallet;
            let meta = b.jobs[id].meta;
            let after = b.finished(id, Ok::<JsonView, Seq<char>>(result), now);
            let now_known = after.registry[wallet];
            &&& after.registry.contains_key(wallet)
            &&& result.text_at("address"@) is Some ==> now_known.address == result.text_at("address"@)->0
            &&& result.bool_at("watchOnly"@) is Some ==> now_known.view_only == result.bool_at(
                "watchOnly"@,
            )->0
            &&& meta is Some ==> {
                &&& now_known.label == meta->0.label
                &&& now_known.restore_height == meta->0.restore_height
                &&& result.text_at("address"@) is None ==> now_known.address == meta->0.address
                &&& result.bool_at("watchOnly"@) is None ==> now_known.view_only == meta->0.view_only
                &&& meta->0.network.len() > 0 ==> now_known.network == meta->0.network
                &&& meta->0.network.len() == 0 ==> now_known.network == b.active
            }
            &&& meta is None && b.registry.contains_key(wallet) ==> {
                let known = b.registry[wallet];
                &&& now_known.label == known.label
                &&& now_known.restore_height == known.restore_height
                &&& result.text_at("address"@) is None ==> now_known.address == known.address
                &&& result.bool_at("watchOnly"@) is None ==> now_known.view_only == known.view_only
                &&& known.network.len() > 0 ==> now_known.network == known.network
                &&& known.network.len() == 0 ==> now_known.network == b.active
            }
            &&& meta is None && !b.registry.contains_key(wallet) ==> {
                &&& now_known.label.len() == 0
                &&& now_known.restore_height == 0
                &&& result.text_at("address"@) is None ==> now_known.address.len() == 0
                &&& result.bool_at("watchOnly"@) is None ==> !now_known.view_only
                &&& now_known.network == b.active
            }
            &&& other != wallet ==> (after.registry.contains_key(other) <==> b.registry.contains_key(other))
            &&& other != wallet && b.registry.contains_key(other) ==> after.registry[other]
                == b.registry[other]
            &&& b.finish_stores(id, Ok::<JsonView, Seq<char>>(result))
        }),
{
}

/// Law: nothing else touches the registry: neither a job of another kind nor one that has failed.
pub proof fn only_an_opened_wallet_is_remembered(
    b: BackendView,
    id: Seq<char>,
    outcome: Result<JsonView, Seq<char>>,
    now: u128,
)
    requires
        outcome is Err || !b.jobs.contains_key(id) || (b.jobs[id].kind != "open_wallet"@
            && b.jobs[id].kind != "create_wallet"@ && b.jobs[id].kind != "restore_from_seed"@
            && b.jobs[id].kind != "restore_from_keys"@),
    ensures
        b.finished(id, outcome, now).registry == b.registry,
        !b.finish_stores(id, outcome),
{
}

/// Law: a send whose transaction the engine has built waits for review, with the engine's handle,
/// its preview and the time; what was asked for stays.
pub proof fn a_built_send_waits_for_review(
    b: BackendView,
    id: Seq<char>,
    result: JsonView,
    now: u128,
)
    requires
        b.jobs.contains_key(id),
        b.jobs[id].kind == "create_transaction"@,
        b.sends.contains_key(b.jobs[id].wallet),
        b.sends[b.jobs[id].wallet].state is Preparing,
    ensures
        ({
            let before = b.sends[b.jobs[id].wallet];
            let send = b.finished(id, Ok::<JsonView, Seq<char>>(result), now).sends[b.jobs[id].wallet];
            &&& send.state is Previewed
            &&& send.tx_handle == result.text_at("txHandle"@)
            &&& send.prepared_at == Some(now)
            &&& send.preview is Some
            &&& shows(send.preview->0, result)
            &&& send.request_id == before.request_id && send.request == before.request
            &&& send.txids == before.txids
        }),
{
    what_a_preview_shows(result, Seq::empty());
}

/// Law: a send that the engine has broadcast is sent, with its transactions; the rest stays.
pub proof fn a_broadcast_send_is_sent(b: BackendView, id: Seq<char>, result: JsonView, now: u128)
    requires
        b.jobs.contains_key(id),
        b.jobs[id].kind == "commit_transaction"@,
        b.sends.contains_key(b.jobs[id].wallet),
        b.sends[b.jobs[id].wallet].state is Committing,
    ensures
        ({
            let before = b.sends[b.jobs[id].wallet];
            let send = b.finished(id, Ok::<JsonView, Seq<char>>(result), now).sends[b.jobs[id].wallet];
            &&& send.state is Sent
            &&& send.txids == result.text_at("txids"@)
            &&& send.request_id == before.request_id && send.request == before.request
            &&& send.preview == before.preview && send.tx_handle == before.tx_handle
            &&& send.prepared_at == before.prepared_at
        }),
{
    reveal_strlit("create_transaction");
    reveal_strlit("commit_transaction");
    assert("create_transaction"@.len() == 18);
    assert("commit_transaction"@.len() == 18);
    assert("create_transaction"@[1] != "commit_transaction"@[1]);
}

/// Law: a send whose job has failed has failed with the job's error; the rest of it stays.
pub proof fn a_send_fails_with_its_job(b: BackendView, id: Seq<char>, words: Seq<char>, now: u128)
    requires
        b.jobs.contains_key(id),
        b.jobs[id].kind == "create_transaction"@ || b.jobs[id].kind == "commit_transaction"@,
        b.sends.contains_key(b.jobs[id].wallet),
    ensures
        ({
            let before = b.sends[b.jobs[id].wallet];
            let send = b.finished(id, Err::<JsonView, Seq<char>>(words), now).sends[b.jobs[id].wallet];
            &&& send.state == SendStateView::Failed(words)
            &&& send.request_id == before.request_id && send.request == before.request
            &&& send.preview == before.preview && send.tx_handle == before.tx_handle
            &&& send.txids == before.txids && send.prepared_at == before.prepared_at
        }),
{
}

/// Law: the end of a job touches no send but its own, and none where it is of another kind or the
/// send does not wait for it.
pub proof fn no_other_send_is_touched(
    b: BackendView,
    id: Seq<char>,
    outcome: Result<JsonView, Seq<char>>,
    now: u128,
    send: Seq<char>,
)
    ensures
        ({
            let after = b.finished(id, outcome, now);
            let job = b.jobs[id];
            &&& after.sends.contains_key(send) <==> b.sends.contains_key(send)
            &&& b.sends.contains_key(send) && (send != job.wallet || (job.kind != "create_transaction"@
                && job.kind != "commit_transaction"@) || (outcome is Ok && b.sends[send].state !is Preparing
                && b.sends[send].state !is Committing)) ==> after.sends[send] == b.sends[send]
            &&& b.sends.contains_key(send) && outcome is Ok && job.kind == "create_transaction"@
                && b.sends[send].state !is Preparing ==> after.sends[send] == b.sends[send]
            &&& b.sends.contains_key(send) && outcome is Ok && job.kind == "commit_transaction"@
                && b.sends[send].state !is Committing ==> after.sends[send] == b.sends[send]
        }),
{
    reveal_strlit("create_transaction");
    reveal_strlit("commit_transaction");
    assert("create_transaction"@.len() == 18);
    assert("commit_transaction"@.len() == 18);
    assert("create_transaction"@[1] != "commit_transaction"@[1]);
}

/// Law: the surfaces are told of the end of a job, and before it of its send: the word for its new
/// state where it has advanced, and that it has failed where its job has.
pub proof fn what_is_told_of_the_end_of_a_job(
    b: BackendView,
    id: Seq<char>,
    outcome: Result<JsonView, Seq<char>>,
    now: u128,
)
    ensures
        ({
            let told = b.finish_events(id, outcome, now);
            let job = b.jobs[id];
            let of_send = job.kind == "create_transaction"@ || job.kind == "commit_transaction"@;
            let waited = of_send && b.sends.contains_key(job.wallet) && (b.sends[job.wallet].state is Preparing
                && job.kind == "create_transaction"@ || b.sends[job.wallet].state is Committing && job.kind
                == "commit_transaction"@);
            &&& !b.jobs.contains_key(id) ==> told.len() == 0
            &&& b.jobs.contains_key(id) && outcome is Ok ==> {
                &&& told.len() == if waited {
                    2int
                } else {
                    1int
                }
                &&& told.last() == EventView::JobFinished(id, "done"@)
                &&& waited && job.kind == "create_transaction"@ ==> told[0]
                    == EventView::SendStatusChanged(job.wallet, "previewed"@)
                &&& waited && job.kind == "commit_transaction"@ ==> told[0]
                    == EventView::SendStatusChanged(job.wallet, "sent"@)
            }
            &&& b.jobs.contains_key(id) && outcome is Err ==> {
                &&& told.len() == if of_send {
                    2int
                } else {
                    1int
                }
                &&& told.last() == EventView::JobFinished(id, "failed"@)
                &&& of_send ==> told[0] == EventView::SendStatusChanged(job.wallet, "failed"@)
            }
        }),
{
    reveal_strlit("create_transaction");
    reveal_strlit("commit_transaction");
    assert("create_transaction"@.len() == 18);
    assert("commit_transaction"@.len() == 18);
    assert("create_transaction"@[1] != "commit_transaction"@[1]);
}

// ---------------------------------------------------------------------------------------------
// Previews
// ---------------------------------------------------------------------------------------------

/// The preview shows amount, fee and total of what the engine has built, each in XMR too, and where
/// it goes, as how many transactions and which.
pub open spec fn shows(preview: JsonView, result: JsonView) -> bool {
    let amount = if result.text_at("amount"@) is Some {
        result.text_at("amount"@)->0
    } else {
        "0"@
    };
    let fee = if result.text_at("fee"@) is Some {
        result.text_at("fee"@)->0
    } else {
        "0"@
    };
    let total = preview.text_at("total"@)->0;
    &&& preview.get("amount"@) == Some(JsonView::Text(amount))
    &&& preview.get("fee"@) == Some(JsonView::Text(fee))
    &&& preview.text_at("total"@) is Some
    &&& u64_of(amount) is Some && u64_of(fee) is Some && u64_of(amount)->0 + u64_of(fee)->0 <= u64::MAX
        ==> u64_of(total) == Some((u64_of(amount)->0 + u64_of(fee)->0) as u64)
    &&& u64_of(amount) is Some && u64_of(fee) is Some && u64_of(amount)->0 + u64_of(fee)->0 > u64::MAX
        ==> u64_of(total) == Some(u64::MAX)
    &&& u64_of(amount) is Some && u64_of(fee) is None ==> u64_of(total) == u64_of(amount)
    &&& u64_of(amount) is None && u64_of(fee) is Some ==> u64_of(total) == u64_of(fee)
    &&& u64_of(amount) is None && u64_of(fee) is None ==> u64_of(total) == Some(0u64)
    &&& in_xmr(preview.get("amountXmr"@), amount)
    &&& in_xmr(preview.get("feeXmr"@), fee)
    &&& in_xmr(preview.get("totalXmr"@), total)
    &&& preview.get("destination"@) == Some(
        if result.get("destination"@) is Some {
            result.get("destination"@)->0
        } else {
            JsonView::Text(""@)
        },
    )
    &&& preview.get("txCount"@) == Some(
        if result.get("txCount"@) is Some {
            result.get("txCount"@)->0
        } else {
            JsonView::Unsigned(1)
        },
    )
    &&& preview.get("txids"@) == Some(
        if result.get("txids"@) is Some {
            result.get("txids"@)->0
        } else {
            JsonView::Text(""@)
        },
    )
}

/// The value is the text of these atomic units in XMR, exactly; nothing where they are none.
pub open spec fn in_xmr(value: Option<JsonView>, atomic: Seq<char>) -> bool {
    &&& value is Some
    &&& value->0 is Text
    &&& u64_of(atomic) is Some ==> formatted(atomic) == Some(value->0->Text_0) && parsed(
        value->0->Text_0,
    ) == Some(numeral(u64_of(atomic)->0 as nat))
    &&& u64_of(atomic) is None ==> value->0->Text_0.len() == 0
}

/// What is shown of an amount is that amount in XMR.
proof fn shown_in_xmr(atomic: Seq<char>)
    ensures
        in_xmr(Some(JsonView::Text(shown(atomic))), atomic),
{
    if u64_of(atomic) is Some {
        parse_undoes_format(atomic);
    }
}

/// Law: a preview shows what the engine has built, the total being amount and fee together, and
/// has no other field.
pub proof fn what_a_preview_shows(result: JsonView, field: Seq<char>)
    ensures
        shows(preview_of(result), result),
        preview_of(result).get(field) is Some ==> {
            ||| field == "destination"@
            ||| field == "amount"@
            ||| field == "amountXmr"@
            ||| field == "fee"@
            ||| field == "feeXmr"@
            ||| field == "total"@
            ||| field == "totalXmr"@
            ||| field == "txCount"@
            ||| field == "txids"@
        },
{
    let amount = result.text_or("amount"@, "0"@);
    let fee = result.text_or("fee"@, "0"@);
    let total = total_of(amount, fee);
    let a: nat = if u64_of(amount) is Some {
        u64_of(amount)->0 as nat
    } else {
        0
    };
    let f: nat = if u64_of(fee) is Some {
        u64_of(fee)->0 as nat
    } else {
        0
    };
    let sum: u64 = if a + f <= u64::MAX {
        (a + f) as u64
    } else {
        u64::MAX
    };
    assert(total == numeral(sum as nat));
    numeral_reads_back(sum);
    shown_in_xmr(amount);
    shown_in_xmr(fee);
    shown_in_xmr(total);
    reveal_strlit("destination");
    reveal_strlit("amount");
    reveal_strlit("amountXmr");
    reveal_strlit("fee");
    reveal_strlit("feeXmr");
    reveal_strlit("total");
    reveal_strlit("totalXmr");
    reveal_strlit("txCount");
    reveal_strlit("txids");
    assert("destination"@.len() == 11);
    assert("amount"@.len() == 6);
    assert("amountXmr"@.len() == 9);
    assert("fee"@.len() == 3);
    assert("feeXmr"@.len() == 6);
    assert("total"@.len() == 5);
    assert("totalXmr"@.len() == 8);
    assert("txCount"@.len() == 7);
    assert("txids"@.len() == 5);
    assert("amount"@[0] != "feeXmr"@[0]);
    assert("total"@[1] != "txids"@[1]);
    let preview = preview_of(result);
    assert(preview.get("total"@) == Some(JsonView::Text(total)));
    assert(preview.get("amountXmr"@) == Some(JsonView::Text(shown(amount))));
    assert(preview.get("feeXmr"@) == Some(JsonView::Text(shown(fee))));
    assert(preview.get("totalXmr"@) == Some(JsonView::Text(shown(total))));
    assert(preview.get("amount"@) == Some(JsonView::Text(amount)));
    assert(preview.get("fee"@) == Some(JsonView::Text(fee)));
}

} // verus!
