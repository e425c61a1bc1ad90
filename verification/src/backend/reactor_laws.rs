//! What the reactor is for: what it asks the engine, in which order, what it does with each answer,
//! and what the surfaces are told.

use vstd::prelude::*;

use crate::backend::reactor::{AnswerView, AskView, StageView, TurnView};
use crate::backend::watch::{
    balance_json, balance_or_zero, percent_of, progress_json, progress_of, wants_balance,
};
use crate::backend::{engine_outcome, BackendView, EventView};
use crate::json::{text_of_json, JsonView};
use crate::model::sends::SendStateView;

verus! {

// ---------------------------------------------------------------------------------------------
// Status and balance
// ---------------------------------------------------------------------------------------------

/// Law: the percentage is the whole part of what the wallet has followed of the chain.
pub proof fn what_the_percentage_counts(wallet_height: u64, daemon_height: u64)
    ensures
        daemon_height == 0 ==> percent_of(wallet_height, daemon_height) == 0,
        0 < daemon_height <= wallet_height ==> percent_of(wallet_height, daemon_height) == 100,
        wallet_height < daemon_height ==> percent_of(wallet_height, daemon_height) * daemon_height
            <= wallet_height * 100 < (percent_of(wallet_height, daemon_height) + 1) * daemon_height,
{
    if wallet_height < daemon_height {
        let part = wallet_height * 100;
        let whole = daemon_height as int;
        assert(0 <= part / whole < 100 && (part / whole) * whole <= part < (part / whole + 1) * whole)
            by (nonlinear_arith)
            requires
                whole > 0,
                0 <= part < whole * 100,
        ;
    }
}

/// Law: the progress is what the engine's status says of the heights, with the percentage, and is
/// told with nothing else.
pub proof fn what_is_told_of_the_progress(status: JsonView, field: Seq<char>)
    ensures
        ({
            let progress = progress_of(status);
            let told = progress_json(progress);
            &&& progress.wallet_height == status.unsigned_at("walletHeight"@)
            &&& progress.daemon_height == status.unsigned_at("daemonHeight"@)
            &&& progress.percent == percent_of(progress.wallet_height, progress.daemon_height)
            &&& progress.synchronized <==> status.get("synchronized"@) == Some(JsonView::Bool(true))
            &&& told.get("walletHeight"@) == Some(JsonView::Unsigned(progress.wallet_height))
            &&& told.get("daemonHeight"@) == Some(JsonView::Unsigned(progress.daemon_height))
            &&& told.get("percent"@) == Some(JsonView::Unsigned(progress.percent))
            &&& told.get("synchronized"@) == Some(JsonView::Bool(progress.synchronized))
            &&& told.get(field) is Some ==> {
                ||| field == "walletHeight"@
                ||| field == "daemonHeight"@
                ||| field == "percent"@
                ||| field == "synchronized"@
            }
        }),
{
    reveal_strlit("walletHeight");
    reveal_strlit("daemonHeight");
    reveal_strlit("percent");
    reveal_strlit("synchronized");
    assert("walletHeight"@.len() == 12);
    assert("daemonHeight"@.len() == 12);
    assert("percent"@.len() == 7);
    assert("synchronized"@.len() == 12);
    assert("walletHeight"@[0] != "daemonHeight"@[0]);
    assert("walletHeight"@[0] != "synchronized"@[0]);
    assert("daemonHeight"@[0] != "synchronized"@[0]);
}

/// Law: the balance is told as the engine gave it, zero where it gave none; it is asked for while
/// the wallet is ready or syncing.
pub proof fn what_is_told_of_the_balance(
    balance: Seq<char>,
    unlocked: Seq<char>,
    given: String,
    status: JsonView,
    field: Seq<char>,
)
    ensures
        balance_json(balance, unlocked).get("balance"@) == Some(JsonView::Text(balance)),
        balance_json(balance, unlocked).get("unlocked"@) == Some(JsonView::Text(unlocked)),
        balance_json(balance, unlocked).get(field) is Some ==> field == "balance"@ || field == "unlocked"@,
        balance_or_zero(Some(given)) == given@,
        balance_or_zero(None) == "0"@,
        wants_balance(status) <==> status.get("state"@) == Some(JsonView::Text("ready"@)) || status.get(
            "state"@,
        ) == Some(JsonView::Text("syncing"@)),
{
    reveal_strlit("balance");
    reveal_strlit("unlocked");
    reveal_strlit("ready");
    reveal_strlit("syncing");
    assert("balance"@.len() == 7);
    assert("unlocked"@.len() == 8);
    assert("ready"@.len() == 5);
    assert("syncing"@.len() == 7);
    assert("balance"@[0] != "syncing"@[0]);
    reveal_strlit("");
}

/// Law: seeing a status keeps its state and its progress, and nothing else.
pub proof fn what_seeing_a_status_changes(b: BackendView, status: JsonView)
    ensures
        ({
            let after = b.seeing(status);
            &&& status.text_at("state"@) is Some ==> Some(after.last_state) == status.text_at("state"@)
            &&& status.text_at("state"@) is None ==> after.last_state.len() == 0
            &&& after.last_sync == Some(progress_of(status))
            &&& after.registry == b.registry && after.jobs == b.jobs && after.sends == b.sends
            &&& after.active == b.active && after.next_job == b.next_job
            &&& after.next_send == b.next_send && after.last_balance == b.last_balance
        }),
{
    reveal_strlit("");
}

/// Law: the surfaces are told of a state that has moved, in the shape of the wallet status, and of
/// progress, each just where it has changed.
pub proof fn what_is_told_of_a_status(b: BackendView, status: JsonView, field: Seq<char>)
    ensures
        ({
            let told = b.status_events(status);
            let state = if status.text_at("state"@) is Some {
                status.text_at("state"@)->0
            } else {
                Seq::empty()
            };
            let moved = b.last_state != state;
            let progressed = b.last_sync != Some(progress_of(status));
            &&& told.len() == (if moved {
                1int
            } else {
                0int
            }) + (if progressed {
                1int
            } else {
                0int
            })
            &&& moved ==> told[0] == EventView::WalletStateChanged(text_of_json(b.moved_json(status)))
            &&& progressed ==> told.last() == EventView::SyncProgressed(
                text_of_json(progress_json(progress_of(status))),
            )
        }),
        status.takes_fields() ==> b.moved_json(status).get("ok"@) == Some(JsonView::Bool(true)),
        status.takes_fields() && field != "ok"@ ==> b.moved_json(status).get(field) == b.wallet_status(
            status,
        ).get(field),
        !status.takes_fields() ==> b.moved_json(status) == status,
{
    reveal_strlit("");
    assert(""@ =~= Seq::<char>::empty());
}

// ---------------------------------------------------------------------------------------------
// The turn
// ---------------------------------------------------------------------------------------------

/// Law: what a turn asks: of the first job that is not settled its status, its result or to note
/// its end; after the jobs the status and the balance; and nothing once it is over.
pub proof fn what_a_turn_asks(turn: TurnView)
    ensures
        turn.stage is Poll ==> turn.ask() == AskView::JobStatus(turn.polls[0].1.0, turn.polls[0].1.1),
        turn.stage is Collect ==> turn.ask() == AskView::JobResult(turn.polls[0].1.0, turn.polls[0].1.1),
        turn.stage is Acknowledge ==> turn.ask() == AskView::Acknowledge(
            turn.polls[0].1.0,
            turn.polls[0].1.1,
        ),
        turn.stage is Status ==> turn.ask() is Status,
        turn.stage is Balance ==> turn.ask() is Balance,
        turn.stage is Over ==> turn.ask() is Rest,
{
}

/// Law: a turn takes the jobs in their order, one after the other, and then on a slow turn the
/// status; without jobs it begins there, and a turn that is not slow is over then.
pub proof fn a_turn_takes_every_job(
    polls: Seq<(Seq<char>, (Seq<char>, Seq<char>))>,
    slow: bool,
    turn: TurnView,
)
    requires
        turn.polls.len() > 0,
    ensures
        TurnView::facing(polls, slow).polls == polls,
        TurnView::facing(polls, slow).slow == slow,
        polls.len() > 0 ==> TurnView::facing(polls, slow).stage is Poll,
        polls.len() == 0 && slow ==> TurnView::facing(polls, slow).stage is Status,
        polls.len() == 0 && !slow ==> TurnView::facing(polls, slow).stage is Over,
        turn.settled().polls.len() == turn.polls.len() - 1,
        forall|i: int|
            0 <= i < turn.settled().polls.len() ==> #[trigger] turn.settled().polls[i] == turn.polls[i + 1],
        turn.settled().slow == turn.slow,
        turn.settled().polls.len() > 0 ==> turn.settled().stage is Poll,
        turn.settled().polls.len() == 0 && turn.slow ==> turn.settled().stage is Status,
        turn.settled().polls.len() == 0 && !turn.slow ==> turn.settled().stage is Over,
{
}

/// Law: where a turn goes with each answer.
pub proof fn where_a_turn_goes(turn: TurnView, answer: AnswerView)
    requires
        turn.wf(),
        turn.awaits(answer),
    ensures
        ({
            let after = turn.answered(answer);
            let status = answer->Value_0->Ok_0;
            let said = answer->Value_0 is Ok && status.text_at("state"@) is Some;
            let state = status.text_at("state"@)->0;
            &&& after.slow == turn.slow
            &&& turn.stage is Poll && said && state == "done"@ ==> after.stage is Collect && after.polls
                == turn.polls
            &&& turn.stage is Poll && said && state == "failed"@ ==> after.polls == turn.polls && after.stage
                == StageView::Acknowledge(
                Err::<JsonView, Seq<char>>(
                    if status.text_at("error"@) is Some {
                        status.text_at("error"@)->0
                    } else {
                        "job failed"@
                    },
                ),
            )
            &&& turn.stage is Poll && !(said && (state == "done"@ || state == "failed"@)) ==> after
                == turn.settled()
            &&& turn.stage is Collect ==> after.polls == turn.polls && after.stage
                == StageView::Acknowledge(engine_outcome(answer->Value_0))
            &&& turn.stage is Acknowledge ==> after == turn.settled()
            &&& turn.stage is Status ==> after.polls == turn.polls
            &&& turn.stage is Status && said && (state == "ready"@ || state == "syncing"@) ==> after.stage is Balance
            &&& turn.stage is Status && !(said && (state == "ready"@ || state == "syncing"@))
                ==> after.stage is Over
            &&& turn.stage is Balance ==> after.stage is Over
        }),
{
    reveal_strlit("done");
    reveal_strlit("failed");
    reveal_strlit("ready");
    reveal_strlit("syncing");
    assert("done"@.len() == 4);
    assert("failed"@.len() == 6);
    assert("ready"@.len() == 5);
    assert("syncing"@.len() == 7);
    reveal_strlit("");
}

/// Law: what each answer does to the state. A job's state is noted; a job whose end is
/// acknowledged is finished with its outcome; a status and a balance are kept; and with the last
/// answer of a slow turn previews of more than 120 seconds fail.
pub proof fn what_an_answer_changes(
    b: BackendView,
    turn: TurnView,
    answer: AnswerView,
    now: u128,
    send: Seq<char>,
)
    requires
        turn.wf(),
        turn.awaits(answer),
    ensures
        ({
            let after = b.turned(turn, answer, now);
            let id = turn.polls[0].0;
            let status = answer->Value_0->Ok_0;
            let said = answer->Value_0 is Ok && status.text_at("state"@) is Some;
            let state = status.text_at("state"@)->0;
            let last = turn.stage is Balance || (turn.stage is Status && !(said && (state == "ready"@
                || state == "syncing"@)));
            &&& turn.stage is Poll && said && state.len() > 0 && state != "done"@ && state != "failed"@
                ==> after == b.noted(id, state)
            &&& turn.stage is Poll && !(said && state.len() > 0 && state != "done"@ && state != "failed"@)
                ==> after == b
            &&& turn.stage is Collect ==> after == b
            &&& turn.stage is Acknowledge ==> after == b.finished(id, turn.stage->Acknowledge_0, now)
            &&& turn.stage is Status && answer->Value_0 is Ok ==> after.last_state == b.seeing(
                status,
            ).last_state && after.last_sync == Some(progress_of(status))
            &&& turn.stage is Status && answer->Value_0 is Err ==> after.last_state == b.last_state
                && after.last_sync == b.last_sync
            &&& turn.stage is Status ==> after.last_balance == b.last_balance
            &&& turn.stage is Balance ==> after.last_balance == (answer->Balance_0, answer->Balance_1)
                && after.last_state == b.last_state && after.last_sync == b.last_sync
            &&& turn.stage is Status || turn.stage is Balance ==> {
                &&& after.registry == b.registry && after.jobs == b.jobs && after.active == b.active
                &&& after.next_job == b.next_job && after.next_send == b.next_send
                &&& after.sends.contains_key(send) <==> b.sends.contains_key(send)
                &&& b.sends.contains_key(send) && last && b.sends[send].state is Previewed
                    && b.sends[send].prepared_at is Some && now - b.sends[send].prepared_at->0
                    > 120_000_000_000 ==> after.sends[send].state == SendStateView::Failed(
                    "preview expired"@,
                )
                &&& b.sends.contains_key(send) && !(last && b.sends[send].state is Previewed
                    && b.sends[send].prepared_at is Some && now - b.sends[send].prepared_at->0
                    > 120_000_000_000) ==> after.sends[send] == b.sends[send]
            }
        }),
{
    reveal_strlit("done");
    reveal_strlit("failed");
    reveal_strlit("ready");
    reveal_strlit("syncing");
    assert("done"@.len() == 4);
    assert("failed"@.len() == 6);
    assert("ready"@.len() == 5);
    assert("syncing"@.len() == 7);
    reveal_strlit("");
    where_a_turn_goes(turn, answer);
}

/// Law: what is told of each answer: of the end of a job what is told of that, of a status what has
/// changed, of a balance that it has changed; and with the last answer of a slow turn, behind it,
/// every preview that has failed.
pub proof fn what_is_told_of_an_answer(
    b: BackendView,
    turn: TurnView,
    order: Seq<Seq<char>>,
    answer: AnswerView,
    now: u128,
)
    requires
        turn.wf(),
        turn.awaits(answer),
    ensures
        ({
            let told = b.turn_events(turn, order, answer, now);
            let status = answer->Value_0->Ok_0;
            let open = answer->Value_0 is Ok && (status.text_at("state"@) == Some("ready"@)
                || status.text_at("state"@) == Some("syncing"@));
            let expired = b.expiry_events(order, now);
            let seen = (answer->Balance_0, answer->Balance_1);
            &&& turn.stage is Poll || turn.stage is Collect ==> told.len() == 0
            &&& turn.stage is Acknowledge ==> told == b.finish_events(
                turn.polls[0].0,
                turn.stage->Acknowledge_0,
                now,
            )
            &&& turn.stage is Status && open ==> told == b.status_events(status)
            &&& turn.stage is Status && !open && answer->Value_0 is Ok ==> told == b.status_events(status)
                + expired
            &&& turn.stage is Status && answer->Value_0 is Err ==> told == expired
            &&& turn.stage is Balance && b.last_balance == seen ==> told == expired
            &&& turn.stage is Balance && b.last_balance != seen ==> told == seq![
                EventView::BalanceChanged(text_of_json(balance_json(seen.0, seen.1))),
            ] + expired
            &&& b.turn_stores(turn) ==> turn.stage is Acknowledge && b.finish_stores(
                turn.polls[0].0,
                turn.stage->Acknowledge_0,
            )
            &&& turn.stage is Acknowledge && b.finish_stores(turn.polls[0].0, turn.stage->Acknowledge_0)
                ==> b.turn_stores(turn)
        }),
{
    reveal_strlit("ready");
    reveal_strlit("syncing");
    assert("ready"@.len() == 5);
    assert("syncing"@.len() == 7);
    reveal_strlit("");
    where_a_turn_goes(turn, answer);
    let expired = b.expiry_events(order, now);
    assert(Seq::<EventView>::empty() + expired =~= expired);
}

/// Law: of previews that expire each is told as failed, under its request id, in the order of the
/// sends, and no other send is.
pub proof fn what_is_told_of_expired_previews(b: BackendView, order: Seq<Seq<char>>, now: u128, i: int)
    ensures
        ({
            let stale = order.filter(
                |id: Seq<char>|
                    b.sends[id].state is Previewed && b.sends[id].prepared_at is Some && now
                        - b.sends[id].prepared_at->0 > 120_000_000_000,
            );
            let told = b.expiry_events(order, now);
            &&& told.len() == stale.len()
            &&& 0 <= i < told.len() ==> told[i] == EventView::SendStatusChanged(
                b.sends[stale[i]].request_id,
                "failed"@,
            )
        }),
{
    let one = |id: Seq<char>| b.sends[id].stale(now);
    let two = |id: Seq<char>|
        b.sends[id].state is Previewed && b.sends[id].prepared_at is Some && now
            - b.sends[id].prepared_at->0 > 120_000_000_000;
    assert(one =~= two);
}

/// Law: an answer is awaited that fits the question.
pub proof fn what_answer_is_awaited(
    turn: TurnView,
    r: Result<JsonView, Seq<char>>,
    balance: Seq<char>,
    unlocked: Seq<char>,
)
    ensures
        turn.stage is Poll || turn.stage is Collect || turn.stage is Status ==> turn.awaits(
            AnswerView::Value(r),
        ),
        turn.stage is Acknowledge ==> turn.awaits(AnswerView::Noted),
        turn.stage is Balance ==> turn.awaits(AnswerView::Balance(balance, unlocked)),
        turn.stage is Over ==> !turn.awaits(AnswerView::Noted) && !turn.awaits(AnswerView::Value(r)),
{
}

/// Law: a backend that has just started is on the stage network, follows nothing, and remembers
/// nothing; its first job and its first send are number one.
pub proof fn what_a_fresh_backend_is(id: Seq<char>)
    ensures
        BackendView::fresh().active == "stagenet"@,
        !BackendView::fresh().registry.contains_key(id),
        !BackendView::fresh().jobs.contains_key(id),
        !BackendView::fresh().sends.contains_key(id),
        BackendView::fresh().next_job == 1,
        BackendView::fresh().next_send == 1,
        BackendView::fresh().last_state.len() == 0,
        BackendView::fresh().last_sync is None,
        BackendView::fresh().last_balance.0.len() == 0,
        BackendView::fresh().last_balance.1.len() == 0,
{
}

} // verus!
