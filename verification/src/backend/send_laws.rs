//! What sends are for: what a request asks for, what the engine is handed, when a send is refused,
//! and what confirming and withdrawing change.

use vstd::prelude::*;

use crate::backend::sending::{
    amount_asked, build_job, commit_job, drafted, handle_params, request_reply, SendDraftView,
};
use crate::backend::{BackendView, EngineJobView};
use crate::json::JsonView;
use crate::model::amount::parsed;
use crate::model::sends::{send_id, SendRequestView, SendStateView};

verus! {

// ---------------------------------------------------------------------------------------------
// Beginning
// ---------------------------------------------------------------------------------------------

/// Law: the amount that a request asks for is in atomic units: an amount in XMR is read as such,
/// and goes before one in atomic units, which is taken as it is; without either the request is
/// refused.
pub proof fn what_amount_is_asked_for(request: JsonView)
    ensures
        request.text_at("amountXmr"@) is Some ==> ({
            let xmr = request.text_at("amountXmr"@)->0;
            &&& parsed(xmr) is Some ==> amount_asked(request) == Ok::<Seq<char>, Seq<char>>(parsed(xmr)->0)
            &&& parsed(xmr) is None ==> amount_asked(request) == Err::<Seq<char>, Seq<char>>(
                "amountXmr is not a valid XMR amount (max 12 decimals)"@,
            )
        }),
        request.text_at("amountXmr"@) is None && request.text_at("amount"@) is Some ==> amount_asked(
            request,
        ) == Ok::<Seq<char>, Seq<char>>(request.text_at("amount"@)->0),
        request.text_at("amountXmr"@) is None && request.text_at("amount"@) is None ==> amount_asked(
            request,
        ) == Err::<Seq<char>, Seq<char>>("amountXmr or amount is required"@),
{
}

/// Law: a draft holds the request, its address and the amount that it asks for; a request without
/// an address is refused, and one without a good amount before that.
pub proof fn what_a_draft_holds(request: JsonView)
    ensures
        drafted(request) is Ok <==> amount_asked(request) is Ok && request.text_at("address"@) is Some
            && request.text_at("address"@)->0.len() > 0,
        drafted(request) is Ok ==> {
            let draft = drafted(request)->Ok_0;
            &&& Some(draft.address) == request.text_at("address"@)
            &&& draft.amount == amount_asked(request)->Ok_0
            &&& draft.request == request
        },
        amount_asked(request) is Err ==> drafted(request)->Err_0 == amount_asked(request)->Err_0,
        drafted(request) is Err && amount_asked(request) is Ok ==> drafted(request)->Err_0
            == "address is required"@,
{
    reveal_strlit("");
}

/// The job builds a transaction to this address of this amount, in atomic units.
pub open spec fn builds(job: EngineJobView, address: Seq<char>, amount: Seq<char>) -> bool {
    &&& job.kind == "create_transaction"@
    &&& job.params.get("address"@) == Some(JsonView::Text(address))
    &&& job.params.get("amount"@) == Some(JsonView::Text(amount))
}

/// Law: the engine is handed the address and the amount of the draft, with the priority and the
/// account that the request gives, zero where it gives none, and nothing else; the job is one of
/// the send.
pub proof fn what_the_engine_is_to_build(
    request: JsonView,
    id: Seq<char>,
    field: Seq<char>,
)
    requires
        drafted(request) is Ok,
    ensures
        ({
            let draft = drafted(request)->Ok_0;
            let job = build_job(id, draft);
            &&& builds(job, draft.address, draft.amount)
            &&& job.wallet == id
            &&& job.meta is None
            &&& job.params.get("priority"@) == Some(
                if request.get("priority"@) is Some {
                    request.get("priority"@)->0
                } else {
                    JsonView::Unsigned(0)
                },
            )
            &&& job.params.get("accountIndex"@) == Some(
                if request.get("accountIndex"@) is Some {
                    request.get("accountIndex"@)->0
                } else {
                    JsonView::Unsigned(0)
                },
            )
            &&& job.params.get(field) is Some ==> {
                ||| field == "address"@
                ||| field == "amount"@
                ||| field == "priority"@
                ||| field == "accountIndex"@
            }
        }),
        request.text_at("amountXmr"@) is Some ==> build_job(id, drafted(request)->Ok_0).params.text_at(
            "amount"@,
        ) == parsed(request.text_at("amountXmr"@)->0),
        request.text_at("amountXmr"@) is None ==> build_job(id, drafted(request)->Ok_0).params.text_at(
            "amount"@,
        ) == request.text_at("amount"@),
        build_job(id, drafted(request)->Ok_0).params.text_at("address"@) == request.text_at("address"@),
{
    what_a_draft_holds(request);
    what_amount_is_asked_for(request);
    reveal_strlit("address");
    reveal_strlit("amount");
    reveal_strlit("priority");
    reveal_strlit("accountIndex");
    assert("address"@.len() == 7);
    assert("amount"@.len() == 6);
    assert("priority"@.len() == 8);
    assert("accountIndex"@.len() == 12);
}

/// Law: whatever the draft, the engine is handed its address and its amount.
pub proof fn a_draft_is_built_as_it_is(
    id: Seq<char>,
    draft: SendDraftView,
)
    ensures
        build_job(id, draft).params.text_at("address"@) == Some(draft.address),
        build_job(id, draft).params.text_at("amount"@) == Some(draft.amount),
        build_job(id, draft).params.get("priority"@) == Some(
            draft.request.get_or("priority"@, JsonView::Unsigned(0)),
        ),
        build_job(id, draft).params.get("accountIndex"@) == Some(
            draft.request.get_or("accountIndex"@, JsonView::Unsigned(0)),
        ),
        build_job(id, draft).kind == "create_transaction"@,
        build_job(id, draft).wallet == id,
        build_job(id, draft).meta is None,
{
    reveal_strlit("address");
    reveal_strlit("amount");
    reveal_strlit("priority");
    reveal_strlit("accountIndex");
    assert("address"@.len() == 7);
    assert("amount"@.len() == 6);
    assert("priority"@.len() == 8);
    assert("accountIndex"@.len() == 12);
}

/// Law: a begun send is there under the next id, being built and with its request; every other
/// send, and all else, stays as it was.
pub proof fn what_beginning_changes(b: BackendView, request: JsonView, other: Seq<char>)
    requires
        b.next_send < u64::MAX,
    ensures
        ({
            let after = b.sending(request);
            let id = send_id(b.next_send as nat);
            &&& after.sends.contains_key(id)
            &&& after.sends[id].request_id == id
            &&& after.sends[id].request == request
            &&& after.sends[id].state is Preparing
            &&& after.sends[id].tx_handle is None && after.sends[id].preview is None
            &&& after.sends[id].txids is None && after.sends[id].prepared_at is None
            &&& after.next_send == b.next_send + 1
            &&& other != id ==> (after.sends.contains_key(other) <==> b.sends.contains_key(other))
            &&& other != id && b.sends.contains_key(other) ==> after.sends[other] == b.sends[other]
            &&& after.registry == b.registry && after.jobs == b.jobs && after.active == b.active
            &&& after.next_job == b.next_job
        }),
{
}

/// Law: the reply names the send, and nothing else.
pub proof fn what_is_told_of_a_request(id: Seq<char>, field: Seq<char>)
    ensures
        request_reply(id).get("ok"@) == Some(JsonView::Bool(true)),
        request_reply(id).get("requestId"@) == Some(JsonView::Text(id)),
        request_reply(id).get(field) is Some ==> field == "ok"@ || field == "requestId"@,
{
    reveal_strlit("ok");
    reveal_strlit("requestId");
    assert("ok"@.len() == 2);
    assert("requestId"@.len() == 9);
}

/// Law: of a send that is there its status is told, and of any other that it is not there.
pub proof fn what_is_told_of_the_send(b: BackendView, id: Seq<char>)
    ensures
        b.sends.contains_key(id) ==> {
            &&& b.send_told(id).get("ok"@) == Some(JsonView::Bool(true))
            &&& b.send_told(id).get("requestId"@) == Some(JsonView::Text(b.sends[id].request_id))
            &&& b.send_told(id).get("state"@) == Some(JsonView::Text(b.sends[id].state.name()))
            &&& b.sends[id].preview is Some ==> b.send_told(id).get("preview"@) == b.sends[id].preview
        },
        !b.sends.contains_key(id) ==> {
            &&& b.send_told(id).get("ok"@) == Some(JsonView::Bool(false))
            &&& b.send_told(id).get("error"@) == Some(JsonView::Text("unknown requestId"@))
        },
{
    reveal_strlit("ok");
    reveal_strlit("requestId");
    reveal_strlit("state");
    reveal_strlit("preview");
    reveal_strlit("txids");
    reveal_strlit("error");
    assert("ok"@.len() == 2);
    assert("requestId"@.len() == 9);
    assert("state"@.len() == 5);
    assert("preview"@.len() == 7);
    assert("txids"@.len() == 5);
    assert("error"@.len() == 5);
    assert("state"@[0] != "txids"@[0]);
    assert("state"@[0] != "error"@[0]);
    assert("txids"@[0] != "error"@[0]);
}

// ---------------------------------------------------------------------------------------------
// Confirming and withdrawing
// ---------------------------------------------------------------------------------------------

/// Law: a send can be confirmed just where it waits for review, its preview is not older than 120
/// seconds, and the engine holds its transaction; and what is said where it cannot.
pub proof fn when_a_send_can_be_confirmed(b: BackendView, id: Seq<char>, now: u128)
    ensures
        ({
            let send = b.sends[id];
            let old = send.prepared_at is Some && now - send.prepared_at->0 > 120_000_000_000;
            &&& b.confirm_refusal(id, now) is None <==> b.sends.contains_key(id) && send.state is Previewed
                && !old && send.tx_handle is Some
            &&& !b.sends.contains_key(id) ==> b.confirm_refusal(id, now) == Some("unknown requestId"@)
            &&& b.sends.contains_key(id) && send.state !is Previewed ==> b.confirm_refusal(id, now) == Some(
                "send is "@ + send.state.name() + ", not previewed"@,
            )
            &&& b.sends.contains_key(id) && send.state is Previewed && old ==> b.confirm_refusal(id, now)
                == Some("preview expired"@)
            &&& b.sends.contains_key(id) && send.state is Previewed && !old && send.tx_handle is None
                ==> b.confirm_refusal(id, now) == Some("no transaction handle"@)
        }),
{
}

/// Law: a send can be withdrawn just while it is being built or waits for review; and what is said
/// where it cannot.
pub proof fn when_a_send_can_be_withdrawn(b: BackendView, id: Seq<char>)
    ensures
        ({
            let state = b.sends[id].state;
            &&& b.cancel_refusal(id) is None <==> b.sends.contains_key(id) && (state is Preparing
                || state is Previewed)
            &&& !b.sends.contains_key(id) ==> b.cancel_refusal(id) == Some("unknown requestId"@)
            &&& b.sends.contains_key(id) && (state is Sent || state is Failed || state is Cancelled)
                ==> b.cancel_refusal(id) == Some("send already "@ + state.name())
            &&& b.sends.contains_key(id) && state is Committing ==> b.cancel_refusal(id) == Some(
                "cannot cancel a broadcast in progress"@,
            )
        }),
{
}

/// Law: the engine is handed the transaction of the send that was confirmed, and nothing else; and
/// likewise the one to dispose of.
pub proof fn what_the_engine_is_to_broadcast(id: Seq<char>, handle: Seq<char>, field: Seq<char>)
    ensures
        commit_job(id, handle).kind == "commit_transaction"@,
        commit_job(id, handle).wallet == id,
        commit_job(id, handle).meta is None,
        commit_job(id, handle).params.get("txHandle"@) == Some(JsonView::Text(handle)),
        commit_job(id, handle).params.get(field) is Some ==> field == "txHandle"@,
        handle_params(handle).get("txHandle"@) == Some(JsonView::Text(handle)),
        handle_params(handle).get(field) is Some ==> field == "txHandle"@,
{
}

/// Law: with a withdrawn send the engine is to dispose of the transaction that it holds for it, by
/// its handle, and of nothing where it holds none.
pub proof fn what_the_engine_is_to_dispose_of(send: SendRequestView, field: Seq<char>)
    ensures
        send.to_dispose() is Some <==> send.tx_handle is Some,
        send.to_dispose() is Some ==> send.to_dispose()->0.get("txHandle"@) == Some(
            JsonView::Text(send.tx_handle->0),
        ),
        send.to_dispose() is Some && send.to_dispose()->0.get(field) is Some ==> field == "txHandle"@,
{
}

/// Law: confirming brings the send into broadcast, and withdrawing to its end without its
/// transaction; the rest of it, every other send, and all else stays as it was.
pub proof fn what_confirming_and_withdrawing_change(b: BackendView, id: Seq<char>, other: Seq<char>)
    requires
        b.sends.contains_key(id),
    ensures
        ({
            let send = b.sends[id];
            let after = b.confirming(id);
            &&& after.sends[id].state is Committing
            &&& after.sends[id].tx_handle == send.tx_handle
            &&& after.sends[id].request_id == send.request_id && after.sends[id].request == send.request
            &&& after.sends[id].preview == send.preview && after.sends[id].txids == send.txids
            &&& after.sends[id].prepared_at == send.prepared_at
            &&& after.sends.contains_key(other) <==> b.sends.contains_key(other)
            &&& other != id && b.sends.contains_key(other) ==> after.sends[other] == b.sends[other]
            &&& after.registry == b.registry && after.jobs == b.jobs && after.active == b.active
            &&& after.next_job == b.next_job && after.next_send == b.next_send
        }),
        ({
            let send = b.sends[id];
            let after = b.withdrawing(id);
            &&& after.sends[id].state is Cancelled
            &&& after.sends[id].tx_handle is None
            &&& after.sends[id].request_id == send.request_id && after.sends[id].request == send.request
            &&& after.sends[id].preview == send.preview && after.sends[id].txids == send.txids
            &&& after.sends[id].prepared_at == send.prepared_at
            &&& after.sends.contains_key(other) <==> b.sends.contains_key(other)
            &&& other != id && b.sends.contains_key(other) ==> after.sends[other] == b.sends[other]
            &&& after.registry == b.registry && after.jobs == b.jobs && after.active == b.active
            &&& after.next_job == b.next_job && after.next_send == b.next_send
        }),
{
}

/// Law: a send whose job did not start has failed with the words that were said; the rest of it,
/// every other send, and all else stays as it was.
pub proof fn what_a_failed_start_changes(
    b: BackendView,
    id: Seq<char>,
    words: Seq<char>,
    other: Seq<char>,
)
    ensures
        ({
            let after = b.send_broken(id, words);
            &&& b.sends.contains_key(id) ==> after.sends[id].state == SendStateView::Failed(words)
            &&& b.sends.contains_key(id) ==> after.sends[id].request == b.sends[id].request
                && after.sends[id].request_id == b.sends[id].request_id
            &&& after.sends.contains_key(other) <==> b.sends.contains_key(other)
            &&& other != id && b.sends.contains_key(other) ==> after.sends[other] == b.sends[other]
            &&& after.registry == b.registry && after.jobs == b.jobs && after.active == b.active
            &&& after.next_job == b.next_job && after.next_send == b.next_send
        }),
{
}

} // verus!
