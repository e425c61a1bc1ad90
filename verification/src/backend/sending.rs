//! Sends: drafted and begun, reviewed and confirmed, or withdrawn. The review governs broadcast:
//! the engine signed when it built the preview.

use vstd::prelude::*;

use crate::backend::jobs::started;
use crate::backend::{
    err, err_reply, ok, ok_reply, Backend, BackendView, EngineJob, EngineJobView, Event, EventView,
};
use crate::json::{json_of_text, text_of_json, Json, JsonView};
use crate::model::amount::{parse_xmr, parsed};
use crate::model::sends::{
    held_json, in_flight, in_flight_words, is_first_open, send_id, SendRequestView, SendState, SendStateView,
};

verus! {

// ---------------------------------------------------------------------------------------------
// Drafting and beginning
// ---------------------------------------------------------------------------------------------

/// A send that was asked for: where to, how much in atomic units, and the request itself.
#[derive(Debug)]
pub struct SendDraft {
    pub address: String,
    pub amount: String,
    pub request: Json,
}

/// What a `SendDraft` says.
pub struct SendDraftView {
    pub address: Seq<char>,
    pub amount: Seq<char>,
    pub request: JsonView,
}

impl View for SendDraft {
    type V = SendDraftView;

    open spec fn view(&self) -> SendDraftView {
        SendDraftView {
            address: self.address@,
            amount: self.amount@,
            request: self.request@,
        }
    }
}

/// The amount that a request asks for: in XMR where it says so, else in atomic units.
pub open spec fn amount_asked(request: JsonView) -> Result<Seq<char>, Seq<char>> {
    match (request.text_at("amountXmr"@), request.text_at("amount"@)) {
        (Some(xmr), _) => match parsed(xmr) {
            Some(amount) => Ok(amount),
            None => Err("amountXmr is not a valid XMR amount (max 12 decimals)"@),
        },
        (None, Some(amount)) => Ok(amount),
        (None, None) => Err("amountXmr or amount is required"@),
    }
}

/// The send that a request asks for, or what is wrong with the request.
pub open spec fn drafted(request: JsonView) -> Result<SendDraftView, Seq<char>> {
    match amount_asked(request) {
        Ok(amount) => {
            let address = request.text_or("address"@, ""@);
            if address.len() == 0 {
                Err("address is required"@)
            } else {
                Ok(SendDraftView { address, amount, request })
            }
        },
        Err(words) => Err(words),
    }
}

/// What came of a draft.
pub open spec fn draft_view(r: Result<SendDraft, String>) -> Result<SendDraftView, Seq<char>> {
    match r {
        Ok(draft) => Ok(draft@),
        Err(words) => Err(words@),
    }
}

/// The send that a request asks for.
pub fn draft_send(request: Json) -> (r: Result<SendDraft, String>)
    ensures
        draft_view(r) == drafted(request@),
{
    let amount = match (request.text_at("amountXmr"), request.text_at("amount")) {
        (Some(xmr), _) => match parse_xmr(xmr) {
            Some(amount) => amount,
            None => {
                return Err("amountXmr is not a valid XMR amount (max 12 decimals)".to_owned());
            },
        },
        (None, Some(amount)) => amount.to_owned(),
        (None, None) => {
            return Err("amountXmr or amount is required".to_owned());
        },
    };
    let address = request.text_or("address", "");
    if address.as_str().is_empty() {
        return Err("address is required".to_owned());
    }
    Ok(SendDraft { address, amount, request })
}

/// The send that the text of a request asks for:
/// `{ address, amountXmr | amount, priority?, accountIndex? }`.
pub fn read_send(send_json: &str) -> (r: Result<SendDraft, String>)
    ensures
        draft_view(r) == match json_of_text(send_json@) {
            Ok(request) => drafted(request),
            Err(words) => Err(words),
        },
{
    match Json::parse(send_json) {
        Ok(request) => draft_send(request),
        Err(words) => Err(words),
    }
}

/// The job that builds the transaction of a send.
pub open spec fn build_job(id: Seq<char>, draft: SendDraftView) -> EngineJobView {
    EngineJobView {
        kind: "create_transaction"@,
        params: JsonView::object()
            .with("address"@, JsonView::Text(draft.address))
            .with("amount"@, JsonView::Text(draft.amount))
            .with("priority"@, draft.request.get_or("priority"@, JsonView::Unsigned(0)))
            .with("accountIndex"@, draft.request.get_or("accountIndex"@, JsonView::Unsigned(0))),
        wallet: id,
        meta: None,
    }
}

/// The reply that names a send.
pub open spec fn request_reply(id: Seq<char>) -> JsonView {
    ok_reply(JsonView::object().with("requestId"@, JsonView::Text(id)))
}

impl BackendView {
    /// The state after a send was begun.
    pub open spec fn sending(self, request: JsonView) -> BackendView {
        let id = send_id(self.next_send as nat);
        BackendView {
            sends: self.sends.insert(id, SendRequestView::begun(id, request)),
            next_send: (self.next_send + 1) as u64,
            ..self
        }
    }

    /// What is told of the send `id`.
    pub open spec fn send_told(self, id: Seq<char>) -> JsonView {
        if self.sends.contains_key(id) {
            self.sends[id].status()
        } else {
            err_reply("unknown requestId"@)
        }
    }

    /// The state after a job of a send has failed, or did not start: so has the send.
    pub open spec fn send_broken(self, id: Seq<char>, words: Seq<char>) -> BackendView {
        if self.sends.contains_key(id) {
            BackendView { sends: self.sends.insert(id, self.sends[id].broken(words)), ..self }
        } else {
            self
        }
    }
}

impl Backend {
    /// Begins a send, once the engine has said whether its address is one of the active network.
    /// Refused while another send is in flight. The job that builds the transaction.
    pub fn begin_send(&mut self, draft: SendDraft, address_valid: bool) -> (r: Result<EngineJob, String>)
        requires
            old(self).wf(),
            !address_valid || in_flight(old(self)@.sends) || old(self)@.next_send < u64::MAX,
        ensures
            final(self).wf(),
            r is Ok <==> address_valid && !in_flight(old(self)@.sends),
            match r {
                Ok(job) => {
                    &&& job@ == build_job(send_id(old(self)@.next_send as nat), draft@)
                    &&& final(self)@ == old(self)@.sending(draft@.request)
                },
                Err(words) => {
                    &&& *final(self) == *old(self)
                    &&& if address_valid {
                        exists|id: Seq<char>| #[trigger] is_first_open(old(self)@.sends, id) && words@
                            == in_flight_words(old(self)@.sends[id])
                    } else {
                        words@ == "invalid address for the active network"@
                    }
                },
            },
    {
        if !address_valid {
            return Err("invalid address for the active network".to_owned());
        }
        let request = draft.request.clone();
        match self.sends.begin(request) {
            Ok(id) => {
                let params = Json::object()
                    .with("address", Json::Text(draft.address))
                    .with("amount", Json::Text(draft.amount))
                    .with("priority", draft.request.get_or("priority", Json::Unsigned(0)))
                    .with("accountIndex", draft.request.get_or("accountIndex", Json::Unsigned(0)));
                Ok(EngineJob {
                    kind: "create_transaction".to_owned(),
                    params,
                    wallet: id,
                    meta: None,
                })
            },
            Err(words) => Err(words),
        }
    }

    /// Closes the begin of the send `id` with what came of starting its job: a send whose job did
    /// not start has failed. The reply, and what the surfaces are told.
    pub fn send_started(&mut self, id: &str, start: Result<String, String>) -> (r: (String, Option<Event>))
        requires
            old(self).wf(),
        ensures
            final(self).wf(),
            match started(start) {
                Ok(_) => {
                    &&& *final(self) == *old(self)
                    &&& r.0@ == text_of_json(request_reply(id@))
                    &&& r.1 matches Some(event)
                    &&& event@ == EventView::SendStatusChanged(id@, "preparing"@)
                },
                Err(words) => {
                    &&& final(self)@ == old(self)@.send_broken(id@, words)
                    &&& r.0@ == text_of_json(err_reply(words))
                    &&& r.1 is None
                },
            },
    {
        match start {
            Ok(_) => {
                let reply = ok(Json::object().with("requestId", Json::text(id)));
                let event = Event::SendStatusChanged(id.to_owned(), "preparing".to_owned());
                (reply, Some(event))
            },
            Err(words) => {
                self.break_send(id, words.as_str());
                (err(words.as_str()), None)
            },
        }
    }

    /// The status of the send `id`, as it is told.
    pub fn send_status(&self, id: &str) -> (r: String)
        requires
            self.wf(),
        ensures
            r@ == text_of_json(self@.send_told(id@)),
    {
        self.sends.status_json(id).to_text()
    }
}

// ---------------------------------------------------------------------------------------------
// Confirming and withdrawing
// ---------------------------------------------------------------------------------------------

/// The handle of a transaction, as the engine takes it.
pub open spec fn handle_params(handle: Seq<char>) -> JsonView {
    JsonView::object().with("txHandle"@, JsonView::Text(handle))
}

/// The job that broadcasts the transaction of a send.
pub open spec fn commit_job(id: Seq<char>, handle: Seq<char>) -> EngineJobView {
    EngineJobView {
        kind: "commit_transaction"@,
        params: handle_params(handle),
        wallet: id,
        meta: None,
    }
}

impl SendRequestView {
    /// Why the send cannot be confirmed, if it cannot. A preview that is too old has expired,
    /// though nobody has noticed yet.
    pub open spec fn confirm_refusal(self, now: u128) -> Option<Seq<char>> {
        if self.state !is Previewed {
            Some("send is "@ + self.state.name() + ", not previewed"@)
        } else if self.stale(now) {
            Some("preview expired"@)
        } else if self.tx_handle is None {
            Some("no transaction handle"@)
        } else {
            None
        }
    }

    /// Why the send cannot be withdrawn, if it cannot.
    pub open spec fn cancel_refusal(self) -> Option<Seq<char>> {
        if self.state.terminal() {
            Some("send already "@ + self.state.name())
        } else if self.state is Committing {
            Some("cannot cancel a broadcast in progress"@)
        } else {
            None
        }
    }

    /// What the engine is to dispose of when the send is withdrawn: its transaction, if it is built.
    pub open spec fn to_dispose(self) -> Option<JsonView> {
        match self.tx_handle {
            Some(handle) => Some(handle_params(handle)),
            None => None,
        }
    }

    /// The send while it is being broadcast.
    pub open spec fn committing(self) -> SendRequestView {
        SendRequestView { state: SendStateView::Committing, ..self }
    }

    /// The send after it was withdrawn. Its transaction is let go.
    pub open spec fn withdrawn(self) -> SendRequestView {
        SendRequestView { state: SendStateView::Cancelled, tx_handle: None, ..self }
    }
}

impl BackendView {
    /// Why the send `id` cannot be confirmed, if it cannot.
    pub open spec fn confirm_refusal(self, id: Seq<char>, now: u128) -> Option<Seq<char>> {
        if self.sends.contains_key(id) {
            self.sends[id].confirm_refusal(now)
        } else {
            Some("unknown requestId"@)
        }
    }

    /// Why the send `id` cannot be withdrawn, if it cannot.
    pub open spec fn cancel_refusal(self, id: Seq<char>) -> Option<Seq<char>> {
        if self.sends.contains_key(id) {
            self.sends[id].cancel_refusal()
        } else {
            Some("unknown requestId"@)
        }
    }
}

impl BackendView {
    /// The state after a send was confirmed.
    pub open spec fn confirming(self, id: Seq<char>) -> BackendView {
        BackendView { sends: self.sends.insert(id, self.sends[id].committing()), ..self }
    }

    /// The state after a send was withdrawn.
    pub open spec fn withdrawing(self, id: Seq<char>) -> BackendView {
        BackendView { sends: self.sends.insert(id, self.sends[id].withdrawn()), ..self }
    }
}

/// What is to be done after a send was withdrawn.
pub struct Withdrawn {
    pub reply: String,
    pub event: Event,
    /// The handle of a built transaction that the engine is to dispose of.
    pub dispose: Option<Json>,
}

impl Backend {
    /// Confirms a reviewed send: the job that broadcasts it, and what the surfaces are told. This
    /// is the only way into a broadcast. `now` is the time: a preview that is too old is refused.
    pub fn confirm_send(&mut self, id: &str, now: u128) -> (r: Result<(EngineJob, Event), String>)
        requires
            old(self).wf(),
        ensures
            final(self).wf(),
            match old(self)@.confirm_refusal(id@, now) {
                Some(words) => {
                    &&& *final(self) == *old(self)
                    &&& r matches Err(said)
                    &&& said@ == words
                },
                None => {
                    &&& final(self)@ == old(self)@.confirming(id@)
                    &&& r matches Ok((job, event))
                    &&& job@ == commit_job(id@, old(self)@.sends[id@].tx_handle->0)
                    &&& event@ == EventView::SendStatusChanged(id@, "committing"@)
                },
            },
    {
        let handle = match self.sends.get(id) {
            None => {
                return Err("unknown requestId".to_owned());
            },
            Some(send) => {
                match &send.state {
                    SendState::Previewed => {},
                    _ => {
                        let mut words = "send is ".to_owned();
                        words.append(send.state.name());
                        words.append(", not previewed");
                        return Err(words);
                    },
                }
                if send.is_stale(now) {
                    return Err("preview expired".to_owned());
                }
                match &send.tx_handle {
                    Some(handle) => handle.clone(),
                    None => {
                        return Err("no transaction handle".to_owned());
                    },
                }
            },
        };
        match self.sends.get_mut(id) {
            Some(send) => {
                send.state = SendState::Committing;
            },
            None => {},
        }
        let job = EngineJob {
            kind: "commit_transaction".to_owned(),
            params: Json::object().with("txHandle", Json::Text(handle)),
            wallet: id.to_owned(),
            meta: None,
        };
        Ok((job, Event::SendStatusChanged(id.to_owned(), "committing".to_owned())))
    }

    /// Withdraws a send that is neither at its end nor being broadcast.
    pub fn cancel_send(&mut self, id: &str) -> (r: Result<Withdrawn, String>)
        requires
            old(self).wf(),
        ensures
            final(self).wf(),
            match old(self)@.cancel_refusal(id@) {
                Some(words) => {
                    &&& *final(self) == *old(self)
                    &&& r matches Err(said)
                    &&& said@ == words
                },
                None => {
                    &&& final(self)@ == old(self)@.withdrawing(id@)
                    &&& r matches Ok(done)
                    &&& done.reply@ == text_of_json(request_reply(id@))
                    &&& done.event@ == EventView::SendStatusChanged(id@, "cancelled"@)
                    &&& held_json(done.dispose) == old(self)@.sends[id@].to_dispose()
                },
            },
    {
        let handle = match self.sends.get(id) {
            None => {
                return Err("unknown requestId".to_owned());
            },
            Some(send) => {
                if send.state.terminal() {
                    let mut words = "send already ".to_owned();
                    words.append(send.state.name());
                    return Err(words);
                }
                match &send.state {
                    SendState::Committing => {
                        return Err("cannot cancel a broadcast in progress".to_owned());
                    },
                    _ => {},
                }
                match &send.tx_handle {
                    Some(handle) => Some(handle.clone()),
                    None => None,
                }
            },
        };
        match self.sends.get_mut(id) {
            Some(send) => {
                send.state = SendState::Cancelled;
                send.tx_handle = None;
            },
            None => {},
        }
        let dispose = match handle {
            Some(handle) => Some(Json::object().with("txHandle", Json::Text(handle))),
            None => None,
        };
        let reply = ok(Json::object().with("requestId", Json::text(id)));
        let event = Event::SendStatusChanged(id.to_owned(), "cancelled".to_owned());
        Ok(Withdrawn { reply, event, dispose })
    }
}

/// Law: what a draft says is what it holds.
pub proof fn what_a_draft_says(draft: SendDraft, words: String)
    ensures
        draft@.address == draft.address@,
        draft@.amount == draft.amount@,
        draft@.request == draft.request@,
        draft_view(Ok::<SendDraft, String>(draft)) == Ok::<SendDraftView, Seq<char>>(draft@),
        draft_view(Err::<SendDraft, String>(words)) == Err::<SendDraftView, Seq<char>>(words@),
{
}

} // verus!
