//! The engine's jobs: started, polled, and acted on when they are done.

use vstd::prelude::*;

use crate::backend::{
    engine_outcome, engine_result, err, err_reply, held_meta, job_id, job_ids_differ, ok, ok_reply, told,
    Backend, BackendView, EngineJob, Event, EventView, TrackedJob, TrackedJobView,
};
use crate::json::{outcome_view, text_of_json, Json, JsonView};
use crate::model::history::{show_xmr, shown};
use crate::model::registry::{WalletMeta, WalletMetaView};
use crate::model::sends::{SendRequestView, SendState, SendStateView};
use crate::ordered::filter_push;
use crate::text::{held, held_string, numeral, parse_u64, same, u64_of, u64_text};

verus! {

// ---------------------------------------------------------------------------------------------
// Starting
// ---------------------------------------------------------------------------------------------

/// The job and the receipt that an engine's value names, if it names both.
pub open spec fn ticket(value: JsonView) -> Option<(Seq<char>, Seq<char>)> {
    match (value.text_at("jobId"@), value.text_at("receipt"@)) {
        (Some(id), Some(receipt)) => Some((id, receipt)),
        _ => None,
    }
}

/// The ticket that the engine's answer to a start holds, or what is wrong with the answer.
pub open spec fn start_outcome(r: Result<JsonView, Seq<char>>) -> Result<(Seq<char>, Seq<char>), Seq<char>> {
    match engine_outcome(r) {
        Ok(value) => match ticket(value) {
            Some(core) => Ok(core),
            None => Err("engine returned no job id"@),
        },
        Err(words) => Err(words),
    }
}

/// The reply to a start of a job.
pub open spec fn start_reply(r: Result<Seq<char>, Seq<char>>) -> JsonView {
    match r {
        Ok(id) => ok_reply(JsonView::object().with("jobId"@, JsonView::Text(id))),
        Err(words) => err_reply(words),
    }
}

/// A started job: its id, or what went wrong.
pub open spec fn started(r: Result<String, String>) -> Result<Seq<char>, Seq<char>> {
    match r {
        Ok(id) => Ok(id@),
        Err(words) => Err(words@),
    }
}

/// The text of the reply to a start of a job.
pub fn job_reply(r: &Result<String, String>) -> (text: String)
    ensures
        text@ == text_of_json(start_reply(started(*r))),
{
    match r {
        Ok(id) => ok(Json::object().with("jobId", Json::text(id.as_str()))),
        Err(words) => err(words.as_str()),
    }
}

impl BackendView {
    /// The state after a job was started under the engine's ticket `core`.
    pub open spec fn tracking(
        self,
        kind: Seq<char>,
        core: (Seq<char>, Seq<char>),
        wallet: Seq<char>,
        meta: Option<WalletMetaView>,
    ) -> BackendView {
        let job = TrackedJobView {
            kind,
            core,
            state: "queued"@,
            result: JsonView::Null,
            error: Seq::empty(),
            wallet,
            meta,
        };
        BackendView {
            jobs: self.jobs.insert(job_id(self.next_job as nat), job),
            next_job: (self.next_job + 1) as u64,
            ..self
        }
    }
}

impl Backend {
    /// Follows a job whose start the engine has answered with `reply`. The surface gets the
    /// backend's own id of it; what it may read of the job, the id gives it, and nothing else.
    pub fn start_core_job(&mut self, job: EngineJob, reply: Result<Json, String>) -> (r: Result<String, String>)
        requires
            old(self).wf(),
            old(self).next_job < u64::MAX,
        ensures
            final(self).wf(),
            match start_outcome(outcome_view(reply)) {
                Ok(core) => {
                    &&& started(r) == Ok::<Seq<char>, Seq<char>>(job_id(old(self).next_job as nat))
                    &&& !old(self)@.jobs.contains_key(job_id(old(self).next_job as nat))
                    &&& final(self)@ == old(self)@.tracking(job@.kind, core, job@.wallet, job@.meta)
                },
                Err(words) => {
                    &&& started(r) == Err::<Seq<char>, Seq<char>>(words)
                    &&& *final(self) == *old(self)
                },
            },
    {
        let value = match engine_result(reply) {
            Ok(value) => value,
            Err(words) => {
                return Err(words);
            },
        };
        let core = match (value.text_at("jobId"), value.text_at("receipt")) {
            (Some(id), Some(receipt)) => (id.to_owned(), receipt.to_owned()),
            _ => {
                return Err("engine returned no job id".to_owned());
            },
        };
        let ghost before = self.jobs@;
        let ghost n = self.next_job as nat;
        let mut id = "b".to_owned();
        let number = u64_text(self.next_job);
        id.append(number.as_str());
        proof {
            if before.contains_key(id@) {
                let m = choose|m: nat| m < self.next_job && id@ == #[trigger] job_id(m);
                job_ids_differ(m, n);
            }
        }
        self.next_job = self.next_job + 1;
        let tracked_job = TrackedJob {
            kind: job.kind,
            core,
            state: "queued".to_owned(),
            result: Json::Null,
            error: String::new(),
            wallet: job.wallet,
            meta: job.meta,
        };
        self.jobs.insert(id.as_str(), tracked_job);
        assert forall|key: Seq<char>| #[trigger] self.jobs@.contains_key(key) implies exists|m: nat|
            m < self.next_job && key == #[trigger] job_id(m) by {
            if key == id@ {
                assert(key == job_id(n));
            } else {
                assert(before.contains_key(key));
            }
        }
        Ok(id)
    }
}

// ---------------------------------------------------------------------------------------------
// Polling
// ---------------------------------------------------------------------------------------------

impl TrackedJobView {
    /// The job is not done: it waits or runs.
    pub open spec fn waits(self) -> bool {
        self.state == "queued"@ || self.state == "running"@
    }

    /// The job's status as it is told. Result and error are told only when they are there.
    pub open spec fn status(self, id: Seq<char>) -> JsonView {
        JsonView::object()
            .with("jobId"@, JsonView::Text(id))
            .with("kind"@, JsonView::Text(self.kind))
            .with("state"@, JsonView::Text(self.state))
            .with(
                "result"@,
                if self.state == "done"@ {
                    self.result
                } else {
                    JsonView::Null
                },
            )
            .with(
                "error"@,
                if self.state == "failed"@ {
                    JsonView::Text(self.error)
                } else {
                    JsonView::Null
                },
            )
    }
}

impl BackendView {
    /// What is told of the job `id`.
    pub open spec fn job_told(self, id: Seq<char>) -> JsonView {
        if self.jobs.contains_key(id) {
            ok_reply(self.jobs[id].status(id))
        } else {
            err_reply("unknown jobId"@)
        }
    }

    /// The state after the state of a job was noted.
    pub open spec fn noted(self, id: Seq<char>, state: Seq<char>) -> BackendView {
        if self.jobs.contains_key(id) {
            BackendView {
                jobs: self.jobs.insert(id, TrackedJobView { state, ..self.jobs[id] }),
                ..self
            }
        } else {
            self
        }
    }
}

/// A job to be polled: its id, and the engine's id and receipt of it.
pub open spec fn poll_of(poll: (String, (String, String))) -> (Seq<char>, (Seq<char>, Seq<char>)) {
    (poll.0@, (poll.1.0@, poll.1.1@))
}

/// The jobs to be polled.
pub open spec fn polls_of(polls: Seq<(String, (String, String))>) -> Seq<(Seq<char>, (Seq<char>, Seq<char>))> {
    polls.map_values(|poll: (String, (String, String))| poll_of(poll))
}

/// What is to be done about a job that was polled.
pub enum JobStep {
    /// It is done: its result is to be fetched, and the job finished with it.
    Collect,
    /// It failed: the job is to be finished with these words.
    Fail(String),
    /// It is in this state.
    Note(String),
    /// The engine said nothing of it.
    Wait,
}

/// What a `JobStep` says.
pub enum JobStepView {
    Collect,
    Fail(Seq<char>),
    Note(Seq<char>),
    Wait,
}

impl View for JobStep {
    type V = JobStepView;

    open spec fn view(&self) -> JobStepView {
        match self {
            JobStep::Collect => JobStepView::Collect,
            JobStep::Fail(words) => JobStepView::Fail(words@),
            JobStep::Note(state) => JobStepView::Note(state@),
            JobStep::Wait => JobStepView::Wait,
        }
    }
}

/// What the engine's status of a job asks for.
pub open spec fn step_of(status: JsonView) -> JobStepView {
    let state = status.text_or("state"@, ""@);
    if state == "done"@ {
        JobStepView::Collect
    } else if state == "failed"@ {
        JobStepView::Fail(status.text_or("error"@, "job failed"@))
    } else if state.len() > 0 {
        JobStepView::Note(state)
    } else {
        JobStepView::Wait
    }
}

/// What the engine's status of a job asks for.
pub fn job_step(status: &Json) -> (r: JobStep)
    ensures
        r@ == step_of(status@),
{
    let state = status.text_or("state", "");
    if same(state.as_str(), "done") {
        JobStep::Collect
    } else if same(state.as_str(), "failed") {
        JobStep::Fail(status.text_or("error", "job failed"))
    } else if !state.as_str().is_empty() {
        JobStep::Note(state)
    } else {
        JobStep::Wait
    }
}

impl Backend {
    /// The jobs that are not done, in order, each with the engine's ticket.
    pub open spec fn polls(&self) -> Seq<(Seq<char>, (Seq<char>, Seq<char>))> {
        self.jobs.names().filter(|id: Seq<char>| self@.jobs[id].waits()).map_values(
            |id: Seq<char>| (id, self@.jobs[id].core),
        )
    }

    /// The jobs that are not done, in order.
    pub fn pending_jobs(&self) -> (r: Vec<(String, (String, String))>)
        requires
            self.wf(),
        ensures
            polls_of(r@) == self.polls(),
    {
        let mut r: Vec<(String, (String, String))> = Vec::new();
        let mut i: usize = 0;
        let ghost order = self.jobs.names();
        let ghost pred = |id: Seq<char>| self@.jobs[id].waits();
        let ghost poll = |id: Seq<char>| (id, self@.jobs[id].core);
        assert(polls_of(r@) =~= order.take(0).filter(pred).map_values(poll)) by {
            reveal(Seq::filter);
        }
        while i < self.jobs.len()
            invariant
                self.wf(),
                order == self.jobs.names(),
                i <= order.len(),
                pred == (|id: Seq<char>| self@.jobs[id].waits()),
                poll == (|id: Seq<char>| (id, self@.jobs[id].core)),
                polls_of(r@) == order.take(i as int).filter(pred).map_values(poll),
            decreases order.len() - i,
        {
            let ghost before = r@;
            let ghost id = order[i as int];
            proof {
                filter_push(order.take(i as int), pred, id);
                assert(order.take(i + 1) =~= order.take(i as int).push(id));
            }
            let job = self.jobs.value_at(i);
            if same(job.state.as_str(), "queued") || same(job.state.as_str(), "running") {
                let name = self.jobs.name_at(i).to_owned();
                r.push((name, (job.core.0.clone(), job.core.1.clone())));
                assert(polls_of(r@) =~= polls_of(before).push(poll(id)));
                assert(order.take(i + 1).filter(pred).map_values(poll) =~= order.take(
                    i as int,
                ).filter(pred).map_values(poll).push(poll(id)));
            }
            i += 1;
        }
        assert(order.take(i as int) =~= order);
        r
    }

    /// Notes the state that the engine gave of the job `id`.
    pub fn note_job_state(&mut self, id: &str, state: String)
        requires
            old(self).wf(),
        ensures
            final(self).wf(),
            final(self)@ == old(self)@.noted(id@, state@),
    {
        match self.jobs.get_mut(id) {
            Some(job) => {
                job.state = state;
            },
            None => {},
        }
    }

    /// The status of the job `job_id`, as it is told.
    pub fn job_status(&self, job_id: &str) -> (r: String)
        requires
            self.wf(),
        ensures
            r@ == text_of_json(self@.job_told(job_id@)),
    {
        match self.jobs.get(job_id) {
            None => err("unknown jobId"),
            Some(job) => {
                let result = if same(job.state.as_str(), "done") {
                    job.result.clone()
                } else {
                    Json::Null
                };
                let error = if same(job.state.as_str(), "failed") {
                    Json::text(job.error.as_str())
                } else {
                    Json::Null
                };
                ok(
                    Json::object()
                        .with("jobId", Json::text(job_id))
                        .with("kind", Json::text(job.kind.as_str()))
                        .with("state", Json::text(job.state.as_str()))
                        .with("result", result)
                        .with("error", error),
                )
            },
        }
    }
}

// ---------------------------------------------------------------------------------------------
// Finishing
// ---------------------------------------------------------------------------------------------

/// A job after which a wallet is open.
pub open spec fn opens_wallet(kind: Seq<char>) -> bool {
    kind == "open_wallet"@ || kind == "create_wallet"@ || kind == "restore_from_seed"@ || kind
        == "restore_from_keys"@
}

/// A job of a send. The request id rides where others have the wallet.
pub open spec fn is_send_job(kind: Seq<char>) -> bool {
    kind == "create_transaction"@ || kind == "commit_transaction"@
}

/// What is remembered of a wallet that has opened: what was to be remembered, or what was, with
/// what the engine has learned.
pub open spec fn learned(
    meta: Option<WalletMetaView>,
    remembered: Option<WalletMetaView>,
    active: Seq<char>,
    result: JsonView,
) -> WalletMetaView {
    let base = match meta {
        Some(meta) => meta,
        None => match remembered {
            Some(meta) => meta,
            None => WalletMetaView::blank(),
        },
    };
    WalletMetaView {
        network: if base.network.len() == 0 {
            active
        } else {
            base.network
        },
        address: result.text_or("address"@, base.address),
        view_only: match result.bool_at("watchOnly"@) {
            Some(view_only) => view_only,
            None => base.view_only,
        },
        ..base
    }
}

/// The number that a text gives, or zero.
pub open spec fn number_or_zero(s: Seq<char>) -> nat {
    match u64_of(s) {
        Some(n) => n as nat,
        None => 0,
    }
}

/// Amount and fee together, as far as 64 bits go.
pub open spec fn total_of(amount: Seq<char>, fee: Seq<char>) -> Seq<char> {
    let sum = number_or_zero(amount) + number_or_zero(fee);
    numeral(
        if sum <= u64::MAX {
            sum
        } else {
            u64::MAX as nat
        },
    )
}

/// What is shown for review of a transaction that the engine has built.
pub open spec fn preview_of(result: JsonView) -> JsonView {
    let amount = result.text_or("amount"@, "0"@);
    let fee = result.text_or("fee"@, "0"@);
    let total = total_of(amount, fee);
    JsonView::object()
        .with("destination"@, result.get_or("destination"@, JsonView::Text(""@)))
        .with("amount"@, JsonView::Text(amount))
        .with("amountXmr"@, JsonView::Text(shown(amount)))
        .with("fee"@, JsonView::Text(fee))
        .with("feeXmr"@, JsonView::Text(shown(fee)))
        .with("total"@, JsonView::Text(total))
        .with("totalXmr"@, JsonView::Text(shown(total)))
        .with("txCount"@, result.get_or("txCount"@, JsonView::Unsigned(1)))
        .with("txids"@, result.get_or("txids"@, JsonView::Text(""@)))
}

impl SendRequestView {
    /// The send after the engine has built the transaction: it waits for review.
    pub open spec fn previewed(self, result: JsonView, now: u128) -> SendRequestView {
        SendRequestView {
            tx_handle: result.text_at("txHandle"@),
            preview: Some(preview_of(result)),
            state: SendStateView::Previewed,
            prepared_at: Some(now),
            ..self
        }
    }

    /// The send after the engine has broadcast the transaction.
    pub open spec fn sent(self, result: JsonView) -> SendRequestView {
        SendRequestView {
            txids: result.text_at("txids"@),
            state: SendStateView::Sent,
            ..self
        }
    }

    /// The send after its job is done: one that is being built waits for review, one that is being
    /// broadcast is sent, and any other is left as it is.
    pub open spec fn advanced(self, kind: Seq<char>, result: JsonView, now: u128) -> SendRequestView {
        if kind == "create_transaction"@ && self.state is Preparing {
            self.previewed(result, now)
        } else if kind == "commit_transaction"@ && self.state is Committing {
            self.sent(result)
        } else {
            self
        }
    }

    /// The send is at the stage that a job of this kind brings to its end.
    pub open spec fn awaits_job(self, kind: Seq<char>) -> bool {
        ||| kind == "create_transaction"@ && self.state is Preparing
        ||| kind == "commit_transaction"@ && self.state is Committing
    }

    /// The send after its job has failed.
    pub open spec fn broken(self, words: Seq<char>) -> SendRequestView {
        SendRequestView { state: SendStateView::Failed(words), ..self }
    }
}

impl BackendView {
    /// The registry after `job` is done: a wallet that has opened is remembered.
    pub open spec fn registry_after(self, job: TrackedJobView, result: JsonView) -> Map<Seq<char>, WalletMetaView> {
        if opens_wallet(job.kind) {
            let remembered = if self.registry.contains_key(job.wallet) {
                Some(self.registry[job.wallet])
            } else {
                None
            };
            self.registry.insert(job.wallet, learned(job.meta, remembered, self.active, result))
        } else {
            self.registry
        }
    }

    /// There is a send that `job` was for, and it waits for the end of such a job.
    pub open spec fn advances_send(self, job: TrackedJobView) -> bool {
        self.sends.contains_key(job.wallet) && self.sends[job.wallet].awaits_job(job.kind)
    }

    /// There is a send that `job` was for.
    pub open spec fn breaks_send(self, job: TrackedJobView) -> bool {
        is_send_job(job.kind) && self.sends.contains_key(job.wallet)
    }

    /// The sends after `job` is done: the send that it was for advances, if it waits for that.
    pub open spec fn sends_after(self, job: TrackedJobView, result: JsonView, now: u128) -> Map<Seq<char>, SendRequestView> {
        if self.advances_send(job) {
            self.sends.insert(job.wallet, self.sends[job.wallet].advanced(job.kind, result, now))
        } else {
            self.sends
        }
    }

    /// The sends after `job` has failed: so has the send that it was for.
    pub open spec fn sends_broken(self, job: TrackedJobView, words: Seq<char>) -> Map<Seq<char>, SendRequestView> {
        if self.breaks_send(job) {
            self.sends.insert(job.wallet, self.sends[job.wallet].broken(words))
        } else {
            self.sends
        }
    }

    /// The state after the job `id` came to an end.
    pub open spec fn finished(self, id: Seq<char>, outcome: Result<JsonView, Seq<char>>, now: u128) -> BackendView {
        let job = self.jobs[id];
        if !self.jobs.contains_key(id) {
            self
        } else {
            match outcome {
                Ok(result) => BackendView {
                    registry: self.registry_after(job, result),
                    sends: self.sends_after(job, result, now),
                    jobs: self.jobs.insert(id, TrackedJobView { state: "done"@, result, ..job }),
                    ..self
                },
                Err(words) => BackendView {
                    sends: self.sends_broken(job, words),
                    jobs: self.jobs.insert(
                        id,
                        TrackedJobView { state: "failed"@, error: words, ..job },
                    ),
                    ..self
                },
            }
        }
    }

    /// What the surfaces are told when the job `id` comes to an end: first of the send, where it
    /// has moved or its job has failed, then of the job.
    pub open spec fn finish_events(self, id: Seq<char>, outcome: Result<JsonView, Seq<char>>, now: u128) -> Seq<EventView> {
        let job = self.jobs[id];
        if !self.jobs.contains_key(id) {
            Seq::empty()
        } else {
            match outcome {
                Ok(result) => {
                    let done = seq![EventView::JobFinished(id, "done"@)];
                    if self.advances_send(job) {
                        seq![
                            EventView::SendStatusChanged(
                                job.wallet,
                                self.sends[job.wallet].advanced(job.kind, result, now).state.name(),
                            ),
                        ] + done
                    } else {
                        done
                    }
                },
                Err(_) => {
                    let failed = seq![EventView::JobFinished(id, "failed"@)];
                    if is_send_job(job.kind) {
                        seq![EventView::SendStatusChanged(job.wallet, "failed"@)] + failed
                    } else {
                        failed
                    }
                },
            }
        }
    }

    /// The registry is to be stored when the job `id` comes to an end.
    pub open spec fn finish_stores(self, id: Seq<char>, outcome: Result<JsonView, Seq<char>>) -> bool {
        self.jobs.contains_key(id) && outcome is Ok && opens_wallet(self.jobs[id].kind)
    }
}

/// What is to be done after a job came to an end.
pub struct Finished {
    /// The registry is to be stored.
    pub store_registry: bool,
    /// What the surfaces are to be told, in order.
    pub events: Vec<Event>,
}

/// Whether a wallet is open after a job of this kind.
fn opens(kind: &str) -> (r: bool)
    ensures
        r == opens_wallet(kind@),
{
    same(kind, "open_wallet") || same(kind, "create_wallet") || same(kind, "restore_from_seed")
        || same(kind, "restore_from_keys")
}

/// What is shown for review of a transaction that the engine has built.
fn make_preview(result: &Json) -> (r: Json)
    ensures
        r@ == preview_of(result@),
{
    let amount = result.text_or("amount", "0");
    let fee = result.text_or("fee", "0");
    let a: u64 = match parse_u64(amount.as_str()) {
        Some(n) => n,
        None => 0,
    };
    let f: u64 = match parse_u64(fee.as_str()) {
        Some(n) => n,
        None => 0,
    };
    let sum: u64 = if a <= u64::MAX - f {
        a + f
    } else {
        u64::MAX
    };
    let total = u64_text(sum);
    let amount_xmr = show_xmr(amount.as_str());
    let fee_xmr = show_xmr(fee.as_str());
    let total_xmr = show_xmr(total.as_str());
    Json::object()
        .with("destination", result.get_or("destination", Json::text("")))
        .with("amount", Json::Text(amount))
        .with("amountXmr", Json::Text(amount_xmr))
        .with("fee", Json::Text(fee))
        .with("feeXmr", Json::Text(fee_xmr))
        .with("total", Json::Text(total))
        .with("totalXmr", Json::Text(total_xmr))
        .with("txCount", result.get_or("txCount", Json::Unsigned(1)))
        .with("txids", result.get_or("txids", Json::text("")))
}

/// The field `name`, if it is a text.
fn owned_text(value: &Json, name: &str) -> (r: Option<String>)
    ensures
        held_string(r) == value@.text_at(name@),
{
    match value.text_at(name) {
        Some(s) => Some(s.to_owned()),
        None => None,
    }
}

impl Backend {
    /// Remembers a wallet that has opened, with what the engine has learned.
    fn remember(&mut self, wallet: &str, meta: Option<WalletMeta>, result: &Json)
        requires
            old(self).wf(),
        ensures
            final(self).wf(),
            final(self)@ == (BackendView {
                registry: old(self)@.registry.insert(
                    wallet@,
                    learned(
                        held_meta(meta),
                        if old(self)@.registry.contains_key(wallet@) {
                            Some(old(self)@.registry[wallet@])
                        } else {
                            None
                        },
                        old(self)@.active,
                        result@,
                    ),
                ),
                ..old(self)@
            }),
    {
        let mut m = match meta {
            Some(meta) => meta,
            None => match self.registry.get(wallet) {
                Some(remembered) => remembered.clone(),
                None => WalletMeta::default(),
            },
        };
        if m.network.as_str().is_empty() {
            m.network = self.active.clone();
        }
        match result.text_at("address") {
            Some(address) => {
                m.address = address.to_owned();
            },
            None => {},
        }
        match result.bool_at("watchOnly") {
            Some(view_only) => {
                m.view_only = view_only;
            },
            None => {},
        }
        self.registry.upsert(wallet, m);
    }

    /// Advances the send `id` after its job is done, if it waits for that. The word for its state,
    /// if it has moved.
    fn advance_send(&mut self, id: &str, kind: &str, result: &Json, now: u128) -> (r: Option<&'static str>)
        requires
            old(self).wf(),
        ensures
            final(self).wf(),
            if old(self)@.sends.contains_key(id@) && old(self)@.sends[id@].awaits_job(kind@) {
                let send = old(self)@.sends[id@].advanced(kind@, result@, now);
                &&& final(self)@ == (BackendView { sends: old(self)@.sends.insert(id@, send), ..old(self)@ })
                &&& held(r) == Some(send.state.name())
            } else {
                r is None && final(self)@ == old(self)@
            },
    {
        let ghost before = self@.sends;
        let building = same(kind, "create_transaction");
        let broadcasting = same(kind, "commit_transaction");
        let r = match self.sends.get_mut(id) {
            Some(send) => {
                let ready = match &send.state {
                    SendState::Preparing => building,
                    SendState::Committing => broadcasting,
                    _ => false,
                };
                if ready {
                    match &send.state {
                        SendState::Preparing => {
                            send.tx_handle = owned_text(result, "txHandle");
                            send.preview = Some(make_preview(result));
                            send.state = SendState::Previewed;
                            send.prepared_at = Some(now);
                            Some("previewed")
                        },
                        _ => {
                            send.txids = owned_text(result, "txids");
                            send.state = SendState::Sent;
                            Some("sent")
                        },
                    }
                } else {
                    None
                }
            },
            None => None,
        };
        proof {
            if r is None && before.contains_key(id@) {
                assert(before.insert(id@, before[id@]) =~= before);
            }
        }
        r
    }

    /// Lets the send `id` fail, if there is one.
    pub(crate) fn break_send(&mut self, id: &str, words: &str)
        requires
            old(self).wf(),
        ensures
            final(self).wf(),
            final(self)@ == old(self)@.send_broken(id@, words@),
    {
        match self.sends.get_mut(id) {
            Some(send) => {
                send.state = SendState::Failed(words.to_owned());
            },
            None => {},
        }
    }

    /// Acts on the end of the job `id`: `outcome` is its result, or why it failed; `now` is the
    /// time. A wallet that has opened is remembered, a send that waits for it advances, a send
    /// whose job has failed fails with it, and the surfaces are told. Of a job that is not followed nothing is told.
    pub fn finish_job(&mut self, id: &str, outcome: Result<Json, String>, now: u128) -> (r: Finished)
        requires
            old(self).wf(),
        ensures
            final(self).wf(),
            final(self)@ == old(self)@.finished(id@, outcome_view(outcome), now),
            told(r.events@) == old(self)@.finish_events(id@, outcome_view(outcome), now),
            r.store_registry == old(self)@.finish_stores(id@, outcome_view(outcome)),
    {
        let ghost before = self@;
        let mut events: Vec<Event> = Vec::new();
        let (kind, wallet, meta) = match self.jobs.get(id) {
            Some(job) => {
                let meta = match &job.meta {
                    Some(meta) => Some(meta.clone()),
                    None => None,
                };
                (job.kind.clone(), job.wallet.clone(), meta)
            },
            None => {
                assert(told(events@) =~= Seq::<EventView>::empty());
                return Finished { store_registry: false, events };
            },
        };
        let ghost job = before.jobs[id@];
        match outcome {
            Ok(result) => {
                let store_registry = opens(kind.as_str());
                if store_registry {
                    self.remember(wallet.as_str(), meta, &result);
                }
                assert(self@.registry == before.registry_after(job, result@));
                assert(self@.sends == before.sends);
                match self.advance_send(wallet.as_str(), kind.as_str(), &result, now) {
                    Some(state) => {
                        events.push(Event::SendStatusChanged(wallet.clone(), state.to_owned()));
                    },
                    None => {},
                }
                assert(self@.sends == before.sends_after(job, result@, now));
                let ghost said = result@;
                match self.jobs.get_mut(id) {
                    Some(job) => {
                        job.state = "done".to_owned();
                        job.result = result;
                    },
                    None => {},
                }
                events.push(Event::JobFinished(id.to_owned(), "done".to_owned()));
                assert(told(events@) =~= before.finish_events(id@, outcome_view(outcome), now));
                Finished { store_registry, events }
            },
            Err(words) => {
                let send_job = same(kind.as_str(), "create_transaction") || same(
                    kind.as_str(),
                    "commit_transaction",
                );
                if send_job {
                    self.break_send(wallet.as_str(), words.as_str());
                    events.push(Event::SendStatusChanged(wallet, "failed".to_owned()));
                }
                assert(self@.sends == before.sends_broken(job, words@));
                match self.jobs.get_mut(id) {
                    Some(job) => {
                        job.state = "failed".to_owned();
                        job.error = words;
                    },
                    None => {},
                }
                events.push(Event::JobFinished(id.to_owned(), "failed".to_owned()));
                assert(told(events@) =~= before.finish_events(id@, outcome_view(outcome), now));
                Finished { store_registry: false, events }
            },
        }
    }
}

/// Law: what came of a start, what is polled and what is to be done say what they are.
pub proof fn what_came_of_a_start(
    a: String,
    polls: Seq<(String, (String, String))>,
    i: int,
)
    ensures
        started(Ok::<String, String>(a)) == Ok::<Seq<char>, Seq<char>>(a@),
        started(Err::<String, String>(a)) == Err::<Seq<char>, Seq<char>>(a@),
        polls_of(polls).len() == polls.len(),
        0 <= i < polls.len() ==> polls_of(polls)[i] == (polls[i].0@, (polls[i].1.0@, polls[i].1.1@)),
        JobStep::Collect@ is Collect,
        JobStep::Fail(a)@ == JobStepView::Fail(a@),
        JobStep::Note(a)@ == JobStepView::Note(a@),
        JobStep::Wait@ is Wait,
{
}

} // verus!
