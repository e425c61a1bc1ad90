//! The backend's state, and the shapes in which it speaks to the surfaces and to the engine.

use vstd::prelude::*;

use crate::json::{outcome_view, text_of_json, Json, JsonView};
use crate::model::registry::{Registry, WalletMeta, WalletMetaView};
use crate::model::sends::{SendRequestView, Sends};
use crate::ordered::{lists, OrderedMap};
use crate::text::{numeral, numeral_injective};

pub mod job_laws;
pub mod jobs;
pub mod laws;
pub mod reactor;
pub mod reactor_laws;
pub mod send_laws;
pub mod sending;
pub mod wallet_laws;
pub mod wallets;
pub mod watch;

verus! {

// ---------------------------------------------------------------------------------------------
// Replies
// ---------------------------------------------------------------------------------------------

/// The reply that all went well, with what it has to tell.
pub open spec fn ok_reply(value: JsonView) -> JsonView {
    value.with("ok"@, JsonView::Bool(true))
}

/// The reply that something went wrong, and what.
pub open spec fn err_reply(words: Seq<char>) -> JsonView {
    JsonView::object()
        .with("ok"@, JsonView::Bool(false))
        .with("error"@, JsonView::Text(words))
}

/// The text of the reply that all went well.
pub fn ok(value: Json) -> (r: String)
    requires
        value@.takes_fields(),
    ensures
        r@ == text_of_json(ok_reply(value@)),
{
    value.with("ok", Json::Bool(true)).to_text()
}

/// The text of the reply that something went wrong.
pub fn err(words: &str) -> (r: String)
    ensures
        r@ == text_of_json(err_reply(words@)),
{
    Json::object().with("ok", Json::Bool(false)).with("error", Json::text(words)).to_text()
}

/// What came of a call of the engine: its value, or words that name the engine.
pub open spec fn named_outcome(r: Result<JsonView, Seq<char>>) -> Result<JsonView, Seq<char>> {
    match r {
        Ok(value) => Ok(value),
        Err(words) => Err("wallet core: "@ + words),
    }
}

/// The value in the engine's envelope, `{ success, value?, error? }` or `{ ok, result?, error? }`;
/// a value without an envelope is itself.
pub open spec fn unwrapped(value: JsonView) -> Result<JsonView, Seq<char>> {
    match value.bool_at("success"@) {
        Some(true) => Ok(value.get_or("value"@, JsonView::Null)),
        Some(false) => Err(value.text_or("error"@, "engine error"@)),
        None => match value.bool_at("ok"@) {
            Some(true) => Ok(value.get_or("result"@, value)),
            Some(false) => Err(value.text_or("error"@, "engine error"@)),
            None => Ok(value),
        },
    }
}

/// What a call of the engine gives, out of its envelope.
pub open spec fn engine_outcome(r: Result<JsonView, Seq<char>>) -> Result<JsonView, Seq<char>> {
    match named_outcome(r) {
        Ok(value) => unwrapped(value),
        Err(words) => Err(words),
    }
}

/// Names the engine in the words of a call that failed.
pub fn core_json(r: Result<Json, String>) -> (named: Result<Json, String>)
    ensures
        outcome_view(named) == named_outcome(outcome_view(r)),
{
    match r {
        Ok(value) => Ok(value),
        Err(words) => {
            let mut all = "wallet core: ".to_owned();
            all.append(words.as_str());
            Err(all)
        },
    }
}

/// The value in the engine's envelope.
pub fn unwrap_result(value: Json) -> (r: Result<Json, String>)
    ensures
        outcome_view(r) == unwrapped(value@),
{
    match value.bool_at("success") {
        Some(true) => {
            return Ok(value.get_or("value", Json::Null));
        },
        Some(false) => {
            return Err(value.text_or("error", "engine error"));
        },
        None => {},
    }
    match value.bool_at("ok") {
        Some(true) => {
            let whole = value.clone();
            Ok(value.get_or("result", whole))
        },
        Some(false) => Err(value.text_or("error", "engine error")),
        None => Ok(value),
    }
}

/// What a call of the engine gives, out of its envelope. A failed call comes in as the words of
/// its error.
pub fn engine_result(r: Result<Json, String>) -> (outcome: Result<Json, String>)
    ensures
        outcome_view(outcome) == engine_outcome(outcome_view(r)),
{
    match core_json(r) {
        Ok(value) => unwrap_result(value),
        Err(words) => Err(words),
    }
}

/// The reply that hands an engine's value on.
pub open spec fn passed_on(outcome: Result<JsonView, Seq<char>>) -> JsonView {
    match outcome {
        Ok(value) => ok_reply(value),
        Err(words) => err_reply(words),
    }
}

/// Hands what the engine gave on to the surface: a seed, a view key, a new subaddress. Nothing of
/// it is kept. The value must be one that the mark of success can be set on.
pub fn pass_on(r: Result<Json, String>) -> (text: String)
    requires
        engine_outcome(outcome_view(r)) matches Ok(value) ==> value.takes_fields(),
    ensures
        text@ == text_of_json(passed_on(engine_outcome(outcome_view(r)))),
{
    match engine_result(r) {
        Ok(value) => ok(value),
        Err(words) => err(words.as_str()),
    }
}

// ---------------------------------------------------------------------------------------------
// State
// ---------------------------------------------------------------------------------------------

/// A job to be started in the engine.
#[derive(Debug)]
pub struct EngineJob {
    pub kind: String,
    pub params: Json,
    /// The wallet that the job is about; for a send, its request id.
    pub wallet: String,
    /// What is to be remembered of the wallet when the job is done.
    pub meta: Option<WalletMeta>,
}

/// What an `EngineJob` says.
pub struct EngineJobView {
    pub kind: Seq<char>,
    pub params: JsonView,
    pub wallet: Seq<char>,
    pub meta: Option<WalletMetaView>,
}

/// What is to be remembered, if anything.
pub open spec fn held_meta(meta: Option<WalletMeta>) -> Option<WalletMetaView> {
    match meta {
        Some(meta) => Some(meta@),
        None => None,
    }
}

impl View for EngineJob {
    type V = EngineJobView;

    open spec fn view(&self) -> EngineJobView {
        EngineJobView {
            kind: self.kind@,
            params: self.params@,
            wallet: self.wallet@,
            meta: held_meta(self.meta),
        }
    }
}

/// A job that runs in the engine.
#[derive(Debug)]
pub struct TrackedJob {
    pub kind: String,
    /// The engine's id and receipt of the job. A surface never sees them.
    pub core: (String, String),
    pub state: String,
    pub result: Json,
    pub error: String,
    pub wallet: String,
    pub meta: Option<WalletMeta>,
}

/// What a `TrackedJob` says.
pub struct TrackedJobView {
    pub kind: Seq<char>,
    pub core: (Seq<char>, Seq<char>),
    pub state: Seq<char>,
    pub result: JsonView,
    pub error: Seq<char>,
    pub wallet: Seq<char>,
    pub meta: Option<WalletMetaView>,
}

impl View for TrackedJob {
    type V = TrackedJobView;

    open spec fn view(&self) -> TrackedJobView {
        TrackedJobView {
            kind: self.kind@,
            core: (self.core.0@, self.core.1@),
            state: self.state@,
            result: self.result@,
            error: self.error@,
            wallet: self.wallet@,
            meta: held_meta(self.meta),
        }
    }
}

/// How far the wallet has followed the chain.
#[derive(Clone, Copy, Debug, PartialEq, Eq, Structural)]
pub struct SyncProgress {
    pub wallet_height: u64,
    pub daemon_height: u64,
    pub percent: u64,
    pub synchronized: bool,
}

/// All that the backend keeps.
pub struct Backend {
    pub registry: Registry,
    /// The network that new wallets are on.
    pub active: String,
    pub jobs: OrderedMap<TrackedJob>,
    pub next_job: u64,
    pub sends: Sends,
    pub last_state: String,
    pub last_sync: Option<SyncProgress>,
    pub last_balance: (String, String),
}

/// What a `Backend` holds.
#[verifier::ext_equal]
pub struct BackendView {
    pub registry: Map<Seq<char>, WalletMetaView>,
    pub active: Seq<char>,
    pub jobs: Map<Seq<char>, TrackedJobView>,
    pub next_job: u64,
    pub sends: Map<Seq<char>, SendRequestView>,
    pub next_send: u64,
    pub last_state: Seq<char>,
    pub last_sync: Option<SyncProgress>,
    pub last_balance: (Seq<char>, Seq<char>),
}

impl View for Backend {
    type V = BackendView;

    open spec fn view(&self) -> BackendView {
        BackendView {
            registry: self.registry@,
            active: self.active@,
            jobs: self.jobs@,
            next_job: self.next_job,
            sends: self.sends@,
            next_send: self.sends.next(),
            last_state: self.last_state@,
            last_sync: self.last_sync,
            last_balance: (self.last_balance.0@, self.last_balance.1@),
        }
    }
}

/// The id of the `n`th job.
pub open spec fn job_id(n: nat) -> Seq<char> {
    "b"@ + numeral(n)
}

/// Ids of different jobs are different.
pub proof fn job_ids_differ(m: nat, n: nat)
    requires
        job_id(m) == job_id(n),
    ensures
        m == n,
{
    reveal_strlit("b");
    assert(job_id(m).skip(1) =~= numeral(m));
    assert(job_id(n).skip(1) =~= numeral(n));
    numeral_injective(m, n);
}

impl Backend {
    /// Registry, sends and jobs are in order, and no job has the id of one to come.
    pub open spec fn wf(&self) -> bool {
        &&& self.registry.wf()
        &&& self.sends.wf()
        &&& lists(self.jobs.names(), self.jobs@)
        &&& forall|id: Seq<char>| #[trigger] self.jobs@.contains_key(id) ==> exists|n: nat| n < self.next_job && id == #[trigger] job_id(n)
    }
}

impl BackendView {
    /// The state of a backend that has just started.
    pub open spec fn fresh() -> BackendView {
        BackendView {
            registry: Map::empty(),
            active: "stagenet"@,
            jobs: Map::empty(),
            next_job: 1,
            sends: Map::empty(),
            next_send: 1,
            last_state: Seq::empty(),
            last_sync: None,
            last_balance: (Seq::empty(), Seq::empty()),
        }
    }
}

impl Default for Backend {
    fn default() -> (r: Self)
        ensures
            r.wf(),
            r@ == BackendView::fresh(),
    {
        Backend {
            registry: Registry::new(None),
            active: "stagenet".to_owned(),
            jobs: OrderedMap::new(),
            next_job: 1,
            sends: Sends::default(),
            last_state: String::new(),
            last_sync: None,
            last_balance: (String::new(), String::new()),
        }
    }
}

// ---------------------------------------------------------------------------------------------
// Events
// ---------------------------------------------------------------------------------------------

/// Something that the surfaces are told of.
#[derive(Clone, Debug, PartialEq, Eq)]
pub enum Event {
    /// The engine's state moved; the wallet status.
    WalletStateChanged(String),
    /// `{ walletHeight, daemonHeight, percent, synchronized }`.
    SyncProgressed(String),
    /// `{ balance, unlocked }`.
    BalanceChanged(String),
    /// A send's request id and state.
    SendStatusChanged(String, String),
    /// A job's id and state.
    JobFinished(String, String),
}

/// What an `Event` says.
pub enum EventView {
    WalletStateChanged(Seq<char>),
    SyncProgressed(Seq<char>),
    BalanceChanged(Seq<char>),
    SendStatusChanged(Seq<char>, Seq<char>),
    JobFinished(Seq<char>, Seq<char>),
}

impl View for Event {
    type V = EventView;

    open spec fn view(&self) -> EventView {
        match self {
            Event::WalletStateChanged(status) => EventView::WalletStateChanged(status@),
            Event::SyncProgressed(progress) => EventView::SyncProgressed(progress@),
            Event::BalanceChanged(balance) => EventView::BalanceChanged(balance@),
            Event::SendStatusChanged(id, state) => EventView::SendStatusChanged(id@, state@),
            Event::JobFinished(id, state) => EventView::JobFinished(id@, state@),
        }
    }
}

/// What some events say.
pub open spec fn told(events: Seq<Event>) -> Seq<EventView> {
    events.map_values(|event: Event| event@)
}

// ---------------------------------------------------------------------------------------------
// Laws
// ---------------------------------------------------------------------------------------------

/// Law: what a job says is what it holds, whether it is to be started or runs.
pub proof fn what_jobs_say(job: EngineJob, tracked_job: TrackedJob)
    ensures
        job@.kind == job.kind@,
        job@.params == job.params@,
        job@.wallet == job.wallet@,
        job.meta is Some ==> job@.meta == Some(job.meta->0@),
        job.meta is None ==> job@.meta is None,
        tracked_job@.kind == tracked_job.kind@,
        tracked_job@.core == (tracked_job.core.0@, tracked_job.core.1@),
        tracked_job@.state == tracked_job.state@,
        tracked_job@.result == tracked_job.result@,
        tracked_job@.error == tracked_job.error@,
        tracked_job@.wallet == tracked_job.wallet@,
        tracked_job.meta is Some ==> tracked_job@.meta == Some(tracked_job.meta->0@),
        tracked_job.meta is None ==> tracked_job@.meta is None,
{
}

/// Law: what the backend holds is what its parts hold.
pub proof fn what_the_backend_holds(b: Backend)
    ensures
        b@.registry == b.registry@,
        b@.active == b.active@,
        b@.jobs == b.jobs@,
        b@.next_job == b.next_job,
        b@.sends == b.sends@,
        b@.next_send == b.sends.next(),
        b@.last_state == b.last_state@,
        b@.last_sync == b.last_sync,
        b@.last_balance == (b.last_balance.0@, b.last_balance.1@),
{
}

/// Law: events say what they are, and a list of them says each, in order.
pub proof fn what_events_say(a: String, b: String, events: Seq<Event>, i: int)
    ensures
        Event::WalletStateChanged(a)@ == EventView::WalletStateChanged(a@),
        Event::SyncProgressed(a)@ == EventView::SyncProgressed(a@),
        Event::BalanceChanged(a)@ == EventView::BalanceChanged(a@),
        Event::SendStatusChanged(a, b)@ == EventView::SendStatusChanged(a@, b@),
        Event::JobFinished(a, b)@ == EventView::JobFinished(a@, b@),
        told(events).len() == events.len(),
        0 <= i < events.len() ==> told(events)[i] == events[i]@,
{
}

} // verus!
