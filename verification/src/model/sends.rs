//! The send state machine: build, review, broadcast. A built transaction reserves nothing, so a
//! second build could spend the same outputs: a send is begun only while no other is in flight,
//! and a preview expires.

use vstd::prelude::*;

use crate::json::{list_view, text_or_null, Json, JsonView};
use crate::ordered::{filter_push, in_order, lists, OrderedMap};
use crate::text::{
    held, held_string, names_of, numeral, numeral_injective, precedes, precedes_irreflexive,
    precedes_total, precedes_transitive, u64_text,
};

verus! {

/// Where a send stands.
#[derive(Clone, Debug, PartialEq, Eq)]
pub enum SendState {
    Preparing,
    Previewed,
    Committing,
    Sent,
    Failed(String),
    Cancelled,
}

/// Where a send stands, and why it failed.
pub enum SendStateView {
    Preparing,
    Previewed,
    Committing,
    Sent,
    Failed(Seq<char>),
    Cancelled,
}

impl View for SendState {
    type V = SendStateView;

    open spec fn view(&self) -> SendStateView {
        match self {
            SendState::Preparing => SendStateView::Preparing,
            SendState::Previewed => SendStateView::Previewed,
            SendState::Committing => SendStateView::Committing,
            SendState::Sent => SendStateView::Sent,
            SendState::Failed(why) => SendStateView::Failed(why@),
            SendState::Cancelled => SendStateView::Cancelled,
        }
    }
}

impl SendStateView {
    /// The word for the state.
    pub open spec fn name(self) -> Seq<char> {
        match self {
            SendStateView::Preparing => "preparing"@,
            SendStateView::Previewed => "previewed"@,
            SendStateView::Committing => "committing"@,
            SendStateView::Sent => "sent"@,
            SendStateView::Failed(_) => "failed"@,
            SendStateView::Cancelled => "cancelled"@,
        }
    }

    /// The send is at its end: it has been sent, has failed or was withdrawn.
    pub open spec fn terminal(self) -> bool {
        self is Sent || self is Failed || self is Cancelled
    }

    /// Why the send failed, if it did.
    pub open spec fn error(self) -> Option<Seq<char>> {
        match self {
            SendStateView::Failed(why) => Some(why),
            _ => None,
        }
    }
}

impl SendState {
    /// The word for the state.
    pub fn name(&self) -> (r: &'static str)
        ensures
            r@ == self@.name(),
    {
        match self {
            SendState::Preparing => "preparing",
            SendState::Previewed => "previewed",
            SendState::Committing => "committing",
            SendState::Sent => "sent",
            SendState::Failed(_) => "failed",
            SendState::Cancelled => "cancelled",
        }
    }

    /// Whether the send is at its end.
    pub fn terminal(&self) -> (r: bool)
        ensures
            r == self@.terminal(),
    {
        match self {
            SendState::Sent => true,
            SendState::Failed(_) => true,
            SendState::Cancelled => true,
            _ => false,
        }
    }

    /// Why the send failed, if it did.
    fn error(&self) -> (r: Option<&str>)
        ensures
            held(r) == self@.error(),
    {
        match self {
            SendState::Failed(why) => Some(why.as_str()),
            _ => None,
        }
    }
}

/// One send.
#[derive(Clone, Debug)]
pub struct SendRequest {
    pub request_id: String,
    pub state: SendState,
    /// What was asked for.
    pub request: Json,
    /// What is shown for review, once the engine has built the transaction.
    pub preview: Option<Json>,
    /// The engine's handle of the built transaction.
    pub tx_handle: Option<String>,
    pub txids: Option<String>,
    pub core_job: Option<(String, String)>,
    /// When the preview was made, in nanoseconds of a clock that does not go back.
    pub prepared_at: Option<u128>,
}

/// What a `SendRequest` says.
pub struct SendRequestView {
    pub request_id: Seq<char>,
    pub state: SendStateView,
    pub request: JsonView,
    pub preview: Option<JsonView>,
    pub tx_handle: Option<Seq<char>>,
    pub txids: Option<Seq<char>>,
    pub core_job: Option<(Seq<char>, Seq<char>)>,
    pub prepared_at: Option<u128>,
}

/// What an optional value says.
pub open spec fn held_json(json: Option<Json>) -> Option<JsonView> {
    match json {
        Some(value) => Some(value@),
        None => None,
    }
}

impl View for SendRequest {
    type V = SendRequestView;

    open spec fn view(&self) -> SendRequestView {
        SendRequestView {
            request_id: self.request_id@,
            state: self.state@,
            request: self.request@,
            preview: held_json(self.preview),
            tx_handle: held_string(self.tx_handle),
            txids: held_string(self.txids),
            core_job: match self.core_job {
                Some(job) => Some((job.0@, job.1@)),
                None => None,
            },
            prepared_at: self.prepared_at,
        }
    }
}

/// How long a preview may be committed, in nanoseconds: 120 seconds.
pub const PREVIEW_TTL: u128 = 120_000_000_000;

impl SendRequestView {
    /// A send that was just begun.
    pub open spec fn begun(id: Seq<char>, request: JsonView) -> SendRequestView {
        SendRequestView {
            request_id: id,
            state: SendStateView::Preparing,
            request,
            preview: None,
            tx_handle: None,
            txids: None,
            core_job: None,
            prepared_at: None,
        }
    }

    /// The send is not at its end.
    pub open spec fn open(self) -> bool {
        !self.state.terminal()
    }

    /// The send waits for review with a preview older than `PREVIEW_TTL`.
    pub open spec fn stale(self, now: u128) -> bool {
        &&& self.state is Previewed
        &&& self.prepared_at matches Some(made)
        &&& now - made > PREVIEW_TTL
    }

    /// The send after its preview has expired, if it has.
    pub open spec fn after_expiry(self, now: u128) -> SendRequestView {
        if self.stale(now) {
            SendRequestView { state: SendStateView::Failed("preview expired"@), ..self }
        } else {
            self
        }
    }

    /// The send's entry in the list of all sends.
    pub open spec fn entry(self) -> JsonView {
        JsonView::object()
            .with("requestId"@, JsonView::Text(self.request_id))
            .with("state"@, JsonView::Text(self.state.name()))
    }

    /// The send's status as it is told.
    pub open spec fn status(self) -> JsonView {
        JsonView::object()
            .with("ok"@, JsonView::Bool(true))
            .with("requestId"@, JsonView::Text(self.request_id))
            .with("state"@, JsonView::Text(self.state.name()))
            .with(
                "preview"@,
                match self.preview {
                    Some(preview) => preview,
                    None => JsonView::Null,
                },
            )
            .with("txids"@, text_or_null(self.txids))
            .with("error"@, text_or_null(self.state.error()))
    }
}

impl SendRequest {
    /// Whether the send waits for review with a preview older than `PREVIEW_TTL`.
    pub fn is_stale(&self, now: u128) -> (r: bool)
        ensures
            r == self@.stale(now),
    {
        match (&self.state, self.prepared_at) {
            (SendState::Previewed, Some(made)) => now > made && now - made > PREVIEW_TTL,
            _ => false,
        }
    }
}

/// The sends by id.
pub struct Sends {
    reqs: OrderedMap<SendRequest>,
    next: u64,
}

/// The id of the `n`th send.
pub open spec fn send_id(n: nat) -> Seq<char> {
    "s"@ + numeral(n)
}

/// Some send is not at its end.
pub open spec fn in_flight(sends: Map<Seq<char>, SendRequestView>) -> bool {
    exists|id: Seq<char>| #[trigger] sends.contains_key(id) && sends[id].open()
}

/// `id` is the first send, in order, that is not at its end.
pub open spec fn is_first_open(sends: Map<Seq<char>, SendRequestView>, id: Seq<char>) -> bool {
    &&& sends.contains_key(id)
    &&& sends[id].open()
    &&& forall|other: Seq<char>| #[trigger] sends.contains_key(other) && precedes(other, id) ==> !sends[other].open()
}

/// What is said where another send is in flight.
pub open spec fn in_flight_words(other: SendRequestView) -> Seq<char> {
    "a send is already in flight ("@ + other.request_id + ": "@ + other.state.name() + ")"@
}

/// All sends after their previews have expired, where they have.
pub open spec fn after_expiry(sends: Map<Seq<char>, SendRequestView>, now: u128) -> Map<Seq<char>, SendRequestView> {
    Map::new(|id: Seq<char>| sends.contains_key(id), |id: Seq<char>| sends[id].after_expiry(now))
}

/// The request ids of the sends `ids`.
pub open spec fn request_ids(ids: Seq<Seq<char>>, sends: Map<Seq<char>, SendRequestView>) -> Seq<Seq<char>> {
    ids.map_values(|id: Seq<char>| sends[id].request_id)
}

/// Ids of different sends are different.
pub proof fn send_ids_differ(m: nat, n: nat)
    requires
        send_id(m) == send_id(n),
    ensures
        m == n,
{
    reveal_strlit("s");
    assert(send_id(m).skip(1) =~= numeral(m));
    assert(send_id(n).skip(1) =~= numeral(n));
    numeral_injective(m, n);
}

impl View for Sends {
    type V = Map<Seq<char>, SendRequestView>;

    closed spec fn view(&self) -> Map<Seq<char>, SendRequestView> {
        self.reqs@
    }
}

impl Default for Sends {
    fn default() -> (r: Self)
        ensures
            r.wf(),
            r@ == Map::<Seq<char>, SendRequestView>::empty(),
            r.next() == 1,
    {
        Sends { reqs: OrderedMap::new(), next: 1 }
    }
}

impl Sends {
    /// The ids, in the order in which the sends are listed.
    pub closed spec fn order(&self) -> Seq<Seq<char>> {
        self.reqs.names()
    }

    /// The number of the next send.
    pub closed spec fn next(&self) -> u64 {
        self.next
    }

    /// The sends are listed by id, each once, and no id is one of a send to come.
    pub open spec fn wf(&self) -> bool {
        &&& lists(self.order(), self@)
        &&& forall|id: Seq<char>| #[trigger] self@.contains_key(id) ==> exists|n: nat| n < self.next() && id == #[trigger] send_id(n)
    }

    /// The first send that is not at its end.
    fn first_open(&self) -> (r: Option<&SendRequest>)
        requires
            self.wf(),
        ensures
            match r {
                Some(send) => exists|id: Seq<char>| #[trigger] is_first_open(self@, id) && send@ == self@[id],
                None => !in_flight(self@),
            },
    {
        let mut i: usize = 0;
        let ghost order = self.order();
        while i < self.reqs.len()
            invariant
                self.wf(),
                order == self.order(),
                i <= order.len(),
                forall|j: int| 0 <= j < i ==> !self@[#[trigger] order[j]].open(),
            decreases order.len() - i,
        {
            let send = self.reqs.value_at(i);
            if !send.state.terminal() {
                proof {
                    let id = order[i as int];
                    assert forall|other: Seq<char>| #[trigger] self@.contains_key(other) && precedes(other, id) implies !self@[other].open() by {
                        assert(order.contains(other));
                        let j = choose|j: int| 0 <= j < order.len() && order[j] == other;
                        if j > i {
                            assert(precedes(order[i as int], order[j]));
                            precedes_transitive(other, id, other);
                        }
                        precedes_irreflexive(other);
                    }
                    assert(is_first_open(self@, id));
                }
                return Some(send);
            }
            i += 1;
        }
        proof {
            assert forall|id: Seq<char>| #[trigger] self@.contains_key(id) implies !self@[id].open() by {
                assert(order.contains(id));
                let j = choose|j: int| 0 <= j < order.len() && order[j] == id;
                assert(!self@[order[j]].open());
            }
        }
        None
    }

    /// Whether some send is not at its end.
    pub fn any_open(&self) -> (r: bool)
        requires
            self.wf(),
        ensures
            r == in_flight(self@),
    {
        match self.first_open() {
            Some(_) => true,
            None => false,
        }
    }

    /// Whether there is an id for one more send.
    pub fn has_ids_left(&self) -> (r: bool)
        ensures
            r == (self.next() < u64::MAX),
    {
        self.next < u64::MAX
    }

    /// Begins a send. Refused while another is not at its end.
    pub fn begin(&mut self, request: Json) -> (r: Result<String, String>)
        requires
            old(self).wf(),
            in_flight(old(self)@) || old(self).next() < u64::MAX,
        ensures
            final(self).wf(),
            r is Err <==> in_flight(old(self)@),
            match r {
                Ok(id) => {
                    &&& id@ == send_id(old(self).next() as nat)
                    &&& !old(self)@.contains_key(id@)
                    &&& final(self)@ == old(self)@.insert(id@, SendRequestView::begun(id@, request@))
                    &&& final(self).next() == old(self).next() + 1
                },
                Err(words) => {
                    &&& *final(self) == *old(self)
                    &&& exists|id: Seq<char>| #[trigger] is_first_open(old(self)@, id) && words@ == in_flight_words(old(self)@[id])
                },
            },
    {
        match self.first_open() {
            Some(other) => {
                let mut words = "a send is already in flight (".to_owned();
                words.append(other.request_id.as_str());
                words.append(": ");
                words.append(other.state.name());
                words.append(")");
                return Err(words);
            },
            None => {},
        }
        let ghost before = self@;
        let ghost n = self.next as nat;
        let mut id = "s".to_owned();
        let number = u64_text(self.next);
        id.append(number.as_str());
        proof {
            if before.contains_key(id@) {
                let m = choose|m: nat| m < self.next() && id@ == #[trigger] send_id(m);
                send_ids_differ(m, n);
            }
        }
        self.next = self.next + 1;
        let send = SendRequest {
            request_id: id.clone(),
            state: SendState::Preparing,
            request,
            preview: None,
            tx_handle: None,
            txids: None,
            core_job: None,
            prepared_at: None,
        };
        self.reqs.insert(id.as_str(), send);
        assert forall|key: Seq<char>| #[trigger] self@.contains_key(key) implies exists|m: nat|
            m < self.next() && key == #[trigger] send_id(m) by {
            if key == id@ {
                assert(key == send_id(n));
            } else {
                assert(before.contains_key(key));
            }
        }
        Ok(id)
    }

    /// The send `id`.
    pub fn get(&self, id: &str) -> (r: Option<&SendRequest>)
        requires
            self.wf(),
        ensures
            match r {
                Some(send) => self@.contains_key(id@) && send@ == self@[id@],
                None => !self@.contains_key(id@),
            },
    {
        self.reqs.get(id)
    }

    /// The send `id`, to be changed in place.
    pub fn get_mut(&mut self, id: &str) -> (r: Option<&mut SendRequest>)
        requires
            old(self).wf(),
        ensures
            match r {
                Some(send) => {
                    &&& old(self)@.contains_key(id@)
                    &&& send@ == old(self)@[id@]
                    &&& final(self).wf()
                    &&& final(self)@ == old(self)@.insert(id@, final(send)@)
                    &&& final(self).next() == old(self).next()
                },
                None => !old(self)@.contains_key(id@) && *final(self) == *old(self),
            },
    {
        self.reqs.get_mut(id)
    }

    /// The request ids of the sends that are not at their end, in order.
    pub fn open_requests(&mut self) -> (r: Vec<String>)
        requires
            old(self).wf(),
        ensures
            *final(self) == *old(self),
            names_of(r@) == request_ids(
                old(self).order().filter(|id: Seq<char>| old(self)@[id].open()),
                old(self)@,
            ),
    {
        let mut r: Vec<String> = Vec::new();
        let mut i: usize = 0;
        let ghost order = self.order();
        let ghost map = self@;
        let ghost pred = |id: Seq<char>| map[id].open();
        assert(names_of(r@) =~= request_ids(order.take(0).filter(pred), map)) by {
            reveal(Seq::filter);
        }
        while i < self.reqs.len()
            invariant
                self.wf(),
                *self == *old(self),
                map == self@,
                order == self.order(),
                i <= order.len(),
                pred == (|id: Seq<char>| map[id].open()),
                names_of(r@) == request_ids(order.take(i as int).filter(pred), map),
            decreases order.len() - i,
        {
            let ghost before = r@;
            proof {
                filter_push(order.take(i as int), pred, order[i as int]);
                assert(order.take(i + 1) =~= order.take(i as int).push(order[i as int]));
            }
            let send = self.reqs.value_at(i);
            if !send.state.terminal() {
                r.push(send.request_id.clone());
                assert(names_of(r@) =~= names_of(before).push(send.request_id@));
                assert(request_ids(order.take(i + 1).filter(pred), map) =~= request_ids(
                    order.take(i as int).filter(pred),
                    map,
                ).push(map[order[i as int]].request_id));
            }
            i += 1;
        }
        assert(order.take(i as int) =~= order);
        assert(pred =~= (|id: Seq<char>| old(self)@[id].open()));
        r
    }

    /// A preview older than `PREVIEW_TTL` fails rather than being committed. The request ids of
    /// those that did, in order.
    pub fn expire(&mut self, now: u128) -> (r: Vec<String>)
        requires
            old(self).wf(),
        ensures
            final(self).wf(),
            final(self)@ == after_expiry(old(self)@, now),
            final(self).next() == old(self).next(),
            names_of(r@) == request_ids(
                old(self).order().filter(|id: Seq<char>| old(self)@[id].stale(now)),
                old(self)@,
            ),
    {
        let mut r: Vec<String> = Vec::new();
        let mut i: usize = 0;
        let ghost order = self.order();
        let ghost map = self@;
        let ghost pred = |id: Seq<char>| map[id].stale(now);
        assert(names_of(r@) =~= request_ids(order.take(0).filter(pred), map)) by {
            reveal(Seq::filter);
        }
        while i < self.reqs.len()
            invariant
                self.wf(),
                lists(order, map),
                order == self.order(),
                self.next() == old(self).next(),
                i <= order.len(),
                pred == (|id: Seq<char>| map[id].stale(now)),
                names_of(r@) == request_ids(order.take(i as int).filter(pred), map),
                forall|id: Seq<char>| self@.contains_key(id) <==> map.contains_key(id),
                forall|j: int| 0 <= j < i ==> self@[#[trigger] order[j]] == map[order[j]].after_expiry(now),
                forall|j: int| i <= j < order.len() ==> self@[#[trigger] order[j]] == map[order[j]],
            decreases order.len() - i,
        {
            let ghost before = r@;
            let ghost at = self@;
            let ghost id = order[i as int];
            proof {
                filter_push(order.take(i as int), pred, id);
                assert(order.take(i + 1) =~= order.take(i as int).push(id));
                assert forall|j: int| 0 <= j < order.len() && j != i implies #[trigger] order[j] != id by {
                    precedes_irreflexive(id);
                    assert(in_order(order));
                }
                assert(order.contains(id));
            }
            let send = self.reqs.value_at_mut(i);
            if send.is_stale(now) {
                send.state = SendState::Failed("preview expired".to_owned());
                let request_id = send.request_id.clone();
                r.push(request_id);
                assert(names_of(r@) =~= names_of(before).push(map[id].request_id));
                assert(request_ids(order.take(i + 1).filter(pred), map) =~= request_ids(
                    order.take(i as int).filter(pred),
                    map,
                ).push(map[id].request_id));
            }
            assert(self@ =~= at.insert(id, map[id].after_expiry(now)));
            i += 1;
        }
        assert(order.take(i as int) =~= order);
        assert(pred =~= (|id: Seq<char>| old(self)@[id].stale(now)));
        proof {
            let goal = after_expiry(map, now);
            assert forall|id: Seq<char>| goal.dom().contains(id) implies self@[id] == goal[id] by {
                assert(order.contains(id));
                let j = choose|j: int| 0 <= j < order.len() && order[j] == id;
                assert(self@[order[j]] == map[order[j]].after_expiry(now));
            }
            assert forall|id: Seq<char>| self@.dom().contains(id) == goal.dom().contains(id) by {
                assert(self@.contains_key(id) <==> map.contains_key(id));
            }
            assert(self@ =~= goal);
        }
        r
    }

    /// All sends with their states, in order.
    pub fn all_json(&self) -> (r: Json)
        requires
            self.wf(),
        ensures
            r@ == JsonView::List(self.order().map_values(|id: Seq<char>| self@[id].entry())),
    {
        let mut all: Vec<Json> = Vec::new();
        let mut i: usize = 0;
        let ghost order = self.order();
        let ghost entry = |id: Seq<char>| self@[id].entry();
        while i < self.reqs.len()
            invariant
                self.wf(),
                order == self.order(),
                i <= order.len(),
                entry == (|id: Seq<char>| self@[id].entry()),
                list_view(all@) == order.take(i as int).map_values(entry),
            decreases order.len() - i,
        {
            let ghost before = all@;
            let send = self.reqs.value_at(i);
            let json = Json::object()
                .with("requestId", Json::text(send.request_id.as_str()))
                .with("state", Json::text(send.state.name()));
            all.push(json);
            assert(all@.drop_last() =~= before);
            assert(order.take(i + 1).map_values(entry) =~= order.take(i as int).map_values(entry).push(
                entry(order[i as int]),
            ));
            i += 1;
        }
        assert(order.take(i as int) =~= order);
        Json::List(all)
    }

    /// The status of the send `id`, as it is told.
    pub fn status_json(&self, id: &str) -> (r: Json)
        requires
            self.wf(),
        ensures
            r@ == if self@.contains_key(id@) {
                self@[id@].status()
            } else {
                JsonView::object()
                    .with("ok"@, JsonView::Bool(false))
                    .with("error"@, JsonView::Text("unknown requestId"@))
            },
    {
        match self.reqs.get(id) {
            None => Json::object()
                .with("ok", Json::Bool(false))
                .with("error", Json::text("unknown requestId")),
            Some(send) => {
                let preview = match &send.preview {
                    Some(preview) => preview.clone(),
                    None => Json::Null,
                };
                let txids = match &send.txids {
                    Some(txids) => Json::text(txids.as_str()),
                    None => Json::Null,
                };
                Json::object()
                    .with("ok", Json::Bool(true))
                    .with("requestId", Json::text(send.request_id.as_str()))
                    .with("state", Json::text(send.state.name()))
                    .with("preview", preview)
                    .with("txids", txids)
                    .with("error", Json::text_or_null(send.state.error()))
            },
        }
    }
}

// ---------------------------------------------------------------------------------------------
// Laws
// ---------------------------------------------------------------------------------------------

/// No two sends are in flight.
pub open spec fn at_most_one_in_flight(sends: Map<Seq<char>, SendRequestView>) -> bool {
    forall|a: Seq<char>, b: Seq<char>|
        #[trigger] sends.contains_key(a) && #[trigger] sends.contains_key(b) && sends[a].open() && sends[b].open()
            ==> a == b
}

/// Law: a send that was begun while none was in flight is the only one in flight.
pub proof fn a_begun_send_is_alone(
    sends: Map<Seq<char>, SendRequestView>,
    id: Seq<char>,
    request: JsonView,
)
    requires
        !in_flight(sends),
    ensures
        ({
            let after = sends.insert(id, SendRequestView::begun(id, request));
            &&& in_flight(after)
            &&& at_most_one_in_flight(after)
            &&& is_first_open(after, id)
        }),
{
    let after = sends.insert(id, SendRequestView::begun(id, request));
    assert(after.contains_key(id) && after[id].open());
    assert forall|a: Seq<char>| #[trigger] after.contains_key(a) && a != id implies !after[a].open() by {
        assert(sends.contains_key(a));
    }
    precedes_irreflexive(id);
}

/// Law: no more sends are in flight after one of them has changed that was not taken up from its
/// end.
pub proof fn a_changed_send_keeps_one(
    sends: Map<Seq<char>, SendRequestView>,
    id: Seq<char>,
    changed: SendRequestView,
)
    requires
        at_most_one_in_flight(sends),
        sends.contains_key(id),
        changed.open() ==> sends[id].open(),
    ensures
        at_most_one_in_flight(sends.insert(id, changed)),
{
    let after = sends.insert(id, changed);
    assert forall|a: Seq<char>, b: Seq<char>|
        #[trigger] after.contains_key(a) && #[trigger] after.contains_key(b) && after[a].open()
            && after[b].open() implies a == b by {
        assert(sends.contains_key(a) && sends.contains_key(b));
    }
}

/// Law: expiring takes up no send and begins none.
pub proof fn expiring_keeps_one(sends: Map<Seq<char>, SendRequestView>, now: u128)
    requires
        at_most_one_in_flight(sends),
    ensures
        at_most_one_in_flight(after_expiry(sends, now)),
{
    let after = after_expiry(sends, now);
    assert forall|a: Seq<char>, b: Seq<char>|
        #[trigger] after.contains_key(a) && #[trigger] after.contains_key(b) && after[a].open()
            && after[b].open() implies a == b by {
        assert(sends.contains_key(a) && sends.contains_key(b));
    }
}

/// Law: where another send is in flight, there is one that is named.
pub proof fn one_first_open(sends: Map<Seq<char>, SendRequestView>, a: Seq<char>, b: Seq<char>)
    requires
        is_first_open(sends, a),
        is_first_open(sends, b),
    ensures
        a == b,
{
    precedes_total(a, b);
}

/// Law: a preview of more than 120 seconds fails, and only such a one; any other send is left as
/// it is.
pub proof fn only_a_stale_preview_expires(send: SendRequestView, now: u128)
    ensures
        send.state is Previewed && send.prepared_at is Some && now - send.prepared_at->0
            > 120_000_000_000 ==> send.after_expiry(now).state == SendStateView::Failed(
            "preview expired"@,
        ),
        !(send.state is Previewed && send.prepared_at is Some && now - send.prepared_at->0
            > 120_000_000_000) ==> send.after_expiry(now) == send,
{
}

/// Law: expiring a second time at the same moment changes nothing more.
pub proof fn expiring_twice_is_expiring_once(sends: Map<Seq<char>, SendRequestView>, now: u128)
    ensures
        after_expiry(after_expiry(sends, now), now) == after_expiry(sends, now),
{
    assert(after_expiry(after_expiry(sends, now), now) =~= after_expiry(sends, now));
}

/// Law: a send is in flight while it is being built, waits for review or is being broadcast.
pub proof fn when_a_send_is_in_flight(sends: Map<Seq<char>, SendRequestView>, send: SendRequestView)
    ensures
        send.open() <==> send.state is Preparing || send.state is Previewed || send.state is Committing,
        in_flight(sends) <==> exists|id: Seq<char>| #[trigger] sends.contains_key(id) && (
        sends[id].state is Preparing || sends[id].state is Previewed || sends[id].state is Committing),
{
    if exists|id: Seq<char>| #[trigger] sends.contains_key(id) && (sends[id].state is Preparing
        || sends[id].state is Previewed || sends[id].state is Committing) {
        let id = choose|id: Seq<char>| #[trigger] sends.contains_key(id) && (sends[id].state is Preparing
            || sends[id].state is Previewed || sends[id].state is Committing);
        assert(sends[id].open());
    }
}

/// Law: the words for the states, and that only a failed send says why.
pub proof fn the_words_for_the_states(why: Seq<char>, state: SendStateView)
    ensures
        SendStateView::Preparing.name() == "preparing"@,
        SendStateView::Previewed.name() == "previewed"@,
        SendStateView::Committing.name() == "committing"@,
        SendStateView::Sent.name() == "sent"@,
        SendStateView::Failed(why).name() == "failed"@,
        SendStateView::Cancelled.name() == "cancelled"@,
        SendStateView::Failed(why).error() == Some(why),
        state !is Failed ==> state.error() is None,
{
}

/// Law: a send that was just begun is being built, holds what was asked for, and nothing else yet.
pub proof fn what_a_begun_send_holds(id: Seq<char>, request: JsonView)
    ensures
        SendRequestView::begun(id, request).request_id == id,
        SendRequestView::begun(id, request).request == request,
        SendRequestView::begun(id, request).state is Preparing,
        SendRequestView::begun(id, request).preview is None,
        SendRequestView::begun(id, request).tx_handle is None,
        SendRequestView::begun(id, request).txids is None,
        SendRequestView::begun(id, request).prepared_at is None,
{
}

/// Law: the status of a send tells its id, the word for its state, its preview, its transactions
/// and its error, null where there is none, and nothing else; the list of all sends tells id and
/// state.
pub proof fn what_is_told_of_a_send(send: SendRequestView, field: Seq<char>)
    ensures
        send.status().get("ok"@) == Some(JsonView::Bool(true)),
        send.status().get("requestId"@) == Some(JsonView::Text(send.request_id)),
        send.status().get("state"@) == Some(JsonView::Text(send.state.name())),
        send.status().get("preview"@) == Some(
            if send.preview is Some {
                send.preview->0
            } else {
                JsonView::Null
            },
        ),
        send.txids is Some ==> send.status().get("txids"@) == Some(JsonView::Text(send.txids->0)),
        send.txids is None ==> send.status().get("txids"@) == Some(JsonView::Null),
        send.state is Failed ==> send.status().get("error"@) == Some(
            JsonView::Text(send.state->Failed_0),
        ),
        send.state !is Failed ==> send.status().get("error"@) == Some(JsonView::Null),
        send.status().get(field) is Some ==> {
            ||| field == "ok"@
            ||| field == "requestId"@
            ||| field == "state"@
            ||| field == "preview"@
            ||| field == "txids"@
            ||| field == "error"@
        },
        send.entry().get("requestId"@) == Some(JsonView::Text(send.request_id)),
        send.entry().get("state"@) == Some(JsonView::Text(send.state.name())),
        send.entry().get(field) is Some ==> field == "requestId"@ || field == "state"@,
{
    reveal_strlit("ok");
    reveal_strlit("requestId");
    reveal_strlit("state");
    reveal_strlit("preview");
    reveal_strlit("txids");
    reveal_strlit("error");
    assert("ok"@.len() == 2);
    assert("requestId"@.len() == 9);
    assert("state"@.len() == 5);
    assert("preview"@.len() == 7);
    assert("txids"@.len() == 5);
    assert("error"@.len() == 5);
    assert("state"@[0] != "txids"@[0]);
    assert("state"@[0] != "error"@[0]);
    assert("txids"@[0] != "error"@[0]);
}

/// Law: the refusal of a second send names the one in flight and its state.
pub proof fn what_is_said_of_a_send_in_flight(send: SendRequestView)
    ensures
        in_flight_words(send) == "a send is already in flight ("@ + send.request_id + ": "@
            + send.state.name() + ")"@,
{
}

/// Law: expiring loses no send and adds none, and changes only those that wait for review with a
/// preview of more than 120 seconds, which have then failed and are otherwise as they were.
pub proof fn what_expiring_changes(sends: Map<Seq<char>, SendRequestView>, now: u128, id: Seq<char>)
    ensures
        after_expiry(sends, now).contains_key(id) <==> sends.contains_key(id),
        sends.contains_key(id) ==> ({
            let send = sends[id];
            let after = after_expiry(sends, now)[id];
            if send.state is Previewed && send.prepared_at is Some && now - send.prepared_at->0
                > 120_000_000_000 {
                &&& after.state == SendStateView::Failed("preview expired"@)
                &&& after.request_id == send.request_id
                &&& after.request == send.request
                &&& after.preview == send.preview
                &&& after.tx_handle == send.tx_handle
                &&& after.txids == send.txids
                &&& after.prepared_at == send.prepared_at
            } else {
                after == send
            }
        }),
{
}

/// Law: the request ids of some sends are one for each, in their order.
pub proof fn one_request_id_for_each(ids: Seq<Seq<char>>, sends: Map<Seq<char>, SendRequestView>, i: int)
    requires
        0 <= i < ids.len(),
    ensures
        request_ids(ids, sends).len() == ids.len(),
        request_ids(ids, sends)[i] == sends[ids[i]].request_id,
{
}

/// Law: the id of a send is an s and its number.
pub proof fn the_id_of_a_send(n: nat)
    ensures
        send_id(n).len() == numeral(n).len() + 1,
        send_id(n)[0] == 's',
        send_id(n).skip(1) == numeral(n),
{
    reveal_strlit("s");
    assert(send_id(n).skip(1) =~= numeral(n));
}

/// Law: what a send says is what it holds.
pub proof fn what_a_send_says(send: SendRequest, why: String)
    ensures
        send@.request_id == send.request_id@,
        send@.state == send.state@,
        send@.request == send.request@,
        send.preview is Some ==> send@.preview == Some(send.preview->0@),
        send.preview is None ==> send@.preview is None,
        send.tx_handle is Some ==> send@.tx_handle == Some(send.tx_handle->0@),
        send.tx_handle is None ==> send@.tx_handle is None,
        send.txids is Some ==> send@.txids == Some(send.txids->0@),
        send.txids is None ==> send@.txids is None,
        send@.prepared_at == send.prepared_at,
        SendState::Preparing@ is Preparing,
        SendState::Previewed@ is Previewed,
        SendState::Committing@ is Committing,
        SendState::Sent@ is Sent,
        SendState::Failed(why)@ == SendStateView::Failed(why@),
        SendState::Cancelled@ is Cancelled,
        PREVIEW_TTL == 120_000_000_000,
{
}

/// Law: the send that is named to another is in flight, and none that is stands before it.
pub proof fn the_first_send_in_flight(
    sends: Map<Seq<char>, SendRequestView>,
    id: Seq<char>,
    other: Seq<char>,
)
    requires
        is_first_open(sends, id),
    ensures
        sends.contains_key(id),
        sends[id].state is Preparing || sends[id].state is Previewed || sends[id].state is Committing,
        sends.contains_key(other) && precedes(other, id) ==> sends[other].state is Sent
            || sends[other].state is Failed || sends[other].state is Cancelled,
{
}

} // verus!
