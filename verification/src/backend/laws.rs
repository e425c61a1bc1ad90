//! What holds of every state that the backend gets into, and of every move that it makes.

use vstd::prelude::*;

use crate::backend::jobs::{learned, total_of};
use crate::backend::reactor::{AnswerView, TurnView};
use crate::backend::wallets::{
    create_job, keys_job, open_job, password_job, registry_seeing, seed_job, settings_json,
    stored_network, without_spend_key,
};
use crate::backend::watch::percent_of;
use crate::backend::{
    err_reply, job_id, job_ids_differ, ok_reply, unwrapped, BackendView, EngineJobView,
};
use crate::json::{reads_as, JsonView};
use crate::model::amount::NETWORKS;
use crate::model::registry::WalletMetaView;
use crate::model::sends::{
    a_begun_send_is_alone, at_most_one_in_flight, in_flight, send_id, send_ids_differ,
    SendRequestView, SendStateView, PREVIEW_TTL,
};
use crate::text::{among, numeral_reads_back, u64_of};

verus! {

// ---------------------------------------------------------------------------------------------
// Moves
// ---------------------------------------------------------------------------------------------

/// A change of the backend's state.
pub enum Move {
    /// What was stored is taken up.
    Ready { wallets: Map<Seq<char>, WalletMetaView>, settings: Option<Seq<char>> },
    /// The active network changes.
    Switch { network: Seq<char>, status: JsonView },
    /// The wallets on disk are seen.
    SeeWallets { on_disk: JsonView },
    /// A job has started in the engine.
    Track {
        kind: Seq<char>,
        core: (Seq<char>, Seq<char>),
        wallet: Seq<char>,
        meta: Option<WalletMetaView>,
    },
    /// A send begins.
    Begin { request: JsonView },
    /// The job that was to build a send's transaction did not start.
    Break { id: Seq<char>, words: Seq<char> },
    /// A send is confirmed.
    Confirm { id: Seq<char>, now: u128 },
    /// A send is withdrawn.
    Withdraw { id: Seq<char> },
    /// The reactor takes an answer.
    Turn { turn: TurnView, answer: AnswerView, now: u128 },
}

impl BackendView {
    /// The move is one that the backend makes, and does not refuse.
    pub open spec fn makes(self, m: Move) -> bool {
        match m {
            Move::Switch { network, status } => self.network_refusal(network, status) is None,
            Move::Track { kind, core, wallet, meta } => self.next_job < u64::MAX,
            Move::Begin { request } => !in_flight(self.sends) && self.next_send < u64::MAX,
            Move::Confirm { id, now } => self.confirm_refusal(id, now) is None,
            Move::Withdraw { id } => self.cancel_refusal(id) is None,
            Move::Turn { turn, answer, now } => turn.wf() && turn.awaits(answer),
            _ => true,
        }
    }

    /// The state after the move.
    pub open spec fn after(self, m: Move) -> BackendView {
        match m {
            Move::Ready { wallets, settings } => self.ready(wallets, settings),
            Move::Switch { network, status } => self.switched(network),
            Move::SeeWallets { on_disk } => self.seeing_wallets(on_disk),
            Move::Track { kind, core, wallet, meta } => self.tracking(kind, core, wallet, meta),
            Move::Begin { request } => self.sending(request),
            Move::Break { id, words } => self.send_broken(id, words),
            Move::Confirm { id, now } => self.confirming(id),
            Move::Withdraw { id } => self.withdrawing(id),
            Move::Turn { turn, answer, now } => self.turned(turn, answer, now),
        }
    }

    /// The state after the moves, made one after the other.
    pub open spec fn after_all(self, moves: Seq<Move>) -> BackendView
        decreases moves.len(),
    {
        if moves.len() == 0 {
            self
        } else {
            self.after_all(moves.drop_last()).after(moves.last())
        }
    }

    /// Each of the moves is one that the backend makes where it then stands.
    pub open spec fn makes_all(self, moves: Seq<Move>) -> bool {
        forall|i: int|
            0 <= i < moves.len() ==> self.after_all(moves.take(i)).makes(#[trigger] moves[i])
    }

    /// The state after a job was started under the engine's ticket `core`.
    pub open spec fn following(self, job: EngineJobView, core: (Seq<char>, Seq<char>)) -> BackendView {
        self.tracking(job.kind, core, job.wallet, job.meta)
    }

    /// The active network is one; no job and no send has the id of one to come; every send goes by
    /// its id; and what waits for review or is being broadcast was shown, and when.
    pub open spec fn sound(self) -> bool {
        &&& among(self.active, NETWORKS@)
        &&& forall|id: Seq<char>| #[trigger] self.jobs.contains_key(id) ==> exists|n: nat| n < self.next_job && id == #[trigger] job_id(n)
        &&& forall|id: Seq<char>| #[trigger] self.sends.contains_key(id) ==> exists|n: nat| n < self.next_send && id == #[trigger] send_id(n)
        &&& forall|id: Seq<char>| #[trigger] self.sends.contains_key(id) ==> self.sends[id].request_id == id
        &&& forall|id: Seq<char>| #[trigger] self.sends.contains_key(id) ==> self.sends[id].shown()
    }
}

impl SendRequestView {
    /// What waits for review or is being broadcast was shown, and when.
    pub open spec fn shown(self) -> bool {
        self.state is Previewed || self.state is Committing ==> self.preview is Some
            && self.prepared_at is Some
    }
}

// ---------------------------------------------------------------------------------------------
// Laws of every state
// ---------------------------------------------------------------------------------------------

/// How a move changes a send that was there.
proof fn moved_send(b: BackendView, m: Move, id: Seq<char>)
    requires
        b.sound(),
        b.makes(m),
        b.sends.contains_key(id),
    ensures
        b.after(m).sends.contains_key(id),
        b.after(m).sends[id].request_id == b.sends[id].request_id,
        b.after(m).sends[id].request == b.sends[id].request,
        b.after(m).sends[id].shown(),
{
    if m is Begin {
        new_send(b);
    }
}

/// The id of the next send is new.
proof fn new_send(b: BackendView)
    requires
        b.sound(),
    ensures
        !b.sends.contains_key(send_id(b.next_send as nat)),
{
    let id = send_id(b.next_send as nat);
    if b.sends.contains_key(id) {
        let n = choose|n: nat| n < b.next_send && id == #[trigger] send_id(n);
        send_ids_differ(n, b.next_send as nat);
    }
}

/// The id of the next job is new.
proof fn new_job(b: BackendView)
    requires
        b.sound(),
    ensures
        !b.jobs.contains_key(job_id(b.next_job as nat)),
{
    let id = job_id(b.next_job as nat);
    if b.jobs.contains_key(id) {
        let n = choose|n: nat| n < b.next_job && id == #[trigger] job_id(n);
        job_ids_differ(n, b.next_job as nat);
    }
}

/// What the sends are after a move that begins none.
proof fn no_send_begins(b: BackendView, m: Move, id: Seq<char>)
    requires
        b.makes(m),
        m !is Begin,
        b.after(m).sends.contains_key(id),
    ensures
        b.sends.contains_key(id),
{
}

/// Law: a backend that has just started is sound, and nothing is in flight.
pub proof fn a_fresh_backend_is_sound()
    ensures
        BackendView::fresh().sound(),
        !in_flight(BackendView::fresh().sends),
        at_most_one_in_flight(BackendView::fresh().sends),
{
    assert(NETWORKS@[1]@ == "stagenet"@);
}

/// Law: every move keeps the backend sound.
pub proof fn every_move_keeps_it_sound(b: BackendView, m: Move)
    requires
        b.sound(),
        b.makes(m),
    ensures
        b.after(m).sound(),
{
    let after = b.after(m);
    assert forall|id: Seq<char>| #[trigger] after.sends.contains_key(id) implies after.sends[id].request_id
        == id && after.sends[id].shown() by {
        if b.sends.contains_key(id) {
            moved_send(b, m, id);
        } else if m !is Begin {
            no_send_begins(b, m, id);
        }
    }
    assert forall|id: Seq<char>| #[trigger] after.sends.contains_key(id) implies exists|n: nat|
        n < after.next_send && id == #[trigger] send_id(n) by {
        if b.sends.contains_key(id) {
            let n = choose|n: nat| n < b.next_send && id == #[trigger] send_id(n);
            assert(n < after.next_send && id == send_id(n));
        } else if m is Begin {
            assert(id == send_id(b.next_send as nat));
        } else {
            no_send_begins(b, m, id);
        }
    }
    assert forall|id: Seq<char>| #[trigger] after.jobs.contains_key(id) implies exists|n: nat|
        n < after.next_job && id == #[trigger] job_id(n) by {
        if b.jobs.contains_key(id) {
            let n = choose|n: nat| n < b.next_job && id == #[trigger] job_id(n);
            assert(n < after.next_job && id == job_id(n));
        } else {
            assert(m is Track);
            assert(id == job_id(b.next_job as nat));
        }
    }
}

/// Law: the backend is sound in every state that it gets into.
pub proof fn it_is_always_sound(moves: Seq<Move>)
    requires
        BackendView::fresh().makes_all(moves),
    ensures
        BackendView::fresh().after_all(moves).sound(),
    decreases moves.len(),
{
    if moves.len() == 0 {
        a_fresh_backend_is_sound();
    } else {
        makes_all_before(BackendView::fresh(), moves);
        it_is_always_sound(moves.drop_last());
        every_move_keeps_it_sound(BackendView::fresh().after_all(moves.drop_last()), moves.last());
    }
}

/// Moves that are all made are made without the last, and then the last is made.
proof fn makes_all_before(b: BackendView, moves: Seq<Move>)
    requires
        moves.len() > 0,
        b.makes_all(moves),
    ensures
        b.makes_all(moves.drop_last()),
        b.after_all(moves.drop_last()).makes(moves.last()),
{
    let rest = moves.drop_last();
    assert forall|i: int| 0 <= i < rest.len() implies b.after_all(rest.take(i)).makes(
        #[trigger] rest[i],
    ) by {
        assert(rest.take(i) =~= moves.take(i));
        assert(moves[i] == rest[i]);
    }
    assert(moves.take(moves.len() - 1) =~= rest);
    assert(moves[moves.len() - 1] == moves.last());
}

/// No move but a begin makes a send open that was not.
proof fn not_taken_up(b: BackendView, m: Move, id: Seq<char>)
    requires
        b.makes(m),
        m !is Begin,
        b.sends.contains_key(id),
        b.after(m).sends[id].open(),
    ensures
        b.sends[id].open(),
{
}

/// Law: at most one send is in flight after a move, where at most one was.
pub proof fn every_move_keeps_one_send(b: BackendView, m: Move)
    requires
        at_most_one_in_flight(b.sends),
        b.makes(m),
    ensures
        at_most_one_in_flight(b.after(m).sends),
{
    let after = b.after(m);
    if let Move::Begin { request } = m {
        a_begun_send_is_alone(b.sends, send_id(b.next_send as nat), request);
    } else {
        assert forall|x: Seq<char>, y: Seq<char>|
            #[trigger] after.sends.contains_key(x) && #[trigger] after.sends.contains_key(y)
                && after.sends[x].open() && after.sends[y].open() implies x == y by {
            no_send_begins(b, m, x);
            no_send_begins(b, m, y);
            not_taken_up(b, m, x);
            not_taken_up(b, m, y);
        }
    }
}

/// Law: at most one send is in flight in every state that the backend gets into.
pub proof fn at_most_one_send_is_in_flight(moves: Seq<Move>)
    requires
        BackendView::fresh().makes_all(moves),
    ensures
        at_most_one_in_flight(BackendView::fresh().after_all(moves).sends),
    decreases moves.len(),
{
    if moves.len() == 0 {
        a_fresh_backend_is_sound();
    } else {
        let rest = moves.drop_last();
        makes_all_before(BackendView::fresh(), moves);
        at_most_one_send_is_in_flight(rest);
        every_move_keeps_one_send(BackendView::fresh().after_all(rest), moves.last());
    }
}

// ---------------------------------------------------------------------------------------------
// Laws of sends
// ---------------------------------------------------------------------------------------------

/// Law: a send is never lost, and what was asked for stays as it was.
pub proof fn a_send_is_never_lost(b: BackendView, m: Move, id: Seq<char>)
    requires
        b.sound(),
        b.makes(m),
        b.sends.contains_key(id),
    ensures
        b.after(m).sends.contains_key(id),
        b.after(m).sends[id].request == b.sends[id].request,
{
    moved_send(b, m, id);
}

/// Law: a job is never lost, and it stays of its kind and about its wallet.
pub proof fn a_job_is_never_lost(b: BackendView, m: Move, id: Seq<char>)
    requires
        b.sound(),
        b.makes(m),
        b.jobs.contains_key(id),
    ensures
        b.after(m).jobs.contains_key(id),
        b.after(m).jobs[id].kind == b.jobs[id].kind,
        b.after(m).jobs[id].wallet == b.jobs[id].wallet,
        b.after(m).jobs[id].core == b.jobs[id].core,
{
    if m is Track {
        new_job(b);
    }
}

/// Law: a send that is at its end never becomes open again. It stays as it is, or one of its jobs
/// has failed and it with it.
pub proof fn what_is_at_its_end_is_not_taken_up(b: BackendView, m: Move, id: Seq<char>)
    requires
        b.sound(),
        b.makes(m),
        b.sends.contains_key(id),
        !b.sends[id].open(),
    ensures
        b.after(m).sends.contains_key(id),
        !b.after(m).sends[id].open(),
        b.after(m).sends[id] == b.sends[id] || exists|words: Seq<char>|
            b.after(m).sends[id] == #[trigger] b.sends[id].broken(words),
{
    moved_send(b, m, id);
    if m is Begin {
        new_send(b);
    }
}

/// Law: only confirming brings a send into broadcast, and only one that waits for review with a
/// preview that is not too old, and whose transaction the engine holds.
pub proof fn only_confirming_broadcasts(b: BackendView, m: Move, id: Seq<char>)
    requires
        b.makes(m),
        b.sends.contains_key(id),
        b.sends[id].state !is Committing,
        b.after(m).sends[id].state is Committing,
    ensures
        m matches Move::Confirm { id: confirmed, now } && confirmed == id && !b.sends[id].stale(now),
        b.sends[id].state is Previewed,
        b.sends[id].tx_handle is Some,
{
}

/// Law: a send that is being broadcast is neither confirmed again nor withdrawn.
pub proof fn a_broadcast_is_not_repeated(b: BackendView, id: Seq<char>, now: u128, later: u128)
    requires
        b.confirm_refusal(id, now) is None,
    ensures
        b.confirming(id).confirm_refusal(id, later) is Some,
        b.confirming(id).cancel_refusal(id) is Some,
{
}

/// Law: a send that was withdrawn is neither confirmed nor withdrawn again, and its transaction
/// is let go.
pub proof fn a_withdrawn_send_is_not_broadcast(b: BackendView, id: Seq<char>, later: u128)
    requires
        b.cancel_refusal(id) is None,
    ensures
        b.withdrawing(id).confirm_refusal(id, later) is Some,
        b.withdrawing(id).cancel_refusal(id) is Some,
        b.withdrawing(id).sends[id].tx_handle is None,
{
}

/// Law: a preview that is too old cannot be confirmed, whether previews have been let expire since
/// or not.
pub proof fn a_stale_preview_is_not_broadcast(b: BackendView, id: Seq<char>, now: u128)
    requires
        b.sends.contains_key(id),
        b.sends[id].stale(now),
    ensures
        b.confirm_refusal(id, now) is Some,
{
}

/// Law: what can be confirmed was shown no more than `PREVIEW_TTL` ago.
pub proof fn what_can_be_confirmed_is_fresh(b: BackendView, id: Seq<char>, now: u128)
    requires
        b.sound(),
        b.confirm_refusal(id, now) is None,
    ensures
        b.sends[id].prepared_at is Some,
        now - b.sends[id].prepared_at->0 <= PREVIEW_TTL,
{
}

/// Law: with the last answer of a slow turn every preview that is too old fails, and cannot be
/// confirmed at any time after.
pub proof fn a_slow_turn_lets_previews_expire(
    b: BackendView,
    turn: TurnView,
    answer: AnswerView,
    now: u128,
    id: Seq<char>,
    later: u128,
)
    requires
        turn.wf(),
        turn.awaits(answer),
        turn.expires(answer),
        b.sends.contains_key(id),
        b.sends[id].stale(now),
    ensures
        b.turned(turn, answer, now).sends[id].state == SendStateView::Failed("preview expired"@),
        b.turned(turn, answer, now).confirm_refusal(id, later) is Some,
{
}

/// Law: while a send is in flight no other begins, whatever its request.
pub proof fn no_second_send_begins(b: BackendView, request: JsonView, second: JsonView)
    ensures
        in_flight(b.sending(request).sends),
        !b.sending(request).makes(Move::Begin { request: second }),
{
    let id = send_id(b.next_send as nat);
    assert(b.sending(request).sends.contains_key(id));
}

/// Law: the total of a preview is the sum of amount and fee, where 64 bits hold it.
pub proof fn the_total_adds_up(amount: Seq<char>, fee: Seq<char>)
    requires
        u64_of(amount) is Some,
        u64_of(fee) is Some,
        u64_of(amount)->0 + u64_of(fee)->0 <= u64::MAX,
    ensures
        u64_of(total_of(amount, fee)) == Some((u64_of(amount)->0 + u64_of(fee)->0) as u64),
{
    numeral_reads_back((u64_of(amount)->0 + u64_of(fee)->0) as u64);
}

// ---------------------------------------------------------------------------------------------
// Laws of the reactor
// ---------------------------------------------------------------------------------------------

/// Law: every answer brings a turn nearer to its end, so that each turn comes to one.
pub proof fn a_turn_comes_to_its_end(turn: TurnView, answer: AnswerView)
    requires
        turn.wf(),
        turn.awaits(answer),
    ensures
        turn.answered(answer).wf(),
        turn.answered(answer).left() < turn.left(),
{
}

/// Law: a turn asks for something until it is over, and then for nothing.
pub proof fn a_turn_asks_until_it_is_over(turn: TurnView)
    requires
        turn.wf(),
    ensures
        turn.ask() is Rest <==> turn.left() == 0,
        turn.ask() is Rest <==> turn.stage is Over,
{
}

/// Law: a job's result is asked for only when the engine has called the job done, and its end is
/// acknowledged before it is acted on.
pub proof fn an_end_is_acknowledged_first(
    b: BackendView,
    turn: TurnView,
    answer: AnswerView,
    now: u128,
)
    requires
        turn.wf(),
        turn.awaits(answer),
    ensures
        turn.answered(answer).stage is Collect ==> turn.stage is Poll && answer->Value_0 is Ok
            && answer->Value_0->Ok_0.text_at("state"@) == Some("done"@),
        turn.answered(answer).stage is Acknowledge ==> turn.stage is Poll || turn.stage is Collect,
        turn.stage !is Acknowledge ==> b.taking(turn, answer, now).registry == b.registry,
        turn.stage !is Acknowledge ==> b.taking(turn, answer, now).sends == b.sends,
{
    reveal_strlit("done");
    reveal_strlit("");
}

/// Law: a status that was seen already is told to nobody.
pub proof fn what_is_known_is_not_told(b: BackendView, status: JsonView)
    ensures
        b.seeing(status).status_events(status).len() == 0,
{
}

/// Law: the percentage is at most 100, and 100 just where the wallet has followed the whole of a
/// chain that there is.
pub proof fn percent_is_a_percentage(wallet_height: u64, daemon_height: u64)
    ensures
        percent_of(wallet_height, daemon_height) <= 100,
        percent_of(wallet_height, daemon_height) == 100 <==> 0 < daemon_height <= wallet_height,
{
    if 0 < daemon_height && wallet_height < daemon_height {
        let part = wallet_height * 100;
        let whole = daemon_height as int;
        assert(0 <= part / whole < 100) by (nonlinear_arith)
            requires
                whole > 0,
                0 <= part < whole * 100,
        ;
    }
}

// ---------------------------------------------------------------------------------------------
// Laws of what is told and kept
// ---------------------------------------------------------------------------------------------

/// Law: a reply says how it went, and a bad one why.
pub proof fn a_reply_says_how_it_went(value: JsonView, words: Seq<char>)
    ensures
        ok_reply(value).bool_at("ok"@) == Some(true),
        err_reply(words).bool_at("ok"@) == Some(false),
        err_reply(words).text_at("error"@) == Some(words),
{
    reveal_strlit("ok");
    reveal_strlit("error");
    assert("ok"@.len() != "error"@.len());
}

/// Law: a value in either of the engine's envelopes comes out of it, and so does an error.
pub proof fn an_envelope_is_opened(value: JsonView, words: Seq<char>)
    ensures
        unwrapped(
            JsonView::object().with("success"@, JsonView::Bool(true)).with("value"@, value),
        ) == Ok::<JsonView, Seq<char>>(value),
        unwrapped(
            JsonView::object().with("success"@, JsonView::Bool(false)).with(
                "error"@,
                JsonView::Text(words),
            ),
        ) == Err::<JsonView, Seq<char>>(words),
        unwrapped(
            JsonView::object().with("ok"@, JsonView::Bool(true)).with("result"@, value),
        ) == Ok::<JsonView, Seq<char>>(value),
        unwrapped(err_reply(words)) == Err::<JsonView, Seq<char>>(words),
{
    reveal_strlit("success");
    reveal_strlit("value");
    reveal_strlit("error");
    reveal_strlit("ok");
    reveal_strlit("result");
    assert("success"@.len() == 7 && "value"@.len() == 5 && "error"@.len() == 5);
    assert("ok"@.len() == 2 && "result"@.len() == 6);
    assert("value"@[0] == 'v' && "error"@[0] == 'e');
}

/// Law: a surface never sees the engine's ticket of a job. Whatever the ticket is, there are the
/// same jobs under the same ids, and the status of each is the same.
pub proof fn a_surface_sees_no_ticket(
    b: BackendView,
    kind: Seq<char>,
    wallet: Seq<char>,
    meta: Option<WalletMetaView>,
    core: (Seq<char>, Seq<char>),
    other: (Seq<char>, Seq<char>),
    id: Seq<char>,
)
    ensures
        ({
            let one = b.tracking(kind, core, wallet, meta);
            let two = b.tracking(kind, other, wallet, meta);
            &&& one.next_job == two.next_job
            &&& one.jobs.contains_key(id) <==> two.jobs.contains_key(id)
            &&& one.jobs.contains_key(id) ==> one.jobs[id].status(id) == two.jobs[id].status(id)
        }),
{
}

/// Law: nothing secret is kept. Whatever the password, the seed and the keys of a restore are,
/// the job is followed alike and the same is remembered of the wallet.
pub proof fn nothing_secret_is_kept(
    b: BackendView,
    params: JsonView,
    other: JsonView,
    core: (Seq<char>, Seq<char>),
)
    requires
        params.text_at("name"@) == other.text_at("name"@),
        params.text_at("label"@) == other.text_at("label"@),
        params.unsigned_at("restoreHeight"@) == other.unsigned_at("restoreHeight"@),
        without_spend_key(params) == without_spend_key(other),
        seed_job(params, b.active) is Ok,
    ensures
        ({
            let one = seed_job(params, b.active)->Ok_0;
            let two = seed_job(other, b.active)->Ok_0;
            &&& seed_job(other, b.active) is Ok
            &&& b.following(one, core) == b.following(two, core)
        }),
        ({
            let one = keys_job(params, b.active)->Ok_0;
            let two = keys_job(other, b.active)->Ok_0;
            &&& keys_job(params, b.active) is Ok
            &&& keys_job(other, b.active) is Ok
            &&& b.following(one, core) == b.following(two, core)
        }),
{
}

/// Law: no password is kept. Whatever it is, a job that opens or creates a wallet, or changes its
/// password, is followed alike.
pub proof fn no_password_is_kept(
    b: BackendView,
    name: Seq<char>,
    label: Seq<char>,
    password: Seq<char>,
    other: Seq<char>,
    core: (Seq<char>, Seq<char>),
)
    ensures
        b.following(open_job(name, password, b.active), core) == b.following(
            open_job(name, other, b.active),
            core,
        ),
        b.following(create_job(name, password, label, b.active), core) == b.following(
            create_job(name, other, label, b.active),
            core,
        ),
        b.following(password_job(password, other), core) == b.following(
            password_job(other, password),
            core,
        ),
{
}

/// Law: the network stays while a wallet is open or a send is in flight, and only changes to one
/// that there is.
pub proof fn the_network_stays_while_in_use(b: BackendView, network: Seq<char>, status: JsonView)
    ensures
        status.text_at("state"@) is Some && status.text_at("state"@) != Some("no_wallet"@)
            ==> b.network_refusal(network, status) is Some,
        in_flight(b.sends) ==> b.network_refusal(network, status) is Some,
        !among(network, NETWORKS@) ==> b.network_refusal(network, status) is Some,
{
}

/// Law: settings that were stored and read again name the network that was active.
pub proof fn settings_round_trip(b: BackendView, started: BackendView, text: Seq<char>)
    requires
        b.sound(),
        reads_as(text, settings_json(b.active)),
    ensures
        stored_network(text) == Some(b.active),
        started.ready(b.registry, Some(text)).active == b.active,
        started.ready(b.registry, Some(text)).registry == b.registry,
{
    assert(settings_json(b.active).get("activeNetwork"@) == Some(JsonView::Text(b.active)));
}

/// Law: seeing the wallets on disk forgets none and changes none that is remembered; each of them
/// is remembered afterwards, and one that was not is on the active network.
pub proof fn seeing_wallets_forgets_none(
    registry: Map<Seq<char>, WalletMetaView>,
    on_disk: Seq<JsonView>,
    active: Seq<char>,
    name: Seq<char>,
)
    ensures
        ({
            let after = registry_seeing(registry, on_disk, active);
            &&& registry.contains_key(name) ==> after.contains_key(name) && after[name] == registry[name]
            &&& after.contains_key(name) <==> registry.contains_key(name) || on_disk.contains(
                JsonView::Text(name),
            )
            &&& after.contains_key(name) && !registry.contains_key(name) ==> after[name] == (
            WalletMetaView { network: active, ..WalletMetaView::blank() })
        }),
    decreases on_disk.len(),
{
    if on_disk.len() > 0 {
        let rest = on_disk.drop_last();
        seeing_wallets_forgets_none(registry, rest, active, name);
        let text = JsonView::Text(name);
        if rest.contains(text) {
            let i = choose|i: int| 0 <= i < rest.len() && rest[i] == text;
            assert(on_disk[i] == text);
        }
        if on_disk.contains(text) {
            let i = choose|i: int| 0 <= i < on_disk.len() && on_disk[i] == text;
            if i < rest.len() {
                assert(rest[i] == text);
            } else {
                assert(on_disk.last() == text);
            }
        }
        if on_disk.last() == text {
            assert(on_disk[on_disk.len() - 1] == text);
        }
    }
}

/// Law: opening a wallet that is remembered forgets neither its label nor its restore height, and
/// its network stays.
pub proof fn opening_forgets_nothing(remembered: WalletMetaView, active: Seq<char>, result: JsonView)
    requires
        remembered.network.len() > 0,
    ensures
        ({
            let now = learned(None, Some(remembered), active, result);
            &&& now.network == remembered.network
            &&& now.label == remembered.label
            &&& now.restore_height == remembered.restore_height
            &&& result.text_at("address"@) is None ==> now.address == remembered.address
        }),
{
}

} // verus!
