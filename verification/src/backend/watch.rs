//! Watching the engine: its state, how far it has followed the chain, the balance, and previews
//! that have grown too old.

use vstd::prelude::*;

use crate::backend::{ok_reply, told, Backend, BackendView, Event, EventView, SyncProgress};
use crate::json::{text_of_json, Json, JsonView};
use crate::model::sends::{after_expiry, request_ids};
use crate::text::{names_of, same};

verus! {

/// How much of the chain the wallet has followed, in percent.
pub open spec fn percent_of(wallet_height: u64, daemon_height: u64) -> u64 {
    if daemon_height == 0 {
        0
    } else if wallet_height < daemon_height {
        (wallet_height * 100 / daemon_height as int) as u64
    } else {
        100
    }
}

/// How much of the chain the wallet has followed, in percent.
pub fn sync_percent(wallet_height: u64, daemon_height: u64) -> (r: u64)
    ensures
        r == percent_of(wallet_height, daemon_height),
        r <= 100,
{
    if daemon_height == 0 {
        0
    } else if wallet_height < daemon_height {
        let part: u128 = wallet_height as u128 * 100;
        let whole: u128 = daemon_height as u128;
        assert(part / whole <= 100) by (nonlinear_arith)
            requires
                whole > 0,
                part <= whole * 100,
        ;
        (part / whole) as u64
    } else {
        100
    }
}

/// How far the wallet has followed the chain, by the engine's status.
pub open spec fn progress_of(status: JsonView) -> SyncProgress {
    let wallet_height = status.unsigned_at("walletHeight"@);
    let daemon_height = status.unsigned_at("daemonHeight"@);
    SyncProgress {
        wallet_height,
        daemon_height,
        percent: percent_of(wallet_height, daemon_height),
        synchronized: status.bool_at("synchronized"@) == Some(true),
    }
}

/// The progress as it is told.
pub open spec fn progress_json(progress: SyncProgress) -> JsonView {
    JsonView::object()
        .with("walletHeight"@, JsonView::Unsigned(progress.wallet_height))
        .with("daemonHeight"@, JsonView::Unsigned(progress.daemon_height))
        .with("percent"@, JsonView::Unsigned(progress.percent))
        .with("synchronized"@, JsonView::Bool(progress.synchronized))
}

/// The balance as it is told.
pub open spec fn balance_json(balance: Seq<char>, unlocked: Seq<char>) -> JsonView {
    JsonView::object()
        .with("balance"@, JsonView::Text(balance))
        .with("unlocked"@, JsonView::Text(unlocked))
}

/// A balance that the engine gave, or none.
pub open spec fn balance_or_zero(balance: Option<String>) -> Seq<char> {
    match balance {
        Some(s) => s@,
        None => "0"@,
    }
}

/// A wallet is open, by the engine's status: the balance is to be asked for.
pub open spec fn wants_balance(status: JsonView) -> bool {
    let state = status.text_or("state"@, ""@);
    state == "ready"@ || state == "syncing"@
}

impl BackendView {
    /// The state after the engine's status was seen.
    pub open spec fn seeing(self, status: JsonView) -> BackendView {
        BackendView {
            last_state: status.text_or("state"@, ""@),
            last_sync: Some(progress_of(status)),
            ..self
        }
    }

    /// The status as it is told when the engine's state has moved: in the shape of the wallet
    /// status, where fields can be set on it.
    pub open spec fn moved_json(self, status: JsonView) -> JsonView {
        if status.takes_fields() {
            ok_reply(self.wallet_status(status))
        } else {
            status
        }
    }

    /// What the surfaces are told of a status: only what has changed.
    pub open spec fn status_events(self, status: JsonView) -> Seq<EventView> {
        let moved = if self.last_state != status.text_or("state"@, ""@) {
            seq![EventView::WalletStateChanged(text_of_json(self.moved_json(status)))]
        } else {
            Seq::empty()
        };
        let progressed = if self.last_sync != Some(progress_of(status)) {
            seq![EventView::SyncProgressed(text_of_json(progress_json(progress_of(status))))]
        } else {
            Seq::empty()
        };
        moved + progressed
    }
}

/// What is to be done after the engine's status was seen.
pub struct Seen {
    /// What the surfaces are to be told, in order.
    pub events: Vec<Event>,
    /// A wallet is open: the balance is to be asked for.
    pub ask_balance: bool,
}

impl Backend {
    /// Sees the engine's status.
    pub fn see_status(&mut self, status: &Json) -> (r: Seen)
        requires
            old(self).wf(),
        ensures
            final(self).wf(),
            final(self)@ == old(self)@.seeing(status@),
            told(r.events@) == old(self)@.status_events(status@),
            r.ask_balance == wants_balance(status@),
    {
        let ghost before = self@;
        let mut events: Vec<Event> = Vec::new();
        let state = status.text_or("state", "");
        let wallet_height = status.unsigned_at("walletHeight");
        let daemon_height = status.unsigned_at("daemonHeight");
        let synchronized = match status.bool_at("synchronized") {
            Some(b) => b,
            None => false,
        };
        let percent = sync_percent(wallet_height, daemon_height);
        let progress = SyncProgress { wallet_height, daemon_height, percent, synchronized };
        assert(progress == progress_of(status@));
        let ask_balance = same(state.as_str(), "ready") || same(state.as_str(), "syncing");
        if !same(self.last_state.as_str(), state.as_str()) {
            self.last_state = state;
            let payload = if status.takes_fields() {
                self.wallet_status(Some(status.clone()))
            } else {
                status.to_text()
            };
            events.push(Event::WalletStateChanged(payload));
        }
        let known = match self.last_sync {
            Some(last) => last == progress,
            None => false,
        };
        if !known {
            self.last_sync = Some(progress);
            let json = Json::object()
                .with("walletHeight", Json::Unsigned(wallet_height))
                .with("daemonHeight", Json::Unsigned(daemon_height))
                .with("percent", Json::Unsigned(percent))
                .with("synchronized", Json::Bool(synchronized));
            events.push(Event::SyncProgressed(json.to_text()));
        }
        assert(told(events@) =~= before.status_events(status@));
        Seen { events, ask_balance }
    }

    /// Sees the balance, of which nothing is zero. The surfaces are told when it has changed.
    pub fn see_balance(&mut self, balance: Option<String>, unlocked: Option<String>) -> (r: Option<Event>)
        requires
            old(self).wf(),
        ensures
            final(self).wf(),
            ({
                let seen = (balance_or_zero(balance), balance_or_zero(unlocked));
                &&& final(self)@ == (BackendView { last_balance: seen, ..old(self)@ })
                &&& if old(self)@.last_balance == seen {
                    r is None
                } else {
                    &&& r matches Some(event)
                    &&& event@ == EventView::BalanceChanged(text_of_json(balance_json(seen.0, seen.1)))
                }
            }),
    {
        let b = match balance {
            Some(s) => s,
            None => "0".to_owned(),
        };
        let u = match unlocked {
            Some(s) => s,
            None => "0".to_owned(),
        };
        if same(self.last_balance.0.as_str(), b.as_str()) && same(
            self.last_balance.1.as_str(),
            u.as_str(),
        ) {
            None
        } else {
            let json = Json::object()
                .with("balance", Json::text(b.as_str()))
                .with("unlocked", Json::text(u.as_str()));
            self.last_balance = (b, u);
            Some(Event::BalanceChanged(json.to_text()))
        }
    }

    /// Lets previews that are too old fail, and tells the surfaces of each.
    pub fn expire_sends(&mut self, now: u128) -> (r: Vec<Event>)
        requires
            old(self).wf(),
        ensures
            final(self).wf(),
            final(self)@ == (BackendView { sends: after_expiry(old(self)@.sends, now), ..old(self)@ }),
            told(r@) == request_ids(
                old(self).sends.order().filter(|id: Seq<char>| old(self)@.sends[id].stale(now)),
                old(self)@.sends,
            ).map_values(|id: Seq<char>| EventView::SendStatusChanged(id, "failed"@)),
    {
        let expired = self.sends.expire(now);
        let ghost ids = names_of(expired@);
        let ghost event = |id: Seq<char>| EventView::SendStatusChanged(id, "failed"@);
        let mut r: Vec<Event> = Vec::new();
        let mut i: usize = 0;
        assert(told(r@) =~= ids.take(0).map_values(event));
        while i < expired.len()
            invariant
                i <= expired@.len(),
                ids == names_of(expired@),
                event == (|id: Seq<char>| EventView::SendStatusChanged(id, "failed"@)),
                told(r@) == ids.take(i as int).map_values(event),
            decreases expired@.len() - i,
        {
            let ghost before = r@;
            r.push(Event::SendStatusChanged(expired[i].clone(), "failed".to_owned()));
            assert(told(r@) =~= told(before).push(event(ids[i as int])));
            assert(ids.take(i + 1).map_values(event) =~= ids.take(i as int).map_values(event).push(
                event(ids[i as int]),
            ));
            i += 1;
        }
        assert(ids.take(i as int) =~= ids);
        r
    }
}

} // verus!
