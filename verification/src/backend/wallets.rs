//! Networks and wallets: what the surfaces ask for, as jobs for the engine and as replies.

use vstd::prelude::*;

use crate::backend::watch::{balance_or_zero, percent_of, sync_percent};
use crate::backend::{
    err, err_reply, ok, ok_reply, Backend, BackendView, EngineJob, EngineJobView,
};
use crate::json::{
    json_of_text, list_view, list_view_index, list_view_len, text_of_json, Json, JsonView,
};
use crate::model::amount::{is_network, NETWORKS};
use crate::model::history::{
    every_row_is_told, newest_first, normalize_history, restated, show_xmr, shown, the_same_rows,
};
use crate::model::registry::{listing, stored, Registry, WalletMeta, WalletMetaView};
use crate::model::sends::in_flight;
use crate::text::{among, held, held_string, same};

verus! {

// ---------------------------------------------------------------------------------------------
// Networks and settings
// ---------------------------------------------------------------------------------------------

/// The networks, as they are told.
pub open spec fn networks_json() -> JsonView {
    JsonView::List(NETWORKS@.map_values(|n: &'static str| JsonView::Text(n@)))
}

/// The reply that lists the networks.
pub open spec fn networks_reply(active: Seq<char>) -> JsonView {
    ok_reply(
        JsonView::object()
            .with("networks"@, networks_json())
            .with("active"@, JsonView::Text(active)),
    )
}

/// The reply that the active network was changed.
pub open spec fn switched_reply(network: Seq<char>) -> JsonView {
    ok_reply(JsonView::object().with("active"@, JsonView::Text(network)))
}

/// The settings, as they are stored.
pub open spec fn settings_json(active: Seq<char>) -> JsonView {
    JsonView::object().with("activeNetwork"@, JsonView::Text(active))
}

/// The network that stored settings name, if it is one.
pub open spec fn network_setting(settings: JsonView) -> Option<Seq<char>> {
    match settings.text_at("activeNetwork"@) {
        Some(network) => if among(network, NETWORKS@) {
            Some(network)
        } else {
            None
        },
        None => None,
    }
}

/// The network that the text of stored settings names, if it is one.
pub open spec fn stored_network(settings: Seq<char>) -> Option<Seq<char>> {
    match json_of_text(settings) {
        Ok(json) => network_setting(json),
        Err(_) => None,
    }
}

/// The network that stored settings name, if it is one.
pub fn read_network(settings: &Json) -> (r: Option<String>)
    ensures
        held_string(r) == network_setting(settings@),
{
    match settings.text_at("activeNetwork") {
        Some(network) => if is_network(network) {
            Some(network.to_owned())
        } else {
            None
        },
        None => None,
    }
}

impl BackendView {
    /// The state after what was stored was taken up: the wallets, and the active network where the
    /// text of the settings names one.
    pub open spec fn ready(
        self,
        wallets: Map<Seq<char>, WalletMetaView>,
        settings: Option<Seq<char>>,
    ) -> BackendView {
        BackendView {
            registry: wallets,
            active: match settings {
                Some(text) => match stored_network(text) {
                    Some(network) => network,
                    None => self.active,
                },
                None => self.active,
            },
            ..self
        }
    }

    /// The state after the active network was changed.
    pub open spec fn switched(self, network: Seq<char>) -> BackendView {
        BackendView { active: network, ..self }
    }

    /// Why the active network cannot be changed to `network`, if it cannot: while a wallet is
    /// open, by the engine's status, or a send is in flight.
    pub open spec fn network_refusal(self, network: Seq<char>, status: JsonView) -> Option<Seq<char>> {
        if !among(network, NETWORKS@) {
            Some("unknown network: "@ + network)
        } else if status.text_or("state"@, "no_wallet"@) != "no_wallet"@ {
            Some("close the open wallet before switching networks"@)
        } else if in_flight(self.sends) {
            Some("a send is in flight"@)
        } else {
            None
        }
    }
}

impl Backend {
    /// The networks, and which one is active.
    pub fn list_networks(&self) -> (r: String)
        ensures
            r@ == text_of_json(networks_reply(self@.active)),
    {
        let mut names: Vec<Json> = Vec::new();
        let mut i: usize = 0;
        let ghost all = NETWORKS@.map_values(|n: &'static str| JsonView::Text(n@));
        assert(list_view(names@) =~= all.take(0));
        while i < 4
            invariant
                i <= 4,
                NETWORKS@.len() == 4,
                all == NETWORKS@.map_values(|n: &'static str| JsonView::Text(n@)),
                list_view(names@) == all.take(i as int),
            decreases 4 - i,
        {
            let ghost before = names@;
            names.push(Json::text(NETWORKS[i]));
            assert(names@.drop_last() =~= before);
            assert(all.take(i + 1) =~= all.take(i as int).push(all[i as int]));
            i += 1;
        }
        assert(all.take(4) =~= all);
        ok(
            Json::object()
                .with("networks", Json::List(names))
                .with("active", Json::text(self.active.as_str())),
        )
    }

    /// Makes `network` the active one. `status` is the engine's, or null where it gave none. The
    /// reply, and whether the settings are to be stored.
    pub fn set_active_network(&mut self, network: String, status: &Json) -> (r: (String, bool))
        requires
            old(self).wf(),
        ensures
            final(self).wf(),
            match old(self)@.network_refusal(network@, status@) {
                Some(words) => {
                    &&& *final(self) == *old(self)
                    &&& r.0@ == text_of_json(err_reply(words))
                    &&& !r.1
                },
                None => {
                    &&& final(self)@ == old(self)@.switched(network@)
                    &&& r.0@ == text_of_json(switched_reply(network@))
                    &&& r.1
                },
            },
    {
        if !is_network(network.as_str()) {
            let mut words = "unknown network: ".to_owned();
            words.append(network.as_str());
            return (err(words.as_str()), false);
        }
        let state = status.text_or("state", "no_wallet");
        if !same(state.as_str(), "no_wallet") {
            return (err("close the open wallet before switching networks"), false);
        }
        if self.sends.any_open() {
            return (err("a send is in flight"), false);
        }
        let reply = ok(Json::object().with("active", Json::text(network.as_str())));
        self.active = network;
        (reply, true)
    }

    /// The text of the settings. It names the active network to whoever reads it back.
    pub fn settings_text(&self) -> (r: String)
        ensures
            r@ == text_of_json(settings_json(self@.active)),
            among(self@.active, NETWORKS@) ==> stored_network(r@) == Some(self@.active),
    {
        let json = Json::object().with("activeNetwork", Json::text(self.active.as_str()));
        assert(json@.get("activeNetwork"@) == Some(JsonView::Text(self@.active)));
        json.to_text()
    }

    /// Takes up what was stored: the wallets, and the active network where the settings name one.
    pub fn on_context_ready(&mut self, wallets: Option<Vec<(String, WalletMeta)>>, settings: Option<&str>)
        requires
            old(self).wf(),
        ensures
            final(self).wf(),
            final(self)@ == old(self)@.ready(
                match wallets {
                    Some(all) => stored(all@),
                    None => Map::empty(),
                },
                held(settings),
            ),
    {
        self.registry = Registry::new(wallets);
        match settings {
            Some(text) => match Json::parse(text) {
                Ok(json) => match read_network(&json) {
                    Some(network) => {
                        self.active = network;
                    },
                    None => {},
                },
                Err(_) => {},
            },
            None => {},
        }
    }
}

// ---------------------------------------------------------------------------------------------
// Wallets
// ---------------------------------------------------------------------------------------------

/// The registry after the wallets on disk were seen: one that was not remembered is remembered on
/// the active network.
pub open spec fn registry_seeing(
    registry: Map<Seq<char>, WalletMetaView>,
    on_disk: Seq<JsonView>,
    active: Seq<char>,
) -> Map<Seq<char>, WalletMetaView>
    decreases on_disk.len(),
{
    if on_disk.len() == 0 {
        registry
    } else {
        let before = registry_seeing(registry, on_disk.drop_last(), active);
        match on_disk.last() {
            JsonView::Text(name) => if before.contains_key(name) {
                before
            } else {
                before.insert(name, WalletMetaView { network: active, ..WalletMetaView::blank() })
            },
            _ => before,
        }
    }
}

/// The reply that lists the wallets, in the order of `names`.
pub open spec fn wallets_reply(
    names: Seq<Seq<char>>,
    registry: Map<Seq<char>, WalletMetaView>,
) -> JsonView {
    ok_reply(JsonView::object().with("wallets"@, JsonView::List(listing(names, registry))))
}

/// The wallets that the engine finds on disk.
pub open spec fn found(on_disk: JsonView) -> Seq<JsonView> {
    match on_disk {
        JsonView::List(names) => names,
        _ => Seq::empty(),
    }
}

impl BackendView {
    /// The state after the wallets that the engine finds on disk were seen.
    pub open spec fn seeing_wallets(self, on_disk: JsonView) -> BackendView {
        BackendView {
            registry: registry_seeing(self.registry, found(on_disk), self.active),
            ..self
        }
    }
}

impl Backend {
    /// The registry, merged with what the engine finds on disk. The reply, and whether the
    /// registry is to be stored.
    pub fn list_wallets(&mut self, on_disk: &Json) -> (r: (String, bool))
        requires
            old(self).wf(),
        ensures
            final(self).wf(),
            final(self)@ == old(self)@.seeing_wallets(on_disk@),
            r.0@ == text_of_json(
                wallets_reply(final(self).registry.order(), final(self)@.registry),
            ),
            r.1 == (final(self)@.registry != old(self)@.registry),
    {
        let ghost before = self@;
        let mut changed = false;
        match on_disk {
            Json::List(names) => {
                let ghost views = list_view(names@);
                let mut i: usize = 0;
                proof {
                    list_view_len(names@);
                    assert(views.take(0) =~= Seq::<JsonView>::empty());
                }
                while i < names.len()
                    invariant
                        self.wf(),
                        i <= names@.len(),
                        views == list_view(names@),
                        views.len() == names@.len(),
                        self@ == (BackendView {
                            registry: registry_seeing(
                                before.registry,
                                views.take(i as int),
                                before.active,
                            ),
                            ..before
                        }),
                        changed ==> exists|name: Seq<char>| #[trigger] self@.registry.contains_key(name)
                            && !before.registry.contains_key(name),
                        !changed ==> self@.registry == before.registry,
                    decreases names@.len() - i,
                {
                    proof {
                        list_view_index(names@, i as int);
                        assert(views.take(i + 1).drop_last() =~= views.take(i as int));
                        assert(views.take(i + 1).last() == views[i as int]);
                    }
                    let ghost known = self@.registry;
                    match &names[i] {
                        Json::Text(name) => {
                            let unseen = match self.registry.get(name.as_str()) {
                                Some(_) => false,
                                None => true,
                            };
                            if unseen {
                                let mut meta = WalletMeta::default();
                                meta.network = self.active.clone();
                                self.registry.upsert(name.as_str(), meta);
                                proof {
                                    assert(self@.registry.contains_key(name@));
                                    if changed {
                                        let other = choose|other: Seq<char>| #[trigger] known.contains_key(other)
                                            && !before.registry.contains_key(other);
                                        assert(self@.registry.contains_key(other));
                                    }
                                }
                                changed = true;
                            }
                        },
                        _ => {},
                    }
                    i += 1;
                }
                assert(views.take(i as int) =~= views);
            },
            _ => {},
        }
        proof {
            if changed {
                let name = choose|name: Seq<char>| #[trigger] self@.registry.contains_key(name)
                    && !before.registry.contains_key(name);
                assert(self@.registry != before.registry);
            }
        }
        let reply = ok(Json::object().with("wallets", self.registry.list_json()));
        (reply, changed)
    }
}

/// A job about the open wallet, or none.
pub open spec fn plain_job(kind: Seq<char>, params: JsonView) -> EngineJobView {
    EngineJobView { kind, params, wallet: Seq::empty(), meta: None }
}

/// What the engine needs to open or create a wallet.
pub open spec fn wallet_params(name: Seq<char>, password: Seq<char>, network: Seq<char>) -> JsonView {
    JsonView::object()
        .with("name"@, JsonView::Text(name))
        .with("password"@, JsonView::Text(password))
        .with("network"@, JsonView::Text(network))
}

/// The job that opens a wallet.
pub open spec fn open_job(name: Seq<char>, password: Seq<char>, network: Seq<char>) -> EngineJobView {
    EngineJobView {
        kind: "open_wallet"@,
        params: wallet_params(name, password, network),
        wallet: name,
        meta: None,
    }
}

/// The job that creates a wallet on the active network.
pub open spec fn create_job(
    name: Seq<char>,
    password: Seq<char>,
    label: Seq<char>,
    active: Seq<char>,
) -> EngineJobView {
    EngineJobView {
        kind: "create_wallet"@,
        params: wallet_params(name, password, active),
        wallet: name,
        meta: Some(WalletMetaView { network: active, label, ..WalletMetaView::blank() }),
    }
}

/// The job that changes the open wallet's password.
pub open spec fn password_job(old_password: Seq<char>, new_password: Seq<char>) -> EngineJobView {
    plain_job(
        "change_password"@,
        JsonView::object()
            .with("oldPassword"@, JsonView::Text(old_password))
            .with("newPassword"@, JsonView::Text(new_password)),
    )
}

/// What is remembered of a wallet that is restored. It is the same whatever the password, the
/// seed and the keys are.
pub open spec fn restored_meta(params: JsonView, active: Seq<char>, view_only: bool) -> WalletMetaView {
    WalletMetaView {
        network: active,
        label: params.text_or("label"@, ""@),
        restore_height: params.unsigned_at("restoreHeight"@),
        view_only,
        ..WalletMetaView::blank()
    }
}

/// The wallet that a restore names, or what is wrong.
pub open spec fn restore_name(params: JsonView) -> Result<Seq<char>, Seq<char>> {
    let name = params.text_or("name"@, ""@);
    if name.len() == 0 {
        Err("name is required"@)
    } else {
        Ok(name)
    }
}

/// The job that restores a wallet from its seed.
pub open spec fn seed_job(params: JsonView, active: Seq<char>) -> Result<EngineJobView, Seq<char>> {
    let nothing = JsonView::Text(""@);
    match restore_name(params) {
        Ok(name) => Ok(
            EngineJobView {
                kind: "restore_from_seed"@,
                params: JsonView::object()
                    .with("name"@, JsonView::Text(name))
                    .with("password"@, params.get_or("password"@, nothing))
                    .with("network"@, JsonView::Text(active))
                    .with("seed"@, params.get_or("seed"@, nothing))
                    .with("restoreHeight"@, JsonView::Unsigned(params.unsigned_at("restoreHeight"@)))
                    .with("seedOffset"@, params.get_or("seedOffset"@, nothing)),
                wallet: name,
                meta: Some(restored_meta(params, active, false)),
            },
        ),
        Err(words) => Err(words),
    }
}

/// A wallet restored without a spend key can only be looked at.
pub open spec fn without_spend_key(params: JsonView) -> bool {
    params.text_or("spendKey"@, ""@).len() == 0
}

/// The job that restores a wallet from its keys.
pub open spec fn keys_job(params: JsonView, active: Seq<char>) -> Result<EngineJobView, Seq<char>> {
    let nothing = JsonView::Text(""@);
    match restore_name(params) {
        Ok(name) => Ok(
            EngineJobView {
                kind: "restore_from_keys"@,
                params: JsonView::object()
                    .with("name"@, JsonView::Text(name))
                    .with("password"@, params.get_or("password"@, nothing))
                    .with("network"@, JsonView::Text(active))
                    .with("address"@, params.get_or("address"@, nothing))
                    .with("viewKey"@, params.get_or("viewKey"@, nothing))
                    .with("spendKey"@, params.get_or("spendKey"@, nothing))
                    .with("restoreHeight"@, JsonView::Unsigned(params.unsigned_at("restoreHeight"@))),
                wallet: name,
                meta: Some(restored_meta(params, active, without_spend_key(params))),
            },
        ),
        Err(words) => Err(words),
    }
}

/// A job, or what is wrong with what was asked for.
pub open spec fn job_view(r: Result<EngineJob, String>) -> Result<EngineJobView, Seq<char>> {
    match r {
        Ok(job) => Ok(job@),
        Err(words) => Err(words@),
    }
}

impl Backend {
    /// The job that opens the wallet `name` on the active network.
    pub fn open_wallet(&self, name: &str, password: &str) -> (r: EngineJob)
        ensures
            r@ == open_job(name@, password@, self@.active),
    {
        EngineJob {
            kind: "open_wallet".to_owned(),
            params: Json::object()
                .with("name", Json::text(name))
                .with("password", Json::text(password))
                .with("network", Json::text(self.active.as_str())),
            wallet: name.to_owned(),
            meta: None,
        }
    }

    /// The job that creates the wallet `name` on the active network.
    pub fn create_wallet(&self, name: &str, password: &str, label: String) -> (r: EngineJob)
        ensures
            r@ == create_job(name@, password@, label@, self@.active),
    {
        let mut meta = WalletMeta::default();
        meta.network = self.active.clone();
        meta.label = label;
        EngineJob {
            kind: "create_wallet".to_owned(),
            params: Json::object()
                .with("name", Json::text(name))
                .with("password", Json::text(password))
                .with("network", Json::text(self.active.as_str())),
            wallet: name.to_owned(),
            meta: Some(meta),
        }
    }

    /// The job that restores a wallet from its seed, by the text of what was asked for:
    /// `{ name, password, seed, restoreHeight, seedOffset?, label? }`.
    pub fn restore_from_seed(&self, params_json: &str) -> (r: Result<EngineJob, String>)
        ensures
            job_view(r) == match json_of_text(params_json@) {
                Ok(params) => seed_job(params, self@.active),
                Err(words) => Err(words),
            },
    {
        match Json::parse(params_json) {
            Ok(params) => self.seed_restore(&params),
            Err(words) => Err(words),
        }
    }

    /// The job that restores a wallet from its seed.
    pub fn seed_restore(&self, params: &Json) -> (r: Result<EngineJob, String>)
        ensures
            job_view(r) == seed_job(params@, self@.active),
    {
        let name = params.text_or("name", "");
        if name.as_str().is_empty() {
            return Err("name is required".to_owned());
        }
        let height = params.unsigned_at("restoreHeight");
        let mut meta = WalletMeta::default();
        meta.network = self.active.clone();
        meta.label = params.text_or("label", "");
        meta.restore_height = height;
        let job = Json::object()
            .with("name", Json::text(name.as_str()))
            .with("password", params.get_or("password", Json::text("")))
            .with("network", Json::text(self.active.as_str()))
            .with("seed", params.get_or("seed", Json::text("")))
            .with("restoreHeight", Json::Unsigned(height))
            .with("seedOffset", params.get_or("seedOffset", Json::text("")));
        Ok(EngineJob {
            kind: "restore_from_seed".to_owned(),
            params: job,
            wallet: name,
            meta: Some(meta),
        })
    }

    /// The job that restores a wallet from its keys, by the text of what was asked for:
    /// `{ name, password, address, viewKey, spendKey?, restoreHeight, label? }`.
    pub fn restore_from_keys(&self, params_json: &str) -> (r: Result<EngineJob, String>)
        ensures
            job_view(r) == match json_of_text(params_json@) {
                Ok(params) => keys_job(params, self@.active),
                Err(words) => Err(words),
            },
    {
        match Json::parse(params_json) {
            Ok(params) => self.keys_restore(&params),
            Err(words) => Err(words),
        }
    }

    /// The job that restores a wallet from its keys.
    pub fn keys_restore(&self, params: &Json) -> (r: Result<EngineJob, String>)
        ensures
            job_view(r) == keys_job(params@, self@.active),
    {
        let name = params.text_or("name", "");
        if name.as_str().is_empty() {
            return Err("name is required".to_owned());
        }
        let height = params.unsigned_at("restoreHeight");
        let spend_key = params.text_or("spendKey", "");
        let mut meta = WalletMeta::default();
        meta.network = self.active.clone();
        meta.label = params.text_or("label", "");
        meta.restore_height = height;
        meta.view_only = spend_key.as_str().is_empty();
        let job = Json::object()
            .with("name", Json::text(name.as_str()))
            .with("password", params.get_or("password", Json::text("")))
            .with("network", Json::text(self.active.as_str()))
            .with("address", params.get_or("address", Json::text("")))
            .with("viewKey", params.get_or("viewKey", Json::text("")))
            .with("spendKey", params.get_or("spendKey", Json::text("")))
            .with("restoreHeight", Json::Unsigned(height));
        Ok(EngineJob {
            kind: "restore_from_keys".to_owned(),
            params: job,
            wallet: name,
            meta: Some(meta),
        })
    }
}

/// The job that closes the open wallet.
pub fn close_wallet() -> (r: EngineJob)
    ensures
        r@ == plain_job("close_wallet"@, JsonView::object()),
{
    EngineJob {
        kind: "close_wallet".to_owned(),
        params: Json::object(),
        wallet: String::new(),
        meta: None,
    }
}

/// The job that changes the open wallet's password.
pub fn change_password(old_password: &str, new_password: &str) -> (r: EngineJob)
    ensures
        r@ == password_job(old_password@, new_password@),
{
    EngineJob {
        kind: "change_password".to_owned(),
        params: Json::object()
            .with("oldPassword", Json::text(old_password))
            .with("newPassword", Json::text(new_password)),
        wallet: String::new(),
        meta: None,
    }
}

// ---------------------------------------------------------------------------------------------
// What the open wallet shows
// ---------------------------------------------------------------------------------------------

/// The engine's status; where it gave none it is unavailable.
pub open spec fn status_or_unavailable(status: Option<Json>) -> JsonView {
    match status {
        Some(status) => status@,
        None => JsonView::object().with("state"@, JsonView::Text("unavailable"@)),
    }
}

impl BackendView {
    /// The engine's status with how far it has followed the chain, the active network, and what is
    /// remembered of the open wallet.
    pub open spec fn wallet_status(self, status: JsonView) -> JsonView {
        let percent = percent_of(
            status.unsigned_at("walletHeight"@),
            status.unsigned_at("daemonHeight"@),
        );
        let extended = status
            .with("syncPercent"@, JsonView::Unsigned(percent))
            .with("activeNetwork"@, JsonView::Text(self.active));
        match extended.text_at("wallet"@) {
            Some(name) => if self.registry.contains_key(name) {
                extended.with("meta"@, self.registry[name].json())
            } else {
                extended
            },
            None => extended,
        }
    }
}

impl Backend {
    /// The engine's status, with the backend's own part. It must be one that fields can be set
    /// on.
    pub fn wallet_status(&self, status: Option<Json>) -> (r: String)
        requires
            self.wf(),
            status_or_unavailable(status).takes_fields(),
        ensures
            r@ == text_of_json(ok_reply(self@.wallet_status(status_or_unavailable(status)))),
    {
        let st = match status {
            Some(status) => status,
            None => Json::object().with("state", Json::text("unavailable")),
        };
        let percent = sync_percent(st.unsigned_at("walletHeight"), st.unsigned_at("daemonHeight"));
        let extended = st
            .with("syncPercent", Json::Unsigned(percent))
            .with("activeNetwork", Json::text(self.active.as_str()));
        let meta = match extended.text_at("wallet") {
            Some(name) => match self.registry.get(name) {
                Some(meta) => Some(meta.json()),
                None => None,
            },
            None => None,
        };
        match meta {
            Some(meta) => ok(extended.with("meta", meta)),
            None => ok(extended),
        }
    }
}

/// The reply that tells the balances, in atomic units and in XMR.
pub open spec fn balances_reply(balance: Seq<char>, unlocked: Seq<char>) -> JsonView {
    ok_reply(
        JsonView::object()
            .with("balance"@, JsonView::Text(balance))
            .with("unlocked"@, JsonView::Text(unlocked))
            .with("balanceXmr"@, JsonView::Text(shown(balance)))
            .with("unlockedXmr"@, JsonView::Text(shown(unlocked))),
    )
}

/// The reply that tells where to receive.
pub open spec fn receive_reply(address: Seq<char>, subaddresses: JsonView) -> JsonView {
    ok_reply(
        JsonView::object()
            .with("address"@, JsonView::Text(address))
            .with("subaddresses"@, subaddresses),
    )
}

/// The reply that tells the history.
pub open spec fn history_reply(rows: Seq<JsonView>) -> JsonView {
    ok_reply(JsonView::object().with("rows"@, JsonView::List(rows)))
}

/// The balances as they are told, in atomic units and in XMR. What the engine did not give is
/// zero.
pub fn balances(balance: Option<String>, unlocked: Option<String>) -> (r: String)
    ensures
        r@ == text_of_json(balances_reply(balance_or_zero(balance), balance_or_zero(unlocked))),
{
    let b = match balance {
        Some(s) => s,
        None => "0".to_owned(),
    };
    let u = match unlocked {
        Some(s) => s,
        None => "0".to_owned(),
    };
    let balance_xmr = show_xmr(b.as_str());
    let unlocked_xmr = show_xmr(u.as_str());
    ok(
        Json::object()
            .with("balance", Json::Text(b))
            .with("unlocked", Json::Text(u))
            .with("balanceXmr", Json::Text(balance_xmr))
            .with("unlockedXmr", Json::Text(unlocked_xmr)),
    )
}

/// The address to receive on, and the subaddresses. What the engine did not give is empty.
pub fn receive_info(address: Option<String>, subaddresses: Option<Json>) -> (r: String)
    ensures
        r@ == text_of_json(
            receive_reply(
                match address {
                    Some(address) => address@,
                    None => Seq::empty(),
                },
                match subaddresses {
                    Some(subaddresses) => subaddresses@,
                    None => JsonView::List(Seq::empty()),
                },
            ),
        ),
{
    let a = match address {
        Some(address) => address,
        None => String::new(),
    };
    let s = match subaddresses {
        Some(subaddresses) => subaddresses,
        None => {
            let none: Vec<Json> = Vec::new();
            assert(list_view(none@) =~= Seq::<JsonView>::empty());
            Json::List(none)
        },
    };
    ok(Json::object().with("address", Json::Text(a)).with("subaddresses", s))
}

/// The history's rows, restated.
pub open spec fn history_rows(rows: Option<Json>) -> Seq<JsonView> {
    match rows {
        Some(rows) => match rows@ {
            JsonView::List(given) => given.map_values(|row: JsonView| restated(row)),
            _ => Seq::empty(),
        },
        None => Seq::empty(),
    }
}

/// As many rows are told as were given, each given one restated, and no other.
pub open spec fn tells_every_row(out: Seq<JsonView>, given: Seq<JsonView>) -> bool {
    &&& out.len() == given.len()
    &&& forall|i: int| 0 <= i < given.len() ==> out.contains(restated(#[trigger] given[i]))
    &&& forall|row: JsonView| #[trigger] out.contains(row) ==> exists|i: int|
        0 <= i < given.len() && row == restated(#[trigger] given[i])
}

/// Law: of rows that were given, restated and put newest first, every one is told.
pub proof fn restated_rows_are_told(out: Seq<JsonView>, given: Seq<JsonView>)
    requires
        newest_first(out, given.map_values(|row: JsonView| restated(row))),
    ensures
        tells_every_row(out, given),
{
    let rows = given.map_values(|row: JsonView| restated(row));
    every_row_is_told(out, rows);
    assert forall|i: int| 0 <= i < given.len() implies out.contains(restated(#[trigger] given[i])) by {
        assert(rows[i] == restated(given[i]));
        assert(rows.contains(restated(given[i])));
        the_same_rows(out, rows, restated(given[i]));
    }
    assert forall|row: JsonView| #[trigger] out.contains(row) implies exists|i: int|
        0 <= i < given.len() && row == restated(#[trigger] given[i]) by {
        the_same_rows(out, rows, row);
        let i = choose|i: int| 0 <= i < rows.len() && rows[i] == row;
        assert(row == restated(given[i]));
    }
}

/// The history as it is told: restated, newest first. What the engine did not give is no rows.
pub fn history(rows: Option<Json>) -> (r: String)
    ensures
        exists|out: Seq<JsonView>|
            {
                &&& #[trigger] newest_first(out, history_rows(rows))
                &&& r@ == text_of_json(history_reply(out))
                &&& rows is Some && rows->0@ is List ==> tells_every_row(out, rows->0@->List_0)
                &&& !(rows is Some && rows->0@ is List) ==> out.len() == 0
            },
{
    let given = match rows {
        Some(rows) => rows,
        None => Json::Null,
    };
    let out = normalize_history(&given);
    assert(newest_first(out@->List_0, history_rows(rows)));
    proof {
        if rows is Some && rows->0@ is List {
            restated_rows_are_told(out@->List_0, rows->0@->List_0);
        }
    }
    ok(Json::object().with("rows", out))
}

/// The node's health as the node module tells it, or that the module could not be asked.
pub fn node_health(told: Result<String, String>) -> (r: String)
    ensures
        r@ == match told {
            Ok(health) => health@,
            Err(words) => text_of_json(err_reply("node module: "@ + words@)),
        },
{
    match told {
        Ok(health) => health,
        Err(words) => {
            let mut all = "node module: ".to_owned();
            all.append(words.as_str());
            err(all.as_str())
        },
    }
}

/// Law: what came of asking for a job says what it is.
pub proof fn what_came_of_asking(job: EngineJob, words: String)
    ensures
        job_view(Ok::<EngineJob, String>(job)) == Ok::<EngineJobView, Seq<char>>(job@),
        job_view(Err::<EngineJob, String>(words)) == Err::<EngineJobView, Seq<char>>(words@),
{
}

} // verus!
