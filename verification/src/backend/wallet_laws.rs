//! What wallets and networks are for: what the engine is handed to open, create and restore a
//! wallet, what is remembered of it, and what the surfaces are told.

use vstd::prelude::*;

use crate::backend::job_laws::in_xmr;
use crate::backend::laws::seeing_wallets_forgets_none;
use crate::backend::wallets::{
    balances_reply, create_job, found, history_reply, history_rows, keys_job, network_setting,
    networks_json, networks_reply, open_job, password_job, plain_job, receive_reply,
    restated_rows_are_told, seed_job, settings_json, status_or_unavailable, stored_network, switched_reply, tells_every_row,
    wallets_reply,
};
use crate::backend::watch::percent_of;
use crate::backend::{BackendView, EngineJobView};
use crate::json::{json_of_text, Json, JsonView};
use crate::model::amount::{parse_undoes_format, the_four_networks};
use crate::model::history::{every_row_is_told, newest_first, shown};
use crate::model::registry::{listing, WalletMetaView};
use crate::model::sends::{when_a_send_is_in_flight, SendRequestView};
use crate::text::u64_of;

verus! {

// ---------------------------------------------------------------------------------------------
// Networks and settings
// ---------------------------------------------------------------------------------------------

/// Law: the networks are told, all four of them, and which one is active.
pub proof fn what_is_told_of_the_networks(active: Seq<char>, network: Seq<char>, field: Seq<char>)
    ensures
        networks_json() == JsonView::List(
            seq![
                JsonView::Text("mainnet"@),
                JsonView::Text("stagenet"@),
                JsonView::Text("testnet"@),
                JsonView::Text("regtest"@),
            ],
        ),
        networks_reply(active).get("networks"@) == Some(networks_json()),
        networks_reply(active).get("active"@) == Some(JsonView::Text(active)),
        networks_reply(active).get("ok"@) == Some(JsonView::Bool(true)),
        networks_reply(active).get(field) is Some ==> field == "ok"@ || field == "active"@ || field
            == "networks"@,
        switched_reply(network).get("active"@) == Some(JsonView::Text(network)),
        switched_reply(network).get("ok"@) == Some(JsonView::Bool(true)),
        switched_reply(network).get(field) is Some ==> field == "ok"@ || field == "active"@,
{
    reveal_strlit("networks");
    reveal_strlit("active");
    reveal_strlit("ok");
    assert("networks"@.len() == 8);
    assert("active"@.len() == 6);
    assert("ok"@.len() == 2);
    assert(networks_json()->List_0 =~= seq![
        JsonView::Text("mainnet"@),
        JsonView::Text("stagenet"@),
        JsonView::Text("testnet"@),
        JsonView::Text("regtest"@),
    ]);
}

/// Law: the active network changes just to one of the four, while no wallet is open, by the
/// engine's status, and no send is in flight; and what is said where it does not.
pub proof fn when_the_network_changes(b: BackendView, network: Seq<char>, status: JsonView)
    ensures
        ({
            let known = network == "mainnet"@ || network == "stagenet"@ || network == "testnet"@
                || network == "regtest"@;
            let open = status.text_at("state"@) is Some && status.text_at("state"@) != Some("no_wallet"@);
            let busy = exists|id: Seq<char>| #[trigger] b.sends.contains_key(id) && (
            b.sends[id].state is Preparing || b.sends[id].state is Previewed
                || b.sends[id].state is Committing);
            &&& b.network_refusal(network, status) is None <==> known && !open && !busy
            &&& !known ==> b.network_refusal(network, status) == Some("unknown network: "@ + network)
            &&& known && open ==> b.network_refusal(network, status) == Some(
                "close the open wallet before switching networks"@,
            )
            &&& known && !open && busy ==> b.network_refusal(network, status) == Some(
                "a send is in flight"@,
            )
        }),
{
    the_four_networks(network);
    when_a_send_is_in_flight(
        b.sends,
        SendRequestView::begun(Seq::empty(), JsonView::Null),
    );
}

/// Law: changing the network changes that and nothing else.
pub proof fn what_changing_the_network_changes(b: BackendView, network: Seq<char>)
    ensures
        b.switched(network).active == network,
        b.switched(network).registry == b.registry,
        b.switched(network).jobs == b.jobs,
        b.switched(network).sends == b.sends,
        b.switched(network).next_job == b.next_job,
        b.switched(network).next_send == b.next_send,
{
}

/// Law: settings name the active network and nothing else, and are read for a network that there
/// is.
pub proof fn what_settings_hold(active: Seq<char>, settings: JsonView, network: Seq<char>, field: Seq<char>)
    ensures
        settings_json(active).get("activeNetwork"@) == Some(JsonView::Text(active)),
        settings_json(active).get(field) is Some ==> field == "activeNetwork"@,
        network_setting(settings) == Some(network) <==> settings.get("activeNetwork"@) == Some(
            JsonView::Text(network),
        ) && (network == "mainnet"@ || network == "stagenet"@ || network == "testnet"@ || network
            == "regtest"@),
{
    the_four_networks(network);
}

/// Law: taking up what was stored takes the stored wallets and the stored network, where the text
/// of the settings is one that names a network, and leaves all else.
pub proof fn what_is_taken_up(
    b: BackendView,
    wallets: Map<Seq<char>, WalletMetaView>,
    settings: Option<Seq<char>>,
)
    ensures
        ({
            let after = b.ready(wallets, settings);
            let read = settings is Some && json_of_text(settings->0) is Ok && network_setting(
                json_of_text(settings->0)->Ok_0,
            ) is Some;
            &&& after.registry == wallets
            &&& read ==> Some(after.active) == network_setting(json_of_text(settings->0)->Ok_0)
            &&& read ==> Some(after.active) == stored_network(settings->0)
            &&& !read ==> after.active == b.active
            &&& after.jobs == b.jobs && after.sends == b.sends
            &&& after.next_job == b.next_job && after.next_send == b.next_send
        }),
{
}

// ---------------------------------------------------------------------------------------------
// Wallets on disk
// ---------------------------------------------------------------------------------------------

/// Law: the wallets on disk are the texts of the engine's list; each is remembered afterwards, as
/// it was, or else on the active network and without more; and nothing else changes.
pub proof fn what_seeing_wallets_changes(b: BackendView, on_disk: JsonView, name: Seq<char>)
    ensures
        ({
            let after = b.seeing_wallets(on_disk);
            let there = on_disk is List && on_disk->List_0.contains(JsonView::Text(name));
            &&& on_disk is List ==> found(on_disk) == on_disk->List_0
            &&& on_disk !is List ==> found(on_disk).len() == 0
            &&& after.registry.contains_key(name) <==> b.registry.contains_key(name) || there
            &&& b.registry.contains_key(name) ==> after.registry[name] == b.registry[name]
            &&& there && !b.registry.contains_key(name) ==> {
                &&& after.registry[name].network == b.active
                &&& after.registry[name].label.len() == 0
                &&& after.registry[name].address.len() == 0
                &&& after.registry[name].restore_height == 0
                &&& !after.registry[name].view_only
            }
            &&& after.jobs == b.jobs && after.sends == b.sends && after.active == b.active
            &&& after.next_job == b.next_job && after.next_send == b.next_send
        }),
{
    seeing_wallets_forgets_none(b.registry, found(on_disk), b.active, name);
}

/// Law: the list of wallets is told, and nothing else.
pub proof fn what_is_told_of_the_wallets(
    names: Seq<Seq<char>>,
    registry: Map<Seq<char>, WalletMetaView>,
    field: Seq<char>,
)
    ensures
        wallets_reply(names, registry).get("ok"@) == Some(JsonView::Bool(true)),
        wallets_reply(names, registry).get("wallets"@) == Some(JsonView::List(listing(names, registry))),
        wallets_reply(names, registry).get(field) is Some ==> field == "ok"@ || field == "wallets"@,
{
    reveal_strlit("ok");
    reveal_strlit("wallets");
    assert("ok"@.len() == 2);
    assert("wallets"@.len() == 7);
}

// ---------------------------------------------------------------------------------------------
// Jobs
// ---------------------------------------------------------------------------------------------

/// Law: the engine is handed the wallet's name, the password and the network, and nothing else; a
/// wallet that is created is remembered with its network and its label.
pub proof fn what_the_engine_is_to_open(
    name: Seq<char>,
    password: Seq<char>,
    label: Seq<char>,
    network: Seq<char>,
    field: Seq<char>,
)
    ensures
        ({
            let job = open_job(name, password, network);
            &&& job.kind == "open_wallet"@
            &&& job.wallet == name
            &&& job.meta is None
            &&& job.params.get("name"@) == Some(JsonView::Text(name))
            &&& job.params.get("password"@) == Some(JsonView::Text(password))
            &&& job.params.get("network"@) == Some(JsonView::Text(network))
            &&& job.params.get(field) is Some ==> field == "name"@ || field == "password"@ || field
                == "network"@
        }),
        ({
            let job = create_job(name, password, label, network);
            &&& job.kind == "create_wallet"@
            &&& job.wallet == name
            &&& job.meta is Some
            &&& job.meta->0.network == network
            &&& job.meta->0.label == label
            &&& job.meta->0.address.len() == 0 && job.meta->0.restore_height == 0
            &&& !job.meta->0.view_only
            &&& job.params.get("name"@) == Some(JsonView::Text(name))
            &&& job.params.get("password"@) == Some(JsonView::Text(password))
            &&& job.params.get("network"@) == Some(JsonView::Text(network))
            &&& job.params.get(field) is Some ==> field == "name"@ || field == "password"@ || field
                == "network"@
        }),
{
    reveal_strlit("name");
    reveal_strlit("password");
    reveal_strlit("network");
    assert("name"@.len() == 4);
    assert("password"@.len() == 8);
    assert("network"@.len() == 7);
}

/// Law: the engine is handed the old password and the new one, each as such; to close the wallet
/// it is handed nothing.
pub proof fn what_the_engine_is_to_change(
    old_password: Seq<char>,
    new_password: Seq<char>,
    kind: Seq<char>,
    params: JsonView,
    field: Seq<char>,
)
    ensures
        ({
            let job = password_job(old_password, new_password);
            &&& job.kind == "change_password"@
            &&& job.params.get("oldPassword"@) == Some(JsonView::Text(old_password))
            &&& job.params.get("newPassword"@) == Some(JsonView::Text(new_password))
            &&& job.params.get(field) is Some ==> field == "oldPassword"@ || field == "newPassword"@
            &&& job.meta is None && job.wallet.len() == 0
        }),
        plain_job(kind, params).kind == kind,
        plain_job(kind, params).params == params,
        plain_job(kind, params).meta is None,
        plain_job(kind, params).wallet.len() == 0,
{
    reveal_strlit("oldPassword");
    reveal_strlit("newPassword");
    assert("oldPassword"@.len() == 11);
    assert("newPassword"@.len() == 11);
    assert("oldPassword"@[0] != "newPassword"@[0]);
}

/// The job restores the wallet that the request names, on this network and from the height that
/// the request gives, and the wallet is remembered so, with the request's label.
pub open spec fn restores(job: EngineJobView, params: JsonView, network: Seq<char>) -> bool {
    let height = if params.get("restoreHeight"@) is Some && params.get("restoreHeight"@)->0 is Unsigned {
        params.get("restoreHeight"@)->0->Unsigned_0
    } else {
        0
    };
    let label = if params.text_at("label"@) is Some {
        params.text_at("label"@)->0
    } else {
        Seq::empty()
    };
    &&& Some(job.wallet) == params.text_at("name"@)
    &&& job.params.get("name"@) == params.get("name"@)
    &&& job.params.get("network"@) == Some(JsonView::Text(network))
    &&& job.params.get("restoreHeight"@) == Some(JsonView::Unsigned(height))
    &&& job.meta is Some
    &&& job.meta->0.network == network
    &&& job.meta->0.label == label
    &&& job.meta->0.restore_height == height
    &&& job.meta->0.address.len() == 0
}

/// Law: the engine is handed the password, the seed and its offset as the request gives them, empty
/// where it gives none, and nothing but what a restore from a seed needs. A request without a name
/// is refused.
pub proof fn what_a_seed_restores(params: JsonView, network: Seq<char>, field: Seq<char>)
    ensures
        seed_job(params, network) is Ok <==> params.text_at("name"@) is Some && params.text_at(
            "name"@,
        )->0.len() > 0,
        seed_job(params, network) is Err ==> seed_job(params, network)->Err_0 == "name is required"@,
        seed_job(params, network) is Ok ==> {
            let job = seed_job(params, network)->Ok_0;
            {
                &&& job.kind == "restore_from_seed"@
                &&& restores(job, params, network)
                &&& !job.meta->0.view_only
                &&& job.params.get("password"@) == Some(
                    if params.get("password"@) is Some {
                        params.get("password"@)->0
                    } else {
                        JsonView::Text(""@)
                    },
                )
                &&& job.params.get("seed"@) == Some(
                    if params.get("seed"@) is Some {
                        params.get("seed"@)->0
                    } else {
                        JsonView::Text(""@)
                    },
                )
                &&& job.params.get("seedOffset"@) == Some(
                    if params.get("seedOffset"@) is Some {
                        params.get("seedOffset"@)->0
                    } else {
                        JsonView::Text(""@)
                    },
                )
                &&& job.params.get(field) is Some ==> {
                    ||| field == "name"@
                    ||| field == "password"@
                    ||| field == "network"@
                    ||| field == "seed"@
                    ||| field == "restoreHeight"@
                    ||| field == "seedOffset"@
                }
            }
        },
{
    reveal_strlit("");
    assert(""@ =~= Seq::<char>::empty());
    reveal_strlit("name");
    reveal_strlit("password");
    reveal_strlit("network");
    reveal_strlit("seed");
    reveal_strlit("restoreHeight");
    reveal_strlit("seedOffset");
    assert("name"@.len() == 4);
    assert("password"@.len() == 8);
    assert("network"@.len() == 7);
    assert("seed"@.len() == 4);
    assert("restoreHeight"@.len() == 13);
    assert("seedOffset"@.len() == 10);
    assert("name"@[0] != "seed"@[0]);
}

/// Law: the engine is handed the password, the address and the keys as the request gives them,
/// empty where it gives none, and nothing but what a restore from keys needs; the wallet is
/// remembered as one to look at just where no spend key is handed over. A request without a name is
/// refused.
pub proof fn what_keys_restore(params: JsonView, network: Seq<char>, field: Seq<char>)
    ensures
        keys_job(params, network) is Ok <==> params.text_at("name"@) is Some && params.text_at(
            "name"@,
        )->0.len() > 0,
        keys_job(params, network) is Err ==> keys_job(params, network)->Err_0 == "name is required"@,
        keys_job(params, network) is Ok ==> {
            let job = keys_job(params, network)->Ok_0;
            {
                &&& job.kind == "restore_from_keys"@
                &&& restores(job, params, network)
                &&& job.params.get("password"@) == Some(
                    if params.get("password"@) is Some {
                        params.get("password"@)->0
                    } else {
                        JsonView::Text(""@)
                    },
                )
                &&& job.params.get("address"@) == Some(
                    if params.get("address"@) is Some {
                        params.get("address"@)->0
                    } else {
                        JsonView::Text(""@)
                    },
                )
                &&& job.params.get("viewKey"@) == Some(
                    if params.get("viewKey"@) is Some {
                        params.get("viewKey"@)->0
                    } else {
                        JsonView::Text(""@)
                    },
                )
                &&& job.params.get("spendKey"@) == Some(
                    if params.get("spendKey"@) is Some {
                        params.get("spendKey"@)->0
                    } else {
                        JsonView::Text(""@)
                    },
                )
                &&& job.meta->0.view_only <==> !(job.params.text_at("spendKey"@) is Some
                    && job.params.text_at("spendKey"@)->0.len() > 0)
                &&& job.params.get(field) is Some ==> {
                    ||| field == "name"@
                    ||| field == "password"@
                    ||| field == "network"@
                    ||| field == "address"@
                    ||| field == "viewKey"@
                    ||| field == "spendKey"@
                    ||| field == "restoreHeight"@
                }
            }
        },
{
    reveal_strlit("");
    assert(""@ =~= Seq::<char>::empty());
    reveal_strlit("name");
    reveal_strlit("password");
    reveal_strlit("network");
    reveal_strlit("address");
    reveal_strlit("viewKey");
    reveal_strlit("spendKey");
    reveal_strlit("restoreHeight");
    assert("name"@.len() == 4);
    assert("password"@.len() == 8);
    assert("network"@.len() == 7);
    assert("address"@.len() == 7);
    assert("viewKey"@.len() == 7);
    assert("spendKey"@.len() == 8);
    assert("restoreHeight"@.len() == 13);
    assert("password"@[0] != "spendKey"@[0]);
    assert("network"@[0] != "address"@[0]);
    assert("network"@[0] != "viewKey"@[0]);
    assert("address"@[0] != "viewKey"@[0]);
}

/// Law: what the two ways to restore a wallet share, they hand over alike.
pub proof fn both_restores_agree(params: JsonView, network: Seq<char>)
    requires
        seed_job(params, network) is Ok,
    ensures
        keys_job(params, network) is Ok,
        ({
            let seed = seed_job(params, network)->Ok_0;
            let keys = keys_job(params, network)->Ok_0;
            &&& seed.wallet == keys.wallet
            &&& seed.params.get("name"@) == keys.params.get("name"@)
            &&& seed.params.get("password"@) == keys.params.get("password"@)
            &&& seed.params.get("network"@) == keys.params.get("network"@)
            &&& seed.params.get("restoreHeight"@) == keys.params.get("restoreHeight"@)
            &&& seed.meta->0.label == keys.meta->0.label
            &&& seed.meta->0.restore_height == keys.meta->0.restore_height
            &&& seed.meta->0.network == keys.meta->0.network
        }),
{
    what_a_seed_restores(params, network, Seq::empty());
    what_keys_restore(params, network, Seq::empty());
}

// ---------------------------------------------------------------------------------------------
// What the open wallet shows
// ---------------------------------------------------------------------------------------------

/// Law: the wallet status is the engine's, with how far it has followed the chain, the active
/// network, and what is remembered of the open wallet, if it is remembered; all else that the
/// engine says is carried as it is.
pub proof fn what_the_wallet_status_tells(b: BackendView, status: JsonView, field: Seq<char>)
    requires
        status.takes_fields(),
    ensures
        ({
            let told = b.wallet_status(status);
            let open = status.text_at("wallet"@);
            let known = open is Some && b.registry.contains_key(open->0);
            &&& told is Object
            &&& told.get("syncPercent"@) == Some(
                JsonView::Unsigned(
                    percent_of(
                        status.unsigned_at("walletHeight"@),
                        status.unsigned_at("daemonHeight"@),
                    ),
                ),
            )
            &&& told.get("activeNetwork"@) == Some(JsonView::Text(b.active))
            &&& known ==> told.get("meta"@) == Some(b.registry[open->0].json())
            &&& !known ==> told.get("meta"@) == status.get("meta"@)
            &&& field != "syncPercent"@ && field != "activeNetwork"@ && field != "meta"@ ==> told.get(field)
                == status.get(field)
        }),
{
    reveal_strlit("syncPercent");
    reveal_strlit("activeNetwork");
    reveal_strlit("meta");
    reveal_strlit("wallet");
    assert("syncPercent"@.len() == 11);
    assert("activeNetwork"@.len() == 13);
    assert("meta"@.len() == 4);
    assert("wallet"@.len() == 6);
}

/// Law: without a status of the engine the wallet is unavailable.
pub proof fn what_no_status_tells(status: Json, field: Seq<char>)
    ensures
        status_or_unavailable(Some(status)) == status@,
        status_or_unavailable(None).get("state"@) == Some(JsonView::Text("unavailable"@)),
        status_or_unavailable(None).get(field) is Some ==> field == "state"@,
{
}

/// Law: the balances are told in atomic units, as the engine gave them, and in XMR, exactly.
pub proof fn what_is_told_of_the_balances(balance: Seq<char>, unlocked: Seq<char>, field: Seq<char>)
    ensures
        ({
            let told = balances_reply(balance, unlocked);
            &&& told.get("ok"@) == Some(JsonView::Bool(true))
            &&& told.get("balance"@) == Some(JsonView::Text(balance))
            &&& told.get("unlocked"@) == Some(JsonView::Text(unlocked))
            &&& in_xmr(told.get("balanceXmr"@), balance)
            &&& in_xmr(told.get("unlockedXmr"@), unlocked)
            &&& told.get(field) is Some ==> {
                ||| field == "ok"@
                ||| field == "balance"@
                ||| field == "unlocked"@
                ||| field == "balanceXmr"@
                ||| field == "unlockedXmr"@
            }
        }),
{
    if u64_of(balance) is Some {
        parse_undoes_format(balance);
    }
    if u64_of(unlocked) is Some {
        parse_undoes_format(unlocked);
    }
    reveal_strlit("ok");
    reveal_strlit("balance");
    reveal_strlit("unlocked");
    reveal_strlit("balanceXmr");
    reveal_strlit("unlockedXmr");
    assert("ok"@.len() == 2);
    assert("balance"@.len() == 7);
    assert("unlocked"@.len() == 8);
    assert("balanceXmr"@.len() == 10);
    assert("unlockedXmr"@.len() == 11);
    let told = balances_reply(balance, unlocked);
    assert(told.get("balanceXmr"@) == Some(JsonView::Text(shown(balance))));
    assert(told.get("unlockedXmr"@) == Some(JsonView::Text(shown(unlocked))));
}

/// Law: the address and the subaddresses are told as the engine gave them.
pub proof fn what_is_told_of_receiving(address: Seq<char>, subaddresses: JsonView, field: Seq<char>)
    ensures
        receive_reply(address, subaddresses).get("ok"@) == Some(JsonView::Bool(true)),
        receive_reply(address, subaddresses).get("address"@) == Some(JsonView::Text(address)),
        receive_reply(address, subaddresses).get("subaddresses"@) == Some(subaddresses),
        receive_reply(address, subaddresses).get(field) is Some ==> field == "ok"@ || field == "address"@
            || field == "subaddresses"@,
{
    reveal_strlit("ok");
    reveal_strlit("address");
    reveal_strlit("subaddresses");
    assert("ok"@.len() == 2);
    assert("address"@.len() == 7);
    assert("subaddresses"@.len() == 12);
}

/// Law: the history that is told has a row for every row that the engine gave, restated, and no
/// other; where it gave no list, none.
pub proof fn what_is_told_of_the_history(rows: Option<Json>, out: Seq<JsonView>, field: Seq<char>)
    requires
        newest_first(out, history_rows(rows)),
    ensures
        rows is Some && rows->0@ is List ==> tells_every_row(out, rows->0@->List_0),
        !(rows is Some && rows->0@ is List) ==> out.len() == 0,
        history_reply(out).get("rows"@) == Some(JsonView::List(out)),
        history_reply(out).get("ok"@) == Some(JsonView::Bool(true)),
        history_reply(out).get(field) is Some ==> field == "ok"@ || field == "rows"@,
{
    every_row_is_told(out, history_rows(rows));
    if rows is Some && rows->0@ is List {
        restated_rows_are_told(out, rows->0@->List_0);
    }
    reveal_strlit("ok");
    reveal_strlit("rows");
    assert("ok"@.len() == 2);
    assert("rows"@.len() == 4);
}

} // verus!
