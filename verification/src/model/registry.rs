//! The wallet registry: what is remembered of each wallet, by name.

use vstd::prelude::*;

use crate::json::{list_view, Json, JsonView};
use crate::ordered::{lists, one_list, OrderedMap};
use crate::text::names_of;

verus! {

/// What the registry remembers of a wallet. Never a password, never a key.
#[derive(Debug, PartialEq, Eq)]
pub struct WalletMeta {
    pub network: String,
    pub label: String,
    pub view_only: bool,
    pub restore_height: u64,
    pub address: String,
}

/// What a `WalletMeta` says.
pub struct WalletMetaView {
    pub network: Seq<char>,
    pub label: Seq<char>,
    pub view_only: bool,
    pub restore_height: u64,
    pub address: Seq<char>,
}

impl View for WalletMeta {
    type V = WalletMetaView;

    open spec fn view(&self) -> WalletMetaView {
        WalletMetaView {
            network: self.network@,
            label: self.label@,
            view_only: self.view_only,
            restore_height: self.restore_height,
            address: self.address@,
        }
    }
}

impl WalletMetaView {
    /// What is remembered of a wallet of which nothing is known.
    pub open spec fn blank() -> WalletMetaView {
        WalletMetaView {
            network: Seq::empty(),
            label: Seq::empty(),
            view_only: false,
            restore_height: 0,
            address: Seq::empty(),
        }
    }

    /// What is remembered, as a document.
    pub open spec fn json(self) -> JsonView {
        JsonView::object()
            .with("network"@, JsonView::Text(self.network))
            .with("label"@, JsonView::Text(self.label))
            .with("viewOnly"@, JsonView::Bool(self.view_only))
            .with("restoreHeight"@, JsonView::Unsigned(self.restore_height))
            .with("address"@, JsonView::Text(self.address))
    }
}

impl Default for WalletMeta {
    fn default() -> (r: Self)
        ensures
            r@ == WalletMetaView::blank(),
    {
        WalletMeta {
            network: String::new(),
            label: String::new(),
            view_only: false,
            restore_height: 0,
            address: String::new(),
        }
    }
}

impl Clone for WalletMeta {
    fn clone(&self) -> (r: Self)
        ensures
            r@ == self@,
    {
        WalletMeta {
            network: self.network.clone(),
            label: self.label.clone(),
            view_only: self.view_only,
            restore_height: self.restore_height,
            address: self.address.clone(),
        }
    }
}

impl WalletMeta {
    /// What is remembered, as a document.
    pub fn json(&self) -> (r: Json)
        ensures
            r@ == self@.json(),
    {
        Json::object()
            .with("network", Json::text(self.network.as_str()))
            .with("label", Json::text(self.label.as_str()))
            .with("viewOnly", Json::Bool(self.view_only))
            .with("restoreHeight", Json::Unsigned(self.restore_height))
            .with("address", Json::text(self.address.as_str()))
    }
}

/// The wallets by name.
pub struct Registry {
    wallets: OrderedMap<WalletMeta>,
}

/// What a stored list of wallets says of each name: of two with one name the later one counts.
pub open spec fn stored(wallets: Seq<(String, WalletMeta)>) -> Map<Seq<char>, WalletMetaView>
    decreases wallets.len(),
{
    if wallets.len() == 0 {
        Map::empty()
    } else {
        stored(wallets.drop_last()).insert(wallets.last().0@, wallets.last().1@)
    }
}

/// The document that lists `wallets`, in the order of `names`.
pub open spec fn listing(
    names: Seq<Seq<char>>,
    wallets: Map<Seq<char>, WalletMetaView>,
) -> Seq<JsonView> {
    names.map_values(
        |name: Seq<char>| wallets[name].json().with("name"@, JsonView::Text(name)),
    )
}

impl View for Registry {
    type V = Map<Seq<char>, WalletMetaView>;

    closed spec fn view(&self) -> Map<Seq<char>, WalletMetaView> {
        self.wallets@
    }
}

impl Registry {
    /// The names of the wallets, in the order in which they are listed.
    pub closed spec fn order(&self) -> Seq<Seq<char>> {
        self.wallets.names()
    }

    /// The wallets are listed by name, each once.
    pub open spec fn wf(&self) -> bool {
        lists(self.order(), self@)
    }

    /// The registry of the wallets that were stored; without any it is empty.
    pub fn new(wallets: Option<Vec<(String, WalletMeta)>>) -> (r: Self)
        ensures
            r.wf(),
            r@ == match wallets {
                Some(all) => stored(all@),
                None => Map::empty(),
            },
    {
        let mut r = Registry { wallets: OrderedMap::new() };
        if let Some(all) = wallets {
            let ghost given = all@;
            assert(given.take(0) =~= Seq::<(String, WalletMeta)>::empty());
            for wallet in it: all
                invariant
                    it.seq() == given,
                    r.wf(),
                    r@ == stored(given.take(it.index() as int)),
            {
                assert(given.take(it.index() + 1).drop_last() =~= given.take(it.index() as int));
                let (name, meta) = wallet;
                r.wallets.insert(name.as_str(), meta);
            }
            assert(given.take(given.len() as int) =~= given);
        }
        r
    }

    /// The wallets as they are to be stored.
    pub fn entries(&self) -> (r: Vec<(String, WalletMeta)>)
        requires
            self.wf(),
        ensures
            stored(r@) == self@,
            r@.len() == self.order().len(),
            forall|i: int| 0 <= i < r@.len() ==> (#[trigger] r@[i]).0@ == self.order()[i],
    {
        let mut r: Vec<(String, WalletMeta)> = Vec::new();
        let mut i: usize = 0;
        let ghost order = self.order();
        while i < self.wallets.len()
            invariant
                self.wf(),
                order == self.order(),
                i <= order.len(),
                r@.len() == i,
                forall|j: int| 0 <= j < i ==> (#[trigger] r@[j]).0@ == order[j],
                forall|j: int| 0 <= j < i ==> (#[trigger] r@[j]).1@ == self@[order[j]],
            decreases order.len() - i,
        {
            let name = self.wallets.name_at(i).to_owned();
            let meta = self.wallets.value_at(i).clone();
            r.push((name, meta));
            i += 1;
        }
        proof {
            stored_listing(r@, order, self@);
        }
        r
    }

    /// What is remembered of the wallet `name`.
    pub fn get(&self, name: &str) -> (r: Option<&WalletMeta>)
        requires
            self.wf(),
        ensures
            match r {
                Some(meta) => self@.contains_key(name@) && meta@ == self@[name@],
                None => !self@.contains_key(name@),
            },
    {
        self.wallets.get(name)
    }

    /// The names of the wallets, in order.
    pub fn names(&self) -> (r: Vec<String>)
        requires
            self.wf(),
        ensures
            names_of(r@) == self.order(),
            lists(names_of(r@), self@),
    {
        let mut r: Vec<String> = Vec::new();
        let mut i: usize = 0;
        let ghost order = self.order();
        while i < self.wallets.len()
            invariant
                order == self.order(),
                i <= order.len(),
                r@.len() == i,
                forall|j: int| 0 <= j < i ==> (#[trigger] r@[j])@ == order[j],
            decreases order.len() - i,
        {
            r.push(self.wallets.name_at(i).to_owned());
            i += 1;
        }
        assert(names_of(r@) =~= order);
        r
    }

    /// Remembers `meta` of the wallet `name`, in place of what was remembered before.
    pub fn upsert(&mut self, name: &str, meta: WalletMeta)
        requires
            old(self).wf(),
        ensures
            final(self).wf(),
            final(self)@ == old(self)@.insert(name@, meta@),
    {
        self.wallets.insert(name, meta);
    }

    /// Forgets the wallet `name`; says whether it was remembered.
    pub fn remove(&mut self, name: &str) -> (r: bool)
        requires
            old(self).wf(),
        ensures
            final(self).wf(),
            r == old(self)@.contains_key(name@),
            final(self)@ == old(self)@.remove(name@),
    {
        self.wallets.remove(name)
    }

    /// The wallets as a document, in the order of their names.
    pub fn list_json(&self) -> (r: Json)
        requires
            self.wf(),
        ensures
            r@ == JsonView::List(listing(self.order(), self@)),
    {
        let mut all: Vec<Json> = Vec::new();
        let mut i: usize = 0;
        let ghost order = self.order();
        while i < self.wallets.len()
            invariant
                self.wf(),
                order == self.order(),
                i <= order.len(),
                list_view(all@) == listing(order.take(i as int), self@),
            decreases order.len() - i,
        {
            let ghost before = all@;
            let meta = self.wallets.value_at(i);
            let name = self.wallets.name_at(i);
            let entry = meta.json().with("name", Json::text(name));
            all.push(entry);
            assert(all@.drop_last() =~= before);
            assert(order.take(i + 1) =~= order.take(i as int).push(order[i as int]));
            assert(listing(order.take(i + 1), self@) =~= listing(order.take(i as int), self@).push(
                json_of_entry(order[i as int], self@),
            ));
            i += 1;
        }
        assert(order.take(i as int) =~= order);
        Json::List(all)
    }
}

/// One entry of the listing.
spec fn json_of_entry(name: Seq<char>, wallets: Map<Seq<char>, WalletMetaView>) -> JsonView {
    wallets[name].json().with("name"@, JsonView::Text(name))
}

/// Storing every wallet of a registry stores the registry.
proof fn stored_listing(
    wallets: Seq<(String, WalletMeta)>,
    order: Seq<Seq<char>>,
    map: Map<Seq<char>, WalletMetaView>,
)
    requires
        lists(order, map),
        wallets.len() == order.len(),
        forall|j: int| 0 <= j < wallets.len() ==> (#[trigger] wallets[j]).0@ == order[j],
        forall|j: int| 0 <= j < wallets.len() ==> (#[trigger] wallets[j]).1@ == map[order[j]],
    ensures
        stored(wallets) == map,
{
    stored_says(wallets, order, map);
    let s = stored(wallets);
    assert forall|name: Seq<char>| s.dom().contains(name) == map.dom().contains(name) by {
        assert(order.contains(name) <==> map.contains_key(name));
    }
    assert(s =~= map);
}

proof fn stored_says(
    wallets: Seq<(String, WalletMeta)>,
    order: Seq<Seq<char>>,
    map: Map<Seq<char>, WalletMetaView>,
)
    requires
        wallets.len() == order.len(),
        forall|j: int| 0 <= j < wallets.len() ==> (#[trigger] wallets[j]).0@ == order[j],
        forall|j: int| 0 <= j < wallets.len() ==> (#[trigger] wallets[j]).1@ == map[order[j]],
    ensures
        forall|name: Seq<char>| #[trigger] stored(wallets).contains_key(name) <==> order.contains(name),
        forall|name: Seq<char>| #[trigger] stored(wallets).contains_key(name) ==> stored(wallets)[name] == map[name],
    decreases wallets.len(),
{
    if wallets.len() > 0 {
        let rest = wallets.drop_last();
        let names = order.drop_last();
        assert forall|j: int| 0 <= j < rest.len() implies (#[trigger] rest[j]).0@ == names[j] && rest[j].1@
            == map[names[j]] by {
            assert(rest[j] == wallets[j]);
        }
        stored_says(rest, names, map);
        let last = wallets[wallets.len() - 1];
        assert(last.0@ == order.last());
        assert forall|name: Seq<char>| #[trigger] stored(wallets).contains_key(name) <==> order.contains(name) by {
            assert(stored(rest).contains_key(name) <==> names.contains(name));
            if order.contains(name) {
                let k = choose|k: int| 0 <= k < order.len() && order[k] == name;
                if k < names.len() {
                    assert(names[k] == name);
                }
            }
            if names.contains(name) {
                let k = choose|k: int| 0 <= k < names.len() && names[k] == name;
                assert(order[k] == name);
            }
            assert(order[order.len() - 1] == order.last());
        }
        assert forall|name: Seq<char>| #[trigger] stored(wallets).contains_key(name) implies stored(wallets)[name] == map[name] by {
            assert(stored(rest).contains_key(name) ==> stored(rest)[name] == map[name]);
        }
    }
}

// ---------------------------------------------------------------------------------------------
// Laws
// ---------------------------------------------------------------------------------------------

/// Law: a registry that was stored and read again is the same registry, listed alike.
pub proof fn storing_round_trips(before: Registry, entries: Seq<(String, WalletMeta)>, after: Registry)
    requires
        before.wf(),
        stored(entries) == before@,
        after.wf(),
        after@ == stored(entries),
    ensures
        after@ == before@,
        after.order() == before.order(),
        listing(after.order(), after@) == listing(before.order(), before@),
{
    one_list(after.order(), before.order(), before@);
}

/// Law: what is told of a wallet is its name, its network, its label, whether it can only be
/// looked at, its restore height and its address: no field of it is a password, a seed or a key.
pub proof fn nothing_secret_is_told(meta: WalletMetaView, name: Seq<char>, field: Seq<char>)
    ensures
        meta.json().with("name"@, JsonView::Text(name)).get(field) is Some ==> {
            ||| field == "name"@
            ||| field == "network"@
            ||| field == "label"@
            ||| field == "viewOnly"@
            ||| field == "restoreHeight"@
            ||| field == "address"@
        },
{
}

/// Law: what is told of a wallet is what is remembered of it, and its name.
pub proof fn what_is_told_of_a_wallet(meta: WalletMetaView, name: Seq<char>)
    ensures
        meta.json().get("network"@) == Some(JsonView::Text(meta.network)),
        meta.json().get("label"@) == Some(JsonView::Text(meta.label)),
        meta.json().get("viewOnly"@) == Some(JsonView::Bool(meta.view_only)),
        meta.json().get("restoreHeight"@) == Some(JsonView::Unsigned(meta.restore_height)),
        meta.json().get("address"@) == Some(JsonView::Text(meta.address)),
        meta.json() is Object,
{
    reveal_strlit("network");
    reveal_strlit("label");
    reveal_strlit("viewOnly");
    reveal_strlit("restoreHeight");
    reveal_strlit("address");
    reveal_strlit("name");
    assert("network"@.len() == 7);
    assert("label"@.len() == 5);
    assert("viewOnly"@.len() == 8);
    assert("restoreHeight"@.len() == 13);
    assert("address"@.len() == 7);
    assert("name"@.len() == 4);
    assert("network"@[0] != "address"@[0]);
}

/// Law: every wallet is listed once, in the order of the names, with its name and with all that is
/// remembered of it.
pub proof fn every_wallet_is_listed(
    names: Seq<Seq<char>>,
    wallets: Map<Seq<char>, WalletMetaView>,
    i: int,
)
    requires
        0 <= i < names.len(),
    ensures
        listing(names, wallets).len() == names.len(),
        ({
            let told = listing(names, wallets)[i];
            let meta = wallets[names[i]];
            &&& told.get("name"@) == Some(JsonView::Text(names[i]))
            &&& told.get("network"@) == Some(JsonView::Text(meta.network))
            &&& told.get("label"@) == Some(JsonView::Text(meta.label))
            &&& told.get("viewOnly"@) == Some(JsonView::Bool(meta.view_only))
            &&& told.get("restoreHeight"@) == Some(JsonView::Unsigned(meta.restore_height))
            &&& told.get("address"@) == Some(JsonView::Text(meta.address))
        }),
{
    what_is_told_of_a_wallet(wallets[names[i]], names[i]);
    reveal_strlit("network");
    reveal_strlit("label");
    reveal_strlit("viewOnly");
    reveal_strlit("restoreHeight");
    reveal_strlit("address");
    reveal_strlit("name");
    assert("network"@.len() == 7);
    assert("label"@.len() == 5);
    assert("viewOnly"@.len() == 8);
    assert("restoreHeight"@.len() == 13);
    assert("address"@.len() == 7);
    assert("name"@.len() == 4);
    assert("network"@[0] != "address"@[0]);
}

/// Law: the registry remembers just the wallets that were stored, each as the last of its name was
/// stored.
pub proof fn the_last_stored_counts(wallets: Seq<(String, WalletMeta)>, i: int, name: Seq<char>)
    ensures
        stored(wallets).contains_key(name) <==> exists|k: int|
            0 <= k < wallets.len() && (#[trigger] wallets[k]).0@ == name,
        0 <= i < wallets.len() && (forall|j: int|
            i < j < wallets.len() ==> (#[trigger] wallets[j]).0@ != wallets[i].0@)
            ==> stored(wallets)[wallets[i].0@] == wallets[i].1@,
    decreases wallets.len(),
{
    if wallets.len() > 0 {
        let rest = wallets.drop_last();
        the_last_stored_counts(rest, i, name);
        if exists|k: int| 0 <= k < wallets.len() && (#[trigger] wallets[k]).0@ == name {
            let k = choose|k: int| 0 <= k < wallets.len() && (#[trigger] wallets[k]).0@ == name;
            if k < rest.len() {
                assert(rest[k].0@ == name);
            }
        }
        if exists|k: int| 0 <= k < rest.len() && (#[trigger] rest[k]).0@ == name {
            let k = choose|k: int| 0 <= k < rest.len() && (#[trigger] rest[k]).0@ == name;
            assert(wallets[k].0@ == name);
        }
        assert(wallets[wallets.len() - 1] == wallets.last());
        if 0 <= i < rest.len() && (forall|j: int|
            i < j < wallets.len() ==> (#[trigger] wallets[j]).0@ != wallets[i].0@) {
            assert forall|j: int| i < j < rest.len() implies (#[trigger] rest[j]).0@ != rest[i].0@ by {
                assert(rest[j] == wallets[j]);
            }
            assert(rest[i] == wallets[i]);
            assert(wallets[wallets.len() - 1].0@ != wallets[i].0@);
        }
    }
}

/// Law: of a wallet of which nothing is known nothing is remembered.
pub proof fn a_blank_wallet_is_blank()
    ensures
        WalletMetaView::blank().network.len() == 0,
        WalletMetaView::blank().label.len() == 0,
        WalletMetaView::blank().address.len() == 0,
        WalletMetaView::blank().restore_height == 0,
        !WalletMetaView::blank().view_only,
{
}

/// Law: what a wallet's meta says is what it holds.
pub proof fn what_a_meta_says(meta: WalletMeta)
    ensures
        meta@.network == meta.network@,
        meta@.label == meta.label@,
        meta@.view_only == meta.view_only,
        meta@.restore_height == meta.restore_height,
        meta@.address == meta.address@,
{
}

} // verus!
