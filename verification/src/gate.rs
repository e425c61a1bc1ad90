//! Who may do what, as a function of the caller. A role is a set of module names; an empty set
//! admits nobody; the host anchor is always refused; and a method that no list names is refused
//! outright, so that a typo fails closed.

use vstd::prelude::*;

use crate::json::{fields_view, json_of_text, list_view, list_view_index, list_view_len, Json, JsonView};
use crate::text::{among, held, is_among, is_before, names_of, precedes, precedes_irreflexive, precedes_total, precedes_transitive, same, trim, trimmed};

verus! {

/// The custodian by default: the surface that takes the wallet password and shows a seed.
pub const DEFAULT_CUSTODIAN: &'static str = "monero_wallet_ui";

/// The approver by default: the surface that reviews a built transaction and broadcasts it.
pub const DEFAULT_APPROVER: &'static str = "monero_wallet_ui";

/// Who calls.
#[derive(Clone, Debug, PartialEq, Eq)]
pub enum Caller {
    Unknown,
    HostAnchor,
    Module(String),
    Derived { parent: String, leaf: String },
    Operator(String),
}

impl Caller {
    /// The name of a plainly named module.
    pub open spec fn name(&self) -> Option<Seq<char>> {
        match self {
            Caller::Module(n) => Some(n@),
            _ => None,
        }
    }

    /// Whether this is the module `name`.
    pub fn is_module(&self, name: &str) -> (r: bool)
        ensures
            r == (self.name() == Some(name@)),
    {
        match self {
            Caller::Module(n) => same(n.as_str(), name),
            _ => false,
        }
    }

    /// Only a plainly named module has a name that a request can be recorded against.
    pub fn named(&self) -> (r: Option<&str>)
        ensures
            held(r) == self.name(),
    {
        match self {
            Caller::Module(n) => Some(n.as_str()),
            _ => None,
        }
    }
}

/// The holders of each role.
#[derive(Clone, Debug, PartialEq, Eq)]
pub struct Roles {
    pub approvers: Vec<String>,
    pub custodians: Vec<String>,
}

impl Default for Roles {
    fn default() -> (r: Self)
        ensures
            names_of(r.approvers@) == seq![DEFAULT_APPROVER@],
            names_of(r.custodians@) == seq![DEFAULT_CUSTODIAN@],
    {
        let mut approvers: Vec<String> = Vec::new();
        approvers.push(DEFAULT_APPROVER.to_owned());
        let mut custodians: Vec<String> = Vec::new();
        custodians.push(DEFAULT_CUSTODIAN.to_owned());
        assert(names_of(approvers@) =~= seq![DEFAULT_APPROVER@]);
        assert(names_of(custodians@) =~= seq![DEFAULT_CUSTODIAN@]);
        Roles { approvers, custodians }
    }
}

// ---------------------------------------------------------------------------------------------
// The roles document
// ---------------------------------------------------------------------------------------------

/// One role's holders as a document gives them: a bare name or a list.
pub enum RoleWire {
    One(String),
    Many(Vec<String>),
}

/// The holders that a list of names makes: trimmed, without empty ones, each once, the first
/// mention first.
pub open spec fn holders(raw: Seq<Seq<char>>) -> Seq<Seq<char>>
    decreases raw.len(),
{
    if raw.len() == 0 {
        Seq::empty()
    } else {
        let before = holders(raw.drop_last());
        let name = trimmed(raw.last());
        if name.len() > 0 && !before.contains(name) {
            before.push(name)
        } else {
            before
        }
    }
}

impl Default for RoleWire {
    fn default() -> (r: Self)
        ensures
            r.names() == Seq::<Seq<char>>::empty(),
    {
        let none: Vec<String> = Vec::new();
        assert(names_of(none@) =~= Seq::<Seq<char>>::empty());
        RoleWire::Many(none)
    }
}

impl RoleWire {
    /// The names as they were given.
    pub open spec fn names(&self) -> Seq<Seq<char>> {
        match self {
            RoleWire::One(s) => seq![s@],
            RoleWire::Many(v) => names_of(v@),
        }
    }

    /// The holders that the names make.
    pub fn into_holders(self) -> (r: Vec<String>)
        ensures
            names_of(r@) == holders(self.names()),
    {
        let raw: Vec<String> = match self {
            RoleWire::One(s) => {
                let mut one: Vec<String> = Vec::new();
                one.push(s);
                one
            },
            RoleWire::Many(v) => v,
        };
        let ghost given = names_of(raw@);
        assert(given =~= self.names());
        let mut out: Vec<String> = Vec::new();
        assert(names_of(out@) =~= holders(given.take(0)));
        let mut i: usize = 0;
        while i < raw.len()
            invariant
                i <= raw@.len(),
                given == names_of(raw@),
                names_of(out@) == holders(given.take(i as int)),
            decreases raw@.len() - i,
        {
            let name = trim(raw[i].as_str());
            let ghost before = out@;
            assert(given.take(i + 1).drop_last() =~= given.take(i as int));
            assert(given.take(i + 1).last() == raw@[i as int]@);
            let there = contains_name(&out, name.as_str());
            if !name.as_str().is_empty() && !there {
                let ghost n = name@;
                out.push(name);
                assert(names_of(out@) =~= names_of(before).push(n));
            }
            i += 1;
        }
        assert(given.take(i as int) =~= given);
        out
    }
}

/// Whether `name` is one of `names`.
fn contains_name(names: &Vec<String>, name: &str) -> (r: bool)
    ensures
        r == names_of(names@).contains(name@),
{
    let mut i: usize = 0;
    while i < names.len()
        invariant
            i <= names@.len(),
            forall|j: int| 0 <= j < i ==> (#[trigger] names@[j])@ != name@,
        decreases names@.len() - i,
    {
        if same(names[i].as_str(), name) {
            assert(names_of(names@)[i as int] == name@);
            return true;
        }
        i += 1;
    }
    proof {
        if names_of(names@).contains(name@) {
            let j = choose|j: int| 0 <= j < names@.len() && names_of(names@)[j] == name@;
            assert(names@[j]@ == name@);
        }
    }
    false
}

/// The names that the value of a role gives: one text, or a list of texts.
pub open spec fn role_names(value: JsonView) -> Option<Seq<Seq<char>>> {
    match value {
        JsonView::Text(s) => Some(seq![s]),
        JsonView::List(items) => if forall|i: int| 0 <= i < items.len() ==> (#[trigger] items[i]) is Text {
            Some(items.map_values(|item: JsonView| item->Text_0))
        } else {
            None
        },
        _ => None,
    }
}

/// A field that a roles document may have.
pub open spec fn is_role(name: Seq<char>) -> bool {
    name == "approvers"@ || name == "custodians"@
}

/// The field `name` of the document is as it should be.
pub open spec fn role_field_ok(document: Map<Seq<char>, JsonView>, name: Seq<char>) -> bool {
    is_role(name) && role_names(document[name]) is Some
}

/// `name` is the first field, in order, that is not as it should be.
pub open spec fn is_first_bad_field(document: Map<Seq<char>, JsonView>, name: Seq<char>) -> bool {
    &&& document.contains_key(name)
    &&& !role_field_ok(document, name)
    &&& forall|other: Seq<char>| #[trigger] document.contains_key(other) && precedes(other, name) ==> role_field_ok(document, other)
}

/// What is said of a field that is not as it should be.
pub open spec fn bad_field_words(name: Seq<char>) -> Seq<char> {
    if is_role(name) {
        "bad roles document: data did not match any variant of untagged enum RoleWire"@
    } else {
        "bad roles document: unknown field `"@ + name + "`, expected `approvers` or `custodians`"@
    }
}

/// The holders of a role that a document names; of one that it does not name, nobody.
pub open spec fn role_holders(document: Map<Seq<char>, JsonView>, role: Seq<char>) -> Seq<Seq<char>> {
    if document.contains_key(role) {
        holders(role_names(document[role])->0)
    } else {
        Seq::empty()
    }
}

/// A document that is an object with no field but roles, each given as it should be.
pub open spec fn is_roles_document(document: JsonView) -> bool {
    &&& document is Object
    &&& forall|name: Seq<char>| #[trigger] document->Object_0.contains_key(name) ==> role_field_ok(document->Object_0, name)
}

/// What becomes of the roles when a document is applied: a good one replaces both, any other is
/// refused and the roles in force stay.
pub open spec fn applied(document: JsonView, before: Roles, after: Roles, r: Result<(), String>) -> bool {
    if document !is Object {
        &&& after == before
        &&& r matches Err(words)
        &&& words@ == "roles document must be an object"@
    } else if is_roles_document(document) {
        &&& r is Ok
        &&& names_of(after.approvers@) == role_holders(document->Object_0, "approvers"@)
        &&& names_of(after.custodians@) == role_holders(document->Object_0, "custodians"@)
    } else {
        &&& after == before
        &&& r matches Err(words)
        &&& exists|name: Seq<char>| #[trigger] is_first_bad_field(document->Object_0, name) && words@ == bad_field_words(name)
    }
}

/// The value of a role, read.
fn read_role(value: &Json) -> (r: Option<RoleWire>)
    ensures
        match r {
            Some(wire) => role_names(value@) == Some(wire.names()),
            None => role_names(value@) is None,
        },
{
    match value {
        Json::Text(s) => Some(RoleWire::One(s.clone())),
        Json::List(items) => {
            let mut names: Vec<String> = Vec::new();
            let mut i: usize = 0;
            let ghost views = list_view(items@);
            proof {
                list_view_len(items@);
            }
            while i < items.len()
                invariant
                    i <= items@.len(),
                    views == list_view(items@),
                    views.len() == items@.len(),
                    names@.len() == i,
                    forall|j: int| 0 <= j < i ==> (#[trigger] views[j]) is Text,
                    forall|j: int| 0 <= j < i ==> views[j]->Text_0 == (#[trigger] names@[j])@,
                    value@ == JsonView::List(views),
                decreases items@.len() - i,
            {
                proof {
                    list_view_index(items@, i as int);
                }
                match &items[i] {
                    Json::Text(s) => {
                        names.push(s.clone());
                    },
                    _ => {
                        assert(!(views[i as int] is Text));
                        return None;
                    },
                }
                i += 1;
            }
            assert(names_of(names@) =~= views.map_values(|item: JsonView| item->Text_0));
            Some(RoleWire::Many(names))
        },
        _ => None,
    }
}

/// Whether a field may stand in a roles document and is given as it should be.
fn field_ok(name: &str, value: &Json) -> (r: bool)
    ensures
        r == (is_role(name@) && role_names(value@) is Some),
{
    if same(name, "approvers") || same(name, "custodians") {
        match read_role(value) {
            Some(_) => true,
            None => false,
        }
    } else {
        false
    }
}

/// A name that a value has for a field is the name of one of its entries.
proof fn field_has_entry(fields: Seq<(String, Json)>, name: Seq<char>)
    requires
        fields_view(fields).contains_key(name),
    ensures
        exists|i: int| 0 <= i < fields.len() && (#[trigger] fields[i]).0@ == name,
    decreases fields.len(),
{
    if fields.len() > 0 {
        if fields.last().0@ == name {
            assert(fields[fields.len() - 1].0@ == name);
        } else {
            field_has_entry(fields.drop_last(), name);
            let i = choose|i: int|
                0 <= i < fields.drop_last().len() && (#[trigger] fields.drop_last()[i]).0@ == name;
            assert(fields[i].0@ == name);
        }
    }
}

/// The name of an entry is a name of the value.
proof fn entry_is_field(fields: Seq<(String, Json)>, i: int)
    requires
        0 <= i < fields.len(),
    ensures
        fields_view(fields).contains_key(fields[i].0@),
    decreases fields.len(),
{
    if i < fields.len() - 1 {
        entry_is_field(fields.drop_last(), i);
    }
}

impl Roles {
    /// Replaces both roles from a document: `{ approvers?, custodians? }`. Total, not a patch: a
    /// role the document does not name is held by nobody. A document that is not as it should be
    /// is refused, and the roles in force stay.
    pub fn configure(&mut self, config_json: &str) -> (r: Result<(), String>)
        ensures
            match json_of_text(config_json@) {
                Ok(document) => applied(document, *old(self), *final(self), r),
                Err(why) => {
                    &&& *final(self) == *old(self)
                    &&& r matches Err(words)
                    &&& words@ == "bad roles document: "@ + why
                },
            },
    {
        match Json::parse(config_json) {
            Err(why) => {
                let mut words = "bad roles document: ".to_owned();
                words.append(why.as_str());
                Err(words)
            },
            Ok(document) => self.apply(&document),
        }
    }

    /// Replaces both roles from a document that was read.
    pub fn apply(&mut self, document: &Json) -> (r: Result<(), String>)
        ensures
            applied(document@, *old(self), *final(self), r),
    {
        let fields = match document {
            Json::Object(fields) => fields,
            _ => {
                return Err("roles document must be an object".to_owned());
            },
        };
        let ghost map = fields_view(fields@);
        let mut bad: Option<usize> = None;
        let mut i: usize = 0;
        while i < fields.len()
            invariant
                i <= fields@.len(),
                *document == Json::Object(*fields),
                map == fields_view(fields@),
                bad matches Some(b) ==> b < fields@.len() && map.contains_key(fields@[b as int].0@) && !role_field_ok(map, fields@[b as int].0@),
                forall|j: int| 0 <= j < i && !role_field_ok(map, (#[trigger] fields@[j]).0@) ==> bad is Some && !precedes(fields@[j].0@, fields@[bad->0 as int].0@),
            decreases fields@.len() - i,
        {
            let name = fields[i].0.as_str();
            proof {
                entry_is_field(fields@, i as int);
            }
            let ok = match document.get(name) {
                Some(value) => field_ok(name, value),
                None => true,
            };
            assert(ok == role_field_ok(map, name@));
            if !ok {
                let better = match bad {
                    Some(b) => is_before(name, fields[b].0.as_str()),
                    None => true,
                };
                if better {
                    proof {
                        precedes_irreflexive(name@);
                        if bad is Some {
                            let old_name = fields@[bad->0 as int].0@;
                            assert forall|j: int| 0 <= j < i && !role_field_ok(map, (#[trigger] fields@[j]).0@) implies !precedes(fields@[j].0@, name@) by {
                                if precedes(fields@[j].0@, name@) {
                                    precedes_transitive(fields@[j].0@, name@, old_name);
                                }
                            }
                        }
                    }
                    bad = Some(i);
                }
            }
            i += 1;
        }
        match bad {
            Some(b) => {
                let name = fields[b].0.as_str();
                proof {
                    assert forall|other: Seq<char>| #[trigger] map.contains_key(other) && precedes(other, name@) implies role_field_ok(map, other) by {
                        field_has_entry(fields@, other);
                        let j = choose|j: int| 0 <= j < fields@.len() && (#[trigger] fields@[j]).0@ == other;
                        assert(fields@[j].0@ == other);
                    }
                    assert(is_first_bad_field(map, name@));
                    assert(document@->Object_0 == map);
                    assert(!is_roles_document(document@));
                }
                if same(name, "approvers") || same(name, "custodians") {
                    Err("bad roles document: data did not match any variant of untagged enum RoleWire".to_owned())
                } else {
                    let mut words = "bad roles document: unknown field `".to_owned();
                    words.append(name);
                    words.append("`, expected `approvers` or `custodians`");
                    Err(words)
                }
            },
            None => {
                assert forall|name: Seq<char>| #[trigger] map.contains_key(name) implies role_field_ok(map, name) by {
                    field_has_entry(fields@, name);
                    let j = choose|j: int| 0 <= j < fields@.len() && (#[trigger] fields@[j]).0@ == name;
                    assert(fields@[j].0@ == name);
                }
                self.approvers = Self::holders_in(document, "approvers");
                self.custodians = Self::holders_in(document, "custodians");
                Ok(())
            },
        }
    }

    /// The holders of `role` in a good document.
    fn holders_in(document: &Json, role: &str) -> (r: Vec<String>)
        requires
            document@ is Object,
            document@->Object_0.contains_key(role@) ==> role_names(document@->Object_0[role@]) is Some,
        ensures
            names_of(r@) == role_holders(document@->Object_0, role@),
    {
        let wire = match document.get(role) {
            Some(value) => match read_role(value) {
                Some(wire) => wire,
                None => RoleWire::default(),
            },
            None => RoleWire::default(),
        };
        wire.into_holders()
    }
}

// ---------------------------------------------------------------------------------------------
// Admission
// ---------------------------------------------------------------------------------------------

/// `caller` is the module `holder`, and `holder` is a name at all.
pub open spec fn holds(holder: Seq<char>, caller: Caller) -> bool {
    holder.len() > 0 && caller.name() == Some(holder)
}

/// `caller` is one of `holders`.
pub open spec fn holds_any(holders: Seq<Seq<char>>, caller: Caller) -> bool {
    exists|i: int| 0 <= i < holders.len() && holds(#[trigger] holders[i], caller)
}

/// Whether `caller` is the module `role_holder`; an empty name is nobody's.
pub fn holds_role(role_holder: &str, caller: &Caller) -> (r: bool)
    ensures
        r == holds(role_holder@, *caller),
{
    !role_holder.is_empty() && caller.is_module(role_holder)
}

/// Whether `caller` is one of `role_holders`. An empty set admits nobody.
pub fn holds_any_role(role_holders: &[String], caller: &Caller) -> (r: bool)
    ensures
        r == holds_any(names_of(role_holders@), *caller),
{
    let ghost names = names_of(role_holders@);
    let mut i: usize = 0;
    while i < role_holders.len()
        invariant
            i <= role_holders@.len(),
            names == names_of(role_holders@),
            forall|j: int| 0 <= j < i ==> !holds(#[trigger] names[j], *caller),
        decreases role_holders@.len() - i,
    {
        assert(names[i as int] == role_holders@[i as int]@);
        if holds_role(role_holders[i].as_str(), caller) {
            return true;
        }
        i += 1;
    }
    false
}

/// For custodians only: everything that takes or reveals the wallet password or a key, and the
/// network and the node, which decide what a wallet talks to.
pub const CUSTODIAN_METHODS: [&'static str; 9] = [
    "open_wallet",
    "create_wallet",
    "restore_from_seed",
    "restore_from_keys",
    "change_password",
    "reveal_seed",
    "reveal_view_key",
    "set_active_network",
    "set_node_config",
];

/// For approvers only: the one decision that moves money. It governs broadcast; the engine signed
/// when it built the transaction.
pub const APPROVER_METHODS: [&'static str; 1] = ["confirm_send"];

/// For either role: ending the session.
pub const SESSION_METHODS: [&'static str; 1] = ["close_wallet"];

/// A custodian calls a custodian's method.
pub open spec fn custodian_may(method: Seq<char>, custodians: Seq<Seq<char>>, caller: Caller) -> bool {
    among(method, CUSTODIAN_METHODS@) && holds_any(custodians, caller)
}

/// An approver calls an approver's method.
pub open spec fn approver_may(method: Seq<char>, approvers: Seq<Seq<char>>, caller: Caller) -> bool {
    among(method, APPROVER_METHODS@) && holds_any(approvers, caller)
}

/// A holder of either role calls a session method.
pub open spec fn session_may(method: Seq<char>, roles: Roles, caller: Caller) -> bool {
    among(method, SESSION_METHODS@) && (holds_any(names_of(roles.custodians@), caller) || holds_any(
        names_of(roles.approvers@),
        caller,
    ))
}

/// Whether a custodian calls a custodian's method.
pub fn custodian_admits(method: &str, custodians: &[String], caller: &Caller) -> (r: bool)
    ensures
        r == custodian_may(method@, names_of(custodians@), *caller),
{
    is_among(method, &CUSTODIAN_METHODS) && holds_any_role(custodians, caller)
}

/// Whether an approver calls an approver's method.
pub fn approver_admits(method: &str, approvers: &[String], caller: &Caller) -> (r: bool)
    ensures
        r == approver_may(method@, names_of(approvers@), *caller),
{
    is_among(method, &APPROVER_METHODS) && holds_any_role(approvers, caller)
}

/// Whether a holder of either role calls a session method.
pub fn session_admits(method: &str, roles: &Roles, caller: &Caller) -> (r: bool)
    ensures
        r == session_may(method@, *roles, *caller),
{
    is_among(method, &SESSION_METHODS) && (holds_any_role(&roles.custodians, caller)
        || holds_any_role(&roles.approvers, caller))
}

/// Whether the caller may ask for a send to be built, or withdraw one: any named module. Never
/// the host anchor.
pub fn requester_admits(caller: &Caller) -> (r: bool)
    ensures
        r == (caller.name() is Some),
{
    match caller.named() {
        Some(_) => true,
        None => false,
    }
}

// ---------------------------------------------------------------------------------------------
// Laws
// ---------------------------------------------------------------------------------------------

/// Law: whoever is not a plainly named module, the host anchor first of all, is refused
/// everywhere, however the roles are set.
pub proof fn the_unnamed_are_refused(method: Seq<char>, roles: Roles, caller: Caller)
    requires
        caller !is Module,
    ensures
        !custodian_may(method, names_of(roles.custodians@), caller),
        !approver_may(method, names_of(roles.approvers@), caller),
        !session_may(method, roles, caller),
        caller.name() is None,
{
}

/// Law: a role that nobody holds admits nobody.
pub proof fn an_empty_role_admits_nobody(method: Seq<char>, caller: Caller)
    ensures
        !custodian_may(method, Seq::empty(), caller),
        !approver_may(method, Seq::empty(), caller),
{
}

/// Law: a method that no list names is refused, even for the holder of every role.
pub proof fn an_unlisted_method_is_refused(method: Seq<char>, roles: Roles, caller: Caller)
    requires
        !among(method, CUSTODIAN_METHODS@),
        !among(method, APPROVER_METHODS@),
        !among(method, SESSION_METHODS@),
    ensures
        !custodian_may(method, names_of(roles.custodians@), caller),
        !approver_may(method, names_of(roles.approvers@), caller),
        !session_may(method, roles, caller),
{
}

/// Law: no method is on two lists.
pub proof fn the_lists_do_not_overlap(method: Seq<char>)
    ensures
        !(among(method, CUSTODIAN_METHODS@) && among(method, APPROVER_METHODS@)),
        !(among(method, CUSTODIAN_METHODS@) && among(method, SESSION_METHODS@)),
        !(among(method, APPROVER_METHODS@) && among(method, SESSION_METHODS@)),
{
    reveal_strlit("open_wallet");
    reveal_strlit("create_wallet");
    reveal_strlit("restore_from_seed");
    reveal_strlit("restore_from_keys");
    reveal_strlit("change_password");
    reveal_strlit("reveal_seed");
    reveal_strlit("reveal_view_key");
    reveal_strlit("set_active_network");
    reveal_strlit("set_node_config");
    reveal_strlit("confirm_send");
    reveal_strlit("close_wallet");
    if among(method, APPROVER_METHODS@) {
        assert(method.len() == 12 && method[1] == 'o' && method[2] == 'n');
    }
    if among(method, SESSION_METHODS@) {
        assert(method.len() == 12 && method[1] == 'l');
    }
    if among(method, CUSTODIAN_METHODS@) {
        let i = choose|i: int| 0 <= i < 9 && (#[trigger] CUSTODIAN_METHODS@[i])@ == method;
        assert(CUSTODIAN_METHODS@[i]@.len() != 12);
    }
}

/// Law: holders are a set of names: each once, none empty, and just those that were given, up to
/// the white space around them.
pub proof fn holders_are_a_set(raw: Seq<Seq<char>>)
    ensures
        holders(raw).no_duplicates(),
        forall|name: Seq<char>| #[trigger] holders(raw).contains(name) <==> name.len() > 0 && exists|i: int|
            0 <= i < raw.len() && trimmed(#[trigger] raw[i]) == name,
    decreases raw.len(),
{
    if raw.len() > 0 {
        let rest = raw.drop_last();
        holders_are_a_set(rest);
        let before = holders(rest);
        let last = trimmed(raw.last());
        let all = holders(raw);
        assert forall|name: Seq<char>| #[trigger] all.contains(name) <==> name.len() > 0 && exists|i: int|
            0 <= i < raw.len() && trimmed(#[trigger] raw[i]) == name by {
            if all.contains(name) {
                let k = choose|k: int| 0 <= k < all.len() && all[k] == name;
                if k < before.len() {
                    assert(before[k] == name);
                    assert(before.contains(name));
                    let i = choose|i: int| 0 <= i < rest.len() && trimmed(#[trigger] rest[i]) == name;
                    assert(raw[i] == rest[i]);
                } else {
                    assert(trimmed(raw[raw.len() - 1]) == name);
                }
            }
            if name.len() > 0 && exists|i: int| 0 <= i < raw.len() && trimmed(#[trigger] raw[i]) == name {
                let i = choose|i: int| 0 <= i < raw.len() && trimmed(#[trigger] raw[i]) == name;
                if i < rest.len() {
                    assert(rest[i] == raw[i]);
                    assert(before.contains(name));
                } else {
                    assert(name == last);
                }
                if before.contains(name) {
                    let k = choose|k: int| 0 <= k < before.len() && before[k] == name;
                    assert(all[k] == name);
                } else {
                    assert(all[before.len() as int] == name);
                }
            }
        }
    }
}

/// Law: configuring is total. What a good document leaves in force depends on it alone, not on
/// the roles before it, and a role that it does not name is held by nobody.
pub proof fn configuring_is_total(
    document: JsonView,
    before: Roles,
    after: Roles,
    r: Result<(), String>,
    other_before: Roles,
    other_after: Roles,
    other_r: Result<(), String>,
)
    requires
        is_roles_document(document),
        applied(document, before, after, r),
        applied(document, other_before, other_after, other_r),
    ensures
        names_of(after.approvers@) == names_of(other_after.approvers@),
        names_of(after.custodians@) == names_of(other_after.custodians@),
        !document->Object_0.contains_key("approvers"@) ==> after.approvers@.len() == 0,
        !document->Object_0.contains_key("custodians"@) ==> after.custodians@.len() == 0,
{
    assert(names_of(after.approvers@).len() == after.approvers@.len());
    assert(names_of(after.custodians@).len() == after.custodians@.len());
}

/// Law: a document that is refused leaves the roles in force, and one that is applied is a good
/// one.
pub proof fn a_refused_document_changes_nothing(
    document: JsonView,
    before: Roles,
    after: Roles,
    r: Result<(), String>,
)
    requires
        applied(document, before, after, r),
    ensures
        r is Err ==> after == before,
        r is Ok <==> is_roles_document(document),
{
}

/// Law: a document with a field that is no role is refused.
pub proof fn an_unknown_field_is_refused(
    document: JsonView,
    field: Seq<char>,
    before: Roles,
    after: Roles,
    r: Result<(), String>,
)
    requires
        document is Object,
        document->Object_0.contains_key(field),
        !is_role(field),
        applied(document, before, after, r),
    ensures
        r is Err,
        after == before,
{
}

/// Law: what is said of a refused document speaks of one field: there is one first bad one.
pub proof fn one_first_bad_field(document: Map<Seq<char>, JsonView>, a: Seq<char>, b: Seq<char>)
    requires
        is_first_bad_field(document, a),
        is_first_bad_field(document, b),
    ensures
        a == b,
{
    precedes_total(a, b);
}

/// Law: by default the one surface holds both roles, and every other caller neither.
pub proof fn by_default_one_surface_holds_both(method: Seq<char>, roles: Roles, caller: Caller)
    requires
        names_of(roles.approvers@) == seq![DEFAULT_APPROVER@],
        names_of(roles.custodians@) == seq![DEFAULT_CUSTODIAN@],
    ensures
        custodian_may(method, names_of(roles.custodians@), caller) <==> among(method, CUSTODIAN_METHODS@)
            && caller.name() == Some("monero_wallet_ui"@),
        approver_may(method, names_of(roles.approvers@), caller) <==> among(method, APPROVER_METHODS@)
            && caller.name() == Some("monero_wallet_ui"@),
        session_may(method, roles, caller) <==> among(method, SESSION_METHODS@) && caller.name()
            == Some("monero_wallet_ui"@),
{
    reveal_strlit("monero_wallet_ui");
    assert(names_of(roles.approvers@)[0] == "monero_wallet_ui"@);
    assert(names_of(roles.custodians@)[0] == "monero_wallet_ui"@);
}

/// Law: a named module is admitted to a role's methods just where the role names it.
pub proof fn a_role_admits_whom_it_names(
    method: Seq<char>,
    holders: Seq<Seq<char>>,
    roles: Roles,
    name: String,
)
    ensures
        Caller::Module(name).name() == Some(name@),
        custodian_may(method, holders, Caller::Module(name)) <==> among(method, CUSTODIAN_METHODS@)
            && name@.len() > 0 && holders.contains(name@),
        approver_may(method, holders, Caller::Module(name)) <==> among(method, APPROVER_METHODS@)
            && name@.len() > 0 && holders.contains(name@),
        session_may(method, roles, Caller::Module(name)) <==> among(method, SESSION_METHODS@)
            && name@.len() > 0 && (names_of(roles.custodians@).contains(name@) || names_of(
            roles.approvers@,
        ).contains(name@)),
{
    holding_is_being_named(holders, name);
    holding_is_being_named(names_of(roles.custodians@), name);
    holding_is_being_named(names_of(roles.approvers@), name);
}

proof fn holding_is_being_named(holders: Seq<Seq<char>>, name: String)
    ensures
        holds_any(holders, Caller::Module(name)) <==> name@.len() > 0 && holders.contains(name@),
{
    let caller = Caller::Module(name);
    if name@.len() > 0 && holders.contains(name@) {
        let i = choose|i: int| 0 <= i < holders.len() && holders[i] == name@;
        assert(holds(holders[i], caller));
    }
}

/// Law: the methods that each role is for.
pub proof fn the_methods_of_each_role(method: Seq<char>)
    ensures
        among(method, CUSTODIAN_METHODS@) <==> {
            ||| method == "open_wallet"@
            ||| method == "create_wallet"@
            ||| method == "restore_from_seed"@
            ||| method == "restore_from_keys"@
            ||| method == "change_password"@
            ||| method == "reveal_seed"@
            ||| method == "reveal_view_key"@
            ||| method == "set_active_network"@
            ||| method == "set_node_config"@
        },
        among(method, APPROVER_METHODS@) <==> method == "confirm_send"@,
        among(method, SESSION_METHODS@) <==> method == "close_wallet"@,
{
    assert(CUSTODIAN_METHODS@[0]@ == "open_wallet"@ && CUSTODIAN_METHODS@[1]@ == "create_wallet"@);
    assert(CUSTODIAN_METHODS@[2]@ == "restore_from_seed"@);
    assert(CUSTODIAN_METHODS@[3]@ == "restore_from_keys"@);
    assert(CUSTODIAN_METHODS@[4]@ == "change_password"@ && CUSTODIAN_METHODS@[5]@ == "reveal_seed"@);
    assert(CUSTODIAN_METHODS@[6]@ == "reveal_view_key"@);
    assert(CUSTODIAN_METHODS@[7]@ == "set_active_network"@);
    assert(CUSTODIAN_METHODS@[8]@ == "set_node_config"@);
    assert(APPROVER_METHODS@[0]@ == "confirm_send"@);
    assert(SESSION_METHODS@[0]@ == "close_wallet"@);
}

/// The value of a role as it should be given: a text, or a list of texts.
pub open spec fn well_given(value: JsonView) -> bool {
    value is Text || (value is List && forall|i: int|
        0 <= i < value->List_0.len() ==> (#[trigger] value->List_0[i]) is Text)
}

/// `name` is given by the value of a role, up to the white space around it.
pub open spec fn gives(value: JsonView, name: Seq<char>) -> bool {
    ||| value is Text && trimmed(value->Text_0) == name
    ||| value is List && exists|i: int|
        0 <= i < value->List_0.len() && (#[trigger] value->List_0[i]) is Text && trimmed(
            value->List_0[i]->Text_0,
        ) == name
}

/// Law: a document is accepted just where it is an object whose only fields are the two roles,
/// each a text or a list of texts.
pub proof fn what_is_accepted(document: JsonView)
    ensures
        is_roles_document(document) <==> document is Object && forall|name: Seq<char>|
            (#[trigger] document.get(name)) is Some ==> (name == "approvers"@ || name == "custodians"@)
                && well_given(document.get(name)->0),
{
    if document is Object {
        let map = document->Object_0;
        assert forall|name: Seq<char>| role_field_ok(map, name) == ((name == "approvers"@ || name
            == "custodians"@) && well_given(#[trigger] map[name])) by {
            let value = map[name];
            if value is List {
                assert(role_names(value) is Some == well_given(value));
            }
        }
        if is_roles_document(document) {
            assert forall|name: Seq<char>| (#[trigger] document.get(name)) is Some implies (name
                == "approvers"@ || name == "custodians"@) && well_given(document.get(name)->0) by {
                assert(map.contains_key(name));
                assert(role_field_ok(map, name));
                assert(map[name] == document.get(name)->0);
            }
        }
        if forall|name: Seq<char>|
            (#[trigger] document.get(name)) is Some ==> (name == "approvers"@ || name == "custodians"@)
                && well_given(document.get(name)->0) {
            assert forall|name: Seq<char>| #[trigger] map.contains_key(name) implies role_field_ok(
                map,
                name,
            ) by {
                assert(document.get(name) == Some(map[name]));
                assert(well_given(map[name]));
            }
        }
    }
}

/// Law: after a document was accepted a role is held by those whom the document gives for it, and
/// by nobody else.
pub proof fn a_role_is_held_by_whom_the_document_gives(
    document: JsonView,
    before: Roles,
    after: Roles,
    r: Result<(), String>,
    name: Seq<char>,
)
    requires
        applied(document, before, after, r),
        r is Ok,
        name.len() > 0,
    ensures
        names_of(after.approvers@).contains(name) <==> document.get("approvers"@) is Some && gives(
            document.get("approvers"@)->0,
            name,
        ),
        names_of(after.custodians@).contains(name) <==> document.get("custodians"@) is Some && gives(
            document.get("custodians"@)->0,
            name,
        ),
        !names_of(after.approvers@).contains(Seq::empty()),
        !names_of(after.custodians@).contains(Seq::empty()),
        names_of(after.approvers@).no_duplicates(),
        names_of(after.custodians@).no_duplicates(),
{
    let map = document->Object_0;
    given_are_held(map, "approvers"@, name);
    given_are_held(map, "custodians"@, name);
}

proof fn given_are_held(document: Map<Seq<char>, JsonView>, role: Seq<char>, name: Seq<char>)
    requires
        document.contains_key(role) ==> role_names(document[role]) is Some,
        name.len() > 0,
    ensures
        role_holders(document, role).contains(name) <==> document.contains_key(role) && gives(
            document[role],
            name,
        ),
        !role_holders(document, role).contains(Seq::empty()),
        role_holders(document, role).no_duplicates(),
{
    if document.contains_key(role) {
        let value = document[role];
        let raw = role_names(value)->0;
        holders_are_a_set(raw);
        if holders(raw).contains(name) {
            let i = choose|i: int| 0 <= i < raw.len() && trimmed(#[trigger] raw[i]) == name;
            if value is List {
                assert(value->List_0[i]->Text_0 == raw[i]);
                assert(value->List_0[i] is Text);
            }
        }
        if gives(value, name) {
            if value is Text {
                assert(trimmed(raw[0]) == name);
            } else {
                let i = choose|i: int|
                    0 <= i < value->List_0.len() && (#[trigger] value->List_0[i]) is Text && trimmed(
                        value->List_0[i]->Text_0,
                    ) == name;
                assert(trimmed(raw[i]) == name);
            }
        }
    }
}

/// Law: holders stand in the order in which they were first given: more names given behind change
/// nothing before them.
pub proof fn the_first_mention_comes_first(raw: Seq<Seq<char>>, more: Seq<Seq<char>>)
    ensures
        holders(raw + more).len() >= holders(raw).len(),
        holders(raw + more).take(holders(raw).len() as int) == holders(raw),
    decreases more.len(),
{
    if more.len() == 0 {
        assert(raw + more =~= raw);
        assert(holders(raw).take(holders(raw).len() as int) =~= holders(raw));
    } else {
        the_first_mention_comes_first(raw, more.drop_last());
        assert((raw + more).drop_last() =~= raw + more.drop_last());
        let before = holders(raw + more.drop_last());
        assert(holders(raw + more).take(holders(raw).len() as int) =~= before.take(
            holders(raw).len() as int,
        ));
    }
}

/// Law: a document that is refused is refused for its first bad field, which is named if it is no
/// role; what is no object is refused as such.
pub proof fn what_is_said_of_a_bad_document(
    document: JsonView,
    before: Roles,
    after: Roles,
    r: Result<(), String>,
)
    requires
        applied(document, before, after, r),
        r is Err,
    ensures
        document !is Object ==> r->Err_0@ == "roles document must be an object"@,
        document is Object ==> exists|name: Seq<char>|
            {
                &&& (#[trigger] document.get(name)) is Some
                &&& name == "approvers"@ || name == "custodians"@ ==> !well_given(document.get(name)->0)
                    && r->Err_0@
                    == "bad roles document: data did not match any variant of untagged enum RoleWire"@
                &&& !(name == "approvers"@ || name == "custodians"@) ==> r->Err_0@
                    == "bad roles document: unknown field `"@ + name
                    + "`, expected `approvers` or `custodians`"@
                &&& forall|other: Seq<char>|
                    (#[trigger] document.get(other)) is Some && precedes(other, name) ==> (other
                        == "approvers"@ || other == "custodians"@) && well_given(document.get(other)->0)
            },
{
    if document is Object {
        let map = document->Object_0;
        let name = choose|name: Seq<char>|
            #[trigger] is_first_bad_field(map, name) && r->Err_0@ == bad_field_words(name);
        assert(document.get(name) == Some(map[name]));
        assert(role_names(map[name]) is Some == well_given(map[name]));
        assert forall|other: Seq<char>|
            (#[trigger] document.get(other)) is Some && precedes(other, name) implies (other
            == "approvers"@ || other == "custodians"@) && well_given(document.get(other)->0) by {
            assert(map.contains_key(other));
            assert(role_names(map[other]) is Some == well_given(map[other]));
        }
    }
}

} // verus!
