//! JSON values: the documents that cross between the surfaces, the backend and the engine.

use vstd::prelude::*;

use crate::text::{held, same};

verus! {

// ---------------------------------------------------------------------------------------------
// Values
// ---------------------------------------------------------------------------------------------

/// A JSON value.
#[derive(Debug)]
pub enum Json {
    Null,
    Bool(bool),
    /// A whole number of 64 bits without a sign.
    Unsigned(u64),
    /// Any other number.
    Number(OtherNumber),
    Text(String),
    List(Vec<Json>),
    /// Named fields; of two with one name the later one counts.
    Object(Vec<(String, Json)>),
}

/// A negative or fractional number, by its JSON text. It is carried through, never computed with.
#[derive(Debug)]
pub struct OtherNumber {
    text: String,
}

/// What a JSON value says.
pub enum JsonView {
    Null,
    Bool(bool),
    Unsigned(u64),
    Number(Seq<char>),
    Text(Seq<char>),
    List(Seq<JsonView>),
    Object(Map<Seq<char>, JsonView>),
}

/// What each value of a list says.
pub open spec fn list_view(items: Seq<Json>) -> Seq<JsonView>
    decreases items,
{
    if items.len() == 0 {
        Seq::empty()
    } else {
        list_view(items.drop_last()).push(json_view(items.last()))
    }
}

/// What each name stands for among named values.
pub open spec fn fields_view(fields: Seq<(String, Json)>) -> Map<Seq<char>, JsonView>
    decreases fields,
{
    if fields.len() == 0 {
        Map::empty()
    } else {
        fields_view(fields.drop_last()).insert(fields.last().0@, json_view(fields.last().1))
    }
}

/// What a value says.
pub open spec fn json_view(json: Json) -> JsonView
    decreases json,
{
    match json {
        Json::Null => JsonView::Null,
        Json::Bool(b) => JsonView::Bool(b),
        Json::Unsigned(n) => JsonView::Unsigned(n),
        Json::Number(n) => JsonView::Number(n@),
        Json::Text(s) => JsonView::Text(s@),
        Json::List(items) => JsonView::List(list_view(items@)),
        Json::Object(fields) => JsonView::Object(fields_view(fields@)),
    }
}

impl View for Json {
    type V = JsonView;

    open spec fn view(&self) -> JsonView {
        json_view(*self)
    }
}

impl View for OtherNumber {
    type V = Seq<char>;

    closed spec fn view(&self) -> Seq<char> {
        self.text@
    }
}

impl OtherNumber {
    /// The text reads as the number that it is the text of.
    #[verifier::type_invariant]
    spec fn reads_back(self) -> bool {
        reads_as(self.text@, JsonView::Number(self.text@))
    }
}

impl JsonView {
    /// The object without fields.
    pub open spec fn object() -> JsonView {
        JsonView::Object(Map::empty())
    }

    /// Fields can be set on an object, and on null, which then becomes one.
    pub open spec fn takes_fields(self) -> bool {
        self is Null || self is Object
    }

    /// The value with the field `name` set to `value`.
    pub open spec fn with(self, name: Seq<char>, value: JsonView) -> JsonView {
        match self {
            JsonView::Object(fields) => JsonView::Object(fields.insert(name, value)),
            _ => JsonView::Object(Map::empty().insert(name, value)),
        }
    }

    /// The field `name`; only an object has fields.
    pub open spec fn get(self, name: Seq<char>) -> Option<JsonView> {
        match self {
            JsonView::Object(fields) => if fields.contains_key(name) {
                Some(fields[name])
            } else {
                None
            },
            _ => None,
        }
    }

    /// The field `name`, or `default` where there is none.
    pub open spec fn get_or(self, name: Seq<char>, default: JsonView) -> JsonView {
        match self.get(name) {
            Some(value) => value,
            None => default,
        }
    }

    /// The field `name`, if it is a text.
    pub open spec fn text_at(self, name: Seq<char>) -> Option<Seq<char>> {
        match self.get(name) {
            Some(JsonView::Text(s)) => Some(s),
            _ => None,
        }
    }

    /// The field `name`, if it is a text, else `default`.
    pub open spec fn text_or(self, name: Seq<char>, default: Seq<char>) -> Seq<char> {
        match self.text_at(name) {
            Some(s) => s,
            None => default,
        }
    }

    /// The field `name`, if it is true or false.
    pub open spec fn bool_at(self, name: Seq<char>) -> Option<bool> {
        match self.get(name) {
            Some(JsonView::Bool(b)) => Some(b),
            _ => None,
        }
    }

    /// The field `name`, if it is a whole number of 64 bits without a sign, else zero.
    pub open spec fn unsigned_at(self, name: Seq<char>) -> u64 {
        match self.get(name) {
            Some(JsonView::Unsigned(n)) => n,
            _ => 0,
        }
    }
}

/// What an outcome says: a value, or words that say what went wrong.
pub open spec fn outcome_view(r: Result<Json, String>) -> Result<JsonView, Seq<char>> {
    match r {
        Ok(json) => Ok(json@),
        Err(words) => Err(words@),
    }
}

/// A text that may be missing, which is null.
pub open spec fn text_or_null(s: Option<Seq<char>>) -> JsonView {
    match s {
        Some(t) => JsonView::Text(t),
        None => JsonView::Null,
    }
}

/// The views of the first items are the first of the views.
pub proof fn list_view_index(items: Seq<Json>, i: int)
    requires
        0 <= i < items.len(),
    ensures
        list_view(items).len() == items.len(),
        list_view(items)[i] == json_view(items[i]),
    decreases items.len(),
{
    list_view_len(items);
    if i < items.len() - 1 {
        list_view_index(items.drop_last(), i);
        list_view_len(items.drop_last());
    }
}

/// A list and its view are of one length.
pub proof fn list_view_len(items: Seq<Json>)
    ensures
        list_view(items).len() == items.len(),
    decreases items.len(),
{
    if items.len() > 0 {
        list_view_len(items.drop_last());
    }
}

// ---------------------------------------------------------------------------------------------
// Building and reading
// ---------------------------------------------------------------------------------------------

impl Clone for OtherNumber {
    fn clone(&self) -> (r: Self)
        ensures
            r@ == self@,
    {
        proof {
            use_type_invariant(self);
        }
        OtherNumber { text: self.text.clone() }
    }
}

impl Clone for Json {
    fn clone(&self) -> (r: Self)
        ensures
            r@ == self@,
        decreases self,
    {
        match self {
            Json::Null => Json::Null,
            Json::Bool(b) => Json::Bool(*b),
            Json::Unsigned(n) => Json::Unsigned(*n),
            Json::Number(n) => Json::Number(n.clone()),
            Json::Text(s) => Json::Text(s.clone()),
            Json::List(items) => {
                let mut copy: Vec<Json> = Vec::new();
                let mut i: usize = 0;
                while i < items.len()
                    invariant
                        i <= items@.len(),
                        *self == Json::List(*items),
                        list_view(copy@) == list_view(items@.take(i as int)),
                    decreases items@.len() - i,
                {
                    let ghost before = copy@;
                    assert(decreases_to!(*self => self->List_0));
                    assert(decreases_to!(items => items@));
                    assert(decreases_to!(items@ => items@[i as int]));
                    let item = items[i].clone();
                    copy.push(item);
                    assert(copy@.drop_last() =~= before);
                    assert(items@.take(i + 1).drop_last() =~= items@.take(i as int));
                    i += 1;
                }
                assert(items@.take(i as int) =~= items@);
                Json::List(copy)
            },
            Json::Object(fields) => {
                let mut copy: Vec<(String, Json)> = Vec::new();
                let mut i: usize = 0;
                while i < fields.len()
                    invariant
                        i <= fields@.len(),
                        *self == Json::Object(*fields),
                        fields_view(copy@) == fields_view(fields@.take(i as int)),
                    decreases fields@.len() - i,
                {
                    let ghost before = copy@;
                    assert(decreases_to!(*self => self->Object_0));
                    assert(decreases_to!(fields => fields@));
                    assert(decreases_to!(fields@ => fields@[i as int]));
                    assert(decreases_to!(fields@[i as int] => fields@[i as int].1));
                    let name = fields[i].0.clone();
                    let value = fields[i].1.clone();
                    copy.push((name, value));
                    assert(copy@.drop_last() =~= before);
                    assert(fields@.take(i + 1).drop_last() =~= fields@.take(i as int));
                    i += 1;
                }
                assert(fields@.take(i as int) =~= fields@);
                Json::Object(copy)
            },
        }
    }
}

impl Json {
    /// The object without fields.
    pub fn object() -> (r: Json)
        ensures
            r@ == JsonView::object(),
    {
        Json::Object(Vec::new())
    }

    /// A text.
    pub fn text(s: &str) -> (r: Json)
        ensures
            r@ == JsonView::Text(s@),
    {
        Json::Text(s.to_owned())
    }

    /// A text that may be missing, which is null.
    pub fn text_or_null(s: Option<&str>) -> (r: Json)
        ensures
            r@ == text_or_null(held(s)),
    {
        match s {
            Some(t) => Json::text(t),
            None => Json::Null,
        }
    }

    /// Whether fields can be set: on an object, and on null, which then becomes one.
    pub fn takes_fields(&self) -> (r: bool)
        ensures
            r == self@.takes_fields(),
    {
        match self {
            Json::Null => true,
            Json::Object(_) => true,
            _ => false,
        }
    }

    /// The value with the field `name` set to `value`.
    pub fn with(self, name: &str, value: Json) -> (r: Json)
        requires
            self@.takes_fields(),
        ensures
            r@ == self@.with(name@, value@),
    {
        match self {
            Json::Object(fields) => {
                let ghost before = fields@;
                let mut all = fields;
                all.push((name.to_owned(), value));
                assert(all@.drop_last() =~= before);
                Json::Object(all)
            },
            _ => {
                let mut all: Vec<(String, Json)> = Vec::new();
                all.push((name.to_owned(), value));
                assert(all@.drop_last() =~= Seq::<(String, Json)>::empty());
                assert(fields_view(Seq::<(String, Json)>::empty()) == Map::<Seq<char>, JsonView>::empty());
                Json::Object(all)
            },
        }
    }

    /// The field `name`; only an object has fields.
    pub fn get(&self, name: &str) -> (r: Option<&Json>)
        ensures
            match r {
                Some(value) => self@.get(name@) == Some(value@),
                None => self@.get(name@) is None,
            },
    {
        match self {
            Json::Object(fields) => {
                let mut i: usize = fields.len();
                assert(fields@.take(i as int) =~= fields@);
                while i > 0
                    invariant
                        i <= fields@.len(),
                        *self == Json::Object(*fields),
                        self@.get(name@) == JsonView::Object(fields_view(fields@.take(i as int))).get(
                            name@,
                        ),
                    decreases i,
                {
                    let ghost part = fields@.take(i as int);
                    assert(part.drop_last() =~= fields@.take(i - 1));
                    assert(part.last() == fields@[i - 1]);
                    if same(fields[i - 1].0.as_str(), name) {
                        return Some(&fields[i - 1].1);
                    }
                    i -= 1;
                }
                assert(fields@.take(0) =~= Seq::<(String, Json)>::empty());
                None
            },
            _ => None,
        }
    }

    /// A copy of the field `name`, or `default` where there is none.
    pub fn get_or(&self, name: &str, default: Json) -> (r: Json)
        ensures
            r@ == self@.get_or(name@, default@),
    {
        match self.get(name) {
            Some(value) => value.clone(),
            None => default,
        }
    }

    /// The field `name`, if it is a text.
    pub fn text_at(&self, name: &str) -> (r: Option<&str>)
        ensures
            held(r) == self@.text_at(name@),
    {
        match self.get(name) {
            Some(Json::Text(s)) => Some(s.as_str()),
            _ => None,
        }
    }

    /// A copy of the field `name`, if it is a text, else of `default`.
    pub fn text_or(&self, name: &str, default: &str) -> (r: String)
        ensures
            r@ == self@.text_or(name@, default@),
    {
        match self.text_at(name) {
            Some(s) => s.to_owned(),
            None => default.to_owned(),
        }
    }

    /// The field `name`, if it is true or false.
    pub fn bool_at(&self, name: &str) -> (r: Option<bool>)
        ensures
            r == self@.bool_at(name@),
    {
        match self.get(name) {
            Some(Json::Bool(b)) => Some(*b),
            _ => None,
        }
    }

    /// The field `name`, if it is a whole number of 64 bits without a sign, else zero.
    pub fn unsigned_at(&self, name: &str) -> (r: u64)
        ensures
            r == self@.unsigned_at(name@),
    {
        match self.get(name) {
            Some(Json::Unsigned(n)) => *n,
            _ => 0,
        }
    }
}

// ---------------------------------------------------------------------------------------------
// Text
// ---------------------------------------------------------------------------------------------

/// `serde_json::Value`, carried between the calls below.
#[verifier::external_type_specification]
#[verifier::external_body]
pub struct ExValue(serde_json::Value);

/// What a `serde_json::Value` holds.
pub uninterp spec fn value_json(value: serde_json::Value) -> JsonView;

/// What `serde_json::from_str` makes of a text: the value it holds, or the words of the error.
pub uninterp spec fn json_of_text(text: Seq<char>) -> Result<JsonView, Seq<char>>;

/// The compact text that `serde_json` writes for a value.
pub uninterp spec fn text_of_json(json: JsonView) -> Seq<char>;

/// `text` reads as `json`.
pub open spec fn reads_as(text: Seq<char>, json: JsonView) -> bool {
    json_of_text(text) == Ok::<JsonView, Seq<char>>(json)
}

/// An object all of whose fields are texts.
pub open spec fn holds_texts(json: JsonView) -> bool {
    &&& json is Object
    &&& forall|name: Seq<char>| #[trigger] json->Object_0.contains_key(name) ==> json->Object_0[name] is Text
}

/// One level of a `serde_json::Value`.
enum Node {
    Null,
    Bool(bool),
    Unsigned(u64),
    Number(String),
    Text(String),
    List(Vec<serde_json::Value>),
    Object(Vec<(String, serde_json::Value)>),
}

/// What each value of a list holds.
spec fn values_json(items: Seq<serde_json::Value>) -> Seq<JsonView> {
    items.map_values(|item: serde_json::Value| value_json(item))
}

/// What each name stands for among named values.
spec fn members_json(members: Seq<(String, serde_json::Value)>) -> Map<Seq<char>, JsonView>
    decreases members.len(),
{
    if members.len() == 0 {
        Map::empty()
    } else {
        members_json(members.drop_last()).insert(members.last().0@, value_json(members.last().1))
    }
}

/// No two members have one name.
spec fn all_named_differently(members: Seq<(String, serde_json::Value)>) -> bool {
    forall|i: int, j: int|
        0 <= i < j < members.len() ==> (#[trigger] members[i]).0@ != (#[trigger] members[j]).0@
}

/// What one level, with the values under it, holds.
spec fn node_json(node: Node) -> JsonView {
    match node {
        Node::Null => JsonView::Null,
        Node::Bool(b) => JsonView::Bool(b),
        Node::Unsigned(n) => JsonView::Unsigned(n),
        Node::Number(text) => JsonView::Number(text@),
        Node::Text(s) => JsonView::Text(s@),
        Node::List(items) => JsonView::List(values_json(items@)),
        Node::Object(members) => JsonView::Object(members_json(members@)),
    }
}

/// What the outcome of reading a text holds.
spec fn outcome_json(r: Result<serde_json::Value, String>) -> Result<JsonView, Seq<char>> {
    match r {
        Ok(value) => Ok(value_json(value)),
        Err(words) => Err(words@),
    }
}

/// `serde_json::from_str::<serde_json::Value>`: reads a JSON text. The value or the error's words
/// depend on the text alone.
#[verifier::external_body]
fn read_value(text: &str) -> (r: Result<serde_json::Value, String>)
    ensures
        outcome_json(r) == json_of_text(text@),
{
    serde_json::from_str::<serde_json::Value>(text).map_err(|e| e.to_string())
}

/// `serde_json::Value` written by its `Display`: the text depends on what the value holds, and
/// an object of texts reads back as itself.
#[verifier::external_body]
fn write_value(value: &serde_json::Value) -> (text: String)
    ensures
        text@ == text_of_json(value_json(*value)),
        holds_texts(value_json(*value)) ==> reads_as(text@, value_json(*value)),
{
    value.to_string()
}

/// The variants of `serde_json::Value` told apart, one level down. A number that is not an
/// unsigned one goes by its text, which reads back as that number. The names of an object's
/// members are all different.
#[verifier::external_body]
fn open_value(value: serde_json::Value) -> (node: Node)
    ensures
        value_json(value) == node_json(node),
        node matches Node::Number(text) ==> reads_as(text@, JsonView::Number(text@)),
        node matches Node::Object(members) ==> all_named_differently(members@),
{
    match value {
        serde_json::Value::Null => Node::Null,
        serde_json::Value::Bool(b) => Node::Bool(b),
        serde_json::Value::Number(n) => match n.as_u64() {
            Some(u) => Node::Unsigned(u),
            None => Node::Number(n.to_string()),
        },
        serde_json::Value::String(s) => Node::Text(s),
        serde_json::Value::Array(items) => Node::List(items),
        serde_json::Value::Object(members) => Node::Object(members.into_iter().collect()),
    }
}

/// The variants of `serde_json::Value` put together again; the members of an object must all be
/// named differently. Numbers other than unsigned ones are read from their text instead.
#[verifier::external_body]
fn close_value(node: Node) -> (value: serde_json::Value)
    requires
        node !is Number,
        node matches Node::Object(members) ==> all_named_differently(members@),
    ensures
        value_json(value) == node_json(node),
{
    match node {
        Node::Null | Node::Number(_) => serde_json::Value::Null,
        Node::Bool(b) => serde_json::Value::Bool(b),
        Node::Unsigned(n) => serde_json::Value::Number(n.into()),
        Node::Text(s) => serde_json::Value::String(s),
        Node::List(items) => serde_json::Value::Array(items),
        Node::Object(members) => serde_json::Value::Object(members.into_iter().collect()),
    }
}

/// Where all names differ, each stands for the value beside it.
proof fn member_of_distinct(members: Seq<(String, serde_json::Value)>, i: int)
    requires
        0 <= i < members.len(),
        all_named_differently(members),
    ensures
        members_json(members).contains_key(members[i].0@),
        members_json(members)[members[i].0@] == value_json(members[i].1),
    decreases members.len(),
{
    if i < members.len() - 1 {
        let rest = members.drop_last();
        assert forall|a: int, b: int| 0 <= a < b < rest.len() implies (#[trigger] rest[a]).0@ != (
        #[trigger] rest[b]).0@ by {
            assert(rest[a] == members[a] && rest[b] == members[b]);
        }
        member_of_distinct(rest, i);
        assert(members[i].0@ != members[members.len() - 1].0@);
    }
}

/// A name stands for something just where a member has it.
proof fn members_named(members: Seq<(String, serde_json::Value)>, name: Seq<char>)
    ensures
        members_json(members).contains_key(name) <==> exists|i: int|
            0 <= i < members.len() && (#[trigger] members[i]).0@ == name,
    decreases members.len(),
{
    if members.len() > 0 {
        let rest = members.drop_last();
        members_named(rest, name);
        if members_json(rest).contains_key(name) {
            let i = choose|i: int| 0 <= i < rest.len() && (#[trigger] rest[i]).0@ == name;
            assert(members[i].0@ == name);
        }
        if exists|i: int| 0 <= i < members.len() && (#[trigger] members[i]).0@ == name {
            let i = choose|i: int| 0 <= i < members.len() && (#[trigger] members[i]).0@ == name;
            if i < rest.len() {
                assert(rest[i].0@ == name);
            }
        }
        assert(members[members.len() - 1] == members.last());
    }
}

/// Whether a member is named `name`.
fn has_member(members: &Vec<(String, serde_json::Value)>, name: &str) -> (r: bool)
    ensures
        r == exists|i: int| 0 <= i < members@.len() && (#[trigger] members@[i]).0@ == name@,
{
    let mut i: usize = 0;
    while i < members.len()
        invariant
            i <= members@.len(),
            forall|j: int| 0 <= j < i ==> (#[trigger] members@[j]).0@ != name@,
        decreases members@.len() - i,
    {
        if same(members[i].0.as_str(), name) {
            return true;
        }
        i += 1;
    }
    false
}

/// There are finitely many names.
proof fn members_finite(members: Seq<(String, serde_json::Value)>)
    ensures
        members_json(members).dom().finite(),
    decreases members.len(),
{
    if members.len() > 0 {
        members_finite(members.drop_last());
    }
}

/// The library's value for a `serde_json::Value`.
pub fn from_value(value: serde_json::Value) -> (json: Json)
    ensures
        json@ == value_json(value),
    decreases value_json(value),
{
    match open_value(value) {
        Node::Null => Json::Null,
        Node::Bool(b) => Json::Bool(b),
        Node::Unsigned(n) => Json::Unsigned(n),
        Node::Number(text) => Json::Number(OtherNumber { text }),
        Node::Text(s) => Json::Text(s),
        Node::List(items) => {
            let ghost all = items@;
            let mut list: Vec<Json> = Vec::new();
            for item in it: items
                invariant
                    it.seq() == all,
                    value_json(value) == JsonView::List(values_json(all)),
                    list_view(list@) == values_json(all.take(it.index() as int)),
            {
                let ghost k = it.index() as int;
                proof {
                    let views = values_json(all);
                    assert(views[k] == value_json(item));
                    assert(value_json(value)->List_0 == views);
                    assert(decreases_to!(views => views[k]));
                    assert(decreases_to!(value_json(value) => value_json(value)->List_0));
                }
                let ghost before = list@;
                let json = from_value(item);
                list.push(json);
                assert(list@.drop_last() =~= before);
                assert(list_view(list@) =~= values_json(all.take(k + 1)));
            }
            assert(all.take(all.len() as int) =~= all);
            Json::List(list)
        },
        Node::Object(members) => {
            let ghost all = members@;
            let mut fields: Vec<(String, Json)> = Vec::new();
            assert(all.take(0) =~= Seq::<(String, serde_json::Value)>::empty());
            for member in it: members
                invariant
                    it.seq() == all,
                    value_json(value) == JsonView::Object(members_json(all)),
                    all_named_differently(all),
                    fields_view(fields@) == members_json(all.take(it.index() as int)),
            {
                let ghost k = it.index() as int;
                let (name, part) = member;
                proof {
                    let views = members_json(all);
                    assert(all[k] == member);
                    member_of_distinct(all, k);
                    members_finite(all);
                    assert(value_json(value)->Object_0 == views);
                    assert(decreases_to!(views => views[name@]));
                    assert(decreases_to!(value_json(value) => value_json(value)->Object_0));
                    assert(all.take(k + 1).drop_last() =~= all.take(k));
                }
                let ghost before = fields@;
                let json = from_value(part);
                fields.push((name, json));
                assert(fields@.drop_last() =~= before);
            }
            assert(all.take(all.len() as int) =~= all);
            Json::Object(fields)
        },
    }
}

/// The `serde_json::Value` for a value of the library.
pub fn to_value(json: &Json) -> (value: serde_json::Value)
    ensures
        value_json(value) == json@,
    decreases json,
{
    match json {
        Json::Null => close_value(Node::Null),
        Json::Bool(b) => close_value(Node::Bool(*b)),
        Json::Unsigned(n) => close_value(Node::Unsigned(*n)),
        Json::Number(n) => {
            proof {
                use_type_invariant(n);
            }
            match read_value(n.text.as_str()) {
                Ok(value) => value,
                Err(_) => close_value(Node::Null),
            }
        },
        Json::Text(s) => close_value(Node::Text(s.clone())),
        Json::List(items) => {
            let mut list: Vec<serde_json::Value> = Vec::new();
            let mut i: usize = 0;
            while i < items.len()
                invariant
                    i <= items@.len(),
                    *json == Json::List(*items),
                    values_json(list@) == list_view(items@.take(i as int)),
                decreases items@.len() - i,
            {
                let ghost before = list@;
                assert(decreases_to!(*json => json->List_0));
                assert(decreases_to!(items => items@));
                assert(decreases_to!(items@ => items@[i as int]));
                let value = to_value(&items[i]);
                list.push(value);
                assert(items@.take(i + 1).drop_last() =~= items@.take(i as int));
                assert(values_json(list@) =~= values_json(before).push(value_json(value)));
                i += 1;
            }
            assert(items@.take(i as int) =~= items@);
            close_value(Node::List(list))
        },
        Json::Object(fields) => {
            let mut members: Vec<(String, serde_json::Value)> = Vec::new();
            let mut i: usize = fields.len();
            assert(fields@.take(i as int) =~= fields@);
            assert(fields_view(fields@).union_prefer_right(members_json(members@)) =~= fields_view(
                fields@,
            ));
            while i > 0
                invariant
                    i <= fields@.len(),
                    *json == Json::Object(*fields),
                    all_named_differently(members@),
                    fields_view(fields@.take(i as int)).union_prefer_right(members_json(members@))
                        == fields_view(fields@),
                decreases i,
            {
                i -= 1;
                let ghost before = members@;
                let ghost part = fields_view(fields@.take(i as int));
                let ghost name = fields@[i as int].0@;
                proof {
                    assert(fields@.take(i + 1).drop_last() =~= fields@.take(i as int));
                    members_named(before, name);
                }
                if has_member(&members, fields[i].0.as_str()) {
                    assert(part.insert(name, json_view(fields@[i as int].1)).union_prefer_right(
                        members_json(before),
                    ) =~= part.union_prefer_right(members_json(before)));
                } else {
                    assert(decreases_to!(*json => json->Object_0));
                    assert(decreases_to!(fields => fields@));
                    assert(decreases_to!(fields@ => fields@[i as int]));
                    assert(decreases_to!(fields@[i as int] => fields@[i as int].1));
                    let value = to_value(&fields[i].1);
                    members.push((fields[i].0.clone(), value));
                    assert(members@.drop_last() =~= before);
                    assert(part.insert(name, json_view(fields@[i as int].1)).union_prefer_right(
                        members_json(before),
                    ) =~= part.union_prefer_right(members_json(members@)));
                }
            }
            assert(fields@.take(0) =~= Seq::<(String, Json)>::empty());
            assert(fields_view(fields@.take(0)).union_prefer_right(members_json(members@))
                =~= members_json(members@));
            close_value(Node::Object(members))
        },
    }
}

impl Json {
    /// Reads a JSON text; where it is none, says why.
    pub fn parse(text: &str) -> (r: Result<Json, String>)
        ensures
            outcome_view(r) == json_of_text(text@),
    {
        match read_value(text) {
            Ok(value) => Ok(from_value(value)),
            Err(words) => Err(words),
        }
    }

    /// Writes the value as compact JSON text. An object of texts reads back as itself.
    pub fn to_text(&self) -> (text: String)
        ensures
            text@ == text_of_json(self@),
            holds_texts(self@) ==> reads_as(text@, self@),
    {
        write_value(&to_value(self))
    }
}

// ---------------------------------------------------------------------------------------------
// Laws
// ---------------------------------------------------------------------------------------------


/// Law: a field that was set reads back, and every other stays as it was.
pub proof fn a_set_field_reads_back(json: JsonView, name: Seq<char>, value: JsonView, other: Seq<char>)
    ensures
        json.with(name, value).get(name) == Some(value),
        other != name && json is Object ==> json.with(name, value).get(other) == json.get(other),
        other != name && json !is Object ==> json.with(name, value).get(other) is None,
        JsonView::object().get(other) is None,
{
}

/// Law: only an object has fields, and each by its name.
pub proof fn only_an_object_has_fields(json: JsonView, fields: Map<Seq<char>, JsonView>, name: Seq<char>)
    ensures
        json !is Object ==> json.get(name) is None,
        fields.contains_key(name) ==> JsonView::Object(fields).get(name) == Some(fields[name]),
        !fields.contains_key(name) ==> JsonView::Object(fields).get(name) is None,
        json.takes_fields() <==> json is Object || json is Null,
{
}

/// Law: a field is read as what it is, and as nothing else.
pub proof fn a_field_is_read_by_its_kind(
    json: JsonView,
    name: Seq<char>,
    s: Seq<char>,
    b: bool,
    default: JsonView,
    words: Seq<char>,
)
    ensures
        json.text_at(name) == Some(s) <==> json.get(name) == Some(JsonView::Text(s)),
        json.bool_at(name) == Some(b) <==> json.get(name) == Some(JsonView::Bool(b)),
        json.text_at(name) is Some ==> Some(json.text_or(name, words)) == json.text_at(name),
        json.text_at(name) is None ==> json.text_or(name, words) == words,
        json.get(name) is Some && json.get(name)->0 is Unsigned ==> json.get(name)
            == Some(JsonView::Unsigned(json.unsigned_at(name))),
        !(json.get(name) is Some && json.get(name)->0 is Unsigned) ==> json.unsigned_at(name) == 0,
        json.get(name) is Some ==> Some(json.get_or(name, default)) == json.get(name),
        json.get(name) is None ==> json.get_or(name, default) == default,
{
}

/// Law: a list says what each of its values says, in order.
pub proof fn a_list_says_what_its_values_say(items: Vec<Json>, i: int)
    requires
        0 <= i < items@.len(),
    ensures
        Json::List(items)@ is List,
        Json::List(items)@->List_0.len() == items@.len(),
        Json::List(items)@->List_0[i] == items@[i]@,
{
    list_view_index(items@, i);
}

/// Law: of fields with one name the last one counts.
pub proof fn the_last_field_counts(fields: Vec<(String, Json)>, i: int)
    requires
        0 <= i < fields@.len(),
        forall|j: int| i < j < fields@.len() ==> (#[trigger] fields@[j]).0@ != fields@[i].0@,
    ensures
        Json::Object(fields)@.get(fields@[i].0@) == Some(fields@[i].1@),
{
    last_counts(fields@, i);
}

proof fn last_counts(fields: Seq<(String, Json)>, i: int)
    requires
        0 <= i < fields.len(),
        forall|j: int| i < j < fields.len() ==> (#[trigger] fields[j]).0@ != fields[i].0@,
    ensures
        fields_view(fields).contains_key(fields[i].0@),
        fields_view(fields)[fields[i].0@] == json_view(fields[i].1),
    decreases fields.len(),
{
    if i < fields.len() - 1 {
        let rest = fields.drop_last();
        assert forall|j: int| i < j < rest.len() implies (#[trigger] rest[j]).0@ != rest[i].0@ by {
            assert(rest[j] == fields[j]);
        }
        last_counts(rest, i);
        assert(fields[fields.len() - 1].0@ != fields[i].0@);
    }
}

/// Law: plain values say themselves.
pub proof fn plain_values_say_themselves(b: bool, n: u64, s: String, t: Seq<char>)
    ensures
        Json::Null@ == JsonView::Null,
        Json::Bool(b)@ == JsonView::Bool(b),
        Json::Unsigned(n)@ == JsonView::Unsigned(n),
        Json::Text(s)@ == JsonView::Text(s@),
        text_or_null(Some(t)) == JsonView::Text(t),
        text_or_null(None) == JsonView::Null,
{
}

} // verus!
