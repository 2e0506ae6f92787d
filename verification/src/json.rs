//! JSON documents: the type that the rest of the library reads and builds, and the boundary to
//! the `serde_json` crate, which parses and renders them.

use vstd::prelude::*;

use crate::text;
use crate::text::same_text;

verus! {

// ---------------------------------------------------------------------------
// Documents
// ---------------------------------------------------------------------------

/// A JSON document. In an object the last member of a name is the one that counts.
#[derive(Debug)]
pub enum Json {
    Null,
    Bool(bool),
    Number(serde_json::Number),
    Str(String),
    Array(Vec<Json>),
    Object(Vec<(String, Json)>),
}

/// What a JSON document says.
#[verifier::ext_equal]
pub enum JsonView {
    Null,
    Bool(bool),
    Number(serde_json::Number),
    Str(Seq<char>),
    Array(Seq<JsonView>),
    Object(Map<Seq<char>, JsonView>),
}

/// What a document says.
pub open spec fn json_view(json: Json) -> JsonView
    decreases json,
{
    match json {
        Json::Null => JsonView::Null,
        Json::Bool(b) => JsonView::Bool(b),
        Json::Number(n) => JsonView::Number(n),
        Json::Str(s) => JsonView::Str(s@),
        Json::Array(items) => JsonView::Array(items_view(items@)),
        Json::Object(members) => JsonView::Object(members_view(members@)),
    }
}

/// What the items of an array say.
pub open spec fn items_view(items: Seq<Json>) -> Seq<JsonView>
    decreases items,
{
    Seq::new(
        items.len(),
        |i: int|
            if 0 <= i < items.len() {
                json_view(items[i])
            } else {
                JsonView::Null
            },
    )
}

/// What the members of an object say: later ones replace earlier ones of the same name.
pub open spec fn members_view(members: Seq<(String, Json)>) -> Map<Seq<char>, JsonView>
    decreases members,
{
    if members.len() == 0 {
        Map::empty()
    } else {
        members_view(members.drop_last()).insert(members.last().0@, json_view(members.last().1))
    }
}

impl View for Json {
    type V = JsonView;

    open spec fn view(&self) -> JsonView {
        json_view(*self)
    }
}

// ---------------------------------------------------------------------------
// Reading what a document says
// ---------------------------------------------------------------------------

/// The member `key` of an object.
pub open spec fn member(doc: JsonView, key: Seq<char>) -> Option<JsonView> {
    match doc {
        JsonView::Object(members) => if members.contains_key(key) {
            Some(members[key])
        } else {
            None
        },
        _ => None,
    }
}

/// The characters of a string document.
pub open spec fn string_of(doc: Option<JsonView>) -> Option<Seq<char>> {
    match doc {
        Some(JsonView::Str(s)) => Some(s),
        _ => None,
    }
}

/// The items of an array document.
pub open spec fn items_of(doc: Option<JsonView>) -> Option<Seq<JsonView>> {
    match doc {
        Some(JsonView::Array(items)) => Some(items),
        _ => None,
    }
}

/// The value of a boolean document.
pub open spec fn bool_of(doc: Option<JsonView>) -> Option<bool> {
    match doc {
        Some(JsonView::Bool(b)) => Some(b),
        _ => None,
    }
}

/// The string member `key` of an object.
pub open spec fn member_string(doc: JsonView, key: Seq<char>) -> Option<Seq<char>> {
    string_of(member(doc, key))
}

/// The view of an optional document.
pub open spec fn doc_view(doc: Option<&Json>) -> Option<JsonView> {
    match doc {
        Some(d) => Some(d@),
        None => None,
    }
}

proof fn lemma_member_prefix(members: Seq<(String, Json)>, n: int, key: Seq<char>)
    requires
        0 <= n <= members.len(),
        forall|j: int| n <= j < members.len() ==> (#[trigger] members[j]).0@ != key,
    ensures
        members_view(members).contains_key(key) == members_view(members.take(n)).contains_key(key),
        members_view(members).contains_key(key) ==> members_view(members)[key] == members_view(
            members.take(n),
        )[key],
    decreases members.len() - n,
{
    if n == members.len() {
        assert(members.take(n) =~= members);
    } else {
        assert(members[n].0@ != key);
        lemma_member_prefix(members, n + 1, key);
        assert(members.take(n + 1).drop_last() =~= members.take(n));
    }
}

/// The members of an object are finitely many.
pub proof fn lemma_members_finite(members: Seq<(String, Json)>)
    ensures
        members_view(members).dom().finite(),
    decreases members.len(),
{
    if members.len() > 0 {
        lemma_members_finite(members.drop_last());
    }
}

impl Json {
    /// The member `key` of an object, or nothing.
    pub fn get(&self, key: &str) -> (r: Option<&Json>)
        ensures
            doc_view(r) == member(self@, key@),
    {
        match self {
            Json::Object(members) => {
                let mut i: usize = members.len();
                proof {
                    assert(members@.take(members@.len() as int) =~= members@);
                }
                while i > 0
                    invariant
                        i <= members@.len(),
                        *self == Json::Object(*members),
                        forall|j: int| i <= j < members@.len() ==> (#[trigger] members@[j]).0@ != key@,
                    decreases i,
                {
                    if same_text(&members[i - 1].0, key) {
                        proof {
                            lemma_member_prefix(members@, i as int, key@);
                            assert(members@.take(i as int).last() == members@[i - 1]);
                        }
                        return Some(&members[i - 1].1);
                    }
                    i -= 1;
                }
                proof {
                    lemma_member_prefix(members@, 0, key@);
                    assert(members@.take(0) =~= Seq::empty());
                }
                None
            },
            _ => None,
        }
    }

    /// The text of a string document.
    pub fn as_str(&self) -> (r: Option<&str>)
        ensures
            text::text_view(r) == string_of(Some(self@)),
    {
        match self {
            Json::Str(s) => Some(s.as_str()),
            _ => None,
        }
    }

    /// The items of an array document.
    pub fn as_array(&self) -> (r: Option<&Vec<Json>>)
        ensures
            match r {
                Some(items) => items_of(Some(self@)) == Some(items_view(items@)),
                None => items_of(Some(self@)) is None,
            },
    {
        match self {
            Json::Array(items) => Some(items),
            _ => None,
        }
    }

    /// The value of a boolean document.
    pub fn as_bool(&self) -> (r: Option<bool>)
        ensures
            r == bool_of(Some(self@)),
    {
        match self {
            Json::Bool(b) => Some(*b),
            _ => None,
        }
    }

    /// The text of the string member `key` of an object.
    pub fn get_str(&self, key: &str) -> (r: Option<&str>)
        ensures
            text::text_view(r) == member_string(self@, key@),
    {
        match self.get(key) {
            Some(value) => value.as_str(),
            None => None,
        }
    }

    /// A string document.
    pub fn string(text: &str) -> (r: Json)
        ensures
            r@ == JsonView::Str(text@),
    {
        Json::Str(text.to_owned())
    }

    /// A document that says the same.
    pub fn copy(&self) -> (r: Json)
        ensures
            r@ == self@,
        decreases self,
    {
        match self {
            Json::Null => Json::Null,
            Json::Bool(b) => Json::Bool(*b),
            Json::Number(n) => Json::Number(clone_number(n)),
            Json::Str(s) => Json::Str(s.clone()),
            Json::Array(items) => {
                let mut out: Vec<Json> = Vec::new();
                let mut i: usize = 0;
                while i < items.len()
                    invariant
                        i <= items@.len(),
                        self == Json::Array(*items),
                        out@.len() == i,
                        forall|j: int| 0 <= j < i ==> json_view(#[trigger] out@[j]) == json_view(items@[j]),
                    decreases items@.len() - i,
                {
                    proof {
                        assert(decreases_to!(self => self->Array_0));
                        assert(decreases_to!(items@ => items@[i as int]));
                    }
                    out.push(items[i].copy());
                    i += 1;
                }
                proof {
                    assert(items_view(out@) =~= items_view(items@));
                }
                Json::Array(out)
            },
            Json::Object(members) => {
                let mut out: Vec<(String, Json)> = Vec::new();
                let mut i: usize = 0;
                proof {
                    assert(members@.take(0) =~= Seq::empty());
                }
                while i < members.len()
                    invariant
                        i <= members@.len(),
                        self == Json::Object(*members),
                        members_view(out@) == members_view(members@.take(i as int)),
                    decreases members@.len() - i,
                {
                    let ghost before = out@;
                    proof {
                        assert(decreases_to!(self => self->Object_0));
                        assert(decreases_to!(members@ => members@[i as int]));
                        assert(decreases_to!(members@[i as int] => members@[i as int].1));
                    }
                    out.push((members[i].0.clone(), members[i].1.copy()));
                    proof {
                        assert(out@.drop_last() =~= before);
                        assert(members@.take(i + 1).drop_last() =~= members@.take(i as int));
                        assert(members@.take(i + 1).last() == members@[i as int]);
                    }
                    i += 1;
                }
                proof {
                    assert(members@.take(i as int) =~= members@);
                }
                Json::Object(out)
            },
        }
    }
}

/// Adds a member to an object under construction, in place of an earlier one of that name.
pub fn put(members: &mut Vec<(String, Json)>, key: &str, value: Json)
    ensures
        members_view(final(members)@) == members_view(old(members)@).insert(key@, value@),
{
    let ghost before = members@;
    members.push((key.to_owned(), value));
    proof {
        assert(members@.drop_last() =~= before);
    }
}

// ---------------------------------------------------------------------------
// The serde_json crate
// ---------------------------------------------------------------------------

/// A parsed document of `serde_json`.
#[verifier::external_type_specification]
#[verifier::external_body]
pub struct ExValue(serde_json::Value);

/// A JSON number of `serde_json`: an integer of 64 bits or a finite double.
#[verifier::external_type_specification]
#[verifier::external_body]
pub struct ExNumber(serde_json::Number);

/// A parse or render error of `serde_json`.
#[verifier::external_type_specification]
#[verifier::external_body]
pub struct ExError(serde_json::Error);

/// One level of a parsed document.
pub enum JsonNode {
    Null,
    Bool(bool),
    Number(serde_json::Number),
    Str(String),
    Array(Vec<serde_json::Value>),
    Object(Vec<(String, serde_json::Value)>),
}

/// What a value of `serde_json` says.
pub uninterp spec fn value_model(value: serde_json::Value) -> JsonView;

/// What the members of one level say.
pub open spec fn node_members(members: Seq<(String, serde_json::Value)>) -> Map<Seq<char>, JsonView>
    decreases members.len(),
{
    if members.len() == 0 {
        Map::empty()
    } else {
        node_members(members.drop_last()).insert(
            members.last().0@,
            value_model(members.last().1),
        )
    }
}

/// No name occurs twice.
pub open spec fn distinct_names(members: Seq<(String, serde_json::Value)>) -> bool {
    forall|i: int, j: int|
        0 <= i < j < members.len() ==> (#[trigger] members[i]).0@ != (#[trigger] members[j]).0@
}

/// What one level of a document says.
pub open spec fn node_model(node: JsonNode) -> JsonView {
    match node {
        JsonNode::Null => JsonView::Null,
        JsonNode::Bool(b) => JsonView::Bool(b),
        JsonNode::Number(n) => JsonView::Number(n),
        JsonNode::Str(s) => JsonView::Str(s@),
        JsonNode::Array(items) => JsonView::Array(
            items@.map_values(|v: serde_json::Value| value_model(v)),
        ),
        JsonNode::Object(members) => JsonView::Object(node_members(members@)),
    }
}

/// No name occurs twice among the members of a level.
pub open spec fn node_distinct(node: JsonNode) -> bool {
    match node {
        JsonNode::Object(members) => distinct_names(members@),
        _ => true,
    }
}

/// Takes one level off a `serde_json::Value`: its variant with what it holds. The members of a
/// `serde_json::Map` have distinct names.
#[verifier::external_body]
fn open_value(value: serde_json::Value) -> (r: JsonNode)
    ensures
        node_model(r) == value_model(value),
        node_distinct(r),
{
    match value {
        serde_json::Value::Null => JsonNode::Null,
        serde_json::Value::Bool(b) => JsonNode::Bool(b),
        serde_json::Value::Number(n) => JsonNode::Number(n),
        serde_json::Value::String(s) => JsonNode::Str(s),
        serde_json::Value::Array(items) => JsonNode::Array(items),
        serde_json::Value::Object(members) => JsonNode::Object(members.into_iter().collect()),
    }
}

/// Makes a `serde_json::Value` of one level.
#[verifier::external_body]
fn close_value(node: JsonNode) -> (r: serde_json::Value)
    requires
        node_distinct(node),
    ensures
        value_model(r) == node_model(node),
{
    match node {
        JsonNode::Null => serde_json::Value::Null,
        JsonNode::Bool(b) => serde_json::Value::Bool(b),
        JsonNode::Number(n) => serde_json::Value::Number(n),
        JsonNode::Str(s) => serde_json::Value::String(s),
        JsonNode::Array(items) => serde_json::Value::Array(items),
        JsonNode::Object(members) => serde_json::Value::Object(members.into_iter().collect()),
    }
}

/// `serde_json::Number`'s `Clone` returns the same number.
#[verifier::external_body]
fn clone_number(n: &serde_json::Number) -> (r: serde_json::Number)
    ensures
        r == *n,
{
    n.clone()
}

/// What `serde_json::Number::as_i64` returns.
pub uninterp spec fn number_int(n: serde_json::Number) -> Option<i64>;

/// `serde_json::Number::as_i64`: the integer, where the number is one that an `i64` holds.
#[verifier::external_body]
pub(crate) fn number_as_i64(n: &serde_json::Number) -> (r: Option<i64>)
    ensures
        r == number_int(*n),
{
    n.as_i64()
}

/// What `serde_json::Number`'s `From<i64>` makes of an integer.
pub uninterp spec fn int_number(i: i64) -> serde_json::Number;

/// `serde_json::Number`'s `From<i64>`, whose result `as_i64` reads back.
#[verifier::external_body]
pub(crate) fn number_from_i64(i: i64) -> (r: serde_json::Number)
    ensures
        r == int_number(i),
        number_int(r) == Some(i),
{
    serde_json::Number::from(i)
}

/// What a number says as a double: `serde_json::Value`'s `From` for doubles, applied to the
/// number's `as_f64`.
pub uninterp spec fn number_double(n: serde_json::Number) -> Option<JsonView>;

/// `serde_json::Number::as_f64`, turned back into a document by `Value::from`.
#[verifier::external_body]
pub(crate) fn number_as_double(n: &serde_json::Number) -> (r: Option<serde_json::Value>)
    ensures
        match r {
            Some(v) => number_double(*n) == Some(value_model(v)),
            None => number_double(*n) is None,
        },
{
    n.as_f64().map(serde_json::Value::from)
}

proof fn lemma_node_members(members: Seq<(String, serde_json::Value)>, i: int)
    requires
        0 <= i < members.len(),
        distinct_names(members),
    ensures
        node_members(members).dom().finite(),
        node_members(members).contains_key(members[i].0@),
        node_members(members)[members[i].0@] == value_model(members[i].1),
    decreases members.len(),
{
    if members.len() == 1 {
        assert(members.drop_last() =~= Seq::empty());
        assert(node_members(members.drop_last()) =~= Map::empty());
    } else if i < members.len() - 1 {
        lemma_node_members(members.drop_last(), i);
        assert(members.drop_last()[i] == members[i]);
        assert(members[i].0@ != members[members.len() - 1].0@);
    } else {
        lemma_node_members(members.drop_last(), 0);
    }
}

/// The document that a `serde_json::Value` holds.
pub(crate) fn from_value(value: serde_json::Value) -> (r: Json)
    ensures
        r@ == value_model(value),
    decreases value_model(value),
{
    let node = open_value(value);
    match node {
        JsonNode::Null => Json::Null,
        JsonNode::Bool(b) => Json::Bool(b),
        JsonNode::Number(n) => Json::Number(n),
        JsonNode::Str(s) => Json::Str(s),
        JsonNode::Array(items) => {
            let ghost all = items@;
            let ghost models = all.map_values(|v: serde_json::Value| value_model(v));
            let mut out: Vec<Json> = Vec::new();
            for item in it: items
                invariant
                    it.seq() == all,
                    models == all.map_values(|v: serde_json::Value| value_model(v)),
                    value_model(value) == JsonView::Array(models),
                    out@.len() == it.index(),
                    forall|j: int|
                        0 <= j < out@.len() ==> json_view(#[trigger] out@[j]) == value_model(all[j]),
            {
                proof {
                    assert(item == all[it.index() as int]);
                    assert(models[it.index() as int] == value_model(item));
                    assert(decreases_to!(value_model(value) => value_model(value)->Array_0));
                    assert(decreases_to!(models => models[it.index() as int]));
                }
                out.push(from_value(item));
            }
            proof {
                assert(items_view(out@) =~= models);
            }
            Json::Array(out)
        },
        JsonNode::Object(members) => {
            let ghost all = members@;
            let ghost models = node_members(all);
            let mut out: Vec<(String, Json)> = Vec::new();
            proof {
                assert(all.take(0) =~= Seq::empty());
            }
            for pair in it: members
                invariant
                    it.seq() == all,
                    models == node_members(all),
                    distinct_names(all),
                    value_model(value) == JsonView::Object(models),
                    members_view(out@) == node_members(all.take(it.index() as int)),
            {
                let ghost i = it.index() as int;
                let (name, child) = pair;
                proof {
                    lemma_node_members(all, i);
                    assert((name, child) == all[i]);
                    assert(decreases_to!(value_model(value) => value_model(value)->Object_0));
                    assert(decreases_to!(models => models[name@]));
                }
                let ghost before = out@;
                out.push((name, from_value(child)));
                proof {
                    assert(out@.drop_last() =~= before);
                    assert(all.take(i + 1).drop_last() =~= all.take(i));
                    assert(all.take(i + 1).last() == all[i]);
                }
            }
            proof {
                assert(all.take(all.len() as int) =~= all);
            }
            Json::Object(out)
        },
    }
}

proof fn lemma_node_replace(members: Seq<(String, serde_json::Value)>, p: int, new: (String, serde_json::Value))
    requires
        0 <= p < members.len(),
        distinct_names(members),
        members[p].0@ == new.0@,
    ensures
        node_members(members.update(p, new)) == node_members(members).insert(
            new.0@,
            value_model(new.1),
        ),
        distinct_names(members.update(p, new)),
    decreases members.len(),
{
    let updated = members.update(p, new);
    let last = members.len() - 1;
    if p == last {
        assert(updated.drop_last() =~= members.drop_last());
    } else {
        lemma_node_replace(members.drop_last(), p, new);
        assert(updated.drop_last() =~= members.drop_last().update(p, new));
        assert(members[p].0@ != members[last].0@);
    }
    assert(node_members(updated) =~= node_members(members).insert(new.0@, value_model(new.1)));
}

/// The `serde_json::Value` that says what a document says.
pub(crate) fn to_value(json: &Json) -> (r: serde_json::Value)
    ensures
        value_model(r) == json@,
    decreases json,
{
    match json {
        Json::Null => close_value(JsonNode::Null),
        Json::Bool(b) => close_value(JsonNode::Bool(*b)),
        Json::Number(n) => close_value(JsonNode::Number(clone_number(n))),
        Json::Str(s) => close_value(JsonNode::Str(s.clone())),
        Json::Array(items) => {
            let mut out: Vec<serde_json::Value> = Vec::new();
            let mut i: usize = 0;
            while i < items.len()
                invariant
                    i <= items@.len(),
                    json == Json::Array(*items),
                    out@.len() == i,
                    forall|j: int|
                        0 <= j < i ==> value_model(#[trigger] out@[j]) == json_view(items@[j]),
                decreases items@.len() - i,
            {
                proof {
                    assert(decreases_to!(json => json->Array_0));
                    assert(decreases_to!(items@ => items@[i as int]));
                }
                out.push(to_value(&items[i]));
                i += 1;
            }
            proof {
                assert(out@.map_values(|v: serde_json::Value| value_model(v)) =~= items_view(
                    items@,
                ));
            }
            close_value(JsonNode::Array(out))
        },
        Json::Object(members) => {
            let mut out: Vec<(String, serde_json::Value)> = Vec::new();
            let mut i: usize = 0;
            proof {
                assert(members@.take(0) =~= Seq::empty());
            }
            while i < members.len()
                invariant
                    i <= members@.len(),
                    json == Json::Object(*members),
                    distinct_names(out@),
                    node_members(out@) == members_view(members@.take(i as int)),
                decreases members@.len() - i,
            {
                proof {
                    assert(decreases_to!(json => json->Object_0));
                    assert(decreases_to!(members@ => members@[i as int]));
                    assert(decreases_to!(members@[i as int] => members@[i as int].1));
                    assert(members@.take(i + 1).drop_last() =~= members@.take(i as int));
                    assert(members@.take(i + 1).last() == members@[i as int]);
                }
                let value = to_value(&members[i].1);
                let name = members[i].0.clone();
                let mut p: usize = 0;
                while p < out.len() && !same_text(&out[p].0, &name)
                    invariant
                        p <= out@.len(),
                        forall|q: int| 0 <= q < p ==> (#[trigger] out@[q]).0@ != name@,
                    decreases out@.len() - p,
                {
                    p += 1;
                }
                let ghost before = out@;
                if p < out.len() {
                    proof {
                        lemma_node_replace(out@, p as int, (name, value));
                    }
                    out.set(p, (name, value));
                } else {
                    out.push((name, value));
                    proof {
                        assert(out@.drop_last() =~= before);
                    }
                }
                i += 1;
            }
            proof {
                assert(members@.take(i as int) =~= members@);
            }
            close_value(JsonNode::Object(out))
        },
    }
}

// ---------------------------------------------------------------------------
// Parsing and rendering
// ---------------------------------------------------------------------------

/// What `serde_json::from_str` makes of a text; nothing where it reports an error.
pub uninterp spec fn parsed_text(text: Seq<char>) -> Option<JsonView>;

/// What `serde_json::from_slice` makes of bytes; nothing where it reports an error.
pub uninterp spec fn parsed_bytes(bytes: Seq<u8>) -> Option<JsonView>;

/// What `serde_json::to_string` writes for a value.
pub uninterp spec fn compact_text(doc: JsonView) -> Seq<char>;

/// What `serde_json::to_string_pretty` writes for a value.
pub uninterp spec fn pretty_text(doc: JsonView) -> Seq<char>;

/// `text` is a string somewhere in the document.
pub open spec fn holds_string(doc: JsonView, text: Seq<char>) -> bool
    decreases doc,
{
    match doc {
        JsonView::Str(s) => s == text,
        JsonView::Array(items) => exists|i: int|
            0 <= i < items.len() && holds_string(#[trigger] items[i], text),
        JsonView::Object(members) => members.dom().finite() && exists|k: Seq<char>|
            members.contains_key(k) && holds_string(#[trigger] members[k], text),
        _ => false,
    }
}

/// A character that a JSON string holds as it is: no control character, quotation mark or
/// backslash.
pub open spec fn unescaped(c: char) -> bool {
    c as int >= 0x20 && c != '"' && c != '\\'
}

/// A text that a JSON string holds as it is.
pub open spec fn all_unescaped(text: Seq<char>) -> bool {
    forall|i: int| 0 <= i < text.len() ==> unescaped(#[trigger] text[i])
}

/// The number is an integer that an `i64` holds, or is read back as it was where it stands alone.
pub open spec fn is_kept(n: serde_json::Number) -> bool {
    ||| number_int(n) is Some
    ||| parsed_text(compact_text(JsonView::Number(n))) == Some(JsonView::Number(n))
}

/// The number of levels that the parser accepts.
pub const PARSE_DEPTH: usize = 127;

/// All numbers in the document are kept, and it nests at most `depth` levels deep.
pub open spec fn plain(doc: JsonView, depth: nat) -> bool
    decreases depth,
{
    match doc {
        JsonView::Number(n) => is_kept(n),
        JsonView::Array(items) => depth > 0 && forall|i: int|
            0 <= i < items.len() ==> plain(#[trigger] items[i], (depth - 1) as nat),
        JsonView::Object(members) => depth > 0 && forall|k: Seq<char>|
            members.contains_key(k) ==> plain(#[trigger] members[k], (depth - 1) as nat),
        _ => true,
    }
}

/// Calls `serde_json::from_str`, whose result depends on the text alone.
#[verifier::external_body]
fn parse_text_value(text: &str) -> (r: Result<serde_json::Value, serde_json::Error>)
    ensures
        match r {
            Ok(v) => parsed_text(text@) == Some(value_model(v)),
            Err(_) => parsed_text(text@) is None,
        },
{
    serde_json::from_str(text)
}

/// Calls `serde_json::from_slice`, whose result depends on the bytes alone.
#[verifier::external_body]
fn parse_bytes_value(bytes: &[u8]) -> (r: Result<serde_json::Value, serde_json::Error>)
    ensures
        match r {
            Ok(v) => parsed_bytes(bytes@) == Some(value_model(v)),
            Err(_) => parsed_bytes(bytes@) is None,
        },
{
    serde_json::from_slice(bytes)
}

/// Calls `serde_json::to_string` on a value, which cannot fail there: a value's names are
/// strings. The text depends on what the value says alone, because a `serde_json::Map` is
/// written in the order of its names. A string that needs no escape stands in the text as it
/// is.
#[verifier::external_body]
fn render_value(value: &serde_json::Value) -> (r: Result<String, serde_json::Error>)
    ensures
        r is Ok,
        r->Ok_0@ == compact_text(value_model(*value)),
        forall|s: Seq<char>|
            #![trigger holds_string(value_model(*value), s)]
            holds_string(value_model(*value), s) && all_unescaped(s) ==> text::occurs_in(
                r->Ok_0@,
                s,
            ),
{
    serde_json::to_string(value)
}

/// Calls `serde_json::to_string_pretty` on a value, which cannot fail there. `from_str` reads
/// the text back as the same value, within the depth that the parser accepts, where each number
/// is read back as it was where it stands alone, as integers are: a double may come back changed.
#[verifier::external_body]
fn render_value_pretty(value: &serde_json::Value) -> (r: Result<String, serde_json::Error>)
    ensures
        r is Ok,
        r->Ok_0@ == pretty_text(value_model(*value)),
        plain(value_model(*value), PARSE_DEPTH as nat) ==> parsed_text(r->Ok_0@) == Some(value_model(*value)),
{
    serde_json::to_string_pretty(value)
}

/// Why a text is no JSON document.
#[derive(Clone, Copy, PartialEq, Eq, Debug, Structural)]
pub struct NotJson;

/// Parses a text.
pub fn parse_text(input: &str) -> (r: Result<Json, NotJson>)
    ensures
        match r {
            Ok(doc) => parsed_text(input@) == Some(doc@),
            Err(_) => parsed_text(input@) is None,
        },
{
    match parse_text_value(input) {
        Ok(value) => Ok(from_value(value)),
        Err(_) => Err(NotJson),
    }
}

/// Parses bytes.
pub fn parse_bytes(input: &[u8]) -> (r: Result<Json, NotJson>)
    ensures
        match r {
            Ok(doc) => parsed_bytes(input@) == Some(doc@),
            Err(_) => parsed_bytes(input@) is None,
        },
{
    match parse_bytes_value(input) {
        Ok(value) => Ok(from_value(value)),
        Err(_) => Err(NotJson),
    }
}

impl Json {
    /// The document in compact notation.
    pub fn render(&self) -> (r: String)
        ensures
            r@ == compact_text(self@),
            forall|s: Seq<char>|
                #![trigger holds_string(self@, s)]
                holds_string(self@, s) && all_unescaped(s) ==> text::occurs_in(r@, s),
    {
        let value = to_value(self);
        match render_value(&value) {
            Ok(rendered) => rendered,
            Err(_) => String::new(),
        }
    }

    /// The document in indented notation.
    pub fn render_pretty(&self) -> (r: String)
        ensures
            r@ == pretty_text(self@),
            plain(self@, PARSE_DEPTH as nat) ==> parsed_text(r@) == Some(self@),
    {
        let value = to_value(self);
        match render_value_pretty(&value) {
            Ok(rendered) => rendered,
            Err(_) => String::new(),
        }
    }

    /// The integer of a number document that an `i64` holds.
    pub fn as_i64(&self) -> (r: Option<i64>)
        ensures
            r == int_of(Some(self@)),
    {
        match self {
            Json::Number(n) => number_as_i64(n),
            _ => None,
        }
    }

    /// A number document taken as a double.
    pub fn as_double(&self) -> (r: Option<Json>)
        ensures
            match r {
                Some(doc) => double_of(Some(self@)) == Some(doc@),
                None => double_of(Some(self@)) is None,
            },
    {
        match self {
            Json::Number(n) => match number_as_double(n) {
                Some(value) => Some(from_value(value)),
                None => None,
            },
            _ => None,
        }
    }

    /// An integer document.
    pub fn integer(i: i64) -> (r: Json)
        ensures
            r@ == JsonView::Number(int_number(i)),
            int_of(Some(r@)) == Some(i),
    {
        Json::Number(number_from_i64(i))
    }
}

/// The integer that a number document says.
pub open spec fn int_of(doc: Option<JsonView>) -> Option<i64> {
    match doc {
        Some(JsonView::Number(n)) => number_int(n),
        _ => None,
    }
}

/// The double that a number document says.
pub open spec fn double_of(doc: Option<JsonView>) -> Option<JsonView> {
    match doc {
        Some(JsonView::Number(n)) => number_double(n),
        _ => None,
    }
}

// ---------------------------------------------------------------------------
// Laws
// ---------------------------------------------------------------------------

/// What is read of a document is what stands in it, and only where it is of the kind that is asked
/// for.
pub proof fn law_reading_a_document(doc: JsonView, members: Map<Seq<char>, JsonView>, key: Seq<char>)
    ensures
        members.contains_key(key) ==> member(JsonView::Object(members), key) == Some(members[key]),
        !members.contains_key(key) ==> member(JsonView::Object(members), key) is None,
        !(doc is Object) ==> member(doc, key) is None,
        string_of(Some(doc)) is Some <==> doc is Str,
        doc is Str ==> string_of(Some(doc)) == Some(doc->Str_0),
        items_of(Some(doc)) is Some <==> doc is Array,
        doc is Array ==> items_of(Some(doc)) == Some(doc->Array_0),
        bool_of(Some(doc)) is Some <==> doc is Bool,
        doc is Bool ==> bool_of(Some(doc)) == Some(doc->Bool_0),
        !(doc is Number) ==> int_of(Some(doc)) is None && double_of(Some(doc)) is None,
        doc is Number ==> int_of(Some(doc)) == number_int(doc->Number_0) && double_of(Some(doc))
            == number_double(doc->Number_0),
        string_of(None) is None && items_of(None) is None && bool_of(None) is None && int_of(None)
            is None && double_of(None) is None,
        member_string(JsonView::Object(members), key) is Some <==> members.contains_key(key)
            && members[key] is Str,
{
}

/// Of several members of one name the last one counts, and it hides no other name.
pub proof fn law_last_member_counts(
    members: Seq<(String, Json)>,
    name: String,
    value: Json,
    key: Seq<char>,
)
    ensures
        ({
            let after = members_view(members.push((name, value)));
            &&& member(JsonView::Object(after), name@) == Some(value@)
            &&& key != name@ ==> member(JsonView::Object(after), key) == member(
                JsonView::Object(members_view(members)),
                key,
            )
        }),
        member(JsonView::Object(members_view(Seq::empty())), key) is None,
{
    assert(members.push((name, value)).drop_last() =~= members);
}

/// The items of an array keep their places.
pub proof fn law_items_keep_their_places(items: Seq<Json>, i: int)
    ensures
        items_view(items).len() == items.len(),
        0 <= i < items.len() ==> items_view(items)[i] == items[i]@,
{
}

/// A text stands as it is in a JSON string exactly if it has no character that must be escaped.
pub proof fn law_what_needs_no_escape(text: Seq<char>, c: char)
    ensures
        all_unescaped(text.push(c)) <==> all_unescaped(text) && c != '"' && c != '\\' && c >= ' ',
        all_unescaped(Seq::empty()),
{
    let more = text.push(c);
    assert(more[text.len() as int] == c);
    if all_unescaped(more) {
        assert forall|i: int| 0 <= i < text.len() implies unescaped(#[trigger] text[i]) by {
            assert(more[i] == text[i]);
        }
    }
}

/// A string stands in a document exactly if the document is that string, or it stands in one of the
/// items or members.
pub proof fn law_where_a_string_stands(
    items: Seq<JsonView>,
    members: Map<Seq<char>, JsonView>,
    key: Seq<char>,
    doc: JsonView,
    s: Seq<char>,
    text: Seq<char>,
)
    requires
        members.dom().finite(),
        !members.contains_key(key),
    ensures
        holds_string(JsonView::Str(s), text) <==> s == text,
        !holds_string(JsonView::Null, text),
        doc is Bool || doc is Number ==> !holds_string(doc, text),
        holds_string(JsonView::Array(items.push(doc)), text) <==> holds_string(
            JsonView::Array(items),
            text,
        ) || holds_string(doc, text),
        !holds_string(JsonView::Array(Seq::empty()), text),
        holds_string(JsonView::Object(members.insert(key, doc)), text) <==> holds_string(
            JsonView::Object(members),
            text,
        ) || holds_string(doc, text),
        !holds_string(JsonView::Object(Map::empty()), text),
{
    let list = JsonView::Array(items);
    let longer = JsonView::Array(items.push(doc));
    assert(longer->Array_0[items.len() as int] == doc);
    if holds_string(list, text) {
        let i = choose|i: int|
            0 <= i < list->Array_0.len() && holds_string(#[trigger] list->Array_0[i], text);
        assert(longer->Array_0[i] == list->Array_0[i]);
    }
    if holds_string(longer, text) && !holds_string(doc, text) {
        let i = choose|i: int|
            0 <= i < longer->Array_0.len() && holds_string(#[trigger] longer->Array_0[i], text);
        assert(list->Array_0[i] == longer->Array_0[i]);
    }
    let object = JsonView::Object(members);
    let larger = JsonView::Object(members.insert(key, doc));
    assert(larger->Object_0[key] == doc);
    assert(larger->Object_0.dom() =~= members.dom().insert(key));
    if holds_string(object, text) {
        let k = choose|k: Seq<char>|
            object->Object_0.contains_key(k) && holds_string(#[trigger] object->Object_0[k], text);
        assert(larger->Object_0[k] == object->Object_0[k]);
    }
    if holds_string(larger, text) && !holds_string(doc, text) {
        let k = choose|k: Seq<char>|
            larger->Object_0.contains_key(k) && holds_string(#[trigger] larger->Object_0[k], text);
        assert(object->Object_0[k] == larger->Object_0[k]);
    }
}

} // verus!
