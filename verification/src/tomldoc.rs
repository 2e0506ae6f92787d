//! TOML documents, one level at a time: the boundary to the `toml` crate, which parses and
//! renders them.

use vstd::prelude::*;

use crate::text::{chars_of, same_text};

verus! {

/// A value of the `toml` crate.
#[verifier::external_type_specification]
#[verifier::external_body]
pub struct ExTomlValue(toml::Value);

/// What a TOML document says. Numbers and dates are carried through as they are.
#[verifier::ext_equal]
pub enum TomlView {
    Str(Seq<char>),
    Bool(bool),
    Array(Seq<TomlView>),
    Table(Map<Seq<char>, TomlView>),
    Other(toml::Value),
}

/// One level of a TOML document.
pub enum TomlNode {
    Str(String),
    Bool(bool),
    Array(Vec<toml::Value>),
    Table(Vec<(String, toml::Value)>),
    Other(toml::Value),
}

/// What a value of the `toml` crate says.
pub uninterp spec fn toml_model(value: toml::Value) -> TomlView;

/// What values say.
pub open spec fn models(values: Seq<toml::Value>) -> Seq<TomlView> {
    values.map_values(|v: toml::Value| toml_model(v))
}

/// What the members of a table say: later ones replace earlier ones of the same name.
pub open spec fn table_model(members: Seq<(String, toml::Value)>) -> Map<Seq<char>, TomlView>
    decreases members.len(),
{
    if members.len() == 0 {
        Map::empty()
    } else {
        table_model(members.drop_last()).insert(members.last().0@, toml_model(members.last().1))
    }
}

/// No name occurs twice.
pub open spec fn distinct_keys(members: Seq<(String, toml::Value)>) -> bool {
    forall|i: int, j: int|
        0 <= i < j < members.len() ==> (#[trigger] members[i]).0@ != (#[trigger] members[j]).0@
}

/// What one level says.
pub open spec fn toml_node_model(node: TomlNode) -> TomlView {
    match node {
        TomlNode::Str(s) => TomlView::Str(s@),
        TomlNode::Bool(b) => TomlView::Bool(b),
        TomlNode::Array(items) => TomlView::Array(models(items@)),
        TomlNode::Table(members) => TomlView::Table(table_model(members@)),
        TomlNode::Other(value) => TomlView::Other(value),
    }
}

/// No name occurs twice in a table.
pub open spec fn toml_node_distinct(node: TomlNode) -> bool {
    match node {
        TomlNode::Table(members) => distinct_keys(members@),
        _ => true,
    }
}

/// Takes one level off a `toml::Value`: its variant with what it holds, but for a number or a
/// date, which stays as it is. The members of a table have distinct names.
#[verifier::external_body]
pub(crate) fn open_toml(value: toml::Value) -> (r: TomlNode)
    ensures
        toml_node_model(r) == toml_model(value),
        toml_node_distinct(r),
        r is Other ==> r->Other_0 == value,
{
    match value {
        toml::Value::String(s) => TomlNode::Str(s),
        toml::Value::Boolean(b) => TomlNode::Bool(b),
        toml::Value::Array(items) => TomlNode::Array(items),
        toml::Value::Table(members) => TomlNode::Table(members.into_iter().collect()),
        other => TomlNode::Other(other),
    }
}

/// Makes a `toml::Value` of one level.
#[verifier::external_body]
pub(crate) fn close_toml(node: TomlNode) -> (r: toml::Value)
    requires
        toml_node_distinct(node),
        !(node is Other),
    ensures
        toml_model(r) == toml_node_model(node),
{
    match node {
        TomlNode::Str(s) => toml::Value::String(s),
        TomlNode::Bool(b) => toml::Value::Boolean(b),
        TomlNode::Array(items) => toml::Value::Array(items),
        TomlNode::Table(members) => toml::Value::Table(members.into_iter().collect()),
        TomlNode::Other(value) => value,
    }
}

/// What parsing a text as `toml::Value` gives, or the words of its error.
pub uninterp spec fn parsed_toml(text: Seq<char>) -> Result<TomlView, Seq<char>>;

/// Calls `str::parse` for `toml::Value`, whose result depends on the text alone. Its error is
/// turned into words.
#[verifier::external_body]
pub(crate) fn parse_toml(text: &str) -> (r: Result<toml::Value, String>)
    ensures
        match r {
            Ok(value) => parsed_toml(text@) == Ok::<_, Seq<char>>(toml_model(value)),
            Err(e) => parsed_toml(text@) == Err::<TomlView, _>(e@),
        },
{
    text.parse::<toml::Value>().map_err(|e| e.to_string())
}

/// What `toml::to_string_pretty` writes for a value, or the words of its error.
pub uninterp spec fn pretty_toml(doc: TomlView) -> Result<Seq<char>, Seq<char>>;

/// The name that the `toml_datetime` crate keeps for itself: a table that has it first is read
/// as a date.
pub open spec fn private_name() -> Seq<char> {
    "$__toml_private_datetime"@
}

/// The number of values inside each other, and that of names in the header of a table, that the
/// parser accepts.
pub const NEST_LIMIT: usize = 79;

/// A value that is written in one place: no table in it has the private name of a date, and it
/// nests at most `depth` levels deep.
pub open spec fn value_fits(doc: TomlView, depth: nat) -> bool
    decreases depth,
{
    match doc {
        TomlView::Array(items) => depth > 0 && forall|i: int|
            0 <= i < items.len() ==> value_fits(#[trigger] items[i], (depth - 1) as nat),
        TomlView::Table(members) => depth > 0 && !members.contains_key(private_name()) && forall|
            k: Seq<char>,
        |
            members.contains_key(k) ==> value_fits(#[trigger] members[k], (depth - 1) as nat),
        _ => true,
    }
}

/// An array that is written as one table after the other.
pub open spec fn lists_tables(items: Seq<TomlView>) -> bool {
    items.len() > 0 && forall|i: int| 0 <= i < items.len() ==> #[trigger] items[i] is Table
}

/// A table with a header of its own fits what the parser accepts: it does not have the private
/// name of a date, `names` more names can stand in the headers of the tables in it, and its other
/// values fit.
pub open spec fn table_fits(doc: TomlView, names: nat) -> bool
    decreases names,
{
    match doc {
        TomlView::Table(members) => !members.contains_key(private_name()) && forall|k: Seq<char>|
            #![trigger members[k]]
            members.contains_key(k) ==> match members[k] {
                TomlView::Table(_) => names > 0 && table_fits(members[k], (names - 1) as nat),
                TomlView::Array(items) => if lists_tables(items) {
                    names > 0 && forall|i: int|
                        0 <= i < items.len() ==> table_fits(
                            #[trigger] items[i],
                            (names - 1) as nat,
                        )
                } else {
                    value_fits(members[k], NEST_LIMIT as nat)
                },
                _ => true,
            },
        _ => false,
    }
}

/// `value` is a number or a date that stands in the document, at most `depth` levels deep.
pub open spec fn stands_in(value: toml::Value, doc: TomlView, depth: nat) -> bool
    decreases depth,
{
    match doc {
        TomlView::Other(v) => v == value,
        TomlView::Array(items) => depth > 0 && exists|i: int|
            0 <= i < items.len() && stands_in(value, #[trigger] items[i], (depth - 1) as nat),
        TomlView::Table(members) => depth > 0 && exists|k: Seq<char>|
            members.contains_key(k) && stands_in(value, #[trigger] members[k], (depth - 1) as nat),
        _ => false,
    }
}

/// `value` was read from the text.
pub open spec fn is_read_from(value: toml::Value, text: Seq<char>, depth: nat) -> bool {
    match parsed_toml(text) {
        Ok(doc) => stands_in(value, doc, depth),
        Err(_) => false,
    }
}

/// Some text holds this number or date.
pub open spec fn is_readable(value: toml::Value) -> bool {
    exists|text: Seq<char>, depth: nat| is_read_from(value, text, depth)
}

/// Each number and each date in the document was read from a text.
pub open spec fn all_readable(doc: TomlView) -> bool {
    forall|v: toml::Value, depth: nat| #[trigger] stands_in(v, doc, depth) ==> is_readable(v)
}

/// A table that holds nothing but a number or a date.
pub open spec fn alone(value: toml::Value) -> TomlView {
    TomlView::Table(
        Map::<Seq<char>, TomlView>::empty().insert("value"@, TomlView::Other(value)),
    )
}

/// The number or date is read back as it was, where it stands alone.
pub open spec fn is_kept(value: toml::Value) -> bool {
    match pretty_toml(alone(value)) {
        Ok(text) => parsed_toml(text) == Ok::<_, Seq<char>>(alone(value)),
        Err(_) => false,
    }
}

/// Each number and each date in the document is read back as it was, where it stands alone.
pub open spec fn all_kept(doc: TomlView) -> bool {
    forall|v: toml::Value, depth: nat| #[trigger] stands_in(v, doc, depth) ==> is_kept(v)
}

/// The documents are the same, but for what the numbers and dates in them are.
pub open spec fn alike(a: TomlView, b: TomlView) -> bool
    decreases a,
{
    match (a, b) {
        (TomlView::Other(_), TomlView::Other(_)) => true,
        (TomlView::Array(x), TomlView::Array(y)) => x.len() == y.len() && forall|i: int|
            0 <= i < x.len() ==> alike(#[trigger] x[i], y[i]),
        (TomlView::Table(x), TomlView::Table(y)) => x.dom() == y.dom() && (x.dom().finite()
            ==> forall|k: Seq<char>| x.contains_key(k) ==> alike(#[trigger] x[k], y[k])),
        _ => a == b,
    }
}

/// The number of characters of a run of quotation marks that is too long to be written.
pub const LONG_RUN: usize = 256;

/// A long run of a character begins at a position.
pub open spec fn run_at(text: Seq<char>, c: char, at: int) -> bool {
    &&& 0 <= at
    &&& at + LONG_RUN <= text.len()
    &&& forall|i: int| at <= i < at + LONG_RUN ==> #[trigger] text[i] == c
}

/// The text holds a long run of a character.
pub open spec fn has_run(text: Seq<char>, c: char) -> bool {
    exists|at: int| #[trigger] run_at(text, c, at)
}

/// The text holds no long run of single or of double quotation marks.
pub open spec fn is_calm_text(text: Seq<char>) -> bool {
    !has_run(text, '\'') && !has_run(text, '"')
}

/// No string of the document, names aside, holds a long run of quotation marks.
pub open spec fn is_calm(doc: TomlView) -> bool
    decreases doc,
{
    match doc {
        TomlView::Str(s) => is_calm_text(s),
        TomlView::Array(items) => forall|i: int|
            0 <= i < items.len() ==> is_calm(#[trigger] items[i]),
        TomlView::Table(members) => members.dom().finite() ==> forall|k: Seq<char>|
            members.contains_key(k) ==> is_calm(#[trigger] members[k]),
        _ => true,
    }
}

/// What reading the text of a document back gives: the same document but for its numbers and
/// dates, and wholly the same where each of those is kept.
pub open spec fn reads_back(text: Seq<char>, doc: TomlView) -> bool {
    match parsed_toml(text) {
        Ok(read) => alike(doc, read) && (all_kept(doc) ==> read == doc),
        Err(_) => false,
    }
}

/// Calls `toml::to_string_pretty`, whose result depends on what the value says alone, because a
/// table is written in the order of its names. Its error is turned into words; it succeeds on
/// tables alone. Parsing reads the text back: stated for documents that fit what the parser
/// accepts, whose tables do not have the private name of a date, and whose numbers and dates came
/// from a text, because a date that was put together may be none. A number or a date comes back
/// as it does where it stands alone: the sign of what is no number is lost. The crate counts the
/// quotation marks that follow each other in a string in a byte, which a long run overflows; of
/// names it counts none.
#[verifier::external_body]
pub(crate) fn render_toml(value: &toml::Value) -> (r: Result<String, String>)
    requires
        is_calm(toml_model(*value)),
    ensures
        match r {
            Ok(text) => pretty_toml(toml_model(*value)) == Ok::<_, Seq<char>>(text@) && (table_fits(
                toml_model(*value),
                NEST_LIMIT as nat,
            ) && all_readable(toml_model(*value)) ==> reads_back(text@, toml_model(*value))),
            Err(e) => pretty_toml(toml_model(*value)) == Err::<Seq<char>, _>(e@),
        },
{
    toml::to_string_pretty(value).map_err(|e| e.to_string())
}

proof fn lemma_keys_listed(members: Seq<(String, toml::Value)>, key: Seq<char>)
    ensures
        table_model(members).contains_key(key) <==> exists|i: int|
            0 <= i < members.len() && (#[trigger] members[i]).0@ == key,
    decreases members.len(),
{
    if members.len() > 0 {
        lemma_keys_listed(members.drop_last(), key);
        let last = members.len() - 1;
        if exists|i: int| 0 <= i < last && (#[trigger] members.drop_last()[i]).0@ == key {
            let i = choose|i: int| 0 <= i < last && (#[trigger] members.drop_last()[i]).0@ == key;
            assert(members[i].0@ == key);
        }
        if members[last].0@ != key && exists|i: int|
            0 <= i < members.len() && (#[trigger] members[i]).0@ == key {
            let i = choose|i: int| 0 <= i < members.len() && (#[trigger] members[i]).0@ == key;
            assert(members.drop_last()[i].0@ == key);
        }
    }
}

/// Whether a table has a member of a name.
pub(crate) fn has_key(members: &Vec<(String, toml::Value)>, key: &str) -> (r: bool)
    ensures
        r == table_model(members@).contains_key(key@),
{
    let mut i: usize = 0;
    while i < members.len()
        invariant
            i <= members@.len(),
            forall|j: int| 0 <= j < i ==> (#[trigger] members@[j]).0@ != key@,
        decreases members@.len() - i,
    {
        if same_text(&members[i].0, key) {
            proof {
                lemma_keys_listed(members@, key@);
            }
            return true;
        }
        i += 1;
    }
    proof {
        lemma_keys_listed(members@, key@);
    }
    false
}

/// Adds a member to a table that has none of that name.
pub(crate) fn put_toml(members: &mut Vec<(String, toml::Value)>, key: &str, value: toml::Value)
    requires
        distinct_keys(old(members)@),
        !table_model(old(members)@).contains_key(key@),
    ensures
        distinct_keys(final(members)@),
        table_model(final(members)@) == table_model(old(members)@).insert(key@, toml_model(value)),
{
    let ghost before = members@;
    proof {
        lemma_keys_listed(before, key@);
    }
    members.push((key.to_owned(), value));
    proof {
        assert(members@.drop_last() =~= before);
        assert forall|i: int, j: int| 0 <= i < j < members@.len() implies (
        #[trigger] members@[i]).0@ != (#[trigger] members@[j]).0@ by {
            if j == before.len() {
                assert(before[i].0@ != key@);
            } else {
                assert(before[i].0@ != before[j].0@);
            }
        }
    }
}

// ---------------------------------------------------------------------------
// Runs of quotation marks
// ---------------------------------------------------------------------------

fn find_run(chars: &Vec<char>, c: char) -> (r: bool)
    ensures
        r == has_run(chars@, c),
{
    let mut run: usize = 0;
    let mut i: usize = 0;
    while i < chars.len()
        invariant
            i <= chars@.len(),
            run <= i,
            run < LONG_RUN,
            forall|k: int| i - run <= k < i ==> #[trigger] chars@[k] == c,
            run < i ==> chars@[i - run - 1] != c,
            forall|at: int| at + LONG_RUN <= i ==> !#[trigger] run_at(chars@, c, at),
        decreases chars@.len() - i,
    {
        if chars[i] == c {
            if run + 1 == LONG_RUN {
                proof {
                    assert(run_at(chars@, c, i - run));
                }
                return true;
            }
            run += 1;
        } else {
            run = 0;
        }
        i += 1;
        proof {
            assert forall|at: int| at + LONG_RUN <= i implies !#[trigger] run_at(chars@, c, at) by {
                if at + LONG_RUN == i && run_at(chars@, c, at) {
                    if run == 0 {
                        assert(chars@[i - 1] == c);
                    } else {
                        assert(chars@[i - run - 1] == c);
                    }
                }
            }
        }
    }
    false
}

fn test_calm_text(text: &str) -> (r: bool)
    ensures
        r == is_calm_text(text@),
{
    let chars = chars_of(text);
    !find_run(&chars, '\'') && !find_run(&chars, '"')
}

proof fn lemma_member_value(members: Seq<(String, toml::Value)>, i: int)
    requires
        0 <= i < members.len(),
        distinct_keys(members),
    ensures
        table_model(members).dom().finite(),
        table_model(members).contains_key(members[i].0@),
        table_model(members)[members[i].0@] == toml_model(members[i].1),
    decreases members.len(),
{
    if members.len() == 1 {
        assert(members.drop_last() =~= Seq::empty());
        assert(table_model(members.drop_last()) =~= Map::empty());
    } else if i < members.len() - 1 {
        lemma_member_value(members.drop_last(), i);
        assert(members.drop_last()[i] == members[i]);
        assert(members[i].0@ != members[members.len() - 1].0@);
    } else {
        lemma_member_value(members.drop_last(), 0);
    }
}

proof fn lemma_same_table(a: Seq<(String, toml::Value)>, b: Seq<(String, toml::Value)>)
    requires
        a.len() == b.len(),
        forall|i: int|
            0 <= i < a.len() ==> (#[trigger] a[i]).0@ == b[i].0@ && toml_model(a[i].1)
                == toml_model(b[i].1),
    ensures
        table_model(a) == table_model(b),
    decreases a.len(),
{
    if a.len() > 0 {
        assert forall|i: int| 0 <= i < a.drop_last().len() implies (
        #[trigger] a.drop_last()[i]).0@ == b.drop_last()[i].0@ && toml_model(a.drop_last()[i].1)
            == toml_model(b.drop_last()[i].1) by {
            assert(a[i].0@ == b[i].0@);
        }
        lemma_same_table(a.drop_last(), b.drop_last());
        assert(a[a.len() - 1].0@ == b[a.len() - 1].0@);
    }
}

/// Whether no string of a value holds a long run of quotation marks. Hands the value back.
pub(crate) fn test_calm(value: toml::Value) -> (r: (toml::Value, bool))
    ensures
        toml_model(r.0) == toml_model(value),
        r.1 == is_calm(toml_model(value)),
    decreases toml_model(value),
{
    match open_toml(value) {
        TomlNode::Str(s) => {
            let calm = test_calm_text(&s);
            (close_toml(TomlNode::Str(s)), calm)
        },
        TomlNode::Bool(b) => (close_toml(TomlNode::Bool(b)), true),
        TomlNode::Array(items) => {
            let ghost all = items@;
            let ghost docs = models(all);
            let mut out: Vec<toml::Value> = Vec::new();
            let mut calm = true;
            for item in it: items
                invariant
                    it.seq() == all,
                    docs == models(all),
                    toml_model(value) == TomlView::Array(docs),
                    out@.len() == it.index(),
                    forall|j: int|
                        0 <= j < out@.len() ==> toml_model(#[trigger] out@[j]) == toml_model(all[j]),
                    calm == (forall|j: int| 0 <= j < out@.len() ==> is_calm(#[trigger] docs[j])),
            {
                proof {
                    assert(item == all[it.index() as int]);
                    assert(docs[it.index() as int] == toml_model(item));
                    assert(decreases_to!(toml_model(value) => toml_model(value)->Array_0));
                    assert(decreases_to!(docs => docs[it.index() as int]));
                }
                let tested = test_calm(item);
                out.push(tested.0);
                calm = calm && tested.1;
            }
            proof {
                assert(models(out@) =~= docs);
                let doc = toml_model(value);
                if calm {
                    assert forall|i: int| 0 <= i < doc->Array_0.len() implies is_calm(
                        #[trigger] doc->Array_0[i],
                    ) by {
                        assert(is_calm(docs[i]));
                    }
                } else {
                    let i = choose|i: int| 0 <= i < docs.len() && !is_calm(#[trigger] docs[i]);
                    assert(!is_calm(doc->Array_0[i]));
                }
            }
            (close_toml(TomlNode::Array(out)), calm)
        },
        TomlNode::Table(members) => {
            let ghost all = members@;
            let ghost docs = table_model(all);
            let mut out: Vec<(String, toml::Value)> = Vec::new();
            let mut calm = true;
            for pair in it: members
                invariant
                    it.seq() == all,
                    docs == table_model(all),
                    distinct_keys(all),
                    toml_model(value) == TomlView::Table(docs),
                    out@.len() == it.index(),
                    forall|j: int|
                        0 <= j < out@.len() ==> (#[trigger] out@[j]).0@ == all[j].0@ && toml_model(
                            out@[j].1,
                        ) == toml_model(all[j].1),
                    calm == (forall|j: int|
                        0 <= j < out@.len() ==> is_calm(toml_model((#[trigger] all[j]).1))),
            {
                let ghost i = it.index() as int;
                let (name, child) = pair;
                proof {
                    lemma_member_value(all, i);
                    assert((name, child) == all[i]);
                    assert(decreases_to!(toml_model(value) => toml_model(value)->Table_0));
                    assert(decreases_to!(docs => docs[name@]));
                }
                let tested = test_calm(child);
                out.push((name, tested.0));
                calm = calm && tested.1;
            }
            proof {
                lemma_same_table(out@, all);
                assert forall|i: int, j: int| 0 <= i < j < out@.len() implies (
                #[trigger] out@[i]).0@ != (#[trigger] out@[j]).0@ by {
                    assert(all[i].0@ != all[j].0@);
                }
                let doc = toml_model(value);
                if calm {
                    assert forall|k: Seq<char>| doc->Table_0.contains_key(k) implies is_calm(
                        #[trigger] doc->Table_0[k],
                    ) by {
                        lemma_keys_listed(all, k);
                        let j = choose|j: int| 0 <= j < all.len() && (#[trigger] all[j]).0@ == k;
                        lemma_member_value(all, j);
                    }
                } else {
                    let j = choose|j: int|
                        0 <= j < all.len() && !is_calm(toml_model((#[trigger] all[j]).1));
                    lemma_member_value(all, j);
                    assert(!is_calm(doc->Table_0[all[j].0@]));
                }
            }
            (close_toml(TomlNode::Table(out)), calm)
        },
        TomlNode::Other(other) => (other, true),
    }
}

// ---------------------------------------------------------------------------
// Laws
// ---------------------------------------------------------------------------

/// A run of 256 quotation marks of one kind is too long, wherever it stands; a text of fewer
/// characters has none.
pub proof fn law_long_runs_disturb(before: Seq<char>, c: char, n: nat, after: Seq<char>, text: Seq<char>)
    requires
        c == '"' || c == '\'',
    ensures
        n >= 256 ==> !is_calm_text(before + Seq::new(n, |i: int| c) + after),
        text.len() < 256 ==> is_calm_text(text),
        (forall|i: int| 0 <= i < text.len() ==> #[trigger] text[i] != '"' && text[i] != '\'')
            ==> is_calm_text(text),
{
    let whole = before + Seq::new(n, |i: int| c) + after;
    if n >= 256 {
        assert(run_at(whole, c, before.len() as int));
    }
    if forall|i: int| 0 <= i < text.len() ==> #[trigger] text[i] != '"' && text[i] != '\'' {
        assert forall|at: int| !#[trigger] run_at(text, '"', at) && !run_at(text, '\'', at) by {
            if 0 <= at < text.len() {
                assert(text[at] != '"' && text[at] != '\'');
            }
        }
        assert(!has_run(text, '\'')) by {
            if has_run(text, '\'') {
                let at = choose|at: int| #[trigger] run_at(text, '\'', at);
                assert(text[at] == '\'');
            }
        }
    }
}

/// A member that is added to a table has its name, and hides no other.
pub proof fn law_added_member_is_found(
    members: Seq<(String, toml::Value)>,
    name: String,
    value: toml::Value,
    key: Seq<char>,
)
    ensures
        table_model(members.push((name, value))).contains_key(name@),
        table_model(members.push((name, value)))[name@] == toml_model(value),
        key != name@ ==> table_model(members.push((name, value))).contains_key(key)
            == table_model(members).contains_key(key),
        key != name@ && table_model(members).contains_key(key) ==> table_model(
            members.push((name, value)),
        )[key] == table_model(members)[key],
        !table_model(Seq::empty()).contains_key(key),
{
    assert(members.push((name, value)).drop_last() =~= members);
}

} // verus!
