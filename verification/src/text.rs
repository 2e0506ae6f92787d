//! Text as a sequence of characters: comparison, search, trimming, splitting and decimal
//! notation, each stated over the characters of its arguments.

use vstd::prelude::*;
use vstd::utf8::*;

verus! {

// ---------------------------------------------------------------------------
// Standard library items
// ---------------------------------------------------------------------------

/// `String::push` appends one character to the end of the string.
pub assume_specification[ String::push ](s: &mut String, ch: char)
    ensures
        final(s)@ == old(s)@.push(ch),
;

/// The character has the Unicode property `White_Space`.
pub open spec fn is_whitespace(c: char) -> bool {
    let n = c as int;
    ||| 0x9 <= n <= 0xd
    ||| n == 0x20
    ||| n == 0x85
    ||| n == 0xa0
    ||| n == 0x1680
    ||| 0x2000 <= n <= 0x200a
    ||| 0x2028 <= n <= 0x2029
    ||| n == 0x202f
    ||| n == 0x205f
    ||| n == 0x3000
}

/// `char::is_whitespace` answers the Unicode property `White_Space` of the character, which ten
/// ranges of code points have.
pub assume_specification[ char::is_whitespace ](c: char) -> (r: bool)
    ensures
        r == is_whitespace(c),
;

/// What `str::to_lowercase` returns: the Unicode lowercase mapping of a text.
pub uninterp spec fn lowercase(text: Seq<char>) -> Seq<char>;

/// Calls `str::to_lowercase`, which returns the lowercase equivalent of the text as the
/// Unicode derived core property `Lowercase` gives it.
#[verifier::external_body]
pub(crate) fn to_lowercase(text: &str) -> (r: String)
    ensures
        r@ == lowercase(text@),
{
    text.to_lowercase()
}

// ---------------------------------------------------------------------------
// Characters and bytes
// ---------------------------------------------------------------------------

/// The number of bytes that a text takes in UTF-8.
pub open spec fn byte_len(text: Seq<char>) -> nat {
    encode_utf8(text).len()
}

/// The text that the first `bytes` bytes of `text` spell.
pub open spec fn byte_prefix(text: Seq<char>, bytes: int) -> Seq<char> {
    decode_utf8(encode_utf8(text).subrange(0, bytes))
}

/// The text that the bytes of `text` from `bytes` on spell.
pub open spec fn byte_suffix(text: Seq<char>, bytes: int) -> Seq<char> {
    decode_utf8(encode_utf8(text).subrange(bytes, byte_len(text) as int))
}

/// The number of bytes of a text.
pub fn text_byte_len(text: &str) -> (r: usize)
    ensures
        r == byte_len(text@),
{
    text.as_bytes().len()
}

/// Cuts a text at a byte position that lies between two of its characters.
pub fn split_bytes<'a>(text: &'a str, at: usize) -> (r: (&'a str, &'a str))
    requires
        is_char_boundary(encode_utf8(text@), at as int),
    ensures
        r.0@ == byte_prefix(text@, at as int),
        r.1@ == byte_suffix(text@, at as int),
        encode_utf8(r.0@) == encode_utf8(text@).subrange(0, at as int),
        encode_utf8(r.1@) == encode_utf8(text@).subrange(at as int, byte_len(text@) as int),
{
    let halves = text.split_at(at);
    proof {
        vstd::utf8::encode_utf8_decode_utf8(halves.0@);
        vstd::utf8::encode_utf8_decode_utf8(halves.1@);
    }
    halves
}

/// The characters of a text.
pub fn chars_of(text: &str) -> (r: Vec<char>)
    ensures
        r@ == text@,
{
    let mut out: Vec<char> = Vec::new();
    for c in it: text.chars()
        invariant
            it.seq() == text@,
            out@ == text@.take(it.index() as int),
    {
        out.push(c);
    }
    out
}

/// The characters `from..to` as a string.
pub fn text_from(chars: &Vec<char>, from: usize, to: usize) -> (r: String)
    requires
        from <= to <= chars@.len(),
    ensures
        r@ == chars@.subrange(from as int, to as int),
{
    let mut out = String::new();
    let mut i = from;
    while i < to
        invariant
            from <= i <= to <= chars@.len(),
            out@ == chars@.subrange(from as int, i as int),
        decreases to - i,
    {
        out.push(chars[i]);
        i += 1;
    }
    out
}

/// The view of an optional text.
pub open spec fn text_view(text: Option<&str>) -> Option<Seq<char>> {
    match text {
        Some(t) => Some(t@),
        None => None,
    }
}

/// The view of an optional owned text.
pub open spec fn string_view(text: Option<String>) -> Option<Seq<char>> {
    match text {
        Some(t) => Some(t@),
        None => None,
    }
}

/// The text, or `default` where there is none.
pub open spec fn text_or(text: Option<Seq<char>>, default: Seq<char>) -> Seq<char> {
    match text {
        Some(t) => t,
        None => default,
    }
}

/// The text of an optional string, or `default`.
pub fn string_or<'a>(text: &'a Option<String>, default: &'a str) -> (r: &'a str)
    ensures
        r@ == text_or(string_view(*text), default@),
{
    match text {
        Some(t) => t.as_str(),
        None => default,
    }
}

/// The text of an optional string.
pub fn borrowed(text: &Option<String>) -> (r: Option<&str>)
    ensures
        text_view(r) == string_view(*text),
{
    match text {
        Some(t) => Some(t.as_str()),
        None => None,
    }
}

/// An optional text as an optional string.
pub fn owned(text: Option<&str>) -> (r: Option<String>)
    ensures
        string_view(r) == text_view(text),
{
    match text {
        Some(t) => Some(t.to_owned()),
        None => None,
    }
}

/// Where `text` is cut to keep at most `max` bytes: at the last place at or before byte `max`
/// where a character begins.
pub open spec fn cut_point(text: Seq<char>, max: nat) -> nat
    decreases max,
{
    if max == 0 || is_char_boundary(encode_utf8(text), max as int) {
        max
    } else {
        cut_point(text, (max - 1) as nat)
    }
}

/// `text`, cut to at most `max` bytes and marked with dots where it is longer.
pub open spec fn shortened(text: Seq<char>, max: nat) -> Seq<char> {
    if byte_len(text) <= max {
        text
    } else {
        byte_prefix(text, cut_point(text, max) as int) + "..."@
    }
}

/// Cuts a text to at most `max` bytes.
pub fn truncate(text: &str, max: usize) -> (r: String)
    ensures
        r@ == shortened(text@, max as nat),
{
    if text_byte_len(text) <= max {
        return text.to_owned();
    }
    let mut at = max;
    while at > 0 && !text.is_char_boundary(at)
        invariant
            cut_point(text@, at as nat) == cut_point(text@, max as nat),
        decreases at,
    {
        at -= 1;
    }
    proof {
        encode_utf8_valid_utf8(text@);
    }
    concat2(split_bytes(text, at).0, "...")
}

/// What is kept of a text is a part of it from its start on, as long as whole characters within
/// `max` bytes can make it.
pub proof fn law_cut_keeps_whole_characters(text: Seq<char>, max: nat)
    requires
        byte_len(text) > max,
    ensures
        cut_point(text, max) <= max,
        byte_prefix(text, cut_point(text, max) as int).is_prefix_of(text),
        byte_len(byte_prefix(text, cut_point(text, max) as int)) == cut_point(text, max),
        forall|at: int|
            cut_point(text, max) < at <= max ==> !#[trigger] is_char_boundary(
                encode_utf8(text),
                at,
            ),
    decreases max,
{
    let bytes = encode_utf8(text);
    encode_utf8_valid_utf8(text);
    encode_utf8_decode_utf8(text);
    if max == 0 || is_char_boundary(bytes, max as int) {
        let at = max as int;
        decode_utf8_split(bytes, at);
        valid_utf8_split(bytes, at);
        decode_utf8_encode_utf8(bytes.subrange(0, at));
        let rest = decode_utf8(bytes.subrange(at, bytes.len() as int));
        assert(text =~= byte_prefix(text, at) + rest);
        assert(byte_prefix(text, at) =~= text.subrange(0, byte_prefix(text, at).len() as int));
    } else {
        law_cut_keeps_whole_characters(text, (max - 1) as nat);
    }
}

/// Every run of characters at the start of a text ends between two of its characters.
pub proof fn lemma_start_is_boundary(text: Seq<char>, n: int)
    requires
        0 <= n <= text.len(),
    ensures
        is_char_boundary(encode_utf8(text), byte_len(text.take(n)) as int),
        byte_len(text.take(n)) <= byte_len(text),
        n < text.len() ==> byte_len(text.take(n)) < byte_len(text),
    decreases n,
{
    let bytes = encode_utf8(text);
    encode_utf8_valid_utf8(text);
    if n == 0 {
        assert(encode_utf8(text.take(0)) =~= Seq::<u8>::empty());
        vstd::utf8::is_char_boundary_start_end_of_seq(bytes);
        if text.len() > 0 {
            vstd::utf8::encode_utf8_first_scalar(text);
        }
    } else {
        let rest = text.drop_first();
        let first = vstd::utf8::encode_scalar(text[0] as u32);
        vstd::utf8::encode_utf8_first_scalar(text);
        lemma_start_is_boundary(rest, n - 1);
        assert(text.take(n).drop_first() =~= rest.take(n - 1));
        assert(vstd::utf8::pop_first_scalar(bytes) =~= encode_utf8(rest));
    }
}

/// Of a text of more than `max` bytes the characters that fit into `max` bytes are kept, as many as
/// do, followed by three dots.
pub proof fn law_shortened_keeps_what_fits(text: Seq<char>, max: nat, n: int)
    requires
        0 <= n < text.len(),
        byte_len(text.take(n)) <= max < byte_len(text.take(n + 1)),
    ensures
        shortened(text, max) == text.take(n) + seq!['.', '.', '.'],
{
    let kept = byte_prefix(text, cut_point(text, max) as int);
    lemma_start_is_boundary(text, n);
    lemma_start_is_boundary(text, n + 1);
    assert(byte_len(text) > max);
    law_cut_keeps_whole_characters(text, max);
    assert(kept == text.take(kept.len() as int));
    lemma_start_is_boundary(text.take(n), if kept.len() < n { kept.len() as int } else { n });
    if kept.len() < n {
        assert(text.take(n).take(kept.len() as int) =~= kept);
        assert(byte_len(kept) < byte_len(text.take(n)));
    }
    if kept.len() > n {
        lemma_start_is_boundary(kept, n + 1);
        assert(kept.take(n + 1) =~= text.take(n + 1));
    }
    reveal_strlit("...");
    assert("..."@ =~= seq!['.', '.', '.']);
}

/// A text of at most `max` bytes is kept as it is; of a longer one, some start that fits, such that
/// one character more would not.
pub proof fn law_short_text_is_kept(text: Seq<char>, max: nat)
    ensures
        byte_len(text) <= max ==> shortened(text, max) == text,
        byte_len(text) > max ==> exists|n: int|
            0 <= n < text.len() && byte_len(#[trigger] text.take(n)) <= max && max < byte_len(
                text.take(n + 1),
            ) && shortened(text, max) == text.take(n) + "..."@,
{
    if byte_len(text) > max {
        let kept = byte_prefix(text, cut_point(text, max) as int);
        law_cut_keeps_whole_characters(text, max);
        let n = kept.len() as int;
        assert(kept == text.take(n));
        assert(text.take(text.len() as int) =~= text);
        assert(n < text.len());
        lemma_start_is_boundary(text, n + 1);
        lemma_start_is_boundary(text.take(n + 1), n);
        assert(text.take(n + 1).take(n) =~= text.take(n));
        assert(max < byte_len(text.take(n + 1)));
    }
}

/// `a` followed by `b`.
pub fn concat2(a: &str, b: &str) -> (r: String)
    ensures
        r@ == a@ + b@,
{
    let mut out = a.to_owned();
    out.append(b);
    out
}

/// `a`, `b` and `c`, one after the other.
pub fn concat3(a: &str, b: &str, c: &str) -> (r: String)
    ensures
        r@ == a@ + b@ + c@,
{
    let mut out = a.to_owned();
    out.append(b);
    out.append(c);
    out
}

/// `a`, `b`, `c` and `d`, one after the other.
pub fn concat4(a: &str, b: &str, c: &str, d: &str) -> (r: String)
    ensures
        r@ == a@ + b@ + c@ + d@,
{
    let mut out = a.to_owned();
    out.append(b);
    out.append(c);
    out.append(d);
    out
}

// ---------------------------------------------------------------------------
// Comparison
// ---------------------------------------------------------------------------

/// Whether two texts hold the same characters.
pub fn same_text(a: &str, b: &str) -> (r: bool)
    ensures
        r == (a@ == b@),
{
    let left = a.as_bytes();
    let right = b.as_bytes();
    if left.len() != right.len() {
        return false;
    }
    let mut i: usize = 0;
    while i < left.len()
        invariant
            left@ == encode_utf8(a@),
            right@ == encode_utf8(b@),
            left@.len() == right@.len(),
            i <= left@.len(),
            forall|j: int| 0 <= j < i ==> left@[j] == right@[j],
        decreases left@.len() - i,
    {
        if left[i] != right[i] {
            return false;
        }
        i += 1;
    }
    proof {
        assert(left@ =~= right@);
        vstd::utf8::encode_utf8_decode_utf8(a@);
        vstd::utf8::encode_utf8_decode_utf8(b@);
    }
    true
}

/// The strict lexicographic order of character sequences.
pub open spec fn precedes(a: Seq<char>, b: Seq<char>) -> bool
    decreases a.len(),
{
    if b.len() == 0 {
        false
    } else if a.len() == 0 {
        true
    } else if a[0] == b[0] {
        precedes(a.drop_first(), b.drop_first())
    } else {
        (a[0] as int) < (b[0] as int)
    }
}

/// Whether `a` comes strictly before `b` in lexicographic order.
pub fn text_precedes(a: &str, b: &str) -> (r: bool)
    ensures
        r == precedes(a@, b@),
{
    let left = chars_of(a);
    let right = chars_of(b);
    let mut i: usize = 0;
    proof {
        assert(a@.skip(0) =~= a@);
        assert(b@.skip(0) =~= b@);
    }
    while i < left.len() && i < right.len()
        invariant
            left@ == a@,
            right@ == b@,
            i <= left@.len(),
            i <= right@.len(),
            precedes(a@, b@) == precedes(a@.skip(i as int), b@.skip(i as int)),
        decreases left@.len() - i,
    {
        proof {
            assert(a@.skip(i as int)[0] == a@[i as int]);
            assert(b@.skip(i as int)[0] == b@[i as int]);
            assert(a@.skip(i as int).drop_first() =~= a@.skip(i + 1));
            assert(b@.skip(i as int).drop_first() =~= b@.skip(i + 1));
        }
        let x: char = left[i];
        let y: char = right[i];
        if x != y {
            return x < y;
        }
        i += 1;
    }
    i < right.len()
}

/// The lexicographic order is irreflexive.
pub proof fn lemma_precedes_irreflexive(a: Seq<char>)
    ensures
        !precedes(a, a),
    decreases a.len(),
{
    if a.len() > 0 {
        lemma_precedes_irreflexive(a.drop_first());
    }
}

/// Of two different texts exactly one comes before the other.
pub proof fn lemma_precedes_total(a: Seq<char>, b: Seq<char>)
    ensures
        a == b || precedes(a, b) || precedes(b, a),
        !(precedes(a, b) && precedes(b, a)),
    decreases a.len(),
{
    if a.len() > 0 && b.len() > 0 {
        if a[0] == b[0] {
            lemma_precedes_total(a.drop_first(), b.drop_first());
            if a.drop_first() == b.drop_first() {
                assert(a =~= seq![a[0]] + a.drop_first());
                assert(b =~= seq![b[0]] + b.drop_first());
            }
        }
    } else if a.len() == 0 && b.len() == 0 {
        assert(a =~= b);
    }
}

/// The lexicographic order is transitive.
pub proof fn lemma_precedes_transitive(a: Seq<char>, b: Seq<char>, c: Seq<char>)
    requires
        precedes(a, b),
        precedes(b, c),
    ensures
        precedes(a, c),
    decreases a.len(),
{
    if a.len() > 0 && a[0] == b[0] && b[0] == c[0] {
        lemma_precedes_transitive(a.drop_first(), b.drop_first(), c.drop_first());
    }
}

// ---------------------------------------------------------------------------
// Search
// ---------------------------------------------------------------------------

/// `needle` stands in `hay` from position `at` on.
pub open spec fn occurs_at(hay: Seq<char>, needle: Seq<char>, at: int) -> bool {
    &&& 0 <= at
    &&& at + needle.len() <= hay.len()
    &&& hay.subrange(at, at + needle.len()) == needle
}

/// `needle` stands somewhere in `hay`.
pub open spec fn occurs_in(hay: Seq<char>, needle: Seq<char>) -> bool {
    exists|at: int| occurs_at(hay, needle, at)
}

/// Whether `needle` stands in `hay` from position `at` on.
pub fn chars_match_at(hay: &Vec<char>, needle: &Vec<char>, at: usize) -> (r: bool)
    requires
        at <= hay@.len(),
    ensures
        r == occurs_at(hay@, needle@, at as int),
{
    if needle.len() > hay.len() - at {
        return false;
    }
    let mut i: usize = 0;
    while i < needle.len()
        invariant
            at + needle@.len() <= hay@.len() <= usize::MAX,
            i <= needle@.len(),
            forall|j: int| 0 <= j < i ==> hay@[at + j] == needle@[j],
        decreases needle@.len() - i,
    {
        if hay[at + i] != needle[i] {
            proof {
                assert(hay@.subrange(at as int, at + needle@.len())[i as int] != needle@[i as int]);
            }
            return false;
        }
        i += 1;
    }
    proof {
        assert(hay@.subrange(at as int, at + needle@.len()) =~= needle@);
    }
    true
}

/// Whether `needle` stands somewhere in `hay`.
pub fn contains_text(hay: &str, needle: &str) -> (r: bool)
    ensures
        r == occurs_in(hay@, needle@),
{
    let h = chars_of(hay);
    let n = chars_of(needle);
    let mut at: usize = 0;
    while at < h.len()
        invariant
            h@ == hay@,
            n@ == needle@,
            at <= h@.len(),
            forall|j: int| 0 <= j < at ==> !occurs_at(hay@, needle@, j),
        decreases h@.len() - at,
    {
        if chars_match_at(&h, &n, at) {
            return true;
        }
        at += 1;
    }
    chars_match_at(&h, &n, at)
}

/// Whether `text` begins with `prefix`.
pub fn starts_with_text(text: &str, prefix: &str) -> (r: bool)
    ensures
        r == prefix@.is_prefix_of(text@),
{
    let h = chars_of(text);
    let n = chars_of(prefix);
    proof {
        if n@.len() <= h@.len() {
            assert(h@.subrange(0, n@.len() as int) == text@.subrange(0, prefix@.len() as int));
        }
    }
    chars_match_at(&h, &n, 0)
}

/// The number of places, counted from the left without overlap, at which `needle` stands in
/// `hay` from position `from` on.
pub open spec fn disjoint_matches(hay: Seq<char>, needle: Seq<char>, from: int) -> nat
    decreases hay.len() - from,
{
    if from < 0 || from >= hay.len() || needle.len() == 0 {
        0
    } else if occurs_at(hay, needle, from) {
        1 + disjoint_matches(hay, needle, from + needle.len())
    } else {
        disjoint_matches(hay, needle, from + 1)
    }
}

/// There are no more matches than characters.
pub proof fn lemma_disjoint_matches_bound(hay: Seq<char>, needle: Seq<char>, from: int)
    requires
        0 <= from <= hay.len(),
    ensures
        disjoint_matches(hay, needle, from) <= hay.len() - from,
    decreases hay.len() - from,
{
    if from < hay.len() && needle.len() > 0 {
        if occurs_at(hay, needle, from) {
            lemma_disjoint_matches_bound(hay, needle, from + needle.len());
        } else {
            lemma_disjoint_matches_bound(hay, needle, from + 1);
        }
    }
}

/// Counts the non-overlapping places at which a non-empty `needle` stands in `hay`.
pub fn count_matches(hay: &str, needle: &str) -> (r: usize)
    requires
        needle@.len() > 0,
    ensures
        r == disjoint_matches(hay@, needle@, 0),
{
    let h = chars_of(hay);
    let n = chars_of(needle);
    let mut at: usize = 0;
    let mut found: usize = 0;
    proof {
        lemma_disjoint_matches_bound(hay@, needle@, 0);
    }
    while at < h.len()
        invariant
            h@ == hay@,
            n@ == needle@,
            n@.len() > 0,
            at <= h@.len(),
            found <= at,
            found + disjoint_matches(hay@, needle@, at as int) == disjoint_matches(
                hay@,
                needle@,
                0,
            ),
        decreases h@.len() - at,
    {
        if chars_match_at(&h, &n, at) {
            at += n.len();
            found += 1;
        } else {
            at += 1;
        }
    }
    found
}

// ---------------------------------------------------------------------------
// Trimming
// ---------------------------------------------------------------------------

/// The text without leading whitespace.
pub open spec fn trimmed_start(text: Seq<char>) -> Seq<char>
    decreases text.len(),
{
    if text.len() > 0 && is_whitespace(text[0]) {
        trimmed_start(text.drop_first())
    } else {
        text
    }
}

/// The text without trailing whitespace.
pub open spec fn trimmed_end(text: Seq<char>) -> Seq<char>
    decreases text.len(),
{
    if text.len() > 0 && is_whitespace(text.last()) {
        trimmed_end(text.drop_last())
    } else {
        text
    }
}

/// The text without leading and trailing whitespace.
pub open spec fn trimmed(text: Seq<char>) -> Seq<char> {
    trimmed_end(trimmed_start(text))
}

/// Trimming adds nothing.
pub proof fn lemma_trimmed_len(text: Seq<char>)
    ensures
        trimmed(text).len() <= text.len(),
{
    lemma_trimmed_start_len(text);
    lemma_trimmed_end_len(trimmed_start(text));
}

proof fn lemma_trimmed_start_len(text: Seq<char>)
    ensures
        trimmed_start(text).len() <= text.len(),
    decreases text.len(),
{
    if text.len() > 0 && is_whitespace(text[0]) {
        lemma_trimmed_start_len(text.drop_first());
    }
}

proof fn lemma_trimmed_end_len(text: Seq<char>)
    ensures
        trimmed_end(text).len() <= text.len(),
    decreases text.len(),
{
    if text.len() > 0 && is_whitespace(text.last()) {
        lemma_trimmed_end_len(text.drop_last());
    }
}

/// Removes leading and trailing whitespace.
pub fn trim(text: &str) -> (r: String)
    ensures
        r@ == trimmed(text@),
{
    let chars = chars_of(text);
    let mut from: usize = 0;
    proof {
        assert(text@.skip(0) =~= text@);
    }
    while from < chars.len() && chars[from].is_whitespace()
        invariant
            chars@ == text@,
            from <= chars@.len(),
            trimmed_start(text@) == trimmed_start(text@.skip(from as int)),
        decreases chars@.len() - from,
    {
        proof {
            assert(text@.skip(from as int).drop_first() =~= text@.skip(from + 1));
        }
        from += 1;
    }
    let mut to: usize = chars.len();
    proof {
        assert(trimmed_start(text@) == text@.skip(from as int));
        assert(text@.skip(from as int) =~= text@.subrange(from as int, to as int));
    }
    while to > from && chars[to - 1].is_whitespace()
        invariant
            chars@ == text@,
            from <= to <= chars@.len(),
            trimmed(text@) == trimmed_end(text@.subrange(from as int, to as int)),
        decreases to,
    {
        proof {
            assert(text@.subrange(from as int, to as int).drop_last() =~= text@.subrange(
                from as int,
                to - 1,
            ));
        }
        to -= 1;
    }
    text_from(&chars, from, to)
}

// ---------------------------------------------------------------------------
// Decimal notation
// ---------------------------------------------------------------------------

/// The character of a decimal digit.
pub open spec fn digit_char(d: nat) -> char {
    (48 + d) as char
}

/// The decimal notation of a number, without leading zeros.
pub open spec fn decimal(n: nat) -> Seq<char>
    decreases n,
{
    if n < 10 {
        seq![digit_char(n)]
    } else {
        decimal(n / 10).push(digit_char(n % 10))
    }
}

fn digit_of(d: u8) -> (r: char)
    requires
        d < 10,
    ensures
        r == digit_char(d as nat),
{
    (48u8 + d) as char
}

/// The decimal notation of a number.
pub fn decimal_text(n: u64) -> (r: String)
    ensures
        r@ == decimal(n as nat),
    decreases n,
{
    if n < 10 {
        let mut out = String::new();
        out.push(digit_of(n as u8));
        assert(out@ =~= decimal(n as nat));
        out
    } else {
        let mut out = decimal_text(n / 10);
        out.push(digit_of((n % 10) as u8));
        out
    }
}

/// The character is a decimal digit.
pub open spec fn is_digit(c: char) -> bool {
    '0' <= c <= '9'
}

/// Every character is a decimal digit.
pub open spec fn all_digits(text: Seq<char>) -> bool {
    forall|i: int| 0 <= i < text.len() ==> is_digit(#[trigger] text[i])
}

/// The number that a sequence of decimal digits denotes.
pub open spec fn digits_value(text: Seq<char>) -> nat
    decreases text.len(),
{
    if text.len() == 0 {
        0
    } else {
        (10 * digits_value(text.drop_last()) + (text.last() as int - 48)) as nat
    }
}

/// The characters after an optional sign.
pub open spec fn unsigned_part(text: Seq<char>) -> Seq<char> {
    if text.len() > 0 && (text[0] == '-' || text[0] == '+') {
        text.drop_first()
    } else {
        text
    }
}

/// The integer of 64 bits that a text denotes: an optional sign and at least one digit.
pub open spec fn parsed_i64(text: Seq<char>) -> Option<i64> {
    let digits = unsigned_part(text);
    let magnitude = digits_value(digits);
    let value = if text.len() > 0 && text[0] == '-' {
        -(magnitude as int)
    } else {
        magnitude as int
    };
    if digits.len() > 0 && all_digits(digits) && i64::MIN <= value <= i64::MAX {
        Some(value as i64)
    } else {
        None
    }
}

/// The decimal notation of a number denotes that number.
pub proof fn lemma_decimal_value(n: nat)
    ensures
        digits_value(decimal(n)) == n,
        all_digits(decimal(n)),
    decreases n,
{
    if n < 10 {
        assert(decimal(n).drop_last() =~= Seq::empty());
        assert(digits_value(Seq::empty()) == 0);
        assert(decimal(n).last() as int == 48 + n);
    } else {
        lemma_decimal_value(n / 10);
        assert(decimal(n).drop_last() =~= decimal(n / 10));
        assert(decimal(n).last() as int == 48 + n % 10);
    }
}

proof fn lemma_digits_value_grows(text: Seq<char>, n: int)
    requires
        0 <= n <= text.len(),
        all_digits(text),
    ensures
        digits_value(text.take(n)) <= digits_value(text),
    decreases text.len() - n,
{
    if n == text.len() {
        assert(text.take(n) =~= text);
    } else {
        lemma_digits_value_grows(text, n + 1);
        assert(text.take(n + 1).drop_last() =~= text.take(n));
        assert(is_digit(text[n]));
        assert(text.take(n + 1).last() == text[n]);
    }
}

/// Reads an integer of 64 bits.
pub fn parse_i64(text: &str) -> (r: Option<i64>)
    ensures
        r == parsed_i64(text@),
{
    let chars = chars_of(text);
    let signed = chars.len() > 0 && (chars[0] == '-' || chars[0] == '+');
    let negative = chars.len() > 0 && chars[0] == '-';
    let start: usize = if signed {
        1
    } else {
        0
    };
    let ghost digits = unsigned_part(text@);
    if start == chars.len() {
        return None;
    }
    let mut i: usize = start;
    let mut value: u64 = 0;
    proof {
        assert(digits =~= text@.skip(start as int));
        assert(digits.take(0) =~= Seq::empty());
    }
    while i < chars.len()
        invariant
            chars@ == text@,
            start <= i <= chars@.len(),
            start <= 1,
            digits == text@.skip(start as int),
            digits == unsigned_part(text@),
            forall|j: int| 0 <= j < i - start ==> is_digit(#[trigger] digits[j]),
            value == digits_value(digits.take(i - start)),
            value <= 9_223_372_036_854_775_808,
        decreases chars@.len() - i,
    {
        let c: char = chars[i];
        proof {
            assert(digits[i - start] == c);
            assert(digits.take(i - start + 1).drop_last() =~= digits.take(i - start));
        }
        if !('0' <= c && c <= '9') {
            return None;
        }
        let digit: u64 = (c as u32 - 48) as u64;
        if value > 922_337_203_685_477_580 || value * 10 + digit > 9_223_372_036_854_775_808 {
            proof {
                if all_digits(digits) {
                    lemma_digits_value_grows(digits, i - start + 1);
                }
            }
            return None;
        }
        value = value * 10 + digit;
        i += 1;
    }
    proof {
        assert(digits.take(i - start) =~= digits);
    }
    if negative {
        if value == 9_223_372_036_854_775_808 {
            Some(i64::MIN)
        } else {
            Some(-(value as i64))
        }
    } else if value <= 9_223_372_036_854_775_807 {
        Some(value as i64)
    } else {
        None
    }
}

/// Pads a text with blanks on the left up to `width` characters.
pub open spec fn padded_left(text: Seq<char>, width: nat) -> Seq<char> {
    if text.len() >= width {
        text
    } else {
        Seq::new((width - text.len()) as nat, |i: int| ' ') + text
    }
}

/// The text, preceded by as many blanks as it lacks to `width` characters.
pub fn pad_left(text: &str, width: usize) -> (r: String)
    ensures
        r@ == padded_left(text@, width as nat),
{
    let len = text.unicode_len();
    let mut out = String::new();
    let mut i = len;
    while i < width
        invariant
            len == text@.len(),
            i <= width || i == len,
            i >= len,
            out@ == Seq::new((i - len) as nat, |j: int| ' '),
        decreases width - i,
    {
        out.push(' ');
        i += 1;
    }
    out.append(text);
    out
}

// ---------------------------------------------------------------------------
// Lines
// ---------------------------------------------------------------------------

/// The position of the first line feed from `from` on, or the length of the text.
pub open spec fn line_end(text: Seq<char>, from: int) -> int
    decreases text.len() - from,
{
    if from < 0 || from >= text.len() || text[from] == '\n' {
        from
    } else {
        line_end(text, from + 1)
    }
}

/// A line without the carriage return that stands before its line feed.
pub open spec fn without_carriage_return(line: Seq<char>) -> Seq<char> {
    if line.len() > 0 && line.last() == '\r' {
        line.drop_last()
    } else {
        line
    }
}

/// The lines of a text from position `from` on. A line ends at a line feed, or at a carriage
/// return and a line feed; the last one may end at the end of the text.
pub open spec fn lines_from(text: Seq<char>, from: int) -> Seq<Seq<char>>
    decreases text.len() - from,
{
    if from < 0 || from >= text.len() {
        seq![]
    } else {
        let end = line_end(text, from);
        if end < from {
            seq![]
        } else if end >= text.len() {
            seq![text.subrange(from, text.len() as int)]
        } else {
            seq![without_carriage_return(text.subrange(from, end))] + lines_from(text, end + 1)
        }
    }
}

/// The lines of a text.
pub open spec fn lines_of(text: Seq<char>) -> Seq<Seq<char>> {
    lines_from(text, 0)
}

proof fn lemma_line_end(text: Seq<char>, from: int)
    requires
        0 <= from <= text.len(),
    ensures
        from <= line_end(text, from) <= text.len(),
        line_end(text, from) < text.len() ==> text[line_end(text, from)] == '\n',
    decreases text.len() - from,
{
    if from < text.len() && text[from] != '\n' {
        lemma_line_end(text, from + 1);
    }
}

/// The character sequences of a vector of strings.
pub open spec fn views(texts: Seq<String>) -> Seq<Seq<char>> {
    texts.map_values(|t: String| t@)
}

/// Splits a text into its lines.
pub fn split_lines(text: &str) -> (r: Vec<String>)
    ensures
        views(r@) == lines_of(text@),
{
    let chars = chars_of(text);
    let mut out: Vec<String> = Vec::new();
    let mut from: usize = 0;
    proof {
        assert(views(out@) + lines_from(text@, 0) =~= lines_of(text@));
    }
    while from < chars.len()
        invariant
            chars@ == text@,
            from <= chars@.len(),
            views(out@) + lines_from(text@, from as int) == lines_of(text@),
        decreases chars@.len() - from,
    {
        let ghost before = out@;
        let ghost start = from as int;
        let mut end: usize = from;
        while end < chars.len() && chars[end] != '\n'
            invariant
                chars@ == text@,
                from <= end <= chars@.len(),
                line_end(text@, from as int) == line_end(text@, end as int),
            decreases chars@.len() - end,
        {
            end += 1;
        }
        if end == chars.len() {
            let line = text_from(&chars, from, end);
            out.push(line);
            from = end;
            proof {
                assert(views(out@) =~= views(before).push(line@));
                assert(lines_from(text@, start) =~= seq![line@]);
                assert(lines_from(text@, from as int) =~= seq![]);
                assert(views(out@) + lines_from(text@, from as int) =~= lines_of(text@));
            }
        } else {
            let stop = if end > from && chars[end - 1] == '\r' {
                end - 1
            } else {
                end
            };
            let line = text_from(&chars, from, stop);
            out.push(line);
            from = end + 1;
            proof {
                assert(views(out@) =~= views(before).push(line@));
                let whole = text@.subrange(start, end as int);
                assert(without_carriage_return(whole) =~= line@);
                assert(lines_from(text@, start) =~= seq![line@] + lines_from(text@, from as int));
                assert(views(out@) + lines_from(text@, from as int) =~= lines_of(text@));
            }
        }
    }
    proof {
        assert(lines_from(text@, from as int) =~= seq![]);
        assert(views(out@) =~= lines_of(text@));
    }
    out
}

// ---------------------------------------------------------------------------
// Splitting at a character
// ---------------------------------------------------------------------------

/// The position of the first `sep` from `from` on, or the length of the text.
pub open spec fn next_sep(text: Seq<char>, sep: char, from: int) -> int
    decreases text.len() - from,
{
    if from < 0 || from >= text.len() || text[from] == sep {
        from
    } else {
        next_sep(text, sep, from + 1)
    }
}

/// The parts of a text between its `sep` characters, from position `from` on.
pub open spec fn parts_from(text: Seq<char>, sep: char, from: int) -> Seq<Seq<char>>
    decreases text.len() - from,
{
    let end = next_sep(text, sep, from);
    if from < 0 || from > text.len() || end < from || end >= text.len() {
        seq![text.subrange(from, text.len() as int)]
    } else {
        seq![text.subrange(from, end)] + parts_from(text, sep, end + 1)
    }
}

/// The parts of a text between its `sep` characters.
pub open spec fn parts_of(text: Seq<char>, sep: char) -> Seq<Seq<char>> {
    parts_from(text, sep, 0)
}

/// Every text has a first part.
pub proof fn lemma_some_part(text: Seq<char>, sep: char)
    ensures
        parts_of(text, sep).len() > 0,
{
}

/// Splits a text at its `sep` characters.
pub fn split_on(text: &str, sep: char) -> (r: Vec<String>)
    ensures
        views(r@) == parts_of(text@, sep),
{
    let chars = chars_of(text);
    let mut out: Vec<String> = Vec::new();
    let mut from: usize = 0;
    let mut i: usize = 0;
    proof {
        assert(views(out@) + parts_from(text@, sep, 0) =~= parts_of(text@, sep));
    }
    while i < chars.len()
        invariant
            chars@ == text@,
            from <= i <= chars@.len(),
            next_sep(text@, sep, from as int) == next_sep(text@, sep, i as int),
            views(out@) + parts_from(text@, sep, from as int) == parts_of(text@, sep),
        decreases chars@.len() - i,
    {
        if chars[i] == sep {
            let ghost before = out@;
            let ghost start = from as int;
            let part = text_from(&chars, from, i);
            out.push(part);
            from = i + 1;
            proof {
                assert(views(out@) =~= views(before).push(part@));
                assert(parts_from(text@, sep, start) =~= seq![part@] + parts_from(
                    text@,
                    sep,
                    from as int,
                ));
                assert(views(out@) + parts_from(text@, sep, from as int) =~= parts_of(text@, sep));
            }
        }
        i += 1;
    }
    let ghost before = out@;
    let part = text_from(&chars, from, chars.len());
    out.push(part);
    proof {
        assert(views(out@) =~= views(before).push(part@));
        assert(parts_from(text@, sep, from as int) =~= seq![part@]);
        assert(views(out@) =~= parts_of(text@, sep));
    }
    out
}

/// The text without the `c` characters that it starts with.
pub open spec fn stripped_start(text: Seq<char>, c: char) -> Seq<char>
    decreases text.len(),
{
    if text.len() > 0 && text[0] == c {
        stripped_start(text.drop_first(), c)
    } else {
        text
    }
}

/// The text without the `c` characters that it ends with.
pub open spec fn stripped_end(text: Seq<char>, c: char) -> Seq<char>
    decreases text.len(),
{
    if text.len() > 0 && text.last() == c {
        stripped_end(text.drop_last(), c)
    } else {
        text
    }
}

/// The text without the `c` characters around it.
pub open spec fn stripped(text: Seq<char>, c: char) -> Seq<char> {
    stripped_end(stripped_start(text, c), c)
}

/// Removes the `c` characters around a text.
pub fn strip_char(text: &str, c: char) -> (r: String)
    ensures
        r@ == stripped(text@, c),
{
    let chars = chars_of(text);
    let mut from: usize = 0;
    proof {
        assert(text@.skip(0) =~= text@);
    }
    while from < chars.len() && chars[from] == c
        invariant
            chars@ == text@,
            from <= chars@.len(),
            stripped_start(text@, c) == stripped_start(text@.skip(from as int), c),
        decreases chars@.len() - from,
    {
        proof {
            assert(text@.skip(from as int).drop_first() =~= text@.skip(from + 1));
        }
        from += 1;
    }
    let mut to: usize = chars.len();
    proof {
        assert(stripped_start(text@, c) == text@.skip(from as int));
        assert(text@.skip(from as int) =~= text@.subrange(from as int, to as int));
    }
    while to > from && chars[to - 1] == c
        invariant
            chars@ == text@,
            from <= to <= chars@.len(),
            stripped(text@, c) == stripped_end(text@.subrange(from as int, to as int), c),
        decreases to,
    {
        proof {
            assert(text@.subrange(from as int, to as int).drop_last() =~= text@.subrange(
                from as int,
                to - 1,
            ));
        }
        to -= 1;
    }
    text_from(&chars, from, to)
}

/// What follows a prefix; nothing where the text does not start with it.
pub open spec fn after_prefix(text: Seq<char>, prefix: Seq<char>) -> Option<Seq<char>> {
    if prefix.is_prefix_of(text) {
        Some(text.skip(prefix.len() as int))
    } else {
        None
    }
}

/// Removes a prefix.
pub fn strip_prefix(text: &str, prefix: &str) -> (r: Option<String>)
    ensures
        string_view(r) == after_prefix(text@, prefix@),
{
    if starts_with_text(text, prefix) {
        let chars = chars_of(text);
        let start = prefix.unicode_len();
        proof {
            assert(text@.skip(start as int) =~= text@.subrange(start as int, text@.len() as int));
        }
        Some(text_from(&chars, start, chars.len()))
    } else {
        None
    }
}

/// The integer of 32 bits that a text denotes.
pub open spec fn parsed_i32(text: Seq<char>) -> Option<i32> {
    match parsed_i64(text) {
        Some(n) => if i32::MIN <= n <= i32::MAX {
            Some(n as i32)
        } else {
            None
        },
        None => None,
    }
}

/// Reads an integer of 32 bits.
pub fn parse_i32(text: &str) -> (r: Option<i32>)
    ensures
        r == parsed_i32(text@),
{
    match parse_i64(text) {
        Some(n) => if -2_147_483_648 <= n && n <= 2_147_483_647 {
            Some(n as i32)
        } else {
            None
        },
        None => None,
    }
}

proof fn lemma_lines_bound(text: Seq<char>, from: int)
    requires
        0 <= from <= text.len(),
    ensures
        lines_from(text, from).len() <= text.len() - from,
    decreases text.len() - from,
{
    if from < text.len() {
        lemma_line_end(text, from);
        let end = line_end(text, from);
        if end < text.len() {
            lemma_lines_bound(text, end + 1);
        }
    }
}

/// A text has no more lines than characters.
pub proof fn lemma_lines_at_most_chars(text: Seq<char>)
    ensures
        lines_of(text).len() <= text.len(),
{
    lemma_lines_bound(text, 0);
}

// ---------------------------------------------------------------------------
// Laws
// ---------------------------------------------------------------------------

proof fn lemma_trimmed_start_is_part(text: Seq<char>) -> (from: int)
    ensures
        0 <= from <= text.len(),
        trimmed_start(text) == text.skip(from),
        forall|i: int| 0 <= i < from ==> is_whitespace(#[trigger] text[i]),
        from < text.len() ==> !is_whitespace(text[from]),
    decreases text.len(),
{
    if text.len() > 0 && is_whitespace(text[0]) {
        let rest = text.drop_first();
        let from = lemma_trimmed_start_is_part(rest);
        assert(rest.skip(from) =~= text.skip(from + 1));
        assert forall|i: int| 0 <= i < from + 1 implies is_whitespace(#[trigger] text[i]) by {
            if i > 0 {
                assert(rest[i - 1] == text[i]);
            }
        }
        from + 1
    } else {
        assert(text.skip(0) =~= text);
        0
    }
}

proof fn lemma_trimmed_end_is_part(text: Seq<char>) -> (to: int)
    ensures
        0 <= to <= text.len(),
        trimmed_end(text) == text.take(to),
        forall|i: int| to <= i < text.len() ==> is_whitespace(#[trigger] text[i]),
        to > 0 ==> !is_whitespace(text[to - 1]),
    decreases text.len(),
{
    if text.len() > 0 && is_whitespace(text.last()) {
        let rest = text.drop_last();
        let to = lemma_trimmed_end_is_part(rest);
        assert(rest.take(to) =~= text.take(to));
        assert forall|i: int| to <= i < text.len() implies is_whitespace(#[trigger] text[i]) by {
            if i < rest.len() {
                assert(rest[i] == text[i]);
            }
        }
        to
    } else {
        assert(text.take(text.len() as int) =~= text);
        text.len() as int
    }
}

/// Trimming takes whitespace away from both ends, all of it, and nothing else: a text that stands
/// between whitespace and does not itself begin or end with some is what is left.
pub proof fn law_trimming_leaves_the_inside(before: Seq<char>, inside: Seq<char>, after: Seq<char>)
    requires
        forall|i: int| 0 <= i < before.len() ==> is_whitespace(#[trigger] before[i]),
        forall|i: int| 0 <= i < after.len() ==> is_whitespace(#[trigger] after[i]),
        inside.len() > 0 ==> !is_whitespace(inside[0]) && !is_whitespace(inside.last()),
    ensures
        trimmed(before + inside + after) == inside,
{
    let text = before + inside + after;
    let from = lemma_trimmed_start_is_part(text);
    let started = trimmed_start(text);
    let to = lemma_trimmed_end_is_part(started);
    if inside.len() > 0 {
        assert(text[before.len() as int] == inside[0]);
        assert forall|i: int| 0 <= i < before.len() implies is_whitespace(#[trigger] text[i]) by {
            assert(text[i] == before[i]);
        }
        assert(from == before.len());
        assert(started =~= inside + after);
        assert(started[inside.len() - 1] == inside.last());
        if to > inside.len() {
            assert(started[to - 1] == after[to - 1 - inside.len()]);
        }
        assert(to == inside.len());
        assert(started.take(to) =~= inside);
    } else {
        assert forall|i: int| 0 <= i < text.len() implies is_whitespace(#[trigger] text[i]) by {
            if i < before.len() {
                assert(text[i] == before[i]);
            } else {
                assert(text[i] == after[i - before.len()]);
            }
        }
        assert(from == text.len());
        assert(started.take(to) =~= inside);
    }
}

/// A text that neither begins nor ends with whitespace is not trimmed.
pub proof fn law_trimmed_text_stays(text: Seq<char>)
    requires
        text.len() > 0 ==> !is_whitespace(text[0]) && !is_whitespace(text.last()),
    ensures
        trimmed(text) == text,
{
    let none = Seq::<char>::empty();
    law_trimming_leaves_the_inside(none, text, none);
    assert(none + text + none =~= text);
}

/// A text stands in another exactly if the other is made of it and what is around it.
pub proof fn law_occurs_between(hay: Seq<char>, needle: Seq<char>)
    ensures
        occurs_in(hay, needle) <==> exists|before: Seq<char>, after: Seq<char>|
            hay == #[trigger] (before + needle + after),
{
    if occurs_in(hay, needle) {
        let at = choose|at: int| occurs_at(hay, needle, at);
        let before = hay.take(at);
        let after = hay.skip(at + needle.len());
        assert(hay =~= before + needle + after);
    }
    if exists|before: Seq<char>, after: Seq<char>| hay == #[trigger] (before + needle + after) {
        let (before, after) = choose|before: Seq<char>, after: Seq<char>|
            hay == #[trigger] (before + needle + after);
        let at = before.len() as int;
        assert(hay.subrange(at, at + needle.len()) =~= needle);
        assert(occurs_at(hay, needle, at));
    }
}

/// Texts are ordered by the first character in which they differ, by its code; one that is the start
/// of another comes before it.
pub proof fn law_order_of_texts(common: Seq<char>, a: Seq<char>, b: Seq<char>)
    requires
        a.len() > 0 && b.len() > 0 ==> a[0] != b[0],
    ensures
        precedes(common + a, common + b) == (b.len() > 0 && (a.len() == 0 || (a[0] as int) < (
        b[0] as int))),
    decreases common.len(),
{
    if common.len() == 0 {
        assert(common + a =~= a);
        assert(common + b =~= b);
    } else {
        let rest = common.drop_first();
        law_order_of_texts(rest, a, b);
        assert((common + a).drop_first() =~= rest + a);
        assert((common + b).drop_first() =~= rest + b);
    }
}

/// The notation of a number is read back as that number, with a sign or without; it has no leading
/// zero. What holds a character that is no digit behind its sign, or no digit at all, is no number.
pub proof fn law_numbers_are_read_back(n: nat, text: Seq<char>, at: int)
    ensures
        n <= i64::MAX ==> parsed_i64(decimal(n)) == Some(n as i64),
        n <= i64::MAX ==> parsed_i64(seq!['+'] + decimal(n)) == Some(n as i64),
        n <= i64::MAX + 1 ==> parsed_i64(seq!['-'] + decimal(n)) == Some((-(n as int)) as i64),
        n > i64::MAX ==> parsed_i64(decimal(n)) is None,
        n > i64::MAX + 1 ==> parsed_i64(seq!['-'] + decimal(n)) is None,
        n > 0 ==> decimal(n)[0] != '0',
        text.len() == 0 ==> parsed_i64(text) is None,
        text.len() == 1 && !is_digit(text[0]) ==> parsed_i64(text) is None,
        0 < at < text.len() && !is_digit(text[at]) ==> parsed_i64(text) is None,
        text.len() > 0 && !is_digit(text[0]) && text[0] != '-' && text[0] != '+' ==> parsed_i64(
            text,
        ) is None,
{
    lemma_decimal_value(n);
    lemma_decimal_head(n);
    let digits = decimal(n);
    assert(is_digit(digits[0]));
    assert((seq!['+'] + digits).drop_first() =~= digits);
    assert((seq!['-'] + digits).drop_first() =~= digits);
    if 0 < at < text.len() && !is_digit(text[at]) {
        if unsigned_part(text) != text {
            assert(unsigned_part(text)[at - 1] == text[at]);
        }
    }
}

proof fn lemma_decimal_head(n: nat)
    ensures
        decimal(n).len() > 0,
        n > 0 ==> decimal(n)[0] != '0',
    decreases n,
{
    if n >= 10 {
        lemma_decimal_head(n / 10);
    } else {
        assert(decimal(n)[0] as int == 48 + n);
    }
}

/// A number of 32 bits is read where one of 64 bits is that fits.
pub proof fn law_small_numbers_are_read(text: Seq<char>)
    ensures
        parsed_i32(text) is Some <==> parsed_i64(text) is Some && -0x8000_0000 <= parsed_i64(text)->0
            <= 0x7fff_ffff,
        parsed_i32(text) is Some ==> parsed_i32(text)->0 == parsed_i64(text)->0,
{
}

/// Padding puts blanks before a text until it is as wide as wanted, and leaves a wider one alone.
pub proof fn law_padding_sets_flush_right(text: Seq<char>, width: nat)
    ensures
        ({
            let padded = padded_left(text, width);
            &&& padded.len() == if text.len() < width {
                width
            } else {
                text.len()
            }
            &&& padded.skip(padded.len() - text.len()) == text
            &&& forall|i: int| 0 <= i < padded.len() - text.len() ==> #[trigger] padded[i] == ' '
        }),
{
    let padded = padded_left(text, width);
    assert(padded.skip(padded.len() - text.len()) =~= text);
}

proof fn lemma_line_end_is_first(text: Seq<char>, from: int, end: int)
    requires
        0 <= from <= end <= text.len(),
        forall|i: int| from <= i < end ==> #[trigger] text[i] != '\n',
        end < text.len() ==> text[end] == '\n',
    ensures
        line_end(text, from) == end,
    decreases end - from,
{
    if from < end {
        lemma_line_end_is_first(text, from + 1, end);
    }
}

proof fn lemma_lines_from_skip(text: Seq<char>, from: int)
    requires
        0 <= from <= text.len(),
    ensures
        lines_from(text, from) == lines_of(text.skip(from)),
    decreases text.len() - from,
{
    let rest = text.skip(from);
    if from < text.len() {
        lemma_line_end(text, from);
        let end = line_end(text, from);
        lemma_line_end_first(text, from);
        assert forall|i: int| 0 <= i < end - from implies #[trigger] rest[i] != '\n' by {
            assert(rest[i] == text[from + i]);
        }
        lemma_line_end_is_first(rest, 0, end - from);
        if end < text.len() {
            assert(text.subrange(from, end) =~= rest.subrange(0, end - from));
            lemma_lines_from_skip(text, end + 1);
            lemma_lines_from_skip(rest, end - from + 1);
            assert(text.skip(end + 1) =~= rest.skip(end - from + 1));
        } else {
            assert(text.subrange(from, text.len() as int) =~= rest.subrange(0, rest.len() as int));
        }
    }
}

proof fn lemma_line_end_first(text: Seq<char>, from: int)
    requires
        0 <= from <= text.len(),
    ensures
        forall|i: int| from <= i < line_end(text, from) ==> #[trigger] text[i] != '\n',
    decreases text.len() - from,
{
    if from < text.len() && text[from] != '\n' {
        lemma_line_end_first(text, from + 1);
    }
}

/// A text is read line by line: the first line ends at the first line feed, without a carriage
/// return before it, and the lines of the rest follow. What ends without a line feed is one line as
/// it is, and nothing is no line.
pub proof fn law_lines_of_a_text(line: Seq<char>, rest: Seq<char>)
    requires
        forall|i: int| 0 <= i < line.len() ==> #[trigger] line[i] != '\n',
    ensures
        line.len() == 0 || line.last() != '\r' ==> lines_of(line + seq!['\n'] + rest) == seq![line]
            + lines_of(rest),
        lines_of(line + seq!['\r', '\n'] + rest) == seq![line] + lines_of(rest),
        line.len() > 0 ==> lines_of(line) == seq![line],
        lines_of(Seq::empty()).len() == 0,
{
    let n = line.len() as int;
    let plain = line + seq!['\n'] + rest;
    let returned = line + seq!['\r', '\n'] + rest;
    assert forall|i: int| 0 <= i < n implies #[trigger] plain[i] != '\n' by {
        assert(plain[i] == line[i]);
    }
    assert forall|i: int| 0 <= i < n + 1 implies #[trigger] returned[i] != '\n' by {
        if i < n {
            assert(returned[i] == line[i]);
        }
    }
    lemma_line_end_is_first(plain, 0, n);
    lemma_line_end_is_first(returned, 0, n + 1);
    lemma_line_end_is_first(line, 0, n);
    lemma_lines_from_skip(plain, n + 1);
    lemma_lines_from_skip(returned, n + 2);
    assert(plain.skip(n + 1) =~= rest);
    assert(returned.skip(n + 2) =~= rest);
    assert(plain.subrange(0, n) =~= line);
    assert(returned.subrange(0, n + 1) =~= line.push('\r'));
    assert(line.push('\r').drop_last() =~= line);
    assert(line.subrange(0, n) =~= line);
}

proof fn lemma_next_sep_is_first(text: Seq<char>, sep: char, from: int, end: int)
    requires
        0 <= from <= end <= text.len(),
        forall|i: int| from <= i < end ==> #[trigger] text[i] != sep,
        end < text.len() ==> text[end] == sep,
    ensures
        next_sep(text, sep, from) == end,
    decreases end - from,
{
    if from < end {
        lemma_next_sep_is_first(text, sep, from + 1, end);
    }
}

proof fn lemma_next_sep(text: Seq<char>, sep: char, from: int)
    requires
        0 <= from <= text.len(),
    ensures
        from <= next_sep(text, sep, from) <= text.len(),
        next_sep(text, sep, from) < text.len() ==> text[next_sep(text, sep, from)] == sep,
        forall|i: int| from <= i < next_sep(text, sep, from) ==> #[trigger] text[i] != sep,
    decreases text.len() - from,
{
    if from < text.len() && text[from] != sep {
        lemma_next_sep(text, sep, from + 1);
    }
}

proof fn lemma_parts_from_skip(text: Seq<char>, sep: char, from: int)
    requires
        0 <= from <= text.len(),
    ensures
        parts_from(text, sep, from) == parts_of(text.skip(from), sep),
    decreases text.len() - from,
{
    let rest = text.skip(from);
    lemma_next_sep(text, sep, from);
    let end = next_sep(text, sep, from);
    assert forall|i: int| 0 <= i < end - from implies #[trigger] rest[i] != sep by {
        assert(rest[i] == text[from + i]);
    }
    lemma_next_sep_is_first(rest, sep, 0, end - from);
    if end < text.len() {
        assert(text.subrange(from, end) =~= rest.subrange(0, end - from));
        lemma_parts_from_skip(text, sep, end + 1);
        lemma_parts_from_skip(rest, sep, end - from + 1);
        assert(text.skip(end + 1) =~= rest.skip(end - from + 1));
    } else {
        assert(text.subrange(from, text.len() as int) =~= rest.subrange(0, rest.len() as int));
    }
}

/// A text is split at every separator: its first part ends at the first one, and the parts of
/// what follows come after it. A text without a separator is its own only part.
pub proof fn law_parts_of_a_text(part: Seq<char>, sep: char, rest: Seq<char>)
    requires
        forall|i: int| 0 <= i < part.len() ==> #[trigger] part[i] != sep,
    ensures
        parts_of(part + seq![sep] + rest, sep) == seq![part] + parts_of(rest, sep),
        parts_of(part, sep) == seq![part],
{
    let n = part.len() as int;
    let text = part + seq![sep] + rest;
    assert forall|i: int| 0 <= i < n implies #[trigger] text[i] != sep by {
        assert(text[i] == part[i]);
    }
    lemma_next_sep_is_first(text, sep, 0, n);
    lemma_next_sep_is_first(part, sep, 0, n);
    lemma_parts_from_skip(text, sep, n + 1);
    assert(text.skip(n + 1) =~= rest);
    assert(text.subrange(0, n) =~= part);
    assert(part.subrange(0, n) =~= part);
}

proof fn lemma_matches_from_skip(hay: Seq<char>, needle: Seq<char>, from: int)
    requires
        0 <= from <= hay.len(),
    ensures
        disjoint_matches(hay, needle, from) == disjoint_matches(hay.skip(from), needle, 0),
    decreases hay.len() - from,
{
    let rest = hay.skip(from);
    if from < hay.len() && needle.len() > 0 {
        if from + needle.len() <= hay.len() {
            assert(hay.subrange(from, from + needle.len()) =~= rest.subrange(
                0,
                needle.len() as int,
            ));
        }
        let step = if occurs_at(hay, needle, from) {
            needle.len() as int
        } else {
            1
        };
        lemma_matches_from_skip(hay, needle, from + step);
        lemma_matches_from_skip(rest, needle, step);
        assert(hay.skip(from + step) =~= rest.skip(step));
    }
}

/// Matches are counted from the left: one that stands at the start counts, and the count goes on
/// behind it; where none does, it goes on one character further.
pub proof fn law_matches_are_counted_from_the_left(needle: Seq<char>, rest: Seq<char>, c: char)
    requires
        needle.len() > 0,
    ensures
        disjoint_matches(needle + rest, needle, 0) == 1 + disjoint_matches(rest, needle, 0),
        !needle.is_prefix_of(seq![c] + rest) ==> disjoint_matches(seq![c] + rest, needle, 0)
            == disjoint_matches(rest, needle, 0),
        disjoint_matches(Seq::empty(), needle, 0) == 0,
{
    let hay = needle + rest;
    let n = needle.len() as int;
    assert(hay.subrange(0, n) =~= needle);
    lemma_matches_from_skip(hay, needle, n);
    assert(hay.skip(n) =~= rest);
    let other = seq![c] + rest;
    lemma_matches_from_skip(other, needle, 1);
    assert(other.skip(1) =~= rest);
}

/// A prefix is taken off where the text starts with it, and what follows is all that is left.
pub proof fn law_prefix_is_taken_off(text: Seq<char>, prefix: Seq<char>, rest: Seq<char>)
    ensures
        after_prefix(prefix + rest, prefix) == Some(rest),
        after_prefix(text, prefix) matches Some(left) ==> text == prefix + left,
{
    let whole = prefix + rest;
    assert(whole.subrange(0, prefix.len() as int) =~= prefix);
    assert(whole.skip(prefix.len() as int) =~= rest);
    if prefix.is_prefix_of(text) {
        assert(text =~= prefix + text.skip(prefix.len() as int));
    }
}

/// Stripping takes the character away from both ends as often as it stands there, and nothing else.
pub proof fn law_stripping_leaves_the_inside(c: char, before: nat, inside: Seq<char>, after: nat)
    requires
        inside.len() > 0 ==> inside[0] != c && inside.last() != c,
    ensures
        stripped(Seq::new(before, |i: int| c) + inside + Seq::new(after, |i: int| c), c) == inside,
    decreases before + after,
{
    let text = Seq::new(before, |i: int| c) + inside + Seq::new(after, |i: int| c);
    if before > 0 {
        let less = (before - 1) as nat;
        law_stripping_leaves_the_inside(c, less, inside, after);
        assert(text.drop_first() =~= Seq::new(less, |i: int| c) + inside + Seq::new(
            after,
            |i: int| c,
        ));
    } else if inside.len() > 0 {
        assert(text[0] == inside[0]);
        if after > 0 {
            let less = (after - 1) as nat;
            law_stripping_leaves_the_inside(c, before, inside, less);
            let shorter = Seq::new(before, |i: int| c) + inside + Seq::new(less, |i: int| c);
            assert(text.drop_last() =~= shorter);
            assert(shorter[0] == inside[0]);
            assert(text.last() == c);
        } else {
            assert(text =~= inside);
        }
    } else if after > 0 {
        let less = (after - 1) as nat;
        law_stripping_leaves_the_inside(c, before, inside, less);
        assert(text.drop_first() =~= Seq::new(before, |i: int| c) + inside + Seq::new(
            less,
            |i: int| c,
        ));
        assert(text[0] == c);
    } else {
        assert(text =~= inside);
    }
}

} // verus!
