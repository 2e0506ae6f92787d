//! What the log looks like on a terminal, and the summary of its recent entries.

use vstd::prelude::*;
use vstd::utf8::*;

use crate::events;
use crate::events::HookEvent;
use crate::logger;
use crate::logger::LogEntry;
use crate::text;
use crate::text::{contains_text, pad_left, same_text, split_bytes, text_byte_len, to_lowercase};

verus! {

// ---------------------------------------------------------------------------
// Styles
// ---------------------------------------------------------------------------

/// The colours of a terminal that are used.
#[derive(Clone, Copy, PartialEq, Eq, Debug, Structural)]
pub enum TermColor {
    Red,
    Green,
    Yellow,
    Blue,
    Magenta,
    Cyan,
    White,
}

/// How a piece of text looks on a terminal.
#[derive(Clone, Copy, PartialEq, Eq, Debug, Structural)]
pub struct TermStyle {
    pub color: Option<TermColor>,
    pub bold: bool,
    pub dimmed: bool,
}

/// As the terminal has it.
pub open spec fn plain() -> TermStyle {
    TermStyle { color: None, bold: false, dimmed: false }
}

/// In a colour.
pub open spec fn in_color(color: TermColor) -> TermStyle {
    TermStyle { color: Some(color), bold: false, dimmed: false }
}

/// In a colour, bold.
pub open spec fn in_bold(color: TermColor) -> TermStyle {
    TermStyle { color: Some(color), bold: true, dimmed: false }
}

/// In a colour, dimmed.
pub open spec fn in_dim(color: TermColor) -> TermStyle {
    TermStyle { color: Some(color), bold: false, dimmed: true }
}

/// Dimmed, in the terminal's own colour.
pub open spec fn faint() -> TermStyle {
    TermStyle { color: None, bold: false, dimmed: true }
}

fn unstyled() -> (r: TermStyle)
    ensures
        r == plain(),
{
    TermStyle { color: None, bold: false, dimmed: false }
}

fn colored(color: TermColor) -> (r: TermStyle)
    ensures
        r == in_color(color),
{
    TermStyle { color: Some(color), bold: false, dimmed: false }
}

fn bold(color: TermColor) -> (r: TermStyle)
    ensures
        r == in_bold(color),
{
    TermStyle { color: Some(color), bold: true, dimmed: false }
}

fn dimmed(color: TermColor) -> (r: TermStyle)
    ensures
        r == in_dim(color),
{
    TermStyle { color: Some(color), bold: false, dimmed: true }
}

/// The style of an event type.
pub open spec fn style_of(event_type: Seq<char>) -> TermStyle {
    if event_type == "SessionStart"@ || event_type == "TaskCompleted"@ || event_type == "conversation_starts"@ {
        in_bold(TermColor::Green)
    } else if event_type == "SessionEnd"@ {
        in_bold(TermColor::Red)
    } else if event_type == "PreToolUse"@ || event_type == "WorktreeCreate"@ || event_type == "WorktreeRemove"@ || event_type == "api_request"@ || event_type == "tool_decision"@ {
        in_color(TermColor::Cyan)
    } else if event_type == "PostToolUse"@ || event_type == "tool_result"@ {
        in_color(TermColor::Blue)
    } else if event_type == "PostToolUseFailure"@ || event_type == "Stop"@ {
        in_color(TermColor::Red)
    } else if event_type == "PermissionRequest"@ {
        in_bold(TermColor::Yellow)
    } else if event_type == "Notification"@ || event_type == "TeammateIdle"@ || event_type == "ConfigChange"@ {
        in_color(TermColor::Yellow)
    } else if event_type == "SubagentStart"@ || event_type == "SubagentStop"@ {
        in_color(TermColor::Magenta)
    } else if event_type == "UserPromptSubmit"@ {
        in_color(TermColor::Green)
    } else if event_type == "InstructionsLoaded"@ || event_type == "PreCompact"@ || event_type == "sse_event"@ {
        in_dim(TermColor::White)
    } else {
        plain()
    }
}

/// The style of an event type.
pub fn colorize_event_type(event_type: &str) -> (r: TermStyle)
    ensures
        r == style_of(event_type@),
{
    if same_text(event_type, "SessionStart") || same_text(event_type, "TaskCompleted") || same_text(event_type, "conversation_starts") {
        bold(TermColor::Green)
    } else if same_text(event_type, "SessionEnd") {
        bold(TermColor::Red)
    } else if same_text(event_type, "PreToolUse") || same_text(event_type, "WorktreeCreate") || same_text(event_type, "WorktreeRemove") || same_text(event_type, "api_request") || same_text(event_type, "tool_decision") {
        colored(TermColor::Cyan)
    } else if same_text(event_type, "PostToolUse") || same_text(event_type, "tool_result") {
        colored(TermColor::Blue)
    } else if same_text(event_type, "PostToolUseFailure") || same_text(event_type, "Stop") {
        colored(TermColor::Red)
    } else if same_text(event_type, "PermissionRequest") {
        bold(TermColor::Yellow)
    } else if same_text(event_type, "Notification") || same_text(event_type, "TeammateIdle") || same_text(event_type, "ConfigChange") {
        colored(TermColor::Yellow)
    } else if same_text(event_type, "SubagentStart") || same_text(event_type, "SubagentStop") {
        colored(TermColor::Magenta)
    } else if same_text(event_type, "UserPromptSubmit") {
        colored(TermColor::Green)
    } else if same_text(event_type, "InstructionsLoaded") || same_text(event_type, "PreCompact") || same_text(event_type, "sse_event") {
        dimmed(TermColor::White)
    } else {
        unstyled()
    }
}

// ---------------------------------------------------------------------------
// Lines
// ---------------------------------------------------------------------------

/// The first byte of the time of day in a timestamp.
pub const TIME_FROM: usize = 11;

/// The first byte behind the time of day in a timestamp.
pub const TIME_TO: usize = 19;

/// The time of day of a timestamp that is long enough to hold one; else the whole timestamp.
pub open spec fn time_of_day(timestamp: Seq<char>) -> Seq<char> {
    if text::byte_len(timestamp) >= TIME_TO {
        decode_utf8(encode_utf8(timestamp).subrange(TIME_FROM as int, TIME_TO as int))
    } else {
        timestamp
    }
}

/// The time of day begins and ends between two characters of the timestamp.
pub open spec fn time_is_apart(timestamp: Seq<char>) -> bool {
    text::byte_len(timestamp) >= TIME_TO ==> is_char_boundary(
        encode_utf8(timestamp),
        TIME_FROM as int,
    ) && is_char_boundary(encode_utf8(timestamp), TIME_TO as int)
}

/// Whether the time of day can be cut out of a timestamp.
pub fn has_clock_time(timestamp: &str) -> (r: bool)
    ensures
        r == time_is_apart(timestamp@),
{
    text_byte_len(timestamp) < TIME_TO || (timestamp.is_char_boundary(TIME_FROM)
        && timestamp.is_char_boundary(TIME_TO))
}

/// The time of day of a timestamp.
pub fn clock_time(timestamp: &str) -> (r: &str)
    requires
        time_is_apart(timestamp@),
    ensures
        r@ == time_of_day(timestamp@),
{
    if text_byte_len(timestamp) < TIME_TO {
        return timestamp;
    }
    let head = split_bytes(timestamp, TIME_TO).0;
    proof {
        let bytes = encode_utf8(timestamp@);
        let front = encode_utf8(head@);
        encode_utf8_valid_utf8(timestamp@);
        encode_utf8_valid_utf8(head@);
        assert(front[TIME_FROM as int] == bytes[TIME_FROM as int]);
        is_char_boundary_iff_not_is_continuation_byte(bytes, TIME_FROM as int);
        is_char_boundary_iff_not_is_continuation_byte(front, TIME_FROM as int);
        assert(front.subrange(TIME_FROM as int, front.len() as int) =~= bytes.subrange(
            TIME_FROM as int,
            TIME_TO as int,
        ));
    }
    split_bytes(head, TIME_FROM).1
}

/// The event type holds the filter, whatever the case of either.
pub open spec fn shown(event_type: Seq<char>, filter: Option<Seq<char>>) -> bool {
    match filter {
        None => true,
        Some(part) => text::occurs_in(text::lowercase(event_type), text::lowercase(part)),
    }
}

/// Whether a text holds another, both in lower case.
pub fn matches_filter(lower_type: &str, lower_filter: &str) -> (r: bool)
    ensures
        r == text::occurs_in(lower_type@, lower_filter@),
{
    contains_text(lower_type, lower_filter)
}

/// Whether an entry passes a filter.
pub fn should_show(entry: &LogEntry, filter: Option<&str>) -> (r: bool)
    ensures
        r == shown(entry@.event_type, text::text_view(filter)),
{
    match filter {
        None => true,
        Some(part) => matches_filter(
            to_lowercase(entry.event_type.as_str()).as_str(),
            to_lowercase(part).as_str(),
        ),
    }
}

/// A piece of a line, in one style.
#[derive(Debug)]
pub struct Piece {
    pub text: String,
    pub style: TermStyle,
}

impl View for Piece {
    type V = (Seq<char>, TermStyle);

    open spec fn view(&self) -> (Seq<char>, TermStyle) {
        (self.text@, self.style)
    }
}

/// The views of pieces.
pub open spec fn piece_views(pieces: Seq<Piece>) -> Seq<(Seq<char>, TermStyle)> {
    pieces.map_values(|p: Piece| p@)
}

/// The characters that an event type is given at least.
pub const TYPE_WIDTH: usize = 22;

/// The mark of the agent that an entry comes from.
pub open spec fn source_piece(source: Seq<char>) -> (Seq<char>, TermStyle) {
    if source == "cx"@ {
        ("[CX]"@, in_color(TermColor::Magenta))
    } else {
        ("[CC]"@, in_color(TermColor::Cyan))
    }
}

/// The tool of an entry, in brackets.
pub open spec fn tool_pieces(tool: Option<Seq<char>>) -> Seq<(Seq<char>, TermStyle)> {
    match tool {
        Some(name) => seq![
            (" ["@, plain()),
            (name, in_color(TermColor::Yellow)),
            ("]"@, plain()),
        ],
        None => seq![],
    }
}

/// The line of an entry: its time, its agent, its event type, its tool and what it says.
pub open spec fn line_of(entry: logger::EntryView) -> Seq<(Seq<char>, TermStyle)> {
    seq![
        (time_of_day(entry.timestamp), faint()),
        (" "@, plain()),
        source_piece(entry.source),
        (" "@, plain()),
        (
            text::padded_left(entry.event_type, TYPE_WIDTH as nat),
            style_of(entry.event_type),
        ),
    ] + tool_pieces(entry.tool_name) + seq![
        (" "@, plain()),
        (entry.summary, in_color(TermColor::White)),
    ]
}

fn piece(text: &str, style: TermStyle) -> (r: Piece)
    ensures
        r@ == (text@, style),
{
    Piece { text: text.to_owned(), style }
}

/// The line of an entry.
pub fn format_entry(entry: &LogEntry) -> (r: Vec<Piece>)
    requires
        time_is_apart(entry@.timestamp),
    ensures
        piece_views(r@) == line_of(entry@),
{
    let mut line: Vec<Piece> = Vec::new();
    let time = clock_time(entry.timestamp.as_str());
    line.push(piece(time, TermStyle { color: None, bold: false, dimmed: true }));
    line.push(piece(" ", unstyled()));
    if same_text(entry.source.as_str(), "cx") {
        line.push(piece("[CX]", colored(TermColor::Magenta)));
    } else {
        line.push(piece("[CC]", colored(TermColor::Cyan)));
    }
    line.push(piece(" ", unstyled()));
    let event_type = entry.event_type.as_str();
    line.push(
        Piece { text: pad_left(event_type, TYPE_WIDTH), style: colorize_event_type(event_type) },
    );
    match &entry.tool_name {
        Some(tool) => {
            line.push(piece(" [", unstyled()));
            line.push(piece(tool.as_str(), colored(TermColor::Yellow)));
            line.push(piece("]", unstyled()));
        },
        None => {},
    }
    line.push(piece(" ", unstyled()));
    line.push(piece(entry.summary.as_str(), colored(TermColor::White)));
    proof {
        assert(piece_views(line@) =~= line_of(entry@));
    }
    line
}

/// The lines that are shown before new ones are awaited.
pub const FIRST_LINES: usize = 10;

/// The position of the first of the last `count` of `len` things.
pub open spec fn tail_start(len: usize, count: usize) -> usize {
    if len > count {
        (len - count) as usize
    } else {
        0
    }
}

/// The position of the first of the last `count` of `len` things.
pub fn last_from(len: usize, count: usize) -> (r: usize)
    ensures
        r == tail_start(len, count),
{
    if len > count {
        len - count
    } else {
        0
    }
}

// ---------------------------------------------------------------------------
// The summary
// ---------------------------------------------------------------------------

/// How often an event type occurs.
#[derive(Debug)]
pub struct TypeCount {
    pub event_type: String,
    pub count: usize,
}

impl View for TypeCount {
    type V = (Seq<char>, nat);

    open spec fn view(&self) -> (Seq<char>, nat) {
        (self.event_type@, self.count as nat)
    }
}

/// The views of counts.
pub open spec fn count_views(counts: Seq<TypeCount>) -> Seq<(Seq<char>, nat)> {
    counts.map_values(|c: TypeCount| c@)
}

/// How often `t` occurs among `types`.
pub open spec fn occurrences(types: Seq<Seq<char>>, t: Seq<char>) -> nat
    decreases types.len(),
{
    if types.len() == 0 {
        0
    } else {
        occurrences(types.drop_last(), t) + (if types.last() == t {
            1nat
        } else {
            0nat
        })
    }
}

/// The event types of entries.
pub open spec fn types_of(entries: Seq<logger::EntryView>) -> Seq<Seq<char>> {
    entries.map_values(|e: logger::EntryView| e.event_type)
}

/// `counts` names `t`.
pub open spec fn named(counts: Seq<(Seq<char>, nat)>, t: Seq<char>) -> bool {
    exists|i: int| 0 <= i < counts.len() && (#[trigger] counts[i]).0 == t
}

/// `counts` names each of `types` once, with how often it occurs, and nothing else.
pub open spec fn tallies(counts: Seq<(Seq<char>, nat)>, types: Seq<Seq<char>>) -> bool {
    &&& forall|i: int|
        0 <= i < counts.len() ==> (#[trigger] counts[i]).1 == occurrences(types, counts[i].0)
            && counts[i].1 > 0
    &&& forall|i: int, j: int|
        0 <= i < j < counts.len() ==> (#[trigger] counts[i]).0 != (#[trigger] counts[j]).0
    &&& forall|k: int| 0 <= k < types.len() ==> named(counts, #[trigger] types[k])
}

/// The more frequent comes first.
pub open spec fn descending(counts: Seq<(Seq<char>, nat)>) -> bool {
    forall|i: int, j: int|
        0 <= i < j < counts.len() ==> (#[trigger] counts[i]).1 >= (#[trigger] counts[j]).1
}

proof fn lemma_occurrences_bound(types: Seq<Seq<char>>, t: Seq<char>)
    ensures
        occurrences(types, t) <= types.len(),
    decreases types.len(),
{
    if types.len() > 0 {
        lemma_occurrences_bound(types.drop_last(), t);
    }
}

proof fn lemma_occurs(types: Seq<Seq<char>>, t: Seq<char>)
    ensures
        occurrences(types, t) > 0 <==> types.contains(t),
    decreases types.len(),
{
    if types.len() > 0 {
        lemma_occurs(types.drop_last(), t);
        if types.last() == t {
            assert(types[types.len() - 1] == t);
        }
        if types.drop_last().contains(t) {
            let k = choose|k: int| 0 <= k < types.len() - 1 && types.drop_last()[k] == t;
            assert(types[k] == t);
        }
        if types.contains(t) && types.last() != t {
            let k = choose|k: int| 0 <= k < types.len() && types[k] == t;
            assert(types.drop_last()[k] == t);
        }
    }
}

/// One more event of a type.
fn count_type(counts: &mut Vec<TypeCount>, event_type: &str, Ghost(types): Ghost<Seq<Seq<char>>>)
    requires
        tallies(count_views(old(counts)@), types),
        types.len() < usize::MAX,
    ensures
        tallies(count_views(final(counts)@), types.push(event_type@)),
{
    let ghost before = count_views(counts@);
    let ghost after = types.push(event_type@);
    proof {
        assert(after.drop_last() =~= types);
        assert forall|t: Seq<char>| #[trigger] occurrences(after, t) == occurrences(types, t) + (
        if t == event_type@ {
            1nat
        } else {
            0nat
        }) by {}
    }
    let total = counts.len();
    let mut i: usize = 0;
    while i < total
        invariant
            i <= total,
            total == counts@.len(),
            counts@ == old(counts)@,
            before == count_views(counts@),
            forall|k: int| 0 <= k < i ==> (#[trigger] before[k]).0 != event_type@,
        ensures
            i <= total,
            forall|k: int| 0 <= k < i ==> (#[trigger] before[k]).0 != event_type@,
            i < total ==> before[i as int].0 == event_type@,
        decreases total - i,
    {
        assert(before[i as int].0 == counts@[i as int].event_type@);
        if same_text(counts[i].event_type.as_str(), event_type) {
            break;
        }
        i += 1;
    }
    if i < total {
        let count = counts[i].count;
        proof {
            lemma_occurrences_bound(types, event_type@);
            assert(before[i as int].1 == count);
        }
        counts[i].count = count + 1;
        proof {
            let now = count_views(counts@);
            assert(now =~= before.update(i as int, (event_type@, (count + 1) as nat)));
            assert forall|k: int| 0 <= k < after.len() implies named(now, #[trigger] after[k]) by {
                if k < types.len() {
                    assert(after[k] == types[k]);
                    let j = choose|j: int| 0 <= j < before.len() && (#[trigger] before[j]).0 == types[k];
                    assert(now[j].0 == after[k]);
                } else {
                    assert(now[i as int].0 == after[k]);
                }
            }
        }
    } else {
        counts.push(TypeCount { event_type: event_type.to_owned(), count: 1 });
        proof {
            let now = count_views(counts@);
            assert(now =~= before.push((event_type@, 1)));
            lemma_occurs(types, event_type@);
            if types.contains(event_type@) {
                let k = choose|k: int| 0 <= k < types.len() && types[k] == event_type@;
                let j = choose|j: int| 0 <= j < before.len() && (#[trigger] before[j]).0 == types[k];
                assert(before[j].0 == event_type@);
            }
            assert(occurrences(types, event_type@) == 0);
            assert forall|k: int| 0 <= k < after.len() implies named(now, #[trigger] after[k]) by {
                if k < types.len() {
                    assert(after[k] == types[k]);
                    let j = choose|j: int| 0 <= j < before.len() && (#[trigger] before[j]).0 == types[k];
                    assert(now[j].0 == after[k]);
                } else {
                    assert(now[before.len() as int].0 == after[k]);
                }
            }
        }
    }
}

/// Moving the first of the counts that follow into its place among those before it keeps a tally.
proof fn lemma_move(
    front: Seq<(Seq<char>, nat)>,
    item: (Seq<char>, nat),
    rest: Seq<(Seq<char>, nat)>,
    at: int,
    types: Seq<Seq<char>>,
)
    requires
        0 <= at <= front.len(),
        tallies(front + (seq![item] + rest), types),
    ensures
        tallies(front.insert(at, item) + rest, types),
{
    let a = front + (seq![item] + rest);
    let b = front.insert(at, item) + rest;
    let from = |i: int|
        if i < at {
            i
        } else if i == at {
            front.len() as int
        } else if i <= front.len() {
            i - 1
        } else {
            i
        };
    let to = |i: int|
        if i < at {
            i
        } else if i < front.len() {
            i + 1
        } else if i == front.len() {
            at
        } else {
            i
        };
    assert(a.len() == b.len());
    assert forall|i: int| 0 <= i < b.len() implies #[trigger] b[i] == a[from(i)] by {}
    assert forall|i: int| 0 <= i < a.len() implies #[trigger] a[i] == b[to(i)] by {}
    assert forall|i: int| 0 <= i < b.len() implies (#[trigger] b[i]).1 == occurrences(
        types,
        b[i].0,
    ) && b[i].1 > 0 by {
        assert(b[i] == a[from(i)]);
    }
    assert forall|i: int, j: int| 0 <= i < j < b.len() implies (#[trigger] b[i]).0 != (
    #[trigger] b[j]).0 by {
        assert(b[i] == a[from(i)]);
        assert(b[j] == a[from(j)]);
        assert(from(i) != from(j));
    }
    assert forall|k: int| 0 <= k < types.len() implies named(b, #[trigger] types[k]) by {
        let i = choose|i: int| 0 <= i < a.len() && (#[trigger] a[i]).0 == types[k];
        assert(b[to(i)].0 == types[k]);
    }
}

/// Puts a count behind all that are at least as large.
fn insert_count(counts: &mut Vec<TypeCount>, item: TypeCount) -> (at: usize)
    requires
        descending(count_views(old(counts)@)),
        old(counts)@.len() < usize::MAX,
    ensures
        at <= old(counts)@.len(),
        count_views(final(counts)@) == count_views(old(counts)@).insert(at as int, item@),
        descending(count_views(final(counts)@)),
{
    let ghost before = count_views(counts@);
    let total = counts.len();
    let mut at: usize = 0;
    while at < total && counts[at].count >= item.count
        invariant
            at <= total,
            total == counts@.len(),
            counts@ == old(counts)@,
            before == count_views(counts@),
            forall|k: int| 0 <= k < at ==> (#[trigger] before[k]).1 >= item@.1,
        decreases total - at,
    {
        assert(before[at as int].1 == counts@[at as int].count);
        at += 1;
    }
    proof {
        if at < total {
            assert(before[at as int].1 == counts@[at as int].count);
        }
    }
    counts.insert(at, item);
    proof {
        assert(count_views(counts@) =~= before.insert(at as int, item@));
    }
    at
}

/// How often each event type occurs, the most frequent first. Which of two equally frequent types
/// comes first is not said.
pub fn count_event_types(entries: &Vec<LogEntry>) -> (r: Vec<TypeCount>)
    ensures
        tallies(count_views(r@), types_of(logger::entry_views(entries@))),
        descending(count_views(r@)),
{
    let ghost types = types_of(logger::entry_views(entries@));
    let mut counts: Vec<TypeCount> = Vec::new();
    let total = entries.len();
    let mut i: usize = 0;
    proof {
        assert(types.take(0) =~= Seq::<Seq<char>>::empty());
    }
    while i < total
        invariant
            i <= total,
            total == entries@.len(),
            types == types_of(logger::entry_views(entries@)),
            tallies(count_views(counts@), types.take(i as int)),
        decreases total - i,
    {
        count_type(&mut counts, entries[i].event_type.as_str(), Ghost(types.take(i as int)));
        proof {
            assert(types.take(i as int).push(entries@[i as int].event_type@) =~= types.take(
                i as int + 1,
            ));
        }
        i += 1;
    }
    let mut sorted: Vec<TypeCount> = Vec::new();
    proof {
        assert(types.take(total as int) =~= types);
        assert(count_views(sorted@) + count_views(counts@) =~= count_views(counts@));
    }
    let known = counts.len();
    while counts.len() > 0
        invariant
            descending(count_views(sorted@)),
            tallies(count_views(sorted@) + count_views(counts@), types),
            sorted@.len() + counts@.len() == known,
        decreases counts@.len(),
    {
        let ghost front = count_views(sorted@);
        let ghost left = count_views(counts@);
        let item = counts.remove(0);
        let ghost rest = count_views(counts@);
        let ghost moved = item@;
        proof {
            assert(left =~= seq![moved] + rest);
        }
        let at = insert_count(&mut sorted, item);
        proof {
            lemma_move(front, moved, rest, at as int, types);
        }
    }
    proof {
        assert(count_views(sorted@) + count_views(counts@) =~= count_views(sorted@));
    }
    sorted
}

/// The entries that a summary counts.
pub const STATUS_ENTRIES: usize = 100;

/// The entries that a summary shows.
pub const STATUS_LINES: usize = 5;

/// A summary of entries: the last one's time and session, how often each type occurs, and where
/// the most recent ones begin.
#[derive(Debug)]
pub struct Status {
    pub last_event: String,
    pub session: String,
    pub counts: Vec<TypeCount>,
    pub recent_from: usize,
}

/// The summary of entries, where there are any.
pub fn summarize(entries: &Vec<LogEntry>) -> (r: Option<Status>)
    ensures
        match r {
            Some(status) => {
                &&& entries@.len() > 0
                &&& status.last_event@ == entries@.last()@.timestamp
                &&& status.session@ == entries@.last()@.session_id
                &&& tallies(
                    count_views(status.counts@),
                    types_of(logger::entry_views(entries@)),
                )
                &&& descending(count_views(status.counts@))
                &&& status.recent_from == tail_start(entries@.len() as usize, STATUS_LINES)
            },
            None => entries@.len() == 0,
        },
{
    let total = entries.len();
    if total == 0 {
        return None;
    }
    let last = &entries[total - 1];
    Some(
        Status {
            last_event: last.timestamp.as_str().to_owned(),
            session: last.session_id.as_str().to_owned(),
            counts: count_event_types(entries),
            recent_from: last_from(total, STATUS_LINES),
        },
    )
}

// ---------------------------------------------------------------------------
// Laws
// ---------------------------------------------------------------------------

/// Which event types stand out how: by their weight and by their colour. A type that is not among
/// these looks as the terminal has it.
pub proof fn law_what_stands_out(t: Seq<char>)
    ensures
        style_of(t).bold <==> t == "SessionStart"@ || t == "SessionEnd"@ || t
            == "PermissionRequest"@ || t == "TaskCompleted"@ || t == "conversation_starts"@,
        style_of(t).dimmed <==> t == "InstructionsLoaded"@ || t == "PreCompact"@ || t
            == "sse_event"@,
        style_of(t).color == Some(TermColor::Green) <==> t == "SessionStart"@ || t
            == "UserPromptSubmit"@ || t == "TaskCompleted"@ || t == "conversation_starts"@,
        style_of(t).color == Some(TermColor::Red) <==> t == "SessionEnd"@ || t == "Stop"@ || t
            == "PostToolUseFailure"@,
        style_of(t).color == Some(TermColor::Cyan) <==> t == "PreToolUse"@ || t == "WorktreeCreate"@
            || t == "WorktreeRemove"@ || t == "api_request"@ || t == "tool_decision"@,
        style_of(t).color == Some(TermColor::Blue) <==> t == "PostToolUse"@ || t == "tool_result"@,
        style_of(t).color == Some(TermColor::Yellow) <==> t == "PermissionRequest"@ || t
            == "Notification"@ || t == "TeammateIdle"@ || t == "ConfigChange"@,
        style_of(t).color == Some(TermColor::Magenta) <==> t == "SubagentStart"@ || t
            == "SubagentStop"@,
        style_of(t).color == Some(TermColor::White) <==> t == "InstructionsLoaded"@ || t
            == "PreCompact"@ || t == "sse_event"@,
{
    events::lemma_type_names();
}

/// Every event of the hooks stands out in some colour, whatever it says.
pub proof fn law_every_event_has_a_colour(event: HookEvent)
    ensures
        style_of(events::event_name(event)).color is Some,
{
}

/// The time of day is the eight characters behind the date and its separator; a timestamp that is
/// too short for that is shown whole.
pub proof fn law_time_of_day_is_cut_out(timestamp: Seq<char>)
    requires
        is_ascii_chars(timestamp),
    ensures
        timestamp.len() >= 19 ==> time_of_day(timestamp) == timestamp.subrange(11, 19),
        timestamp.len() < 19 ==> time_of_day(timestamp) == timestamp,
        time_is_apart(timestamp),
{
    is_ascii_chars_encode_utf8(timestamp);
    if timestamp.len() >= 19 {
        let bytes = encode_utf8(timestamp);
        let day = timestamp.subrange(11, 19);
        assert(is_ascii_chars(day));
        is_ascii_chars_encode_utf8(day);
        assert forall|i: int| 0 <= i < 8 implies encode_utf8(day)[i] == bytes[11 + i] by {
            assert(day[i] == timestamp[11 + i]);
        }
        assert(encode_utf8(day) =~= bytes.subrange(11, 19));
        encode_utf8_decode_utf8(day);
        encode_utf8_valid_utf8(timestamp);
        text::lemma_start_is_boundary(timestamp, 11);
        text::lemma_start_is_boundary(timestamp, 19);
        assert(is_ascii_chars(timestamp.take(11)));
        assert(is_ascii_chars(timestamp.take(19)));
        is_ascii_chars_encode_utf8(timestamp.take(11));
        is_ascii_chars_encode_utf8(timestamp.take(19));
    }
}

/// Without a filter every entry is shown. With one, those whose type holds it somewhere; the case
/// of neither matters, and a filter that is the type itself always shows it.
pub proof fn law_filter_looks_inside_the_type(t: Seq<char>, u: Seq<char>, part: Seq<char>, at: int)
    ensures
        shown(t, None),
        shown(t, Some(t)),
        0 <= at && at + text::lowercase(part).len() <= text::lowercase(t).len() && text::lowercase(
            t,
        ).subrange(at, at + text::lowercase(part).len()) == text::lowercase(part) ==> shown(
            t,
            Some(part),
        ),
        shown(t, Some(part)) ==> text::lowercase(part).len() <= text::lowercase(t).len(),
        text::lowercase(t) == text::lowercase(u) ==> shown(t, Some(part)) == shown(u, Some(part)),
{
    let whole = text::lowercase(t);
    assert(whole.subrange(0, whole.len() as int) =~= whole);
    assert(text::occurs_at(whole, whole, 0));
    if 0 <= at && at + text::lowercase(part).len() <= whole.len() && whole.subrange(
        at,
        at + text::lowercase(part).len(),
    ) == text::lowercase(part) {
        assert(text::occurs_at(whole, text::lowercase(part), at));
    }
}

/// The characters of a line, one piece after the other.
pub open spec fn line_text(pieces: Seq<(Seq<char>, TermStyle)>) -> Seq<char>
    decreases pieces.len(),
{
    if pieces.len() == 0 {
        Seq::empty()
    } else {
        line_text(pieces.drop_last()) + pieces.last().0
    }
}

proof fn lemma_line_text_push(pieces: Seq<(Seq<char>, TermStyle)>, piece: (Seq<char>, TermStyle))
    ensures
        line_text(pieces.push(piece)) == line_text(pieces) + piece.0,
{
    assert(pieces.push(piece).drop_last() =~= pieces);
}

/// A line reads: the time of day, the mark of the agent, the type, set flush right in a column of
/// 22 characters, the tool in brackets where there is one, and the summary, each apart from the
/// last by one blank.
pub proof fn law_line_reads(entry: logger::EntryView)
    ensures
        ({
            let mark = if entry.source == "cx"@ {
                "[CX]"@
            } else {
                "[CC]"@
            };
            let head = time_of_day(entry.timestamp) + " "@ + mark + " "@ + text::padded_left(
                entry.event_type,
                22,
            );
            let tool = match entry.tool_name {
                Some(name) => " ["@ + name + "]"@,
                None => Seq::<char>::empty(),
            };
            line_text(line_of(entry)) == head + tool + " "@ + entry.summary
        }),
{
    let line = line_of(entry);
    let a = Seq::<(Seq<char>, TermStyle)>::empty();
    let b = a.push(line[0]);
    let c = b.push(line[1]);
    let d = c.push(line[2]);
    let e = d.push(line[3]);
    let f = e.push(line[4]);
    lemma_line_text_push(a, line[0]);
    lemma_line_text_push(b, line[1]);
    lemma_line_text_push(c, line[2]);
    lemma_line_text_push(d, line[3]);
    lemma_line_text_push(e, line[4]);
    assert(a.len() == 0);
    let head = line_text(f);
    assert(head =~= line[0].0 + line[1].0 + line[2].0 + line[3].0 + line[4].0);
    if entry.tool_name is Some {
        let g = f.push(line[5]);
        let h = g.push(line[6]);
        let i = h.push(line[7]);
        let j = i.push(line[8]);
        lemma_line_text_push(f, line[5]);
        lemma_line_text_push(g, line[6]);
        lemma_line_text_push(h, line[7]);
        lemma_line_text_push(i, line[8]);
        lemma_line_text_push(j, line[9]);
        assert(line =~= j.push(line[9]));
        assert(line_text(line) =~= head + (" ["@ + entry.tool_name->0 + "]"@) + " "@
            + entry.summary);
    } else {
        let g = f.push(line[5]);
        lemma_line_text_push(f, line[5]);
        lemma_line_text_push(g, line[6]);
        assert(line =~= g.push(line[6]));
        assert(line_text(line) =~= head + Seq::<char>::empty() + " "@ + entry.summary);
    }
}

/// How the pieces of a line look: the time is faint, the agents have a colour each, the type has
/// its own style, a tool is yellow, the summary white, and what stands between is plain.
pub proof fn law_line_looks(entry: logger::EntryView)
    ensures
        ({
            let line = line_of(entry);
            let last = line.len() - 1;
            &&& line.len() == if entry.tool_name is Some {
                10int
            } else {
                7int
            }
            &&& line[0].1 == (TermStyle { color: None, bold: false, dimmed: true })
            &&& line[2].1.color == if entry.source == "cx"@ {
                Some(TermColor::Magenta)
            } else {
                Some(TermColor::Cyan)
            }
            &&& line[4].1 == style_of(entry.event_type)
            &&& entry.tool_name is Some ==> line[6] == (
                entry.tool_name->0,
                TermStyle { color: Some(TermColor::Yellow), bold: false, dimmed: false },
            )
            &&& line[last] == (
                entry.summary,
                TermStyle { color: Some(TermColor::White), bold: false, dimmed: false },
            )
            &&& forall|i: int|
                0 <= i < line.len() && i != 0 && i != 2 && i != 4 && i != 6 && i != last
                    ==> (#[trigger] line[i]).1 == (TermStyle {
                    color: None,
                    bold: false,
                    dimmed: false,
                })
        }),
{
}

/// The last things are as many as are asked for, or all where there are not so many.
pub proof fn law_last_ones(len: usize, count: usize)
    ensures
        tail_start(len, count) <= len,
        len >= count ==> len - tail_start(len, count) == count,
        len <= count ==> tail_start(len, count) == 0,
        len - tail_start(len, FIRST_LINES) <= 10,
        len - tail_start(len, STATUS_LINES) <= 5,
        len >= 10 ==> len - tail_start(len, FIRST_LINES) == 10,
        len >= 5 ==> len - tail_start(len, STATUS_LINES) == 5,
        STATUS_ENTRIES == 100,
{
}

/// A tally counts each type as often as it stands in the log.
pub proof fn law_tally_counts_every_entry(
    counts: Seq<(Seq<char>, nat)>,
    types: Seq<Seq<char>>,
    t: Seq<char>,
)
    requires
        tallies(counts, types),
    ensures
        occurrences(types, t) == types.to_multiset().count(t),
        types.contains(t) <==> exists|i: int| 0 <= i < counts.len() && (#[trigger] counts[i]).0 == t,
        forall|i: int|
            0 <= i < counts.len() ==> (#[trigger] counts[i]).1 == types.to_multiset().count(
                counts[i].0,
            ),
        forall|i: int, j: int|
            0 <= i < counts.len() && 0 <= j < counts.len() && (#[trigger] counts[i]).0
                == (#[trigger] counts[j]).0 ==> i == j,
{
    lemma_occurrences_count(types, t);
    lemma_occurs(types, t);
    assert forall|i: int| 0 <= i < counts.len() implies (#[trigger] counts[i]).1
        == types.to_multiset().count(counts[i].0) by {
        lemma_occurrences_count(types, counts[i].0);
    }
    if types.contains(t) {
        let k = choose|k: int| 0 <= k < types.len() && types[k] == t;
        assert(named(counts, types[k]));
    }
}

proof fn lemma_occurrences_count(types: Seq<Seq<char>>, t: Seq<char>)
    ensures
        occurrences(types, t) == types.to_multiset().count(t),
    decreases types.len(),
{
    broadcast use vstd::seq_lib::group_to_multiset_ensures;

    if types.len() > 0 {
        lemma_occurrences_count(types.drop_last(), t);
        assert(types =~= types.drop_last().push(types.last()));
    }
}

/// The type that comes first is as frequent as any, and no type comes before a more frequent one.
pub proof fn law_most_frequent_comes_first(counts: Seq<(Seq<char>, nat)>, i: int, j: int)
    requires
        0 <= i < counts.len(),
        0 <= j < counts.len(),
    ensures
        descending(counts) ==> counts[0].1 >= counts[j].1,
        descending(counts) && counts[i].1 < counts[j].1 ==> j < i,
        i < j && counts[i].1 < counts[j].1 ==> !descending(counts),
{
}

/// The time of day can be cut out of a timestamp unless one of its ends falls inside a character; a
/// timestamp of fewer than 19 bytes is not cut.
pub proof fn law_when_the_time_can_be_cut_out(timestamp: Seq<char>)
    ensures
        text::byte_len(timestamp) < 19 ==> time_is_apart(timestamp) && time_of_day(timestamp)
            == timestamp,
        text::byte_len(timestamp) >= 19 ==> (time_is_apart(timestamp) <==> is_char_boundary(
            encode_utf8(timestamp),
            11,
        ) && is_char_boundary(encode_utf8(timestamp), 19)),
        text::byte_len(timestamp) >= 19 && time_is_apart(timestamp) ==> encode_utf8(
            time_of_day(timestamp),
        ) == encode_utf8(timestamp).subrange(11, 19),
{
    let bytes = encode_utf8(timestamp);
    encode_utf8_valid_utf8(timestamp);
    if text::byte_len(timestamp) >= 19 && time_is_apart(timestamp) {
        let front = bytes.subrange(0, 19);
        valid_utf8_split(bytes, 19);
        is_char_boundary_iff_not_is_continuation_byte(bytes, 11);
        is_char_boundary_iff_not_is_continuation_byte(front, 11);
        valid_utf8_split(front, 11);
        assert(front.subrange(11, 19) =~= bytes.subrange(11, 19));
        decode_utf8_encode_utf8(bytes.subrange(11, 19));
    }
}

} // verus!
