//! The event log: what an entry says, how much of the file is kept and which lines are read.

use vstd::prelude::*;
use vstd::utf8::*;

use crate::events;
use crate::events::HookEvent;
use crate::json;
use crate::json::{put, Json};
use crate::text;
use crate::text::{concat2, owned};

verus! {

/// One line of the log.
#[derive(Debug)]
pub struct LogEntry {
    pub timestamp: String,
    pub source: String,
    pub event_type: String,
    pub session_id: String,
    pub tool_name: Option<String>,
    pub summary: String,
    pub raw: Json,
}

/// What a log entry says.
#[verifier::ext_equal]
pub struct EntryView {
    pub timestamp: Seq<char>,
    pub source: Seq<char>,
    pub event_type: Seq<char>,
    pub session_id: Seq<char>,
    pub tool_name: Option<Seq<char>>,
    pub summary: Seq<char>,
    pub raw: json::JsonView,
}

impl View for LogEntry {
    type V = EntryView;

    open spec fn view(&self) -> EntryView {
        EntryView {
            timestamp: self.timestamp@,
            source: self.source@,
            event_type: self.event_type@,
            session_id: self.session_id@,
            tool_name: text::string_view(self.tool_name),
            summary: self.summary@,
            raw: self.raw@,
        }
    }
}

/// The views of a sequence of entries.
pub open spec fn entry_views(entries: Seq<LogEntry>) -> Seq<EntryView> {
    entries.map_values(|e: LogEntry| e@)
}

/// The source of an entry that names none.
pub fn default_source() -> (r: String)
    ensures
        r@ == "cc"@,
{
    "cc".to_owned()
}

// ---------------------------------------------------------------------------
// Entries
// ---------------------------------------------------------------------------

/// What the log says of a hook event.
pub open spec fn hook_entry_view(
    event: HookEvent,
    raw: json::JsonView,
    timestamp: Seq<char>,
) -> EntryView {
    EntryView {
        timestamp,
        source: "cc"@,
        event_type: events::event_name(event),
        session_id: events::event_session(event),
        tool_name: events::event_tool(event),
        summary: events::event_summary(event),
        raw,
    }
}

/// The entry of a hook event.
pub fn hook_entry(event: &HookEvent, raw: &Json, timestamp: &str) -> (r: LogEntry)
    ensures
        r@ == hook_entry_view(*event, raw@, timestamp@),
{
    LogEntry {
        timestamp: timestamp.to_owned(),
        source: "cc".to_owned(),
        event_type: event.event_type().to_owned(),
        session_id: event.session_id().to_owned(),
        tool_name: owned(event.tool_name()),
        summary: event.summary(),
        raw: raw.copy(),
    }
}

/// What the log says of a Codex event.
pub open spec fn codex_entry_view(
    event_type: Seq<char>,
    session_id: Seq<char>,
    tool_name: Option<Seq<char>>,
    summary: Seq<char>,
    raw: json::JsonView,
    timestamp: Seq<char>,
) -> EntryView {
    EntryView { timestamp, source: "cx"@, event_type, session_id, tool_name, summary, raw }
}

/// The entry of a Codex event.
pub fn codex_entry(
    event_type: &str,
    session_id: &str,
    tool_name: Option<&str>,
    summary: &str,
    raw: Json,
    timestamp: &str,
) -> (r: LogEntry)
    ensures
        r@ == codex_entry_view(
            event_type@,
            session_id@,
            text::text_view(tool_name),
            summary@,
            raw@,
            timestamp@,
        ),
{
    LogEntry {
        timestamp: timestamp.to_owned(),
        source: "cx".to_owned(),
        event_type: event_type.to_owned(),
        session_id: session_id.to_owned(),
        tool_name: owned(tool_name),
        summary: summary.to_owned(),
        raw,
    }
}

/// What the log says of an event that is none of the known ones.
pub open spec fn raw_entry_doc(raw: json::JsonView, timestamp: Seq<char>) -> json::JsonView {
    let name = json::member_string(raw, "hook_event_name"@);
    json::JsonView::Object(
        Map::<Seq<char>, json::JsonView>::empty().insert(
            "timestamp"@,
            json::JsonView::Str(timestamp),
        ).insert("source"@, json::JsonView::Str("cc"@)).insert(
            "event_type"@,
            json::JsonView::Str(text::text_or(name, "Unknown"@)),
        ).insert(
            "session_id"@,
            json::JsonView::Str(
                text::text_or(json::member_string(raw, "session_id"@), "unknown"@),
            ),
        ).insert(
            "summary"@,
            json::JsonView::Str("Unknown event: "@ + text::text_or(name, "?"@)),
        ).insert("raw"@, raw),
    )
}

/// The log line, with its line feed, of an event that is none of the known ones.
pub fn raw_entry_line(raw: &Json, timestamp: &str) -> (r: String)
    ensures
        r@ == json::compact_text(raw_entry_doc(raw@, timestamp@)) + "\n"@,
{
    let name = raw.get_str("hook_event_name");
    let event_type = match name {
        Some(n) => n,
        None => "Unknown",
    };
    let label = match name {
        Some(n) => n,
        None => "?",
    };
    let session_id = match raw.get_str("session_id") {
        Some(s) => s,
        None => "unknown",
    };
    let mut members: Vec<(String, Json)> = Vec::new();
    put(&mut members, "timestamp", Json::string(timestamp));
    put(&mut members, "source", Json::string("cc"));
    put(&mut members, "event_type", Json::string(event_type));
    put(&mut members, "session_id", Json::string(session_id));
    put(&mut members, "summary", Json::Str(concat2("Unknown event: ", label)));
    put(&mut members, "raw", raw.copy());
    concat2(Json::Object(members).render().as_str(), "\n")
}

// ---------------------------------------------------------------------------
// Lines
// ---------------------------------------------------------------------------

/// The byte that ends a line.
pub const LINE_FEED: u8 = 10;

/// The byte that may stand before a line feed.
pub const CARRIAGE_RETURN: u8 = 13;

/// The position of the first line feed from `from` on, or the length of the bytes.
pub open spec fn line_end(bytes: Seq<u8>, from: int) -> int
    decreases bytes.len() - from,
{
    if from < 0 || from >= bytes.len() || bytes[from] == LINE_FEED {
        from
    } else {
        line_end(bytes, from + 1)
    }
}

/// A line without the carriage return that stands before its line feed.
pub open spec fn without_return(line: Seq<u8>) -> Seq<u8> {
    if line.len() > 0 && line.last() == CARRIAGE_RETURN {
        line.drop_last()
    } else {
        line
    }
}

/// The lines from position `from` on. A line ends at a line feed, or at a carriage return and a
/// line feed; the last one may end at the end of the bytes.
pub open spec fn lines_from(bytes: Seq<u8>, from: int) -> Seq<Seq<u8>>
    decreases bytes.len() - from,
{
    if from < 0 || from >= bytes.len() {
        seq![]
    } else {
        let end = line_end(bytes, from);
        if end < from {
            seq![]
        } else if end >= bytes.len() {
            seq![bytes.subrange(from, bytes.len() as int)]
        } else {
            seq![without_return(bytes.subrange(from, end))] + lines_from(bytes, end + 1)
        }
    }
}

/// The lines of a log.
pub open spec fn lines_of(bytes: Seq<u8>) -> Seq<Seq<u8>> {
    lines_from(bytes, 0)
}

proof fn lemma_line_end(bytes: Seq<u8>, from: int)
    requires
        0 <= from <= bytes.len(),
    ensures
        from <= line_end(bytes, from) <= bytes.len(),
        line_end(bytes, from) < bytes.len() ==> bytes[line_end(bytes, from)] == LINE_FEED,
        forall|i: int| from <= i < line_end(bytes, from) ==> bytes[i] != LINE_FEED,
    decreases bytes.len() - from,
{
    if from < bytes.len() && bytes[from] != LINE_FEED {
        lemma_line_end(bytes, from + 1);
    }
}

/// The first line feed from a position on.
fn find_line_end(bytes: &[u8], from: usize) -> (r: usize)
    requires
        from <= bytes@.len(),
    ensures
        r == line_end(bytes@, from as int),
        from <= r <= bytes@.len(),
{
    let mut end = from;
    while end < bytes.len() && bytes[end] != LINE_FEED
        invariant
            from <= end <= bytes@.len(),
            line_end(bytes@, from as int) == line_end(bytes@, end as int),
        decreases bytes@.len() - end,
    {
        end += 1;
    }
    end
}

/// The bytes `from..to`.
fn copy_bytes(bytes: &[u8], from: usize, to: usize) -> (r: Vec<u8>)
    requires
        from <= to <= bytes@.len(),
    ensures
        r@ == bytes@.subrange(from as int, to as int),
{
    let mut out: Vec<u8> = Vec::new();
    let mut i = from;
    while i < to
        invariant
            from <= i <= to <= bytes@.len(),
            out@ == bytes@.subrange(from as int, i as int),
        decreases to - i,
    {
        out.push(bytes[i]);
        i += 1;
    }
    out
}

/// The number of lines.
pub fn count_lines(bytes: &[u8]) -> (r: usize)
    ensures
        r == lines_of(bytes@).len(),
{
    let mut count: usize = 0;
    let mut from: usize = 0;
    while from < bytes.len()
        invariant
            from <= bytes@.len(),
            count <= from,
            count + lines_from(bytes@, from as int).len() == lines_of(bytes@).len(),
        decreases bytes@.len() - from,
    {
        let end = find_line_end(bytes, from);
        count += 1;
        from = if end < bytes.len() {
            end + 1
        } else {
            end
        };
    }
    count
}

// ---------------------------------------------------------------------------
// Rotation
// ---------------------------------------------------------------------------

/// The size in bytes above which the log is cut.
pub const ROTATE_BYTES: u64 = 52_428_800;

/// The size in bytes of the tail that is kept.
pub const KEEP_BYTES: u64 = 5_242_880;

/// Where the kept tail of a log of `len` bytes begins; nothing where the log is left alone.
pub open spec fn rotation_start(len: u64) -> Option<u64> {
    if len <= ROTATE_BYTES {
        None
    } else {
        Some((len - KEEP_BYTES) as u64)
    }
}

/// Where the kept tail of a log of `len` bytes begins; nothing where the log is left alone.
pub fn rotation_offset(len: u64) -> (r: Option<u64>)
    ensures
        r == rotation_start(len),
{
    if len <= ROTATE_BYTES {
        None
    } else {
        Some(len - KEEP_BYTES)
    }
}

/// What follows the first line feed; all of it where there is none.
pub open spec fn after_first_line(tail: Seq<u8>) -> Seq<u8> {
    let end = line_end(tail, 0);
    if end < tail.len() {
        tail.subrange(end + 1, tail.len() as int)
    } else {
        tail
    }
}

/// The kept part of a log's tail: without its first line, which may be a part of one.
pub fn rotated(tail: &[u8]) -> (r: Vec<u8>)
    ensures
        r@ == after_first_line(tail@),
{
    let end = find_line_end(tail, 0);
    if end < tail.len() {
        copy_bytes(tail, end + 1, tail.len())
    } else {
        proof {
            assert(tail@.subrange(0, tail@.len() as int) =~= tail@);
        }
        copy_bytes(tail, 0, tail.len())
    }
}

/// A rotated log ends as before, and what is dropped from its tail is one line with its line
/// feed.
pub proof fn law_rotation_drops_one_line(head: Seq<u8>, rest: Seq<u8>)
    requires
        forall|i: int| 0 <= i < head.len() ==> head[i] != LINE_FEED,
    ensures
        after_first_line(head + seq![LINE_FEED] + rest) == rest,
{
    let tail = head + seq![LINE_FEED] + rest;
    lemma_line_end(tail, 0);
    assert(tail[head.len() as int] == LINE_FEED);
    let end = line_end(tail, 0);
    if end < head.len() {
        assert(tail[end] == head[end]);
    }
    assert(tail.subrange(head.len() as int + 1, tail.len() as int) =~= rest);
}

// ---------------------------------------------------------------------------
// Reading back
// ---------------------------------------------------------------------------

/// The number of bytes that are read at first for one wanted line.
pub const LINE_BYTES: u64 = 600;

/// How many bytes of a log of `len` bytes are read at first for its last `count` lines.
pub open spec fn first_size(count: usize, len: u64) -> int {
    if count * LINE_BYTES <= len {
        (count * LINE_BYTES) as int
    } else {
        len as int
    }
}

/// The part of a log of `len` bytes that is read at first for its last `count` lines: how many
/// bytes, and from which offset on.
pub fn read_window(count: usize, len: u64) -> (r: (u64, u64))
    ensures
        r.0 == first_size(count, len),
        r.1 == len - r.0,
{
    let wanted = (count as u128) * (LINE_BYTES as u128);
    let size = if wanted <= len as u128 {
        wanted as u64
    } else {
        len
    };
    (size, len - size)
}

/// The size after `size`: twice as much, but no more than there is.
pub open spec fn wider(size: int, len: int) -> int {
    let more = if size == 0 {
        LINE_BYTES as int
    } else {
        2 * size
    };
    if more <= len {
        more
    } else {
        len
    }
}

/// What was read is enough: it reaches back to the start, or holds more lines than the `count`
/// wanted ones, of which the first may be a part of one.
pub open spec fn is_enough(count: usize, len: u64, size: u64, lines: usize) -> bool {
    size == len || lines > count
}

/// How many bytes are to be read instead, where the last `size` bytes of a log of `len` bytes
/// hold `lines` lines: nothing else where they reach back to the start, or where there are more
/// lines than the `count` wanted ones, of which the first may be a part of one.
pub fn next_window(count: usize, len: u64, size: u64, lines: usize) -> (r: Option<u64>)
    requires
        size <= len,
    ensures
        r is None <==> is_enough(count, len, size, lines),
        r is Some ==> size < r->0 <= len && r->0 == wider(size as int, len as int),
{
    if size == len || lines > count {
        None
    } else if size == 0 {
        Some(if LINE_BYTES <= len { LINE_BYTES } else { len })
    } else if size <= len / 2 {
        Some(2 * size)
    } else {
        Some(len)
    }
}

/// The first of `lines` lines to be read back: the last `count` ones are, and where the bytes
/// start inside the file their first line, which may be a part of one, is not.
pub open spec fn first_line(lines: nat, count: nat, offset: int) -> int {
    if lines > count {
        lines - count
    } else if offset > 0 && lines > 0 {
        1
    } else {
        0
    }
}

/// The lines that are read back.
pub open spec fn recent(tail: Seq<u8>, count: nat, offset: int) -> Seq<Seq<u8>> {
    let lines = lines_of(tail);
    lines.skip(first_line(lines.len(), count, offset))
}

/// Calls `String::from_utf8`, which gives the text that bytes spell in UTF-8, and an error
/// where they spell none.
#[verifier::external_body]
fn spell(bytes: Vec<u8>) -> (r: Option<String>)
    ensures
        match r {
            Some(text) => encode_utf8(text@) == bytes@,
            None => !valid_utf8(bytes@),
        },
{
    String::from_utf8(bytes).ok()
}

/// The bytes of texts.
pub open spec fn spelled(texts: Seq<String>) -> Seq<Seq<u8>> {
    texts.map_values(|t: String| encode_utf8(t@))
}

/// The last `count` lines of what was read from byte `offset` of the log on; nothing where one
/// of them is no text.
pub fn recent_lines(tail: &[u8], count: usize, offset: u64) -> (r: Option<Vec<String>>)
    ensures
        match r {
            Some(lines) => spelled(lines@) == recent(tail@, count as nat, offset as int),
            None => exists|i: int|
                0 <= i < recent(tail@, count as nat, offset as int).len() && !valid_utf8(
                    #[trigger] recent(tail@, count as nat, offset as int)[i],
                ),
        },
{
    let lines = count_lines(tail);
    let first: usize = if lines > count {
        lines - count
    } else if offset > 0 && lines > 0 {
        1
    } else {
        0
    };
    let ghost all = lines_of(tail@);
    let ghost wanted = recent(tail@, count as nat, offset as int);
    let mut out: Vec<String> = Vec::new();
    let mut from: usize = 0;
    let mut n: usize = 0;
    proof {
        assert(all.skip(0) =~= all);
    }
    while from < tail.len()
        invariant
            from <= tail@.len(),
            n <= from,
            all == lines_of(tail@),
            wanted == recent(tail@, count as nat, offset as int),
            wanted == all.skip(first as int),
            first <= all.len(),
            n <= all.len(),
            lines_from(tail@, from as int) == all.skip(n as int),
            out@.len() == (if n > first {
                n - first
            } else {
                0
            }),
            forall|j: int|
                0 <= j < out@.len() ==> encode_utf8((#[trigger] out@[j])@) == all[first + j],
        decreases tail@.len() - from,
    {
        let end = find_line_end(tail, from);
        proof {
            assert(all.skip(n as int).len() > 0);
            assert(all.skip(n as int)[0] == all[n as int]);
            assert(all.skip(n + 1) =~= all.skip(n as int).skip(1));
        }
        if n >= first {
            let stop = if end < tail.len() && end > from && tail[end - 1] == CARRIAGE_RETURN {
                end - 1
            } else {
                end
            };
            let line = copy_bytes(tail, from, stop);
            proof {
                assert(without_return(tail@.subrange(from as int, end as int)) =~= if end > from
                    && tail@[end - 1] == CARRIAGE_RETURN {
                    tail@.subrange(from as int, end - 1)
                } else {
                    tail@.subrange(from as int, end as int)
                });
                assert(line@ =~= all[n as int]);
                assert(wanted[n - first] == line@);
            }
            match spell(line) {
                Some(text) => out.push(text),
                None => {
                    return None;
                },
            }
        }
        n += 1;
        proof {
            if end < tail@.len() {
                assert(lines_from(tail@, end + 1) =~= all.skip(n as int));
            } else {
                assert(all.skip(n as int) =~= seq![]);
            }
        }
        from = if end < tail.len() {
            end + 1
        } else {
            end
        };
    }
    proof {
        assert(all.skip(n as int).len() == 0);
        assert(spelled(out@) =~= wanted);
    }
    Some(out)
}

proof fn lemma_line_end_within(bytes: Seq<u8>, at: int, from: int)
    requires
        0 <= at <= bytes.len(),
        0 <= from <= bytes.len() - at,
    ensures
        line_end(bytes.skip(at), from) + at == line_end(bytes, from + at),
    decreases bytes.len() - at - from,
{
    if from < bytes.len() - at && bytes[from + at] != LINE_FEED {
        lemma_line_end_within(bytes, at, from + 1);
    }
}

proof fn lemma_lines_within(bytes: Seq<u8>, at: int, from: int)
    requires
        0 <= at <= bytes.len(),
        0 <= from <= bytes.len() - at,
    ensures
        lines_from(bytes.skip(at), from) == lines_from(bytes, from + at),
    decreases bytes.len() - at - from,
{
    let tail = bytes.skip(at);
    if from < tail.len() {
        let end = line_end(tail, from);
        lemma_line_end(tail, from);
        lemma_line_end_within(bytes, at, from);
        assert(tail.subrange(from, end) =~= bytes.subrange(from + at, end + at));
        if end < tail.len() {
            lemma_lines_within(bytes, at, end + 1);
        }
    }
}

proof fn lemma_line_end_same(bytes: Seq<u8>, from: int, at: int)
    requires
        0 <= from <= at <= line_end(bytes, from),
        from <= bytes.len(),
    ensures
        line_end(bytes, at) == line_end(bytes, from),
    decreases at - from,
{
    if from < at {
        lemma_line_end_same(bytes, from + 1, at);
    }
}

/// The lines from a position on are, but for the first, the last ones of the lines from an
/// earlier position on.
proof fn lemma_later_lines(bytes: Seq<u8>, from: int, at: int)
    requires
        0 <= from <= at < bytes.len(),
    ensures
        ({
            let later = lines_from(bytes, at);
            let all = lines_from(bytes, from);
            &&& 0 < later.len() <= all.len()
            &&& later.skip(1) == all.skip(all.len() - later.len() + 1)
        }),
    decreases at - from,
{
    let end = line_end(bytes, from);
    let all = lines_from(bytes, from);
    let later = lines_from(bytes, at);
    lemma_line_end(bytes, from);
    lemma_line_end(bytes, at);
    if at <= end {
        lemma_line_end_same(bytes, from, at);
        if end < bytes.len() {
            assert(later.skip(1) =~= lines_from(bytes, end + 1));
            assert(all.skip(1) =~= lines_from(bytes, end + 1));
        } else {
            assert(later.skip(1) =~= all.skip(1));
        }
    } else {
        lemma_later_lines(bytes, end + 1, at);
        let rest = lines_from(bytes, end + 1);
        assert(all =~= seq![without_return(bytes.subrange(from, end))] + rest);
        assert(all.skip(all.len() - later.len() + 1) =~= rest.skip(rest.len() - later.len() + 1));
    }
}

/// The last `count` of the lines, or all of them where there are fewer.
pub open spec fn last_of(lines: Seq<Seq<u8>>, count: nat) -> Seq<Seq<u8>> {
    if lines.len() > count {
        lines.skip(lines.len() - count)
    } else {
        lines
    }
}

/// Where no wider part of the log is to be read, the lines that are read back from its last
/// `size` bytes are the last `count` lines of the log, or all of them where it has fewer.
pub proof fn law_last_lines_are_read_back(log: Seq<u8>, count: nat, size: nat)
    requires
        size <= log.len(),
        size == log.len() || lines_of(log.skip(log.len() - size)).len() > count,
    ensures
        recent(log.skip(log.len() - size), count, log.len() - size) == last_of(
            lines_of(log),
            count,
        ),
{
    let at = log.len() - size;
    let tail = log.skip(at);
    if at == 0 {
        assert(tail =~= log);
        assert(lines_of(log).skip(0) =~= lines_of(log));
    } else {
        let part = lines_of(tail);
        let all = lines_of(log);
        lemma_lines_within(log, at, 0);
        assert(part == lines_from(log, at));
        lemma_later_lines(log, 0, at);
        assert(part.skip(part.len() - count) =~= part.skip(1).skip(part.len() - count - 1));
        assert(all.skip(all.len() - count) =~= all.skip(all.len() - part.len() + 1).skip(
            part.len() - count - 1,
        ));
    }
}

// ---------------------------------------------------------------------------
// Laws
// ---------------------------------------------------------------------------

/// What the hooks say is logged as of the one agent, what the telemetry says as of the other; an
/// entry keeps what its event says, and the document that the event came in.
pub proof fn law_entry_keeps_the_event(
    event: HookEvent,
    raw: json::JsonView,
    timestamp: Seq<char>,
)
    ensures
        ({
            let entry = hook_entry_view(event, raw, timestamp);
            &&& entry.timestamp == timestamp
            &&& entry.source == "cc"@
            &&& entry.event_type == events::event_name(event)
            &&& entry.session_id == events::event_session(event)
            &&& entry.tool_name == events::event_tool(event)
            &&& entry.summary == events::event_summary(event)
            &&& entry.raw == raw
        }),
{
}

/// An event that is none of the known ones is logged under the name that it has, or as an unknown
/// one, with the session that it names and the document as it came.
pub proof fn law_unknown_event_is_logged(raw: json::JsonView, timestamp: Seq<char>)
    ensures
        ({
            let doc = raw_entry_doc(raw, timestamp);
            let name = json::member(raw, "hook_event_name"@);
            let session = json::member(raw, "session_id"@);
            &&& json::member(doc, "timestamp"@) == Some(json::JsonView::Str(timestamp))
            &&& json::member(doc, "source"@) == Some(json::JsonView::Str("cc"@))
            &&& json::member(doc, "raw"@) == Some(raw)
            &&& name matches Some(json::JsonView::Str(n)) ==> json::member(doc, "event_type"@)
                == Some(json::JsonView::Str(n)) && json::member(doc, "summary"@) == Some(
                json::JsonView::Str("Unknown event: "@ + n),
            )
            &&& !(name matches Some(json::JsonView::Str(_))) ==> json::member(doc, "event_type"@)
                == Some(json::JsonView::Str("Unknown"@)) && json::member(doc, "summary"@) == Some(
                json::JsonView::Str("Unknown event: "@ + "?"@),
            )
            &&& session matches Some(json::JsonView::Str(s)) ==> json::member(doc, "session_id"@)
                == Some(json::JsonView::Str(s))
            &&& !(session matches Some(json::JsonView::Str(_))) ==> json::member(doc, "session_id"@)
                == Some(json::JsonView::Str("unknown"@))
        }),
{
    reveal_strlit("timestamp");
    reveal_strlit("source");
    reveal_strlit("event_type");
    reveal_strlit("session_id");
    reveal_strlit("summary");
    reveal_strlit("raw");
    assert("timestamp"@.len() == 9 && "source"@.len() == 6 && "event_type"@.len() == 10
        && "session_id"@.len() == 10 && "summary"@.len() == 7 && "raw"@.len() == 3);
    assert("event_type"@[0] == 'e' && "session_id"@[0] == 's');
}

/// A log of up to 50 MiB is left alone. Of a larger one the last 5 MiB are kept, so that what is left
/// is left alone.
pub proof fn law_rotation_keeps_the_end(len: u64)
    ensures
        rotation_start(len) is None <==> len <= 50 * 1024 * 1024,
        rotation_start(len) matches Some(start) ==> len - start == 5 * 1024 * 1024,
        rotation_start(len) matches Some(start) ==> rotation_start((len - start) as u64) is None,
{
}

/// A tail without a line feed is kept whole.
pub proof fn law_unbroken_tail_is_kept(tail: Seq<u8>)
    requires
        forall|i: int| 0 <= i < tail.len() ==> #[trigger] tail[i] != 10,
    ensures
        after_first_line(tail) == tail,
{
    lemma_line_end(tail, 0);
}

/// A log is read line by line: a line ends at the first line feed, without a carriage return
/// before it, and the lines of the rest follow. What ends without a line feed is one line as it is,
/// and nothing is no line.
pub proof fn law_lines_of_a_log(line: Seq<u8>, rest: Seq<u8>)
    requires
        forall|i: int| 0 <= i < line.len() ==> #[trigger] line[i] != 10,
    ensures
        line.len() == 0 || line.last() != 13 ==> lines_of(line + seq![10u8] + rest) == seq![line]
            + lines_of(rest),
        lines_of(line + seq![13u8, 10u8] + rest) == seq![line] + lines_of(rest),
        line.len() > 0 ==> lines_of(line) == seq![line],
        lines_of(Seq::empty()).len() == 0,
{
    let n = line.len() as int;
    let plain = line + seq![10u8] + rest;
    let returned = line + seq![13u8, 10u8] + rest;
    assert(plain[n] == 10);
    assert(returned[n] == 13 && returned[n + 1] == 10);
    lemma_line_end(plain, 0);
    lemma_line_end(returned, 0);
    lemma_line_end(line, 0);
    if line_end(plain, 0) < n {
        assert(plain[line_end(plain, 0)] == line[line_end(plain, 0)]);
    }
    if line_end(returned, 0) < n {
        assert(returned[line_end(returned, 0)] == line[line_end(returned, 0)]);
    }
    assert(line_end(plain, 0) == n);
    assert(line_end(returned, 0) == n + 1);
    lemma_lines_within(plain, n + 1, 0);
    lemma_lines_within(returned, n + 2, 0);
    assert(plain.skip(n + 1) =~= rest);
    assert(returned.skip(n + 2) =~= rest);
    assert(plain.subrange(0, n) =~= line);
    assert(returned.subrange(0, n + 1) =~= line.push(13u8));
    assert(line.push(13u8).drop_last() =~= line);
    assert(line.subrange(0, n) =~= line);
}

/// The part that is read at first is the end of the log: 600 bytes for each wanted line, or all of
/// it where that is less.
pub proof fn law_first_part_that_is_read(count: usize, len: u64)
    ensures
        first_size(count, len) <= len,
        first_size(count, len) == len || first_size(count, len) == 600 * count,
        first_size(count, len) <= 600 * count,
{
}

/// Every further part is twice as large, until it is the whole log; so all of it is read at last.
pub proof fn law_wider_parts_reach_the_start(size: int, len: int)
    requires
        0 <= size < len,
    ensures
        size < wider(size, len) <= len,
        0 < size && 2 * size <= len ==> wider(size, len) == 2 * size,
        2 * size > len ==> wider(size, len) == len,
        size == 0 && len >= 600 ==> wider(size, len) == 600,
        size == 0 && len < 600 ==> wider(size, len) == len,
{
}

/// Where what was read starts inside the log and holds no more lines than are wanted, its first
/// line is left out, for it may be a part of one.
pub proof fn law_broken_line_is_left_out(tail: Seq<u8>, count: nat, offset: int, i: int)
    ensures
        ({
            let lines = lines_of(tail);
            let read = recent(tail, count, offset);
            &&& read.len() <= count
            &&& lines.len() > count ==> read.len() == count
            &&& lines.len() <= count && offset <= 0 ==> read == lines
            &&& 0 < lines.len() <= count && offset > 0 ==> read == lines.drop_first()
            &&& 0 <= i < read.len() ==> read[read.len() - 1 - i] == lines[lines.len() - 1 - i]
        }),
{
    let lines = lines_of(tail);
    assert(lines.skip(0) =~= lines);
    if lines.len() > 0 {
        assert(lines.skip(1) =~= lines.drop_first());
    }
}

/// The last lines are as many as are wanted, or all of them, and they are the end of the lines.
pub proof fn law_last_lines(lines: Seq<Seq<u8>>, count: nat, i: int)
    ensures
        lines.len() <= count ==> last_of(lines, count) == lines,
        lines.len() > count ==> last_of(lines, count).len() == count,
        0 <= i < last_of(lines, count).len() ==> last_of(lines, count)[last_of(lines, count).len()
            - 1 - i] == lines[lines.len() - 1 - i],
{
}

/// What Codex reports is logged as it is reported, as of Codex, and so is told from what the hooks
/// say.
pub proof fn law_codex_entry_is_told_apart(
    event_type: Seq<char>,
    session_id: Seq<char>,
    tool_name: Option<Seq<char>>,
    summary: Seq<char>,
    raw: json::JsonView,
    timestamp: Seq<char>,
    event: HookEvent,
)
    ensures
        ({
            let entry = codex_entry_view(
                event_type,
                session_id,
                tool_name,
                summary,
                raw,
                timestamp,
            );
            &&& entry.source == "cx"@
            &&& entry.source != hook_entry_view(event, raw, timestamp).source
            &&& entry.event_type == event_type
            &&& entry.session_id == session_id
            &&& entry.tool_name == tool_name
            &&& entry.summary == summary
            &&& entry.raw == raw
            &&& entry.timestamp == timestamp
        }),
{
    reveal_strlit("cx");
    reveal_strlit("cc");
    assert("cx"@[1] == 'x' && "cc"@[1] == 'c');
}

/// Where what was read is enough, the wanted lines are read back from it as they are read from the
/// whole log.
pub proof fn law_enough_is_read(log: Seq<u8>, count: usize, size: u64, lines: usize)
    requires
        log.len() <= u64::MAX,
        size <= log.len(),
        lines == lines_of(log.skip(log.len() - size)).len(),
        is_enough(count, log.len() as u64, size, lines),
    ensures
        recent(log.skip(log.len() - size), count as nat, log.len() - size) == last_of(
            lines_of(log),
            count as nat,
        ),
{
    law_last_lines_are_read_back(log, count as nat, size as nat);
}

} // verus!
