//! All the cats together: how the event log is watched, and what it makes of the cats.

use vstd::prelude::*;

use crate::cat;
use crate::cat::{event_type_to_state, CatEntity, ClaudeState};
use crate::clock;
use crate::clock::Now;
use crate::events;
use crate::json;
use crate::logger;
use crate::logger::LogEntry;
use crate::text;
use crate::text::{concat2, same_text, text_precedes};

verus! {

// ---------------------------------------------------------------------------
// Entries
// ---------------------------------------------------------------------------

/// The entry comes from Codex.
pub open spec fn from_cx(entry: logger::EntryView) -> bool {
    entry.source == "cx"@
}

/// The entry comes from an agent that is shown.
pub open spec fn enabled(entry: logger::EntryView, cc_on: bool, cx_on: bool) -> bool {
    if from_cx(entry) {
        cx_on
    } else {
        cc_on
    }
}

/// The entry is later than the last one that was seen.
pub open spec fn later(entry: logger::EntryView, seen: Option<Seq<char>>) -> bool {
    seen matches Some(t) && text::precedes(t, entry.timestamp)
}

/// The subagent that an entry names, by itself or by its call.
pub open spec fn named_agent(entry: logger::EntryView) -> Option<Seq<char>> {
    if json::member(entry.raw, "agent_id"@) is Some {
        json::member_string(entry.raw, "agent_id"@)
    } else {
        json::member_string(entry.raw, "call_id"@)
    }
}

/// The identity of the subagent that an entry names. That of a Codex subagent is marked.
pub open spec fn subagent_of(entry: logger::EntryView) -> Option<Seq<char>> {
    match named_agent(entry) {
        Some(id) => Some(
            if from_cx(entry) {
                "cx:"@ + id
            } else {
                id
            },
        ),
        None => None,
    }
}

/// The entry is one of a subagent's own.
pub open spec fn is_subagent_entry(entry: logger::EntryView) -> bool {
    json::member_string(entry.raw, "agent_type"@) is Some
}

/// The entry says nothing of what its agent is doing.
pub open spec fn is_housekeeping(entry: logger::EntryView) -> bool {
    entry.event_type == "ConfigChange"@ || entry.event_type == "InstructionsLoaded"@
}

/// The entry tells what the agent itself is doing.
pub open spec fn tells_of(entry: logger::EntryView, cx: bool) -> bool {
    from_cx(entry) == cx && !is_housekeeping(entry) && !is_subagent_entry(entry)
}

fn is_from_cx(entry: &LogEntry) -> (r: bool)
    ensures
        r == from_cx(entry@),
{
    same_text(&entry.source, "cx")
}

fn is_enabled(entry: &LogEntry, cc_on: bool, cx_on: bool) -> (r: bool)
    ensures
        r == enabled(entry@, cc_on, cx_on),
{
    if is_from_cx(entry) {
        cx_on
    } else {
        cc_on
    }
}

fn find_subagent(entry: &LogEntry) -> (r: Option<String>)
    ensures
        text::string_view(r) == subagent_of(entry@),
{
    let named = match entry.raw.get("agent_id") {
        Some(value) => value.as_str(),
        None => entry.raw.get_str("call_id"),
    };
    match named {
        Some(id) => {
            if is_from_cx(entry) {
                Some(concat2("cx:", id))
            } else {
                Some(id.to_owned())
            }
        },
        None => None,
    }
}

fn does_tell_of(entry: &LogEntry, cx: bool) -> (r: bool)
    ensures
        r == tells_of(entry@, cx),
{
    is_from_cx(entry) == cx && !same_text(&entry.event_type, "ConfigChange") && !same_text(
        &entry.event_type,
        "InstructionsLoaded",
    ) && entry.raw.get_str("agent_type").is_none()
}

fn is_later(entry: &LogEntry, seen: &Option<String>) -> (r: bool)
    ensures
        r == later(entry@, text::string_view(*seen)),
{
    match seen {
        Some(t) => text_precedes(t, &entry.timestamp),
        None => false,
    }
}

// ---------------------------------------------------------------------------
// Subagents
// ---------------------------------------------------------------------------

/// The subagents that are at work, those that started and those that stopped.
#[verifier::ext_equal]
pub struct Lifecycle {
    pub known: Set<Seq<char>>,
    pub started: Seq<Seq<char>>,
    pub stopped: Set<Seq<char>>,
}

/// What an entry makes of the subagents. One starts that is not at work already.
pub open spec fn lifecycle_step(before: Lifecycle, entry: logger::EntryView) -> Lifecycle {
    match subagent_of(entry) {
        Some(id) => if entry.event_type == "SubagentStart"@ {
            if id.len() > 0 && !before.known.contains(id) {
                Lifecycle {
                    known: before.known.insert(id),
                    started: before.started.push(id),
                    stopped: before.stopped,
                }
            } else {
                before
            }
        } else if entry.event_type == "SubagentStop"@ {
            Lifecycle {
                known: before.known.remove(id),
                started: before.started,
                stopped: before.stopped.insert(id),
            }
        } else {
            before
        },
        None => before,
    }
}

/// What entries make of the subagents: the later ones of agents that are shown, in order.
pub open spec fn lifecycle(
    known: Set<Seq<char>>,
    entries: Seq<logger::EntryView>,
    seen: Option<Seq<char>>,
    cc_on: bool,
    cx_on: bool,
) -> Lifecycle
    decreases entries.len(),
{
    if entries.len() == 0 {
        Lifecycle { known, started: Seq::empty(), stopped: Set::empty() }
    } else {
        let before = lifecycle(known, entries.drop_last(), seen, cc_on, cx_on);
        let entry = entries.last();
        if enabled(entry, cc_on, cx_on) && later(entry, seen) {
            lifecycle_step(before, entry)
        } else {
            before
        }
    }
}

fn contains_id(ids: &Vec<String>, id: &str) -> (r: bool)
    ensures
        r == text::views(ids@).contains(id@),
{
    let mut i: usize = 0;
    while i < ids.len()
        invariant
            i <= ids@.len(),
            forall|j: int| 0 <= j < i ==> (#[trigger] ids@[j])@ != id@,
        decreases ids@.len() - i,
    {
        if same_text(&ids[i], id) {
            proof {
                assert(text::views(ids@)[i as int] == id@);
            }
            return true;
        }
        i += 1;
    }
    proof {
        assert forall|j: int| 0 <= j < ids@.len() implies text::views(ids@)[j] != id@ by {
            assert(ids@[j]@ != id@);
        }
    }
    false
}

fn add_id(ids: &mut Vec<String>, id: &str)
    requires
        text::views(old(ids)@).no_duplicates(),
        !text::views(old(ids)@).contains(id@),
    ensures
        text::views(final(ids)@).no_duplicates(),
        text::views(final(ids)@).to_set() == text::views(old(ids)@).to_set().insert(id@),
{
    let ghost before = text::views(ids@);
    ids.push(id.to_owned());
    proof {
        let after = text::views(ids@);
        assert(after =~= before.push(id@));
        assert forall|s: Seq<char>| after.to_set().contains(s) == before.to_set().insert(
            id@,
        ).contains(s) by {
            if before.contains(s) {
                let k = choose|k: int| 0 <= k < before.len() && before[k] == s;
                assert(after[k] == s);
            }
            assert(after[before.len() as int] == id@);
        }
        assert(after.to_set() =~= before.to_set().insert(id@));
        assert forall|i: int, j: int|
            0 <= i < after.len() && 0 <= j < after.len() && i != j implies after[i]
            != after[j] by {
            if i == before.len() {
                assert(before.contains(before[j]));
            } else if j == before.len() {
                assert(before.contains(before[i]));
            }
        }
    }
}

fn remove_id(ids: &mut Vec<String>, id: &str)
    requires
        text::views(old(ids)@).no_duplicates(),
    ensures
        text::views(final(ids)@).no_duplicates(),
        text::views(final(ids)@).to_set() == text::views(old(ids)@).to_set().remove(id@),
{
    let ghost before = text::views(ids@);
    let mut i: usize = 0;
    while i < ids.len() && !same_text(&ids[i], id)
        invariant
            i <= ids@.len(),
            before == text::views(ids@),
            forall|j: int| 0 <= j < i ==> before[j] != id@,
        decreases ids@.len() - i,
    {
        proof {
            assert(before[i as int] == ids@[i as int]@);
        }
        i += 1;
    }
    if i < ids.len() {
        let removed = ids.remove(i);
        proof {
            let after = text::views(ids@);
            assert(before[i as int] == id@);
            assert(after =~= before.remove(i as int));
            assert forall|s: Seq<char>| after.to_set().contains(s) == before.to_set().remove(
                id@,
            ).contains(s) by {
                if before.contains(s) && s != id@ {
                    let k = choose|k: int| 0 <= k < before.len() && before[k] == s;
                    if k < i {
                        assert(after[k] == s);
                    } else {
                        assert(after[k - 1] == s);
                    }
                }
                if after.contains(s) {
                    let k = choose|k: int| 0 <= k < after.len() && after[k] == s;
                    if k < i {
                        assert(before[k] == s);
                    } else {
                        assert(before[k + 1] == s);
                    }
                }
            }
            assert(after.to_set() =~= before.to_set().remove(id@));
        }
    } else {
        proof {
            assert(before.to_set() =~= before.to_set().remove(id@));
        }
    }
}

/// A cat, sent home where `home` says so.
pub open spec fn sent_home(cat: cat::CatView, home: bool) -> cat::CatView {
    cat::CatView { returning: cat.returning || home, ..cat }
}

fn send_home(minis: &mut Vec<CatEntity>, id: &str)
    ensures
        final(minis)@.len() == old(minis)@.len(),
        forall|j: int|
            0 <= j < final(minis)@.len() ==> (#[trigger] final(minis)@[j])@ == sent_home(
                old(minis)@[j]@,
                old(minis)@[j]@.id == id@,
            ),
{
    let ghost before = minis@;
    let mut i: usize = 0;
    while i < minis.len()
        invariant
            i <= minis@.len(),
            minis@.len() == before.len(),
            forall|j: int|
                0 <= j < i ==> (#[trigger] minis@[j])@ == sent_home(
                    before[j]@,
                    before[j]@.id == id@,
                ),
            forall|j: int| i <= j < minis@.len() ==> (#[trigger] minis@[j]) == before[j],
        decreases minis@.len() - i,
    {
        if same_text(&minis[i].id, id) {
            minis[i].returning = true;
        }
        i += 1;
    }
}

/// Follows the subagents through the log: remembers those at work, sends the small cats of the
/// stopped ones home and returns the ones that started.
pub fn track_subagents(
    entries: &Vec<LogEntry>,
    seen: &Option<String>,
    known: &mut Vec<String>,
    minis: &mut Vec<CatEntity>,
    cc_on: bool,
    cx_on: bool,
) -> (r: Vec<String>)
    requires
        text::views(old(known)@).no_duplicates(),
    ensures
        text::views(final(known)@).no_duplicates(),
        ({
            let l = lifecycle(
                text::views(old(known)@).to_set(),
                logger::entry_views(entries@),
                text::string_view(*seen),
                cc_on,
                cx_on,
            );
            &&& text::views(final(known)@).to_set() == l.known
            &&& text::views(r@) == l.started
            &&& final(minis)@.len() == old(minis)@.len()
            &&& forall|j: int|
                0 <= j < final(minis)@.len() ==> (#[trigger] final(minis)@[j])@ == sent_home(
                    old(minis)@[j]@,
                    l.stopped.contains(old(minis)@[j]@.id),
                )
        }),
{
    let ghost first = text::views(known@).to_set();
    let ghost cats = minis@;
    let ghost views = logger::entry_views(entries@);
    let ghost last = text::string_view(*seen);
    let mut started: Vec<String> = Vec::new();
    let mut i: usize = 0;
    proof {
        assert(views.take(0) =~= Seq::empty());
        assert(text::views(started@) =~= Seq::empty());
    }
    while i < entries.len()
        invariant
            i <= entries@.len(),
            views == logger::entry_views(entries@),
            last == text::string_view(*seen),
            text::views(known@).no_duplicates(),
            text::views(known@).to_set() == lifecycle(
                first,
                views.take(i as int),
                last,
                cc_on,
                cx_on,
            ).known,
            text::views(started@) == lifecycle(
                first,
                views.take(i as int),
                last,
                cc_on,
                cx_on,
            ).started,
            minis@.len() == cats.len(),
            forall|j: int|
                0 <= j < minis@.len() ==> (#[trigger] minis@[j])@ == sent_home(
                    cats[j]@,
                    lifecycle(first, views.take(i as int), last, cc_on, cx_on).stopped.contains(
                        cats[j]@.id,
                    ),
                ),
        decreases entries@.len() - i,
    {
        let entry = &entries[i];
        let ghost l = lifecycle(first, views.take(i as int), last, cc_on, cx_on);
        proof {
            assert(views.take(i + 1).drop_last() =~= views.take(i as int));
            assert(views.take(i + 1).last() == entry@);
        }
        if is_enabled(entry, cc_on, cx_on) && is_later(entry, seen) {
            if let Some(id) = find_subagent(entry) {
                if same_text(&entry.event_type, "SubagentStart") {
                    if id.as_str().unicode_len() > 0 && !contains_id(known, &id) {
                        proof {
                            assert(!text::views(known@).contains(id@));
                        }
                        add_id(known, &id);
                        let ghost earlier = text::views(started@);
                        started.push(id);
                        proof {
                            assert(text::views(started@) =~= earlier.push(id@));
                        }
                    }
                } else if same_text(&entry.event_type, "SubagentStop") {
                    remove_id(known, &id);
                    send_home(minis, &id);
                }
            }
        }
        i += 1;
    }
    proof {
        assert(views.take(i as int) =~= views);
    }
    started
}

// ---------------------------------------------------------------------------
// What an agent is doing
// ---------------------------------------------------------------------------

/// The entry was not looked at before.
pub open spec fn is_new(entry: logger::EntryView, seen: Option<Seq<char>>) -> bool {
    seen is None || later(entry, seen)
}

/// The entry is a new one of an agent that is shown, and tells that it is at work.
pub open spec fn shows_activity(
    entry: logger::EntryView,
    seen: Option<Seq<char>>,
    on: bool,
    cx: bool,
) -> bool {
    &&& on
    &&& is_new(entry, seen)
    &&& tells_of(entry, cx)
    &&& cat::state_of(entry.event_type) == ClaudeState::Active
}

/// The agent was at work since the log was last looked at.
pub open spec fn was_active(
    entries: Seq<logger::EntryView>,
    seen: Option<Seq<char>>,
    on: bool,
    cx: bool,
) -> bool {
    exists|i: int| 0 <= i < entries.len() && shows_activity(#[trigger] entries[i], seen, on, cx)
}

/// The position of the last entry that tells what the agent is doing.
pub open spec fn last_telling(entries: Seq<logger::EntryView>, cx: bool) -> Option<int>
    decreases entries.len(),
{
    if entries.len() == 0 {
        None
    } else if tells_of(entries.last(), cx) {
        Some(entries.len() - 1)
    } else {
        last_telling(entries.drop_last(), cx)
    }
}

/// The seconds for which an entry tells what its agent is doing.
pub const FRESH_SECS: i64 = 300;

/// The nanoseconds for which a notification is shown.
pub const NOTICE_NANOS: u64 = 8_000_000_000;

/// The entry that tells what the agent is doing now: the last one that tells of it, where the
/// agent is shown and the entry is not too old.
pub open spec fn telling_entry(
    entries: Seq<logger::EntryView>,
    on: bool,
    cx: bool,
    now: Now,
) -> Option<logger::EntryView> {
    match last_telling(entries, cx) {
        Some(i) => if on && clock::is_fresh(entries[i].timestamp, now, FRESH_SECS as int) {
            Some(entries[i])
        } else {
            None
        },
        None => None,
    }
}

/// What the agent is doing now. One of which no entry tells is off line.
pub open spec fn seen_state(
    entries: Seq<logger::EntryView>,
    on: bool,
    cx: bool,
    now: Now,
) -> ClaudeState {
    match telling_entry(entries, on, cx, now) {
        Some(entry) => cat::state_of(entry.event_type),
        None => ClaudeState::Offline,
    }
}

/// The agent waits for an answer of the user.
pub open spec fn asks_user(
    entries: Seq<logger::EntryView>,
    on: bool,
    cx: bool,
    now: Now,
) -> bool {
    match telling_entry(entries, on, cx, now) {
        Some(entry) => entry.event_type == "Notification"@ && json::member_string(
            entry.raw,
            "notification_type"@,
        ) == Some("elicitation_dialog"@),
        None => false,
    }
}

/// Whether the agent was at work since the log was last looked at.
pub fn had_activity(entries: &Vec<LogEntry>, seen: &Option<String>, on: bool, cx: bool) -> (r: bool)
    ensures
        r == was_active(logger::entry_views(entries@), text::string_view(*seen), on, cx),
{
    let ghost views = logger::entry_views(entries@);
    let mut i: usize = 0;
    while i < entries.len()
        invariant
            i <= entries@.len(),
            views == logger::entry_views(entries@),
            forall|j: int|
                0 <= j < i ==> !shows_activity(
                    #[trigger] views[j],
                    text::string_view(*seen),
                    on,
                    cx,
                ),
        decreases entries@.len() - i,
    {
        let entry = &entries[i];
        proof {
            assert(views[i as int] == entry@);
        }
        if on && (seen.is_none() || is_later(entry, seen)) && does_tell_of(entry, cx)
            && event_type_to_state(&entry.event_type) == ClaudeState::Active {
            return true;
        }
        i += 1;
    }
    false
}

fn find_telling(entries: &Vec<LogEntry>, cx: bool) -> (r: Option<usize>)
    ensures
        match r {
            Some(i) => last_telling(logger::entry_views(entries@), cx) == Some(i as int) && i
                < entries@.len(),
            None => last_telling(logger::entry_views(entries@), cx) is None,
        },
{
    let ghost views = logger::entry_views(entries@);
    let mut i: usize = entries.len();
    proof {
        assert(views.take(views.len() as int) =~= views);
    }
    while i > 0
        invariant
            i <= entries@.len(),
            views == logger::entry_views(entries@),
            last_telling(views, cx) == last_telling(views.take(i as int), cx),
        decreases i,
    {
        proof {
            assert(views.take(i as int).last() == entries@[i - 1]@);
            assert(views.take(i as int).drop_last() =~= views.take(i - 1));
        }
        if does_tell_of(&entries[i - 1], cx) {
            return Some(i - 1);
        }
        i -= 1;
    }
    None
}

/// What the agent is doing, and whether it waits for an answer, given the age of the last entry
/// that tells of it.
pub fn judge(entry: &LogEntry, age: Option<(i64, i32)>) -> (r: (ClaudeState, bool))
    ensures
        r.0 == (if age is Some && !clock::older_than(age->0, FRESH_SECS as int) {
            cat::state_of(entry@.event_type)
        } else {
            ClaudeState::Offline
        }),
        r.1 == (age is Some && !clock::older_than(age->0, FRESH_SECS as int)
            && entry@.event_type == "Notification"@ && json::member_string(
            entry@.raw,
            "notification_type"@,
        ) == Some("elicitation_dialog"@)),
{
    if clock::within(age, FRESH_SECS) {
        let asks = same_text(&entry.event_type, "Notification") && match entry.raw.get_str(
            "notification_type",
        ) {
            Some(kind) => same_text(kind, "elicitation_dialog"),
            None => false,
        };
        (event_type_to_state(&entry.event_type), asks)
    } else {
        (ClaudeState::Offline, false)
    }
}

/// What the agent is doing now, and whether it waits for an answer of the user.
pub fn observe(entries: &Vec<LogEntry>, on: bool, cx: bool, now: Now) -> (r: (ClaudeState, bool))
    ensures
        r.0 == seen_state(logger::entry_views(entries@), on, cx, now),
        r.1 == asks_user(logger::entry_views(entries@), on, cx, now),
{
    if !on {
        return (ClaudeState::Offline, false);
    }
    match find_telling(entries, cx) {
        Some(i) => {
            let age = clock::read_age(&entries[i].timestamp, now.unix_secs, now.unix_nanos);
            judge(&entries[i], age)
        },
        None => (ClaudeState::Offline, false),
    }
}

// ---------------------------------------------------------------------------
// Permission requests
// ---------------------------------------------------------------------------

/// The session and the subagent that an entry belongs to.
pub open spec fn thread_of(entry: logger::EntryView) -> (Seq<char>, Seq<char>) {
    (entry.session_id, text::text_or(json::member_string(entry.raw, "agent_id"@), ""@))
}

/// Two entries of the same agent belong together.
pub open spec fn same_thread(a: logger::EntryView, b: logger::EntryView) -> bool {
    from_cx(a) == from_cx(b) && thread_of(a) == thread_of(b)
}

/// The entry is a permission request that nothing followed.
pub open spec fn is_open_request(entries: Seq<logger::EntryView>, cx: bool, i: int) -> bool {
    &&& 0 <= i < entries.len()
    &&& from_cx(entries[i]) == cx
    &&& entries[i].event_type == "PermissionRequest"@
    &&& forall|j: int|
        i < j < entries.len() ==> !same_thread(entries[i], #[trigger] entries[j])
}

/// The number of open permission requests among the first `n` entries.
pub open spec fn open_requests(entries: Seq<logger::EntryView>, cx: bool, n: int) -> nat
    decreases n,
{
    if n <= 0 {
        0
    } else {
        open_requests(entries, cx, n - 1) + (if is_open_request(entries, cx, n - 1) {
            1nat
        } else {
            0nat
        })
    }
}

/// The number of permission requests that wait for the user; none of an agent that is not shown.
pub open spec fn waiting_requests(entries: Seq<logger::EntryView>, on: bool, cx: bool) -> nat {
    if on {
        open_requests(entries, cx, entries.len() as int)
    } else {
        0
    }
}

fn agent_id_of(entry: &LogEntry) -> (r: &str)
    ensures
        r@ == thread_of(entry@).1,
{
    match entry.raw.get_str("agent_id") {
        Some(id) => id,
        None => "",
    }
}

fn is_same_thread(a: &LogEntry, b: &LogEntry) -> (r: bool)
    ensures
        r == same_thread(a@, b@),
{
    is_from_cx(a) == is_from_cx(b) && same_text(&a.session_id, &b.session_id) && same_text(
        agent_id_of(a),
        agent_id_of(b),
    )
}

fn is_open(entries: &Vec<LogEntry>, cx: bool, i: usize) -> (r: bool)
    requires
        i < entries@.len(),
    ensures
        r == is_open_request(logger::entry_views(entries@), cx, i as int),
{
    let ghost views = logger::entry_views(entries@);
    proof {
        assert(views[i as int] == entries@[i as int]@);
    }
    if is_from_cx(&entries[i]) != cx || !same_text(&entries[i].event_type, "PermissionRequest") {
        return false;
    }
    let total = entries.len();
    let mut j = i + 1;
    while j < total
        invariant
            i < j <= entries@.len(),
            total == entries@.len(),
            views == logger::entry_views(entries@),
            views[i as int] == entries@[i as int]@,
            forall|k: int| i < k < j ==> !same_thread(views[i as int], #[trigger] views[k]),
        decreases entries@.len() - j,
    {
        proof {
            assert(views[j as int] == entries@[j as int]@);
        }
        if is_same_thread(&entries[i], &entries[j]) {
            return false;
        }
        j += 1;
    }
    true
}

/// Counts the permission requests that wait for the user.
pub fn count_waiting(entries: &Vec<LogEntry>, on: bool, cx: bool) -> (r: usize)
    ensures
        r == waiting_requests(logger::entry_views(entries@), on, cx),
{
    if !on {
        return 0;
    }
    let ghost views = logger::entry_views(entries@);
    let mut n: usize = 0;
    let mut i: usize = 0;
    while i < entries.len()
        invariant
            i <= entries@.len(),
            n <= i,
            views == logger::entry_views(entries@),
            n == open_requests(views, cx, i as int),
        decreases entries@.len() - i,
    {
        if is_open(entries, cx, i) {
            n += 1;
        }
        i += 1;
    }
    n
}

/// No two permission requests of one session and subagent are open at once.
pub proof fn law_one_open_request_per_thread(
    entries: Seq<logger::EntryView>,
    cx: bool,
    i: int,
    j: int,
)
    requires
        is_open_request(entries, cx, i),
        is_open_request(entries, cx, j),
        i != j,
    ensures
        !same_thread(entries[i], entries[j]),
{
    if i < j {
        assert(!same_thread(entries[i], entries[j]));
    } else {
        assert(!same_thread(entries[j], entries[i]));
    }
}

/// Any later entry of the same session and subagent closes a permission request, and leaves the
/// requests of the others as they are.
pub proof fn law_later_entry_closes_request(
    entries: Seq<logger::EntryView>,
    cx: bool,
    entry: logger::EntryView,
    i: int,
)
    requires
        0 <= i < entries.len(),
    ensures
        is_open_request(entries.push(entry), cx, i) <==> is_open_request(entries, cx, i)
            && !same_thread(entries[i], entry),
{
    let after = entries.push(entry);
    assert(after[entries.len() as int] == entry);
    if is_open_request(after, cx, i) {
        assert(!same_thread(after[i], after[entries.len() as int]));
        assert forall|j: int| i < j < entries.len() implies !same_thread(
            entries[i],
            #[trigger] entries[j],
        ) by {
            assert(after[j] == entries[j]);
        }
    }
    if is_open_request(entries, cx, i) && !same_thread(entries[i], entry) {
        assert forall|j: int| i < j < after.len() implies !same_thread(
            after[i],
            #[trigger] after[j],
        ) by {
            if j < entries.len() {
                assert(after[j] == entries[j]);
            }
        }
    }
}

// ---------------------------------------------------------------------------
// Polling
// ---------------------------------------------------------------------------

/// All the cats, and how far the log has been looked at.
#[derive(Debug)]
pub struct CatColony {
    pub main_cat: CatEntity,
    pub cx_main_cat: CatEntity,
    pub mini_cats: Vec<CatEntity>,
    pub last_event_time: Option<String>,
    pub known_subagents: Vec<String>,
}

impl CatColony {
    /// The colony in order: its cats are, and it knows each subagent once.
    pub open spec fn wf(self) -> bool {
        &&& self.main_cat@.big_wf()
        &&& self.cx_main_cat@.big_wf()
        &&& forall|i: int|
            0 <= i < self.mini_cats@.len() ==> (#[trigger] self.mini_cats@[i])@.mini_wf()
        &&& text::views(self.known_subagents@).no_duplicates()
    }
}

/// The cat after the log was looked at, before it follows its agent's state: it shows the
/// requests that wait and, for some seconds, that its agent waits for an answer.
pub open spec fn informed(
    cat: cat::CatView,
    waiting: usize,
    asks: bool,
    monotonic: u64,
) -> cat::CatView {
    cat::CatView {
        pending_permission_count: waiting,
        notification_text: if asks {
            Some("等你回答"@)
        } else {
            cat.notification_text
        },
        notification_expire: if asks {
            (monotonic + NOTICE_NANOS) as u64
        } else {
            cat.notification_expire
        },
        ..cat
    }
}

/// The timestamp of the last entry.
pub open spec fn last_time(entries: Seq<logger::EntryView>) -> Option<Seq<char>> {
    if entries.len() == 0 {
        None
    } else {
        Some(entries.last().timestamp)
    }
}

fn inform(cat: &mut CatEntity, waiting: usize, asks: bool, monotonic: u64)
    requires
        monotonic + NOTICE_NANOS <= u64::MAX,
    ensures
        final(cat)@ == informed(old(cat)@, waiting, asks, monotonic),
{
    cat.pending_permission_count = waiting;
    if asks {
        cat.notification_text = Some("等你回答".to_owned());
        cat.notification_expire = monotonic + NOTICE_NANOS;
    }
}

fn same_time(a: &Option<String>, b: &Option<String>) -> (r: bool)
    ensures
        r == (text::string_view(*a) == text::string_view(*b)),
{
    match (a, b) {
        (Some(x), Some(y)) => same_text(x, y),
        (None, None) => true,
        _ => false,
    }
}

impl CatColony {
    /// Two big cats, asleep, and no small ones.
    pub fn new(now: u64) -> (r: CatColony)
        ensures
            r.wf(),
            r.mini_cats@.len() == 0,
            r.known_subagents@.len() == 0,
            r.last_event_time is None,
            r.main_cat@ == cat::sleeping(now),
            r.cx_main_cat@ == cat::sleeping(now),
    {
        CatColony {
            main_cat: CatEntity::new_main(now),
            cx_main_cat: CatEntity::new_main(now),
            mini_cats: Vec::new(),
            last_event_time: None,
            known_subagents: Vec::new(),
        }
    }

    /// Lets the big cats follow the log.
    fn follow_agents(&mut self, entries: &Vec<LogEntry>, cc_on: bool, cx_on: bool, now: Now)
        requires
            now.monotonic + NOTICE_NANOS <= u64::MAX,
        ensures
            final(self).mini_cats == old(self).mini_cats,
            final(self).known_subagents == old(self).known_subagents,
            text::string_view(final(self).last_event_time) == last_time(
                logger::entry_views(entries@),
            ),
            followed(
                old(self).main_cat@,
                old(self).cx_main_cat@,
                logger::entry_views(entries@),
                text::string_view(old(self).last_event_time),
                cc_on,
                cx_on,
                now,
                final(self).main_cat@,
                final(self).cx_main_cat@,
            ),
    {
        let had_active = had_activity(entries, &self.last_event_time, cc_on, false);
        let had_cx_active = had_activity(entries, &self.last_event_time, cx_on, true);
        let (state, asks) = observe(entries, cc_on, false, now);
        let (cx_state, cx_asks) = observe(entries, cx_on, true, now);
        let waiting = count_waiting(entries, cc_on, false);
        let cx_waiting = count_waiting(entries, cx_on, true);
        inform(&mut self.main_cat, waiting, asks, now.monotonic);
        inform(&mut self.cx_main_cat, cx_waiting, cx_asks, now.monotonic);
        let current: Option<String> = if entries.len() == 0 {
            None
        } else {
            Some(entries[entries.len() - 1].timestamp.clone())
        };
        proof {
            assert(text::string_view(current) == last_time(logger::entry_views(entries@)));
        }
        if same_time(&current, &self.last_event_time) && state == self.main_cat.claude_state
            && cx_state == self.cx_main_cat.claude_state {
            return;
        }
        self.last_event_time = current;
        self.main_cat.react(state, had_active);
        self.cx_main_cat.react(cx_state, had_cx_active);
    }

    /// Looks at the recent entries of the log. Returns the subagents that started. A log that
    /// says nothing new leaves the cats as they are, but for what they tell the user.
    pub fn poll_claude_state(
        &mut self,
        entries: &Vec<LogEntry>,
        cc_on: bool,
        cx_on: bool,
        now: Now,
    ) -> (r: Vec<String>)
        requires
            old(self).wf(),
            now.monotonic + NOTICE_NANOS <= u64::MAX,
        ensures
            final(self).wf(),
            subagents_followed(
                *old(self),
                logger::entry_views(entries@),
                cc_on,
                cx_on,
                *final(self),
                text::views(r@),
            ),
            text::string_view(final(self).last_event_time) == last_time(
                logger::entry_views(entries@),
            ),
            followed(
                old(self).main_cat@,
                old(self).cx_main_cat@,
                logger::entry_views(entries@),
                text::string_view(old(self).last_event_time),
                cc_on,
                cx_on,
                now,
                final(self).main_cat@,
                final(self).cx_main_cat@,
            ),
    {
        let started = track_subagents(
            entries,
            &self.last_event_time,
            &mut self.known_subagents,
            &mut self.mini_cats,
            cc_on,
            cx_on,
        );
        self.follow_agents(entries, cc_on, cx_on, now);
        proof {
            law_poll_keeps_order(
                old(self).main_cat@,
                old(self).cx_main_cat@,
                logger::entry_views(entries@),
                text::string_view(old(self).last_event_time),
                cc_on,
                cx_on,
                now,
                self.main_cat@,
                self.cx_main_cat@,
            );
        }
        started
    }
}

/// The subagents `started`, and the colony remembers and sends home, as the log says.
pub open spec fn subagents_followed(
    before: CatColony,
    entries: Seq<logger::EntryView>,
    cc_on: bool,
    cx_on: bool,
    after: CatColony,
    started: Seq<Seq<char>>,
) -> bool {
    let l = lifecycle(
        text::views(before.known_subagents@).to_set(),
        entries,
        text::string_view(before.last_event_time),
        cc_on,
        cx_on,
    );
    &&& started == l.started
    &&& text::views(after.known_subagents@).to_set() == l.known
    &&& after.mini_cats@.len() == before.mini_cats@.len()
    &&& forall|j: int|
        0 <= j < after.mini_cats@.len() ==> (#[trigger] after.mini_cats@[j])@ == sent_home(
            before.mini_cats@[j]@,
            l.stopped.contains(before.mini_cats@[j]@.id),
        )
}

/// The log says nothing new: its last entry was seen, and both agents do what they did.
pub open spec fn nothing_new(
    main: cat::CatView,
    cx_main: cat::CatView,
    entries: Seq<logger::EntryView>,
    seen: Option<Seq<char>>,
    cc_on: bool,
    cx_on: bool,
    now: Now,
) -> bool {
    &&& last_time(entries) == seen
    &&& seen_state(entries, cc_on, false, now) == main.claude_state
    &&& seen_state(entries, cx_on, true, now) == cx_main.claude_state
}

/// A big cat after the log was looked at, before it follows its agent's state.
pub open spec fn told(
    cat: cat::CatView,
    entries: Seq<logger::EntryView>,
    on: bool,
    cx: bool,
    now: Now,
) -> cat::CatView {
    informed(
        cat,
        waiting_requests(entries, on, cx) as usize,
        asks_user(entries, on, cx, now),
        now.monotonic,
    )
}

/// The big cats after the log was looked at.
pub open spec fn followed(
    main: cat::CatView,
    cx_main: cat::CatView,
    entries: Seq<logger::EntryView>,
    seen: Option<Seq<char>>,
    cc_on: bool,
    cx_on: bool,
    now: Now,
    next: cat::CatView,
    cx_next: cat::CatView,
) -> bool {
    let told_main = told(main, entries, cc_on, false, now);
    let told_cx = told(cx_main, entries, cx_on, true, now);
    if nothing_new(main, cx_main, entries, seen, cc_on, cx_on, now) {
        next == told_main && cx_next == told_cx
    } else {
        &&& told_main.reacted(
            seen_state(entries, cc_on, false, now),
            was_active(entries, seen, cc_on, false),
            next,
        )
        &&& told_cx.reacted(
            seen_state(entries, cx_on, true, now),
            was_active(entries, seen, cx_on, true),
            cx_next,
        )
    }
}

/// Looking at the log keeps both big cats in order.
pub proof fn law_poll_keeps_order(
    main: cat::CatView,
    cx_main: cat::CatView,
    entries: Seq<logger::EntryView>,
    seen: Option<Seq<char>>,
    cc_on: bool,
    cx_on: bool,
    now: Now,
    next: cat::CatView,
    cx_next: cat::CatView,
)
    requires
        main.big_wf(),
        cx_main.big_wf(),
        followed(main, cx_main, entries, seen, cc_on, cx_on, now, next, cx_next),
    ensures
        next.big_wf(),
        cx_next.big_wf(),
{
    let told_main = told(main, entries, cc_on, false, now);
    let told_cx = told(cx_main, entries, cx_on, true, now);
    if !nothing_new(main, cx_main, entries, seen, cc_on, cx_on, now) {
        cat::law_reaction_keeps_order(
            told_main,
            seen_state(entries, cc_on, false, now),
            was_active(entries, seen, cc_on, false),
            next,
        );
        cat::law_reaction_keeps_order(
            told_cx,
            seen_state(entries, cx_on, true, now),
            was_active(entries, seen, cx_on, true),
            cx_next,
        );
    }
}

/// An agent that is not shown is off line, asks nothing and waits for nothing.
pub proof fn law_hidden_agent_is_off_line(
    entries: Seq<logger::EntryView>,
    seen: Option<Seq<char>>,
    cx: bool,
    now: Now,
)
    ensures
        seen_state(entries, false, cx, now) == ClaudeState::Offline,
        !asks_user(entries, false, cx, now),
        !was_active(entries, seen, false, cx),
        waiting_requests(entries, false, cx) == 0,
{
}

/// A subagent is at work from its start to its stop: after a log in which it is not stopped, one
/// that started is known, and one that is neither is known as before.
pub proof fn law_subagent_lifecycle(
    known: Set<Seq<char>>,
    entries: Seq<logger::EntryView>,
    seen: Option<Seq<char>>,
    cc_on: bool,
    cx_on: bool,
    id: Seq<char>,
)
    ensures
        ({
            let l = lifecycle(known, entries, seen, cc_on, cx_on);
            &&& l.started.contains(id) && !l.stopped.contains(id) ==> l.known.contains(id)
            &&& !l.started.contains(id) && !l.stopped.contains(id) ==> l.known.contains(id)
                == known.contains(id)
            &&& l.known.contains(id) ==> known.contains(id) || l.started.contains(id)
            &&& l.started.contains(id) && !l.stopped.contains(id) ==> !known.contains(id)
        }),
    decreases entries.len(),
{
    if entries.len() > 0 {
        law_subagent_lifecycle(known, entries.drop_last(), seen, cc_on, cx_on, id);
        let before = lifecycle(known, entries.drop_last(), seen, cc_on, cx_on);
        let after = lifecycle(known, entries, seen, cc_on, cx_on);
        if after.started != before.started {
            let new = after.started.last();
            assert(after.started =~= before.started.push(new));
            if before.started.contains(id) {
                let k = choose|k: int| 0 <= k < before.started.len() && before.started[k] == id;
                assert(after.started[k] == id);
            }
            assert(after.started[before.started.len() as int] == new);
        }
    }
}

/// Nothing is made of a log in which every entry was seen.
pub proof fn law_seen_entries_change_no_subagent(
    known: Set<Seq<char>>,
    entries: Seq<logger::EntryView>,
    seen: Option<Seq<char>>,
    cc_on: bool,
    cx_on: bool,
)
    requires
        forall|i: int| 0 <= i < entries.len() ==> !later(#[trigger] entries[i], seen),
    ensures
        lifecycle(known, entries, seen, cc_on, cx_on) == (Lifecycle {
            known,
            started: Seq::empty(),
            stopped: Set::empty(),
        }),
    decreases entries.len(),
{
    if entries.len() > 0 {
        assert(!later(entries[entries.len() - 1], seen));
        assert forall|i: int| 0 <= i < entries.drop_last().len() implies !later(
            #[trigger] entries.drop_last()[i],
            seen,
        ) by {
            assert(!later(entries[i], seen));
        }
        law_seen_entries_change_no_subagent(known, entries.drop_last(), seen, cc_on, cx_on);
    }
}

// ---------------------------------------------------------------------------
// Small cats
// ---------------------------------------------------------------------------

/// A cat for a subagent, as it comes into the world: its animation, how often it plays that and
/// its direction are left to chance.
pub open spec fn is_newborn(cat: cat::CatView, id: Seq<char>, now: u64) -> bool {
    &&& cat == cat::newborn(
        id,
        now,
        cat.state.current_anim,
        cat.state.max_loops,
        cat.moving_right,
    )
    &&& cat.state.current_anim < 2
    &&& 3 <= cat.state.max_loops < 8
}

impl CatColony {
    /// Adds a small cat for each of the subagents.
    pub fn spawn_minis(&mut self, ids: &Vec<String>, now: u64)
        requires
            old(self).wf(),
        ensures
            final(self).wf(),
            final(self).main_cat == old(self).main_cat,
            final(self).cx_main_cat == old(self).cx_main_cat,
            final(self).last_event_time == old(self).last_event_time,
            final(self).known_subagents == old(self).known_subagents,
            final(self).mini_cats@.len() == old(self).mini_cats@.len() + ids@.len(),
            final(self).mini_cats@.take(old(self).mini_cats@.len() as int) == old(self).mini_cats@,
            forall|j: int|
                0 <= j < ids@.len() ==> is_newborn(
                    (#[trigger] final(self).mini_cats@[old(self).mini_cats@.len() + j])@,
                    ids@[j]@,
                    now,
                ),
    {
        let ghost before = self.mini_cats@;
        let mut i: usize = 0;
        while i < ids.len()
            invariant
                i <= ids@.len(),
                self.wf(),
                self.main_cat == old(self).main_cat,
                self.cx_main_cat == old(self).cx_main_cat,
                self.last_event_time == old(self).last_event_time,
                self.known_subagents == old(self).known_subagents,
                self.mini_cats@.len() == before.len() + i,
                self.mini_cats@.take(before.len() as int) =~= before,
                forall|j: int|
                    0 <= j < i ==> is_newborn(
                        (#[trigger] self.mini_cats@[before.len() + j])@,
                        ids@[j]@,
                        now,
                    ),
            decreases ids@.len() - i,
        {
            let ghost earlier = self.mini_cats@;
            self.mini_cats.push(CatEntity::new_mini(&ids[i], now));
            proof {
                assert(self.mini_cats@.take(before.len() as int) =~= earlier.take(
                    before.len() as int,
                ));
            }
            i += 1;
        }
    }
}

impl CatColony {
    /// Moves the animations on to a time. A big cat that is held or falls stands still, and so
    /// does Codex's where it is not shown.
    pub fn advance_frames(&mut self, cc_held: bool, cx_held: bool, cx_on: bool, now: u64)
        requires
            old(self).wf(),
        ensures
            final(self).wf(),
            cc_held ==> final(self).main_cat == old(self).main_cat,
            !cc_held ==> old(self).main_cat@.advanced(now, final(self).main_cat@),
            cx_held || !cx_on ==> final(self).cx_main_cat == old(self).cx_main_cat,
            !cx_held && cx_on ==> old(self).cx_main_cat@.advanced(now, final(self).cx_main_cat@),
            final(self).mini_cats@.len() == old(self).mini_cats@.len(),
            forall|i: int|
                0 <= i < final(self).mini_cats@.len() ==> old(self).mini_cats@[i]@.mini_advanced(
                    now,
                    (#[trigger] final(self).mini_cats@[i])@,
                ),
            final(self).last_event_time == old(self).last_event_time,
            final(self).known_subagents == old(self).known_subagents,
    {
        if !cc_held {
            self.main_cat.advance_frame(now);
            proof {
                cat::law_frames_keep_order(old(self).main_cat@, now, self.main_cat@);
            }
        }
        if cx_on && !cx_held {
            self.cx_main_cat.advance_frame(now);
            proof {
                cat::law_frames_keep_order(old(self).cx_main_cat@, now, self.cx_main_cat@);
            }
        }
        let ghost minis = self.mini_cats@;
        let ghost main = self.main_cat;
        let ghost cx_main = self.cx_main_cat;
        let total = self.mini_cats.len();
        let mut i: usize = 0;
        while i < total
            invariant
                i <= total,
                self.wf(),
                self.main_cat == main,
                self.cx_main_cat == cx_main,
                self.last_event_time == old(self).last_event_time,
                self.known_subagents == old(self).known_subagents,
                total == minis.len(),
                self.mini_cats@.len() == minis.len(),
                forall|j: int|
                    0 <= j < i ==> minis[j]@.mini_advanced(
                        now,
                        (#[trigger] self.mini_cats@[j])@,
                    ),
                forall|j: int| i <= j < total ==> #[trigger] self.mini_cats@[j] == minis[j],
            decreases total - i,
        {
            self.mini_cats[i].advance_mini_frame(now);
            i += 1;
        }
    }

    /// Sends the small cats home that have been out for too long.
    pub fn check_timeouts(&mut self, now: u64)
        requires
            old(self).wf(),
        ensures
            final(self).wf(),
            final(self).main_cat == old(self).main_cat,
            final(self).cx_main_cat == old(self).cx_main_cat,
            final(self).mini_cats@.len() == old(self).mini_cats@.len(),
            forall|i: int|
                0 <= i < final(self).mini_cats@.len() ==> (#[trigger] final(self).mini_cats@[i])@
                    == old(self).mini_cats@[i]@.after_timeout(now),
            final(self).last_event_time == old(self).last_event_time,
            final(self).known_subagents == old(self).known_subagents,
    {
        let ghost minis = self.mini_cats@;
        let total = self.mini_cats.len();
        let mut i: usize = 0;
        while i < total
            invariant
                i <= total,
                self.wf(),
                self.main_cat == old(self).main_cat,
                self.cx_main_cat == old(self).cx_main_cat,
                self.last_event_time == old(self).last_event_time,
                self.known_subagents == old(self).known_subagents,
                total == minis.len(),
                self.mini_cats@.len() == minis.len(),
                forall|j: int|
                    0 <= j < i ==> (#[trigger] self.mini_cats@[j])@ == minis[j]@.after_timeout(now),
                forall|j: int| i <= j < total ==> #[trigger] self.mini_cats@[j] == minis[j],
            decreases total - i,
        {
            self.mini_cats[i].check_timeout(now);
            i += 1;
        }
    }
}

/// A small cat stays as long as it is not home: it is not on its way, or not there yet.
pub open spec fn stays_out(cat: cat::CatView, arrived: bool) -> bool {
    !cat.returning || !arrived
}

/// Whether a small cat stays out.
pub fn stays(cat: &CatEntity, arrived: bool) -> (r: bool)
    ensures
        r == stays_out(cat@, arrived),
{
    !cat.returning || !arrived
}

/// The cats that stay out of the first `n`.
pub open spec fn staying(cats: Seq<CatEntity>, arrived: Seq<bool>, n: int) -> Seq<CatEntity>
    decreases n,
{
    if n <= 0 || n > cats.len() {
        Seq::empty()
    } else {
        let before = staying(cats, arrived, n - 1);
        if stays_out(cats[n - 1]@, arrived[n - 1]) {
            before.push(cats[n - 1])
        } else {
            before
        }
    }
}

proof fn lemma_staying_are_cats(cats: Seq<CatEntity>, arrived: Seq<bool>, n: int)
    requires
        forall|i: int| 0 <= i < cats.len() ==> (#[trigger] cats[i])@.mini_wf(),
    ensures
        forall|i: int|
            0 <= i < staying(cats, arrived, n).len() ==> (#[trigger] staying(
                cats,
                arrived,
                n,
            )[i])@.mini_wf(),
    decreases n,
{
    if 0 < n <= cats.len() {
        lemma_staying_are_cats(cats, arrived, n - 1);
        let before = staying(cats, arrived, n - 1);
        let now = staying(cats, arrived, n);
        assert forall|i: int| 0 <= i < now.len() implies (#[trigger] now[i])@.mini_wf() by {
            if i < before.len() {
                assert(now[i] == before[i]);
            } else {
                assert(now[i] == cats[n - 1]);
            }
        }
    }
}

impl CatColony {
    /// Takes the small cats out that came home. `arrived` tells for each whether it is at its big
    /// cat.
    pub fn retain_minis(&mut self, arrived: &Vec<bool>)
        requires
            old(self).wf(),
            arrived@.len() == old(self).mini_cats@.len(),
        ensures
            final(self).wf(),
            final(self).mini_cats@ == staying(
                old(self).mini_cats@,
                arrived@,
                old(self).mini_cats@.len() as int,
            ),
            final(self).main_cat == old(self).main_cat,
            final(self).cx_main_cat == old(self).cx_main_cat,
            final(self).last_event_time == old(self).last_event_time,
            final(self).known_subagents == old(self).known_subagents,
    {
        let ghost all = self.mini_cats@;
        let mut cats: Vec<CatEntity> = Vec::new();
        std::mem::swap(&mut cats, &mut self.mini_cats);
        let total = arrived.len();
        let mut out: Vec<CatEntity> = Vec::new();
        let mut i: usize = 0;
        for cat in it: cats
            invariant
                it.seq() == all,
                total == arrived@.len(),
                total == all.len(),
                i == it.index(),
                out@ == staying(all, arrived@, it.index() as int),
        {
            if stays(&cat, arrived[i]) {
                out.push(cat);
            }
            i += 1;
        }
        self.mini_cats = out;
        proof {
            lemma_staying_are_cats(all, arrived@, all.len() as int);
        }
    }
}

// ---------------------------------------------------------------------------
// Trying it out
// ---------------------------------------------------------------------------

/// The log line of a made-up subagent.
pub open spec fn debug_line(active: bool, timestamp: Seq<char>, number: nat) -> Seq<char> {
    "{\"timestamp\":\""@ + timestamp + "\",\"event_type\":\""@ + (if active {
        "SubagentStop"@
    } else {
        "SubagentStart"@
    }) + "\",\"session_id\":\"debug\",\"summary\":\"debug subagent "@ + text::decimal(number)
        + "\",\"raw\":{\"agent_id\":\"debug-agent-"@ + text::decimal(number) + "\"}}\n"@
}

/// The log line, with its line feed, of a made-up subagent that starts, or stops where it is at
/// work.
pub fn debug_subagent_line(active: bool, timestamp: &str, number: u64) -> (r: String)
    ensures
        r@ == debug_line(active, timestamp@, number as nat),
{
    let event_type = if active {
        "SubagentStop"
    } else {
        "SubagentStart"
    };
    let n = text::decimal_text(number);
    let mut line = text::concat4(
        "{\"timestamp\":\"",
        timestamp,
        "\",\"event_type\":\"",
        event_type,
    );
    line.append("\",\"session_id\":\"debug\",\"summary\":\"debug subagent ");
    line.append(&n);
    line.append("\",\"raw\":{\"agent_id\":\"debug-agent-");
    line.append(&n);
    line.append("\"}}\n");
    line
}

// ---------------------------------------------------------------------------
// How the cats follow the log, entry by entry
// ---------------------------------------------------------------------------

/// A permission request waits exactly as long as no later entry has its source (Codex or not), its
/// session and its raw `agent_id`, which counts as empty where there is none. What type that later
/// entry has does not matter.
pub proof fn law_request_waits_for_its_own_agent(
    entries: Seq<logger::EntryView>,
    cx: bool,
    i: int,
)
    requires
        0 <= i < entries.len(),
    ensures
        ({
            let agent = |e: logger::EntryView|
                match json::member(e.raw, "agent_id"@) {
                    Some(json::JsonView::Str(id)) => id,
                    _ => Seq::<char>::empty(),
                };
            is_open_request(entries, cx, i) <==> {
                &&& cx == (entries[i].source == "cx"@)
                &&& entries[i].event_type == "PermissionRequest"@
                &&& forall|j: int|
                    #![trigger entries[j]]
                    i < j < entries.len() && entries[j].session_id == entries[i].session_id
                        && agent(entries[j]) == agent(entries[i]) ==> (entries[j].source == "cx"@)
                        != cx
            }
        }),
{
    reveal_strlit("");
    assert(""@ =~= Seq::<char>::empty());
    let agent = |e: logger::EntryView|
        match json::member(e.raw, "agent_id"@) {
            Some(json::JsonView::Str(id)) => id,
            _ => Seq::<char>::empty(),
        };
    assert forall|j: int| 0 <= j < entries.len() implies same_thread(
        entries[i],
        #[trigger] entries[j],
    ) == ((entries[j].source == "cx"@) == (entries[i].source == "cx"@) && entries[j].session_id
        == entries[i].session_id && agent(entries[j]) == agent(entries[i])) by {}
}

/// Entries of one session whose raw `agent_id` differ leave each other's requests alone: a request
/// that waits goes on waiting when the entry of the other comes, whatever its type.
pub proof fn law_other_agent_leaves_request_open(
    entries: Seq<logger::EntryView>,
    cx: bool,
    entry: logger::EntryView,
    i: int,
)
    requires
        is_open_request(entries, cx, i),
        ({
            let agent = |e: logger::EntryView|
                match json::member(e.raw, "agent_id"@) {
                    Some(json::JsonView::Str(id)) => id,
                    _ => Seq::<char>::empty(),
                };
            agent(entries[i]) != agent(entry)
        }),
    ensures
        is_open_request(entries.push(entry), cx, i),
        waiting_requests(entries.push(entry), true, cx) >= 1,
{
    reveal_strlit("");
    assert(""@ =~= Seq::<char>::empty());
    let after = entries.push(entry);
    law_later_entry_closes_request(entries, cx, entry, i);
    lemma_open_request_counts(after, cx, i, after.len() as int);
}

proof fn lemma_open_request_counts(entries: Seq<logger::EntryView>, cx: bool, i: int, n: int)
    requires
        is_open_request(entries, cx, i),
        i < n,
    ensures
        open_requests(entries, cx, n) >= 1,
    decreases n,
{
    if i < n - 1 {
        lemma_open_request_counts(entries, cx, i, n - 1);
    }
}

proof fn lemma_requests_after_entry(
    entries: Seq<logger::EntryView>,
    cx: bool,
    entry: logger::EntryView,
    n: int,
)
    requires
        0 <= n <= entries.len(),
    ensures
        open_requests(entries.push(entry), cx, n) + (if exists|i: int|
            0 <= i < n && #[trigger] is_open_request(entries, cx, i) && same_thread(
                entries[i],
                entry,
            ) {
            1nat
        } else {
            0nat
        }) == open_requests(entries, cx, n),
    decreases n,
{
    if n > 0 {
        lemma_requests_after_entry(entries, cx, entry, n - 1);
        law_later_entry_closes_request(entries, cx, entry, n - 1);
        if is_open_request(entries, cx, n - 1) && same_thread(entries[n - 1], entry) {
            assert forall|i: int| 0 <= i < n - 1 && #[trigger] is_open_request(
                entries,
                cx,
                i,
            ) implies !same_thread(entries[i], entry) by {
                law_one_open_request_per_thread(entries, cx, i, n - 1);
            }
        } else {
            assert forall|i: int|
                0 <= i < n && #[trigger] is_open_request(entries, cx, i) && same_thread(
                    entries[i],
                    entry,
                ) implies i < n - 1 by {}
        }
    }
}

/// How the number of waiting requests goes with each entry that comes. Nothing waits at first. An
/// entry of the other source changes nothing. One of this source takes away the request that its
/// own session and raw `agent_id` had open, if any, and is itself one more where it asks for
/// permission.
pub proof fn law_requests_are_counted_entry_by_entry(
    entries: Seq<logger::EntryView>,
    cx: bool,
    entry: logger::EntryView,
)
    ensures
        ({
            let agent = |e: logger::EntryView|
                match json::member(e.raw, "agent_id"@) {
                    Some(json::JsonView::Str(id)) => id,
                    _ => Seq::<char>::empty(),
                };
            let answered = exists|i: int|
                0 <= i < entries.len() && #[trigger] is_open_request(entries, cx, i)
                    && entries[i].session_id == entry.session_id && agent(entries[i]) == agent(
                    entry,
                );
            let before = waiting_requests(entries, true, cx) as int;
            let after = waiting_requests(entries.push(entry), true, cx) as int;
            let asks = entry.event_type == "PermissionRequest"@;
            &&& (entry.source == "cx"@) != cx ==> after == before
            &&& (entry.source == "cx"@) == cx && answered && asks ==> after == before
            &&& (entry.source == "cx"@) == cx && answered && !asks ==> after == before - 1
            &&& (entry.source == "cx"@) == cx && !answered && asks ==> after == before + 1
            &&& (entry.source == "cx"@) == cx && !answered && !asks ==> after == before
        }),
        waiting_requests(Seq::empty(), true, cx) == 0,
        waiting_requests(entries, false, cx) == 0,
{
    reveal_strlit("");
    assert(""@ =~= Seq::<char>::empty());
    let after = entries.push(entry);
    let n = entries.len() as int;
    let agent = |e: logger::EntryView|
        match json::member(e.raw, "agent_id"@) {
            Some(json::JsonView::Str(id)) => id,
            _ => Seq::<char>::empty(),
        };
    lemma_requests_after_entry(entries, cx, entry, n);
    assert(after[n] == entry);
    assert(is_open_request(after, cx, n) == (from_cx(entry) == cx && entry.event_type
        == "PermissionRequest"@));
    assert(open_requests(after, cx, n + 1) == open_requests(after, cx, n) + (if is_open_request(
        after,
        cx,
        n,
    ) {
        1nat
    } else {
        0nat
    }));
    assert forall|i: int| #[trigger] is_open_request(entries, cx, i) implies same_thread(
        entries[i],
        entry,
    ) == ((entry.source == "cx"@) == cx && entries[i].session_id == entry.session_id && agent(
        entries[i],
    ) == agent(entry)) by {}
    let closes = exists|i: int|
        0 <= i < n && #[trigger] is_open_request(entries, cx, i) && same_thread(entries[i], entry);
    let answered = exists|i: int|
        0 <= i < n && #[trigger] is_open_request(entries, cx, i) && entries[i].session_id
            == entry.session_id && agent(entries[i]) == agent(entry);
    if closes {
        let i = choose|i: int|
            0 <= i < n && #[trigger] is_open_request(entries, cx, i) && same_thread(
                entries[i],
                entry,
            );
        assert(is_open_request(entries, cx, i));
    }
    if answered && (entry.source == "cx"@) == cx {
        let i = choose|i: int|
            0 <= i < n && #[trigger] is_open_request(entries, cx, i) && entries[i].session_id
                == entry.session_id && agent(entries[i]) == agent(entry);
        assert(is_open_request(entries, cx, i) && same_thread(entries[i], entry));
    }
}

/// An agent does what its newest entry says, as long as that is not more than five minutes old. An
/// entry of the other source, one of a subagent, a change of the configuration and loaded
/// instructions say nothing: they leave the agent as it was seen without them.
pub proof fn law_newest_entry_tells_the_state(
    entries: Seq<logger::EntryView>,
    entry: logger::EntryView,
    on: bool,
    cx: bool,
    now: Now,
)
    ensures
        ({
            let tells = (entry.source == "cx"@) == cx && entry.event_type != "ConfigChange"@
                && entry.event_type != "InstructionsLoaded"@ && !(json::member(
                entry.raw,
                "agent_type"@,
            ) matches Some(json::JsonView::Str(_)));
            let fresh = clock::is_fresh(entry.timestamp, now, 300);
            let state = seen_state(entries.push(entry), on, cx, now);
            let asks = asks_user(entries.push(entry), on, cx, now);
            &&& !tells ==> state == seen_state(entries, on, cx, now) && asks == asks_user(
                entries,
                on,
                cx,
                now,
            )
            &&& tells && on && fresh ==> state == cat::state_of(entry.event_type)
            &&& tells && on && fresh ==> asks == (entry.event_type == "Notification"@
                && json::member(entry.raw, "notification_type"@) == Some(
                json::JsonView::Str("elicitation_dialog"@),
            ))
            &&& tells && !(on && fresh) ==> state == ClaudeState::Offline && !asks
        }),
        seen_state(Seq::empty(), on, cx, now) == ClaudeState::Offline,
        !asks_user(Seq::empty(), on, cx, now),
{
    let after = entries.push(entry);
    assert(after.drop_last() =~= entries);
    assert(after.last() == entry);
    lemma_telling_is_inside(entries, cx);
}

proof fn lemma_telling_is_inside(entries: Seq<logger::EntryView>, cx: bool)
    ensures
        last_telling(entries, cx) matches Some(i) ==> 0 <= i < entries.len(),
    decreases entries.len(),
{
    if entries.len() > 0 {
        lemma_telling_is_inside(entries.drop_last(), cx);
    }
}

/// An agent was at work exactly if one of its entries that were not seen before says so: the agent
/// is shown, the entry is its own and of a type that tells of work.
pub proof fn law_activity_is_noticed(
    entries: Seq<logger::EntryView>,
    entry: logger::EntryView,
    seen: Option<Seq<char>>,
    on: bool,
    cx: bool,
)
    ensures
        was_active(entries.push(entry), seen, on, cx) <==> was_active(entries, seen, on, cx) || {
            &&& on
            &&& seen matches Some(t) ==> text::precedes(t, entry.timestamp)
            &&& (entry.source == "cx"@) == cx
            &&& entry.event_type != "ConfigChange"@
            &&& entry.event_type != "InstructionsLoaded"@
            &&& !(json::member(entry.raw, "agent_type"@) matches Some(json::JsonView::Str(_)))
            &&& cat::state_of(entry.event_type) == ClaudeState::Active
        },
        !was_active(Seq::empty(), seen, on, cx),
{
    let after = entries.push(entry);
    assert(after[entries.len() as int] == entry);
    if was_active(entries, seen, on, cx) {
        let i = choose|i: int|
            0 <= i < entries.len() && shows_activity(#[trigger] entries[i], seen, on, cx);
        assert(after[i] == entries[i]);
    }
    if was_active(after, seen, on, cx) {
        let i = choose|i: int|
            0 <= i < after.len() && shows_activity(#[trigger] after[i], seen, on, cx);
        if i < entries.len() {
            assert(entries[i] == after[i]);
        }
    }
}

/// A subagent is known by the `agent_id` of its entries, and by their `call_id` only where they
/// have no `agent_id` at all. Codex's are marked, so that their small cats are told from the
/// others.
pub proof fn law_subagent_identity(entry: logger::EntryView, id: Seq<char>)
    ensures
        entry.source != "cx"@ && json::member(entry.raw, "agent_id"@) == Some(
            json::JsonView::Str(id),
        ) ==> subagent_of(entry) == Some(id),
        entry.source == "cx"@ && json::member(entry.raw, "agent_id"@) == Some(
            json::JsonView::Str(id),
        ) ==> subagent_of(entry) == Some("cx:"@ + id),
        entry.source != "cx"@ && json::member(entry.raw, "agent_id"@) is None && json::member(
            entry.raw,
            "call_id"@,
        ) == Some(json::JsonView::Str(id)) ==> subagent_of(entry) == Some(id),
        entry.source == "cx"@ && json::member(entry.raw, "agent_id"@) is None && json::member(
            entry.raw,
            "call_id"@,
        ) == Some(json::JsonView::Str(id)) ==> subagent_of(entry) == Some("cx:"@ + id),
        json::member(entry.raw, "agent_id"@) is Some && json::member_string(
            entry.raw,
            "agent_id"@,
        ) is None ==> subagent_of(entry) is None,
        json::member(entry.raw, "agent_id"@) is None && json::member_string(
            entry.raw,
            "call_id"@,
        ) is None ==> subagent_of(entry) is None,
{
}

/// The small cat of a Codex subagent counts as Codex's.
pub proof fn law_codex_subagent_has_a_codex_cat(entry: logger::EntryView, cat: cat::CatView)
    requires
        entry.source == "cx"@,
        subagent_of(entry) == Some(cat.id),
    ensures
        cat.is_codex(),
{
    let id = named_agent(entry)->0;
    assert(("cx:"@ + id).subrange(0, "cx:"@.len() as int) =~= "cx:"@);
}

/// What an entry makes of the subagents. One of an agent that is hidden, one that was seen before
/// and one that tells of no start or stop makes nothing of them. A start adds a subagent that is
/// not at work yet, and changes nothing for one that is. A stop takes it away and sends its
/// small cat home.
pub proof fn law_subagents_follow_each_entry(
    known: Set<Seq<char>>,
    entries: Seq<logger::EntryView>,
    entry: logger::EntryView,
    seen: Option<Seq<char>>,
    cc_on: bool,
    cx_on: bool,
    id: Seq<char>,
)
    requires
        subagent_of(entry) == Some(id),
    ensures
        ({
            let before = lifecycle(known, entries, seen, cc_on, cx_on);
            let after = lifecycle(known, entries.push(entry), seen, cc_on, cx_on);
            let shown = if entry.source == "cx"@ {
                cx_on
            } else {
                cc_on
            };
            let new = seen is Some && text::precedes(seen->0, entry.timestamp);
            let counts = shown && new;
            let starts = entry.event_type == "SubagentStart"@;
            let stops = entry.event_type == "SubagentStop"@;
            &&& !counts || !(starts || stops) ==> after == before
            &&& counts && starts && (before.known.contains(id) || id.len() == 0) ==> after == before
            &&& counts && starts && !before.known.contains(id) && id.len() > 0 ==> {
                &&& after.known == before.known.insert(id)
                &&& after.started == before.started.push(id)
                &&& after.stopped == before.stopped
            }
            &&& counts && stops ==> {
                &&& after.known == before.known.remove(id)
                &&& after.started == before.started
                &&& after.stopped == before.stopped.insert(id)
            }
        }),
        lifecycle(known, Seq::empty(), seen, cc_on, cx_on).known == known,
        lifecycle(known, Seq::empty(), seen, cc_on, cx_on).started.len() == 0,
        !lifecycle(known, Seq::empty(), seen, cc_on, cx_on).stopped.contains(id),
{
    events::lemma_type_names();
    assert(entries.push(entry).drop_last() =~= entries);
    assert(entries.push(entry).last() == entry);
}

/// An entry that names no subagent makes nothing of them.
pub proof fn law_unnamed_entry_changes_no_subagent(
    known: Set<Seq<char>>,
    entries: Seq<logger::EntryView>,
    entry: logger::EntryView,
    seen: Option<Seq<char>>,
    cc_on: bool,
    cx_on: bool,
)
    requires
        json::member_string(entry.raw, "agent_id"@) is None,
        json::member_string(entry.raw, "call_id"@) is None,
    ensures
        lifecycle(known, entries.push(entry), seen, cc_on, cx_on) == lifecycle(
            known,
            entries,
            seen,
            cc_on,
            cx_on,
        ),
{
    assert(entries.push(entry).drop_last() =~= entries);
    assert(entries.push(entry).last() == entry);
}

/// A cat shows how many requests wait. When its agent asks something, it says so for eight
/// seconds; a poll that finds no question leaves an earlier notice as it is. Nothing else of the
/// cat changes by that.
pub proof fn law_cat_tells_what_waits(
    cat: cat::CatView,
    entries: Seq<logger::EntryView>,
    on: bool,
    cx: bool,
    now: Now,
    at: u64,
)
    requires
        now.monotonic + 8_000_000_000 <= u64::MAX,
        entries.len() <= usize::MAX,
    ensures
        ({
            let next = told(cat, entries, on, cx, now);
            &&& next.pending_permission_count == waiting_requests(entries, on, cx)
            &&& asks_user(entries, on, cx, now) && at < now.monotonic + 8_000_000_000
                ==> next.notice_at(at) == Some("等你回答"@)
            &&& asks_user(entries, on, cx, now) && at >= now.monotonic + 8_000_000_000
                ==> next.notice_at(at) is None
            &&& !asks_user(entries, on, cx, now) ==> next.notice_at(at) == cat.notice_at(at)
            &&& next.state == cat.state
            &&& next.claude_state == cat.claude_state
            &&& next.transition_anim == cat.transition_anim
            &&& next.pending_state == cat.pending_state
            &&& next.moving_right == cat.moving_right
            &&& next.id == cat.id
        }),
{
    lemma_waiting_at_most_entries(entries, cx, entries.len() as int);
}

proof fn lemma_waiting_at_most_entries(entries: Seq<logger::EntryView>, cx: bool, n: int)
    requires
        0 <= n,
    ensures
        open_requests(entries, cx, n) <= n,
    decreases n,
{
    if n > 0 {
        lemma_waiting_at_most_entries(entries, cx, n - 1);
    }
}

/// After a poll each big cat that was in no transition is in the state in which its own agent is
/// seen, and every one shows how many requests of its own agent wait. A cat whose agent does what
/// it did, and was not at work meanwhile, goes on with its animation.
pub proof fn law_poll_shows_both_agents(
    main: cat::CatView,
    cx_main: cat::CatView,
    entries: Seq<logger::EntryView>,
    seen: Option<Seq<char>>,
    cc_on: bool,
    cx_on: bool,
    now: Now,
    next: cat::CatView,
    cx_next: cat::CatView,
)
    requires
        main.big_wf(),
        cx_main.big_wf(),
        followed(main, cx_main, entries, seen, cc_on, cx_on, now, next, cx_next),
        entries.len() <= usize::MAX,
    ensures
        next.pending_permission_count == waiting_requests(entries, cc_on, false),
        cx_next.pending_permission_count == waiting_requests(entries, cx_on, true),
        main.transition_anim is None ==> next.claude_state == seen_state(
            entries,
            cc_on,
            false,
            now,
        ),
        cx_main.transition_anim is None ==> cx_next.claude_state == seen_state(
            entries,
            cx_on,
            true,
            now,
        ),
        main.claude_state == seen_state(entries, cc_on, false, now) && !was_active(
            entries,
            seen,
            cc_on,
            false,
        ) ==> next.state == main.state,
        cx_main.claude_state == seen_state(entries, cx_on, true, now) && !was_active(
            entries,
            seen,
            cx_on,
            true,
        ) ==> cx_next.state == cx_main.state,
        entries.len() > 0 && seen == Some(entries.last().timestamp) && main.claude_state
            == seen_state(entries, cc_on, false, now) && cx_main.claude_state == seen_state(
            entries,
            cx_on,
            true,
            now,
        ) ==> next.state == main.state && cx_next.state == cx_main.state,
        entries.len() > 0 && seen != Some(entries.last().timestamp) ==> told(
            main,
            entries,
            cc_on,
            false,
            now,
        ).reacted(
            seen_state(entries, cc_on, false, now),
            was_active(entries, seen, cc_on, false),
            next,
        ) && told(cx_main, entries, cx_on, true, now).reacted(
            seen_state(entries, cx_on, true, now),
            was_active(entries, seen, cx_on, true),
            cx_next,
        ),
{
    reveal(cat::CatView::reacted);
    lemma_waiting_at_most_entries(entries, false, entries.len() as int);
    lemma_waiting_at_most_entries(entries, true, entries.len() as int);
}

/// A log is looked at up to its last entry.
pub proof fn law_log_is_seen_to_its_end(
    entries: Seq<logger::EntryView>,
    entry: logger::EntryView,
)
    ensures
        last_time(entries.push(entry)) == Some(entry.timestamp),
        last_time(Seq::empty()) is None,
{
}

/// A small cat leaves exactly when it is on its way home and there; the others stay, in their
/// order.
pub proof fn law_small_cats_leave_at_home(
    cats: Seq<CatEntity>,
    arrived: Seq<bool>,
    cat: CatEntity,
    there: bool,
)
    requires
        cats.len() == arrived.len(),
    ensures
        staying(cats.push(cat), arrived.push(there), cats.len() as int + 1) == (if cat.returning
            && there {
            staying(cats, arrived, cats.len() as int)
        } else {
            staying(cats, arrived, cats.len() as int).push(cat)
        }),
        staying(Seq::empty(), Seq::empty(), 0).len() == 0,
{
    lemma_staying_by_start(cats, arrived, cats.push(cat), arrived.push(there), cats.len() as int);
}

proof fn lemma_staying_by_start(
    cats: Seq<CatEntity>,
    arrived: Seq<bool>,
    more: Seq<CatEntity>,
    more_arrived: Seq<bool>,
    n: int,
)
    requires
        n <= cats.len() <= more.len(),
        n <= arrived.len(),
        n <= more_arrived.len(),
        forall|i: int| 0 <= i < n ==> cats[i] == more[i] && arrived[i] == more_arrived[i],
    ensures
        staying(cats, arrived, n) == staying(more, more_arrived, n),
    decreases n,
{
    if n > 0 {
        assert(cats[n - 1] == more[n - 1] && arrived[n - 1] == more_arrived[n - 1]);
        lemma_staying_by_start(cats, arrived, more, more_arrived, n - 1);
    }
}

/// A cat that is sent home is on its way; one that is not is as it was.
pub proof fn law_sent_home_is_on_its_way(cat: cat::CatView)
    ensures
        sent_home(cat, true).returning,
        sent_home(cat, false) == cat,
        sent_home(cat, true) == (cat::CatView { returning: true, ..cat }),
{
}

/// A made-up subagent stops where it is at work and starts where it is not; its line names it by
/// its number twice, and else only says when.
pub proof fn law_made_up_subagent(timestamp: Seq<char>, number: nat)
    ensures
        ({
            let head = "{\"timestamp\":\""@ + timestamp + "\",\"event_type\":\""@;
            let n = text::decimal(number);
            let rest = "\",\"session_id\":\"debug\",\"summary\":\"debug subagent "@ + n
                + "\",\"raw\":{\"agent_id\":\"debug-agent-"@ + n + "\"}}\n"@;
            &&& debug_line(true, timestamp, number) == head + "SubagentStop"@ + rest
            &&& debug_line(false, timestamp, number) == head + "SubagentStart"@ + rest
        }),
{
    let head = "{\"timestamp\":\""@ + timestamp + "\",\"event_type\":\""@;
    let n = text::decimal(number);
    let rest = "\",\"session_id\":\"debug\",\"summary\":\"debug subagent "@ + n
        + "\",\"raw\":{\"agent_id\":\"debug-agent-"@ + n + "\"}}\n"@;
    assert(debug_line(true, timestamp, number) =~= head + "SubagentStop"@ + rest);
    assert(debug_line(false, timestamp, number) =~= head + "SubagentStart"@ + rest);
}

/// A poll sends home exactly the small cats whose subagents have stopped, keeps all of them, and
/// remembers the subagents that the log leaves at work.
pub proof fn law_poll_sends_home_what_stopped(
    before: CatColony,
    entries: Seq<logger::EntryView>,
    cc_on: bool,
    cx_on: bool,
    after: CatColony,
    started: Seq<Seq<char>>,
    j: int,
    id: Seq<char>,
)
    requires
        subagents_followed(before, entries, cc_on, cx_on, after, started),
    ensures
        ({
            let l = lifecycle(
                text::views(before.known_subagents@).to_set(),
                entries,
                text::string_view(before.last_event_time),
                cc_on,
                cx_on,
            );
            &&& started == l.started
            &&& text::views(after.known_subagents@).contains(id) <==> l.known.contains(id)
            &&& after.mini_cats@.len() == before.mini_cats@.len()
            &&& 0 <= j < before.mini_cats@.len() ==> {
                let (old_cat, new_cat) = (before.mini_cats@[j]@, after.mini_cats@[j]@);
                &&& new_cat.returning <==> old_cat.returning || l.stopped.contains(old_cat.id)
                &&& new_cat.id == old_cat.id
                &&& new_cat.state == old_cat.state
                &&& new_cat.moving_right == old_cat.moving_right
            }
        }),
{
    assert(text::views(after.known_subagents@).to_set().contains(id) == text::views(
        after.known_subagents@,
    ).contains(id));
}

/// A small cat comes into the world at work, walking or running, for three to seven rounds, and on
/// no way home.
pub proof fn law_newborn_cat_is_at_work(cat: cat::CatView, id: Seq<char>, now: u64)
    requires
        is_newborn(cat, id, now),
    ensures
        cat.mini_wf(),
        cat.is_mini,
        cat.id == id,
        cat.state.current_anim == 0 || cat.state.current_anim == 1,
        3 <= cat.state.max_loops <= 7,
        cat.claude_state == ClaudeState::Active,
        cat.spawn_time == now,
        !cat.returning,
        !cat.after_timeout(now).returning,
{
}

} // verus!
