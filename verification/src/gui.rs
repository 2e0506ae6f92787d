//! What the monitor window holds and shows.

use vstd::prelude::*;

use crate::events;
use crate::events::HookEvent;
use crate::i18n;
use crate::i18n::{event_type_label, AppLanguage};
use crate::installer;
use crate::logger;
use crate::logger::LogEntry;
use crate::tail;
use crate::tail::{clock_time, should_show, TYPE_WIDTH};
use crate::text;
use crate::text::{concat3, pad_left, same_text};

verus! {

/// A colour.
#[derive(Clone, Copy, PartialEq, Eq, Debug, Structural)]
pub struct Rgb {
    pub r: u8,
    pub g: u8,
    pub b: u8,
}

/// A colour of three shares.
pub open spec fn rgb(r: u8, g: u8, b: u8) -> Rgb {
    Rgb { r, g, b }
}

fn make_rgb(r: u8, g: u8, b: u8) -> (c: Rgb)
    ensures
        c == rgb(r, g, b),
{
    Rgb { r, g, b }
}

/// The colour of an event type.
pub open spec fn color_of(event_type: Seq<char>) -> Rgb {
    if event_type == "SessionStart"@ || event_type == "UserPromptSubmit"@ || event_type == "TaskCompleted"@ {
        rgb(80, 200, 80)
    } else if event_type == "SessionEnd"@ || event_type == "PostToolUseFailure"@ || event_type == "Stop"@ {
        rgb(220, 60, 60)
    } else if event_type == "PreToolUse"@ || event_type == "WorktreeCreate"@ || event_type == "WorktreeRemove"@ || event_type == "api_request"@ || event_type == "tool_decision"@ {
        rgb(80, 200, 220)
    } else if event_type == "PostToolUse"@ || event_type == "tool_result"@ {
        rgb(80, 130, 220)
    } else if event_type == "PermissionRequest"@ {
        rgb(240, 200, 40)
    } else if event_type == "Notification"@ || event_type == "TeammateIdle"@ || event_type == "ConfigChange"@ {
        rgb(220, 180, 40)
    } else if event_type == "SubagentStart"@ || event_type == "SubagentStop"@ {
        rgb(180, 80, 220)
    } else if event_type == "InstructionsLoaded"@ || event_type == "PreCompact"@ || event_type == "sse_event"@ {
        rgb(160, 160, 160)
    } else {
        rgb(200, 200, 200)
    }
}

/// The colour of an event type.
pub fn event_color(event_type: &str) -> (r: Rgb)
    ensures
        r == color_of(event_type@),
{
    if same_text(event_type, "SessionStart") || same_text(event_type, "UserPromptSubmit") || same_text(event_type, "TaskCompleted") {
        make_rgb(80, 200, 80)
    } else if same_text(event_type, "SessionEnd") || same_text(event_type, "PostToolUseFailure") || same_text(event_type, "Stop") {
        make_rgb(220, 60, 60)
    } else if same_text(event_type, "PreToolUse") || same_text(event_type, "WorktreeCreate") || same_text(event_type, "WorktreeRemove") || same_text(event_type, "api_request") || same_text(event_type, "tool_decision") {
        make_rgb(80, 200, 220)
    } else if same_text(event_type, "PostToolUse") || same_text(event_type, "tool_result") {
        make_rgb(80, 130, 220)
    } else if same_text(event_type, "PermissionRequest") {
        make_rgb(240, 200, 40)
    } else if same_text(event_type, "Notification") || same_text(event_type, "TeammateIdle") || same_text(event_type, "ConfigChange") {
        make_rgb(220, 180, 40)
    } else if same_text(event_type, "SubagentStart") || same_text(event_type, "SubagentStop") {
        make_rgb(180, 80, 220)
    } else if same_text(event_type, "InstructionsLoaded") || same_text(event_type, "PreCompact") || same_text(event_type, "sse_event") {
        make_rgb(160, 160, 160)
    } else {
        make_rgb(200, 200, 200)
    }
}

/// The event types that can be chosen, with all of them first.
pub open spec fn choices() -> Seq<Seq<char>> {
    seq![
        "All"@,
        "SessionStart"@,
        "SessionEnd"@,
        "UserPromptSubmit"@,
        "InstructionsLoaded"@,
        "PreToolUse"@,
        "PostToolUse"@,
        "PostToolUseFailure"@,
        "PermissionRequest"@,
        "Notification"@,
        "SubagentStart"@,
        "SubagentStop"@,
        "Stop"@,
        "TeammateIdle"@,
        "TaskCompleted"@,
        "ConfigChange"@,
        "WorktreeCreate"@,
        "WorktreeRemove"@,
        "PreCompact"@,
        "api_request"@,
        "tool_decision"@,
        "tool_result"@,
        "sse_event"@,
    ]
}

/// The event types that can be chosen.
pub fn event_types() -> (r: Vec<&'static str>)
    ensures
        r@.map_values(|t: &'static str| t@) == choices(),
{
    let types: Vec<&'static str> = vec![
        "All",
        "SessionStart",
        "SessionEnd",
        "UserPromptSubmit",
        "InstructionsLoaded",
        "PreToolUse",
        "PostToolUse",
        "PostToolUseFailure",
        "PermissionRequest",
        "Notification",
        "SubagentStart",
        "SubagentStop",
        "Stop",
        "TeammateIdle",
        "TaskCompleted",
        "ConfigChange",
        "WorktreeCreate",
        "WorktreeRemove",
        "PreCompact",
        "api_request",
        "tool_decision",
        "tool_result",
        "sse_event",
    ];
    proof {
        assert(types@.map_values(|t: &'static str| t@) =~= choices());
    }
    types
}

/// The name under which an event type is shown.
pub fn event_display_name(language: AppLanguage, event_name: &str) -> (r: String)
    ensures
        r@ == i18n::label_of(language, event_name@),
{
    event_type_label(language, event_name)
}

// ---------------------------------------------------------------------------
// The entries of the window
// ---------------------------------------------------------------------------

/// The entries that the window holds at most.
pub const KEPT_ENTRIES: usize = 2000;

/// The lines of the log that are read when the window opens.
pub const HISTORY_LINES: usize = 50;

/// The last `KEPT_ENTRIES` entries.
pub open spec fn kept(entries: Seq<logger::EntryView>) -> Seq<logger::EntryView> {
    if entries.len() > KEPT_ENTRIES {
        entries.skip(entries.len() - KEPT_ENTRIES)
    } else {
        entries
    }
}

/// What the window shows: its entries, the chosen event type and whether it follows new entries.
#[derive(Debug)]
pub struct MonitorApp {
    pub entries: Vec<LogEntry>,
    pub selected_filter: String,
    pub auto_scroll: bool,
}

/// An entry is of the chosen type.
pub open spec fn selected(entry: logger::EntryView, filter: Seq<char>) -> bool {
    filter == "All"@ || entry.event_type == filter
}

/// The positions of the entries of the chosen type.
pub open spec fn selection(entries: Seq<logger::EntryView>, filter: Seq<char>) -> Seq<int>
    decreases entries.len(),
{
    if entries.len() == 0 {
        seq![]
    } else {
        let before = selection(entries.drop_last(), filter);
        if selected(entries.last(), filter) {
            before.push(entries.len() - 1)
        } else {
            before
        }
    }
}

/// The entries with one of the log as it was when the window opened, where it passes a filter.
pub open spec fn loaded(
    entries: Seq<logger::EntryView>,
    entry: logger::EntryView,
    filter: Option<Seq<char>>,
) -> Seq<logger::EntryView> {
    if tail::shown(entry.event_type, filter) {
        entries.push(entry)
    } else {
        entries
    }
}

/// The entries with a new one, where it passes a filter.
pub open spec fn received(
    entries: Seq<logger::EntryView>,
    entry: logger::EntryView,
    filter: Option<Seq<char>>,
) -> Seq<logger::EntryView> {
    if tail::shown(entry.event_type, filter) {
        kept(entries.push(entry))
    } else {
        entries
    }
}

impl MonitorApp {
    /// The entries.
    pub open spec fn log(self) -> Seq<logger::EntryView> {
        logger::entry_views(self.entries@)
    }

    /// An empty window that shows every type and follows new entries.
    pub fn new() -> (r: MonitorApp)
        ensures
            r.log() == Seq::<logger::EntryView>::empty(),
            r.selected_filter@ == "All"@,
            r.auto_scroll,
    {
        let app = MonitorApp {
            entries: Vec::new(),
            selected_filter: "All".to_owned(),
            auto_scroll: true,
        };
        proof {
            assert(app.log() =~= Seq::<logger::EntryView>::empty());
        }
        app
    }

    /// Takes an entry of the log as it was when the window opened.
    pub fn load(&mut self, entry: LogEntry, filter: Option<&str>)
        ensures
            final(self).log() == loaded(old(self).log(), entry@, text::text_view(filter)),
            final(self).selected_filter == old(self).selected_filter,
            final(self).auto_scroll == old(self).auto_scroll,
    {
        if should_show(&entry, filter) {
            self.entries.push(entry);
            proof {
                assert(self.log() =~= old(self).log().push(entry@));
            }
        }
    }

    /// Takes a new entry, and lets the oldest ones go where there are too many.
    pub fn receive(&mut self, entry: LogEntry, filter: Option<&str>)
        ensures
            final(self).log() == received(old(self).log(), entry@, text::text_view(filter)),
            final(self).selected_filter == old(self).selected_filter,
            final(self).auto_scroll == old(self).auto_scroll,
    {
        if should_show(&entry, filter) {
            self.entries.push(entry);
            let ghost all = self.log();
            proof {
                assert(all =~= old(self).log().push(entry@));
            }
            let len = self.entries.len();
            if len > KEPT_ENTRIES {
                let rest = self.entries.split_off(len - KEPT_ENTRIES);
                self.entries = rest;
                proof {
                    assert(self.log() =~= all.skip(len - KEPT_ENTRIES));
                }
            }
        }
    }

    /// Lets all entries go.
    pub fn clear(&mut self)
        ensures
            final(self).log() == Seq::<logger::EntryView>::empty(),
            final(self).selected_filter == old(self).selected_filter,
            final(self).auto_scroll == old(self).auto_scroll,
    {
        self.entries.clear();
        proof {
            assert(self.log() =~= Seq::<logger::EntryView>::empty());
        }
    }

    /// The positions of the entries that are shown.
    pub fn filtered(&self) -> (r: Vec<usize>)
        ensures
            r@.map_values(|i: usize| i as int) == selection(self.log(), self.selected_filter@),
    {
        let filter = self.selected_filter.as_str();
        let every = same_text(filter, "All");
        let ghost log = self.log();
        let mut out: Vec<usize> = Vec::new();
        let total = self.entries.len();
        let mut i: usize = 0;
        proof {
            assert(log.take(0) =~= Seq::<logger::EntryView>::empty());
            assert(out@.map_values(|i: usize| i as int) =~= Seq::<int>::empty());
        }
        while i < total
            invariant
                i <= total,
                total == self.entries@.len(),
                log == self.log(),
                filter@ == self.selected_filter@,
                every == (filter@ == "All"@),
                out@.map_values(|i: usize| i as int) == selection(log.take(i as int), filter@),
            decreases total - i,
        {
            let ghost before = out@;
            proof {
                assert(log.take(i as int + 1).drop_last() =~= log.take(i as int));
                assert(log.take(i as int + 1).last() == self.entries@[i as int]@);
            }
            if every || same_text(self.entries[i].event_type.as_str(), filter) {
                out.push(i);
                proof {
                    assert(out@.map_values(|i: usize| i as int) =~= before.map_values(
                        |i: usize| i as int,
                    ).push(i as int));
                }
            }
            i += 1;
        }
        proof {
            assert(log.take(total as int) =~= log);
        }
        out
    }
}

/// After a new entry the window holds no more than its limit, and the new entry comes last.
pub proof fn law_window_stays_bounded(entries: Seq<logger::EntryView>)
    ensures
        kept(entries).len() <= KEPT_ENTRIES,
        kept(kept(entries)) == kept(entries),
        entries.len() > 0 ==> kept(entries).len() > 0 && kept(entries).last() == entries.last(),
{
}

/// The entries that are shown are those of the chosen type, each once and in the order of the log.
pub proof fn law_selection_is_the_chosen_type(entries: Seq<logger::EntryView>, filter: Seq<char>)
    ensures
        forall|k: int|
            0 <= k < selection(entries, filter).len() ==> {
                let i = #[trigger] selection(entries, filter)[k];
                0 <= i < entries.len() && selected(entries[i], filter)
            },
        forall|k: int, m: int|
            0 <= k < m < selection(entries, filter).len() ==> (#[trigger] selection(
                entries,
                filter,
            )[k]) < (#[trigger] selection(entries, filter)[m]),
        forall|i: int|
            0 <= i < entries.len() && selected(#[trigger] entries[i], filter) ==> selection(
                entries,
                filter,
            ).contains(i),
    decreases entries.len(),
{
    let s = selection(entries, filter);
    if entries.len() > 0 {
        let front = entries.drop_last();
        let before = selection(front, filter);
        law_selection_is_the_chosen_type(front, filter);
        assert forall|k: int| 0 <= k < s.len() implies {
            let i = #[trigger] s[k];
            0 <= i < entries.len() && selected(entries[i], filter)
        } by {
            if k < before.len() {
                let i = before[k];
                assert(front[i] == entries[i]);
            }
        }
        assert forall|i: int| 0 <= i < entries.len() && selected(
            #[trigger] entries[i],
            filter,
        ) implies s.contains(i) by {
            if i < front.len() {
                assert(front[i] == entries[i]);
                let k = choose|k: int| 0 <= k < before.len() && before[k] == i;
                assert(s[k] == i);
            } else {
                assert(s[s.len() - 1] == i);
            }
        }
    }
}

// ---------------------------------------------------------------------------
// Rows
// ---------------------------------------------------------------------------

/// What a row shows, from left to right.
#[derive(Debug)]
pub struct MonitorRow {
    pub time: String,
    pub source: &'static str,
    pub source_color: Rgb,
    pub event_type: String,
    pub event_color: Rgb,
    pub tool: Option<String>,
    pub summary: String,
}

/// What a row shows.
#[verifier::ext_equal]
pub struct RowView {
    pub time: Seq<char>,
    pub source: Seq<char>,
    pub source_color: Rgb,
    pub event_type: Seq<char>,
    pub event_color: Rgb,
    pub tool: Option<Seq<char>>,
    pub summary: Seq<char>,
}

impl View for MonitorRow {
    type V = RowView;

    open spec fn view(&self) -> RowView {
        RowView {
            time: self.time@,
            source: self.source@,
            source_color: self.source_color,
            event_type: self.event_type@,
            event_color: self.event_color,
            tool: text::string_view(self.tool),
            summary: self.summary@,
        }
    }
}

/// The row of an entry.
pub open spec fn row_of(entry: logger::EntryView) -> RowView {
    RowView {
        time: tail::time_of_day(entry.timestamp),
        source: if entry.source == "cx"@ {
            "CX"@
        } else {
            "CC"@
        },
        source_color: if entry.source == "cx"@ {
            rgb(200, 100, 220)
        } else {
            rgb(80, 200, 220)
        },
        event_type: text::padded_left(entry.event_type, TYPE_WIDTH as nat),
        event_color: color_of(entry.event_type),
        tool: match entry.tool_name {
            Some(name) => Some("["@ + name + "]"@),
            None => None,
        },
        summary: entry.summary,
    }
}

/// The row of an entry.
pub fn monitor_row(entry: &LogEntry) -> (r: MonitorRow)
    requires
        tail::time_is_apart(entry@.timestamp),
    ensures
        r@ == row_of(entry@),
{
    let event_type = entry.event_type.as_str();
    let codex = same_text(entry.source.as_str(), "cx");
    let source = if codex {
        "CX"
    } else {
        "CC"
    };
    MonitorRow {
        time: clock_time(entry.timestamp.as_str()).to_owned(),
        source,
        source_color: if codex {
            make_rgb(200, 100, 220)
        } else {
            make_rgb(80, 200, 220)
        },
        event_type: pad_left(event_type, TYPE_WIDTH),
        event_color: event_color(event_type),
        tool: match &entry.tool_name {
            Some(name) => Some(concat3("[", name.as_str(), "]")),
            None => None,
        },
        summary: entry.summary.as_str().to_owned(),
    }
}

// ---------------------------------------------------------------------------
// Laws
// ---------------------------------------------------------------------------

/// Which event types share a colour: what begins or is done is green, what ends or fails red, what
/// a tool is about to do cyan, what it has done blue, what wants attention yellow, subagents violet
/// and what only informs grey; any other type is light grey.
pub proof fn law_colours_by_type(t: Seq<char>)
    ensures
        color_of(t) == (Rgb { r: 80, g: 200, b: 80 }) <==> t == "SessionStart"@ || t
            == "UserPromptSubmit"@ || t == "TaskCompleted"@,
        color_of(t) == (Rgb { r: 220, g: 60, b: 60 }) <==> t == "SessionEnd"@ || t
            == "PostToolUseFailure"@ || t == "Stop"@,
        color_of(t) == (Rgb { r: 80, g: 200, b: 220 }) <==> t == "PreToolUse"@ || t
            == "WorktreeCreate"@ || t == "WorktreeRemove"@ || t == "api_request"@ || t
            == "tool_decision"@,
        color_of(t) == (Rgb { r: 80, g: 130, b: 220 }) <==> t == "PostToolUse"@ || t
            == "tool_result"@,
        color_of(t) == (Rgb { r: 240, g: 200, b: 40 }) <==> t == "PermissionRequest"@,
        color_of(t) == (Rgb { r: 220, g: 180, b: 40 }) <==> t == "Notification"@ || t
            == "TeammateIdle"@ || t == "ConfigChange"@,
        color_of(t) == (Rgb { r: 180, g: 80, b: 220 }) <==> t == "SubagentStart"@ || t
            == "SubagentStop"@,
        color_of(t) == (Rgb { r: 160, g: 160, b: 160 }) <==> t == "InstructionsLoaded"@ || t
            == "PreCompact"@ || t == "sse_event"@,
        !choices().contains(t) ==> color_of(t) == (Rgb { r: 200, g: 200, b: 200 }),
{
    events::lemma_type_names();
    lemma_choices();
}

/// The choices, one by one.
pub proof fn lemma_choices()
    ensures
        ({
            let all = choices();
            &&& all[0] == "All"@ && all[1] == "SessionStart"@ && all[2] == "SessionEnd"@
            &&& all[3] == "UserPromptSubmit"@ && all[4] == "InstructionsLoaded"@
            &&& all[5] == "PreToolUse"@ && all[6] == "PostToolUse"@
            &&& all[7] == "PostToolUseFailure"@ && all[8] == "PermissionRequest"@
            &&& all[9] == "Notification"@ && all[10] == "SubagentStart"@
            &&& all[11] == "SubagentStop"@ && all[12] == "Stop"@ && all[13] == "TeammateIdle"@
            &&& all[14] == "TaskCompleted"@ && all[15] == "ConfigChange"@
            &&& all[16] == "WorktreeCreate"@ && all[17] == "WorktreeRemove"@
            &&& all[18] == "PreCompact"@ && all[19] == "api_request"@
            &&& all[20] == "tool_decision"@ && all[21] == "tool_result"@ && all[22] == "sse_event"@
        }),
        choices().len() == 23,
{
}

/// Every event of the hooks and every type of the telemetry can be chosen, once; so can all of them
/// together, which comes first. There is no other choice.
pub proof fn law_every_type_can_be_chosen(t: Seq<char>)
    ensures
        choices()[0] == "All"@,
        choices().no_duplicates(),
        choices().contains(t) <==> t == "All"@ || t == "api_request"@ || t == "tool_decision"@ || t
            == "tool_result"@ || t == "sse_event"@ || exists|event: HookEvent|
            #[trigger] events::event_name(event) == t,
        forall|event: HookEvent| choices().contains(#[trigger] events::event_name(event)),
{
    events::lemma_type_names();
    lemma_choices();
    installer::law_hooks_are_for_the_events(t, t);
}

/// The window holds the newest 2000 entries, in their order.
pub proof fn law_window_holds_the_newest(entries: Seq<logger::EntryView>, i: int)
    ensures
        entries.len() <= 2000 ==> kept(entries) == entries,
        entries.len() > 2000 ==> kept(entries).len() == 2000,
        entries.len() > 2000 && 0 <= i < 2000 ==> kept(entries)[i] == entries[entries.len() - 2000
            + i],
        HISTORY_LINES == 50,
{
}

/// An entry is shown exactly if all types are, or its own type is the chosen one.
pub proof fn law_chosen_type_is_shown(
    entries: Seq<logger::EntryView>,
    entry: logger::EntryView,
    filter: Seq<char>,
)
    ensures
        filter == "All"@ || entry.event_type == filter ==> selection(entries.push(entry), filter)
            == selection(entries, filter).push(entries.len() as int),
        filter != "All"@ && entry.event_type != filter ==> selection(entries.push(entry), filter)
            == selection(entries, filter),
        selection(Seq::empty(), filter).len() == 0,
{
    assert(entries.push(entry).drop_last() =~= entries);
}

/// What a row shows of an entry.
pub proof fn law_row_shows_the_entry(entry: logger::EntryView)
    ensures
        ({
            let row = row_of(entry);
            &&& row.time == tail::time_of_day(entry.timestamp)
            &&& entry.source == "cx"@ ==> row.source == "CX"@ && row.source_color == (Rgb {
                r: 200,
                g: 100,
                b: 220,
            })
            &&& entry.source != "cx"@ ==> row.source == "CC"@ && row.source_color == (Rgb {
                r: 80,
                g: 200,
                b: 220,
            })
            &&& row.event_type == text::padded_left(entry.event_type, 22)
            &&& row.event_color == color_of(entry.event_type)
            &&& entry.tool_name is None ==> row.tool is None
            &&& entry.tool_name matches Some(name) ==> row.tool == Some("["@ + name + "]"@)
            &&& row.summary == entry.summary
        }),
{
}

/// A new entry comes last where it passes the filter, and else changes nothing. The oldest one goes
/// for it only in a full window. Without a filter every entry is taken.
pub proof fn law_new_entries_come_last(
    entries: Seq<logger::EntryView>,
    entry: logger::EntryView,
    filter: Option<Seq<char>>,
)
    requires
        entries.len() <= 2000,
    ensures
        filter is None ==> loaded(entries, entry, filter) == entries.push(entry),
        tail::shown(entry.event_type, filter) ==> {
            &&& loaded(entries, entry, filter) == entries.push(entry)
            &&& received(entries, entry, filter).last() == entry
            &&& entries.len() < 2000 ==> received(entries, entry, filter) == entries.push(entry)
            &&& entries.len() == 2000 ==> received(entries, entry, filter)
                == entries.drop_first().push(entry)
        },
        !tail::shown(entry.event_type, filter) ==> loaded(entries, entry, filter) == entries
            && received(entries, entry, filter) == entries,
{
    if entries.len() == 2000 {
        assert(entries.push(entry).skip(1) =~= entries.drop_first().push(entry));
    }
}

} // verus!
