//! The Dock: how often it is looked at, when the window follows it, and how wide it is by its
//! preferences.

use core::time::Duration;
use vstd::prelude::*;

use crate::cat_layout::DockPlacementMode;
use crate::text;
use crate::text::{contains_text, same_text, trim};

verus! {

// ---------------------------------------------------------------------------
// Durations
// ---------------------------------------------------------------------------

/// The nanoseconds of a duration: what `Duration::as_nanos` returns.
pub uninterp spec fn duration_nanos(d: Duration) -> nat;

/// `Duration::from_millis` makes a duration of so many milliseconds.
pub assume_specification[ Duration::from_millis ](millis: u64) -> (r: Duration)
    ensures
        duration_nanos(r) == millis * 1_000_000,
;

/// `Duration::from_secs` makes a duration of so many seconds.
pub assume_specification[ Duration::from_secs ](secs: u64) -> (r: Duration)
    ensures
        duration_nanos(r) == secs * 1_000_000_000,
;

/// `Duration::as_nanos` returns the nanoseconds of a duration.
pub assume_specification[ Duration::as_nanos ](d: &Duration) -> (r: u128)
    ensures
        r == duration_nanos(*d),
;

// ---------------------------------------------------------------------------
// Layouts
// ---------------------------------------------------------------------------

/// A layout of the cat window; `G` is the type of its geometry.
#[derive(Clone, Debug)]
pub struct AppliedLayout<G> {
    pub anchor_screen_id: String,
    pub geometry: G,
    pub dock_mode: DockPlacementMode,
    pub dock_autohide: bool,
}

/// The nanoseconds between two looks at the Dock: few while it hides and shows itself.
pub open spec fn interval_nanos(autohide: bool) -> nat {
    if autohide {
        250_000_000
    } else {
        5_000_000_000
    }
}

/// The time between two looks at the Dock.
pub fn refresh_interval(autohide: bool) -> (r: Duration)
    ensures
        duration_nanos(r) == interval_nanos(autohide),
{
    if autohide {
        Duration::from_millis(250)
    } else {
        Duration::from_secs(5)
    }
}

/// Whether the Dock hides itself: by the latest probe, else by the applied layout.
pub open spec fn hides<G>(layout: Option<&AppliedLayout<G>>, probe: Option<bool>) -> bool {
    match probe {
        Some(autohide) => autohide,
        None => match layout {
            Some(applied) => applied.dock_autohide,
            None => false,
        },
    }
}

/// Whether the Dock hides itself, as far as is known.
pub fn resolve_refresh_autohide<G>(
    applied_layout: Option<&AppliedLayout<G>>,
    live_probe_autohide: Option<bool>,
) -> (r: bool)
    ensures
        r == hides(applied_layout, live_probe_autohide),
{
    match live_probe_autohide {
        Some(autohide) => autohide,
        None => match applied_layout {
            Some(layout) => layout.dock_autohide,
            None => false,
        },
    }
}

/// The time until the next look at the Dock.
pub fn dock_refresh_interval_for_tick<G>(
    applied_layout: Option<&AppliedLayout<G>>,
    live_probe_autohide: Option<bool>,
) -> (r: Duration)
    ensures
        duration_nanos(r) == interval_nanos(hides(applied_layout, live_probe_autohide)),
{
    refresh_interval(resolve_refresh_autohide(applied_layout, live_probe_autohide))
}

/// Hiding is probed for as long as no layout says that the Dock hides itself.
pub open spec fn probes<G>(layout: Option<&AppliedLayout<G>>) -> bool {
    match layout {
        Some(applied) => !applied.dock_autohide,
        None => true,
    }
}

/// Whether hiding is probed often.
pub fn should_run_fast_autohide_probe<G>(applied_layout: Option<&AppliedLayout<G>>) -> (r: bool)
    ensures
        r == probes(applied_layout),
{
    match applied_layout {
        Some(layout) => !layout.dock_autohide,
        None => true,
    }
}

/// The window has to be laid out anew. `moved` tells that some coordinate changed by more than
/// what may be noise.
pub open spec fn differs<G>(
    previous: Option<&AppliedLayout<G>>,
    next: &AppliedLayout<G>,
    moved: bool,
) -> bool {
    match previous {
        Some(current) => current.anchor_screen_id@ != next.anchor_screen_id@
            || current.dock_mode != next.dock_mode || current.dock_autohide != next.dock_autohide
            || moved,
        None => true,
    }
}

/// Whether the window has to be laid out anew.
pub fn layout_changed<G>(
    previous: Option<&AppliedLayout<G>>,
    next: &AppliedLayout<G>,
    moved: bool,
) -> (r: bool)
    ensures
        r == differs(previous, next, moved),
{
    match previous {
        Some(current) => !same_text(&current.anchor_screen_id, &next.anchor_screen_id)
            || current.dock_mode != next.dock_mode || current.dock_autohide != next.dock_autohide
            || moved,
        None => true,
    }
}

/// The layout to be applied next; nothing where the applied one still holds.
pub open spec fn layout_after<'a, G>(
    previous: Option<&AppliedLayout<G>>,
    sampled: &'a AppliedLayout<G>,
    moved: bool,
) -> Option<&'a AppliedLayout<G>> {
    if differs(previous, sampled, moved) {
        Some(sampled)
    } else {
        None
    }
}

/// The layout to be applied next; nothing where the applied one still holds.
pub fn resolve_next_applied_layout<'a, G>(
    previous: Option<&AppliedLayout<G>>,
    sampled: &'a AppliedLayout<G>,
    moved: bool,
) -> (r: Option<&'a AppliedLayout<G>>)
    ensures
        r == layout_after(previous, sampled, moved),
{
    if layout_changed(previous, sampled, moved) {
        Some(sampled)
    } else {
        None
    }
}

/// A layout that was just applied is not applied again.
pub proof fn law_applied_layout_stays<G>(layout: &AppliedLayout<G>)
    ensures
        !differs(Some(layout), layout, false),
{
}

// ---------------------------------------------------------------------------
// Looking at the Dock
// ---------------------------------------------------------------------------

/// When the Dock was looked at, and what is under way.
#[derive(Clone, Copy, PartialEq, Eq, Debug, Structural)]
pub struct DockWatch {
    /// What the last probe of hiding said.
    pub autohide_probe: Option<bool>,
    pub last_refresh: u64,
    pub last_probe: u64,
    pub last_revision: u64,
    pub refreshing: bool,
    pub probing: bool,
}

/// The nanoseconds between two probes of hiding.
pub const PROBE_NANOS: u64 = 250_000_000;

/// The nanoseconds from one point in time to another; none where that is earlier.
pub open spec fn elapsed(from: u64, to: u64) -> nat {
    if to > from {
        (to - from) as nat
    } else {
        0
    }
}

fn nanos_between(from: u64, to: u64) -> (r: u64)
    ensures
        r == elapsed(from, to),
{
    if to > from {
        to - from
    } else {
        0
    }
}

impl DockWatch {
    /// A watch that begins now, with the layout of the start.
    pub fn new(now: u64, autohide: bool, revision: u64) -> (r: DockWatch)
        ensures
            r == (DockWatch {
                autohide_probe: Some(autohide),
                last_refresh: now,
                last_probe: now,
                last_revision: revision,
                refreshing: false,
                probing: false,
            }),
    {
        DockWatch {
            autohide_probe: Some(autohide),
            last_refresh: now,
            last_probe: now,
            last_revision: revision,
            refreshing: false,
            probing: false,
        }
    }

    /// A probe of hiding is due.
    pub open spec fn probe_due<G>(self, layout: Option<&AppliedLayout<G>>, now: u64) -> bool {
        probes(layout) && elapsed(self.last_probe, now) >= PROBE_NANOS && !self.probing
    }

    /// The watch after a probe of hiding was begun, where one was due.
    pub open spec fn after_probe<G>(self, layout: Option<&AppliedLayout<G>>, now: u64) -> DockWatch {
        if self.probe_due(layout, now) {
            DockWatch { probing: true, last_probe: now, ..self }
        } else {
            self
        }
    }

    /// Begins a probe of hiding where one is due.
    pub fn begin_probe<G>(&mut self, layout: Option<&AppliedLayout<G>>, now: u64) -> (r: bool)
        ensures
            r == old(self).probe_due(layout, now),
            *final(self) == old(self).after_probe(layout, now),
    {
        if !should_run_fast_autohide_probe(layout) {
            return false;
        }
        if nanos_between(self.last_probe, now) < PROBE_NANOS {
            return false;
        }
        if self.probing {
            return false;
        }
        self.probing = true;
        self.last_probe = now;
        true
    }

    /// Takes what a probe of hiding said.
    pub fn end_probe(&mut self, autohide: bool)
        ensures
            *final(self) == (DockWatch {
                autohide_probe: Some(autohide),
                probing: false,
                ..*old(self)
            }),
    {
        self.autohide_probe = Some(autohide);
        self.probing = false;
    }

    /// The look at the Dock after a change of the chosen display.
    pub open spec fn after_revision(self, revision: u64, now: u64) -> DockWatch {
        if revision != self.last_revision && !self.refreshing {
            DockWatch { refreshing: true, last_revision: revision, last_refresh: now, ..self }
        } else {
            self
        }
    }

    /// The look at the Dock after some time.
    pub open spec fn after_interval<G>(self, layout: Option<&AppliedLayout<G>>, now: u64) -> DockWatch {
        if elapsed(self.last_refresh, now) > interval_nanos(hides(layout, self.autohide_probe)) {
            DockWatch { refreshing: true, last_refresh: now, ..self }
        } else {
            self
        }
    }

    /// Begins to look at the Dock where that is due, at once after another display was chosen.
    /// One look is under way at a time.
    pub fn begin_refresh<G>(
        &mut self,
        layout: Option<&AppliedLayout<G>>,
        revision: u64,
        now: u64,
    ) -> (r: bool)
        ensures
            *final(self) == old(self).after_revision(revision, now).after_interval(layout, now),
            r == (!old(self).refreshing && final(self).refreshing),
    {
        let idle = !self.refreshing;
        if revision != self.last_revision && !self.refreshing {
            self.refreshing = true;
            self.last_revision = revision;
            self.last_refresh = now;
        }
        let interval = dock_refresh_interval_for_tick(layout, self.autohide_probe);
        if (nanos_between(self.last_refresh, now) as u128) > interval.as_nanos() {
            self.last_refresh = now;
            self.refreshing = true;
        }
        idle && self.refreshing
    }

    /// Ends a look at the Dock.
    pub fn end_refresh(&mut self)
        ensures
            *final(self) == (DockWatch { refreshing: false, ..*old(self) }),
    {
        self.refreshing = false;
    }

    /// Takes the layout that was applied.
    pub fn applied(&mut self, autohide: bool)
        ensures
            *final(self) == (DockWatch { autohide_probe: Some(autohide), ..*old(self) }),
    {
        self.autohide_probe = Some(autohide);
    }
}

/// While a look at the Dock is under way no other one begins, and none is forgotten: a change of
/// the chosen display that could not be followed is still to be followed.
pub proof fn law_one_refresh_at_a_time<G>(
    watch: DockWatch,
    layout: Option<&AppliedLayout<G>>,
    revision: u64,
    now: u64,
)
    requires
        watch.refreshing,
    ensures
        watch.after_revision(revision, now).after_interval(layout, now).refreshing,
        watch.after_revision(revision, now).after_interval(layout, now).last_revision
            == watch.last_revision,
{
}

// ---------------------------------------------------------------------------
// The start of the window
// ---------------------------------------------------------------------------

/// What the start of the window consists of, frame by frame.
#[derive(Clone, Copy, PartialEq, Eq, Debug, Structural)]
pub enum StartupStep {
    Resize,
    Place,
    Style,
    Wait,
}

/// The number of frames that the start takes.
pub const STARTUP_FRAMES: u32 = 10;

/// The step of a frame of the start, counted from one.
pub open spec fn startup_action(frame: int) -> StartupStep {
    if frame == 1 {
        StartupStep::Resize
    } else if frame == 5 {
        StartupStep::Place
    } else if frame == 6 {
        StartupStep::Style
    } else {
        StartupStep::Wait
    }
}

/// The next frame of the start and its step; nothing where the start is over.
pub open spec fn startup_after(phase: u32) -> Option<(u32, StartupStep)> {
    if phase < STARTUP_FRAMES {
        Some(((phase + 1) as u32, startup_action(phase + 1)))
    } else {
        None
    }
}

/// Goes on with the start: the next frame and its step; nothing where the start is over.
pub fn startup_step(position_phase: u32) -> (r: Option<(u32, StartupStep)>)
    ensures
        r == startup_after(position_phase),
{
    if position_phase < STARTUP_FRAMES {
        let frame = position_phase + 1;
        let step = if frame == 1 {
            StartupStep::Resize
        } else if frame == 5 {
            StartupStep::Place
        } else if frame == 6 {
            StartupStep::Style
        } else {
            StartupStep::Wait
        };
        Some((frame, step))
    } else {
        None
    }
}

/// The nanoseconds between two looks at the event log.
pub const POLL_NANOS: u64 = 1_000_000_000;

/// The event log is to be looked at.
pub open spec fn is_poll_due(last_poll: u64, now: u64) -> bool {
    elapsed(last_poll, now) > POLL_NANOS
}

/// Whether the event log is to be looked at.
pub fn poll_due(last_poll: u64, now: u64) -> (r: bool)
    ensures
        r == is_poll_due(last_poll, now),
{
    nanos_between(last_poll, now) > POLL_NANOS
}

/// The nanoseconds between two frames of the tray icon.
pub const TRAY_NANOS: u64 = 250_000_000;

/// The tray icon is to be moved on.
pub open spec fn is_tray_due(last_frame: u64, now: u64) -> bool {
    elapsed(last_frame, now) >= TRAY_NANOS
}

/// Whether the tray icon is to be moved on.
pub fn tray_due(last_frame: u64, now: u64) -> (r: bool)
    ensures
        r == is_tray_due(last_frame, now),
{
    nanos_between(last_frame, now) >= TRAY_NANOS
}

/// How the window looks.
#[derive(Clone, Copy, PartialEq, Eq, Debug, Structural)]
pub struct MacWindowAppearanceConfig {
    pub ignores_mouse_events: bool,
    pub has_shadow: bool,
    pub opaque: bool,
    pub order_front_regardless: bool,
}

/// How the window looks from its start.
pub open spec fn window_appearance() -> MacWindowAppearanceConfig {
    MacWindowAppearanceConfig {
        ignores_mouse_events: true,
        has_shadow: false,
        opaque: false,
        order_front_regardless: true,
    }
}

/// How the window looks from its start: clear, without a shadow, in front, and out of the
/// mouse's way.
pub fn macos_window_appearance_config() -> (r: MacWindowAppearanceConfig)
    ensures
        r == window_appearance(),
{
    MacWindowAppearanceConfig {
        ignores_mouse_events: true,
        has_shadow: false,
        opaque: false,
        order_front_regardless: true,
    }
}

// ---------------------------------------------------------------------------
// Preferences
// ---------------------------------------------------------------------------

/// A preference is switched on: it is a number other than zero.
pub open spec fn is_switched_on(output: Option<Seq<char>>) -> bool {
    match output {
        Some(value) => match text::parsed_i32(text::trimmed(value)) {
            Some(n) => n != 0,
            None => false,
        },
        None => false,
    }
}

/// Whether a preference, as it was printed, is switched on.
pub fn switched_on(output: Option<&str>) -> (r: bool)
    ensures
        r == is_switched_on(text::text_view(output)),
{
    match output {
        Some(value) => match text::parse_i32(trim(value).as_str()) {
            Some(n) => n != 0,
            None => false,
        },
        None => false,
    }
}

/// Whether the Dock hides itself, by the printed preference `autohide`.
pub fn dock_autohide_enabled(output: Option<&str>) -> (r: bool)
    ensures
        r == is_switched_on(text::text_view(output)),
{
    switched_on(output)
}

/// Where the Dock is, by the printed preference `orientation`: the side, where it is at one.
pub open spec fn side_of(output: Option<Seq<char>>) -> Option<Seq<char>> {
    match output {
        Some(value) => if text::trimmed(value) == "left"@ || text::trimmed(value) == "right"@ {
            Some(text::trimmed(value))
        } else {
            None
        },
        None => None,
    }
}

/// The side that the Dock is at; nothing where it is at the bottom.
pub fn dock_side(output: Option<&str>) -> (r: Option<String>)
    ensures
        text::string_view(r) == side_of(text::text_view(output)),
{
    match output {
        Some(value) => {
            let orientation = trim(value);
            if same_text(&orientation, "left") || same_text(&orientation, "right") {
                Some(orientation)
            } else {
                None
            }
        },
        None => None,
    }
}

/// The bundle that a line of the pinned applications names: what stands between the third and
/// the fourth quotation mark.
pub open spec fn pinned_bundle(line: Seq<char>) -> Option<Seq<char>> {
    let parts = text::parts_of(line, '"');
    if text::occurs_in(line, "bundle-identifier"@) && parts.len() >= 4 {
        Some(parts[3])
    } else {
        None
    }
}

/// A bundle is pinned to the Dock.
pub open spec fn is_pinned(lines: Seq<Seq<char>>, bundle: Seq<char>) -> bool {
    exists|i: int| 0 <= i < lines.len() && pinned_bundle(#[trigger] lines[i]) == Some(bundle)
}

/// What a list of the running applications tells so far: how many stand in the Dock without
/// being pinned, and whose lines are being read.
pub struct Running {
    pub count: nat,
    pub bundle: Seq<char>,
}

/// The bundle whose lines are being read after a line.
pub open spec fn bundle_after(bundle: Seq<char>, line: Seq<char>) -> Seq<char> {
    match text::after_prefix(line, "bundleID="@) {
        Some(rest) => if text::stripped(rest, '"') != "[ NULL ]"@ {
            text::stripped(rest, '"')
        } else {
            ""@
        },
        None => bundle,
    }
}

/// What is told after a line. An application in the foreground stands in the Dock.
pub open spec fn running_step(
    before: Running,
    line: Seq<char>,
    pinned: Seq<Seq<char>>,
) -> Running {
    let bundle = bundle_after(before.bundle, line);
    if text::occurs_in(line, "type=\"Foreground\""@) && bundle.len() > 0 {
        Running {
            count: if bundle != "com.apple.finder"@ && !is_pinned(pinned, bundle) {
                before.count + 1
            } else {
                before.count
            },
            bundle: ""@,
        }
    } else {
        Running { count: before.count, bundle }
    }
}

/// What is told by lines.
pub open spec fn running(lines: Seq<Seq<char>>, pinned: Seq<Seq<char>>) -> Running
    decreases lines.len(),
{
    if lines.len() == 0 {
        Running { count: 0, bundle: ""@ }
    } else {
        running_step(
            running(lines.drop_last(), pinned),
            text::trimmed(lines.last()),
            pinned,
        )
    }
}

/// What stands in the Dock.
#[derive(Clone, Copy, PartialEq, Eq, Debug, Structural)]
pub struct DockItems {
    pub total: usize,
    pub separators: usize,
}

/// The number of things that stand in the Dock: Finder, the pinned and the running
/// applications, the recent ones, the other pinned things and the bin.
pub open spec fn dock_total(
    apps: Seq<char>,
    others: Seq<char>,
    list: Seq<char>,
    recents: bool,
) -> nat {
    let pinned = text::lines_of(text::trimmed(apps));
    1 + text::disjoint_matches(text::trimmed(apps), "tile-data"@, 0) + running(
        text::lines_of(text::trimmed(list)),
        pinned,
    ).count + (if recents {
        3nat
    } else {
        0nat
    }) + text::disjoint_matches(text::trimmed(others), "tile-data"@, 0) + 1
}

/// The number of separators in the Dock: recent things have one of their own.
pub open spec fn separators_of(recents: bool) -> nat {
    if recents {
        2
    } else {
        1
    }
}

proof fn lemma_running_bound(lines: Seq<Seq<char>>, pinned: Seq<Seq<char>>)
    ensures
        running(lines, pinned).count <= lines.len(),
    decreases lines.len(),
{
    if lines.len() > 0 {
        lemma_running_bound(lines.drop_last(), pinned);
    }
}

fn find_pinned(line: &str) -> (r: Option<String>)
    ensures
        text::string_view(r) == pinned_bundle(line@),
{
    if !contains_text(line, "bundle-identifier") {
        return None;
    }
    let parts = text::split_on(line, '"');
    proof {
        assert(parts@.len() == text::parts_of(line@, '"').len());
    }
    if parts.len() >= 4 {
        proof {
            assert(text::views(parts@)[3] == parts@[3]@);
        }
        Some(parts[3].clone())
    } else {
        None
    }
}

fn pinned_contains(lines: &Vec<String>, bundle: &str) -> (r: bool)
    ensures
        r == is_pinned(text::views(lines@), bundle@),
{
    let ghost views = text::views(lines@);
    let mut i: usize = 0;
    while i < lines.len()
        invariant
            i <= lines@.len(),
            views == text::views(lines@),
            forall|j: int| 0 <= j < i ==> pinned_bundle(#[trigger] views[j]) != Some(bundle@),
        decreases lines@.len() - i,
    {
        proof {
            assert(views[i as int] == lines@[i as int]@);
        }
        if let Some(found) = find_pinned(&lines[i]) {
            if same_text(&found, bundle) {
                return true;
            }
        }
        i += 1;
    }
    false
}

fn count_running(lines: &Vec<String>, pinned: &Vec<String>) -> (r: usize)
    ensures
        r == running(text::views(lines@), text::views(pinned@)).count,
{
    let ghost views = text::views(lines@);
    let ghost pins = text::views(pinned@);
    let mut count: usize = 0;
    let mut bundle = "".to_owned();
    let mut i: usize = 0;
    proof {
        assert(views.take(0) =~= Seq::empty());
    }
    while i < lines.len()
        invariant
            i <= lines@.len(),
            count <= i,
            views == text::views(lines@),
            pins == text::views(pinned@),
            count == running(views.take(i as int), pins).count,
            bundle@ == running(views.take(i as int), pins).bundle,
        decreases lines@.len() - i,
    {
        let line = trim(&lines[i]);
        proof {
            assert(views.take(i + 1).drop_last() =~= views.take(i as int));
            assert(views.take(i + 1).last() == lines@[i as int]@);
            reveal_strlit("");
        }
        if let Some(rest) = text::strip_prefix(&line, "bundleID=") {
            let id = text::strip_char(&rest, '"');
            if !same_text(&id, "[ NULL ]") {
                bundle = id;
            } else {
                bundle = "".to_owned();
            }
        }
        if contains_text(&line, "type=\"Foreground\"") && bundle.as_str().unicode_len() > 0 {
            if !same_text(&bundle, "com.apple.finder") && !pinned_contains(pinned, &bundle) {
                count += 1;
            }
            bundle = "".to_owned();
        }
        i += 1;
    }
    proof {
        assert(views.take(i as int) =~= views);
    }
    count
}

/// Counts what stands in the Dock, by the printed preferences `persistent-apps`,
/// `persistent-others` and `show-recents` and the printed list of the running applications.
pub fn count_dock_items(
    persistent_apps: &str,
    persistent_others: &str,
    app_list: &str,
    show_recents: &str,
) -> (r: DockItems)
    requires
        persistent_apps@.len() + persistent_others@.len() + app_list@.len() + 5 <= usize::MAX,
    ensures
        r.total == dock_total(
            persistent_apps@,
            persistent_others@,
            app_list@,
            is_switched_on(Some(show_recents@)),
        ),
        r.separators == separators_of(is_switched_on(Some(show_recents@))),
{
    let apps = trim(persistent_apps);
    let others = trim(persistent_others);
    let list = trim(app_list);
    proof {
        reveal_strlit("tile-data");
        text::lemma_trimmed_len(persistent_apps@);
        text::lemma_trimmed_len(persistent_others@);
        text::lemma_trimmed_len(app_list@);
        text::lemma_disjoint_matches_bound(apps@, "tile-data"@, 0);
        text::lemma_disjoint_matches_bound(others@, "tile-data"@, 0);
        text::lemma_lines_at_most_chars(list@);
    }
    let pinned_count = text::count_matches(&apps, "tile-data");
    let pinned = text::split_lines(&apps);
    let other_count = text::count_matches(&others, "tile-data");
    let lines = text::split_lines(&list);
    let running_count = count_running(&lines, &pinned);
    proof {
        lemma_running_bound(text::views(lines@), text::views(pinned@));
    }
    let recents = switched_on(Some(show_recents));
    let recent_count: usize = if recents {
        3
    } else {
        0
    };
    DockItems {
        total: 1 + pinned_count + running_count + recent_count + other_count + 1,
        separators: if recents {
            2
        } else {
            1
        },
    }
}

/// The identity of a display in the menu.
pub open spec fn selection_of(display_number: Option<u32>, screen_id: Seq<char>) -> Seq<char> {
    match display_number {
        Some(n) => if n != 0 {
            "display-"@ + text::decimal(n as nat)
        } else {
            screen_id
        },
        None => screen_id,
    }
}

/// The identity of a display in the menu: by its number, or where it has none by its properties.
pub fn selection_id(display_number: Option<u32>, screen_id: &str) -> (r: String)
    ensures
        r@ == selection_of(display_number, screen_id@),
{
    match display_number {
        Some(n) => if n != 0 {
            text::concat2("display-", text::decimal_text(n as u64).as_str())
        } else {
            screen_id.to_owned()
        },
        None => screen_id.to_owned(),
    }
}

// ---------------------------------------------------------------------------
// Laws
// ---------------------------------------------------------------------------

/// The Dock is looked at four times a second while it hides itself, and every five seconds while it
/// does not. The latest probe tells which, and before any probe the applied layout.
pub proof fn law_hiding_dock_is_looked_at_often<G>(
    layout: &AppliedLayout<G>,
    probe: bool,
)
    ensures
        4 * interval_nanos(true) == 1_000_000_000,
        interval_nanos(false) == 5 * 1_000_000_000,
        hides(Some(layout), Some(probe)) == probe,
        hides(None::<&AppliedLayout<G>>, Some(probe)) == probe,
        hides(Some(layout), None) == layout.dock_autohide,
        !hides(None::<&AppliedLayout<G>>, None),
        probes(Some(layout)) != layout.dock_autohide,
        probes(None::<&AppliedLayout<G>>),
{
}

/// The window is laid out anew exactly if there was no layout, or it is on another display, the Dock
/// is elsewhere, hides itself or no longer does, or something moved. Then the new layout holds.
pub proof fn law_new_layout_only_on_change<G>(
    previous: &AppliedLayout<G>,
    next: &AppliedLayout<G>,
    moved: bool,
)
    ensures
        layout_after(None, next, moved) == Some(next),
        layout_after(Some(previous), next, moved) is None <==> previous.anchor_screen_id@
            == next.anchor_screen_id@ && previous.dock_mode == next.dock_mode
            && previous.dock_autohide == next.dock_autohide && !moved,
        layout_after(Some(previous), next, moved) is Some ==> layout_after(
            Some(previous),
            next,
            moved,
        )->0 == next,
        layout_after(Some(next), next, false) is None,
{
}

/// The time between two points in time is never negative, and adds up to the later one.
pub proof fn law_elapsed_time(from: u64, to: u64)
    ensures
        from <= to ==> from + elapsed(from, to) == to,
        from >= to ==> elapsed(from, to) == 0,
{
}

/// Hiding is probed a quarter of a second after the last probe at the earliest, one probe at a
/// time, and only while no layout says that the Dock hides itself.
pub proof fn law_probes_are_apart<G>(
    watch: DockWatch,
    layout: &AppliedLayout<G>,
    now: u64,
)
    ensures
        watch.probe_due(None::<&AppliedLayout<G>>, now) <==> now >= watch.last_probe + 250_000_000
            && !watch.probing,
        watch.probe_due(Some(layout), now) <==> now >= watch.last_probe + 250_000_000
            && !watch.probing && !layout.dock_autohide,
        watch.probe_due(Some(layout), now) ==> {
            let after = watch.after_probe(Some(layout), now);
            after.probing && after.last_probe == now && !after.probe_due(Some(layout), now)
                && after.refreshing == watch.refreshing && after.last_refresh == watch.last_refresh
                && after.autohide_probe == watch.autohide_probe
        },
        !watch.probe_due(Some(layout), now) ==> watch.after_probe(Some(layout), now) == watch,
{
}

/// A look at the Dock begins at once when another display was chosen, and otherwise when more than
/// the interval has passed since the last one. The watch then remembers when and for which choice.
pub proof fn law_refresh_begins_when_due<G>(
    watch: DockWatch,
    layout: Option<&AppliedLayout<G>>,
    revision: u64,
    now: u64,
)
    requires
        !watch.refreshing,
    ensures
        ({
            let after = watch.after_revision(revision, now).after_interval(layout, now);
            let wait = if hides(layout, watch.autohide_probe) {
                250_000_000int
            } else {
                5_000_000_000int
            };
            &&& after.refreshing <==> revision != watch.last_revision || now > watch.last_refresh
                + wait
            &&& after.refreshing ==> after.last_refresh == now && after.last_revision == revision
            &&& !after.refreshing ==> after == watch
            &&& after.autohide_probe == watch.autohide_probe && after.probing == watch.probing
                && after.last_probe == watch.last_probe
        }),
{
}

/// The start of the window takes ten frames: the first sizes it, the fifth places it and the sixth
/// styles it; in the others nothing is done. Then it is over for good.
pub proof fn law_start_of_the_window(phase: u32)
    ensures
        startup_after(phase) is None <==> phase >= 10,
        startup_after(phase) matches Some((frame, step)) ==> {
            &&& frame == phase + 1
            &&& step == StartupStep::Resize <==> frame == 1
            &&& step == StartupStep::Place <==> frame == 5
            &&& step == StartupStep::Style <==> frame == 6
        },
{
}

/// The log is looked at when more than a second has passed; the icon moves on when a quarter of a
/// second has.
pub proof fn law_when_to_look_again(last: u64, now: u64)
    ensures
        is_poll_due(last, now) <==> now > last + 1_000_000_000,
        is_tray_due(last, now) <==> now >= last + 250_000_000,
{
}

/// A preference is on exactly if it is a number other than zero, blanks aside; a missing one and
/// one that is no number are off.
pub proof fn law_switched_on(before: Seq<char>, n: nat, after: Seq<char>)
    requires
        forall|i: int| 0 <= i < before.len() ==> text::is_whitespace(#[trigger] before[i]),
        forall|i: int| 0 <= i < after.len() ==> text::is_whitespace(#[trigger] after[i]),
        n <= i32::MAX,
    ensures
        is_switched_on(Some(before + text::decimal(n) + after)) <==> n != 0,
        !is_switched_on(None),
        !is_switched_on(Some(before + after)),
{
    text::law_numbers_are_read_back(n, text::decimal(n), 0);
    text::lemma_decimal_value(n);
    let digits = text::decimal(n);
    assert(digits.len() > 0);
    assert(text::is_digit(digits[0]));
    assert(text::is_digit(digits[digits.len() - 1]));
    text::law_trimming_leaves_the_inside(before, digits, after);
    let none = Seq::<char>::empty();
    text::law_trimming_leaves_the_inside(before, none, after);
    assert(before + none + after =~= before + after);
}

/// The Dock is at a side exactly if its orientation is one of two words, blanks aside.
pub proof fn law_side_of_the_dock(before: Seq<char>, after: Seq<char>, other: Seq<char>)
    requires
        forall|i: int| 0 <= i < before.len() ==> text::is_whitespace(#[trigger] before[i]),
        forall|i: int| 0 <= i < after.len() ==> text::is_whitespace(#[trigger] after[i]),
    ensures
        side_of(Some(before + "left"@ + after)) == Some("left"@),
        side_of(Some(before + "right"@ + after)) == Some("right"@),
        side_of(None) is None,
        text::trimmed(other) != "left"@ && text::trimmed(other) != "right"@ ==> side_of(Some(other))
            is None,
{
    reveal_strlit("left");
    reveal_strlit("right");
    text::law_trimming_leaves_the_inside(before, "left"@, after);
    text::law_trimming_leaves_the_inside(before, "right"@, after);
}

/// A line of the pinned applications names a bundle in its second pair of quotation marks; a line
/// that is not about a bundle, or has not so many, names none.
pub proof fn law_pinned_line_names_its_bundle(
    indent: Seq<char>,
    middle: Seq<char>,
    bundle: Seq<char>,
    end: Seq<char>,
    line: Seq<char>,
)
    requires
        forall|i: int| 0 <= i < indent.len() ==> #[trigger] indent[i] != '"',
        forall|i: int| 0 <= i < middle.len() ==> #[trigger] middle[i] != '"',
        forall|i: int| 0 <= i < bundle.len() ==> #[trigger] bundle[i] != '"',
    ensures
        pinned_bundle(
            indent + seq!['"'] + ("bundle-identifier"@ + seq!['"'] + (middle + seq!['"'] + (bundle
                + seq!['"'] + end))),
        ) == Some(bundle),
        !text::occurs_in(line, "bundle-identifier"@) ==> pinned_bundle(line) is None,
        text::parts_of(line, '"').len() < 4 ==> pinned_bundle(line) is None,
{
    reveal_strlit("bundle-identifier");
    let name = "bundle-identifier"@;
    let d = bundle + seq!['"'] + end;
    let c = middle + seq!['"'] + d;
    let b = name + seq!['"'] + c;
    let a = indent + seq!['"'] + b;
    text::law_parts_of_a_text(indent, '"', b);
    text::law_parts_of_a_text(name, '"', c);
    text::law_parts_of_a_text(middle, '"', d);
    text::law_parts_of_a_text(bundle, '"', end);
    let at = indent.len() as int + 1;
    assert(a.subrange(at, at + name.len()) =~= name);
    assert(text::occurs_at(a, name, at));
    text::lemma_some_part(end, '"');
    assert(text::parts_of(a, '"')[3] == bundle);
}

/// How the running applications are counted, line by line. A line with a bundle begins an
/// application, one that names none ends it. When a line says that the application is in the
/// foreground, it counts once, unless it is Finder or pinned.
pub proof fn law_running_applications_are_counted(
    lines: Seq<Seq<char>>,
    pinned: Seq<Seq<char>>,
    line: Seq<char>,
    bundle: Seq<char>,
)
    requires
        text::trimmed(line) == line,
        bundle.len() > 0,
        bundle[0] != '"' && bundle.last() != '"',
    ensures
        ({
            let before = running(lines, pinned);
            let after = running(lines.push(line), pinned);
            let begins = "bundleID="@.is_prefix_of(line);
            let front = text::occurs_in(line, "type=\"Foreground\""@);
            &&& !begins && !front ==> after.count == before.count && after.bundle == before.bundle
            &&& !begins && front && before.bundle.len() > 0 ==> after.bundle.len() == 0
                && after.count == before.count + (if before.bundle == "com.apple.finder"@
                || is_pinned(pinned, before.bundle) {
                0nat
            } else {
                1nat
            })
            &&& !begins && front && before.bundle.len() == 0 ==> after.count == before.count
            &&& begins && !front ==> after.count == before.count
            &&& !front && line == "bundleID="@ + (seq!['"'] + bundle + seq!['"']) && bundle
                != "[ NULL ]"@ ==> after.bundle == bundle
            &&& !front && line == "bundleID="@ + "[ NULL ]"@ ==> after.bundle.len() == 0
        }),
        running(Seq::empty(), pinned).count == 0,
        running(Seq::empty(), pinned).bundle.len() == 0,
{
    reveal_strlit("");
    reveal_strlit("[ NULL ]");
    let more = lines.push(line);
    assert(more.drop_last() =~= lines);
    let quoted = seq!['"'] + bundle + seq!['"'];
    text::law_stripping_leaves_the_inside('"', 1, bundle, 1);
    assert(Seq::new(1, |i: int| '"') =~= seq!['"']);
    text::law_prefix_is_taken_off(line, "bundleID="@, quoted);
    text::law_prefix_is_taken_off(line, "bundleID="@, "[ NULL ]"@);
    text::law_stripping_leaves_the_inside('"', 0, "[ NULL ]"@, 0);
    assert(Seq::new(0, |i: int| '"') + "[ NULL ]"@ + Seq::new(0, |i: int| '"') =~= "[ NULL ]"@);
}

/// A bundle is pinned exactly if some line names it.
pub proof fn law_pinned_by_some_line(lines: Seq<Seq<char>>, line: Seq<char>, bundle: Seq<char>)
    ensures
        is_pinned(lines.push(line), bundle) <==> is_pinned(lines, bundle) || pinned_bundle(line)
            == Some(bundle),
        !is_pinned(Seq::empty(), bundle),
{
    let more = lines.push(line);
    assert(more[lines.len() as int] == line);
    if is_pinned(lines, bundle) {
        let i = choose|i: int| 0 <= i < lines.len() && pinned_bundle(#[trigger] lines[i]) == Some(
            bundle,
        );
        assert(more[i] == lines[i]);
    }
    if is_pinned(more, bundle) && pinned_bundle(line) != Some(bundle) {
        let i = choose|i: int| 0 <= i < more.len() && pinned_bundle(#[trigger] more[i]) == Some(
            bundle,
        );
        assert(lines[i] == more[i]);
    }
}

/// In the Dock stand Finder and the bin, always; three things more where recent ones are shown; and
/// one for each pinned application, each other pinned thing and each application that runs without
/// being pinned. Recent things also bring a second separator.
pub proof fn law_what_stands_in_the_dock(
    apps: Seq<char>,
    others: Seq<char>,
    list: Seq<char>,
)
    ensures
        dock_total(apps, others, list, true) == dock_total(apps, others, list, false) + 3,
        dock_total(apps, others, list, false) == 2 + text::disjoint_matches(
            text::trimmed(apps),
            "tile-data"@,
            0,
        ) + text::disjoint_matches(text::trimmed(others), "tile-data"@, 0) + running(
            text::lines_of(text::trimmed(list)),
            text::lines_of(text::trimmed(apps)),
        ).count,
        separators_of(false) == 1,
        separators_of(true) == 2,
{
}

/// A display is known by its number, unless it has none or that is zero: then by its properties.
/// Displays with different numbers are known apart.
pub proof fn law_display_is_known_by_its_number(n: u32, m: u32, screen: Seq<char>)
    ensures
        n != 0 ==> selection_of(Some(n), screen) == "display-"@ + text::decimal(n as nat),
        selection_of(Some(0), screen) == screen,
        selection_of(None, screen) == screen,
        n != 0 && m != 0 && n != m ==> selection_of(Some(n), screen) != selection_of(
            Some(m),
            screen,
        ),
{
    if n != 0 && m != 0 && selection_of(Some(n), screen) == selection_of(Some(m), screen) {
        let head = "display-"@;
        let a = head + text::decimal(n as nat);
        let b = head + text::decimal(m as nat);
        assert(a.skip(head.len() as int) =~= text::decimal(n as nat));
        assert(b.skip(head.len() as int) =~= text::decimal(m as nat));
        text::lemma_decimal_value(n as nat);
        text::lemma_decimal_value(m as nat);
    }
}

/// Nothing but the cats is to be seen of the window, it lets the mouse through, and it stands in
/// front of the others.
pub proof fn law_window_is_out_of_the_way()
    ensures
        window_appearance().ignores_mouse_events,
        window_appearance().order_front_regardless,
        !window_appearance().has_shadow,
        !window_appearance().opaque,
{
}

} // verus!
