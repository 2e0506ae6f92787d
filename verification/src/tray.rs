//! The icon in the system tray: its animation, its menu and its frames.

use vstd::prelude::*;

use crate::cat;
use crate::cat::ClaudeState;
use crate::display;
use crate::display::{
    resolve_display_location_dock_sample, resolve_display_location_mode, DisplayChoice,
    DisplayLocationMode, DockPlacementSample, MacScreenSnapshot,
};
use crate::i18n;
use crate::i18n::{translate, AppLanguage, TranslationKey};
use crate::sprite;
use crate::sprite::{cut_out, encode_png, Pixel, Sprite};
use crate::text;
use crate::text::same_text;

verus! {

// ---------------------------------------------------------------------------
// Animations
// ---------------------------------------------------------------------------

/// Where an animation of the tray icon is in the sprite sheet: its row, its frames, and the part
/// of each cell that is drawn in.
#[derive(Clone, Copy, PartialEq, Eq, Debug, Structural)]
pub struct TrayAnimDef {
    pub row: u32,
    pub frames: u32,
    pub x: u32,
    pub y: u32,
    pub w: u32,
    pub h: u32,
}

/// The number of animations.
pub const TRAY_ANIM_COUNT: usize = 10;

/// The index of the sleep.
pub const ANIM_SLEEP: usize = 6;

/// The index of the stretch.
pub const ANIM_STRETCH: usize = 9;

/// The animations of the tray icon: four ways to sit, two to run, sleep, play, pounce, stretch.
pub open spec fn tray_anims() -> Seq<TrayAnimDef> {
    seq![
        TrayAnimDef { row: 0, frames: 4, x: 9, y: 20, w: 12, h: 12 },
        TrayAnimDef { row: 1, frames: 4, x: 9, y: 20, w: 12, h: 12 },
        TrayAnimDef { row: 2, frames: 4, x: 9, y: 20, w: 13, h: 12 },
        TrayAnimDef { row: 3, frames: 4, x: 9, y: 20, w: 13, h: 12 },
        TrayAnimDef { row: 4, frames: 8, x: 7, y: 20, w: 17, h: 12 },
        TrayAnimDef { row: 5, frames: 8, x: 7, y: 19, w: 17, h: 13 },
        TrayAnimDef { row: 6, frames: 4, x: 8, y: 24, w: 16, h: 8 },
        TrayAnimDef { row: 7, frames: 6, x: 10, y: 20, w: 15, h: 12 },
        TrayAnimDef { row: 8, frames: 7, x: 9, y: 14, w: 15, h: 18 },
        TrayAnimDef { row: 9, frames: 8, x: 7, y: 21, w: 17, h: 11 },
    ]
}

/// An animation of the tray icon.
pub fn tray_anim(index: usize) -> (r: TrayAnimDef)
    requires
        index < TRAY_ANIM_COUNT,
    ensures
        r == tray_anims()[index as int],
{
    if index == 0 {
        TrayAnimDef { row: 0, frames: 4, x: 9, y: 20, w: 12, h: 12 }
    } else if index == 1 {
        TrayAnimDef { row: 1, frames: 4, x: 9, y: 20, w: 12, h: 12 }
    } else if index == 2 {
        TrayAnimDef { row: 2, frames: 4, x: 9, y: 20, w: 13, h: 12 }
    } else if index == 3 {
        TrayAnimDef { row: 3, frames: 4, x: 9, y: 20, w: 13, h: 12 }
    } else if index == 4 {
        TrayAnimDef { row: 4, frames: 8, x: 7, y: 20, w: 17, h: 12 }
    } else if index == 5 {
        TrayAnimDef { row: 5, frames: 8, x: 7, y: 19, w: 17, h: 13 }
    } else if index == 6 {
        TrayAnimDef { row: 6, frames: 4, x: 8, y: 24, w: 16, h: 8 }
    } else if index == 7 {
        TrayAnimDef { row: 7, frames: 6, x: 10, y: 20, w: 15, h: 12 }
    } else if index == 8 {
        TrayAnimDef { row: 8, frames: 7, x: 9, y: 14, w: 15, h: 18 }
    } else {
        TrayAnimDef { row: 9, frames: 8, x: 7, y: 21, w: 17, h: 11 }
    }
}

/// An animation that the icon shows while an agent is there, how likely it is to be picked and
/// how long it is shown.
#[derive(Clone, Copy, PartialEq, Eq, Debug, Structural)]
pub struct ActiveAnimEntry {
    pub index: usize,
    pub weight: u32,
    pub duration_ms: u64,
}

/// The animations that the icon shows while an agent is there.
pub open spec fn active_anims() -> Seq<ActiveAnimEntry> {
    seq![
        ActiveAnimEntry { index: 0, weight: 1, duration_ms: 15000 },
        ActiveAnimEntry { index: 1, weight: 1, duration_ms: 15000 },
        ActiveAnimEntry { index: 2, weight: 1, duration_ms: 15000 },
        ActiveAnimEntry { index: 3, weight: 1, duration_ms: 15000 },
    ]
}

fn active_anim_table() -> (r: Vec<ActiveAnimEntry>)
    ensures
        r@ == active_anims(),
{
    vec![
        ActiveAnimEntry { index: 0, weight: 1, duration_ms: 15000 },
        ActiveAnimEntry { index: 1, weight: 1, duration_ms: 15000 },
        ActiveAnimEntry { index: 2, weight: 1, duration_ms: 15000 },
        ActiveAnimEntry { index: 3, weight: 1, duration_ms: 15000 },
    ]
}

/// The first `n` entries but for one animation.
pub open spec fn others(entries: Seq<ActiveAnimEntry>, current: usize, n: int) -> Seq<
    ActiveAnimEntry,
>
    decreases n,
{
    if n <= 0 || n > entries.len() {
        Seq::empty()
    } else if entries[n - 1].index != current {
        others(entries, current, n - 1).push(entries[n - 1])
    } else {
        others(entries, current, n - 1)
    }
}

/// The weight of the first `n` entries.
pub open spec fn total_weight(entries: Seq<ActiveAnimEntry>, n: int) -> nat
    decreases n,
{
    if n <= 0 || n > entries.len() {
        0
    } else {
        total_weight(entries, n - 1) + entries[n - 1].weight as nat
    }
}

/// The entry is picked by a number: the weights before it are at most that, with its own they
/// are more.
pub open spec fn picked_by(entries: Seq<ActiveAnimEntry>, number: int, i: int) -> bool {
    &&& 0 <= i < entries.len()
    &&& total_weight(entries, i) <= number < total_weight(entries, i + 1)
}

/// `picked` is the animation, with its duration, that follows `current` at a time: another one,
/// picked by the time according to the weights.
pub open spec fn follows_at(current: usize, now: u64, picked: (usize, u64)) -> bool {
    let pool = others(active_anims(), current, 4);
    let number = now as int % total_weight(pool, pool.len() as int) as int;
    exists|i: int|
        #![trigger picked_by(pool, number, i)]
        picked_by(pool, number, i) && picked == (pool[i].index, pool[i].duration_ms)
}

proof fn lemma_pool(current: usize)
    ensures
        ({
            let pool = others(active_anims(), current, 4);
            &&& 3 <= pool.len() <= 4
            &&& total_weight(pool, pool.len() as int) == pool.len()
            &&& forall|i: int|
                0 <= i < pool.len() ==> (#[trigger] pool[i]).index < 4 && pool[i].index != current
                    && pool[i].weight == 1 && pool[i].duration_ms == 15000
        }),
{
    reveal_with_fuel(others, 5);
    reveal_with_fuel(total_weight, 5);
}

/// The milliseconds since the Unix epoch, by the system's clock, which is read by
/// `std::time::SystemTime::now`. Nothing is claimed of them.
#[verifier::external_body]
pub(crate) fn now_ms() -> u64 {
    std::time::SystemTime::now().duration_since(std::time::UNIX_EPOCH).unwrap_or_default().as_millis() as u64
}

/// The animation that follows another one at a time, and how long it is shown.
pub fn weighted_anim_at(current: usize, now: u64) -> (r: (usize, u64))
    ensures
        follows_at(current, now, r),
        r.0 < 4,
        r.0 != current,
        r.1 == 15000,
{
    let table = active_anim_table();
    let mut pool: Vec<ActiveAnimEntry> = Vec::new();
    let mut i: usize = 0;
    while i < table.len()
        invariant
            table@ == active_anims(),
            i <= table@.len(),
            pool@ == others(active_anims(), current, i as int),
        decreases table@.len() - i,
    {
        if table[i].index != current {
            pool.push(table[i]);
        }
        i += 1;
    }
    proof {
        lemma_pool(current);
    }
    let mut total: u32 = 0;
    let mut k: usize = 0;
    while k < pool.len()
        invariant
            pool@ == others(active_anims(), current, 4),
            3 <= pool@.len() <= 4,
            k <= pool@.len(),
            total <= k,
            total == total_weight(pool@, k as int),
            forall|j: int| 0 <= j < pool@.len() ==> (#[trigger] pool@[j]).weight == 1,
        decreases pool@.len() - k,
    {
        total = total + pool[k].weight;
        k += 1;
    }
    let number: u32 = (now % (total as u64)) as u32;
    let mut rest: u32 = number;
    let mut n: usize = 0;
    while n < pool.len()
        invariant
            pool@ == others(active_anims(), current, 4),
            n <= pool@.len(),
            total == total_weight(pool@, pool@.len() as int),
            number == now as int % total as int,
            number < total,
            rest + total_weight(pool@, n as int) == number,
            forall|j: int|
                0 <= j < pool@.len() ==> (#[trigger] pool@[j]).index < 4 && pool@[j].index
                    != current && pool@[j].duration_ms == 15000,
        decreases pool@.len() - n,
    {
        if rest < pool[n].weight {
            proof {
                assert(picked_by(pool@, number as int, n as int));
            }
            return (pool[n].index, pool[n].duration_ms);
        }
        rest = rest - pool[n].weight;
        n += 1;
    }
    proof {
        assert(false);
    }
    (0, 15000)
}

/// Another animation of those that the icon shows while an agent is there, picked by the clock.
pub fn weighted_random_anim(current: usize) -> (r: (usize, u64))
    ensures
        exists|now: u64| #[trigger] follows_at(current, now, r),
        r.0 < 4,
        r.0 != current,
        r.1 == 15000,
{
    let now = now_ms();
    weighted_anim_at(current, now)
}

// ---------------------------------------------------------------------------
// The state of the icon
// ---------------------------------------------------------------------------

/// What the icon shows: no agent, an agent that came, or agents.
#[derive(Clone, Copy, PartialEq, Eq, Debug, Structural)]
pub enum TrayState {
    Sleeping,
    Waking,
    Active,
}

/// Where the icon is in its animation.
#[derive(Clone, Copy, PartialEq, Eq, Debug, Structural)]
pub struct TrayAnimState {
    pub state: TrayState,
    pub current_anim: usize,
    pub frame_index: u32,
    pub stretch_count: u32,
    pub anim_start_ms: u64,
    pub current_anim_duration: u64,
}

impl TrayAnimState {
    /// The icon in order: inside its animation, which is the one of its state. It stretches
    /// twice when it wakes.
    pub open spec fn wf(self) -> bool {
        &&& self.current_anim < TRAY_ANIM_COUNT
        &&& self.frame_index < tray_anims()[self.current_anim as int].frames
        &&& match self.state {
            TrayState::Sleeping => self.current_anim == ANIM_SLEEP,
            TrayState::Waking => self.current_anim == ANIM_STRETCH && self.stretch_count < 2,
            TrayState::Active => self.current_anim < 4 && self.current_anim_duration == 15000,
        }
    }

    /// The icon asleep from a time on.
    pub fn new_at(now: u64) -> (r: TrayAnimState)
        ensures
            r == (TrayAnimState {
                state: TrayState::Sleeping,
                current_anim: ANIM_SLEEP,
                frame_index: 0,
                stretch_count: 0,
                anim_start_ms: now,
                current_anim_duration: 0,
            }),
            r.wf(),
    {
        TrayAnimState {
            state: TrayState::Sleeping,
            current_anim: ANIM_SLEEP,
            frame_index: 0,
            stretch_count: 0,
            anim_start_ms: now,
            current_anim_duration: 0,
        }
    }

    /// The icon asleep from now on.
    pub fn new() -> (r: TrayAnimState)
        ensures
            r == (TrayAnimState {
                state: TrayState::Sleeping,
                current_anim: ANIM_SLEEP,
                frame_index: 0,
                stretch_count: 0,
                anim_start_ms: r.anim_start_ms,
                current_anim_duration: 0,
            }),
            r.wf(),
    {
        TrayAnimState::new_at(now_ms())
    }

    /// `next` is this icon in another animation for active agents, from a time on.
    pub open spec fn changed_anim(self, now: u64, next: TrayAnimState) -> bool {
        &&& follows_at(
            self.current_anim,
            now,
            (next.current_anim, next.current_anim_duration),
        )
        &&& next.current_anim < 4
        &&& next.current_anim != self.current_anim
        &&& next.current_anim_duration == 15000
        &&& next.frame_index == 0
        &&& next.anim_start_ms == now
        &&& next.state == TrayState::Active
        &&& next.stretch_count == self.stretch_count
    }

    /// The frame after this one.
    pub open spec fn next_frame(self) -> u32 {
        if self.frame_index + 1 < tray_anims()[self.current_anim as int].frames {
            (self.frame_index + 1) as u32
        } else {
            0
        }
    }

    /// `next` is this icon, one frame on at a time. After its second stretch it is awake.
    pub open spec fn advanced_at(self, now: u64, next: TrayAnimState) -> bool {
        let moved = TrayAnimState { frame_index: self.next_frame(), ..self };
        if self.state == TrayState::Waking && self.next_frame() == 0 {
            let stretched = TrayAnimState {
                stretch_count: (self.stretch_count + 1) as u32,
                ..moved
            };
            if self.stretch_count + 1 >= 2 {
                stretched.changed_anim(now, next)
            } else {
                next == stretched
            }
        } else {
            next == moved
        }
    }

    /// The icon asleep.
    pub open spec fn asleep(self) -> TrayAnimState {
        TrayAnimState {
            state: TrayState::Sleeping,
            current_anim: ANIM_SLEEP,
            frame_index: 0,
            ..self
        }
    }

    /// `next` is this icon at a time, when an agent is there or not. It wakes for an agent,
    /// sleeps without one, and changes its animation from time to time.
    pub open spec fn synced_at(self, there: bool, now: u64, next: TrayAnimState) -> bool {
        match self.state {
            TrayState::Sleeping => if there {
                next == (TrayAnimState {
                    state: TrayState::Waking,
                    current_anim: ANIM_STRETCH,
                    frame_index: 0,
                    stretch_count: 0,
                    anim_start_ms: now,
                    ..self
                })
            } else {
                next == self
            },
            TrayState::Waking => if there {
                next == self
            } else {
                next == self.asleep()
            },
            TrayState::Active => if !there {
                next == self.asleep()
            } else if millis_since(self.anim_start_ms, now) >= self.current_anim_duration {
                self.changed_anim(now, next)
            } else {
                next == self
            },
        }
    }
}

/// An agent is there: it is at work or at rest.
pub open spec fn is_there(state: ClaudeState) -> bool {
    state == ClaudeState::Active || state == ClaudeState::Idle
}

/// The milliseconds from one time to another, round the clock where that was set back.
pub open spec fn millis_since(start: u64, now: u64) -> int {
    if now >= start {
        now - start
    } else {
        now - start + 0x1_0000_0000_0000_0000
    }
}

fn change_anim(state: &mut TrayAnimState, now: u64)
    ensures
        (TrayAnimState { state: TrayState::Active, ..*old(state) }).changed_anim(
            now,
            *final(state),
        ),
{
    let (anim, duration) = weighted_anim_at(state.current_anim, now);
    state.state = TrayState::Active;
    state.current_anim = anim;
    state.frame_index = 0;
    state.anim_start_ms = now;
    state.current_anim_duration = duration;
}

/// Moves the icon one frame on, at a time.
pub fn advance_tray_animation_at(state: &mut TrayAnimState, now: u64)
    requires
        old(state).wf(),
    ensures
        old(state).advanced_at(now, *final(state)),
        final(state).wf(),
{
    let anim = tray_anim(state.current_anim);
    state.frame_index = if state.frame_index + 1 < anim.frames {
        state.frame_index + 1
    } else {
        0
    };
    if state.state == TrayState::Waking && state.frame_index == 0 {
        state.stretch_count = state.stretch_count + 1;
        if state.stretch_count >= 2 {
            change_anim(state, now);
        }
    }
}

/// Moves the icon one frame on.
pub fn advance_tray_animation(state: &mut TrayAnimState)
    requires
        old(state).wf(),
    ensures
        exists|now: u64| #[trigger] old(state).advanced_at(now, *final(state)),
        final(state).wf(),
{
    let now = now_ms();
    advance_tray_animation_at(state, now);
}

/// Follows what the agents are doing, at a time.
pub fn sync_tray_state_at(state: &mut TrayAnimState, claude_state: ClaudeState, now: u64)
    requires
        old(state).wf(),
    ensures
        old(state).synced_at(is_there(claude_state), now, *final(state)),
        final(state).wf(),
{
    let there = claude_state == ClaudeState::Active || claude_state == ClaudeState::Idle;
    match state.state {
        TrayState::Sleeping => {
            if there {
                state.state = TrayState::Waking;
                state.current_anim = ANIM_STRETCH;
                state.frame_index = 0;
                state.stretch_count = 0;
                state.anim_start_ms = now;
            }
        },
        TrayState::Waking => {
            if !there {
                state.state = TrayState::Sleeping;
                state.current_anim = ANIM_SLEEP;
                state.frame_index = 0;
            }
        },
        TrayState::Active => {
            if !there {
                state.state = TrayState::Sleeping;
                state.current_anim = ANIM_SLEEP;
                state.frame_index = 0;
            } else if now.wrapping_sub(state.anim_start_ms) >= state.current_anim_duration {
                change_anim(state, now);
            }
        },
    }
}

/// Follows what the agents are doing.
pub fn sync_tray_state(state: &mut TrayAnimState, claude_state: ClaudeState)
    requires
        old(state).wf(),
    ensures
        exists|now: u64| #[trigger]
            old(state).synced_at(is_there(claude_state), now, *final(state)),
        final(state).wf(),
{
    let now = now_ms();
    sync_tray_state_at(state, claude_state, now);
}

/// The icon sleeps just where no agent is there: whatever it showed, after following the agents
/// it is asleep without one, and awake or waking with one.
pub proof fn law_icon_sleeps_without_agents(
    state: TrayAnimState,
    there: bool,
    now: u64,
    next: TrayAnimState,
)
    requires
        state.wf(),
        state.synced_at(there, now, next),
    ensures
        next.state == TrayState::Sleeping <==> !there,
{
}

/// From frame to frame the icon neither falls asleep nor wakes up: it only goes from waking to
/// awake.
pub proof fn law_frames_only_finish_waking(state: TrayAnimState, now: u64, next: TrayAnimState)
    requires
        state.wf(),
        state.advanced_at(now, next),
    ensures
        next.state == state.state || (state.state == TrayState::Waking && next.state
            == TrayState::Active && state.stretch_count == 1),
{
}

// ---------------------------------------------------------------------------
// The chosen display
// ---------------------------------------------------------------------------

/// The display that the user chose, and how often that changed.
#[derive(Debug)]
pub struct DisplayLocation {
    pub mode: DisplayLocationMode,
    pub revision: u64,
}

impl DisplayLocation {
    /// No choice yet.
    pub fn new() -> (r: DisplayLocation)
        ensures
            r.mode@ == display::ModeView::Auto,
            r.revision == 0,
    {
        DisplayLocation { mode: DisplayLocationMode::Auto, revision: 0 }
    }
}

/// The revision after a change.
pub open spec fn next_revision(revision: u64) -> u64 {
    if revision == u64::MAX {
        0
    } else {
        (revision + 1) as u64
    }
}

/// The revision after a choice: only a change counts.
pub open spec fn revision_after(
    before: display::ModeView,
    after: display::ModeView,
    revision: u64,
) -> u64 {
    if after == before {
        revision
    } else {
        next_revision(revision)
    }
}

/// The display that is chosen.
pub fn current_display_location_mode(location: &DisplayLocation) -> (r: DisplayLocationMode)
    ensures
        r@ == location.mode@,
{
    location.mode.copy()
}

/// Chooses a display. Only a change counts.
pub fn set_display_location_mode(location: &mut DisplayLocation, next_mode: DisplayLocationMode)
    ensures
        final(location).mode@ == next_mode@,
        final(location).revision == revision_after(
            old(location).mode@,
            next_mode@,
            old(location).revision,
        ),
{
    if !location.mode.same(&next_mode) {
        location.mode = next_mode;
        location.revision = if location.revision == u64::MAX {
            0
        } else {
            location.revision + 1
        };
    }
}

/// How often the choice changed.
pub fn display_location_revision(location: &DisplayLocation) -> (r: u64)
    ensures
        r == location.revision,
{
    location.revision
}

/// One of the lines has this selection.
pub open spec fn offers(choices: Seq<display::ChoiceView>, selection: Seq<char>) -> bool {
    exists|i: int| 0 <= i < choices.len() && (#[trigger] choices[i]).selection_id == selection
}

/// The choice that holds for these lines: a chosen display that is not offered is no choice.
pub open spec fn normalized(
    mode: display::ModeView,
    choices: Seq<display::ChoiceView>,
) -> display::ModeView {
    match mode {
        display::ModeView::Auto => display::ModeView::Auto,
        display::ModeView::Specific(selection) => if offers(choices, selection) {
            mode
        } else {
            display::ModeView::Auto
        },
    }
}

fn is_offered(choices: &Vec<DisplayChoice>, selection: &str) -> (r: bool)
    ensures
        r == offers(display::choice_views(choices@), selection@),
{
    let ghost views = display::choice_views(choices@);
    let mut i: usize = 0;
    while i < choices.len()
        invariant
            i <= choices@.len(),
            views == display::choice_views(choices@),
            forall|j: int| 0 <= j < i ==> (#[trigger] views[j]).selection_id != selection@,
        decreases choices@.len() - i,
    {
        proof {
            assert(views[i as int] == choices@[i as int]@);
        }
        if same_text(&choices[i].selection_id, selection) {
            return true;
        }
        i += 1;
    }
    false
}

/// The choice that holds for these lines. One that does not hold any more is given up.
pub fn normalized_display_location_mode(
    location: &mut DisplayLocation,
    display_choices: &Vec<DisplayChoice>,
) -> (r: DisplayLocationMode)
    ensures
        r@ == normalized(old(location).mode@, display::choice_views(display_choices@)),
        final(location).mode@ == r@,
        final(location).revision == revision_after(
            old(location).mode@,
            r@,
            old(location).revision,
        ),
{
    let lost = match &location.mode {
        DisplayLocationMode::Auto => false,
        DisplayLocationMode::Specific(selection) => !is_offered(display_choices, selection),
    };
    if lost {
        set_display_location_mode(location, DisplayLocationMode::Auto);
    }
    location.mode.copy()
}

/// The sample that holds under the choice. A choice that these displays do not allow is given up.
pub fn sample_for_display_location<T: Copy>(
    location: &mut DisplayLocation,
    screens: &Vec<MacScreenSnapshot<T>>,
    auto_sample: &DockPlacementSample<T>,
) -> (r: DockPlacementSample<T>)
    ensures
        final(location).mode@ == display::resolved_mode(screens@, old(location).mode@),
        final(location).revision == revision_after(
            old(location).mode@,
            final(location).mode@,
            old(location).revision,
        ),
        r@ == display::resolved_sample(screens@, auto_sample@, final(location).mode@),
{
    let mode = resolve_display_location_mode(screens, location.mode.copy());
    let sample = resolve_display_location_dock_sample(screens, auto_sample, &mode);
    set_display_location_mode(location, mode);
    sample
}

/// To find out which choice holds gives it up at most once.
pub proof fn law_normalized_choice_stays(
    mode: display::ModeView,
    choices: Seq<display::ChoiceView>,
)
    ensures
        normalized(normalized(mode, choices), choices) == normalized(mode, choices),
{
}

// ---------------------------------------------------------------------------
// The menu
// ---------------------------------------------------------------------------

/// The display menu is there, when more than one display was seen before or not.
pub open spec fn menu_shown(seen: bool, count: usize) -> bool {
    seen || count > 1
}

/// The display menu is there with more than one display, and stays for as long as the program
/// runs.
pub fn should_show_display_location_menu(
    has_seen_multiple_displays: bool,
    display_count: usize,
) -> (r: bool)
    ensures
        r == menu_shown(has_seen_multiple_displays, display_count),
{
    has_seen_multiple_displays || display_count > 1
}

/// A group of the menu.
#[derive(Clone, Copy, PartialEq, Eq, Debug, Structural)]
pub enum TrayUtilityMenuItem {
    DisplayLocation,
    EventMonitor,
}

/// The lines of that group, in order.
pub fn tray_utility_menu_order() -> (r: [TrayUtilityMenuItem; 2])
    ensures
        r@ == seq![TrayUtilityMenuItem::DisplayLocation, TrayUtilityMenuItem::EventMonitor],
{
    [TrayUtilityMenuItem::DisplayLocation, TrayUtilityMenuItem::EventMonitor]
}

/// What a line of the menu does.
#[derive(Clone, Copy, PartialEq, Eq, Debug, Structural)]
pub enum TrayMenuLine {
    ToggleCc,
    ToggleCx,
    Separator,
    DisplayLocation,
    EventMonitor,
    Quit,
}

/// The lines of the menu, from top to bottom.
pub open spec fn menu_lines() -> Seq<TrayMenuLine> {
    seq![
        TrayMenuLine::ToggleCc,
        TrayMenuLine::ToggleCx,
        TrayMenuLine::Separator,
        TrayMenuLine::DisplayLocation,
        TrayMenuLine::EventMonitor,
        TrayMenuLine::Separator,
        TrayMenuLine::Quit,
    ]
}

/// The lines of the menu, from top to bottom.
pub fn tray_menu() -> (r: Vec<TrayMenuLine>)
    ensures
        r@ == menu_lines(),
{
    let mut lines: Vec<TrayMenuLine> = Vec::new();
    lines.push(TrayMenuLine::ToggleCc);
    lines.push(TrayMenuLine::ToggleCx);
    lines.push(TrayMenuLine::Separator);
    let order = tray_utility_menu_order();
    proof {
        assert(order@[0] == TrayUtilityMenuItem::DisplayLocation);
        assert(order@[1] == TrayUtilityMenuItem::EventMonitor);
    }
    lines.push(utility_line(order[0]));
    lines.push(utility_line(order[1]));
    lines.push(TrayMenuLine::Separator);
    lines.push(TrayMenuLine::Quit);
    lines
}

fn utility_line(item: TrayUtilityMenuItem) -> (r: TrayMenuLine)
    ensures
        r == (match item {
            TrayUtilityMenuItem::DisplayLocation => TrayMenuLine::DisplayLocation,
            TrayUtilityMenuItem::EventMonitor => TrayMenuLine::EventMonitor,
        }),
{
    match item {
        TrayUtilityMenuItem::DisplayLocation => TrayMenuLine::DisplayLocation,
        TrayUtilityMenuItem::EventMonitor => TrayMenuLine::EventMonitor,
    }
}

/// The title of a menu line in a language.
pub fn localized_menu_title(language: AppLanguage, key: TranslationKey) -> (r: &'static str)
    ensures
        r@ == i18n::translated(language, key),
{
    translate(language, key)
}

/// The title of a line of the menu, where it has one.
pub open spec fn title_of(language: AppLanguage, line: TrayMenuLine, agent: Seq<char>) -> Option<
    Seq<char>,
> {
    match line {
        TrayMenuLine::ToggleCc => Some(agent),
        TrayMenuLine::ToggleCx => Some("Codex"@),
        TrayMenuLine::Separator => None,
        TrayMenuLine::DisplayLocation => Some(
            i18n::translated(language, TranslationKey::DisplayLocation),
        ),
        TrayMenuLine::EventMonitor => Some(
            i18n::translated(language, TranslationKey::EventMonitor),
        ),
        TrayMenuLine::Quit => Some(i18n::translated(language, TranslationKey::Quit)),
    }
}

/// The title of a line of the menu, where it has one: the line of the agent has its name.
pub fn menu_title<'a>(language: AppLanguage, line: TrayMenuLine, agent: &'a str) -> (r: Option<
    &'a str,
>)
    ensures
        text::text_view(r) == title_of(language, line, agent@),
{
    match line {
        TrayMenuLine::ToggleCc => Some(agent),
        TrayMenuLine::ToggleCx => Some("Codex"),
        TrayMenuLine::Separator => None,
        TrayMenuLine::DisplayLocation => Some(
            localized_menu_title(language, TranslationKey::DisplayLocation),
        ),
        TrayMenuLine::EventMonitor => Some(
            localized_menu_title(language, TranslationKey::EventMonitor),
        ),
        TrayMenuLine::Quit => Some(localized_menu_title(language, TranslationKey::Quit)),
    }
}

/// A line of the display menu.
#[derive(Debug)]
pub enum DisplayMenuLine {
    Automatic { checked: bool },
    Separator,
    Display { label: String, selection_id: String, checked: bool },
    OnlyOneDisplay,
}

/// What a line of the display menu says.
pub enum DisplayLineView {
    Automatic(bool),
    Separator,
    Display(Seq<char>, Seq<char>, bool),
    OnlyOneDisplay,
}

impl View for DisplayMenuLine {
    type V = DisplayLineView;

    open spec fn view(&self) -> DisplayLineView {
        match self {
            DisplayMenuLine::Automatic { checked } => DisplayLineView::Automatic(*checked),
            DisplayMenuLine::Separator => DisplayLineView::Separator,
            DisplayMenuLine::Display { label, selection_id, checked } => DisplayLineView::Display(
                label@,
                selection_id@,
                *checked,
            ),
            DisplayMenuLine::OnlyOneDisplay => DisplayLineView::OnlyOneDisplay,
        }
    }
}

/// The views of the lines.
pub open spec fn line_views(lines: Seq<DisplayMenuLine>) -> Seq<DisplayLineView> {
    lines.map_values(|l: DisplayMenuLine| l@)
}

/// The lines for the displays, of which the chosen one is checked.
pub open spec fn display_lines(
    choices: Seq<display::ChoiceView>,
    mode: display::ModeView,
) -> Seq<DisplayLineView> {
    choices.map_values(
        |c: display::ChoiceView|
            DisplayLineView::Display(
                c.label,
                c.selection_id,
                mode == display::ModeView::Specific(c.selection_id),
            ),
    )
}

/// The display menu: one line for no choice, and with several displays one for each of them.
pub open spec fn display_menu(
    choices: Seq<display::ChoiceView>,
    mode: display::ModeView,
) -> Seq<DisplayLineView> {
    let auto = DisplayLineView::Automatic(mode == display::ModeView::Auto);
    if choices.len() > 1 {
        seq![auto, DisplayLineView::Separator] + display_lines(choices, mode)
    } else {
        seq![auto, DisplayLineView::OnlyOneDisplay]
    }
}

/// Whether more than one display was ever there, and what is chosen.
#[derive(Debug)]
pub struct DisplayMenuState {
    pub activated: bool,
    pub location: DisplayLocation,
}

fn is_chosen(mode: &DisplayLocationMode, selection: &str) -> (r: bool)
    ensures
        r == (mode@ == display::ModeView::Specific(selection@)),
{
    match mode {
        DisplayLocationMode::Auto => false,
        DisplayLocationMode::Specific(chosen) => same_text(chosen, selection),
    }
}

fn is_auto(mode: &DisplayLocationMode) -> (r: bool)
    ensures
        r == (mode@ == display::ModeView::Auto),
{
    match mode {
        DisplayLocationMode::Auto => true,
        DisplayLocationMode::Specific(_) => false,
    }
}

/// Renews the display menu: its lines, or nothing where it is hidden. A chosen display that is
/// gone is given up.
pub fn refresh_display_location_menu(
    state: &mut DisplayMenuState,
    display_choices: &Vec<DisplayChoice>,
) -> (r: Option<Vec<DisplayMenuLine>>)
    ensures
        final(state).activated == (old(state).activated || display_choices@.len() > 1),
        final(state).location.mode@ == normalized(
            old(state).location.mode@,
            display::choice_views(display_choices@),
        ),
        final(state).location.revision == revision_after(
            old(state).location.mode@,
            final(state).location.mode@,
            old(state).location.revision,
        ),
        match r {
            Some(lines) => final(state).activated && line_views(lines@) == display_menu(
                display::choice_views(display_choices@),
                final(state).location.mode@,
            ),
            None => !final(state).activated,
        },
{
    let ghost views = display::choice_views(display_choices@);
    if display_choices.len() > 1 {
        state.activated = true;
    }
    let shown = should_show_display_location_menu(state.activated, display_choices.len());
    let mode = normalized_display_location_mode(&mut state.location, display_choices);
    if !shown {
        return None;
    }
    let mut lines: Vec<DisplayMenuLine> = Vec::new();
    lines.push(DisplayMenuLine::Automatic { checked: is_auto(&mode) });
    if display_choices.len() > 1 {
        lines.push(DisplayMenuLine::Separator);
        let ghost head = line_views(lines@);
        let ghost wanted = display_lines(views, mode@);
        let mut i: usize = 0;
        while i < display_choices.len()
            invariant
                i <= display_choices@.len(),
                views == display::choice_views(display_choices@),
                wanted == display_lines(views, mode@),
                line_views(lines@) =~= head + wanted.take(i as int),
            decreases display_choices@.len() - i,
        {
            let choice = &display_choices[i];
            let ghost done = lines@;
            let checked = is_chosen(&mode, &choice.selection_id);
            lines.push(
                DisplayMenuLine::Display {
                    label: choice.label.clone(),
                    selection_id: choice.selection_id.clone(),
                    checked,
                },
            );
            proof {
                assert(views[i as int] == choice@);
                assert(line_views(lines@) =~= line_views(done).push(wanted[i as int]));
                assert(wanted.take(i + 1) =~= wanted.take(i as int).push(wanted[i as int]));
            }
            i += 1;
        }
        proof {
            assert(wanted.take(i as int) =~= wanted);
            assert(line_views(lines@) =~= display_menu(views, mode@));
        }
    } else {
        lines.push(DisplayMenuLine::OnlyOneDisplay);
        proof {
            assert(line_views(lines@) =~= display_menu(views, mode@));
        }
    }
    Some(lines)
}

/// What a click on the icon does.
#[derive(Clone, Copy, PartialEq, Eq, Debug, Structural)]
pub enum TrayClick {
    OpenMenu,
    Show,
    Hide,
}

/// What a click of a kind does.
pub open spec fn click_of(event_type: isize, visible: bool) -> TrayClick {
    if event_type == 3 || event_type == 4 {
        TrayClick::OpenMenu
    } else if visible {
        TrayClick::Hide
    } else {
        TrayClick::Show
    }
}

/// What a click of a kind does: the right button opens the menu, any other one shows or hides
/// the cats.
pub fn tray_clicked(event_type: isize, visible: bool) -> (r: TrayClick)
    ensures
        r == click_of(event_type, visible),
{
    if event_type == 3 || event_type == 4 {
        TrayClick::OpenMenu
    } else if visible {
        TrayClick::Hide
    } else {
        TrayClick::Show
    }
}

// ---------------------------------------------------------------------------
// Frames
// ---------------------------------------------------------------------------

/// How many pixels of the icon a pixel of the sheet takes, in each direction.
pub const PIXEL_SCALE: u32 = 4;

/// The width of the icon in pixels of the sheet.
pub const CANVAS_W: u32 = 17;

/// The height of the icon in pixels of the sheet.
pub const CANVAS_H: u32 = 11;

/// The width of the icon.
pub const ICON_W: u32 = 68;

/// The height of the icon.
pub const ICON_H: u32 = 44;

/// How far a frame is in from the left of the icon: it stands in the middle.
pub open spec fn offset_x(anim: TrayAnimDef) -> int {
    (ICON_W - anim.w * PIXEL_SCALE) / 2
}

/// How far a frame is down from the top of the icon: it stands on the floor, and a tall one loses
/// its lower part.
pub open spec fn offset_y(anim: TrayAnimDef) -> int {
    if anim.h >= CANVAS_H {
        0
    } else {
        (CANVAS_H - anim.h) * PIXEL_SCALE
    }
}

/// A pixel of the icon: one of the frame, enlarged, or a clear one beside it.
pub open spec fn icon_pixel(
    sheet: Sprite,
    anim: TrayAnimDef,
    frame: int,
    x: int,
    y: int,
) -> sprite::Pixel {
    let dx = x - offset_x(anim);
    let dy = y - offset_y(anim);
    if 0 <= dx < anim.w * PIXEL_SCALE && 0 <= dy < anim.h * PIXEL_SCALE {
        sheet.at(
            frame * sprite::CELL_SIZE + anim.x + dx / (PIXEL_SCALE as int),
            anim.row * sprite::CELL_SIZE + anim.y + dy / (PIXEL_SCALE as int),
        )
    } else {
        sprite::clear_pixel()
    }
}

/// The sheet holds a frame of an animation.
pub open spec fn holds_frame(sheet: Sprite, anim: TrayAnimDef, frame: int) -> bool {
    &&& sheet.wf()
    &&& frame * sprite::CELL_SIZE + anim.x + anim.w <= sheet.width
    &&& anim.row * sprite::CELL_SIZE + anim.y + anim.h <= sheet.height
}

/// The sheet holds all frames of all animations.
pub open spec fn holds_tray_frames(sheet: Sprite) -> bool {
    forall|i: int, f: int|
        0 <= i < TRAY_ANIM_COUNT && 0 <= f < tray_anims()[i].frames ==> #[trigger] holds_frame(
            sheet,
            tray_anims()[i],
            f,
        )
}

/// The pixels of the icon for a frame of an animation.
pub open spec fn is_icon(rgba: Seq<u8>, sheet: Sprite, anim: TrayAnimDef, frame: int) -> bool {
    sprite::shows(
        rgba,
        ICON_W as int,
        ICON_H as int,
        |x: int, y: int| icon_pixel(sheet, anim, frame, x, y),
    )
}

fn read_icon_pixel(sheet: &Sprite, index: usize, frame: u32, x: u32, y: u32) -> (r: Pixel)
    requires
        index < TRAY_ANIM_COUNT,
        holds_frame(*sheet, tray_anims()[index as int], frame as int),
        x < ICON_W,
        y < ICON_H,
    ensures
        r == icon_pixel(*sheet, tray_anims()[index as int], frame as int, x as int, y as int),
{
    let anim = tray_anim(index);
    let left = (ICON_W - anim.w * PIXEL_SCALE) / 2;
    let top = if anim.h >= CANVAS_H {
        0
    } else {
        (CANVAS_H - anim.h) * PIXEL_SCALE
    };
    if x >= left && x - left < anim.w * PIXEL_SCALE && y >= top && y - top < anim.h * PIXEL_SCALE {
        sheet.get_pixel(
            frame * sprite::CELL_SIZE + anim.x + (x - left) / PIXEL_SCALE,
            anim.row * sprite::CELL_SIZE + anim.y + (y - top) / PIXEL_SCALE,
        )
    } else {
        Pixel { r: 0, g: 0, b: 0, a: 0 }
    }
}

/// Draws the icon for a frame of an animation.
pub fn draw_tray_frame(sheet: &Sprite, index: usize, frame: u32) -> (r: Vec<u8>)
    requires
        index < TRAY_ANIM_COUNT,
        holds_frame(*sheet, tray_anims()[index as int], frame as int),
    ensures
        is_icon(r@, *sheet, tray_anims()[index as int], frame as int),
{
    let ghost anim = tray_anims()[index as int];
    let mut out: Vec<u8> = Vec::new();
    let mut n: u32 = 0;
    while n < ICON_W * ICON_H
        invariant
            index < TRAY_ANIM_COUNT,
            anim == tray_anims()[index as int],
            holds_frame(*sheet, anim, frame as int),
            n <= ICON_W * ICON_H,
            out@.len() == n * 4,
            forall|x: int, y: int|
                #![trigger sprite::pixel_at(out@, ICON_W as int, x, y)]
                0 <= x < ICON_W && 0 <= y && y * ICON_W + x < n ==> sprite::pixel_at(
                    out@,
                    ICON_W as int,
                    x,
                    y,
                ) == icon_pixel(*sheet, anim, frame as int, x, y),
        decreases ICON_W * ICON_H - n,
    {
        let px = n % ICON_W;
        let py = n / ICON_W;
        let p = read_icon_pixel(sheet, index, frame, px, py);
        let ghost before = out@;
        out.push(p.r);
        out.push(p.g);
        out.push(p.b);
        out.push(p.a);
        proof {
            assert forall|x: int, y: int|
                #![trigger sprite::pixel_at(out@, ICON_W as int, x, y)]
                0 <= x < ICON_W && 0 <= y && y * ICON_W + x < n + 1 implies sprite::pixel_at(
                out@,
                ICON_W as int,
                x,
                y,
            ) == icon_pixel(*sheet, anim, frame as int, x, y) by {
                if y * ICON_W + x < n {
                    assert(sprite::pixel_at(out@, ICON_W as int, x, y) == sprite::pixel_at(
                        before,
                        ICON_W as int,
                        x,
                        y,
                    ));
                } else {
                    assert(x == px && y == py);
                }
            }
        }
        n += 1;
    }
    out
}

/// The PNG file of the icon for a frame of an animation: `png` is what the encoder makes of the
/// drawn icon.
pub open spec fn is_icon_png(png: Option<Seq<u8>>, sheet: Sprite, index: int, frame: int) -> bool {
    exists|rgba: Seq<u8>|
        #![trigger is_icon(rgba, sheet, tray_anims()[index], frame)]
        is_icon(rgba, sheet, tray_anims()[index], frame) && png == sprite::encoded_png(
            rgba,
            ICON_W,
            ICON_H,
        )
}

/// Draws the icon for a frame of an animation and encodes it as PNG; nothing where that fails.
pub fn extract_tray_frame_as_png(sheet: &Sprite, index: usize, frame: u32) -> (r: Option<Vec<u8>>)
    requires
        index < TRAY_ANIM_COUNT,
        holds_frame(*sheet, tray_anims()[index as int], frame as int),
    ensures
        is_icon_png(
            (match r {
                Some(png) => Some(png@),
                None => None,
            }),
            *sheet,
            index as int,
            frame as int,
        ),
{
    let rgba = draw_tray_frame(sheet, index, frame);
    let png = encode_png(&rgba, ICON_W, ICON_H);
    proof {
        assert(is_icon(rgba@, *sheet, tray_anims()[index as int], frame as int));
    }
    png
}

/// The files of the first `n` frames of an animation.
pub open spec fn are_frames(pngs: Seq<Vec<u8>>, sheet: Sprite, index: int) -> bool {
    forall|f: int|
        0 <= f < pngs.len() ==> is_icon_png(Some((#[trigger] pngs[f])@), sheet, index, f)
}

/// Draws and encodes all frames of all animations; nothing where one of them cannot be encoded.
pub fn precompute_tray_frames(sheet: &Sprite) -> (r: Option<Vec<Vec<Vec<u8>>>>)
    requires
        holds_tray_frames(*sheet),
    ensures
        match r {
            Some(all) => all@.len() == TRAY_ANIM_COUNT && forall|i: int|
                0 <= i < TRAY_ANIM_COUNT ==> (#[trigger] all@[i])@.len() == tray_anims()[i].frames
                    && are_frames(all@[i]@, *sheet, i),
            None => exists|i: int, f: int|
                0 <= i < TRAY_ANIM_COUNT && 0 <= f < tray_anims()[i].frames && #[trigger] is_icon_png(
                    None,
                    *sheet,
                    i,
                    f,
                ),
        },
{
    let mut all: Vec<Vec<Vec<u8>>> = Vec::new();
    let mut i: usize = 0;
    while i < TRAY_ANIM_COUNT
        invariant
            holds_tray_frames(*sheet),
            i <= TRAY_ANIM_COUNT,
            all@.len() == i,
            forall|j: int|
                0 <= j < i ==> (#[trigger] all@[j])@.len() == tray_anims()[j].frames && are_frames(
                    all@[j]@,
                    *sheet,
                    j,
                ),
        decreases TRAY_ANIM_COUNT - i,
    {
        let anim = tray_anim(i);
        let mut frames: Vec<Vec<u8>> = Vec::new();
        let mut f: u32 = 0;
        while f < anim.frames
            invariant
                holds_tray_frames(*sheet),
                i < TRAY_ANIM_COUNT,
                anim == tray_anims()[i as int],
                f <= anim.frames,
                frames@.len() == f,
                are_frames(frames@, *sheet, i as int),
            decreases anim.frames - f,
        {
            proof {
                assert(holds_frame(*sheet, tray_anims()[i as int], f as int));
            }
            match extract_tray_frame_as_png(sheet, i, f) {
                Some(png) => {
                    let ghost before = frames@;
                    frames.push(png);
                    proof {
                        assert forall|k: int| 0 <= k < frames@.len() implies is_icon_png(
                            Some((#[trigger] frames@[k])@),
                            *sheet,
                            i as int,
                            k,
                        ) by {
                            if k < before.len() {
                                assert(frames@[k] == before[k]);
                            }
                        }
                    }
                },
                None => {
                    return None;
                },
            }
            f += 1;
        }
        all.push(frames);
        i += 1;
    }
    Some(all)
}

/// The size of the icon in the Windows tray.
pub const WINDOWS_ICON: u32 = 32;

/// Where a part that begins at `at` begins in what is `limit` long.
pub open spec fn clamped_start(at: int, limit: int) -> int {
    if at <= limit {
        at
    } else {
        limit
    }
}

/// How much of a part of `size` that begins at `at` there is in what is `limit` long.
pub open spec fn clamped_size(at: int, size: int, limit: int) -> int {
    let rest = limit - clamped_start(at, limit);
    if size <= rest {
        size
    } else {
        rest
    }
}

fn clamp_start(at: u32, limit: u32) -> (r: u32)
    ensures
        r == clamped_start(at as int, limit as int),
{
    if at <= limit {
        at
    } else {
        limit
    }
}

fn clamp_size(at: u32, size: u32, limit: u32) -> (r: u32)
    ensures
        r == clamped_size(at as int, size as int, limit as int),
{
    let rest = limit - clamp_start(at, limit);
    if size <= rest {
        size
    } else {
        rest
    }
}

/// The pixels are those of the middle of a cell, as far as they lie in the sheet.
pub open spec fn is_cell_middle(part: Seq<u8>, sheet: Sprite, row: int, col: int) -> bool {
    let x0 = col * sprite::CELL_SIZE + 9;
    let y0 = row * sprite::CELL_SIZE + 20;
    sprite::shows(
        part,
        clamped_size(x0, 12, sheet.width as int),
        clamped_size(y0, 12, sheet.height as int),
        |x: int, y: int|
            sheet.at(
                clamped_start(x0, sheet.width as int) + x,
                clamped_start(y0, sheet.height as int) + y,
            ),
    )
}

/// Cuts the middle of a cell out of the sheet, as far as it lies in it, and enlarges it to an
/// icon for the Windows tray.
pub fn extract_tray_icon(sheet: &Sprite, row: u32, col: u32) -> (r: Vec<u8>)
    requires
        sheet.wf(),
        col * sprite::CELL_SIZE + 9 <= u32::MAX,
        row * sprite::CELL_SIZE + 20 <= u32::MAX,
    ensures
        exists|part: Seq<u8>|
            #![trigger is_cell_middle(part, *sheet, row as int, col as int)]
            is_cell_middle(part, *sheet, row as int, col as int) && r@ == sprite::resized_nearest(
                part,
                clamped_size(col * sprite::CELL_SIZE + 9, 12, sheet.width as int) as u32,
                clamped_size(row * sprite::CELL_SIZE + 20, 12, sheet.height as int) as u32,
                WINDOWS_ICON,
                WINDOWS_ICON,
            ),
{
    let x = col * sprite::CELL_SIZE + 9;
    let y = row * sprite::CELL_SIZE + 20;
    let x0 = clamp_start(x, sheet.width);
    let y0 = clamp_start(y, sheet.height);
    let width = clamp_size(x, 12, sheet.width);
    let height = clamp_size(y, 12, sheet.height);
    let part = cut_out(sheet, x0, y0, width, height);
    proof {
        assert(is_cell_middle(part@, *sheet, row as int, col as int));
    }
    sprite::enlarge(part, width, height, WINDOWS_ICON, WINDOWS_ICON)
}

// ---------------------------------------------------------------------------
// Laws
// ---------------------------------------------------------------------------

/// The icon's animations are those of the cats, row by row, with as many frames; each is drawn in
/// a part of its cell that stands on the floor of the cell.
pub proof fn law_icon_shows_the_cats_animations(i: int)
    requires
        0 <= i < 10,
    ensures
        tray_anims().len() == 10,
        tray_anims()[i].row == i,
        tray_anims()[i].frames == cat::frame_count(i),
        tray_anims()[i].y + tray_anims()[i].h == 32,
        tray_anims()[i].x + tray_anims()[i].w <= 32,
        ANIM_SLEEP == cat::ANIM_SLEEP,
        ANIM_STRETCH == cat::ANIM_STRETCH,
{
}

/// The part of its cell that each animation is drawn in: from the left, how wide and how high.
pub proof fn law_parts_of_the_cells(i: int)
    requires
        0 <= i < 10,
    ensures
        tray_anims()[i].x == seq![9int, 9, 9, 9, 7, 7, 8, 10, 9, 7][i],
        tray_anims()[i].w == seq![12int, 12, 13, 13, 17, 17, 16, 15, 15, 17][i],
        tray_anims()[i].h == seq![12int, 12, 12, 12, 12, 13, 8, 12, 18, 11][i],
{
}

/// What follows an animation: one of the four that sit, never the same again, each as likely as
/// the others, for fifteen seconds. The milliseconds decide which.
pub proof fn law_next_sitting_animation(current: usize, now: u64, picked: (usize, u64))
    requires
        follows_at(current, now, picked),
    ensures
        cat::pool(ClaudeState::Idle).contains(picked.0),
        picked.0 < 4,
        picked.0 != current,
        picked.1 == 15_000,
        current >= 4 ==> picked.0 == now % 4,
        current < 4 && now % 3 < current ==> picked.0 == now % 3,
        current < 4 && now % 3 >= current ==> picked.0 == now % 3 + 1,
{
    reveal_with_fuel(others, 5);
    reveal_with_fuel(total_weight, 5);
    lemma_pool(current);
    let pool = others(active_anims(), current, 4);
    let number = now as int % total_weight(pool, pool.len() as int) as int;
    let i = choose|i: int|
        #![trigger picked_by(pool, number, i)]
        picked_by(pool, number, i) && picked == (pool[i].index, pool[i].duration_ms);
    assert(picked_by(pool, number, i));
    assert(total_weight(pool, i) == i && total_weight(pool, i + 1) == i + 1) by {
        reveal_with_fuel(total_weight, 6);
    }
    assert(number == i);
    let idle = cat::pool(ClaudeState::Idle);
    assert(idle[0] == 0 && idle[1] == 1 && idle[2] == 2 && idle[3] == 3);
}

/// The frames of the icon go round.
pub proof fn law_frames_go_round(state: TrayAnimState)
    requires
        state.wf(),
    ensures
        state.next_frame() == (state.frame_index + 1) % (
        tray_anims()[state.current_anim as int].frames as int),
{
    let frames = tray_anims()[state.current_anim as int].frames as int;
    if state.frame_index + 1 < frames {
        assert((state.frame_index + 1) % frames == state.frame_index + 1) by (nonlinear_arith)
            requires
                0 <= state.frame_index + 1 < frames,
        ;
    } else {
        assert(frames % frames == 0) by (nonlinear_arith)
            requires
                frames > 0,
        ;
    }
}

/// An icon that wakes stretches twice, eight frames each time, and then sits; in any other state a
/// frame changes nothing but the frame.
pub proof fn law_waking_takes_two_stretches(state: TrayAnimState, now: u64, next: TrayAnimState)
    requires
        state.wf(),
        state.advanced_at(now, next),
    ensures
        state.state != TrayState::Waking ==> next == (TrayAnimState {
            frame_index: state.next_frame(),
            ..state
        }),
        state.state == TrayState::Waking && state.frame_index < 7 ==> next == (TrayAnimState {
            frame_index: (state.frame_index + 1) as u32,
            ..state
        }),
        state.state == TrayState::Waking && state.frame_index == 7 && state.stretch_count == 0
            ==> next == (TrayAnimState { frame_index: 0, stretch_count: 1, ..state }),
        state.state == TrayState::Waking && state.frame_index == 7 && state.stretch_count == 1 ==> {
            &&& next.state == TrayState::Active
            &&& next.current_anim < 4
            &&& next.frame_index == 0
            &&& next.anim_start_ms == now
            &&& next.current_anim_duration == 15_000
            &&& follows_at(9, now, (next.current_anim, 15_000))
        },
{
}

/// The icon follows the agents: it starts to stretch when one comes, goes on stretching while one is
/// there, sleeps when none is, and while it sits it changes its animation after fifteen seconds.
pub proof fn law_icon_follows_the_agents(
    state: TrayAnimState,
    agent: ClaudeState,
    now: u64,
    next: TrayAnimState,
)
    requires
        state.wf(),
        state.synced_at(is_there(agent), now, next),
    ensures
        agent == ClaudeState::Offline && state.state == TrayState::Sleeping ==> next == state,
        agent == ClaudeState::Offline && state.state != TrayState::Sleeping ==> {
            &&& next.state == TrayState::Sleeping
            &&& next.current_anim == 6
            &&& next.frame_index == 0
        },
        agent != ClaudeState::Offline && state.state == TrayState::Sleeping ==> {
            &&& next.state == TrayState::Waking
            &&& next.current_anim == 9
            &&& next.frame_index == 0
            &&& next.stretch_count == 0
            &&& next.anim_start_ms == now
        },
        agent != ClaudeState::Offline && state.state == TrayState::Waking ==> next == state,
        agent != ClaudeState::Offline && state.state == TrayState::Active && state.anim_start_ms
            <= now < state.anim_start_ms + 15_000 ==> next == state,
        agent != ClaudeState::Offline && state.state == TrayState::Active && now
            >= state.anim_start_ms + 15_000 ==> {
            &&& next.state == TrayState::Active
            &&& next.current_anim != state.current_anim
            &&& next.frame_index == 0
            &&& next.anim_start_ms == now
            &&& follows_at(state.current_anim, now, (next.current_anim, 15_000))
        },
{
}

/// The milliseconds between two times, added to the first, give the second, round the clock.
pub proof fn law_milliseconds_since(start: u64, now: u64)
    ensures
        0 <= millis_since(start, now) <= u64::MAX,
        start <= now ==> start + millis_since(start, now) == now,
        start > now ==> start + millis_since(start, now) == now + 0x1_0000_0000_0000_0000,
{
}

/// A choice is counted exactly when it changes something, and every change leads to another number.
pub proof fn law_changes_are_counted(
    before: display::ModeView,
    after: display::ModeView,
    revision: u64,
)
    ensures
        revision_after(before, after, revision) == revision <==> before == after,
        before != after && revision < u64::MAX ==> revision_after(before, after, revision)
            == revision + 1,
        before != after && revision == u64::MAX ==> revision_after(before, after, revision) == 0,
{
}

/// A chosen display holds exactly as long as some line offers it; no choice always holds.
pub proof fn law_lost_display_is_given_up(
    selection: Seq<char>,
    choices: Seq<display::ChoiceView>,
    choice: display::ChoiceView,
)
    ensures
        normalized(display::ModeView::Auto, choices) == display::ModeView::Auto,
        normalized(display::ModeView::Specific(choice.selection_id), choices.push(choice))
            == display::ModeView::Specific(choice.selection_id),
        (forall|i: int| 0 <= i < choices.len() ==> (#[trigger] choices[i]).selection_id != selection)
            ==> normalized(display::ModeView::Specific(selection), choices)
            == display::ModeView::Auto,
        choices.contains(choice) ==> normalized(
            display::ModeView::Specific(choice.selection_id),
            choices,
        ) == display::ModeView::Specific(choice.selection_id),
{
    let more = choices.push(choice);
    assert(more[choices.len() as int] == choice);
    if choices.contains(choice) {
        let i = choose|i: int| 0 <= i < choices.len() && choices[i] == choice;
        assert(choices[i].selection_id == choice.selection_id);
    }
}

/// The display menu comes with the second display, and once it was there it stays.
pub proof fn law_display_menu_stays(seen: bool, count: usize, later: usize)
    ensures
        !menu_shown(false, 0) && !menu_shown(false, 1),
        count >= 2 ==> menu_shown(seen, count),
        menu_shown(seen, count) ==> menu_shown(menu_shown(seen, count), later),
        !seen && count < 2 ==> !menu_shown(seen, count),
{
}

/// The menu, from top to bottom: the two agents, the displays and the monitor, and how to leave,
/// with a line between the groups.
pub proof fn law_menu_from_top_to_bottom()
    ensures
        menu_lines().len() == 7,
        menu_lines()[0] == TrayMenuLine::ToggleCc,
        menu_lines()[1] == TrayMenuLine::ToggleCx,
        menu_lines()[3] == TrayMenuLine::DisplayLocation,
        menu_lines()[4] == TrayMenuLine::EventMonitor,
        menu_lines()[6] == TrayMenuLine::Quit,
        forall|i: int|
            0 <= i < 7 && (#[trigger] menu_lines()[i]) == TrayMenuLine::Separator <==> i == 2 || i
                == 5,
{
}

/// Every line but a separator has a title; those of the agents are the same in both languages.
pub proof fn law_menu_titles(language: AppLanguage, line: TrayMenuLine, agent: Seq<char>)
    ensures
        title_of(language, line, agent) is None <==> line == TrayMenuLine::Separator,
        title_of(language, TrayMenuLine::ToggleCc, agent) == Some(agent),
        title_of(language, TrayMenuLine::ToggleCx, agent) == Some("Codex"@),
        title_of(AppLanguage::English, TrayMenuLine::DisplayLocation, agent) == Some(
            "Display Location"@,
        ),
        title_of(AppLanguage::English, TrayMenuLine::EventMonitor, agent) == Some("Event Monitor"@),
        title_of(AppLanguage::English, TrayMenuLine::Quit, agent) == Some("Quit"@),
        title_of(AppLanguage::SimplifiedChinese, TrayMenuLine::DisplayLocation, agent) == Some(
            "显示位置"@,
        ),
        title_of(AppLanguage::SimplifiedChinese, TrayMenuLine::EventMonitor, agent) == Some(
            "事件监控"@,
        ),
        title_of(AppLanguage::SimplifiedChinese, TrayMenuLine::Quit, agent) == Some("退出"@),
{
}

/// The display menu offers no choice first, checked where nothing is chosen. With several displays
/// each has a line in its turn, under its label, and the chosen one is checked; with fewer the menu
/// says so.
pub proof fn law_display_menu_lines(
    choices: Seq<display::ChoiceView>,
    mode: display::ModeView,
    i: int,
)
    ensures
        display_menu(choices, mode)[0] == DisplayLineView::Automatic(mode is Auto),
        choices.len() < 2 ==> display_menu(choices, mode).len() == 2 && display_menu(choices, mode)[1]
            == DisplayLineView::OnlyOneDisplay,
        choices.len() >= 2 ==> display_menu(choices, mode).len() == choices.len() + 2
            && display_menu(choices, mode)[1] == DisplayLineView::Separator,
        choices.len() >= 2 && 0 <= i < choices.len() ==> ({
            let line = display_menu(choices, mode)[i + 2];
            &&& line is Display
            &&& line->Display_0 == choices[i].label
            &&& line->Display_1 == choices[i].selection_id
            &&& line->Display_2 <==> mode == display::ModeView::Specific(choices[i].selection_id)
        }),
{
}

/// The right button opens the menu, whatever is to be seen; any other one turns what is to be seen
/// round.
pub proof fn law_clicks_on_the_icon(event_type: isize, visible: bool)
    ensures
        click_of(event_type, visible) == TrayClick::OpenMenu <==> event_type == 3 || event_type == 4,
        click_of(event_type, visible) == TrayClick::Hide ==> visible,
        click_of(event_type, visible) == TrayClick::Show ==> !visible,
{
}

/// A pixel of a frame is a square of sixteen pixels of the icon, which is 68 wide and 44 high: four
/// to the right and four down for every pixel of the frame, from the frame's corner on.
pub proof fn law_frame_is_enlarged_fourfold(
    sheet: Sprite,
    index: int,
    frame: int,
    i: int,
    j: int,
    a: int,
    b: int,
)
    requires
        0 <= index < 10,
        0 <= i < tray_anims()[index].w,
        0 <= j < tray_anims()[index].h,
        0 <= a < 4,
        0 <= b < 4,
    ensures
        ({
            let anim = tray_anims()[index];
            icon_pixel(
                sheet,
                anim,
                frame,
                offset_x(anim) + 4 * i + a,
                offset_y(anim) + 4 * j + b,
            ) == sheet.at(32 * frame + anim.x + i, 32 * index + anim.y + j)
        }),
        ICON_W == 68,
        ICON_H == 44,
        WINDOWS_ICON == 32,
{
    let anim = tray_anims()[index];
    assert((4 * i + a) / 4 == i && (4 * j + b) / 4 == j);
}

/// A frame stands in the middle of the icon and on its floor; one that is too high begins at the
/// top. Beside it the icon is clear.
pub proof fn law_frame_stands_in_the_middle(sheet: Sprite, index: int, frame: int, x: int, y: int)
    requires
        0 <= index < 10,
    ensures
        ({
            let anim = tray_anims()[index];
            &&& 0 <= 68 - (offset_x(anim) + 4 * anim.w) - offset_x(anim) <= 1
            &&& anim.h <= 11 ==> offset_y(anim) + 4 * anim.h == 44
            &&& anim.h > 11 ==> offset_y(anim) == 0
            &&& (x < offset_x(anim) || x >= offset_x(anim) + 4 * anim.w || y < offset_y(anim) || y
                >= offset_y(anim) + 4 * anim.h) ==> icon_pixel(sheet, anim, frame, x, y)
                == sprite::clear_pixel()
        }),
{
}

/// A part that lies inside is kept whole where it is; one that reaches over the end is cut there, and
/// one beyond it is empty.
pub proof fn law_parts_are_kept_inside(at: int, size: int, limit: int)
    requires
        0 <= at,
        0 <= size,
        0 <= limit,
    ensures
        at + size <= limit ==> clamped_start(at, limit) == at && clamped_size(at, size, limit)
            == size,
        at <= limit < at + size ==> clamped_start(at, limit) == at && clamped_size(at, size, limit)
            == limit - at,
        at > limit ==> clamped_start(at, limit) == limit && clamped_size(at, size, limit) == 0,
{
}

/// The icon of the Windows tray shows twelve by twelve pixels of a cell, nine from its left and
/// twenty from its top.
pub proof fn law_windows_icon_is_the_middle_of_a_cell(
    part: Seq<u8>,
    sheet: Sprite,
    row: int,
    col: int,
    x: int,
    y: int,
)
    requires
        is_cell_middle(part, sheet, row, col),
        0 <= row,
        0 <= col,
        32 * col + 21 <= sheet.width,
        32 * row + 32 <= sheet.height,
        0 <= x < 12,
        0 <= y < 12,
    ensures
        part.len() == 576,
        sprite::pixel_at(part, 12, x, y) == sheet.at(32 * col + 9 + x, 32 * row + 20 + y),
{
    assert(sprite::holds(part, 12, 12));
}

/// A sheet holds a frame exactly if the part that is drawn lies inside it: the frame stands in its
/// own cell of the row of its animation.
pub proof fn law_sheet_holds_a_frame(sheet: Sprite, anim: TrayAnimDef, frame: int)
    ensures
        holds_frame(sheet, anim, frame) <==> sheet.wf() && 32 * frame + anim.x + anim.w
            <= sheet.width && 32 * anim.row + anim.y + anim.h <= sheet.height,
{
}

/// A sheet of eight by ten cells holds all frames of all animations.
pub proof fn law_full_sheet_holds_all_frames(sheet: Sprite)
    requires
        sheet.wf(),
        sheet.width >= 8 * 32,
        sheet.height >= 10 * 32,
    ensures
        holds_tray_frames(sheet),
        forall|i: int| 0 <= i < 10 ==> holds_frame(sheet, #[trigger] tray_anims()[i], 0),
{
    assert forall|i: int, f: int|
        0 <= i < TRAY_ANIM_COUNT && 0 <= f < tray_anims()[i].frames implies #[trigger] holds_frame(
        sheet,
        tray_anims()[i],
        f,
    ) by {
        law_icon_shows_the_cats_animations(i);
    }
    assert forall|i: int| 0 <= i < 10 implies holds_frame(sheet, #[trigger] tray_anims()[i], 0) by {
        law_icon_shows_the_cats_animations(i);
    }
}

/// A sheet that holds all frames holds every single one.
pub proof fn law_all_frames_are_held(sheet: Sprite, i: int, f: int)
    requires
        holds_tray_frames(sheet),
        0 <= i < 10,
        0 <= f < cat::frame_count(i),
    ensures
        holds_frame(sheet, tray_anims()[i], f),
{
    law_icon_shows_the_cats_animations(i);
}

/// The pixels of an icon are all determined by the frame: there is one drawing of it, and one file.
pub proof fn law_one_icon_for_a_frame(
    a: Seq<u8>,
    b: Seq<u8>,
    sheet: Sprite,
    index: int,
    frame: int,
    png: Option<Seq<u8>>,
)
    requires
        is_icon(a, sheet, tray_anims()[index], frame),
    ensures
        a.len() == 68 * 44 * 4,
        is_icon(b, sheet, tray_anims()[index], frame) ==> a == b,
        is_icon_png(png, sheet, index, frame) <==> png == sprite::encoded_png(a, 68, 44),
{
    assert(sprite::holds(a, 68, 44));
    assert forall|c: Seq<u8>| is_icon(c, sheet, tray_anims()[index], frame) implies a == c by {
        assert(sprite::holds(c, 68, 44));
        assert forall|k: int| 0 <= k < a.len() implies a[k] == c[k] by {
            let n = k / 4;
            let x = n % 68;
            let y = n / 68;
            assert(0 <= y < 44);
            assert(y * 68 + x == n);
            let p = sprite::pixel_at(a, 68, x, y);
            let q = sprite::pixel_at(c, 68, x, y);
            assert(p == q);
            assert(k == n * 4 || k == n * 4 + 1 || k == n * 4 + 2 || k == n * 4 + 3);
        }
        assert(a =~= c);
    }
    if is_icon_png(png, sheet, index, frame) {
        let rgba = choose|rgba: Seq<u8>|
            #![trigger is_icon(rgba, sheet, tray_anims()[index], frame)]
            is_icon(rgba, sheet, tray_anims()[index], frame) && png == sprite::encoded_png(
                rgba,
                ICON_W,
                ICON_H,
            );
        assert(rgba == a);
    }
}

/// The files of an animation are those of its frames, in their order.
pub proof fn law_files_are_the_frames(pngs: Seq<Vec<u8>>, sheet: Sprite, index: int, f: int)
    requires
        are_frames(pngs, sheet, index),
        0 <= f < pngs.len(),
    ensures
        is_icon_png(Some(pngs[f]@), sheet, index, f),
{
}

} // verus!
