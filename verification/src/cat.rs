//! The cats: what they show of an agent's state, and how their animations follow it.

use vstd::prelude::*;

use crate::chance::{random_between, random_ratio};
use crate::events;
use crate::events::HookEvent;
use crate::text;
use crate::text::same_text;

verus! {

// ---------------------------------------------------------------------------
// Animations
// ---------------------------------------------------------------------------

/// One animation: its row in the sprite sheet, its frames and how long each is shown.
#[derive(Clone, Copy)]
pub struct AnimationDef {
    pub name: &'static str,
    pub row: u32,
    pub frame_count: usize,
    pub frame_millis: u64,
    /// In pixels per second; zero for an animation on the spot.
    pub move_speed: u32,
}

/// The number of animations.
pub const ANIMATION_COUNT: usize = 10;

/// The index of the walk.
pub const ANIM_WALK: usize = 4;

/// The index of the run.
pub const ANIM_RUN: usize = 5;

/// The index of the sleep.
pub const ANIM_SLEEP: usize = 6;

/// The index of the pounce, with which a cat leaves its activity.
pub const ANIM_POUNCE: usize = 8;

/// The index of the stretch, with which a cat wakes up.
pub const ANIM_STRETCH: usize = 9;

/// The number of frames of an animation.
pub open spec fn frame_count(anim: int) -> int {
    if anim < 4 || anim == 6 {
        4
    } else if anim == 7 {
        6
    } else if anim == 8 {
        7
    } else {
        8
    }
}

/// The milliseconds for which a frame of an animation is shown.
pub open spec fn frame_millis(anim: int) -> int {
    if anim < 4 {
        300
    } else if anim == 4 || anim == 5 {
        100
    } else if anim == 6 {
        500
    } else if anim == 8 {
        150
    } else {
        200
    }
}

/// The speed of an animation in pixels per second.
pub open spec fn move_speed(anim: int) -> int {
    if anim == 4 {
        60
    } else if anim == 5 {
        180
    } else if anim == 8 {
        40
    } else {
        0
    }
}

/// The name of an animation.
pub open spec fn animation_name(anim: int) -> Seq<char> {
    if anim == 0 {
        "sit_1"@
    } else if anim == 1 {
        "sit_2"@
    } else if anim == 2 {
        "sit_3"@
    } else if anim == 3 {
        "sit_4"@
    } else if anim == 4 {
        "walk"@
    } else if anim == 5 {
        "run"@
    } else if anim == 6 {
        "sleep"@
    } else if anim == 7 {
        "play"@
    } else if anim == 8 {
        "pounce"@
    } else {
        "stretch"@
    }
}

/// The definition of an animation.
pub fn animation(anim: usize) -> (r: AnimationDef)
    requires
        anim < ANIMATION_COUNT,
    ensures
        r.name@ == animation_name(anim as int),
        r.row == anim,
        r.frame_count == frame_count(anim as int),
        r.frame_millis == frame_millis(anim as int),
        r.move_speed == move_speed(anim as int),
{
    let name = if anim == 0 {
        "sit_1"
    } else if anim == 1 {
        "sit_2"
    } else if anim == 2 {
        "sit_3"
    } else if anim == 3 {
        "sit_4"
    } else if anim == 4 {
        "walk"
    } else if anim == 5 {
        "run"
    } else if anim == 6 {
        "sleep"
    } else if anim == 7 {
        "play"
    } else if anim == 8 {
        "pounce"
    } else {
        "stretch"
    };
    let count: usize = if anim < 4 || anim == 6 {
        4
    } else if anim == 7 {
        6
    } else if anim == 8 {
        7
    } else {
        8
    };
    let millis: u64 = if anim < 4 {
        300
    } else if anim == 4 || anim == 5 {
        100
    } else if anim == 6 {
        500
    } else if anim == 8 {
        150
    } else {
        200
    };
    let speed: u32 = if anim == 4 {
        60
    } else if anim == 5 {
        180
    } else if anim == 8 {
        40
    } else {
        0
    };
    AnimationDef {
        name,
        row: anim as u32,
        frame_count: count,
        frame_millis: millis,
        move_speed: speed,
    }
}

// ---------------------------------------------------------------------------
// States
// ---------------------------------------------------------------------------

/// What an agent is doing.
#[derive(Clone, Copy, PartialEq, Eq, Debug, Structural)]
pub enum ClaudeState {
    Active,
    Idle,
    Offline,
}

/// The animations that show a state: walking and running, sitting and playing, or sleep.
pub open spec fn pool(state: ClaudeState) -> Seq<usize> {
    match state {
        ClaudeState::Active => seq![4usize, 5usize],
        ClaudeState::Idle => seq![0usize, 1usize, 2usize, 3usize, 7usize],
        ClaudeState::Offline => seq![6usize],
    }
}

/// The animations that show a state.
pub fn state_animations(state: ClaudeState) -> (r: Vec<usize>)
    ensures
        r@ == pool(state),
{
    match state {
        ClaudeState::Active => vec![4usize, 5usize],
        ClaudeState::Idle => vec![0usize, 1usize, 2usize, 3usize, 7usize],
        ClaudeState::Offline => vec![6usize],
    }
}

/// The event types that tell of an agent at work.
pub open spec fn is_active_type(event_type: Seq<char>) -> bool {
    ||| event_type == "UserPromptSubmit"@
    ||| event_type == "PreToolUse"@
    ||| event_type == "PostToolUse"@
    ||| event_type == "PostToolUseFailure"@
    ||| event_type == "SubagentStart"@
    ||| event_type == "SubagentStop"@
    ||| event_type == "PreCompact"@
    ||| event_type == "WorktreeCreate"@
    ||| event_type == "WorktreeRemove"@
    ||| event_type == "api_request"@
    ||| event_type == "tool_decision"@
    ||| event_type == "tool_result"@
    ||| event_type == "sse_event"@
}

/// The state that an event type tells of. Only the end of a session puts an agent off line;
/// whatever is not work is rest.
pub open spec fn state_of(event_type: Seq<char>) -> ClaudeState {
    if is_active_type(event_type) {
        ClaudeState::Active
    } else if event_type == "SessionEnd"@ {
        ClaudeState::Offline
    } else {
        ClaudeState::Idle
    }
}

/// The state that an event type tells of.
pub fn event_type_to_state(event_type: &str) -> (r: ClaudeState)
    ensures
        r == state_of(event_type@),
{
    if same_text(event_type, "UserPromptSubmit") || same_text(event_type, "PreToolUse")
        || same_text(event_type, "PostToolUse") || same_text(event_type, "PostToolUseFailure")
        || same_text(event_type, "SubagentStart") || same_text(event_type, "SubagentStop")
        || same_text(event_type, "PreCompact") || same_text(event_type, "WorktreeCreate")
        || same_text(event_type, "WorktreeRemove") || same_text(event_type, "api_request")
        || same_text(event_type, "tool_decision") || same_text(event_type, "tool_result")
        || same_text(event_type, "sse_event") {
        ClaudeState::Active
    } else if same_text(event_type, "SessionEnd") {
        ClaudeState::Offline
    } else {
        ClaudeState::Idle
    }
}

/// The state that the tray shows: that of the busier one of the agents that are shown.
pub open spec fn busier(a: ClaudeState, b: ClaudeState) -> ClaudeState {
    if a == ClaudeState::Active || b == ClaudeState::Active {
        ClaudeState::Active
    } else if a == ClaudeState::Idle || b == ClaudeState::Idle {
        ClaudeState::Idle
    } else {
        ClaudeState::Offline
    }
}

/// The state of an agent that is shown; one that is not is off line.
pub open spec fn shown_state(state: ClaudeState, on: bool) -> ClaudeState {
    if on {
        state
    } else {
        ClaudeState::Offline
    }
}

/// The state that the tray shows for the two agents.
pub fn combined_state(cc: ClaudeState, cc_on: bool, cx: ClaudeState, cx_on: bool) -> (r:
    ClaudeState)
    ensures
        r == busier(shown_state(cc, cc_on), shown_state(cx, cx_on)),
{
    let a = if cc_on {
        cc
    } else {
        ClaudeState::Offline
    };
    let b = if cx_on {
        cx
    } else {
        ClaudeState::Offline
    };
    if a == ClaudeState::Active || b == ClaudeState::Active {
        ClaudeState::Active
    } else if a == ClaudeState::Idle || b == ClaudeState::Idle {
        ClaudeState::Idle
    } else {
        ClaudeState::Offline
    }
}

// ---------------------------------------------------------------------------
// A cat
// ---------------------------------------------------------------------------

/// Where a cat is in its animation.
#[derive(Clone, Copy, PartialEq, Eq, Debug, Structural)]
pub struct AnimationState {
    pub current_anim: usize,
    pub current_frame: usize,
    /// The monotonic nanoseconds at which the frame was due.
    pub last_frame_time: u64,
    pub loop_count: u32,
    pub max_loops: u32,
}

/// A cat: a big one for an agent, or a small one for a subagent.
#[derive(Debug)]
pub struct CatEntity {
    pub id: String,
    pub is_mini: bool,
    pub state: AnimationState,
    pub moving_right: bool,
    pub claude_state: ClaudeState,
    pub transition_anim: Option<usize>,
    pub pending_state: Option<ClaudeState>,
    pub pending_permission_count: usize,
    pub notification_text: Option<String>,
    pub notification_expire: u64,
    /// A small cat that runs back to its big one.
    pub returning: bool,
    pub spawn_time: u64,
}

/// What a cat shows.
#[verifier::ext_equal]
pub struct CatView {
    pub id: Seq<char>,
    pub is_mini: bool,
    pub state: AnimationState,
    pub moving_right: bool,
    pub claude_state: ClaudeState,
    pub transition_anim: Option<usize>,
    pub pending_state: Option<ClaudeState>,
    pub pending_permission_count: usize,
    pub notification_text: Option<Seq<char>>,
    pub notification_expire: u64,
    pub returning: bool,
    pub spawn_time: u64,
}

impl View for CatEntity {
    type V = CatView;

    open spec fn view(&self) -> CatView {
        CatView {
            id: self.id@,
            is_mini: self.is_mini,
            state: self.state,
            moving_right: self.moving_right,
            claude_state: self.claude_state,
            transition_anim: self.transition_anim,
            pending_state: self.pending_state,
            pending_permission_count: self.pending_permission_count,
            notification_text: text::string_view(self.notification_text),
            notification_expire: self.notification_expire,
            returning: self.returning,
            spawn_time: self.spawn_time,
        }
    }
}

impl CatView {
    /// A big cat in order. It is inside its animation. A transition goes with the state that it
    /// leads to and is what the cat plays; without one, the cat plays an animation of its state.
    pub open spec fn big_wf(self) -> bool {
        &&& self.state.current_anim < ANIMATION_COUNT
        &&& self.state.current_frame < frame_count(self.state.current_anim as int)
        &&& self.state.loop_count < self.state.max_loops <= 4
        &&& self.transition_anim is Some <==> self.pending_state is Some
        &&& match self.transition_anim {
            Some(anim) => anim == self.state.current_anim && (anim == ANIM_POUNCE || anim
                == ANIM_STRETCH),
            None => pool(self.claude_state).contains(self.state.current_anim),
        }
    }

    /// A small cat in order: it walks or runs.
    pub open spec fn mini_wf(self) -> bool {
        &&& self.state.current_anim < 2
        &&& self.state.current_frame < 8
        &&& self.state.loop_count < self.state.max_loops < 8
    }

    /// The cat in a given animation, at its start.
    pub open spec fn playing(self, anim: usize, loops: u32, right: bool) -> CatView {
        CatView {
            state: AnimationState {
                current_anim: anim,
                current_frame: 0,
                loop_count: 0,
                max_loops: loops,
                last_frame_time: self.state.last_frame_time,
            },
            moving_right: if move_speed(anim as int) > 0 {
                right
            } else {
                self.moving_right
            },
            ..self
        }
    }

    /// An animation that a state can turn to: one of its pool, and another one than is playing
    /// where the pool has more than one.
    pub open spec fn can_turn_to(self, state: ClaudeState, anim: usize) -> bool {
        &&& pool(state).contains(anim)
        &&& pool(state).len() > 1 ==> anim != self.state.current_anim
    }

    /// `next` is this cat, turned to some animation of a state.
    pub open spec fn turned_to(self, state: ClaudeState, next: CatView) -> bool {
        &&& self.can_turn_to(state, next.state.current_anim)
        &&& 2 <= next.state.max_loops < 5
        &&& next == self.playing(
            next.state.current_anim,
            next.state.max_loops,
            next.moving_right,
        )
    }

    /// `next` is this cat, in a transition that leads to a state.
    pub open spec fn in_transition(self, anim: usize, target: ClaudeState, next: CatView) -> bool {
        next == (CatView { transition_anim: Some(anim), pending_state: Some(target), ..self }).playing(
            anim,
            1,
            next.moving_right,
        )
    }

    /// `next` is this cat after it left `from` for its state: it wakes up with a stretch and
    /// leaves its activity, or one that went by unseen, with a pounce.
    pub open spec fn left_state(
        self,
        from: ClaudeState,
        had_active: bool,
        next: CatView,
    ) -> bool {
        let to = self.claude_state;
        if from == ClaudeState::Offline && to != ClaudeState::Offline {
            self.in_transition(ANIM_STRETCH, to, next)
        } else if (from == ClaudeState::Active || had_active) && to != ClaudeState::Active {
            self.in_transition(ANIM_POUNCE, to, next)
        } else {
            self.turned_to(to, next)
        }
    }

    /// `next` is this cat after its agent was seen in a state. A transition is played to its end
    /// first. An activity that went by unseen is still shown by a pounce.
    #[verifier::opaque]
    pub open spec fn reacted(
        self,
        state: ClaudeState,
        had_active: bool,
        next: CatView,
    ) -> bool {
        if state != self.claude_state {
            if self.transition_anim is Some {
                next == (CatView { pending_state: Some(state), ..self })
            } else {
                (CatView { claude_state: state, ..self }).left_state(
                    self.claude_state,
                    had_active,
                    next,
                )
            }
        } else if had_active && state != ClaudeState::Active && self.transition_anim is None {
            self.in_transition(ANIM_POUNCE, state, next)
        } else {
            next == self
        }
    }
}

/// A big cat as it is at first: asleep.
pub open spec fn sleeping(now: u64) -> CatView {
    CatView {
        id: "main"@,
        is_mini: false,
        state: AnimationState {
            current_anim: ANIM_SLEEP,
            current_frame: 0,
            last_frame_time: now,
            loop_count: 0,
            max_loops: 3,
        },
        moving_right: true,
        claude_state: ClaudeState::Offline,
        transition_anim: None,
        pending_state: None,
        pending_permission_count: 0,
        notification_text: None,
        notification_expire: now,
        returning: false,
        spawn_time: now,
    }
}

/// A small cat as it comes into the world.
pub open spec fn newborn(
    id: Seq<char>,
    now: u64,
    anim: usize,
    loops: u32,
    right: bool,
) -> CatView {
    CatView {
        id,
        is_mini: true,
        state: AnimationState {
            current_anim: anim,
            current_frame: 0,
            last_frame_time: now,
            loop_count: 0,
            max_loops: loops,
        },
        moving_right: right,
        claude_state: ClaudeState::Active,
        transition_anim: None,
        pending_state: None,
        pending_permission_count: 0,
        notification_text: None,
        notification_expire: now,
        returning: false,
        spawn_time: now,
    }
}

fn pool_without(state: ClaudeState, current: usize) -> (r: Vec<usize>)
    ensures
        r@.len() > 0,
        r@.len() <= 5,
        forall|i: int|
            0 <= i < r@.len() ==> pool(state).contains(#[trigger] r@[i]) && (pool(state).len() > 1
                ==> r@[i] != current),
        forall|a: usize|
            pool(state).contains(a) && (pool(state).len() > 1 ==> a != current) ==> r@.contains(a),
{
    let all = state_animations(state);
    let mut out: Vec<usize> = Vec::new();
    let mut i: usize = 0;
    while i < all.len()
        invariant
            all@ == pool(state),
            i <= all@.len(),
            out@.len() <= i,
            forall|j: int|
                0 <= j < out@.len() ==> pool(state).contains(#[trigger] out@[j]) && (pool(
                    state,
                ).len() > 1 ==> out@[j] != current),
            forall|j: int|
                0 <= j < i && (pool(state).len() > 1 ==> all@[j] != current) ==> out@.contains(
                    #[trigger] all@[j],
                ),
        decreases all@.len() - i,
    {
        if all.len() == 1 || all[i] != current {
            let ghost before = out@;
            out.push(all[i]);
            proof {
                assert(out@[before.len() as int] == all@[i as int]);
                assert forall|j: int|
                    0 <= j < i && (pool(state).len() > 1 ==> all@[j]
                        != current) implies out@.contains(#[trigger] all@[j]) by {
                    let k = choose|k: int| 0 <= k < before.len() && before[k] == all@[j];
                    assert(out@[k] == all@[j]);
                }
            }
        }
        i += 1;
    }
    proof {
        let p = pool(state);
        if p.len() > 1 {
            assert(p[0] != p[1]);
            if p[0] != current {
                assert(out@.contains(all@[0]));
            } else {
                assert(out@.contains(all@[1]));
            }
        } else {
            assert(out@.contains(all@[0]));
        }
    }
    out
}

impl CatEntity {
    /// A big cat, asleep.
    pub fn new_main(now: u64) -> (r: CatEntity)
        ensures
            r@ == sleeping(now),
            r@.big_wf(),
    {
        proof {
            assert(pool(ClaudeState::Offline)[0] == ANIM_SLEEP);
        }
        CatEntity {
            id: "main".to_owned(),
            is_mini: false,
            state: AnimationState {
                current_anim: ANIM_SLEEP,
                current_frame: 0,
                last_frame_time: now,
                loop_count: 0,
                max_loops: 3,
            },
            moving_right: true,
            claude_state: ClaudeState::Offline,
            transition_anim: None,
            pending_state: None,
            pending_permission_count: 0,
            notification_text: None,
            notification_expire: now,
            returning: false,
            spawn_time: now,
        }
    }

    /// A small cat for a subagent, in the given one of its two animations.
    pub fn new_mini_with(agent_id: &str, now: u64, anim: usize, loops: u32, right: bool) -> (r:
        CatEntity)
        requires
            anim < 2,
            3 <= loops < 8,
        ensures
            r@ == newborn(agent_id@, now, anim, loops, right),
            r@.mini_wf(),
    {
        CatEntity {
            id: agent_id.to_owned(),
            is_mini: true,
            state: AnimationState {
                current_anim: anim,
                current_frame: 0,
                last_frame_time: now,
                loop_count: 0,
                max_loops: loops,
            },
            moving_right: right,
            claude_state: ClaudeState::Active,
            transition_anim: None,
            pending_state: None,
            pending_permission_count: 0,
            notification_text: None,
            notification_expire: now,
            returning: false,
            spawn_time: now,
        }
    }

    /// A small cat for a subagent. Its animation, its direction and how often it plays are
    /// random.
    pub fn new_mini(agent_id: &str, now: u64) -> (r: CatEntity)
        ensures
            r@ == newborn(
                agent_id@,
                now,
                r.state.current_anim,
                r.state.max_loops,
                r.moving_right,
            ),
            3 <= r.state.max_loops,
            r@.mini_wf(),
    {
        let anim = random_between(0, 2) as usize;
        let right = random_ratio(1, 2);
        let loops = random_between(3, 8);
        CatEntity::new_mini_with(agent_id, now, anim, loops, right)
    }

    /// Starts an animation.
    pub fn play(&mut self, anim: usize, loops: u32, right: bool)
        requires
            anim < ANIMATION_COUNT,
        ensures
            final(self)@ == old(self)@.playing(anim, loops, right),
    {
        self.state.current_anim = anim;
        self.state.current_frame = 0;
        self.state.loop_count = 0;
        self.state.max_loops = loops;
        if animation(anim).move_speed > 0 {
            self.moving_right = right;
        }
    }

    /// Turns to a random animation of a state, another one than is playing where there is one.
    pub fn switch_to_state_animation(&mut self, state: ClaudeState)
        ensures
            old(self)@.turned_to(state, final(self)@),
    {
        let candidates = pool_without(state, self.state.current_anim);
        let pick = random_between(0, candidates.len() as u32) as usize;
        let loops = random_between(2, 5);
        let right = random_ratio(1, 2);
        let anim = candidates[pick];
        proof {
            assert(pool(state).contains(candidates@[pick as int]));
        }
        self.play(anim, loops, right);
    }

    /// Starts a transition's animation, once. A moving one goes in a random direction.
    pub fn switch_to_animation(&mut self, anim: usize)
        requires
            anim < ANIMATION_COUNT,
        ensures
            final(self)@ == old(self)@.playing(anim, 1, final(self)@.moving_right),
    {
        let right = random_ratio(1, 2);
        self.play(anim, 1, right);
    }

    fn start_transition(&mut self, anim: usize, target: ClaudeState)
        requires
            anim < ANIMATION_COUNT,
        ensures
            old(self)@.in_transition(anim, target, final(self)@),
    {
        self.transition_anim = Some(anim);
        self.pending_state = Some(target);
        self.switch_to_animation(anim);
    }

    fn leave_state(&mut self, from: ClaudeState, had_active: bool)
        ensures
            old(self)@.left_state(from, had_active, final(self)@),
    {
        let to = self.claude_state;
        if from == ClaudeState::Offline && to != ClaudeState::Offline {
            self.start_transition(ANIM_STRETCH, to);
        } else if (from == ClaudeState::Active || had_active) && to != ClaudeState::Active {
            self.start_transition(ANIM_POUNCE, to);
        } else {
            self.switch_to_state_animation(to);
        }
    }

    /// Follows the state in which the cat's agent was seen. `had_active` tells that the agent
    /// was at work since it was last looked at.
    pub fn react(&mut self, state: ClaudeState, had_active: bool)
        ensures
            old(self)@.reacted(state, had_active, final(self)@),
    {
        proof {
            reveal(CatView::reacted);
        }
        if state != self.claude_state {
            if self.transition_anim.is_some() {
                self.pending_state = Some(state);
            } else {
                let from = self.claude_state;
                self.claude_state = state;
                self.leave_state(from, had_active);
            }
        } else if had_active && state != ClaudeState::Active && self.transition_anim.is_none() {
            self.start_transition(ANIM_POUNCE, state);
        }
    }
}

/// A big cat in order stays in order, whatever its agent is seen doing, and without a
/// transition it then plays an animation of the state that was seen.
pub proof fn law_reaction_keeps_order(
    cat: CatView,
    state: ClaudeState,
    had_active: bool,
    next: CatView,
)
    requires
        cat.big_wf(),
        cat.reacted(state, had_active, next),
    ensures
        next.big_wf(),
        next.transition_anim is None ==> next.claude_state == state && pool(state).contains(
            next.state.current_anim,
        ),
        next.transition_anim is Some && cat.transition_anim is None ==> next.pending_state
            == Some(state) && next.claude_state == state,
{
    reveal(CatView::reacted);
}

// ---------------------------------------------------------------------------
// Frames
// ---------------------------------------------------------------------------

/// The nanoseconds for which a frame of an animation is shown.
pub open spec fn frame_nanos(anim: int) -> int {
    frame_millis(anim) * 1_000_000
}

/// When the next frame counts as shown: a frame later, or now where that is a frame or more
/// behind.
pub open spec fn next_frame_time(last: u64, nanos: int, now: u64) -> u64 {
    if now - (last + nanos) >= nanos {
        now
    } else {
        (last + nanos) as u64
    }
}

impl CatView {
    /// The cat with another time for its frame.
    pub open spec fn timed(self, time: u64) -> CatView {
        CatView { state: AnimationState { last_frame_time: time, ..self.state }, ..self }
    }

    /// The cat at another place of its animation.
    pub open spec fn at_frame(self, frame: usize, loops: u32) -> CatView {
        CatView {
            state: AnimationState { current_frame: frame, loop_count: loops, ..self.state },
            ..self
        }
    }

    /// `next` is this cat after it has played its animation as often as it was to. The end of a
    /// transition brings the state that it led to, with another transition where the state
    /// changed meanwhile.
    pub open spec fn played_out(self, next: CatView) -> bool {
        let target = match self.pending_state {
            Some(state) => state,
            None => self.claude_state,
        };
        if self.transition_anim is Some {
            let settled = CatView {
                transition_anim: None,
                pending_state: None,
                claude_state: target,
                ..self
            };
            if target != self.claude_state {
                settled.left_state(self.claude_state, false, next)
            } else {
                settled.turned_to(target, next)
            }
        } else {
            self.turned_to(self.claude_state, next)
        }
    }

    /// `next` is this cat, one frame on.
    pub open spec fn one_frame_on(self, next: CatView) -> bool {
        if self.state.current_frame + 1 < frame_count(self.state.current_anim as int) {
            next == self.at_frame((self.state.current_frame + 1) as usize, self.state.loop_count)
        } else if self.state.loop_count + 1 < self.state.max_loops {
            next == self.at_frame(0, (self.state.loop_count + 1) as u32)
        } else {
            self.played_out(next)
        }
    }

    /// `next` is this cat at a time: one frame on where its frame was shown long enough.
    pub open spec fn advanced(self, now: u64, next: CatView) -> bool {
        let nanos = frame_nanos(self.state.current_anim as int);
        if now - self.state.last_frame_time < nanos {
            next == self
        } else {
            &&& self.timed(next.state.last_frame_time).one_frame_on(next)
            &&& next.state.last_frame_time == next_frame_time(
                self.state.last_frame_time,
                nanos,
                now,
            )
        }
    }

    /// `next` is this small cat, one frame on. After enough rounds it changes between walking
    /// and running, and may turn round.
    pub open spec fn mini_one_frame_on(self, next: CatView) -> bool {
        if self.state.current_frame + 1 < 8 {
            next == self.at_frame((self.state.current_frame + 1) as usize, self.state.loop_count)
        } else if self.state.loop_count + 1 < self.state.max_loops {
            next == self.at_frame(0, (self.state.loop_count + 1) as u32)
        } else {
            &&& 3 <= next.state.max_loops < 8
            &&& next == (CatView {
                state: AnimationState {
                    current_anim: (1 - self.state.current_anim) as usize,
                    current_frame: 0,
                    loop_count: 0,
                    max_loops: next.state.max_loops,
                    last_frame_time: self.state.last_frame_time,
                },
                moving_right: next.moving_right,
                ..self
            })
        }
    }

    /// `next` is this small cat at a time.
    pub open spec fn mini_advanced(self, now: u64, next: CatView) -> bool {
        if now - self.state.last_frame_time < MINI_FRAME_NANOS {
            next == self
        } else {
            &&& self.timed(next.state.last_frame_time).mini_one_frame_on(next)
            &&& next.state.last_frame_time == next_frame_time(
                self.state.last_frame_time,
                MINI_FRAME_NANOS as int,
                now,
            )
        }
    }

    /// The small cat at a time: it goes home when it has been out for too long.
    pub open spec fn after_timeout(self, now: u64) -> CatView {
        CatView {
            returning: self.returning || now - self.spawn_time > MINI_LIFE_NANOS,
            ..self
        }
    }

    /// The small cat of a Codex subagent.
    pub open spec fn is_codex(self) -> bool {
        "cx:"@.is_prefix_of(self.id)
    }

    /// Whether the small cat is shown, where it is told which agents are.
    pub open spec fn shown_with(self, cc_on: bool, cx_on: bool) -> bool {
        if self.is_codex() {
            cx_on
        } else {
            cc_on
        }
    }

    /// The small cat on its run home.
    pub open spec fn homeward(self, right: bool) -> CatView {
        CatView {
            moving_right: right,
            state: AnimationState {
                current_anim: 1,
                current_frame: if self.state.current_anim == 1 {
                    self.state.current_frame
                } else {
                    0
                },
                ..self.state
            },
            ..self
        }
    }

    /// The cat after it reached an end of its ground.
    pub open spec fn turned_at_edge(self, right: bool) -> CatView {
        CatView {
            moving_right: if self.returning {
                self.moving_right
            } else {
                right
            },
            ..self
        }
    }

    /// The label of the requests that wait for the user.
    pub open spec fn waiting_label(self) -> Option<Seq<char>> {
        if self.pending_permission_count > 0 {
            Some("需要人工介入 ("@ + text::decimal(self.pending_permission_count as nat) + ")"@)
        } else {
            None
        }
    }

    /// The notification that is to be seen at a time.
    pub open spec fn notice_at(self, now: u64) -> Option<Seq<char>> {
        if now < self.notification_expire {
            self.notification_text
        } else {
            None
        }
    }

    /// The cat without a notification that is no longer to be seen.
    pub open spec fn without_old_notice(self, now: u64) -> CatView {
        CatView {
            notification_text: if now >= self.notification_expire {
                None
            } else {
                self.notification_text
            },
            ..self
        }
    }
}

/// The nanoseconds for which a frame of a small cat is shown.
pub const MINI_FRAME_NANOS: u64 = 100_000_000;

/// The nanoseconds after which a small cat goes home by itself.
pub const MINI_LIFE_NANOS: u64 = 600_000_000_000;

fn next_time(last: u64, nanos: u64, now: u64) -> (r: u64)
    requires
        last + nanos <= now,
    ensures
        r == next_frame_time(last, nanos as int, now),
{
    let next = last + nanos;
    if now - next >= nanos {
        now
    } else {
        next
    }
}

impl CatEntity {
    fn finish(&mut self)
        requires
            old(self)@.big_wf(),
        ensures
            old(self)@.played_out(final(self)@),
    {
        if self.transition_anim.is_some() {
            let target = match self.pending_state {
                Some(state) => state,
                None => self.claude_state,
            };
            self.transition_anim = None;
            self.pending_state = None;
            let from = self.claude_state;
            self.claude_state = target;
            if target != from {
                self.leave_state(from, false);
            } else {
                self.switch_to_state_animation(target);
            }
        } else {
            let state = self.claude_state;
            self.switch_to_state_animation(state);
        }
    }

    /// Moves a big cat's animation on to a time.
    pub fn advance_frame(&mut self, now: u64)
        requires
            old(self)@.big_wf(),
        ensures
            old(self)@.advanced(now, final(self)@),
    {
        let def = animation(self.state.current_anim);
        let nanos = def.frame_millis * 1_000_000;
        if now >= self.state.last_frame_time && now - self.state.last_frame_time >= nanos {
            self.state.last_frame_time = next_time(self.state.last_frame_time, nanos, now);
            let frame = self.state.current_frame + 1;
            if frame < def.frame_count {
                self.state.current_frame = frame;
            } else if self.state.loop_count + 1 < self.state.max_loops {
                self.state.current_frame = 0;
                self.state.loop_count = self.state.loop_count + 1;
            } else {
                self.finish();
            }
        }
    }

    /// Moves a small cat's animation on to a time. `loops` and `turn` are used where it changes
    /// its animation.
    pub fn advance_mini_frame_with(&mut self, now: u64, loops: u32, turn: bool)
        requires
            old(self)@.mini_wf(),
            3 <= loops < 8,
        ensures
            old(self)@.mini_advanced(now, final(self)@),
            final(self)@.mini_wf(),
            old(self).state.current_anim != final(self).state.current_anim
                ==> final(self).state.max_loops == loops && final(self).moving_right == (
            old(self).moving_right != turn),
    {
        if now >= self.state.last_frame_time && now - self.state.last_frame_time
            >= MINI_FRAME_NANOS {
            self.state.last_frame_time = next_time(
                self.state.last_frame_time,
                MINI_FRAME_NANOS,
                now,
            );
            if self.state.current_frame + 1 < 8 {
                self.state.current_frame = self.state.current_frame + 1;
            } else if self.state.loop_count + 1 < self.state.max_loops {
                self.state.current_frame = 0;
                self.state.loop_count = self.state.loop_count + 1;
            } else {
                self.state.current_anim = 1 - self.state.current_anim;
                self.state.current_frame = 0;
                self.state.loop_count = 0;
                self.state.max_loops = loops;
                self.moving_right = self.moving_right != turn;
            }
        }
    }

    /// Moves a small cat's animation on to a time. When it changes between walking and running,
    /// it turns round in three of ten cases.
    pub fn advance_mini_frame(&mut self, now: u64)
        requires
            old(self)@.mini_wf(),
        ensures
            old(self)@.mini_advanced(now, final(self)@),
            final(self)@.mini_wf(),
    {
        let loops = random_between(3, 8);
        let turn = random_ratio(3, 10);
        self.advance_mini_frame_with(now, loops, turn);
    }

    /// Starts the time of the current frame anew.
    pub fn restart_frame(&mut self, now: u64)
        ensures
            final(self)@ == old(self)@.timed(now),
    {
        self.state.last_frame_time = now;
    }

    /// Sends a small cat home when it has been out for too long.
    pub fn check_timeout(&mut self, now: u64)
        ensures
            final(self)@ == old(self)@.after_timeout(now),
    {
        if !self.returning && now >= self.spawn_time && now - self.spawn_time > MINI_LIFE_NANOS {
            self.returning = true;
        }
    }

    /// Makes a returning small cat run towards its big one.
    pub fn run_home(&mut self, right: bool)
        requires
            old(self)@.mini_wf(),
        ensures
            final(self)@ == old(self)@.homeward(right),
            final(self)@.mini_wf(),
    {
        self.moving_right = right;
        if self.state.current_anim != 1 {
            self.state.current_anim = 1;
            self.state.current_frame = 0;
        }
    }

    /// Turns a cat that reached an end of its ground: it goes on in the given direction, but for
    /// one that is running home.
    pub fn turn_at_edge(&mut self, right: bool)
        ensures
            final(self)@ == old(self)@.turned_at_edge(right),
    {
        if !self.returning {
            self.moving_right = right;
        }
    }

    /// Whether the cat is the small cat of a Codex subagent.
    pub fn is_codex(&self) -> (r: bool)
        ensures
            r == self@.is_codex(),
    {
        text::starts_with_text(&self.id, "cx:")
    }

    /// Whether a small cat is shown: with the agent that it belongs to.
    pub fn is_shown(&self, cc_on: bool, cx_on: bool) -> (r: bool)
        ensures
            r == self@.shown_with(cc_on, cx_on),
    {
        if self.is_codex() {
            cx_on
        } else {
            cc_on
        }
    }

    /// The label of the permission requests that wait for the user, where there are some.
    pub fn permission_label(&self) -> (r: Option<String>)
        ensures
            text::string_view(r) == self@.waiting_label(),
    {
        if self.pending_permission_count > 0 {
            Some(
                text::concat3(
                    "需要人工介入 (",
                    text::decimal_text(self.pending_permission_count as u64).as_str(),
                    ")",
                ),
            )
        } else {
            None
        }
    }

    /// The notification that is to be seen at a time.
    pub fn visible_notification(&self, now: u64) -> (r: Option<&str>)
        ensures
            text::text_view(r) == self@.notice_at(now),
    {
        if now < self.notification_expire {
            text::borrowed(&self.notification_text)
        } else {
            None
        }
    }

    /// Forgets a notification that is no longer to be seen.
    pub fn clear_notification(&mut self, now: u64)
        ensures
            final(self)@ == old(self)@.without_old_notice(now),
    {
        if self.notification_text.is_some() && now >= self.notification_expire {
            self.notification_text = None;
        }
    }
}

/// A big cat in order stays in order from frame to frame.
pub proof fn law_frames_keep_order(cat: CatView, now: u64, next: CatView)
    requires
        cat.big_wf(),
        cat.advanced(now, next),
    ensures
        next.big_wf(),
        next.transition_anim is None ==> pool(next.claude_state).contains(next.state.current_anim),
{
}

/// When a transition has been played out, the cat has the state that the transition led to.
pub proof fn law_transition_reaches_its_state(cat: CatView, next: CatView)
    requires
        cat.big_wf(),
        cat.transition_anim is Some,
        cat.played_out(next),
    ensures
        Some(next.claude_state) == cat.pending_state,
        next.transition_anim is None ==> pool(next.claude_state).contains(next.state.current_anim),
        next.transition_anim is Some ==> next.pending_state == Some(next.claude_state),
{
}

/// A transition whose state does not change meanwhile is the last one: played out, it leaves the
/// cat in an animation of its state.
pub proof fn law_transition_ends(cat: CatView, next: CatView)
    requires
        cat.big_wf(),
        cat.pending_state == Some(cat.claude_state),
        cat.played_out(next),
    ensures
        next.transition_anim is None,
        next.claude_state == cat.claude_state,
{
}

/// Two animations of a state never follow on the same one, unless the state has just one.
pub proof fn law_animations_alternate(cat: CatView, state: ClaudeState, next: CatView)
    requires
        cat.turned_to(state, next),
        state != ClaudeState::Offline,
    ensures
        next.state.current_anim != cat.state.current_anim,
{
}

// ---------------------------------------------------------------------------
// What the states mean
// ---------------------------------------------------------------------------

/// The event types that tell of work are these, by name, and no other; the end of a session, and
/// nothing else, puts an agent off line; every other type tells of rest.
pub proof fn law_types_that_tell_of_work(event_type: Seq<char>)
    ensures
        state_of(event_type) == ClaudeState::Active <==> seq![
            "UserPromptSubmit"@,
            "PreToolUse"@,
            "PostToolUse"@,
            "PostToolUseFailure"@,
            "SubagentStart"@,
            "SubagentStop"@,
            "PreCompact"@,
            "WorktreeCreate"@,
            "WorktreeRemove"@,
            "api_request"@,
            "tool_decision"@,
            "tool_result"@,
            "sse_event"@,
        ].contains(event_type),
        state_of(event_type) == ClaudeState::Offline <==> event_type == "SessionEnd"@,
{
    events::lemma_type_names();
    let work = seq![
        "UserPromptSubmit"@,
        "PreToolUse"@,
        "PostToolUse"@,
        "PostToolUseFailure"@,
        "SubagentStart"@,
        "SubagentStop"@,
        "PreCompact"@,
        "WorktreeCreate"@,
        "WorktreeRemove"@,
        "api_request"@,
        "tool_decision"@,
        "tool_result"@,
        "sse_event"@,
    ];
    assert(work[0] == "UserPromptSubmit"@ && work[1] == "PreToolUse"@ && work[2] == "PostToolUse"@
        && work[3] == "PostToolUseFailure"@ && work[4] == "SubagentStart"@ && work[5]
        == "SubagentStop"@ && work[6] == "PreCompact"@ && work[7] == "WorktreeCreate"@ && work[8]
        == "WorktreeRemove"@ && work[9] == "api_request"@ && work[10] == "tool_decision"@
        && work[11] == "tool_result"@ && work[12] == "sse_event"@);
}

/// What each event of an agent's hooks says of the agent: a prompt, a tool call and its outcome, a
/// subagent, a compaction and a worktree are work; a session that ends is the end; a session that
/// starts, a question to the user and all that only informs is rest.
pub proof fn law_hook_event_tells_its_state(event: HookEvent)
    ensures
        state_of(events::event_name(event)) == (match event {
            HookEvent::UserPromptSubmit(_)
            | HookEvent::PreToolUse(_)
            | HookEvent::PostToolUse(_)
            | HookEvent::PostToolUseFailure(_)
            | HookEvent::SubagentStart(_)
            | HookEvent::SubagentStop(_)
            | HookEvent::PreCompact(_)
            | HookEvent::WorktreeCreate(_)
            | HookEvent::WorktreeRemove(_) => ClaudeState::Active,
            HookEvent::SessionEnd(_) => ClaudeState::Offline,
            HookEvent::SessionStart(_)
            | HookEvent::InstructionsLoaded(_)
            | HookEvent::PermissionRequest(_)
            | HookEvent::Notification(_)
            | HookEvent::Stop(_)
            | HookEvent::TeammateIdle(_)
            | HookEvent::TaskCompleted(_)
            | HookEvent::ConfigChange(_) => ClaudeState::Idle,
        }),
{
    events::lemma_type_names();
}

/// The two agents are shown at work exactly if one that is shown is, and asleep exactly if none
/// that is shown is on line. It does not matter which is which, nor what a hidden one does.
pub proof fn law_busier_agent_is_shown(
    cc: ClaudeState,
    cc_on: bool,
    cx: ClaudeState,
    cx_on: bool,
    hidden: ClaudeState,
)
    ensures
        ({
            let both = busier(shown_state(cc, cc_on), shown_state(cx, cx_on));
            &&& both == ClaudeState::Active <==> (cc_on && cc == ClaudeState::Active) || (cx_on
                && cx == ClaudeState::Active)
            &&& both == ClaudeState::Offline <==> (cc_on ==> cc == ClaudeState::Offline) && (cx_on
                ==> cx == ClaudeState::Offline)
            &&& both == busier(shown_state(cx, cx_on), shown_state(cc, cc_on))
            &&& !cc_on ==> both == busier(shown_state(hidden, cc_on), shown_state(cx, cx_on))
            &&& !cx_on ==> both == busier(shown_state(cc, cc_on), shown_state(hidden, cx_on))
        }),
{
}

/// An agent at work is shown walking or running, one at rest sitting or playing, one that is off
/// line asleep. The pounce and the stretch show no state.
pub proof fn law_animations_by_name(anim: usize)
    requires
        anim < 10,
    ensures
        pool(ClaudeState::Active).contains(anim) <==> animation_name(anim as int) == "walk"@
            || animation_name(anim as int) == "run"@,
        pool(ClaudeState::Idle).contains(anim) <==> animation_name(anim as int) == "sit_1"@
            || animation_name(anim as int) == "sit_2"@ || animation_name(anim as int) == "sit_3"@
            || animation_name(anim as int) == "sit_4"@ || animation_name(anim as int) == "play"@,
        pool(ClaudeState::Offline).contains(anim) <==> animation_name(anim as int) == "sleep"@,
        anim == ANIM_WALK <==> animation_name(anim as int) == "walk"@,
        anim == ANIM_RUN <==> animation_name(anim as int) == "run"@,
        anim == ANIM_SLEEP <==> animation_name(anim as int) == "sleep"@,
        anim == ANIM_POUNCE <==> animation_name(anim as int) == "pounce"@,
        anim == ANIM_STRETCH <==> animation_name(anim as int) == "stretch"@,
{
    reveal_strlit("sit_1");
    reveal_strlit("sit_2");
    reveal_strlit("sit_3");
    reveal_strlit("sit_4");
    reveal_strlit("walk");
    reveal_strlit("run");
    reveal_strlit("sleep");
    reveal_strlit("play");
    reveal_strlit("pounce");
    reveal_strlit("stretch");
    assert("sit_1"@[4] == '1' && "sit_2"@[4] == '2' && "sit_3"@[4] == '3' && "sit_4"@[4] == '4');
    assert("sit_1"@[1] == 'i' && "sit_2"@[1] == 'i' && "sit_3"@[1] == 'i' && "sit_4"@[1] == 'i');
    assert("walk"@[0] == 'w' && "play"@[0] == 'p' && "sleep"@[1] == 'l');
    assert("run"@.len() == 3 && "walk"@.len() == 4 && "play"@.len() == 4 && "sit_1"@.len() == 5
        && "sit_2"@.len() == 5 && "sit_3"@.len() == 5 && "sit_4"@.len() == 5 && "sleep"@.len() == 5
        && "pounce"@.len() == 6 && "stretch"@.len() == 7);
    let active = pool(ClaudeState::Active);
    let idle = pool(ClaudeState::Idle);
    assert(active[0] == 4 && active[1] == 5);
    assert(idle[0] == 0 && idle[1] == 1 && idle[2] == 2 && idle[3] == 3 && idle[4] == 7);
    assert(pool(ClaudeState::Offline)[0] == 6);
}

/// No animation shows two states, and none stands twice among those of a state.
pub proof fn law_animation_shows_one_state(anim: usize, a: ClaudeState, b: ClaudeState)
    ensures
        pool(a).contains(anim) && pool(b).contains(anim) ==> a == b,
        pool(a).no_duplicates(),
{
}

/// What each animation looks like, told by its name: how many frames it has, how long one round of
/// it takes in milliseconds, and how fast it moves in pixels per second.
pub proof fn law_animation_times(anim: int)
    requires
        0 <= anim < 10,
    ensures
        ({
            let name = animation_name(anim);
            let looks = |frames: int, round: int, speed: int|
                frame_count(anim) == frames && frame_count(anim) * frame_millis(anim) == round
                    && move_speed(anim) == speed;
            &&& name == "sit_1"@ || name == "sit_2"@ || name == "sit_3"@ || name == "sit_4"@
                ==> looks(4, 1200, 0)
            &&& name == "walk"@ ==> looks(8, 800, 60)
            &&& name == "run"@ ==> looks(8, 800, 180)
            &&& name == "sleep"@ ==> looks(4, 2000, 0)
            &&& name == "play"@ ==> looks(6, 1200, 0)
            &&& name == "pounce"@ ==> looks(7, 1050, 40)
            &&& name == "stretch"@ ==> looks(8, 1600, 0)
        }),
{
    law_animations_by_name(anim as usize);
    reveal_strlit("sit_1");
    reveal_strlit("sit_2");
    reveal_strlit("sit_3");
    reveal_strlit("sit_4");
    reveal_strlit("play");
    reveal_strlit("pounce");
    reveal_strlit("stretch");
    reveal_strlit("walk");
    reveal_strlit("run");
    reveal_strlit("sleep");
    assert("sit_1"@[1] == 'i' && "sit_2"@[1] == 'i' && "sit_3"@[1] == 'i' && "sit_4"@[1] == 'i');
    assert("walk"@[0] == 'w' && "play"@[0] == 'p' && "sleep"@[1] == 'l');
    assert("run"@.len() == 3 && "walk"@.len() == 4 && "play"@.len() == 4 && "sit_1"@.len() == 5
        && "sit_2"@.len() == 5 && "sit_3"@.len() == 5 && "sit_4"@.len() == 5 && "sleep"@.len() == 5
        && "pounce"@.len() == 6 && "stretch"@.len() == 7);
    let idle = pool(ClaudeState::Idle);
    assert(idle[0] == 0 && idle[1] == 1 && idle[2] == 2 && idle[3] == 3 && idle[4] == 7);
}

/// A cat that moves is one that walks, runs or pounces; it runs three times as fast as it walks.
pub proof fn law_what_moves(anim: int)
    requires
        0 <= anim < 10,
    ensures
        move_speed(anim) > 0 <==> anim == ANIM_WALK || anim == ANIM_RUN || anim == ANIM_POUNCE,
        move_speed(ANIM_RUN as int) == 3 * move_speed(ANIM_WALK as int),
{
}

// ---------------------------------------------------------------------------
// How a cat follows its agent
// ---------------------------------------------------------------------------

/// A cat at the start of an animation that is played once, on the way to a state.
pub open spec fn once_on_the_way(cat: CatView, anim: int, state: ClaudeState) -> bool {
    &&& cat.transition_anim == Some(anim as usize)
    &&& cat.pending_state == Some(state)
    &&& cat.claude_state == state
    &&& cat.state.current_anim == anim
    &&& cat.state.current_frame == 0
    &&& cat.state.loop_count == 0
    &&& cat.state.max_loops == 1
}

/// A cat at the start of an animation of its state, which it is to play two to four times.
pub open spec fn settled_in(cat: CatView, state: ClaudeState) -> bool {
    &&& cat.transition_anim is None
    &&& cat.pending_state is None
    &&& cat.claude_state == state
    &&& pool(state).contains(cat.state.current_anim)
    &&& cat.state.current_frame == 0
    &&& cat.state.loop_count == 0
    &&& 2 <= cat.state.max_loops <= 4
}

/// A cat in no transition follows the state in which its agent is seen. From sleep it wakes with
/// one stretch. From work, or after work that went by unseen, it comes to rest with one pounce.
/// From rest it turns to work or sleep at once. Where nothing has changed it goes on undisturbed.
pub proof fn law_cat_follows_its_agent(
    cat: CatView,
    state: ClaudeState,
    had_active: bool,
    next: CatView,
)
    requires
        cat.big_wf(),
        cat.transition_anim is None,
        cat.reacted(state, had_active, next),
    ensures
        cat.claude_state == ClaudeState::Offline && state != ClaudeState::Offline
            ==> once_on_the_way(next, 9, state),
        cat.claude_state == ClaudeState::Active && state != ClaudeState::Active
            ==> once_on_the_way(next, 8, state),
        cat.claude_state == ClaudeState::Idle && state != ClaudeState::Active && had_active
            ==> once_on_the_way(next, 8, state),
        cat.claude_state == ClaudeState::Offline && state == ClaudeState::Offline && had_active
            ==> once_on_the_way(next, 8, state),
        cat.claude_state == ClaudeState::Idle && state == ClaudeState::Active ==> settled_in(
            next,
            state,
        ),
        cat.claude_state == ClaudeState::Idle && state == ClaudeState::Offline && !had_active
            ==> settled_in(next, state),
        cat.claude_state == state && !had_active ==> next == cat,
        cat.claude_state == ClaudeState::Active && state == ClaudeState::Active ==> next == cat,
{
    reveal(CatView::reacted);
}

/// A transition is not cut short: while it is played, the cat only takes note of another state
/// that its agent is seen in, and of nothing when it is seen in the same one.
pub proof fn law_transition_is_played_to_its_end(
    cat: CatView,
    state: ClaudeState,
    had_active: bool,
    next: CatView,
)
    requires
        cat.transition_anim is Some,
        cat.reacted(state, had_active, next),
    ensures
        next.state == cat.state,
        next.transition_anim == cat.transition_anim,
        next.claude_state == cat.claude_state,
        next.moving_right == cat.moving_right,
        state != cat.claude_state ==> next.pending_state == Some(state),
        state == cat.claude_state ==> next.pending_state == cat.pending_state,
{
    reveal(CatView::reacted);
}

/// What a cat shows besides its animation, its state and its direction is not touched when it
/// follows its agent, nor is the time of its frame; and it changes its direction only with an
/// animation that moves.
pub proof fn law_following_changes_the_animation_only(
    cat: CatView,
    state: ClaudeState,
    had_active: bool,
    next: CatView,
)
    requires
        cat.reacted(state, had_active, next),
    ensures
        next.id == cat.id,
        next.is_mini == cat.is_mini,
        next.pending_permission_count == cat.pending_permission_count,
        next.notification_text == cat.notification_text,
        next.notification_expire == cat.notification_expire,
        next.returning == cat.returning,
        next.spawn_time == cat.spawn_time,
        next.state.last_frame_time == cat.state.last_frame_time,
        next.moving_right != cat.moving_right ==> move_speed(next.state.current_anim as int) > 0,
{
    reveal(CatView::reacted);
}

/// A cat whose animation is over goes on with another one of its state. Where that was a
/// transition and the agent changed meanwhile, it goes on as for an agent that has just changed:
/// with a stretch out of sleep, with a pounce out of work, at once out of rest.
pub proof fn law_cat_goes_on(cat: CatView, next: CatView)
    requires
        cat.big_wf(),
        cat.played_out(next),
    ensures
        cat.transition_anim is None ==> settled_in(next, cat.claude_state),
        cat.pending_state == Some(cat.claude_state) ==> settled_in(next, cat.claude_state),
        cat.pending_state is Some && cat.claude_state == ClaudeState::Offline && cat.pending_state
            != Some(ClaudeState::Offline) ==> once_on_the_way(next, 9, cat.pending_state->0),
        cat.pending_state is Some && cat.claude_state == ClaudeState::Active && cat.pending_state
            != Some(ClaudeState::Active) ==> once_on_the_way(next, 8, cat.pending_state->0),
        cat.pending_state is Some && cat.claude_state == ClaudeState::Idle ==> settled_in(
            next,
            cat.pending_state->0,
        ),
        next.id == cat.id,
        next.pending_permission_count == cat.pending_permission_count,
        next.notification_text == cat.notification_text,
        next.notification_expire == cat.notification_expire,
{
}

// ---------------------------------------------------------------------------
// How time passes
// ---------------------------------------------------------------------------

/// A frame stays for its time, which is 300 ms for a cat that sits, 100 ms for one that walks or
/// runs, 500 ms for one that sleeps, 150 ms for a pounce and 200 ms for play and a stretch. Then
/// one frame follows. The next frame is due one such time later; a cat that is a frame or more
/// behind does not hurry to catch up.
pub proof fn law_frame_stays_for_its_time(cat: CatView, now: u64, next: CatView)
    requires
        cat.big_wf(),
        cat.advanced(now, next),
    ensures
        ({
            let anim = cat.state.current_anim;
            let last = cat.state.last_frame_time;
            let time: int = if pool(ClaudeState::Active).contains(anim) {
                100_000_000
            } else if pool(ClaudeState::Offline).contains(anim) {
                500_000_000
            } else if anim == 8 {
                150_000_000
            } else if anim == 7 || anim == 9 {
                200_000_000
            } else {
                300_000_000
            };
            &&& now < last + time ==> next == cat
            &&& last + time <= now < last + 2 * time ==> next.state.last_frame_time == last + time
            &&& now >= last + 2 * time ==> next.state.last_frame_time == now
            &&& next != cat <==> now >= last + time
        }),
{
    let anim = cat.state.current_anim;
    let active = pool(ClaudeState::Active);
    assert(active[0] == 4 && active[1] == 5);
    assert(pool(ClaudeState::Offline)[0] == 6);
}

/// The frames of an animation come in order, round after round: the frames shown so far grow by one
/// until all the rounds are through, and only then does the animation change.
pub proof fn law_frames_come_in_order(cat: CatView, now: u64, next: CatView)
    requires
        cat.big_wf(),
        cat.advanced(now, next),
        now >= cat.state.last_frame_time + frame_nanos(cat.state.current_anim as int),
    ensures
        ({
            let frames = frame_count(cat.state.current_anim as int);
            let shown = cat.state.loop_count * frames + cat.state.current_frame;
            let rest = frames * cat.state.max_loops - shown;
            if rest > 1 {
                &&& next.state.loop_count * frames + next.state.current_frame == shown + 1
                &&& next.state.current_frame < frames
                &&& next.state.current_anim == cat.state.current_anim
                &&& next.state.max_loops == cat.state.max_loops
                &&& next.claude_state == cat.claude_state
                &&& next.transition_anim == cat.transition_anim
                &&& next.pending_state == cat.pending_state
                &&& next.moving_right == cat.moving_right
            } else {
                cat.timed(next.state.last_frame_time).played_out(next)
            }
        }),
{
    let frames = frame_count(cat.state.current_anim as int);
    let (loops, frame, max) = (
        cat.state.loop_count as int,
        cat.state.current_frame as int,
        cat.state.max_loops as int,
    );
    assert(frames * max - (loops * frames + frame) == (max - loops) * frames - frame)
        by (nonlinear_arith);
    assert((loops + 1) * frames == loops * frames + frames) by (nonlinear_arith);
    if loops + 1 < max {
        assert((max - loops) * frames >= 2 * frames) by (nonlinear_arith)
            requires
                max - loops >= 2,
                frames > 0,
        ;
    } else {
        assert((max - loops) * frames == frames) by (nonlinear_arith)
            requires
                max - loops == 1,
        ;
    }
}

/// A small cat's frames come every 100 ms, eight to a round; after its rounds it changes between
/// its walk and its run, for three to seven rounds.
pub proof fn law_small_cat_frames(cat: CatView, now: u64, next: CatView)
    requires
        cat.mini_wf(),
        cat.mini_advanced(now, next),
    ensures
        ({
            let last = cat.state.last_frame_time;
            let shown = cat.state.loop_count * 8 + cat.state.current_frame;
            let due = now >= last + 100_000_000;
            &&& !due ==> next == cat
            &&& due && now < last + 200_000_000 ==> next.state.last_frame_time == last + 100_000_000
            &&& now >= last + 200_000_000 ==> next.state.last_frame_time == now
            &&& due && shown + 1 < cat.state.max_loops * 8 ==> {
                &&& next.state.loop_count * 8 + next.state.current_frame == shown + 1
                &&& next.state.current_frame < 8
                &&& next.state.current_anim == cat.state.current_anim
                &&& next.state.max_loops == cat.state.max_loops
                &&& next.moving_right == cat.moving_right
            }
            &&& due && shown + 1 >= cat.state.max_loops * 8 ==> {
                &&& next.state.current_anim + cat.state.current_anim == 1
                &&& next.state.current_frame == 0
                &&& next.state.loop_count == 0
                &&& 3 <= next.state.max_loops <= 7
            }
            &&& next.id == cat.id
            &&& next.returning == cat.returning
            &&& next.spawn_time == cat.spawn_time
        }),
{
}

/// A small cat that is on its way home stays so; one that is not sets out when it has been out for
/// more than ten minutes, and not before. Nothing else of it changes.
pub proof fn law_small_cat_goes_home_after_ten_minutes(cat: CatView, now: u64)
    ensures
        cat.returning ==> cat.after_timeout(now) == cat,
        !cat.returning && now <= cat.spawn_time + 600_000_000_000 ==> cat.after_timeout(now) == cat,
        now > cat.spawn_time + 600_000_000_000 ==> cat.after_timeout(now).returning,
        cat.after_timeout(now) == (CatView { returning: cat.after_timeout(now).returning, ..cat }),
{
}

/// A small cat belongs to Codex exactly if its id begins with the letters of that source and a
/// colon; it is shown with the agent that it belongs to, whatever becomes of the other.
pub proof fn law_small_cat_is_shown_with_its_agent(cat: CatView, agent: Seq<char>, cc: bool, cx: bool)
    ensures
        cat.id == "cx:"@ + agent ==> cat.is_codex() && cat.shown_with(cc, cx) == cx,
        (cat.id.len() < 3 || cat.id[0] != 'c' || cat.id[1] != 'x' || cat.id[2] != ':')
            ==> !cat.is_codex() && cat.shown_with(cc, cx) == cc,
{
    reveal_strlit("cx:");
    if cat.id == "cx:"@ + agent {
        assert(cat.id.subrange(0, 3) =~= "cx:"@);
    }
    if cat.is_codex() {
        assert(cat.id[0] == "cx:"@[0] && cat.id[1] == "cx:"@[1] && cat.id[2] == "cx:"@[2]);
    }
}

/// A small cat that goes home runs, in the given direction; one that ran already does not start
/// its run anew. Nothing turns it round before it is there.
pub proof fn law_small_cat_runs_home(cat: CatView, right: bool, edge: bool)
    requires
        cat.mini_wf(),
    ensures
        cat.homeward(right).state.current_anim == 1,
        cat.homeward(right).moving_right == right,
        cat.state.current_anim == 1 ==> cat.homeward(right).state == cat.state,
        cat.state.current_anim == 0 ==> cat.homeward(right).state.current_frame == 0,
        cat.homeward(right).state.loop_count == cat.state.loop_count,
        cat.homeward(right).state.max_loops == cat.state.max_loops,
        cat.homeward(right).homeward(right) == cat.homeward(right),
        cat.returning ==> cat.turned_at_edge(edge) == cat,
        !cat.returning ==> cat.turned_at_edge(edge).moving_right == edge,
        cat.turned_at_edge(edge).state == cat.state,
        cat.turned_at_edge(edge).id == cat.id,
        cat.turned_at_edge(edge).turned_at_edge(edge) == cat.turned_at_edge(edge),
{
}

/// A notification is seen until the time at which it expires, and no longer; forgetting what has
/// expired takes nothing away that is still to be seen, and leaves the rest of the cat alone.
pub proof fn law_notification_is_seen_until_it_expires(cat: CatView, now: u64, later: u64)
    requires
        now <= later,
    ensures
        now < cat.notification_expire ==> cat.notice_at(now) == cat.notification_text,
        now >= cat.notification_expire ==> cat.notice_at(now) is None,
        cat.without_old_notice(now).notice_at(later) == cat.notice_at(later),
        now >= cat.notification_expire ==> cat.without_old_notice(now).notification_text is None,
        now < cat.notification_expire ==> cat.without_old_notice(now) == cat,
        cat.without_old_notice(now) == (CatView {
            notification_text: cat.without_old_notice(now).notification_text,
            ..cat
        }),
{
}

/// A cat bears a label exactly while requests wait; labels are the same only for the same number
/// of them.
pub proof fn law_label_tells_how_many_wait(a: CatView, b: CatView)
    ensures
        a.waiting_label() is Some <==> a.pending_permission_count > 0,
        a.pending_permission_count > 0 ==> a.waiting_label()->0 == "需要人工介入 ("@
            + text::decimal(a.pending_permission_count as nat) + ")"@,
        a.waiting_label() == b.waiting_label() <==> a.pending_permission_count
            == b.pending_permission_count,
{
    if a.pending_permission_count > 0 && b.pending_permission_count > 0 && a.waiting_label()
        == b.waiting_label() {
        let (m, n) = (a.pending_permission_count as nat, b.pending_permission_count as nat);
        let head = "需要人工介入 ("@;
        reveal_strlit(")");
        let (s, t) = (a.waiting_label()->0, b.waiting_label()->0);
        assert(s.subrange(head.len() as int, s.len() - 1) =~= text::decimal(m));
        assert(t.subrange(head.len() as int, t.len() - 1) =~= text::decimal(n));
        text::lemma_decimal_value(m);
        text::lemma_decimal_value(n);
    }
}

/// At first a big cat sleeps, with nothing to tell; a small cat is at work from the start, under
/// the id of its subagent.
pub proof fn law_cats_at_first(id: Seq<char>, now: u64, anim: usize, loops: u32, right: bool)
    ensures
        sleeping(now).claude_state == ClaudeState::Offline,
        pool(ClaudeState::Offline).contains(sleeping(now).state.current_anim),
        sleeping(now).state.max_loops == 3,
        sleeping(now).id == "main"@,
        !sleeping(now).is_mini,
        newborn(id, now, anim, loops, right).id == id,
        newborn(id, now, anim, loops, right).is_mini,
        newborn(id, now, anim, loops, right).claude_state == ClaudeState::Active,
        newborn(id, now, anim, loops, right).moving_right == right,
        newborn(id, now, anim, loops, right).state.current_anim == anim,
        newborn(id, now, anim, loops, right).state.max_loops == loops,
        newborn(id, now, anim, loops, right).after_timeout(now) == newborn(
            id,
            now,
            anim,
            loops,
            right,
        ),
        forall|cat: CatView|
            cat == sleeping(now) || cat == newborn(id, now, anim, loops, right) ==> {
                &&& (#[trigger] cat.state).last_frame_time == now
                &&& cat.state.current_frame == 0
                &&& cat.state.loop_count == 0
                &&& cat.transition_anim is None
                &&& cat.pending_state is None
                &&& cat.waiting_label() is None
                &&& cat.notice_at(now) is None
                &&& cat.notification_text is None
                &&& !cat.returning
                &&& cat.spawn_time == now
            },
{
    assert(pool(ClaudeState::Offline)[0] == 6);
}

} // verus!
