use vibe_cat::cat::{
    animation, combined_state, event_type_to_state, state_animations, CatEntity, ClaudeState,
    ANIM_POUNCE, ANIM_SLEEP, ANIM_STRETCH, MINI_LIFE_NANOS,
};
use vibe_cat::clock::{within, Now};
use vibe_cat::colony::{
    count_waiting, debug_subagent_line, had_activity, judge, observe, stays, CatColony,
    NOTICE_NANOS,
};
use vibe_cat::drag::{DragState, Fall, FALL_NANOS};
use vibe_cat::json::{parse_text, Json};
use vibe_cat::logger::LogEntry;

fn entry(timestamp: &str, source: &str, event_type: &str, session: &str, raw: &str) -> LogEntry {
    LogEntry {
        timestamp: timestamp.to_string(),
        source: source.to_string(),
        event_type: event_type.to_string(),
        session_id: session.to_string(),
        tool_name: None,
        summary: String::new(),
        raw: parse_text(raw).unwrap(),
    }
}

fn copy_entry(e: &LogEntry) -> LogEntry {
    LogEntry {
        timestamp: e.timestamp.clone(),
        source: e.source.clone(),
        event_type: e.event_type.clone(),
        session_id: e.session_id.clone(),
        tool_name: e.tool_name.clone(),
        summary: e.summary.clone(),
        raw: e.raw.copy(),
    }
}

/// Ten o'clock on the fifteenth of March 2026.
const TEN: i64 = 1_773_568_800;

fn at(seconds: i64, monotonic: u64) -> Now {
    Now {
        unix_secs: TEN + seconds,
        unix_nanos: 0,
        monotonic,
    }
}

#[test]
fn states_have_their_animations() {
    assert_eq!(state_animations(ClaudeState::Offline), vec![ANIM_SLEEP]);
    assert_eq!(event_type_to_state("SessionStart"), ClaudeState::Idle);
    assert_eq!(event_type_to_state("something else"), ClaudeState::Idle);
    assert_eq!(event_type_to_state("PreToolUse"), ClaudeState::Active);
    assert_eq!(event_type_to_state("SessionEnd"), ClaudeState::Offline);
    assert_eq!(event_type_to_state("Stop"), ClaudeState::Idle);
    assert_eq!(animation(ANIM_SLEEP).move_speed, 0);
    assert!(animation(5).move_speed > animation(4).move_speed);
}

#[test]
fn one_shown_agent_at_work_is_enough() {
    let (active, idle, off) = (ClaudeState::Active, ClaudeState::Idle, ClaudeState::Offline);
    assert_eq!(combined_state(active, true, off, true), active);
    assert_eq!(combined_state(active, false, idle, true), idle);
    assert_eq!(combined_state(active, false, idle, false), off);
}

#[test]
fn cat_wakes_with_a_stretch_and_leaves_work_with_a_pounce() {
    let mut cat = CatEntity::new_main(0);
    assert_eq!(cat.claude_state, ClaudeState::Offline);
    assert_eq!(cat.state.current_anim, ANIM_SLEEP);
    cat.react(ClaudeState::Active, false);
    assert_eq!(cat.state.current_anim, ANIM_STRETCH);
    assert_eq!(cat.pending_state, Some(ClaudeState::Active));
    let frames = animation(ANIM_STRETCH).frame_count;
    let nanos = animation(ANIM_STRETCH).frame_millis * 1_000_000;
    let mut now = 0;
    for _ in 0..frames {
        now += nanos;
        cat.advance_frame(now);
    }
    assert_eq!(cat.transition_anim, None);
    assert_eq!(cat.claude_state, ClaudeState::Active);
    assert!(state_animations(ClaudeState::Active).contains(&cat.state.current_anim));
    cat.react(ClaudeState::Idle, false);
    assert_eq!(cat.state.current_anim, ANIM_POUNCE);
    // A change during the transition waits for its end.
    cat.react(ClaudeState::Offline, false);
    assert_eq!(cat.state.current_anim, ANIM_POUNCE);
    assert_eq!(cat.pending_state, Some(ClaudeState::Offline));
    assert_eq!(cat.claude_state, ClaudeState::Idle);
}

#[test]
fn activity_that_went_by_unseen_is_shown_by_a_pounce() {
    let mut cat = CatEntity::new_main(0);
    cat.react(ClaudeState::Offline, true);
    assert_eq!(cat.transition_anim, Some(ANIM_POUNCE));
    let mut calm = CatEntity::new_main(0);
    calm.react(ClaudeState::Offline, false);
    assert_eq!(calm.transition_anim, None);
    assert_eq!(calm.state.current_anim, ANIM_SLEEP);
}

#[test]
fn frames_go_by_time_and_do_not_catch_up() {
    let mut cat = CatEntity::new_main(1000);
    let nanos = animation(ANIM_SLEEP).frame_millis * 1_000_000;
    cat.advance_frame(1000 + nanos - 1);
    assert_eq!(cat.state.current_frame, 0);
    cat.advance_frame(1000 + nanos + 5);
    assert_eq!(cat.state.current_frame, 1);
    assert_eq!(cat.state.last_frame_time, 1000 + nanos);
    cat.advance_frame(1000 + 10 * nanos);
    assert_eq!(cat.state.current_frame, 2);
    assert_eq!(cat.state.last_frame_time, 1000 + 10 * nanos);
    cat.restart_frame(7);
    assert_eq!(cat.state.last_frame_time, 7);
}

#[test]
fn animations_of_a_state_alternate() {
    let mut cat = CatEntity::new_main(0);
    cat.switch_to_state_animation(ClaudeState::Idle);
    for _ in 0..20 {
        let before = cat.state.current_anim;
        cat.switch_to_state_animation(ClaudeState::Idle);
        assert_ne!(cat.state.current_anim, before);
        assert!(cat.state.max_loops >= 2 && cat.state.max_loops < 5);
    }
}

#[test]
fn small_cat_changes_between_walking_and_running() {
    let mut mini = CatEntity::new_mini_with("agent", 0, 0, 3, true);
    assert!(mini.is_mini);
    let mut now = 0;
    for _ in 0..23 {
        now += 100_000_000;
        mini.advance_mini_frame_with(now, 5, true);
        assert_eq!(mini.state.current_anim, 0);
    }
    now += 100_000_000;
    mini.advance_mini_frame_with(now, 5, true);
    assert_eq!(mini.state.current_anim, 1);
    assert_eq!(mini.state.max_loops, 5);
    assert!(!mini.moving_right);
    mini.check_timeout(MINI_LIFE_NANOS);
    assert!(!mini.returning);
    mini.turn_at_edge(true);
    assert!(mini.moving_right);
    mini.check_timeout(MINI_LIFE_NANOS + 1);
    assert!(mini.returning);
    mini.turn_at_edge(false);
    assert!(mini.moving_right);
    mini.run_home(false);
    assert!(!mini.moving_right);
    assert_eq!(mini.state.current_anim, 1);
}

#[test]
fn small_cats_of_chance_are_in_order() {
    for _ in 0..50 {
        let mut mini = CatEntity::new_mini("agent", 5);
        assert!(mini.state.current_anim < 2);
        assert!(mini.state.max_loops >= 3 && mini.state.max_loops < 8);
        mini.advance_mini_frame(100_000_005);
        assert_eq!(mini.state.current_frame, 1);
    }
}

#[test]
fn small_cats_are_shown_with_their_agent() {
    let codex = CatEntity::new_mini("cx:1", 0);
    let claude = CatEntity::new_mini("1", 0);
    assert!(codex.is_codex());
    assert!(!claude.is_codex());
    assert!(codex.is_shown(false, true));
    assert!(!codex.is_shown(true, false));
    assert!(claude.is_shown(true, false));
    assert!(!claude.is_shown(false, true));
}

#[test]
fn cat_tells_what_waits_for_the_user() {
    let mut cat = CatEntity::new_main(0);
    assert_eq!(cat.permission_label(), None);
    cat.pending_permission_count = 12;
    assert_eq!(cat.permission_label().as_deref(), Some("需要人工介入 (12)"));
    cat.notification_text = Some("等你回答".to_string());
    cat.notification_expire = 10;
    assert_eq!(cat.visible_notification(9), Some("等你回答"));
    assert_eq!(cat.visible_notification(10), None);
    cat.clear_notification(9);
    assert!(cat.notification_text.is_some());
    cat.clear_notification(10);
    assert!(cat.notification_text.is_none());
}

#[test]
fn age_of_a_timestamp_is_read() {
    let seen = |timestamp: &str, seconds: i64| {
        let entries = vec![entry(timestamp, "cc", "PreToolUse", "s", "{}")];
        observe(&entries, true, false, at(seconds, 0)).0 == ClaudeState::Active
    };
    assert!(seen("2026-03-15T10:00:00+00:00", 300));
    assert!(!seen("2026-03-15T10:00:00+00:00", 301));
    assert!(seen("2026-03-15T18:00:00+08:00", 300));
    assert!(!seen("2026-03-15T18:00:00+08:00", 301));
    assert!(seen("2026-03-15T10:00:00.5+00:00", 300));
    assert!(!seen("yesterday", 0));
    assert!(within(Some((300, 0)), 300));
    assert!(!within(Some((300, 1)), 300));
    assert!(!within(None, 300));
}

#[test]
fn state_is_that_of_the_last_entry() {
    let work = entry("2026-03-15T10:00:00+00:00", "cc", "PreToolUse", "s", "{}");
    let codex = entry("2026-03-15T10:00:01+00:00", "cx", "Stop", "s", "{}");
    let entries = vec![copy_entry(&work), codex];
    assert_eq!(observe(&entries, true, false, at(2, 0)).0, ClaudeState::Active);
    assert_eq!(observe(&entries, true, true, at(2, 0)).0, ClaudeState::Idle);
    assert_eq!(observe(&entries, false, false, at(2, 0)).0, ClaudeState::Offline);
    assert_eq!(observe(&vec![], true, false, at(2, 0)).0, ClaudeState::Offline);
    assert_eq!(observe(&entries, true, false, at(400, 0)).0, ClaudeState::Offline);
    assert_eq!(judge(&work, None).0, ClaudeState::Offline);
    assert_eq!(judge(&work, Some((300, 0))).0, ClaudeState::Active);
    assert_eq!(judge(&work, Some((300, 1))).0, ClaudeState::Offline);
    assert_eq!(judge(&work, Some((-9, 0))).0, ClaudeState::Active);
}

#[test]
fn activity_since_the_last_look_is_noticed() {
    let entries = vec![
        entry("2026-03-15T10:00:00+00:00", "cc", "PreToolUse", "s", "{}"),
        entry("2026-03-15T10:00:01+00:00", "cc", "Stop", "s", "{}"),
    ];
    let early = Some("2026-03-15T09:00:00+00:00".to_string());
    let late = Some("2026-03-15T10:00:00+00:00".to_string());
    assert!(had_activity(&entries, &early, true, false));
    assert!(!had_activity(&entries, &late, true, false));
    assert!(!had_activity(&entries, &early, false, false));
    assert!(!had_activity(&entries, &early, true, true));
}

#[test]
fn later_entry_of_a_thread_closes_its_request() {
    let ask = |s: &str, t: &str| entry(t, "cc", "PermissionRequest", s, "{}");
    let entries = vec![
        ask("a", "2026-03-15T10:00:00+00:00"),
        ask("a", "2026-03-15T10:00:01+00:00"),
        ask("b", "2026-03-15T10:00:02+00:00"),
    ];
    assert_eq!(count_waiting(&entries, true, false), 2);
    assert_eq!(count_waiting(&entries, false, false), 0);
    let mut closed = entries;
    closed.push(entry("2026-03-15T10:00:03+00:00", "cc", "PostToolUse", "a", "{}"));
    assert_eq!(count_waiting(&closed, true, false), 1);
}

#[test]
fn colony_follows_the_log() {
    let mut colony = CatColony::new(0);
    let first = vec![entry("2026-03-15T09:59:59+00:00", "cc", "SessionStart", "s", "{}")];
    assert!(colony.poll_claude_state(&first, true, true, at(0, 4)).is_empty());
    assert_eq!(colony.main_cat.claude_state, ClaudeState::Idle);
    assert_eq!(colony.main_cat.state.current_anim, ANIM_STRETCH);
    let entries = vec![
        entry("2026-03-15T10:00:00+00:00", "cc", "UserPromptSubmit", "s", "{}"),
        entry(
            "2026-03-15T10:00:01+00:00",
            "cc",
            "SubagentStart",
            "s",
            "{\"agent_id\":\"a1\"}",
        ),
        entry(
            "2026-03-15T10:00:02+00:00",
            "cx",
            "SubagentStart",
            "s",
            "{\"agent_id\":\"a2\"}",
        ),
    ];
    let started = colony.poll_claude_state(&entries, true, true, at(3, 5));
    assert_eq!(colony.main_cat.pending_state, Some(ClaudeState::Active));
    assert_eq!(colony.cx_main_cat.claude_state, ClaudeState::Active);
    assert_eq!(
        colony.last_event_time.as_deref(),
        Some("2026-03-15T10:00:02+00:00")
    );
    assert_eq!(started, vec!["a1".to_string(), "cx:a2".to_string()]);
    colony.spawn_minis(&started, 5);
    assert_eq!(colony.mini_cats.len(), started.len());
    // The same log starts nothing again.
    assert!(colony.poll_claude_state(&entries, true, true, at(4, 6)).is_empty());
    let mut more: Vec<LogEntry> = entries.iter().map(copy_entry).collect();
    more.push(entry(
        "2026-03-15T10:00:05+00:00",
        "cc",
        "SubagentStop",
        "s",
        "{\"agent_id\":\"a1\"}",
    ));
    assert!(colony.poll_claude_state(&more, true, true, at(6, 7)).is_empty());
    assert!(colony.mini_cats.iter().any(|m| m.id == "a1" && m.returning));
    assert!(!colony.known_subagents.contains(&"a1".to_string()));
}

#[test]
fn hidden_agent_is_asleep() {
    let mut colony = CatColony::new(0);
    let entries = vec![
        entry("2026-03-15T10:00:00+00:00", "cc", "UserPromptSubmit", "s", "{}"),
        entry("2026-03-15T10:00:01+00:00", "cc", "PermissionRequest", "s", "{}"),
    ];
    colony.poll_claude_state(&entries, false, true, at(3, 5));
    assert_eq!(colony.main_cat.claude_state, ClaudeState::Offline);
    assert_eq!(colony.main_cat.pending_permission_count, 0);
    colony.poll_claude_state(&entries, true, true, at(3, 5));
    assert_eq!(colony.main_cat.pending_permission_count, 1);
}

#[test]
fn question_is_shown_for_some_seconds() {
    let mut colony = CatColony::new(0);
    let entries = vec![entry(
        "2026-03-15T10:00:00+00:00",
        "cc",
        "Notification",
        "s",
        "{\"notification_type\":\"elicitation_dialog\"}",
    )];
    colony.poll_claude_state(&entries, true, true, at(1, 100));
    assert_eq!(
        colony.main_cat.notification_text.as_deref(),
        Some("等你回答")
    );
    assert_eq!(colony.main_cat.notification_expire, 100 + NOTICE_NANOS);
}

#[test]
fn held_cats_stand_still() {
    let mut colony = CatColony::new(0);
    colony.spawn_minis(&vec!["a".to_string()], 0);
    let later = 5_000_000_000;
    colony.advance_frames(true, true, true, later);
    assert_eq!(colony.main_cat.state.current_frame, 0);
    assert_eq!(colony.cx_main_cat.state.current_frame, 0);
    assert_eq!(colony.mini_cats[0].state.current_frame, 1);
    colony.advance_frames(false, false, false, later);
    assert_eq!(colony.main_cat.state.current_frame, 1);
    assert_eq!(colony.cx_main_cat.state.current_frame, 0);
    colony.check_timeouts(MINI_LIFE_NANOS + 1);
    assert!(colony.mini_cats[0].returning);
    colony.retain_minis(&vec![false]);
    assert_eq!(colony.mini_cats.len(), 1);
    assert!(stays(&colony.mini_cats[0], false));
    colony.retain_minis(&vec![true]);
    assert_eq!(colony.mini_cats.len(), 0);
}

#[test]
fn made_up_subagent_is_a_log_line() {
    let line = debug_subagent_line(false, "t", 3);
    let doc = parse_text(&line).unwrap();
    assert_eq!(doc.get_str("event_type"), Some("SubagentStart"));
    let raw: &Json = doc.get("raw").unwrap();
    assert_eq!(raw.get_str("agent_id"), Some("debug-agent-3"));
    assert!(debug_subagent_line(true, "t", 3).contains("SubagentStop"));
    assert!(line.ends_with("\n"));
}

#[test]
fn dropped_cat_falls_and_lands() {
    let mut drag: DragState<f32> = DragState::new();
    assert!(!drag.is_held());
    assert_eq!(drag.fall(5), Fall::Still);
    drag.dragged();
    assert!(drag.is_held());
    drag.drag_stopped(true, -30.0, 100);
    assert!(drag.is_held());
    assert_eq!(drag.fall(100 + FALL_NANOS / 2), Fall::Falling(FALL_NANOS / 2, -30.0));
    assert_eq!(drag.fall(100 + FALL_NANOS), Fall::Landed);
    assert!(!drag.is_held());
    drag.dragged();
    drag.drag_stopped(false, -0.2, 300);
    assert!(!drag.is_held());
}
