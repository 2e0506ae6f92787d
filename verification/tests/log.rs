use vibe_cat::events::{
    HookEvent, NotificationData, PermissionRequestData, PostToolUseData, PreToolUseData,
    SessionStartData, StopData, UserPromptSubmitData,
};
use vibe_cat::gui::{
    event_color, event_display_name, event_types, monitor_row, MonitorApp, Rgb, HISTORY_LINES,
    KEPT_ENTRIES,
};
use vibe_cat::i18n::AppLanguage;
use vibe_cat::json::{parse_text, Json};
use vibe_cat::logger::{
    codex_entry, count_lines, default_source, hook_entry, next_window, raw_entry_line,
    read_window, recent_lines, rotated, rotation_offset, LogEntry,
};
use vibe_cat::tail::{
    clock_time, colorize_event_type, count_event_types, format_entry, has_clock_time, last_from,
    matches_filter, should_show, summarize, TermColor, TermStyle, FIRST_LINES,
};

fn prompt(text: Option<&str>) -> HookEvent {
    HookEvent::UserPromptSubmit(UserPromptSubmitData {
        session_id: "s".to_string(),
        transcript_path: String::new(),
        cwd: String::new(),
        permission_mode: String::new(),
        agent_id: None,
        agent_type: None,
        prompt: text.map(|t| t.to_string()),
    })
}

fn tool_use(tool: Option<&str>, input: Option<&str>) -> HookEvent {
    HookEvent::PreToolUse(PreToolUseData {
        session_id: "s".to_string(),
        transcript_path: String::new(),
        cwd: String::new(),
        permission_mode: String::new(),
        agent_id: None,
        agent_type: None,
        tool_name: tool.map(|t| t.to_string()),
        tool_input: input.map(|i| parse_text(i).unwrap()),
        tool_use_id: None,
    })
}

#[test]
fn prompt_is_cut_after_eighty_bytes() {
    let short = "a".repeat(80);
    assert_eq!(
        prompt(Some(&short)).summary(),
        format!("User prompt: {}", short)
    );
    let long = "a".repeat(81);
    assert_eq!(
        prompt(Some(&long)).summary(),
        format!("User prompt: {}...", short)
    );
    assert_eq!(prompt(None).summary(), "User prompt: ");
}

#[test]
fn prompt_is_cut_between_characters() {
    let apart = "中".repeat(27);
    assert_eq!(
        prompt(Some(&apart)).summary(),
        format!("User prompt: {}...", "中".repeat(26))
    );
    let even = format!("ab{}", "的".repeat(30));
    assert_eq!(
        prompt(Some(&even)).summary(),
        format!("User prompt: ab{}...", "的".repeat(26))
    );
}

#[test]
fn tool_use_tells_its_command_or_file() {
    let command = tool_use(Some("Bash"), Some("{\"command\":\"ls\",\"file_path\":\"/x\"}"));
    assert_eq!(command.summary(), "Bash: ls");
    assert_eq!(command.tool_name(), Some("Bash"));
    assert_eq!(command.event_type(), "PreToolUse");
    let file = tool_use(Some("Read"), Some("{\"file_path\":\"/x\"}"));
    assert_eq!(file.summary(), "Read: /x");
    assert_eq!(tool_use(None, None).summary(), "unknown: ");
}

#[test]
fn other_events_tell_what_they_are() {
    let start = HookEvent::SessionStart(SessionStartData {
        session_id: "s1".to_string(),
        transcript_path: String::new(),
        cwd: String::new(),
        permission_mode: String::new(),
        agent_id: None,
        agent_type: None,
        source: Some("startup".to_string()),
        model: None,
    });
    assert_eq!(start.summary(), "Session started (startup)");
    assert_eq!(start.session_id(), "s1");
    assert_eq!(start.tool_name(), None);
    let asked = HookEvent::PermissionRequest(PermissionRequestData {
        session_id: "s".to_string(),
        transcript_path: String::new(),
        cwd: String::new(),
        permission_mode: String::new(),
        agent_id: None,
        agent_type: None,
        tool_name: None,
        tool_input: None,
        permission_suggestions: None,
    });
    assert_eq!(asked.summary(), "Permission requested for unknown");
    let done = HookEvent::PostToolUse(PostToolUseData {
        session_id: "s".to_string(),
        transcript_path: String::new(),
        cwd: String::new(),
        permission_mode: String::new(),
        agent_id: None,
        agent_type: None,
        tool_name: Some("Bash".to_string()),
        tool_input: None,
        tool_response: None,
        tool_use_id: None,
    });
    assert_eq!(done.summary(), "Bash completed");
    let told = HookEvent::Notification(NotificationData {
        session_id: "s".to_string(),
        transcript_path: String::new(),
        cwd: String::new(),
        permission_mode: String::new(),
        agent_id: None,
        agent_type: None,
        message: Some("hello".to_string()),
        title: None,
        notification_type: Some("idle".to_string()),
    });
    assert_eq!(told.summary(), "[idle] hello");
    let stopped = HookEvent::Stop(StopData {
        session_id: "s".to_string(),
        transcript_path: String::new(),
        cwd: String::new(),
        permission_mode: String::new(),
        agent_id: None,
        agent_type: None,
        stop_hook_active: None,
        last_assistant_message: None,
    });
    assert_eq!(stopped.summary(), "Agent stopped");
}

#[test]
fn entries_say_where_they_come_from() {
    let raw = parse_text("{\"a\":[1,2.5,null,true,\"x\"]}").unwrap();
    let entry = hook_entry(&tool_use(Some("Bash"), None), &raw, "t");
    assert_eq!(entry.source, "cc");
    assert_eq!(entry.event_type, "PreToolUse");
    assert_eq!(entry.session_id, "s");
    assert_eq!(entry.tool_name.as_deref(), Some("Bash"));
    assert_eq!(entry.raw.render(), raw.render());
    let codex = codex_entry("Stop", "c", None, "done", raw, "t");
    assert_eq!(codex.source, "cx");
    assert_eq!(codex.summary, "done");
    assert_eq!(default_source(), "cc");
}

#[test]
fn unknown_event_is_logged_as_it_came() {
    let raw = parse_text("{\"hook_event_name\":\"New\",\"session_id\":\"s\"}").unwrap();
    assert_eq!(
        raw_entry_line(&raw, "t"),
        "{\"event_type\":\"New\",\"raw\":{\"hook_event_name\":\"New\",\"session_id\":\"s\"},\
         \"session_id\":\"s\",\"source\":\"cc\",\"summary\":\"Unknown event: New\",\
         \"timestamp\":\"t\"}\n"
    );
    let bare = parse_text("{}").unwrap();
    let doc = parse_text(&raw_entry_line(&bare, "t")).unwrap();
    assert_eq!(doc.get_str("event_type"), Some("Unknown"));
    assert_eq!(doc.get_str("session_id"), Some("unknown"));
    assert_eq!(doc.get_str("summary"), Some("Unknown event: ?"));
}

#[test]
fn large_log_keeps_its_tail_without_a_part_of_a_line() {
    assert_eq!(rotation_offset(50 * 1024 * 1024), None);
    assert_eq!(
        rotation_offset(50 * 1024 * 1024 + 1),
        Some(45 * 1024 * 1024 + 1)
    );
    assert_eq!(rotated(b"art of a line\nsecond\nthird\n"), b"second\nthird\n");
    assert_eq!(rotated(b"no end"), b"no end");
    // The tail may begin inside a character.
    assert_eq!(rotated(&"的\nb\n".as_bytes()[1..]), b"b\n");
}

#[test]
fn last_lines_are_read_back() {
    assert_eq!(read_window(2, 10_000), (1200, 8800));
    assert_eq!(read_window(20, 10_000), (10_000, 0));
    assert_eq!(read_window(usize::MAX, 10_000), (10_000, 0));
    assert_eq!(count_lines(b"a\nb\r\nc\n"), 3);
    assert_eq!(count_lines(b"a\nb"), 2);
    assert_eq!(count_lines(b"\n\n"), 2);
    assert_eq!(count_lines(b""), 0);
    assert_eq!(recent_lines(b"a\nb\r\nc\n", 2, 0).unwrap(), vec!["b", "c"]);
    assert_eq!(recent_lines(b"a\nb\nc", 5, 0).unwrap(), vec!["a", "b", "c"]);
    assert_eq!(recent_lines(b"a\nb\nc", 5, 7).unwrap(), vec!["b", "c"]);
    assert_eq!(recent_lines(b"a\nb\nc", 2, 7).unwrap(), vec!["b", "c"]);
    assert_eq!(recent_lines(b"", 5, 0).unwrap().len(), 0);
    // What is no text is told only of lines that are read back.
    assert_eq!(recent_lines(&[0x84, 10, b'b'], 1, 7).unwrap(), vec!["b"]);
    assert!(recent_lines(&[b'a', 10, 0x84], 1, 0).is_none());
}

/// Reads the last lines of a log, as far back as need be.
fn read_back(log: &[u8], count: usize) -> Vec<String> {
    let len = log.len() as u64;
    let (mut size, _) = read_window(count, len);
    loop {
        let tail = &log[(len - size) as usize..];
        match next_window(count, len, size, count_lines(tail)) {
            Some(wider) => size = wider,
            None => return recent_lines(tail, count, len - size).unwrap(),
        }
    }
}

#[test]
fn long_lines_are_read_back_whole() {
    assert_eq!(next_window(1, 701, 600, 1), Some(701));
    assert_eq!(next_window(1, 701, 701, 1), None);
    assert_eq!(next_window(1, 5000, 600, 2), None);
    assert_eq!(next_window(1, 5000, 600, 1), Some(1200));
    assert_eq!(next_window(0, 5000, 0, 0), Some(600));

    let line = "的".repeat(233);
    assert_eq!(read_back(format!("{}\n", line).as_bytes(), 1), vec![line.as_str()]);
    let long = "x".repeat(3000);
    let log = format!("first\n{}\n{}\n{}\n", line, long, line);
    assert_eq!(read_back(log.as_bytes(), 2), vec![long.as_str(), line.as_str()]);
    assert_eq!(
        read_back(log.as_bytes(), 4),
        vec!["first", line.as_str(), long.as_str(), line.as_str()]
    );
    assert_eq!(read_back(log.as_bytes(), 9).len(), 4);
    assert!(read_back(log.as_bytes(), 0).is_empty());
    assert!(read_back(b"", 3).is_empty());
}

fn entry(event_type: &str, source: &str, tool: Option<&str>) -> LogEntry {
    LogEntry {
        timestamp: "2026-03-15T10:11:12.345+00:00".to_string(),
        source: source.to_string(),
        event_type: event_type.to_string(),
        session_id: "s".to_string(),
        tool_name: tool.map(|t| t.to_string()),
        summary: "what".to_string(),
        raw: Json::Null,
    }
}

fn line_text(entry: &LogEntry) -> String {
    format_entry(entry).iter().map(|p| p.text.as_str()).collect()
}

#[test]
fn line_shows_time_agent_type_tool_and_summary() {
    assert_eq!(
        line_text(&entry("PreToolUse", "cc", Some("Bash"))),
        "10:11:12 [CC]             PreToolUse [Bash] what"
    );
    assert_eq!(
        line_text(&entry("Stop", "cx", None)),
        "10:11:12 [CX]                   Stop what"
    );
    let pieces = format_entry(&entry("Stop", "cx", None));
    assert!(pieces[0].style.dimmed);
    assert_eq!(pieces[2].style.color, Some(TermColor::Magenta));
    assert_eq!(pieces[4].style.color, Some(TermColor::Red));
}

#[test]
fn event_types_have_their_styles() {
    assert_eq!(
        colorize_event_type("SessionStart"),
        TermStyle {
            color: Some(TermColor::Green),
            bold: true,
            dimmed: false
        }
    );
    assert_eq!(
        colorize_event_type("PreCompact"),
        TermStyle {
            color: Some(TermColor::White),
            bold: false,
            dimmed: true
        }
    );
    assert_eq!(colorize_event_type("other").color, None);
}

#[test]
fn short_timestamp_is_shown_whole() {
    assert_eq!(clock_time("10:11"), "10:11");
    assert!(has_clock_time("2026-03-15T10:11:12+00:00"));
    assert!(!has_clock_time("时间时间时间时间时间时间"));
}

#[test]
fn filter_ignores_case() {
    assert!(should_show(&entry("PreToolUse", "cc", None), None));
    assert!(should_show(&entry("PreToolUse", "cc", None), Some("TOOL")));
    assert!(!should_show(&entry("PreToolUse", "cc", None), Some("stop")));
    assert!(matches_filter("pretooluse", "tool"));
    assert!(!matches_filter("pretooluse", "Tool"));
    assert_eq!(last_from(12, FIRST_LINES), 2);
    assert_eq!(last_from(3, FIRST_LINES), 0);
}

#[test]
fn summary_counts_the_types() {
    assert!(summarize(&vec![]).is_none());
    let entries = vec![
        entry("Stop", "cc", None),
        entry("PreToolUse", "cc", None),
        entry("PostToolUse", "cc", None),
        entry("PreToolUse", "cc", None),
        entry("Stop", "cc", None),
        entry("PreToolUse", "cc", None),
    ];
    let status = summarize(&entries).unwrap();
    assert_eq!(status.session, "s");
    assert_eq!(status.last_event, "2026-03-15T10:11:12.345+00:00");
    assert_eq!(status.recent_from, 1);
    let counts: Vec<(String, usize)> = status
        .counts
        .iter()
        .map(|c| (c.event_type.clone(), c.count))
        .collect();
    assert_eq!(
        counts,
        vec![
            ("PreToolUse".to_string(), 3),
            ("Stop".to_string(), 2),
            ("PostToolUse".to_string(), 1)
        ]
    );
    assert_eq!(count_event_types(&vec![]).len(), 0);
}

#[test]
fn window_shows_the_chosen_type() {
    let mut app = MonitorApp::new();
    assert_eq!(app.selected_filter, "All");
    assert!(app.auto_scroll);
    app.load(entry("Stop", "cc", None), None);
    app.load(entry("PreToolUse", "cc", None), None);
    app.receive(entry("Stop", "cx", None), Some("tool"));
    assert_eq!(app.entries.len(), 2);
    app.receive(entry("Stop", "cx", None), Some("STOP"));
    assert_eq!(app.filtered(), vec![0, 1, 2]);
    app.selected_filter = "Stop".to_string();
    assert_eq!(app.filtered(), vec![0, 2]);
    app.clear();
    assert_eq!(app.filtered().len(), 0);
    assert_eq!(HISTORY_LINES, 50);
}

#[test]
fn window_lets_the_oldest_entries_go() {
    let mut app = MonitorApp::new();
    for i in 0..KEPT_ENTRIES + 3 {
        let mut next = entry("Stop", "cc", None);
        next.session_id = i.to_string();
        app.receive(next, None);
    }
    assert_eq!(app.entries.len(), 2000);
    assert_eq!(app.entries[0].session_id, "3");
    assert_eq!(app.entries[1999].session_id, "2002");
}

#[test]
fn row_shows_colours_and_labels() {
    let row = monitor_row(&entry("SessionEnd", "cx", Some("Bash")));
    assert_eq!(row.time, "10:11:12");
    assert_eq!(row.source, "CX");
    assert_eq!(
        row.source_color,
        Rgb {
            r: 200,
            g: 100,
            b: 220
        }
    );
    assert_eq!(row.event_type, "            SessionEnd");
    assert_eq!(row.event_color, Rgb { r: 220, g: 60, b: 60 });
    assert_eq!(row.tool.as_deref(), Some("[Bash]"));
    assert_eq!(row.summary, "what");
    assert_eq!(
        event_color("else"),
        Rgb {
            r: 200,
            g: 200,
            b: 200
        }
    );
    assert_eq!(event_types().len(), 23);
    assert_eq!(event_types()[0], "All");
    assert_eq!(event_display_name(AppLanguage::English, "Stop"), "Stop");
}
