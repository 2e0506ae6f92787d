use vibe_cat::cat_layout::DockPlacementMode;
use vibe_cat::dock::{
    count_dock_items, dock_autohide_enabled, dock_side, poll_due, startup_step, switched_on,
    tray_due, AppliedLayout, DockWatch, StartupStep,
};
use vibe_cat::installer::{
    backup_extension, ensure_claude_hooks, ensure_codex_config, generate_hooks_config,
    install_message, install_settings, is_claude_hooks_installed, is_codex_configured,
    merge_hooks, names_listener, parse_scope, read_settings, settings_path, CodexError,
    InstallError, InstallScope,
};
use vibe_cat::json::{parse_text, Json};
use vibe_cat::text::{
    contains_text, count_matches, decimal_text, pad_left, parse_i32, parse_i64, same_text,
    split_lines, split_on, starts_with_text, strip_char, strip_prefix, text_precedes, trim,
    truncate,
};

#[test]
fn scope_is_user_or_project() {
    assert_eq!(parse_scope("user"), Some(InstallScope::User));
    assert_eq!(parse_scope("project"), Some(InstallScope::Project));
    assert_eq!(parse_scope("User"), None);
    let user = settings_path(InstallScope::User, ".agent");
    assert!(user.in_home);
    assert_eq!(user.parts, vec![".agent", "settings.json"]);
    let project = settings_path(InstallScope::Project, ".agent");
    assert!(!project.in_home);
    assert_eq!(project.parts, vec![".agent", "settings.json"]);
}

fn hooks(settings: &Json) -> &Json {
    settings.get("hooks").expect("hooks are there")
}

#[test]
fn every_event_is_listened_to() {
    let config = Json::Object(generate_hooks_config("/bin/cat"));
    assert_eq!(
        config.get("Stop").unwrap().render(),
        "[{\"hooks\":[{\"command\":\"/bin/cat listen\",\"type\":\"command\"}]}]"
    );
    assert_eq!(
        config.get("PreToolUse").unwrap().render(),
        "[{\"hooks\":[{\"command\":\"/bin/cat listen\",\"type\":\"command\"}],\"matcher\":\"\"}]"
    );
    assert_eq!(
        config.get("PermissionRequest").unwrap().render(),
        "[{\"hooks\":[{\"command\":\"/bin/cat listen\",\"type\":\"command\"},\
         {\"command\":\"/bin/cat approve\",\"type\":\"command\"}],\"matcher\":\"\"}]"
    );
    match config {
        Json::Object(members) => assert_eq!(members.len(), 18),
        _ => panic!("the hooks are an object"),
    }
}

#[test]
fn merge_keeps_what_was_there() {
    let settings = parse_text("{\"model\":\"x\",\"hooks\":{\"Stop\":[1],\"Own\":[]}}").unwrap();
    let merged = merge_hooks(settings, "/bin/cat").unwrap();
    assert_eq!(merged.get_str("model"), Some("x"));
    assert_eq!(hooks(&merged).get("Stop").unwrap().render(), "[1]");
    assert_eq!(hooks(&merged).get("Own").unwrap().render(), "[]");
    assert!(hooks(&merged).get("SessionEnd").is_some());
    let once = merged.render();
    let again = merge_hooks(merged, "/bin/cat").unwrap();
    assert_eq!(again.render(), once);
}

#[test]
fn settings_of_another_shape_are_refused() {
    assert_eq!(
        merge_hooks(parse_text("[]").unwrap(), "b").err(),
        Some(InstallError::SettingsNotObject)
    );
    assert_eq!(
        install_settings(Some("{\"hooks\":[]}"), "b").err(),
        Some(InstallError::HooksNotObject)
    );
    assert_eq!(
        InstallError::SettingsNotObject.message(),
        "Settings is not a JSON object"
    );
    assert_eq!(
        InstallError::HooksNotObject.message(),
        "hooks is not a JSON object"
    );
}

#[test]
fn installed_hooks_are_found() {
    assert_eq!(read_settings(None).render(), "{}");
    assert_eq!(read_settings(Some("nothing")).render(), "{}");
    let file = install_settings(None, "/bin/cat").unwrap();
    assert!(file.starts_with("{\n  \"hooks\": {\n"));
    assert!(is_claude_hooks_installed(Some(&file), "/bin/cat"));
    assert!(!is_claude_hooks_installed(Some(&file), "/bin/dog"));
    assert!(!is_claude_hooks_installed(Some("{}"), "/bin/cat"));
    assert!(!is_claude_hooks_installed(None, "/bin/cat"));
    assert!(names_listener(&parse_text(&file).unwrap(), "/bin/cat"));
    assert!(!names_listener(&parse_text("{\"hooks\":[\"/bin/cat listen\"]}").unwrap(), "/bin/cat"));
    assert_eq!(ensure_claude_hooks(Some(&file), "/bin/cat"), Ok(None));
    assert_eq!(ensure_claude_hooks(None, "/bin/cat"), Ok(Some(file)));
    assert_eq!(
        ensure_claude_hooks(Some("7"), "/bin/cat"),
        Err(InstallError::SettingsNotObject)
    );
}

#[test]
fn installation_is_reported() {
    assert_eq!(
        install_message("/s.json", "/b", None),
        "Installed hooks to: /s.json\nBinary: /b"
    );
    assert_eq!(
        install_message("/s.json", "/b", Some("/old")),
        "Installed hooks to: /s.json\nBinary: /b\nBackup saved to: /old"
    );
    assert_eq!(backup_extension("20260315", "json"), "backup.20260315.json");
}

#[test]
fn codex_is_configured_once() {
    assert!(!is_codex_configured(None));
    assert!(!is_codex_configured(Some("[otel]\nx = 1\n")));
    let file = ensure_codex_config(None, "/bin/cat").unwrap().unwrap();
    assert!(is_codex_configured(Some(&file)));
    assert!(file.contains("http://localhost:4318/v1/logs"));
    assert!(file.contains("log_user_prompt = true"));
    assert!(file.contains("codex"));
    assert!(ensure_codex_config(Some(&file), "/bin/cat").unwrap().is_none());
    let kept = ensure_codex_config(Some("model = \"m\"\nnotify = [\"x\"]\n"), "/bin/cat")
        .unwrap()
        .unwrap();
    assert!(kept.contains("model = \"m\""));
    assert!(kept.contains("\"x\""));
    assert!(!kept.contains("/bin/cat"));
    assert!(is_codex_configured(Some(&kept)));
}

#[test]
fn codex_configuration_keeps_numbers_and_dates() {
    let old = "n = -7\nf = 1.5\nwhen = 1979-05-27T07:32:00Z\nlist = []\n[t]\n[[r]]\nx = 1\n";
    let file = ensure_codex_config(Some(old), "/bin/cat").unwrap().unwrap();
    for line in old.lines() {
        assert!(file.lines().any(|l| l == line), "{} is lost", line);
    }
    assert!(ensure_codex_config(Some(&file), "/bin/cat").unwrap().is_none());
}

#[test]
fn deep_codex_configuration_is_found_again() {
    let names = vec!["a"; 79].join(".");
    let arrays = format!("{}{}", "[".repeat(79), "]".repeat(79));
    let old = format!("[{}]\nx = {}\n[[r]]\ny = {{ z = {{}} }}\n", names, arrays);
    let file = ensure_codex_config(Some(&old), "/bin/cat").unwrap().unwrap();
    assert!(ensure_codex_config(Some(&file), "/bin/cat").unwrap().is_none());
}

#[test]
fn settings_keep_large_numbers() {
    let old = "{\"big\": 18446744073709551615, \"small\": -9223372036854775808, \"half\": 0.5}";
    let file = install_settings(Some(old), "/bin/cat").unwrap();
    let read = read_settings(Some(&file));
    assert_eq!(read.get("big").unwrap().render(), "18446744073709551615");
    assert_eq!(read.get("small").unwrap().as_i64(), Some(i64::MIN));
    assert_eq!(read.get("half").unwrap().render(), "0.5");
    let deep = format!("{{\"d\":{}{}}}", "[".repeat(126), "]".repeat(126));
    let file = install_settings(Some(&deep), "/bin/cat").unwrap();
    assert!(read_settings(Some(&file)).get("d").is_some());
}

#[test]
fn long_runs_of_quotation_marks_are_refused() {
    let run = "'".repeat(255);
    let old = format!("s = \"{}\"\n", run);
    let file = ensure_codex_config(Some(&old), "/bin/cat").unwrap().unwrap();
    assert!(file.contains(&run));
    assert!(is_codex_configured(Some(&file)));
    let long = format!("t = {{ s = [\"{}'\"] }}\n", run);
    assert!(matches!(
        ensure_codex_config(Some(&long), "/bin/cat"),
        Err(CodexError::QuotesInARow)
    ));
    let name = format!("\"{}'\" = true\n", run);
    assert!(ensure_codex_config(Some(&name), "/bin/cat").unwrap().is_some());
}

#[test]
fn broken_codex_configuration_is_an_error() {
    match ensure_codex_config(Some("= 1"), "/bin/cat") {
        Err(CodexError::Parse(e)) => {
            assert_eq!(
                CodexError::Parse(e.clone()).message(),
                format!("Cannot parse config.toml: {}", e)
            );
        }
        _ => panic!("the file is no TOML"),
    }
    assert_eq!(
        CodexError::NotATable.message(),
        "config.toml root is not a table"
    );
    assert_eq!(
        CodexError::QuotesInARow.message(),
        "Cannot serialize TOML: too many quotation marks in a row"
    );
    assert_eq!(
        CodexError::Serialize("x".to_string()).message(),
        "Cannot serialize TOML: x"
    );
}

#[test]
fn start_of_the_window_goes_step_by_step() {
    let mut phase = 0;
    let mut steps = Vec::new();
    while let Some((next, step)) = startup_step(phase) {
        phase = next;
        if step != StartupStep::Wait {
            steps.push((next, step));
        }
    }
    assert_eq!(phase, 10);
    assert_eq!(
        steps,
        vec![
            (1, StartupStep::Resize),
            (5, StartupStep::Place),
            (6, StartupStep::Style)
        ]
    );
}

fn layout(autohide: bool) -> AppliedLayout<()> {
    AppliedLayout {
        anchor_screen_id: "main".to_string(),
        geometry: (),
        dock_mode: DockPlacementMode::Bottom,
        dock_autohide: autohide,
    }
}

#[test]
fn dock_is_looked_at_one_look_at_a_time() {
    let mut watch = DockWatch::new(0, false, 0);
    let fixed = layout(false);
    assert!(!watch.begin_refresh(Some(&fixed), 0, 5_000_000_000));
    assert!(watch.begin_refresh(Some(&fixed), 0, 5_000_000_001));
    assert!(!watch.begin_refresh(Some(&fixed), 1, 5_000_000_002));
    assert_eq!(watch.last_revision, 0);
    watch.end_refresh();
    // The change of the display that came meanwhile is followed at once.
    assert!(watch.begin_refresh(Some(&fixed), 1, 5_000_000_003));
    watch.end_refresh();
    watch.applied(true);
    assert_eq!(watch.autohide_probe, Some(true));
    assert!(watch.begin_refresh(Some(&fixed), 1, 5_250_000_004));
}

#[test]
fn hiding_is_probed_while_the_dock_does_not_hide() {
    let mut watch = DockWatch::new(0, false, 0);
    assert!(!watch.begin_probe(Some(&layout(true)), 1_000_000_000));
    assert!(!watch.begin_probe(Some(&layout(false)), 249_999_999));
    assert!(watch.begin_probe(Some(&layout(false)), 250_000_000));
    assert!(!watch.begin_probe(Some(&layout(false)), 900_000_000));
    watch.end_probe(true);
    assert_eq!(watch.autohide_probe, Some(true));
    assert!(watch.begin_probe(Some(&layout(false)), 900_000_000));
}

#[test]
fn polls_and_frames_are_due() {
    assert!(!poll_due(0, 1_000_000_000));
    assert!(poll_due(0, 1_000_000_001));
    assert!(!tray_due(0, 249_999_999));
    assert!(tray_due(0, 250_000_000));
    assert!(!tray_due(5, 4));
}

#[test]
fn preferences_are_read() {
    assert!(switched_on(Some(" 1\n")));
    assert!(!switched_on(Some("0")));
    assert!(!switched_on(None));
    assert!(dock_autohide_enabled(Some("1\n")));
    assert_eq!(dock_side(Some("left\n")).as_deref(), Some("left"));
    assert_eq!(dock_side(Some("right")).as_deref(), Some("right"));
    assert_eq!(dock_side(Some("bottom")), None);
    assert_eq!(dock_side(None), None);
}

#[test]
fn dock_items_are_counted() {
    let apps = "{ \"tile-data\" = { \"bundle-identifier\" = \"com.a\"; } }\n\
                \"bundle-identifier\" = \"com.a\";\n\"tile-data\"\n";
    let list = " 1) \"A\" ASN\n bundleID=\"com.a\"\n type=\"Foreground\"\n \
                bundleID=\"com.b\"\n type=\"Foreground\"\n bundleID=\"com.c\"\n \
                type=\"UIElement\"\n bundleID=\"com.apple.finder\"\n type=\"Foreground\"\n \
                bundleID=[ NULL ]\n type=\"Foreground\"\n";
    let items = count_dock_items(apps, "tile-data", list, "1");
    // Finder, two pinned ones, one running, three recent ones, another one and the bin.
    assert_eq!(items.total, 1 + 2 + 1 + 3 + 1 + 1);
    assert_eq!(items.separators, 2);
    let few = count_dock_items("", "", "", "0");
    assert_eq!((few.total, few.separators), (2, 1));
}

#[test]
fn json_is_parsed_and_written() {
    let doc = parse_text("{\"b\":[1,2.5,null,true],\"a\":\"\\u00e9\\n\"}").unwrap();
    assert_eq!(doc.render(), "{\"a\":\"é\\n\",\"b\":[1,2.5,null,true]}");
    assert_eq!(
        doc.render_pretty(),
        "{\n  \"a\": \"é\\n\",\n  \"b\": [\n    1,\n    2.5,\n    null,\n    true\n  ]\n}"
    );
    assert_eq!(parse_text(&doc.render_pretty()).unwrap().render(), doc.render());
    assert_eq!(doc.get_str("a"), Some("é\n"));
    assert_eq!(doc.get("b").unwrap().as_array().map(|a| a.len()), Some(4));
    let items = doc.get("b").unwrap().as_array().unwrap();
    assert_eq!(items[0].as_i64(), Some(1));
    assert_eq!(items[1].as_i64(), None);
    assert_eq!(items[0].as_double().map(|d| d.render()), Some("1.0".to_string()));
    assert_eq!(items[3].as_bool(), Some(true));
    assert!(parse_text("{} x").is_err());
    assert_eq!(Json::integer(-5).render(), "-5");
    assert_eq!(parse_text("{\"a\":1,\"a\":2}").unwrap().render(), "{\"a\":2}");
}

#[test]
fn texts_are_handled_by_characters() {
    assert!(same_text("猫", "猫"));
    assert!(!same_text("猫", "猫 "));
    assert!(text_precedes("2026-03-15T10:00:00+00:00", "2026-03-15T10:00:01+00:00"));
    assert!(text_precedes("a", "ab"));
    assert!(!text_precedes("b", "ab"));
    assert!(contains_text("hello", "ell"));
    assert!(contains_text("hello", ""));
    assert!(!contains_text("hello", "elf"));
    assert!(starts_with_text("cx:1", "cx:"));
    assert_eq!(count_matches("aaaa", "aa"), 2);
    assert_eq!(trim(" \u{3000}a b\n"), "a b");
    assert_eq!(decimal_text(0), "0");
    assert_eq!(decimal_text(u64::MAX), u64::MAX.to_string());
    assert_eq!(parse_i64("-9223372036854775808"), Some(i64::MIN));
    assert_eq!(parse_i64("9223372036854775808"), None);
    assert_eq!(parse_i64("+7"), Some(7));
    assert_eq!(parse_i64(""), None);
    assert_eq!(parse_i64("-"), None);
    assert_eq!(parse_i32("2147483648"), None);
    assert_eq!(parse_i32("-12"), Some(-12));
    assert_eq!(pad_left("猫", 3), "  猫");
    assert_eq!(pad_left("long", 3), "long");
    assert_eq!(split_lines("a\r\n\nb"), vec!["a", "", "b"]);
    assert_eq!(split_on("a.b.", '.'), vec!["a", "b", ""]);
    assert_eq!(strip_char("\"\"a\"", '"'), "a");
    assert_eq!(strip_prefix("bundleID=x", "bundleID=").as_deref(), Some("x"));
    assert_eq!(strip_prefix("x", "bundleID="), None);
    assert_eq!(truncate("abcdef", 3), "abc...");
    assert_eq!(truncate("a的", 2), "a...");
    assert_eq!(truncate("的", 2), "...");
    assert_eq!(trim("\u{3000}\u{a0}a\u{200b}\u{2028}\t"), "a\u{200b}");
}
