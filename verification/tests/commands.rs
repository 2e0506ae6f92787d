use clap::{Arg, Command};

use vibe_cat::approve::{
    answer_text, decision, is_allowed, next_wait_step, pending_request, WaitStep, POLL_MILLIS,
    TIMEOUT_NANOS,
};
use vibe_cat::i18n::AppLanguage;
use vibe_cat::json::{parse_text, Json};
use vibe_cat::listen::{
    build_localized_help, program_about, read_hook_input, CommandKind, HookInput, DEFAULT_PORT,
};

const AGENT: &str = "Some Agent";

fn build_localized_cli_command(language: AppLanguage) -> Command {
    let mut command = Command::new("vibe-cat").about(program_about(language, AGENT));
    for help in build_localized_help(language, AGENT) {
        let mut subcommand = Command::new(help.name).about(help.about);
        if let Some((name, text)) = help.argument {
            subcommand = subcommand.arg(Arg::new(name).long(name).help(text));
        }
        command = command.subcommand(subcommand);
    }
    command
}

#[test]
fn english_help_describes_the_program_and_its_commands() {
    let mut command = build_localized_cli_command(AppLanguage::English);
    let help = command.render_help().to_string();

    assert!(help.contains("Passive hook event monitor for Some Agent"));
    assert!(help.contains("Open a topmost window for event logs"));
}

#[test]
fn cli_help_chinese_install_help_contains_localized_argument_help() {
    let mut command = build_localized_cli_command(AppLanguage::SimplifiedChinese);
    let install = command
        .find_subcommand_mut("install")
        .expect("install command");
    let help = install.render_help().to_string();

    assert!(help.contains("安装 hook 配置到 settings.json"));
    assert!(help.contains("安装范围：user（全局）或 project（项目级别）"));
}

#[test]
fn chinese_help_names_the_agent() {
    let chinese = AppLanguage::SimplifiedChinese;
    assert_eq!(
        program_about(chinese, AGENT),
        "Some Agent Hook 事件监听器 - 被动记录所有 hook 事件"
    );
    assert_eq!(
        build_localized_help(chinese, AGENT)[0].about,
        "监听 hook 事件（被 Some Agent 调用，从 stdin 读取 JSON）"
    );
    assert_eq!(
        build_localized_help(AppLanguage::English, AGENT)[0].about,
        "Listen for hook events from stdin"
    );
}

#[test]
fn every_command_has_its_help() {
    let helps = build_localized_help(AppLanguage::English, AGENT);
    let names: Vec<&str> = helps.iter().map(|help| help.name).collect();
    assert_eq!(
        names,
        vec![
            "listen", "install", "tail", "status", "gui", "cat", "approve", "mini-cat", "server"
        ]
    );
    let arguments: Vec<Option<&str>> =
        helps.iter().map(|help| help.argument.map(|a| a.0)).collect();
    assert_eq!(
        arguments,
        vec![
            None,
            Some("scope"),
            Some("filter"),
            None,
            Some("filter"),
            None,
            None,
            Some("agent_id"),
            Some("port")
        ]
    );
    assert_eq!(DEFAULT_PORT, 4318);
}

#[test]
fn commands_that_a_hook_runs_set_nothing_up() {
    for kind in [
        CommandKind::Gui,
        CommandKind::Tail,
        CommandKind::Status,
        CommandKind::Cat,
        CommandKind::Server,
    ] {
        assert!(kind.needs_auto_setup());
    }
    for kind in [
        CommandKind::Listen,
        CommandKind::Install,
        CommandKind::Approve,
        CommandKind::MiniCat,
    ] {
        assert!(!kind.needs_auto_setup());
    }
}

#[test]
fn hook_input_is_blank_broken_or_a_document() {
    assert!(matches!(read_hook_input(" \n\t "), HookInput::Empty));
    assert!(matches!(read_hook_input(""), HookInput::Empty));
    assert!(matches!(read_hook_input("{\"a\":"), HookInput::NotJson));
    match read_hook_input("{\"hook_event_name\":\"Stop\"}\n") {
        HookInput::Document(doc) => assert_eq!(doc.get_str("hook_event_name"), Some("Stop")),
        _ => panic!("a document was handed over"),
    }
}

fn member<'a>(doc: &'a Json, key: &str) -> &'a Json {
    doc.get(key).expect("the member is there")
}

#[test]
fn request_tells_the_tool_and_its_command() {
    let raw = parse_text(
        "{\"tool_name\":\"Bash\",\"tool_input\":{\"command\":\"ls -l\",\"file_path\":\"/x\"}}",
    )
    .unwrap();
    let doc = parse_text(&pending_request(&raw, "2026-03-15T10:00:00+00:00")).unwrap();
    assert_eq!(doc.get_str("tool_name"), Some("Bash"));
    assert_eq!(doc.get_str("summary"), Some("Bash: ls -l"));
    assert_eq!(doc.get_str("timestamp"), Some("2026-03-15T10:00:00+00:00"));
    assert_eq!(member(&doc, "tool_input").get_str("file_path"), Some("/x"));
}

#[test]
fn request_without_a_command_tells_the_file_or_the_tool() {
    let raw = parse_text("{\"tool_name\":\"Edit\",\"tool_input\":{\"file_path\":\"/x\"}}").unwrap();
    let doc = parse_text(&pending_request(&raw, "t")).unwrap();
    assert_eq!(doc.get_str("summary"), Some("Edit: /x"));
    let raw = parse_text("{\"tool_input\":{\"command\":7}}").unwrap();
    let doc = parse_text(&pending_request(&raw, "t")).unwrap();
    assert_eq!(doc.get_str("summary"), Some("Unknown"));
    let raw = parse_text("{}").unwrap();
    assert_eq!(
        pending_request(&raw, "t"),
        "{\n  \"summary\": \"Unknown\",\n  \"timestamp\": \"t\",\n  \"tool_input\": {},\n  \
         \"tool_name\": \"Unknown\"\n}"
    );
}

#[test]
fn answer_is_awaited_for_ten_minutes() {
    assert_eq!(next_wait_step(0, false), WaitStep::Sleep);
    assert_eq!(next_wait_step(0, true), WaitStep::ReadAnswer);
    assert_eq!(next_wait_step(TIMEOUT_NANOS, true), WaitStep::ReadAnswer);
    assert_eq!(next_wait_step(TIMEOUT_NANOS + 1, true), WaitStep::GiveUp);
    assert_eq!(next_wait_step(TIMEOUT_NANOS + 1, false), WaitStep::GiveUp);
    assert_eq!(TIMEOUT_NANOS, 600_000_000_000);
    assert_eq!(POLL_MILLIS, 100);
}

#[test]
fn only_an_allowing_answer_allows() {
    assert_eq!(
        answer_text("{\"allow\":true}").as_deref(),
        Some(
            "{\"hookSpecificOutput\":{\"decision\":{\"behavior\":\"allow\"},\
             \"hookEventName\":\"PermissionRequest\"}}"
        )
    );
    for refusal in ["{\"allow\":false}", "{}", "{\"allow\":\"true\"}", "[]"] {
        assert!(!is_allowed(&parse_text(refusal).unwrap()));
        assert_eq!(
            answer_text(refusal).as_deref(),
            Some(
                "{\"hookSpecificOutput\":{\"decision\":{\"behavior\":\"deny\",\
                 \"message\":\"Denied by desktop cat\"},\
                 \"hookEventName\":\"PermissionRequest\"}}"
            )
        );
    }
    assert_eq!(answer_text("yes"), None);
    let output = decision(true);
    let inner = member(member(&output, "hookSpecificOutput"), "decision");
    assert_eq!(inner.get_str("behavior"), Some("allow"));
    assert!(inner.get("message").is_none());
}
