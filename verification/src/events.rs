//! The events that a coding agent reports through its hooks.

use vstd::prelude::*;

use crate::json;
use crate::json::Json;
use crate::text;
use crate::text::{concat2, concat3, concat4, string_or, truncate};

verus! {

/// An event, told apart by its name.
#[derive(Debug)]
pub enum HookEvent {
    SessionStart(SessionStartData),
    InstructionsLoaded(InstructionsLoadedData),
    UserPromptSubmit(UserPromptSubmitData),
    PreToolUse(PreToolUseData),
    PermissionRequest(PermissionRequestData),
    PostToolUse(PostToolUseData),
    PostToolUseFailure(PostToolUseFailureData),
    Notification(NotificationData),
    SubagentStart(SubagentStartData),
    SubagentStop(SubagentStopData),
    Stop(StopData),
    TeammateIdle(TeammateIdleData),
    TaskCompleted(TaskCompletedData),
    ConfigChange(ConfigChangeData),
    WorktreeCreate(WorktreeCreateData),
    WorktreeRemove(WorktreeRemoveData),
    PreCompact(PreCompactData),
    SessionEnd(SessionEndData),
}

/// What a `SessionStart` event says.
#[derive(Clone, Debug)]
pub struct SessionStartData {
    pub session_id: String,
    pub transcript_path: String,
    pub cwd: String,
    pub permission_mode: String,
    pub agent_id: Option<String>,
    pub agent_type: Option<String>,
    pub source: Option<String>,
    pub model: Option<String>,
}

/// What a `InstructionsLoaded` event says.
#[derive(Clone, Debug)]
pub struct InstructionsLoadedData {
    pub session_id: String,
    pub transcript_path: String,
    pub cwd: String,
    pub permission_mode: String,
    pub agent_id: Option<String>,
    pub agent_type: Option<String>,
    pub file_path: Option<String>,
    pub memory_type: Option<String>,
    pub load_reason: Option<String>,
    pub globs: Option<Vec<String>>,
    pub trigger_file_path: Option<String>,
    pub parent_file_path: Option<String>,
}

/// What a `UserPromptSubmit` event says.
#[derive(Clone, Debug)]
pub struct UserPromptSubmitData {
    pub session_id: String,
    pub transcript_path: String,
    pub cwd: String,
    pub permission_mode: String,
    pub agent_id: Option<String>,
    pub agent_type: Option<String>,
    pub prompt: Option<String>,
}

/// What a `PreToolUse` event says.
#[derive(Debug)]
pub struct PreToolUseData {
    pub session_id: String,
    pub transcript_path: String,
    pub cwd: String,
    pub permission_mode: String,
    pub agent_id: Option<String>,
    pub agent_type: Option<String>,
    pub tool_name: Option<String>,
    pub tool_input: Option<Json>,
    pub tool_use_id: Option<String>,
}

/// What a `PermissionRequest` event says.
#[derive(Debug)]
pub struct PermissionRequestData {
    pub session_id: String,
    pub transcript_path: String,
    pub cwd: String,
    pub permission_mode: String,
    pub agent_id: Option<String>,
    pub agent_type: Option<String>,
    pub tool_name: Option<String>,
    pub tool_input: Option<Json>,
    pub permission_suggestions: Option<Json>,
}

/// What a `PostToolUse` event says.
#[derive(Debug)]
pub struct PostToolUseData {
    pub session_id: String,
    pub transcript_path: String,
    pub cwd: String,
    pub permission_mode: String,
    pub agent_id: Option<String>,
    pub agent_type: Option<String>,
    pub tool_name: Option<String>,
    pub tool_input: Option<Json>,
    pub tool_response: Option<Json>,
    pub tool_use_id: Option<String>,
}

/// What a `PostToolUseFailure` event says.
#[derive(Debug)]
pub struct PostToolUseFailureData {
    pub session_id: String,
    pub transcript_path: String,
    pub cwd: String,
    pub permission_mode: String,
    pub agent_id: Option<String>,
    pub agent_type: Option<String>,
    pub tool_name: Option<String>,
    pub tool_input: Option<Json>,
    pub tool_use_id: Option<String>,
    pub error: Option<String>,
    pub is_interrupt: Option<bool>,
}

/// What a `Notification` event says.
#[derive(Clone, Debug)]
pub struct NotificationData {
    pub session_id: String,
    pub transcript_path: String,
    pub cwd: String,
    pub permission_mode: String,
    pub agent_id: Option<String>,
    pub agent_type: Option<String>,
    pub message: Option<String>,
    pub title: Option<String>,
    pub notification_type: Option<String>,
}

/// What a `SubagentStart` event says.
#[derive(Clone, Debug)]
pub struct SubagentStartData {
    pub session_id: String,
    pub transcript_path: String,
    pub cwd: String,
    pub permission_mode: String,
    pub agent_id: Option<String>,
    pub agent_type: Option<String>,
}

/// What a `SubagentStop` event says.
#[derive(Clone, Debug)]
pub struct SubagentStopData {
    pub session_id: String,
    pub transcript_path: String,
    pub cwd: String,
    pub permission_mode: String,
    pub stop_hook_active: Option<bool>,
    pub agent_id: Option<String>,
    pub agent_type: Option<String>,
    pub agent_transcript_path: Option<String>,
    pub last_assistant_message: Option<String>,
}

/// What a `Stop` event says.
#[derive(Clone, Debug)]
pub struct StopData {
    pub session_id: String,
    pub transcript_path: String,
    pub cwd: String,
    pub permission_mode: String,
    pub agent_id: Option<String>,
    pub agent_type: Option<String>,
    pub stop_hook_active: Option<bool>,
    pub last_assistant_message: Option<String>,
}

/// What a `TeammateIdle` event says.
#[derive(Clone, Debug)]
pub struct TeammateIdleData {
    pub session_id: String,
    pub transcript_path: String,
    pub cwd: String,
    pub permission_mode: String,
    pub agent_id: Option<String>,
    pub agent_type: Option<String>,
    pub teammate_name: Option<String>,
    pub team_name: Option<String>,
}

/// What a `TaskCompleted` event says.
#[derive(Clone, Debug)]
pub struct TaskCompletedData {
    pub session_id: String,
    pub transcript_path: String,
    pub cwd: String,
    pub permission_mode: String,
    pub agent_id: Option<String>,
    pub agent_type: Option<String>,
    pub task_id: Option<String>,
    pub task_subject: Option<String>,
    pub task_description: Option<String>,
    pub teammate_name: Option<String>,
    pub team_name: Option<String>,
}

/// What a `ConfigChange` event says.
#[derive(Clone, Debug)]
pub struct ConfigChangeData {
    pub session_id: String,
    pub transcript_path: String,
    pub cwd: String,
    pub permission_mode: String,
    pub agent_id: Option<String>,
    pub agent_type: Option<String>,
    pub source: Option<String>,
    pub file_path: Option<String>,
}

/// What a `WorktreeCreate` event says.
#[derive(Clone, Debug)]
pub struct WorktreeCreateData {
    pub session_id: String,
    pub transcript_path: String,
    pub cwd: String,
    pub permission_mode: String,
    pub agent_id: Option<String>,
    pub agent_type: Option<String>,
    pub name: Option<String>,
}

/// What a `WorktreeRemove` event says.
#[derive(Clone, Debug)]
pub struct WorktreeRemoveData {
    pub session_id: String,
    pub transcript_path: String,
    pub cwd: String,
    pub permission_mode: String,
    pub agent_id: Option<String>,
    pub agent_type: Option<String>,
    pub worktree_path: Option<String>,
}

/// What a `PreCompact` event says.
#[derive(Clone, Debug)]
pub struct PreCompactData {
    pub session_id: String,
    pub transcript_path: String,
    pub cwd: String,
    pub permission_mode: String,
    pub agent_id: Option<String>,
    pub agent_type: Option<String>,
    pub trigger: Option<String>,
    pub custom_instructions: Option<String>,
}

/// What a `SessionEnd` event says.
#[derive(Clone, Debug)]
pub struct SessionEndData {
    pub session_id: String,
    pub transcript_path: String,
    pub cwd: String,
    pub permission_mode: String,
    pub agent_id: Option<String>,
    pub agent_type: Option<String>,
    pub reason: Option<String>,
}

/// The name of an event.
pub open spec fn event_name(event: HookEvent) -> Seq<char> {
    match event {
        HookEvent::SessionStart(_) => "SessionStart"@,
        HookEvent::InstructionsLoaded(_) => "InstructionsLoaded"@,
        HookEvent::UserPromptSubmit(_) => "UserPromptSubmit"@,
        HookEvent::PreToolUse(_) => "PreToolUse"@,
        HookEvent::PermissionRequest(_) => "PermissionRequest"@,
        HookEvent::PostToolUse(_) => "PostToolUse"@,
        HookEvent::PostToolUseFailure(_) => "PostToolUseFailure"@,
        HookEvent::Notification(_) => "Notification"@,
        HookEvent::SubagentStart(_) => "SubagentStart"@,
        HookEvent::SubagentStop(_) => "SubagentStop"@,
        HookEvent::Stop(_) => "Stop"@,
        HookEvent::TeammateIdle(_) => "TeammateIdle"@,
        HookEvent::TaskCompleted(_) => "TaskCompleted"@,
        HookEvent::ConfigChange(_) => "ConfigChange"@,
        HookEvent::WorktreeCreate(_) => "WorktreeCreate"@,
        HookEvent::WorktreeRemove(_) => "WorktreeRemove"@,
        HookEvent::PreCompact(_) => "PreCompact"@,
        HookEvent::SessionEnd(_) => "SessionEnd"@,
    }
}

/// The session that an event belongs to.
pub open spec fn event_session(event: HookEvent) -> Seq<char> {
    match event {
        HookEvent::SessionStart(d) => d.session_id@,
        HookEvent::InstructionsLoaded(d) => d.session_id@,
        HookEvent::UserPromptSubmit(d) => d.session_id@,
        HookEvent::PreToolUse(d) => d.session_id@,
        HookEvent::PermissionRequest(d) => d.session_id@,
        HookEvent::PostToolUse(d) => d.session_id@,
        HookEvent::PostToolUseFailure(d) => d.session_id@,
        HookEvent::Notification(d) => d.session_id@,
        HookEvent::SubagentStart(d) => d.session_id@,
        HookEvent::SubagentStop(d) => d.session_id@,
        HookEvent::Stop(d) => d.session_id@,
        HookEvent::TeammateIdle(d) => d.session_id@,
        HookEvent::TaskCompleted(d) => d.session_id@,
        HookEvent::ConfigChange(d) => d.session_id@,
        HookEvent::WorktreeCreate(d) => d.session_id@,
        HookEvent::WorktreeRemove(d) => d.session_id@,
        HookEvent::PreCompact(d) => d.session_id@,
        HookEvent::SessionEnd(d) => d.session_id@,
    }
}

/// The tool that an event is about.
pub open spec fn event_tool(event: HookEvent) -> Option<Seq<char>> {
    match event {
        HookEvent::PreToolUse(d) => text::string_view(d.tool_name),
        HookEvent::PermissionRequest(d) => text::string_view(d.tool_name),
        HookEvent::PostToolUse(d) => text::string_view(d.tool_name),
        HookEvent::PostToolUseFailure(d) => text::string_view(d.tool_name),
        _ => None,
    }
}

/// The optional field, or `"unknown"`.
pub open spec fn or_unknown(field: Option<String>) -> Seq<char> {
    text::text_or(text::string_view(field), "unknown"@)
}

/// The optional field, or nothing.
pub open spec fn or_empty(field: Option<String>) -> Seq<char> {
    text::text_or(text::string_view(field), ""@)
}

/// The first member that there is among those that tell what a tool is asked to do.
pub open spec fn input_member(input: json::JsonView) -> Option<json::JsonView> {
    if json::member(input, "command"@) is Some {
        json::member(input, "command"@)
    } else if json::member(input, "file_path"@) is Some {
        json::member(input, "file_path"@)
    } else if json::member(input, "pattern"@) is Some {
        json::member(input, "pattern"@)
    } else if json::member(input, "url"@) is Some {
        json::member(input, "url"@)
    } else {
        json::member(input, "query"@)
    }
}

/// What a tool is asked to do: the text of that member, or nothing.
pub open spec fn input_detail(input: Option<Json>) -> Seq<char> {
    match input {
        Some(doc) => text::text_or(json::string_of(input_member(doc@)), ""@),
        None => ""@,
    }
}

/// The part of an event's summary that is cut when it is long.
pub open spec fn long_part(event: HookEvent) -> Seq<char> {
    match event {
        HookEvent::UserPromptSubmit(d) => or_empty(d.prompt),
        HookEvent::PreToolUse(d) => input_detail(d.tool_input),
        HookEvent::PostToolUseFailure(d) => or_empty(d.error),
        HookEvent::Notification(d) => or_empty(d.message),
        HookEvent::TaskCompleted(d) => or_empty(d.task_subject),
        _ => ""@,
    }
}

/// The number of bytes that are kept of a summary's long part.
pub const SUMMARY_BYTES: usize = 80;

/// The summary of an event for a human reader.
pub open spec fn event_summary(event: HookEvent) -> Seq<char> {
    let long = text::shortened(long_part(event), SUMMARY_BYTES as nat);
    match event {
        HookEvent::SessionStart(d) => "Session started ("@ + or_unknown(d.source) + ")"@,
        HookEvent::InstructionsLoaded(d) => "Instructions loaded: "@ + or_unknown(d.file_path),
        HookEvent::UserPromptSubmit(_) => "User prompt: "@ + long,
        HookEvent::PreToolUse(d) => or_unknown(d.tool_name) + ": "@ + long,
        HookEvent::PermissionRequest(d) => "Permission requested for "@ + or_unknown(d.tool_name),
        HookEvent::PostToolUse(d) => or_unknown(d.tool_name) + " completed"@,
        HookEvent::PostToolUseFailure(d) => or_unknown(d.tool_name) + " FAILED: "@ + long,
        HookEvent::Notification(d) => "["@ + or_unknown(d.notification_type) + "] "@ + long,
        HookEvent::SubagentStart(d) => "Subagent started: "@ + or_unknown(d.agent_type),
        HookEvent::SubagentStop(d) => "Subagent stopped: "@ + or_unknown(d.agent_type),
        HookEvent::Stop(_) => "Agent stopped"@,
        HookEvent::TeammateIdle(d) => "Teammate idle: "@ + or_unknown(d.teammate_name),
        HookEvent::TaskCompleted(_) => "Task completed: "@ + long,
        HookEvent::ConfigChange(d) => "Config changed: "@ + or_unknown(d.source),
        HookEvent::WorktreeCreate(d) => "Worktree created: "@ + or_unknown(d.name),
        HookEvent::WorktreeRemove(d) => "Worktree removed: "@ + or_unknown(d.worktree_path),
        HookEvent::PreCompact(d) => "Compaction ("@ + or_unknown(d.trigger) + ")"@,
        HookEvent::SessionEnd(d) => "Session ended ("@ + or_unknown(d.reason) + ")"@,
    }
}

fn find_input_member(input: &Json) -> (r: Option<&Json>)
    ensures
        json::doc_view(r) == input_member(input@),
{
    if let Some(v) = input.get("command") {
        return Some(v);
    }
    if let Some(v) = input.get("file_path") {
        return Some(v);
    }
    if let Some(v) = input.get("pattern") {
        return Some(v);
    }
    if let Some(v) = input.get("url") {
        return Some(v);
    }
    input.get("query")
}

fn find_input_detail(input: &Option<Json>) -> (r: &str)
    ensures
        r@ == input_detail(*input),
{
    match input {
        Some(doc) => match find_input_member(doc) {
            Some(v) => match v.as_str() {
                Some(s) => s,
                None => "",
            },
            None => "",
        },
        None => "",
    }
}

impl HookEvent {
    /// The name of the event.
    pub fn event_type(&self) -> (r: &str)
        ensures
            r@ == event_name(*self),
    {
        match self {
            HookEvent::SessionStart(_) => "SessionStart",
            HookEvent::InstructionsLoaded(_) => "InstructionsLoaded",
            HookEvent::UserPromptSubmit(_) => "UserPromptSubmit",
            HookEvent::PreToolUse(_) => "PreToolUse",
            HookEvent::PermissionRequest(_) => "PermissionRequest",
            HookEvent::PostToolUse(_) => "PostToolUse",
            HookEvent::PostToolUseFailure(_) => "PostToolUseFailure",
            HookEvent::Notification(_) => "Notification",
            HookEvent::SubagentStart(_) => "SubagentStart",
            HookEvent::SubagentStop(_) => "SubagentStop",
            HookEvent::Stop(_) => "Stop",
            HookEvent::TeammateIdle(_) => "TeammateIdle",
            HookEvent::TaskCompleted(_) => "TaskCompleted",
            HookEvent::ConfigChange(_) => "ConfigChange",
            HookEvent::WorktreeCreate(_) => "WorktreeCreate",
            HookEvent::WorktreeRemove(_) => "WorktreeRemove",
            HookEvent::PreCompact(_) => "PreCompact",
            HookEvent::SessionEnd(_) => "SessionEnd",
        }
    }

    /// The session that the event belongs to.
    pub fn session_id(&self) -> (r: &str)
        ensures
            r@ == event_session(*self),
    {
        match self {
            HookEvent::SessionStart(d) => &d.session_id,
            HookEvent::InstructionsLoaded(d) => &d.session_id,
            HookEvent::UserPromptSubmit(d) => &d.session_id,
            HookEvent::PreToolUse(d) => &d.session_id,
            HookEvent::PermissionRequest(d) => &d.session_id,
            HookEvent::PostToolUse(d) => &d.session_id,
            HookEvent::PostToolUseFailure(d) => &d.session_id,
            HookEvent::Notification(d) => &d.session_id,
            HookEvent::SubagentStart(d) => &d.session_id,
            HookEvent::SubagentStop(d) => &d.session_id,
            HookEvent::Stop(d) => &d.session_id,
            HookEvent::TeammateIdle(d) => &d.session_id,
            HookEvent::TaskCompleted(d) => &d.session_id,
            HookEvent::ConfigChange(d) => &d.session_id,
            HookEvent::WorktreeCreate(d) => &d.session_id,
            HookEvent::WorktreeRemove(d) => &d.session_id,
            HookEvent::PreCompact(d) => &d.session_id,
            HookEvent::SessionEnd(d) => &d.session_id,
        }
    }

    /// The tool that the event is about, where it is about one.
    pub fn tool_name(&self) -> (r: Option<&str>)
        ensures
            text::text_view(r) == event_tool(*self),
    {
        match self {
            HookEvent::PreToolUse(d) => text::borrowed(&d.tool_name),
            HookEvent::PermissionRequest(d) => text::borrowed(&d.tool_name),
            HookEvent::PostToolUse(d) => text::borrowed(&d.tool_name),
            HookEvent::PostToolUseFailure(d) => text::borrowed(&d.tool_name),
            _ => None,
        }
    }

    /// The summary of the event for a human reader.
    pub fn summary(&self) -> (r: String)
        ensures
            r@ == event_summary(*self),
    {
        match self {
            HookEvent::SessionStart(d) => concat3(
                "Session started (",
                string_or(&d.source, "unknown"),
                ")",
            ),
            HookEvent::InstructionsLoaded(d) => concat2(
                "Instructions loaded: ",
                string_or(&d.file_path, "unknown"),
            ),
            HookEvent::UserPromptSubmit(d) => concat2(
                "User prompt: ",
                truncate(string_or(&d.prompt, ""), SUMMARY_BYTES).as_str(),
            ),
            HookEvent::PreToolUse(d) => concat3(
                string_or(&d.tool_name, "unknown"),
                ": ",
                truncate(find_input_detail(&d.tool_input), SUMMARY_BYTES).as_str(),
            ),
            HookEvent::PermissionRequest(d) => concat2(
                "Permission requested for ",
                string_or(&d.tool_name, "unknown"),
            ),
            HookEvent::PostToolUse(d) => concat2(
                string_or(&d.tool_name, "unknown"),
                " completed",
            ),
            HookEvent::PostToolUseFailure(d) => concat3(
                string_or(&d.tool_name, "unknown"),
                " FAILED: ",
                truncate(string_or(&d.error, ""), SUMMARY_BYTES).as_str(),
            ),
            HookEvent::Notification(d) => concat4(
                "[",
                string_or(&d.notification_type, "unknown"),
                "] ",
                truncate(string_or(&d.message, ""), SUMMARY_BYTES).as_str(),
            ),
            HookEvent::SubagentStart(d) => concat2(
                "Subagent started: ",
                string_or(&d.agent_type, "unknown"),
            ),
            HookEvent::SubagentStop(d) => concat2(
                "Subagent stopped: ",
                string_or(&d.agent_type, "unknown"),
            ),
            HookEvent::Stop(_) => "Agent stopped".to_owned(),
            HookEvent::TeammateIdle(d) => concat2(
                "Teammate idle: ",
                string_or(&d.teammate_name, "unknown"),
            ),
            HookEvent::TaskCompleted(d) => concat2(
                "Task completed: ",
                truncate(string_or(&d.task_subject, ""), SUMMARY_BYTES).as_str(),
            ),
            HookEvent::ConfigChange(d) => concat2(
                "Config changed: ",
                string_or(&d.source, "unknown"),
            ),
            HookEvent::WorktreeCreate(d) => concat2(
                "Worktree created: ",
                string_or(&d.name, "unknown"),
            ),
            HookEvent::WorktreeRemove(d) => concat2(
                "Worktree removed: ",
                string_or(&d.worktree_path, "unknown"),
            ),
            HookEvent::PreCompact(d) => concat3(
                "Compaction (",
                string_or(&d.trigger, "unknown"),
                ")",
            ),
            HookEvent::SessionEnd(d) => concat3(
                "Session ended (",
                string_or(&d.reason, "unknown"),
                ")",
            ),
        }
    }
}

// ---------------------------------------------------------------------------
// Laws
// ---------------------------------------------------------------------------

/// The names of the event types that the log knows, hook events and telemetry, can be told apart:
/// by their length, or by a character where that is the same.
pub proof fn lemma_type_names()
    ensures
        "SessionStart"@.len() == 12 && "SessionStart"@[1] == 'e' && "SessionStart"@[0] == 'S',
        "Notification"@.len() == 12 && "Notification"@[0] == 'N',
        "SubagentStop"@.len() == 12 && "SubagentStop"@[1] == 'u' && "SubagentStop"@[0] == 'S',
        "TeammateIdle"@.len() == 12 && "TeammateIdle"@[0] == 'T',
        "ConfigChange"@.len() == 12 && "ConfigChange"@[0] == 'C',
        "InstructionsLoaded"@.len() == 18 && "InstructionsLoaded"@[0] == 'I',
        "PostToolUseFailure"@.len() == 18 && "PostToolUseFailure"@[0] == 'P',
        "UserPromptSubmit"@.len() == 16,
        "PermissionRequest"@.len() == 17,
        "PreToolUse"@.len() == 10 && "PreToolUse"@[3] == 'T' && "PreToolUse"@[0] == 'P',
        "PreCompact"@.len() == 10 && "PreCompact"@[3] == 'C' && "PreCompact"@[0] == 'P',
        "SessionEnd"@.len() == 10 && "SessionEnd"@[0] == 'S',
        "PostToolUse"@.len() == 11 && "PostToolUse"@[0] == 'P',
        "api_request"@.len() == 11 && "api_request"@[0] == 'a',
        "tool_result"@.len() == 11 && "tool_result"@[0] == 't',
        "SubagentStart"@.len() == 13 && "SubagentStart"@[0] == 'S',
        "TaskCompleted"@.len() == 13 && "TaskCompleted"@[0] == 'T',
        "tool_decision"@.len() == 13 && "tool_decision"@[0] == 't',
        "WorktreeCreate"@.len() == 14 && "WorktreeCreate"@[8] == 'C',
        "WorktreeRemove"@.len() == 14 && "WorktreeRemove"@[8] == 'R',
        "Stop"@.len() == 4,
        "sse_event"@.len() == 9,
        "conversation_starts"@.len() == 19,
        "All"@.len() == 3,
{
    reveal_strlit("SessionStart");
    reveal_strlit("Notification");
    reveal_strlit("SubagentStop");
    reveal_strlit("TeammateIdle");
    reveal_strlit("ConfigChange");
    reveal_strlit("InstructionsLoaded");
    reveal_strlit("PostToolUseFailure");
    reveal_strlit("UserPromptSubmit");
    reveal_strlit("PermissionRequest");
    reveal_strlit("PreToolUse");
    reveal_strlit("PreCompact");
    reveal_strlit("SessionEnd");
    reveal_strlit("PostToolUse");
    reveal_strlit("api_request");
    reveal_strlit("tool_result");
    reveal_strlit("SubagentStart");
    reveal_strlit("TaskCompleted");
    reveal_strlit("tool_decision");
    reveal_strlit("WorktreeCreate");
    reveal_strlit("WorktreeRemove");
    reveal_strlit("Stop");
    reveal_strlit("sse_event");
    reveal_strlit("conversation_starts");
    reveal_strlit("All");
}

/// An event is told apart by its name alone: it has the name of its kind, and no event of another
/// kind has that name.
pub proof fn law_event_is_known_by_its_name(event: HookEvent)
    ensures
        event is SessionStart <==> event_name(event) == "SessionStart"@,
        event is InstructionsLoaded <==> event_name(event) == "InstructionsLoaded"@,
        event is UserPromptSubmit <==> event_name(event) == "UserPromptSubmit"@,
        event is PreToolUse <==> event_name(event) == "PreToolUse"@,
        event is PermissionRequest <==> event_name(event) == "PermissionRequest"@,
        event is PostToolUse <==> event_name(event) == "PostToolUse"@,
        event is PostToolUseFailure <==> event_name(event) == "PostToolUseFailure"@,
        event is Notification <==> event_name(event) == "Notification"@,
        event is SubagentStart <==> event_name(event) == "SubagentStart"@,
        event is SubagentStop <==> event_name(event) == "SubagentStop"@,
        event is Stop <==> event_name(event) == "Stop"@,
        event is TeammateIdle <==> event_name(event) == "TeammateIdle"@,
        event is TaskCompleted <==> event_name(event) == "TaskCompleted"@,
        event is ConfigChange <==> event_name(event) == "ConfigChange"@,
        event is WorktreeCreate <==> event_name(event) == "WorktreeCreate"@,
        event is WorktreeRemove <==> event_name(event) == "WorktreeRemove"@,
        event is PreCompact <==> event_name(event) == "PreCompact"@,
        event is SessionEnd <==> event_name(event) == "SessionEnd"@,
{
    lemma_type_names();
}

/// An event about a tool, and no other, names one: the tool of its own data.
pub proof fn law_only_tool_events_name_a_tool(event: HookEvent)
    ensures
        match event {
            HookEvent::PreToolUse(d) => event_tool(event) is Some <==> d.tool_name is Some,
            HookEvent::PermissionRequest(d) => event_tool(event) is Some <==> d.tool_name is Some,
            HookEvent::PostToolUse(d) => event_tool(event) is Some <==> d.tool_name is Some,
            HookEvent::PostToolUseFailure(d) => event_tool(event) is Some <==> d.tool_name is Some,
            _ => event_tool(event) is None,
        },
        match event {
            HookEvent::PreToolUse(PreToolUseData { tool_name: Some(tool), .. })
            | HookEvent::PermissionRequest(PermissionRequestData { tool_name: Some(tool), .. })
            | HookEvent::PostToolUse(PostToolUseData { tool_name: Some(tool), .. })
            | HookEvent::PostToolUseFailure(PostToolUseFailureData { tool_name: Some(tool), .. }) =>
                event_tool(event) == Some(tool@),
            _ => true,
        },
{
}

/// A failed tool call is told as one, with the tool and the reason: an error of at most 80 bytes
/// stands there in full, a longer one is cut to 80 bytes.
pub proof fn law_failure_is_told_with_its_error(d: PostToolUseFailureData)
    ensures
        d.tool_name is Some && d.error is Some ==> event_summary(HookEvent::PostToolUseFailure(d))
            == d.tool_name->0@ + " FAILED: "@ + text::shortened(d.error->0@, 80),
        d.tool_name is Some && d.error is Some && text::byte_len(d.error->0@) <= 80
            ==> event_summary(HookEvent::PostToolUseFailure(d)) == d.tool_name->0@ + " FAILED: "@
            + d.error->0@,
        d.tool_name is None && d.error is Some && text::byte_len(d.error->0@) <= 80
            ==> event_summary(HookEvent::PostToolUseFailure(d)) == "unknown FAILED: "@
            + d.error->0@,
        d.tool_name is Some && d.error is None ==> event_summary(HookEvent::PostToolUseFailure(d))
            == d.tool_name->0@ + " FAILED: "@,
{
    reveal_strlit("unknown FAILED: ");
    reveal_strlit("unknown");
    reveal_strlit(" FAILED: ");
    reveal_strlit("");
    lemma_empty_is_kept();
    assert("unknown FAILED: "@ =~= "unknown"@ + " FAILED: "@);
    if d.tool_name is Some && d.error is None {
        assert(d.tool_name->0@ + " FAILED: "@ + ""@ =~= d.tool_name->0@ + " FAILED: "@);
    }
}

/// The empty text is never cut.
proof fn lemma_empty_is_kept()
    ensures
        text::shortened(""@, 80) == ""@,
{
    reveal_strlit("");
    assert(vstd::utf8::encode_utf8(""@).len() == 0);
}

/// A reader can tell a tool call that failed from one that completed, whatever the error says, and
/// both from the call that went before.
pub proof fn law_failure_differs_from_completion(
    failed: PostToolUseFailureData,
    done: PostToolUseData,
    before: PreToolUseData,
)
    requires
        failed.tool_name is Some,
        done.tool_name is Some,
        before.tool_name is Some,
        failed.tool_name->0@ == done.tool_name->0@,
        before.tool_name->0@ == done.tool_name->0@,
    ensures
        event_summary(HookEvent::PostToolUseFailure(failed)) != event_summary(
            HookEvent::PostToolUse(done),
        ),
        event_summary(HookEvent::PreToolUse(before)) != event_summary(HookEvent::PostToolUse(done)),
        event_summary(HookEvent::PreToolUse(before)) != event_summary(
            HookEvent::PostToolUseFailure(failed),
        ),
{
    let tool = done.tool_name->0@;
    reveal_strlit(" FAILED: ");
    reveal_strlit(" completed");
    reveal_strlit(": ");
    let f = event_summary(HookEvent::PostToolUseFailure(failed));
    let c = event_summary(HookEvent::PostToolUse(done));
    let b = event_summary(HookEvent::PreToolUse(before));
    let n = tool.len() as int;
    assert(f[n + 1] == 'F' && f[n] == ' ');
    assert(c[n + 1] == 'c' && c[n] == ' ');
    assert(b[n] == ':');
}

/// A completed call and a request for permission name the tool and say nothing else of it.
pub proof fn law_completion_and_request_name_the_tool(d: PostToolUseData, r: PermissionRequestData)
    ensures
        d.tool_name is Some ==> event_summary(HookEvent::PostToolUse(d)) == d.tool_name->0@
            + " completed"@,
        d.tool_name is None ==> event_summary(HookEvent::PostToolUse(d)) == "unknown completed"@,
        r.tool_name is Some ==> event_summary(HookEvent::PermissionRequest(r))
            == "Permission requested for "@ + r.tool_name->0@,
        r.tool_name is None ==> event_summary(HookEvent::PermissionRequest(r))
            == "Permission requested for unknown"@,
{
    reveal_strlit("unknown completed");
    reveal_strlit("unknown");
    reveal_strlit(" completed");
    reveal_strlit("Permission requested for ");
    reveal_strlit("Permission requested for unknown");
    assert("unknown completed"@ =~= "unknown"@ + " completed"@);
    assert("Permission requested for unknown"@ =~= "Permission requested for "@ + "unknown"@);
}

/// A tool call is told with what it is about: the command, else the file, else the pattern, else
/// the address, else the query, cut to 80 bytes. What stands behind the first of these is not told.
pub proof fn law_tool_call_is_told_by_its_input(d: PreToolUseData)
    requires
        d.tool_name is Some,
        d.tool_input is Some,
    ensures
        ({
            let tool = d.tool_name->0@ + ": "@;
            let told = event_summary(HookEvent::PreToolUse(d));
            let input = d.tool_input->0@;
            let given = |key: Seq<char>| json::member(input, key) is Some;
            let tells = |key: Seq<char>|
                match json::member(input, key) {
                    Some(json::JsonView::Str(s)) => told == tool + text::shortened(s, 80),
                    _ => told == tool,
                };
            let (command, path) = (given("command"@), given("file_path"@));
            let (pattern, url) = (given("pattern"@), given("url"@));
            &&& command ==> tells("command"@)
            &&& !command && path ==> tells("file_path"@)
            &&& !command && !path && pattern ==> tells("pattern"@)
            &&& !command && !path && !pattern && url ==> tells("url"@)
            &&& !command && !path && !pattern && !url ==> tells("query"@)
        }),
{
    let tool = d.tool_name->0@ + ": "@;
    reveal_strlit("");
    lemma_empty_is_kept();
    assert(tool + ""@ =~= tool);
}

/// A prompt, a notification's message and a finished task's subject are told in full up to 80
/// bytes, and cut to 80 bytes beyond.
pub proof fn law_texts_are_told(
    prompt: UserPromptSubmitData,
    notice: NotificationData,
    task: TaskCompletedData,
)
    ensures
        prompt.prompt is Some ==> event_summary(HookEvent::UserPromptSubmit(prompt))
            == "User prompt: "@ + text::shortened(prompt.prompt->0@, 80),
        prompt.prompt is None ==> event_summary(HookEvent::UserPromptSubmit(prompt))
            == "User prompt: "@,
        notice.notification_type is Some && notice.message is Some ==> event_summary(
            HookEvent::Notification(notice),
        ) == "["@ + notice.notification_type->0@ + "] "@ + text::shortened(notice.message->0@, 80),
        notice.notification_type is None && notice.message is Some ==> event_summary(
            HookEvent::Notification(notice),
        ) == "[unknown] "@ + text::shortened(notice.message->0@, 80),
        task.task_subject is Some ==> event_summary(HookEvent::TaskCompleted(task))
            == "Task completed: "@ + text::shortened(task.task_subject->0@, 80),
        task.task_subject is None ==> event_summary(HookEvent::TaskCompleted(task))
            == "Task completed: "@,
{
    reveal_strlit("");
    reveal_strlit("[");
    reveal_strlit("] ");
    reveal_strlit("unknown");
    reveal_strlit("[unknown] ");
    lemma_empty_is_kept();
    assert("User prompt: "@ + ""@ =~= "User prompt: "@);
    assert("Task completed: "@ + ""@ =~= "Task completed: "@);
    assert("["@ + "unknown"@ + "] "@ =~= "[unknown] "@);
}

/// The events of a session's life are told with what set them off; those of a subagent, a teammate
/// or a worktree with whom or what they are about.
pub proof fn law_life_events_are_told(what: String, event: HookEvent)
    ensures
        match event {
            HookEvent::SessionStart(d) => d.source == Some(what) ==> event_summary(event)
                == "Session started ("@ + what@ + ")"@,
            HookEvent::SessionEnd(d) => d.reason == Some(what) ==> event_summary(event)
                == "Session ended ("@ + what@ + ")"@,
            HookEvent::PreCompact(d) => d.trigger == Some(what) ==> event_summary(event)
                == "Compaction ("@ + what@ + ")"@,
            HookEvent::InstructionsLoaded(d) => d.file_path == Some(what) ==> event_summary(event)
                == "Instructions loaded: "@ + what@,
            HookEvent::SubagentStart(d) => d.agent_type == Some(what) ==> event_summary(event)
                == "Subagent started: "@ + what@,
            HookEvent::SubagentStop(d) => d.agent_type == Some(what) ==> event_summary(event)
                == "Subagent stopped: "@ + what@,
            HookEvent::TeammateIdle(d) => d.teammate_name == Some(what) ==> event_summary(event)
                == "Teammate idle: "@ + what@,
            HookEvent::ConfigChange(d) => d.source == Some(what) ==> event_summary(event)
                == "Config changed: "@ + what@,
            HookEvent::WorktreeCreate(d) => d.name == Some(what) ==> event_summary(event)
                == "Worktree created: "@ + what@,
            HookEvent::WorktreeRemove(d) => d.worktree_path == Some(what) ==> event_summary(event)
                == "Worktree removed: "@ + what@,
            HookEvent::Stop(_) => event_summary(event) == "Agent stopped"@,
            _ => true,
        },
        match event {
            HookEvent::SessionStart(d) => d.source is None ==> event_summary(event)
                == "Session started ("@ + "unknown"@ + ")"@,
            HookEvent::SessionEnd(d) => d.reason is None ==> event_summary(event)
                == "Session ended ("@ + "unknown"@ + ")"@,
            HookEvent::PreCompact(d) => d.trigger is None ==> event_summary(event)
                == "Compaction ("@ + "unknown"@ + ")"@,
            HookEvent::InstructionsLoaded(d) => d.file_path is None ==> event_summary(event)
                == "Instructions loaded: "@ + "unknown"@,
            HookEvent::SubagentStart(d) => d.agent_type is None ==> event_summary(event)
                == "Subagent started: "@ + "unknown"@,
            HookEvent::SubagentStop(d) => d.agent_type is None ==> event_summary(event)
                == "Subagent stopped: "@ + "unknown"@,
            HookEvent::TeammateIdle(d) => d.teammate_name is None ==> event_summary(event)
                == "Teammate idle: "@ + "unknown"@,
            HookEvent::ConfigChange(d) => d.source is None ==> event_summary(event)
                == "Config changed: "@ + "unknown"@,
            HookEvent::WorktreeCreate(d) => d.name is None ==> event_summary(event)
                == "Worktree created: "@ + "unknown"@,
            HookEvent::WorktreeRemove(d) => d.worktree_path is None ==> event_summary(event)
                == "Worktree removed: "@ + "unknown"@,
            _ => true,
        },
{
}

/// An event belongs to the session that its own data names, whatever its kind.
pub proof fn law_event_belongs_to_its_session(event: HookEvent)
    ensures
        match event {
            HookEvent::SessionStart(SessionStartData { session_id, .. })
            | HookEvent::InstructionsLoaded(InstructionsLoadedData { session_id, .. })
            | HookEvent::UserPromptSubmit(UserPromptSubmitData { session_id, .. })
            | HookEvent::PreToolUse(PreToolUseData { session_id, .. })
            | HookEvent::PermissionRequest(PermissionRequestData { session_id, .. })
            | HookEvent::PostToolUse(PostToolUseData { session_id, .. })
            | HookEvent::PostToolUseFailure(PostToolUseFailureData { session_id, .. })
            | HookEvent::Notification(NotificationData { session_id, .. })
            | HookEvent::SubagentStart(SubagentStartData { session_id, .. })
            | HookEvent::SubagentStop(SubagentStopData { session_id, .. })
            | HookEvent::Stop(StopData { session_id, .. })
            | HookEvent::TeammateIdle(TeammateIdleData { session_id, .. })
            | HookEvent::TaskCompleted(TaskCompletedData { session_id, .. })
            | HookEvent::ConfigChange(ConfigChangeData { session_id, .. })
            | HookEvent::WorktreeCreate(WorktreeCreateData { session_id, .. })
            | HookEvent::WorktreeRemove(WorktreeRemoveData { session_id, .. })
            | HookEvent::PreCompact(PreCompactData { session_id, .. })
            | HookEvent::SessionEnd(SessionEndData { session_id, .. }) => event_session(event)
                == session_id@,
        },
{
}

} // verus!
