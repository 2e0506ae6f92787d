//! The approval of a permission request: what is asked, how long an answer is awaited and what
//! is answered.

use vstd::prelude::*;

use crate::events;
use crate::events::HookEvent;
use crate::json;
use crate::json::{put, Json};
use crate::text;
use crate::text::concat3;

verus! {

/// What a tool was to be given; an empty object where nothing is said.
pub open spec fn tool_input_of(raw: json::JsonView) -> json::JsonView {
    match json::member(raw, "tool_input"@) {
        Some(input) => input,
        None => json::JsonView::Object(Map::empty()),
    }
}

/// The tool that asks.
pub open spec fn asking_tool(raw: json::JsonView) -> Seq<char> {
    text::text_or(json::member_string(raw, "tool_name"@), "Unknown"@)
}

/// What is asked, in short: the tool, with its command or else its file where it has one.
pub open spec fn request_summary(raw: json::JsonView) -> Seq<char> {
    let input = tool_input_of(raw);
    match json::member_string(input, "command"@) {
        Some(command) => asking_tool(raw) + ": "@ + command,
        None => match json::member_string(input, "file_path"@) {
            Some(path) => asking_tool(raw) + ": "@ + path,
            None => asking_tool(raw),
        },
    }
}

/// What is asked.
pub open spec fn pending_doc(raw: json::JsonView, timestamp: Seq<char>) -> json::JsonView {
    json::JsonView::Object(
        Map::<Seq<char>, json::JsonView>::empty().insert(
            "tool_name"@,
            json::JsonView::Str(asking_tool(raw)),
        ).insert("summary"@, json::JsonView::Str(request_summary(raw))).insert(
            "tool_input"@,
            tool_input_of(raw),
        ).insert("timestamp"@, json::JsonView::Str(timestamp)),
    )
}

/// The file that asks for an approval.
pub fn pending_request(raw: &Json, timestamp: &str) -> (r: String)
    ensures
        r@ == json::pretty_text(pending_doc(raw@, timestamp@)),
{
    let tool_name = match raw.get_str("tool_name") {
        Some(name) => name,
        None => "Unknown",
    };
    let tool_input = match raw.get("tool_input") {
        Some(input) => input.copy(),
        None => Json::Object(Vec::new()),
    };
    let summary = match tool_input.get_str("command") {
        Some(command) => concat3(tool_name, ": ", command),
        None => match tool_input.get_str("file_path") {
            Some(path) => concat3(tool_name, ": ", path),
            None => tool_name.to_owned(),
        },
    };
    let mut members: Vec<(String, Json)> = Vec::new();
    put(&mut members, "tool_name", Json::string(tool_name));
    put(&mut members, "summary", Json::Str(summary));
    put(&mut members, "tool_input", tool_input);
    put(&mut members, "timestamp", Json::string(timestamp));
    Json::Object(members).render_pretty()
}

/// The nanoseconds for which an answer is awaited.
pub const TIMEOUT_NANOS: u64 = 600_000_000_000;

/// The milliseconds between two looks for an answer.
pub const POLL_MILLIS: u64 = 100;

/// What is done next while an answer is awaited.
#[derive(Clone, Copy, PartialEq, Eq, Debug, Structural)]
pub enum WaitStep {
    GiveUp,
    ReadAnswer,
    Sleep,
}

/// What is done next, after some time, when an answer is there or not.
pub open spec fn wait_step(elapsed_nanos: u64, answered: bool) -> WaitStep {
    if elapsed_nanos > TIMEOUT_NANOS {
        WaitStep::GiveUp
    } else if answered {
        WaitStep::ReadAnswer
    } else {
        WaitStep::Sleep
    }
}

/// What is done next, after some time, when an answer is there or not. Once the time is over an
/// answer comes too late.
pub fn next_wait_step(elapsed_nanos: u64, answered: bool) -> (r: WaitStep)
    ensures
        r == wait_step(elapsed_nanos, answered),
{
    if elapsed_nanos > TIMEOUT_NANOS {
        WaitStep::GiveUp
    } else if answered {
        WaitStep::ReadAnswer
    } else {
        WaitStep::Sleep
    }
}

/// The answer allows the request: it says so in so many words.
pub open spec fn allows(answer: json::JsonView) -> bool {
    json::bool_of(json::member(answer, "allow"@)) == Some(true)
}

/// What is decided.
pub open spec fn decision_of(allow: bool) -> json::JsonView {
    if allow {
        json::JsonView::Object(
            Map::<Seq<char>, json::JsonView>::empty().insert(
                "behavior"@,
                json::JsonView::Str("allow"@),
            ),
        )
    } else {
        json::JsonView::Object(
            Map::<Seq<char>, json::JsonView>::empty().insert(
                "behavior"@,
                json::JsonView::Str("deny"@),
            ).insert("message"@, json::JsonView::Str("Denied by desktop cat"@)),
        )
    }
}

/// What is answered to the agent.
pub open spec fn decision_doc(allow: bool) -> json::JsonView {
    json::JsonView::Object(
        Map::<Seq<char>, json::JsonView>::empty().insert(
            "hookSpecificOutput"@,
            json::JsonView::Object(
                Map::<Seq<char>, json::JsonView>::empty().insert(
                    "hookEventName"@,
                    json::JsonView::Str("PermissionRequest"@),
                ).insert("decision"@, decision_of(allow)),
            ),
        ),
    )
}

/// Whether an answer allows the request.
pub fn is_allowed(answer: &Json) -> (r: bool)
    ensures
        r == allows(answer@),
{
    match answer.get("allow") {
        Some(value) => match value.as_bool() {
            Some(allow) => allow,
            None => false,
        },
        None => false,
    }
}

/// What is answered to the agent.
pub fn decision(allow: bool) -> (r: Json)
    ensures
        r@ == decision_doc(allow),
{
    let mut verdict: Vec<(String, Json)> = Vec::new();
    if allow {
        put(&mut verdict, "behavior", Json::string("allow"));
    } else {
        put(&mut verdict, "behavior", Json::string("deny"));
        put(&mut verdict, "message", Json::string("Denied by desktop cat"));
    }
    let mut output: Vec<(String, Json)> = Vec::new();
    put(&mut output, "hookEventName", Json::string("PermissionRequest"));
    put(&mut output, "decision", Json::Object(verdict));
    let mut members: Vec<(String, Json)> = Vec::new();
    put(&mut members, "hookSpecificOutput", Json::Object(output));
    Json::Object(members)
}

/// What is written to the agent for an answer.
pub open spec fn answer_of(response: Seq<char>) -> Option<Seq<char>> {
    match json::parsed_text(response) {
        Some(answer) => Some(json::compact_text(decision_doc(allows(answer)))),
        None => None,
    }
}

/// What is written to the agent for an answer; nothing where the answer is no JSON, and the agent
/// then asks for itself.
pub fn answer_text(response: &str) -> (r: Option<String>)
    ensures
        text::string_view(r) == answer_of(response@),
{
    match json::parse_text(response) {
        Ok(answer) => Some(decision(is_allowed(&answer)).render()),
        Err(_) => None,
    }
}

/// The decision says `allow` just where the answer does.
pub proof fn law_only_an_allowing_answer_allows(answer: json::JsonView)
    ensures
        json::member_string(decision_of(allows(answer)), "behavior"@) == Some("allow"@)
            <==> json::member(answer, "allow"@) == Some(json::JsonView::Bool(true)),
{
    reveal_strlit("behavior");
    reveal_strlit("message");
    reveal_strlit("allow");
    reveal_strlit("deny");
    assert("behavior"@.len() != "message"@.len());
    assert("allow"@.len() != "deny"@.len());
}

/// What is asked names the tool, and shows what the tool was given and since when it waits. The
/// summary adds the command to the tool, or the file where there is no command.
pub proof fn law_request_tells_what_is_asked(raw: json::JsonView, timestamp: Seq<char>)
    ensures
        ({
            let doc = pending_doc(raw, timestamp);
            let tool = match json::member(raw, "tool_name"@) {
                Some(json::JsonView::Str(name)) => name,
                _ => "Unknown"@,
            };
            let input = json::member(raw, "tool_input"@);
            let given = |key: Seq<char>|
                match input {
                    Some(doc) => json::member_string(doc, key),
                    None => None,
                };
            let summary = json::member(doc, "summary"@);
            &&& json::member(doc, "tool_name"@) == Some(json::JsonView::Str(tool))
            &&& json::member(doc, "timestamp"@) == Some(json::JsonView::Str(timestamp))
            &&& input is Some ==> json::member(doc, "tool_input"@) == input
            &&& input is None ==> json::member(doc, "tool_input"@) == Some(
                json::JsonView::Object(Map::empty()),
            )
            &&& given("command"@) is Some ==> summary == Some(
                json::JsonView::Str(tool + ": "@ + given("command"@)->0),
            )
            &&& given("command"@) is None && given("file_path"@) is Some ==> summary == Some(
                json::JsonView::Str(tool + ": "@ + given("file_path"@)->0),
            )
            &&& given("command"@) is None && given("file_path"@) is None ==> summary == Some(
                json::JsonView::Str(tool),
            )
        }),
{
    reveal_strlit("tool_name");
    reveal_strlit("summary");
    reveal_strlit("tool_input");
    reveal_strlit("timestamp");
    assert("tool_name"@.len() == 9 && "summary"@.len() == 7 && "tool_input"@.len() == 10);
    assert("timestamp"@.len() == 9 && "timestamp"@[1] == 'i' && "tool_name"@[1] == 'o');
}

/// The agent is told, for the event that asked, what was decided; a refusal says who refused, and
/// nothing else is said.
pub proof fn law_decision_is_told_to_the_agent(allow: bool, asked: events::PermissionRequestData)
    ensures
        ({
            let output = json::member(decision_doc(allow), "hookSpecificOutput"@);
            let verdict = json::member(output->0, "decision"@);
            &&& output is Some
            &&& json::member(output->0, "hookEventName"@) == Some(
                json::JsonView::Str(events::event_name(HookEvent::PermissionRequest(asked))),
            )
            &&& verdict is Some
            &&& allow ==> json::member(verdict->0, "behavior"@) == Some(
                json::JsonView::Str("allow"@),
            ) && json::member(verdict->0, "message"@) is None
            &&& !allow ==> json::member(verdict->0, "behavior"@) == Some(
                json::JsonView::Str("deny"@),
            ) && json::member(verdict->0, "message"@) == Some(
                json::JsonView::Str("Denied by desktop cat"@),
            )
        }),
{
    reveal_strlit("behavior");
    reveal_strlit("message");
    reveal_strlit("hookEventName");
    reveal_strlit("decision");
    assert("behavior"@.len() != "message"@.len());
    assert("hookEventName"@.len() != "decision"@.len());
}

/// An answer is awaited for ten minutes: up to then it is read as soon as it is there; later it is
/// not read any more, and what was given up stays so.
pub proof fn law_answer_is_awaited_for_ten_minutes(elapsed: u64, later: u64, answered: bool)
    requires
        elapsed <= later,
    ensures
        wait_step(elapsed, answered) == WaitStep::GiveUp <==> elapsed > 600_000_000_000,
        wait_step(elapsed, answered) == WaitStep::ReadAnswer <==> elapsed <= 600_000_000_000
            && answered,
        wait_step(elapsed, answered) == WaitStep::Sleep <==> elapsed <= 600_000_000_000
            && !answered,
        wait_step(elapsed, answered) == WaitStep::GiveUp ==> wait_step(later, !answered)
            == WaitStep::GiveUp,
{
}

/// An answer that is no JSON is passed on as nothing; any other is passed on as a decision, which
/// allows only where the answer says that it does.
pub proof fn law_unreadable_answer_decides_nothing(response: Seq<char>)
    ensures
        json::parsed_text(response) is None <==> answer_of(response) is None,
        json::parsed_text(response) matches Some(answer) ==> answer_of(response) == Some(
            json::compact_text(
                decision_doc(
                    json::member(answer, "allow"@) == Some(json::JsonView::Bool(true)),
                ),
            ),
        ),
{
}

} // verus!
