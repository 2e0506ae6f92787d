//! The receiver of Codex telemetry: OTLP log exports, as protobuf or JSON, turned into records
//! for the event log.

use vstd::prelude::*;

use crate::cat;
use crate::colony;
use crate::events;
use crate::json;
use crate::json::{put, Json};
use crate::logger;
use crate::otlp;
use crate::otlp::{Attribute, AttributeValue};
use crate::text;
use crate::text::{borrowed, concat2, concat3, owned, same_text};

verus! {

// ---------------------------------------------------------------------------
// Codex events
// ---------------------------------------------------------------------------

/// What the log calls a Codex event: its type, its summary and the tool it is about.
pub open spec fn mapped_event(
    name: Seq<char>,
    tool: Option<Seq<char>>,
    decision: Option<Seq<char>>,
    kind: Option<Seq<char>>,
) -> (Seq<char>, Seq<char>, Option<Seq<char>>) {
    if name == "codex.conversation_starts"@ {
        ("SessionStart"@, "Codex session started"@, tool)
    } else if name == "codex.user_prompt"@ {
        ("UserPromptSubmit"@, "Codex user prompt"@, tool)
    } else if name == "codex.api_request"@ {
        ("api_request"@, "Codex API request"@, tool)
    } else if name == "codex.sse_event"@ || name == "codex.websocket_event"@ {
        if kind == Some("response.completed"@) || kind == Some("[DONE]"@) {
            ("Stop"@, "Codex response completed"@, tool)
        } else if kind == Some("response.failed"@) {
            ("Stop"@, "Codex response failed"@, tool)
        } else if kind is Some {
            ("sse_event"@, "Codex: "@ + kind->0, tool)
        } else {
            ("sse_event"@, "Codex SSE event"@, tool)
        }
    } else if name == "codex.websocket_request"@ {
        ("api_request"@, "Codex WebSocket request"@, tool)
    } else if name == "codex.tool_decision"@ {
        decided_tool(tool, decision)
    } else if name == "codex.tool_result"@ {
        let tool_name = text::text_or(tool, "unknown"@);
        ("tool_result"@, tool_name + " completed"@, Some(tool_name))
    } else {
        (name, "Codex event: "@ + name, tool)
    }
}

/// What the log calls a decision on a tool call. A denied or aborted call waits for the user.
pub open spec fn decided_tool(tool: Option<Seq<char>>, decision: Option<Seq<char>>) -> (
    Seq<char>,
    Seq<char>,
    Option<Seq<char>>,
) {
    let decided = text::text_or(decision, "unknown"@);
    let tool_name = text::text_or(tool, "unknown"@);
    if decision == Some("denied"@) || decision == Some("abort"@) {
        ("PermissionRequest"@, tool_name + ": "@ + decided, Some(tool_name))
    } else if tool == Some("spawn_agent"@) {
        ("SubagentStart"@, "Codex subagent spawned ("@ + decided + ")"@, tool)
    } else if tool == Some("close_agent"@) {
        ("SubagentStop"@, "Codex subagent stopped ("@ + decided + ")"@, tool)
    } else {
        ("tool_decision"@, tool_name + ": "@ + decided, tool)
    }
}

/// The views of a mapped event.
pub open spec fn mapped_view(r: (String, String, Option<String>)) -> (
    Seq<char>,
    Seq<char>,
    Option<Seq<char>>,
) {
    (r.0@, r.1@, text::string_view(r.2))
}

fn is_text(value: Option<&str>, expected: &str) -> (r: bool)
    ensures
        r == (text::text_view(value) == Some(expected@)),
{
    match value {
        Some(v) => same_text(v, expected),
        None => false,
    }
}

fn known_or<'a>(value: Option<&'a str>, default: &'a str) -> (r: &'a str)
    ensures
        r@ == text::text_or(text::text_view(value), default@),
{
    match value {
        Some(v) => v,
        None => default,
    }
}

fn map_tool_decision(tool_name: Option<&str>, decision: Option<&str>) -> (r: (
    String,
    String,
    Option<String>,
))
    ensures
        mapped_view(r) == decided_tool(text::text_view(tool_name), text::text_view(decision)),
{
    let decided = known_or(decision, "unknown");
    let tool = known_or(tool_name, "unknown");
    if is_text(decision, "denied") || is_text(decision, "abort") {
        ("PermissionRequest".to_owned(), concat3(tool, ": ", decided), Some(tool.to_owned()))
    } else if is_text(tool_name, "spawn_agent") {
        (
            "SubagentStart".to_owned(),
            concat3("Codex subagent spawned (", decided, ")"),
            owned(tool_name),
        )
    } else if is_text(tool_name, "close_agent") {
        (
            "SubagentStop".to_owned(),
            concat3("Codex subagent stopped (", decided, ")"),
            owned(tool_name),
        )
    } else {
        ("tool_decision".to_owned(), concat3(tool, ": ", decided), owned(tool_name))
    }
}

/// Maps a Codex event to the type, the summary and the tool that the log names.
pub fn map_codex_event(
    event_name: &str,
    tool_name: Option<&str>,
    decision: Option<&str>,
    _call_id: Option<&str>,
    event_kind: Option<&str>,
) -> (r: (String, String, Option<String>))
    ensures
        mapped_view(r) == mapped_event(
            event_name@,
            text::text_view(tool_name),
            text::text_view(decision),
            text::text_view(event_kind),
        ),
{
    if same_text(event_name, "codex.conversation_starts") {
        ("SessionStart".to_owned(), "Codex session started".to_owned(), owned(tool_name))
    } else if same_text(event_name, "codex.user_prompt") {
        ("UserPromptSubmit".to_owned(), "Codex user prompt".to_owned(), owned(tool_name))
    } else if same_text(event_name, "codex.api_request") {
        ("api_request".to_owned(), "Codex API request".to_owned(), owned(tool_name))
    } else if same_text(event_name, "codex.sse_event") || same_text(
        event_name,
        "codex.websocket_event",
    ) {
        if is_text(event_kind, "response.completed") || is_text(event_kind, "[DONE]") {
            ("Stop".to_owned(), "Codex response completed".to_owned(), owned(tool_name))
        } else if is_text(event_kind, "response.failed") {
            ("Stop".to_owned(), "Codex response failed".to_owned(), owned(tool_name))
        } else {
            let summary = match event_kind {
                Some(kind) => concat2("Codex: ", kind),
                None => "Codex SSE event".to_owned(),
            };
            ("sse_event".to_owned(), summary, owned(tool_name))
        }
    } else if same_text(event_name, "codex.websocket_request") {
        ("api_request".to_owned(), "Codex WebSocket request".to_owned(), owned(tool_name))
    } else if same_text(event_name, "codex.tool_decision") {
        map_tool_decision(tool_name, decision)
    } else if same_text(event_name, "codex.tool_result") {
        let tool = known_or(tool_name, "unknown");
        ("tool_result".to_owned(), concat2(tool, " completed"), Some(tool.to_owned()))
    } else {
        (event_name.to_owned(), concat2("Codex event: ", event_name), owned(tool_name))
    }
}

// ---------------------------------------------------------------------------
// Records
// ---------------------------------------------------------------------------

/// What is written to the log for one telemetry record.
#[derive(Debug)]
pub struct CodexRecord {
    pub event_type: String,
    pub session_id: String,
    pub tool_name: Option<String>,
    pub summary: String,
    pub raw: Json,
}

/// What a record says.
#[verifier::ext_equal]
pub struct RecordView {
    pub event_type: Seq<char>,
    pub session_id: Seq<char>,
    pub tool_name: Option<Seq<char>>,
    pub summary: Seq<char>,
    pub raw: json::JsonView,
}

impl View for CodexRecord {
    type V = RecordView;

    open spec fn view(&self) -> RecordView {
        RecordView {
            event_type: self.event_type@,
            session_id: self.session_id@,
            tool_name: text::string_view(self.tool_name),
            summary: self.summary@,
            raw: self.raw@,
        }
    }
}

/// The fields of a telemetry record that decide what is logged.
pub struct Fields {
    pub event_name: Option<String>,
    pub conversation_id: Option<String>,
    pub tool_name: Option<String>,
    pub decision: Option<String>,
    pub call_id: Option<String>,
    pub event_kind: Option<String>,
}

/// What the fields say.
pub struct FieldsView {
    pub event_name: Option<Seq<char>>,
    pub conversation_id: Option<Seq<char>>,
    pub tool_name: Option<Seq<char>>,
    pub decision: Option<Seq<char>>,
    pub call_id: Option<Seq<char>>,
    pub event_kind: Option<Seq<char>>,
}

impl View for Fields {
    type V = FieldsView;

    open spec fn view(&self) -> FieldsView {
        FieldsView {
            event_name: text::string_view(self.event_name),
            conversation_id: text::string_view(self.conversation_id),
            tool_name: text::string_view(self.tool_name),
            decision: text::string_view(self.decision),
            call_id: text::string_view(self.call_id),
            event_kind: text::string_view(self.event_kind),
        }
    }
}

/// What the raw part of every record starts with.
pub open spec fn base_members(fields: FieldsView) -> Map<Seq<char>, json::JsonView> {
    Map::<Seq<char>, json::JsonView>::empty().insert(
        "event_name"@,
        json::JsonView::Str(text::text_or(fields.event_name, "unknown"@)),
    ).insert(
        "conversation_id"@,
        json::JsonView::Str(text::text_or(fields.conversation_id, "unknown"@)),
    )
}

/// What is logged for a record with these fields and this raw part. A subagent event also
/// carries its call as the agent's identity; a permission request does not, so that any later
/// event of the conversation follows it.
pub open spec fn logged(
    fields: FieldsView,
    members: Map<Seq<char>, json::JsonView>,
) -> RecordView {
    let mapped = mapped_event(
        text::text_or(fields.event_name, "unknown"@),
        fields.tool_name,
        fields.decision,
        fields.event_kind,
    );
    let subagent = mapped.0 == "SubagentStart"@ || mapped.0 == "SubagentStop"@;
    RecordView {
        event_type: mapped.0,
        session_id: text::text_or(fields.conversation_id, "unknown"@),
        tool_name: mapped.2,
        summary: mapped.1,
        raw: json::JsonView::Object(
            if subagent && fields.call_id is Some {
                members.insert("agent_id"@, json::JsonView::Str(fields.call_id->0))
            } else {
                members
            },
        ),
    }
}

/// The record that is logged for these fields and this raw part.
pub fn process_event(fields: &Fields, raw_map: Vec<(String, Json)>) -> (r: CodexRecord)
    ensures
        r@ == logged(fields@, json::members_view(raw_map@)),
{
    let mut members = raw_map;
    let (event_type, summary, tool_name) = map_codex_event(
        text::string_or(&fields.event_name, "unknown"),
        borrowed(&fields.tool_name),
        borrowed(&fields.decision),
        borrowed(&fields.call_id),
        borrowed(&fields.event_kind),
    );
    if same_text(&event_type, "SubagentStart") || same_text(&event_type, "SubagentStop") {
        if let Some(call_id) = &fields.call_id {
            put(&mut members, "agent_id", Json::string(call_id.as_str()));
        }
    }
    CodexRecord {
        event_type,
        session_id: text::string_or(&fields.conversation_id, "unknown").to_owned(),
        tool_name,
        summary,
        raw: Json::Object(members),
    }
}

fn base(fields: &Fields) -> (r: Vec<(String, Json)>)
    ensures
        json::members_view(r@) == base_members(fields@),
{
    let mut members: Vec<(String, Json)> = Vec::new();
    let name = text::string_or(&fields.event_name, "unknown");
    let conversation = text::string_or(&fields.conversation_id, "unknown");
    put(&mut members, "event_name", Json::string(name));
    put(&mut members, "conversation_id", Json::string(conversation));
    members
}

/// What the receiver answers, and what it logs.
pub struct Received {
    pub status: u16,
    pub records: Vec<CodexRecord>,
}

/// The status of an export that was read.
pub const STATUS_OK: u16 = 200;

/// The status of an export that could not be read.
pub const STATUS_BAD_REQUEST: u16 = 400;

/// The views of a sequence of records.
pub open spec fn record_views(records: Seq<CodexRecord>) -> Seq<RecordView> {
    records.map_values(|r: CodexRecord| r@)
}

/// The answer to an export: its records, or a refusal where it could not be read.
pub open spec fn answers(received: Received, records: Option<Seq<RecordView>>) -> bool {
    match records {
        Some(expected) => received.status == STATUS_OK && record_views(received.records@)
            == expected,
        None => received.status == STATUS_BAD_REQUEST && received.records@.len() == 0,
    }
}

// ---------------------------------------------------------------------------
// JSON exports
// ---------------------------------------------------------------------------

/// The position of the first attribute with this key, from `from` on.
pub open spec fn json_attr_index(attrs: Seq<json::JsonView>, key: Seq<char>, from: int) -> Option<
    int,
>
    decreases attrs.len() - from,
{
    if from < 0 || from >= attrs.len() {
        None
    } else if json::member_string(attrs[from], "key"@) == Some(key) {
        Some(from)
    } else {
        json_attr_index(attrs, key, from + 1)
    }
}

/// The text of the first attribute with this key.
pub open spec fn json_attr(attrs: Seq<json::JsonView>, key: Seq<char>) -> Option<Seq<char>> {
    match json_attr_index(attrs, key, 0) {
        Some(i) => match json::member(attrs[i], "value"@) {
            Some(value) => json::member_string(value, "stringValue"@),
            None => None,
        },
        None => None,
    }
}

/// The text of the first attribute with this key.
pub fn extract_json_attr(attrs: &Vec<Json>, key: &str) -> (r: Option<String>)
    ensures
        text::string_view(r) == json_attr(json::items_view(attrs@), key@),
{
    let ghost views = json::items_view(attrs@);
    let mut i: usize = 0;
    while i < attrs.len()
        invariant
            i <= attrs@.len(),
            views == json::items_view(attrs@),
            json_attr_index(views, key@, 0) == json_attr_index(views, key@, i as int),
        decreases attrs@.len() - i,
    {
        let kv = &attrs[i];
        proof {
            assert(views[i as int] == kv@);
        }
        if is_text(kv.get_str("key"), key) {
            return match kv.get("value") {
                Some(value) => owned(value.get_str("stringValue")),
                None => None,
            };
        }
        i += 1;
    }
    None
}

/// What an attribute's value says: a string, an integer (which comes as a string of digits or
/// as a number), a double or a boolean.
pub open spec fn otlp_value(value: json::JsonView) -> Option<json::JsonView> {
    let int_text = json::member_string(value, "intValue"@);
    let int_number = json::int_of(json::member(value, "intValue"@));
    let double = json::double_of(json::member(value, "doubleValue"@));
    let boolean = json::bool_of(json::member(value, "boolValue"@));
    if json::member_string(value, "stringValue"@) is Some {
        Some(json::JsonView::Str(json::member_string(value, "stringValue"@)->0))
    } else if int_text is Some {
        match text::parsed_i64(int_text->0) {
            Some(i) => Some(json::JsonView::Number(json::int_number(i))),
            None => Some(json::JsonView::Str(int_text->0)),
        }
    } else if int_number is Some {
        Some(json::JsonView::Number(json::int_number(int_number->0)))
    } else if double is Some {
        double
    } else if boolean is Some {
        Some(json::JsonView::Bool(boolean->0))
    } else {
        None
    }
}

/// Reads an attribute's value.
pub fn read_otlp_value(value: &Json) -> (r: Option<Json>)
    ensures
        match r {
            Some(doc) => otlp_value(value@) == Some(doc@),
            None => otlp_value(value@) is None,
        },
{
    if let Some(s) = value.get_str("stringValue") {
        return Some(Json::string(s));
    }
    if let Some(s) = value.get_str("intValue") {
        return match text::parse_i64(s) {
            Some(i) => Some(Json::integer(i)),
            None => Some(Json::string(s)),
        };
    }
    if let Some(v) = value.get("intValue") {
        if let Some(i) = v.as_i64() {
            return Some(Json::integer(i));
        }
    }
    if let Some(v) = value.get("doubleValue") {
        if let Some(d) = v.as_double() {
            return Some(d);
        }
    }
    if let Some(v) = value.get("boolValue") {
        if let Some(b) = v.as_bool() {
            return Some(Json::Bool(b));
        }
    }
    None
}

/// The name and the value that an attribute adds to the raw part, where it adds one.
pub open spec fn json_member(attr: json::JsonView) -> Option<(Seq<char>, json::JsonView)> {
    match (json::member_string(attr, "key"@), json::member(attr, "value"@)) {
        (Some(key), Some(value)) => match otlp_value(value) {
            Some(doc) => Some((key, doc)),
            None => None,
        },
        _ => None,
    }
}

/// The raw part after the first `n` attributes.
pub open spec fn with_json_attrs(
    base: Map<Seq<char>, json::JsonView>,
    attrs: Seq<json::JsonView>,
    n: int,
) -> Map<Seq<char>, json::JsonView>
    decreases n,
{
    if n <= 0 || n > attrs.len() {
        base
    } else {
        let before = with_json_attrs(base, attrs, n - 1);
        match json_member(attrs[n - 1]) {
            Some(m) => before.insert(m.0, m.1),
            None => before,
        }
    }
}

/// The fields that the attributes of a record say.
pub open spec fn json_fields(attrs: Seq<json::JsonView>) -> FieldsView {
    FieldsView {
        event_name: json_attr(attrs, "event.name"@),
        conversation_id: json_attr(attrs, "conversation.id"@),
        tool_name: json_attr(attrs, "tool_name"@),
        decision: json_attr(attrs, "decision"@),
        call_id: json_attr(attrs, "call_id"@),
        event_kind: json_attr(attrs, "event.kind"@),
    }
}

/// The items of the array member `key`; none where there is no such array.
pub open spec fn json_list(doc: json::JsonView, key: Seq<char>) -> Seq<json::JsonView> {
    match json::items_of(json::member(doc, key)) {
        Some(items) => items,
        None => seq![],
    }
}

/// What is logged for one record of a JSON export.
pub open spec fn json_record(record: json::JsonView) -> RecordView {
    let attrs = json_list(record, "attributes"@);
    let fields = json_fields(attrs);
    logged(fields, with_json_attrs(base_members(fields), attrs, attrs.len() as int))
}

/// What is logged for one scope of a JSON export.
pub open spec fn json_scope_records(scope: json::JsonView) -> Seq<RecordView> {
    json_list(scope, "logRecords"@).map_values(|r: json::JsonView| json_record(r))
}

/// What is logged for one resource of a JSON export.
pub open spec fn json_resource_records(resource: json::JsonView) -> Seq<RecordView> {
    json_list(resource, "scopeLogs"@).flat_map(|s: json::JsonView| json_scope_records(s))
}

/// What is logged for a JSON export: every record of every scope of every resource, in order.
pub open spec fn json_records(doc: json::JsonView) -> Seq<RecordView> {
    json_list(doc, "resourceLogs"@).flat_map(|r: json::JsonView| json_resource_records(r))
}

fn list_of<'a>(doc: &'a Json, key: &str) -> (r: Option<&'a Vec<Json>>)
    ensures
        match r {
            Some(items) => json_list(doc@, key@) == json::items_view(items@),
            None => json_list(doc@, key@) == Seq::<json::JsonView>::empty(),
        },
{
    match doc.get(key) {
        Some(value) => value.as_array(),
        None => None,
    }
}

/// The record that is logged for one record of a JSON export.
pub fn read_json_record(record: &Json) -> (r: CodexRecord)
    ensures
        r@ == json_record(record@),
{
    let empty: Vec<Json> = Vec::new();
    let attrs = match list_of(record, "attributes") {
        Some(items) => items,
        None => &empty,
    };
    let ghost views = json::items_view(attrs@);
    proof {
        assert(views =~= json_list(record@, "attributes"@));
    }
    let fields = Fields {
        event_name: extract_json_attr(attrs, "event.name"),
        conversation_id: extract_json_attr(attrs, "conversation.id"),
        tool_name: extract_json_attr(attrs, "tool_name"),
        decision: extract_json_attr(attrs, "decision"),
        call_id: extract_json_attr(attrs, "call_id"),
        event_kind: extract_json_attr(attrs, "event.kind"),
    };
    let mut members = base(&fields);
    let mut i: usize = 0;
    while i < attrs.len()
        invariant
            i <= attrs@.len(),
            views == json::items_view(attrs@),
            json::members_view(members@) == with_json_attrs(
                base_members(fields@),
                views,
                i as int,
            ),
        decreases attrs@.len() - i,
    {
        let kv = &attrs[i];
        proof {
            assert(views[i as int] == kv@);
        }
        if let Some(key) = kv.get_str("key") {
            if let Some(value) = kv.get("value") {
                if let Some(doc) = read_otlp_value(value) {
                    put(&mut members, key, doc);
                }
            }
        }
        i += 1;
    }
    process_event(&fields, members)
}

/// Adds the records of one scope.
fn read_json_scope(scope: &Json, out: &mut Vec<CodexRecord>)
    ensures
        record_views(final(out)@) == record_views(old(out)@) + json_scope_records(scope@),
{
    let ghost before = record_views(out@);
    if let Some(records) = list_of(scope, "logRecords") {
        let ghost views = json::items_view(records@);
        let mut i: usize = 0;
        while i < records.len()
            invariant
                i <= records@.len(),
                views == json::items_view(records@),
                record_views(out@) =~= before + views.take(i as int).map_values(
                    |r: json::JsonView| json_record(r),
                ),
            decreases records@.len() - i,
        {
            proof {
                assert(views[i as int] == records@[i as int]@);
            }
            let ghost done = out@;
            out.push(read_json_record(&records[i]));
            proof {
                assert(record_views(out@) =~= record_views(done).push(json_record(views[i as int])));
                assert(views.take(i + 1) =~= views.take(i as int).push(views[i as int]));
            }
            i += 1;
        }
        proof {
            assert(views.take(i as int) =~= views);
        }
    }
}

/// Adds the records of one resource.
fn read_json_resource(resource: &Json, out: &mut Vec<CodexRecord>)
    ensures
        record_views(final(out)@) == record_views(old(out)@) + json_resource_records(resource@),
{
    let ghost before = record_views(out@);
    let ghost step = |s: json::JsonView| json_scope_records(s);
    if let Some(scopes) = list_of(resource, "scopeLogs") {
        let ghost views = json::items_view(scopes@);
        let mut i: usize = 0;
        proof {
            assert(views.take(0).flat_map(step) =~= Seq::empty());
        }
        while i < scopes.len()
            invariant
                i <= scopes@.len(),
                views == json::items_view(scopes@),
                step == (|s: json::JsonView| json_scope_records(s)),
                record_views(out@) =~= before + views.take(i as int).flat_map(step),
            decreases scopes@.len() - i,
        {
            proof {
                assert(views[i as int] == scopes@[i as int]@);
                views.lemma_flat_map_take_append(step, i as int);
            }
            read_json_scope(&scopes[i], out);
            i += 1;
        }
        proof {
            assert(views.take(i as int) =~= views);
        }
    } else {
        proof {
            assert(Seq::<json::JsonView>::empty().flat_map(step) =~= Seq::empty());
        }
    }
}

/// Reads a JSON export that was parsed.
pub fn read_json_logs(doc: &Json) -> (r: Vec<CodexRecord>)
    ensures
        record_views(r@) == json_records(doc@),
{
    let mut out: Vec<CodexRecord> = Vec::new();
    let ghost step = |r: json::JsonView| json_resource_records(r);
    if let Some(resources) = list_of(doc, "resourceLogs") {
        let ghost views = json::items_view(resources@);
        let mut i: usize = 0;
        proof {
            assert(views.take(0).flat_map(step) =~= Seq::empty());
        }
        while i < resources.len()
            invariant
                i <= resources@.len(),
                views == json::items_view(resources@),
                step == (|r: json::JsonView| json_resource_records(r)),
                record_views(out@) =~= views.take(i as int).flat_map(step),
            decreases resources@.len() - i,
        {
            proof {
                assert(views[i as int] == resources@[i as int]@);
                views.lemma_flat_map_take_append(step, i as int);
            }
            read_json_resource(&resources[i], &mut out);
            i += 1;
        }
        proof {
            assert(views.take(i as int) =~= views);
        }
    } else {
        proof {
            assert(Seq::<json::JsonView>::empty().flat_map(step) =~= Seq::empty());
        }
    }
    out
}

/// What is logged for the body of a JSON export; nothing where it is no JSON.
pub open spec fn json_body_records(body: Seq<u8>) -> Option<Seq<RecordView>> {
    match json::parsed_bytes(body) {
        Some(doc) => Some(json_records(doc)),
        None => None,
    }
}

/// Receives a JSON export.
pub fn receive_logs_json(body: &[u8]) -> (r: Received)
    ensures
        answers(r, json_body_records(body@)),
{
    match json::parse_bytes(body) {
        Ok(doc) => Received { status: STATUS_OK, records: read_json_logs(&doc) },
        Err(_) => Received { status: STATUS_BAD_REQUEST, records: Vec::new() },
    }
}

// ---------------------------------------------------------------------------
// Protobuf exports
// ---------------------------------------------------------------------------

/// The position of the first attribute with this key, from `from` on.
pub open spec fn attr_index(attrs: Seq<otlp::AttributeView>, key: Seq<char>, from: int) -> Option<
    int,
>
    decreases attrs.len() - from,
{
    if from < 0 || from >= attrs.len() {
        None
    } else if attrs[from].key == key {
        Some(from)
    } else {
        attr_index(attrs, key, from + 1)
    }
}

/// The text of the first attribute with this key.
pub open spec fn attr_text(attrs: Seq<otlp::AttributeView>, key: Seq<char>) -> Option<Seq<char>> {
    match attr_index(attrs, key, 0) {
        Some(i) => match attrs[i].value {
            Some(otlp::ValueView::Str(s)) => Some(s),
            _ => None,
        },
        None => None,
    }
}

/// The text of the first attribute with this key.
pub fn extract_attr(attrs: &Vec<Attribute>, key: &str) -> (r: Option<String>)
    ensures
        text::string_view(r) == attr_text(otlp::attribute_views(attrs@), key@),
{
    let ghost views = otlp::attribute_views(attrs@);
    let mut i: usize = 0;
    while i < attrs.len()
        invariant
            i <= attrs@.len(),
            views == otlp::attribute_views(attrs@),
            attr_index(views, key@, 0) == attr_index(views, key@, i as int),
        decreases attrs@.len() - i,
    {
        let attr = &attrs[i];
        proof {
            assert(views[i as int] == attr@);
        }
        if same_text(&attr.key, key) {
            return match &attr.value {
                Some(AttributeValue::Str(s)) => Some(s.clone()),
                _ => None,
            };
        }
        i += 1;
    }
    None
}

/// What an attribute's value says.
pub open spec fn attr_doc(value: otlp::ValueView) -> json::JsonView {
    match value {
        otlp::ValueView::Str(s) => json::JsonView::Str(s),
        otlp::ValueView::Int(i) => json::JsonView::Number(json::int_number(i)),
        otlp::ValueView::Bool(b) => json::JsonView::Bool(b),
        otlp::ValueView::Double(d) => d,
        otlp::ValueView::Other(s) => json::JsonView::Str(s),
    }
}

fn read_attr_value(value: &AttributeValue) -> (r: Json)
    ensures
        r@ == attr_doc(value@),
{
    match value {
        AttributeValue::Str(s) => Json::string(s.as_str()),
        AttributeValue::Int(i) => Json::integer(*i),
        AttributeValue::Bool(b) => Json::Bool(*b),
        AttributeValue::Double(d) => d.copy(),
        AttributeValue::Other(s) => Json::string(s.as_str()),
    }
}

/// The raw part after the first `n` attributes.
pub open spec fn with_attrs(
    base: Map<Seq<char>, json::JsonView>,
    attrs: Seq<otlp::AttributeView>,
    n: int,
) -> Map<Seq<char>, json::JsonView>
    decreases n,
{
    if n <= 0 || n > attrs.len() {
        base
    } else {
        let before = with_attrs(base, attrs, n - 1);
        match attrs[n - 1].value {
            Some(value) => before.insert(attrs[n - 1].key, attr_doc(value)),
            None => before,
        }
    }
}

/// The fields that the attributes of a record say.
pub open spec fn attr_fields(attrs: Seq<otlp::AttributeView>) -> FieldsView {
    FieldsView {
        event_name: attr_text(attrs, "event.name"@),
        conversation_id: attr_text(attrs, "conversation.id"@),
        tool_name: attr_text(attrs, "tool_name"@),
        decision: attr_text(attrs, "decision"@),
        call_id: attr_text(attrs, "call_id"@),
        event_kind: attr_text(attrs, "event.kind"@),
    }
}

/// What is logged for a record with these attributes.
pub open spec fn attr_record(attrs: Seq<otlp::AttributeView>) -> RecordView {
    let fields = attr_fields(attrs);
    logged(fields, with_attrs(base_members(fields), attrs, attrs.len() as int))
}

/// The record that is logged for a record with these attributes.
pub fn read_attr_record(attrs: &Vec<Attribute>) -> (r: CodexRecord)
    ensures
        r@ == attr_record(otlp::attribute_views(attrs@)),
{
    let ghost views = otlp::attribute_views(attrs@);
    let fields = Fields {
        event_name: extract_attr(attrs, "event.name"),
        conversation_id: extract_attr(attrs, "conversation.id"),
        tool_name: extract_attr(attrs, "tool_name"),
        decision: extract_attr(attrs, "decision"),
        call_id: extract_attr(attrs, "call_id"),
        event_kind: extract_attr(attrs, "event.kind"),
    };
    let mut members = base(&fields);
    let mut i: usize = 0;
    while i < attrs.len()
        invariant
            i <= attrs@.len(),
            views == otlp::attribute_views(attrs@),
            json::members_view(members@) == with_attrs(base_members(fields@), views, i as int),
        decreases attrs@.len() - i,
    {
        proof {
            assert(views[i as int] == attrs@[i as int]@);
        }
        if let Some(value) = &attrs[i].value {
            put(&mut members, attrs[i].key.as_str(), read_attr_value(value));
        }
        i += 1;
    }
    process_event(&fields, members)
}

/// What is logged for the body of a protobuf export; nothing where it is no such message.
pub open spec fn protobuf_body_records(body: Seq<u8>) -> Option<Seq<RecordView>> {
    match otlp::exported(body) {
        Some(records) => Some(
            records.map_values(|attrs: Seq<otlp::AttributeView>| attr_record(attrs)),
        ),
        None => None,
    }
}

/// Receives a protobuf export.
pub fn receive_logs_protobuf(body: &[u8]) -> (r: Received)
    ensures
        answers(r, protobuf_body_records(body@)),
{
    match otlp::decode_logs(body) {
        Some(records) => {
            let ghost views = otlp::record_views(records@);
            let ghost step = |attrs: Seq<otlp::AttributeView>| attr_record(attrs);
            let mut out: Vec<CodexRecord> = Vec::new();
            let mut i: usize = 0;
            while i < records.len()
                invariant
                    i <= records@.len(),
                    views == otlp::record_views(records@),
                    step == (|attrs: Seq<otlp::AttributeView>| attr_record(attrs)),
                    record_views(out@) =~= views.take(i as int).map_values(step),
                decreases records@.len() - i,
            {
                let ghost done = out@;
                out.push(read_attr_record(&records[i]));
                proof {
                    assert(views[i as int] == otlp::attribute_views(records@[i as int]@));
                    assert(record_views(out@) =~= record_views(done).push(
                        attr_record(views[i as int]),
                    ));
                    assert(views.take(i + 1) =~= views.take(i as int).push(views[i as int]));
                }
                i += 1;
            }
            proof {
                assert(views.take(i as int) =~= views);
            }
            Received { status: STATUS_OK, records: out }
        },
        None => Received { status: STATUS_BAD_REQUEST, records: Vec::new() },
    }
}

/// What is logged for an export: protobuf where its content type says so, JSON otherwise.
pub open spec fn body_records(content_type: Seq<char>, body: Seq<u8>) -> Option<Seq<RecordView>> {
    if "application/x-protobuf"@.is_prefix_of(content_type) {
        protobuf_body_records(body)
    } else {
        json_body_records(body)
    }
}

/// Whether a content type says that an export is protobuf.
pub fn is_protobuf(content_type: &str) -> (r: bool)
    ensures
        r == "application/x-protobuf"@.is_prefix_of(content_type@),
{
    text::starts_with_text(content_type, "application/x-protobuf")
}

/// Receives an export.
pub fn receive_logs(content_type: &str, body: &[u8]) -> (r: Received)
    ensures
        answers(r, body_records(content_type@, body@)),
{
    if is_protobuf(content_type) {
        receive_logs_protobuf(body)
    } else {
        receive_logs_json(body)
    }
}

// ---------------------------------------------------------------------------
// Laws
// ---------------------------------------------------------------------------

/// The names of Codex's events can be told apart.
proof fn lemma_codex_names()
    ensures
        "codex.conversation_starts"@.len() == 25,
        "codex.user_prompt"@.len() == 17 && "codex.user_prompt"@[6] == 'u',
        "codex.api_request"@.len() == 17 && "codex.api_request"@[6] == 'a',
        "codex.tool_result"@.len() == 17 && "codex.tool_result"@[6] == 't',
        "codex.sse_event"@.len() == 15,
        "codex.websocket_event"@.len() == 21,
        "codex.websocket_request"@.len() == 23,
        "codex.tool_decision"@.len() == 19,
        "denied"@.len() == 6,
        "abort"@.len() == 5,
        "spawn_agent"@.len() == 11 && "spawn_agent"@[0] == 's',
        "close_agent"@.len() == 11 && "close_agent"@[0] == 'c',
        "response.completed"@.len() == 18,
        "response.failed"@.len() == 15,
        "[DONE]"@.len() == 6,
{
    reveal_strlit("codex.conversation_starts");
    reveal_strlit("codex.user_prompt");
    reveal_strlit("codex.api_request");
    reveal_strlit("codex.tool_result");
    reveal_strlit("codex.sse_event");
    reveal_strlit("codex.websocket_event");
    reveal_strlit("codex.websocket_request");
    reveal_strlit("codex.tool_decision");
    reveal_strlit("denied");
    reveal_strlit("abort");
    reveal_strlit("spawn_agent");
    reveal_strlit("close_agent");
    reveal_strlit("response.completed");
    reveal_strlit("response.failed");
    reveal_strlit("[DONE]");
}

/// A decision on a tool call is logged as a permission request exactly if the call was denied or
/// aborted, whatever the tool. Any other decision starts a subagent where the tool spawns one, stops
/// it where the tool closes one, and is a plain decision for every other tool.
pub proof fn law_only_a_denied_call_asks_for_permission(
    tool: Option<Seq<char>>,
    decision: Option<Seq<char>>,
    kind: Option<Seq<char>>,
)
    ensures
        ({
            let logged_as = mapped_event("codex.tool_decision"@, tool, decision, kind).0;
            let refused = decision == Some("denied"@) || decision == Some("abort"@);
            &&& logged_as == "PermissionRequest"@ <==> refused
            &&& logged_as == "SubagentStart"@ <==> !refused && tool == Some("spawn_agent"@)
            &&& logged_as == "SubagentStop"@ <==> !refused && tool == Some("close_agent"@)
            &&& logged_as == "tool_decision"@ <==> !refused && tool != Some("spawn_agent"@) && tool
                != Some("close_agent"@)
        }),
{
    lemma_codex_names();
    events::lemma_type_names();
}

/// A decision is told with the tool and what was decided; `unknown` stands for what was not said.
pub proof fn law_decision_is_told(
    tool: Option<Seq<char>>,
    decision: Option<Seq<char>>,
    kind: Option<Seq<char>>,
)
    ensures
        ({
            let mapped = mapped_event("codex.tool_decision"@, tool, decision, kind);
            let decided = if decision is Some {
                decision->0
            } else {
                "unknown"@
            };
            let named = if tool is Some {
                tool->0
            } else {
                "unknown"@
            };
            let refused = decision == Some("denied"@) || decision == Some("abort"@);
            let subagent = tool == Some("spawn_agent"@) || tool == Some("close_agent"@);
            &&& refused || !subagent ==> mapped.1 == named + ": "@ + decided
            &&& !refused && tool == Some("spawn_agent"@) ==> mapped.1 == "Codex subagent spawned ("@
                + decided + ")"@
            &&& !refused && tool == Some("close_agent"@) ==> mapped.1 == "Codex subagent stopped ("@
                + decided + ")"@
            &&& refused ==> mapped.2 == Some(named)
            &&& !refused ==> mapped.2 == tool
        }),
{
    lemma_codex_names();
}

/// What each of Codex's other events is logged as. A stream is over with an event of one of three
/// kinds, and goes on with every other.
pub proof fn law_codex_events_by_name(
    name: Seq<char>,
    tool: Option<Seq<char>>,
    decision: Option<Seq<char>>,
    kind: Option<Seq<char>>,
)
    ensures
        ({
            let mapped = mapped_event(name, tool, decision, kind);
            let stream = name == "codex.sse_event"@ || name == "codex.websocket_event"@;
            let completed = kind == Some("response.completed"@) || kind == Some("[DONE]"@);
            let failed = kind == Some("response.failed"@);
            &&& name == "codex.conversation_starts"@ ==> mapped.0 == "SessionStart"@ && mapped.1
                == "Codex session started"@
            &&& name == "codex.user_prompt"@ ==> mapped.0 == "UserPromptSubmit"@ && mapped.1
                == "Codex user prompt"@
            &&& name == "codex.api_request"@ ==> mapped.0 == "api_request"@ && mapped.1
                == "Codex API request"@
            &&& name == "codex.websocket_request"@ ==> mapped.0 == "api_request"@ && mapped.1
                == "Codex WebSocket request"@
            &&& stream && completed ==> mapped.0 == "Stop"@ && mapped.1
                == "Codex response completed"@
            &&& stream && failed ==> mapped.0 == "Stop"@ && mapped.1 == "Codex response failed"@
            &&& stream && !completed && !failed ==> mapped.0 == "sse_event"@
            &&& stream && !completed && !failed && kind is Some ==> mapped.1 == "Codex: "@
                + kind->0
            &&& stream && kind is None ==> mapped.1 == "Codex SSE event"@
            &&& name == "codex.tool_result"@ ==> mapped.0 == "tool_result"@
            &&& name == "codex.tool_result"@ && tool is Some ==> mapped.1 == tool->0
                + " completed"@ && mapped.2 == tool
            &&& name == "codex.tool_result"@ && tool is None ==> mapped.1 == "unknown completed"@
                && mapped.2 == Some("unknown"@)
            &&& name != "codex.tool_result"@ && name != "codex.tool_decision"@ ==> mapped.2 == tool
        }),
{
    lemma_codex_names();
    reveal_strlit("unknown");
    reveal_strlit(" completed");
    reveal_strlit("unknown completed");
    assert("unknown"@ + " completed"@ =~= "unknown completed"@);
}

/// An event that the log has no type for keeps its name.
pub proof fn law_other_codex_events_keep_their_name(
    name: Seq<char>,
    tool: Option<Seq<char>>,
    decision: Option<Seq<char>>,
    kind: Option<Seq<char>>,
)
    requires
        name != "codex.conversation_starts"@,
        name != "codex.user_prompt"@,
        name != "codex.api_request"@,
        name != "codex.websocket_request"@,
        name != "codex.sse_event"@,
        name != "codex.websocket_event"@,
        name != "codex.tool_decision"@,
        name != "codex.tool_result"@,
    ensures
        mapped_event(name, tool, decision, kind).0 == name,
        mapped_event(name, tool, decision, kind).1 == "Codex event: "@ + name,
        mapped_event(name, tool, decision, kind).2 == tool,
{
}

/// What Codex's events say of it: a prompt, a request, a stream that goes on, a tool's result and a
/// decision that lets a tool run tell of work; a session's start, a stream that is over and a
/// refused call tell of rest.
pub proof fn law_codex_event_tells_its_state(
    name: Seq<char>,
    tool: Option<Seq<char>>,
    decision: Option<Seq<char>>,
    kind: Option<Seq<char>>,
)
    ensures
        ({
            let state = cat::state_of(mapped_event(name, tool, decision, kind).0);
            let over = kind == Some("response.completed"@) || kind == Some("[DONE]"@) || kind
                == Some("response.failed"@);
            let refused = decision == Some("denied"@) || decision == Some("abort"@);
            &&& name == "codex.conversation_starts"@ ==> state == cat::ClaudeState::Idle
            &&& name == "codex.user_prompt"@ || name == "codex.api_request"@ || name
                == "codex.websocket_request"@ || name == "codex.tool_result"@ ==> state
                == cat::ClaudeState::Active
            &&& name == "codex.sse_event"@ || name == "codex.websocket_event"@ ==> state == (
            if over {
                cat::ClaudeState::Idle
            } else {
                cat::ClaudeState::Active
            })
            &&& name == "codex.tool_decision"@ ==> state == (if refused {
                cat::ClaudeState::Idle
            } else {
                cat::ClaudeState::Active
            })
        }),
{
    lemma_codex_names();
    events::lemma_type_names();
}

/// A record is logged under its conversation, or as of an unknown one. A subagent's start and stop
/// carry the call as the subagent's identity. No other record gets an identity that its
/// attributes do not give, a permission request least of all: the next event of the conversation
/// answers it.
pub proof fn law_only_subagent_records_carry_the_call(
    fields: FieldsView,
    members: Map<Seq<char>, json::JsonView>,
)
    ensures
        ({
            let record = logged(fields, members);
            let subagent = record.event_type == "SubagentStart"@ || record.event_type
                == "SubagentStop"@;
            &&& fields.conversation_id is Some ==> record.session_id == fields.conversation_id->0
            &&& fields.conversation_id is None ==> record.session_id == "unknown"@
            &&& subagent && fields.call_id is Some ==> json::member(record.raw, "agent_id"@)
                == Some(json::JsonView::Str(fields.call_id->0))
            &&& !subagent || fields.call_id is None ==> record.raw == json::JsonView::Object(
                members,
            )
            &&& forall|key: Seq<char>|
                key != "agent_id"@ ==> #[trigger] json::member(record.raw, key) == json::member(
                    json::JsonView::Object(members),
                    key,
                )
        }),
{
}

/// What is logged follows from the event's name and what it says of a tool, a decision and a kind;
/// an event without a name is an unknown one.
pub proof fn law_record_is_logged_as_its_event(
    fields: FieldsView,
    members: Map<Seq<char>, json::JsonView>,
)
    ensures
        ({
            let record = logged(fields, members);
            let name = if fields.event_name is Some {
                fields.event_name->0
            } else {
                "unknown"@
            };
            (record.event_type, record.summary, record.tool_name) == mapped_event(
                name,
                fields.tool_name,
                fields.decision,
                fields.event_kind,
            )
        }),
        fields.event_name is None ==> logged(fields, members).event_type == "unknown"@ && logged(
            fields,
            members,
        ).summary == "Codex event: unknown"@,
{
    lemma_codex_names();
    reveal_strlit("unknown");
    reveal_strlit("Codex event: ");
    reveal_strlit("Codex event: unknown");
    assert("Codex event: "@ + "unknown"@ =~= "Codex event: unknown"@);
}

/// A permission request of Codex is over as soon as another event of its conversation is logged
/// that carries no identity of its own.
pub proof fn law_next_event_answers_the_request(
    request: logger::EntryView,
    next: logger::EntryView,
    fields: FieldsView,
    next_fields: FieldsView,
    members: Map<Seq<char>, json::JsonView>,
    next_members: Map<Seq<char>, json::JsonView>,
)
    requires
        fields.event_name == Some("codex.tool_decision"@),
        fields.decision == Some("denied"@) || fields.decision == Some("abort"@),
        next_fields.conversation_id == fields.conversation_id,
        !members.contains_key("agent_id"@),
        !next_members.contains_key("agent_id"@),
        next_fields.call_id is None,
        request.source == "cx"@,
        next.source == "cx"@,
        request.event_type == logged(fields, members).event_type,
        request.session_id == logged(fields, members).session_id,
        request.raw == logged(fields, members).raw,
        next.session_id == logged(next_fields, next_members).session_id,
        next.raw == logged(next_fields, next_members).raw,
    ensures
        request.event_type == "PermissionRequest"@,
        colony::same_thread(request, next),
{
    lemma_codex_names();
    events::lemma_type_names();
}

/// The raw part starts with the event's name and its conversation.
pub proof fn law_raw_names_event_and_conversation(fields: FieldsView, key: Seq<char>)
    ensures
        base_members(fields).contains_key(key) <==> key == "event_name"@ || key
            == "conversation_id"@,
        fields.event_name is Some ==> base_members(fields)["event_name"@] == json::JsonView::Str(
            fields.event_name->0,
        ),
        fields.event_name is None ==> base_members(fields)["event_name"@] == json::JsonView::Str(
            "unknown"@,
        ),
        fields.conversation_id is Some ==> base_members(fields)["conversation_id"@]
            == json::JsonView::Str(fields.conversation_id->0),
        fields.conversation_id is None ==> base_members(fields)["conversation_id"@]
            == json::JsonView::Str("unknown"@),
{
    reveal_strlit("event_name");
    reveal_strlit("conversation_id");
    assert("event_name"@.len() != "conversation_id"@.len());
}

proof fn lemma_json_attr_index(
    attrs: Seq<json::JsonView>,
    more: Seq<json::JsonView>,
    key: Seq<char>,
    from: int,
)
    requires
        0 <= from <= attrs.len(),
        attrs.len() <= more.len(),
        forall|i: int| 0 <= i < attrs.len() ==> attrs[i] == more[i],
    ensures
        json_attr_index(attrs, key, from) is Some ==> json_attr_index(attrs, key, from)
            == json_attr_index(more, key, from) && from <= json_attr_index(attrs, key, from)->0
            < attrs.len() && json::member_string(
            attrs[json_attr_index(attrs, key, from)->0],
            "key"@,
        ) == Some(key),
        json_attr_index(attrs, key, from) is None ==> json_attr_index(more, key, from)
            == json_attr_index(more, key, attrs.len() as int) && forall|i: int|
            from <= i < attrs.len() ==> json::member_string(#[trigger] attrs[i], "key"@) != Some(
                key,
            ),
    decreases attrs.len() - from,
{
    if from < attrs.len() {
        assert(attrs[from] == more[from]);
        lemma_json_attr_index(attrs, more, key, from + 1);
    }
}

/// Of several attributes with one key the first says what the field is, and it says so with its
/// string value; one with another value leaves the field empty.
pub proof fn law_first_json_attribute_counts(
    attrs: Seq<json::JsonView>,
    attr: json::JsonView,
    key: Seq<char>,
)
    ensures
        ({
            let named = |a: json::JsonView| json::member(a, "key"@) == Some(json::JsonView::Str(key));
            let earlier = exists|i: int| 0 <= i < attrs.len() && named(#[trigger] attrs[i]);
            let found = json_attr(attrs.push(attr), key);
            &&& earlier || !named(attr) ==> found == json_attr(attrs, key)
            &&& !earlier ==> json_attr(attrs, key) is None
            &&& !earlier && named(attr) ==> match json::member(attr, "value"@) {
                Some(value) => match json::member(value, "stringValue"@) {
                    Some(json::JsonView::Str(s)) => found == Some(s),
                    _ => found is None,
                },
                None => found is None,
            }
        }),
{
    let more = attrs.push(attr);
    lemma_json_attr_index(attrs, more, key, 0);
    lemma_json_attr_index(more, more, key, 0);
    assert(more[attrs.len() as int] == attr);
    if json_attr_index(attrs, key, 0) is Some {
        let i = json_attr_index(attrs, key, 0)->0;
        assert(attrs[i] == more[i]);
    }
    assert(json_attr_index(more, key, attrs.len() as int) == if json::member_string(attr, "key"@)
        == Some(key) {
        Some(attrs.len() as int)
    } else {
        json_attr_index(more, key, attrs.len() as int + 1)
    });
    assert(json_attr_index(more, key, attrs.len() as int + 1) is None);
}

/// What an attribute's value says, by the members that it has: a string before an integer, an
/// integer before a double, a double before a boolean. An integer may come as digits; digits that
/// are no integer of 64 bits stay text.
pub proof fn law_otlp_value_by_kind(value: json::JsonView)
    ensures
        json::member_string(value, "stringValue"@) matches Some(s) ==> otlp_value(value) == Some(
            json::JsonView::Str(s),
        ),
        json::member_string(value, "stringValue"@) is None ==> (json::member_string(
            value,
            "intValue"@,
        ) matches Some(s) ==> (match text::parsed_i64(s) {
            Some(i) => otlp_value(value) == Some(json::JsonView::Number(json::int_number(i))),
            None => otlp_value(value) == Some(json::JsonView::Str(s)),
        })),
        json::member_string(value, "stringValue"@) is None ==> (json::member(
            value,
            "intValue"@,
        ) matches Some(json::JsonView::Number(n)) ==> (json::number_int(n) matches Some(i)
            ==> otlp_value(value) == Some(json::JsonView::Number(json::int_number(i))))),
        json::member_string(value, "stringValue"@) is None && json::member(value, "intValue"@)
            is None ==> (json::member(value, "doubleValue"@) matches Some(json::JsonView::Number(n))
            ==> (json::number_double(n) is Some ==> otlp_value(value) == json::number_double(n))),
        json::member_string(value, "stringValue"@) is None && json::member(value, "intValue"@)
            is None && json::member(value, "doubleValue"@) is None ==> (json::member(
            value,
            "boolValue"@,
        ) matches Some(json::JsonView::Bool(b)) ==> otlp_value(value) == Some(
            json::JsonView::Bool(b),
        )),
        json::member(value, "stringValue"@) is None && json::member(value, "intValue"@) is None
            && json::member(value, "doubleValue"@) is None && json::member(value, "boolValue"@)
            is None ==> otlp_value(value) is None,
{
}

proof fn lemma_json_attrs_by_start(
    base: Map<Seq<char>, json::JsonView>,
    attrs: Seq<json::JsonView>,
    more: Seq<json::JsonView>,
    n: int,
)
    requires
        n <= attrs.len() <= more.len(),
        forall|i: int| 0 <= i < n ==> attrs[i] == more[i],
    ensures
        with_json_attrs(base, attrs, n) == with_json_attrs(base, more, n),
    decreases n,
{
    if n > 0 {
        assert(attrs[n - 1] == more[n - 1]);
        lemma_json_attrs_by_start(base, attrs, more, n - 1);
    }
}

/// Every attribute that says something goes into the raw part under its key, over what was there;
/// one without a key, or whose value says nothing, leaves the raw part as it was.
pub proof fn law_json_attributes_go_into_the_raw_part(
    base: Map<Seq<char>, json::JsonView>,
    attrs: Seq<json::JsonView>,
    attr: json::JsonView,
)
    ensures
        ({
            let before = with_json_attrs(base, attrs, attrs.len() as int);
            let after = with_json_attrs(base, attrs.push(attr), attrs.len() as int + 1);
            match (json::member(attr, "key"@), json::member(attr, "value"@)) {
                (Some(json::JsonView::Str(key)), Some(value)) => match otlp_value(value) {
                    Some(doc) => after == before.insert(key, doc),
                    None => after == before,
                },
                _ => after == before,
            }
        }),
        with_json_attrs(base, Seq::empty(), 0) == base,
{
    lemma_json_attrs_by_start(base, attrs, attrs.push(attr), attrs.len() as int);
}

proof fn lemma_attr_index(
    attrs: Seq<otlp::AttributeView>,
    more: Seq<otlp::AttributeView>,
    key: Seq<char>,
    from: int,
)
    requires
        0 <= from <= attrs.len(),
        attrs.len() <= more.len(),
        forall|i: int| 0 <= i < attrs.len() ==> attrs[i] == more[i],
    ensures
        attr_index(attrs, key, from) is Some ==> attr_index(attrs, key, from) == attr_index(
            more,
            key,
            from,
        ) && from <= attr_index(attrs, key, from)->0 < attrs.len() && attrs[attr_index(
            attrs,
            key,
            from,
        )->0].key == key,
        attr_index(attrs, key, from) is None ==> attr_index(more, key, from) == attr_index(
            more,
            key,
            attrs.len() as int,
        ) && forall|i: int| from <= i < attrs.len() ==> (#[trigger] attrs[i]).key != key,
    decreases attrs.len() - from,
{
    if from < attrs.len() {
        assert(attrs[from] == more[from]);
        lemma_attr_index(attrs, more, key, from + 1);
    }
}

/// Of several attributes with one key the first says what the field is, and it says so with its
/// string value; one with another value leaves the field empty.
pub proof fn law_first_attribute_counts(
    attrs: Seq<otlp::AttributeView>,
    attr: otlp::AttributeView,
    key: Seq<char>,
)
    ensures
        ({
            let earlier = exists|i: int| 0 <= i < attrs.len() && (#[trigger] attrs[i]).key == key;
            let found = attr_text(attrs.push(attr), key);
            &&& earlier || attr.key != key ==> found == attr_text(attrs, key)
            &&& !earlier ==> attr_text(attrs, key) is None
            &&& !earlier && attr.key == key ==> match attr.value {
                Some(otlp::ValueView::Str(s)) => found == Some(s),
                _ => found is None,
            }
        }),
{
    let more = attrs.push(attr);
    lemma_attr_index(attrs, more, key, 0);
    lemma_attr_index(more, more, key, 0);
    assert(more[attrs.len() as int] == attr);
    if attr_index(attrs, key, 0) is Some {
        let i = attr_index(attrs, key, 0)->0;
        assert(attrs[i] == more[i]);
    }
    assert(attr_index(more, key, attrs.len() as int) == if attr.key == key {
        Some(attrs.len() as int)
    } else {
        attr_index(more, key, attrs.len() as int + 1)
    });
    assert(attr_index(more, key, attrs.len() as int + 1) is None);
}

proof fn lemma_attrs_by_start(
    base: Map<Seq<char>, json::JsonView>,
    attrs: Seq<otlp::AttributeView>,
    more: Seq<otlp::AttributeView>,
    n: int,
)
    requires
        n <= attrs.len() <= more.len(),
        forall|i: int| 0 <= i < n ==> attrs[i] == more[i],
    ensures
        with_attrs(base, attrs, n) == with_attrs(base, more, n),
    decreases n,
{
    if n > 0 {
        assert(attrs[n - 1] == more[n - 1]);
        lemma_attrs_by_start(base, attrs, more, n - 1);
    }
}

/// Every attribute that has a value goes into the raw part under its key, over what was there: a
/// string as a string, an integer as a number, a boolean as a boolean, anything else as text.
pub proof fn law_attributes_go_into_the_raw_part(
    base: Map<Seq<char>, json::JsonView>,
    attrs: Seq<otlp::AttributeView>,
    attr: otlp::AttributeView,
)
    ensures
        ({
            let before = with_attrs(base, attrs, attrs.len() as int);
            let after = with_attrs(base, attrs.push(attr), attrs.len() as int + 1);
            match attr.value {
                Some(otlp::ValueView::Str(s)) => after == before.insert(
                    attr.key,
                    json::JsonView::Str(s),
                ),
                Some(otlp::ValueView::Int(i)) => after == before.insert(
                    attr.key,
                    json::JsonView::Number(json::int_number(i)),
                ),
                Some(otlp::ValueView::Bool(b)) => after == before.insert(
                    attr.key,
                    json::JsonView::Bool(b),
                ),
                Some(otlp::ValueView::Double(d)) => after == before.insert(attr.key, d),
                Some(otlp::ValueView::Other(s)) => after == before.insert(
                    attr.key,
                    json::JsonView::Str(s),
                ),
                None => after == before,
            }
        }),
        with_attrs(base, Seq::empty(), 0) == base,
{
    lemma_attrs_by_start(base, attrs, attrs.push(attr), attrs.len() as int);
}

/// What decides how a record is logged stands in the attributes of these names, in either
/// encoding.
pub proof fn law_fields_by_attribute_name(
    attrs: Seq<otlp::AttributeView>,
    json_attrs: Seq<json::JsonView>,
)
    ensures
        attr_fields(attrs).event_name == attr_text(attrs, "event.name"@),
        attr_fields(attrs).conversation_id == attr_text(attrs, "conversation.id"@),
        attr_fields(attrs).tool_name == attr_text(attrs, "tool_name"@),
        attr_fields(attrs).decision == attr_text(attrs, "decision"@),
        attr_fields(attrs).call_id == attr_text(attrs, "call_id"@),
        attr_fields(attrs).event_kind == attr_text(attrs, "event.kind"@),
        json_fields(json_attrs).event_name == json_attr(json_attrs, "event.name"@),
        json_fields(json_attrs).conversation_id == json_attr(json_attrs, "conversation.id"@),
        json_fields(json_attrs).tool_name == json_attr(json_attrs, "tool_name"@),
        json_fields(json_attrs).decision == json_attr(json_attrs, "decision"@),
        json_fields(json_attrs).call_id == json_attr(json_attrs, "call_id"@),
        json_fields(json_attrs).event_kind == json_attr(json_attrs, "event.kind"@),
{
}

/// An attribute with a string, in both encodings.
pub open spec fn same_text_attribute(attr: otlp::AttributeView, doc: json::JsonView) -> bool {
    &&& attr.value matches Some(otlp::ValueView::Str(s)) && json::member(doc, "value"@) matches Some(
        value,
    ) && json::member(value, "stringValue"@) == Some(json::JsonView::Str(s))
    &&& json::member(doc, "key"@) == Some(json::JsonView::Str(attr.key))
}

proof fn lemma_same_index(
    attrs: Seq<otlp::AttributeView>,
    docs: Seq<json::JsonView>,
    key: Seq<char>,
    from: int,
)
    requires
        attrs.len() == docs.len(),
        0 <= from <= attrs.len(),
        forall|i: int| 0 <= i < attrs.len() ==> same_text_attribute(attrs[i], #[trigger] docs[i]),
    ensures
        attr_index(attrs, key, from) == json_attr_index(docs, key, from),
        attr_index(attrs, key, from) matches Some(i) ==> from <= i < attrs.len(),
    decreases attrs.len() - from,
{
    if from < attrs.len() {
        assert(same_text_attribute(attrs[from], docs[from]));
        lemma_same_index(attrs, docs, key, from + 1);
    }
}

proof fn lemma_same_field(
    attrs: Seq<otlp::AttributeView>,
    docs: Seq<json::JsonView>,
    key: Seq<char>,
)
    requires
        attrs.len() == docs.len(),
        forall|i: int| 0 <= i < attrs.len() ==> same_text_attribute(attrs[i], #[trigger] docs[i]),
    ensures
        attr_text(attrs, key) == json_attr(docs, key),
{
    lemma_same_index(attrs, docs, key, 0);
    if attr_index(attrs, key, 0) is Some {
        let i = attr_index(attrs, key, 0)->0;
        assert(same_text_attribute(attrs[i], docs[i]));
    }
}

proof fn lemma_same_raw_part(
    base: Map<Seq<char>, json::JsonView>,
    attrs: Seq<otlp::AttributeView>,
    docs: Seq<json::JsonView>,
    n: int,
)
    requires
        attrs.len() == docs.len(),
        n <= attrs.len(),
        forall|i: int| 0 <= i < attrs.len() ==> same_text_attribute(attrs[i], #[trigger] docs[i]),
    ensures
        with_attrs(base, attrs, n) == with_json_attrs(base, docs, n),
    decreases n,
{
    if n > 0 {
        lemma_same_raw_part(base, attrs, docs, n - 1);
        assert(same_text_attribute(attrs[n - 1], docs[n - 1]));
    }
}

/// It does not matter which way a record comes: with the same texts in its attributes it is logged
/// the same from protobuf and from JSON.
pub proof fn law_both_encodings_log_the_same(
    attrs: Seq<otlp::AttributeView>,
    record: json::JsonView,
    docs: Seq<json::JsonView>,
)
    requires
        json::member(record, "attributes"@) == Some(json::JsonView::Array(docs)),
        attrs.len() == docs.len(),
        forall|i: int| 0 <= i < attrs.len() ==> same_text_attribute(attrs[i], #[trigger] docs[i]),
    ensures
        json_record(record) == attr_record(attrs),
{
    lemma_same_field(attrs, docs, "event.name"@);
    lemma_same_field(attrs, docs, "conversation.id"@);
    lemma_same_field(attrs, docs, "tool_name"@);
    lemma_same_field(attrs, docs, "decision"@);
    lemma_same_field(attrs, docs, "call_id"@);
    lemma_same_field(attrs, docs, "event.kind"@);
    lemma_same_raw_part(base_members(attr_fields(attrs)), attrs, docs, attrs.len() as int);
}

/// The records of a JSON export are those of its resources, one after the other; those of a resource
/// are those of its scopes; those of a scope are its own, each logged by itself. Where there is no
/// such list, there are no records.
pub proof fn law_export_is_read_in_order(
    doc: json::JsonView,
    longer: json::JsonView,
    items: Seq<json::JsonView>,
    item: json::JsonView,
)
    ensures
        json::member(doc, "resourceLogs"@) == Some(json::JsonView::Array(items)) && json::member(
            longer,
            "resourceLogs"@,
        ) == Some(json::JsonView::Array(items.push(item))) ==> json_records(longer) == json_records(
            doc,
        ) + json_resource_records(item),
        json::member(doc, "scopeLogs"@) == Some(json::JsonView::Array(items)) && json::member(
            longer,
            "scopeLogs"@,
        ) == Some(json::JsonView::Array(items.push(item))) ==> json_resource_records(longer)
            == json_resource_records(doc) + json_scope_records(item),
        json::member(doc, "logRecords"@) == Some(json::JsonView::Array(items)) && json::member(
            longer,
            "logRecords"@,
        ) == Some(json::JsonView::Array(items.push(item))) ==> json_scope_records(longer)
            == json_scope_records(doc).push(json_record(item)),
        json::member(doc, "resourceLogs"@) is None ==> json_records(doc).len() == 0,
        json::member(doc, "scopeLogs"@) is None ==> json_resource_records(doc).len() == 0,
        json::member(doc, "logRecords"@) is None ==> json_scope_records(doc).len() == 0,
        json::member(doc, "resourceLogs"@) == Some(json::JsonView::Array(Seq::empty()))
            ==> json_records(doc).len() == 0,
        json::member(doc, "scopeLogs"@) == Some(json::JsonView::Array(Seq::empty()))
            ==> json_resource_records(doc).len() == 0,
{
    let by_resource = |r: json::JsonView| json_resource_records(r);
    let by_scope = |s: json::JsonView| json_scope_records(s);
    let more = items.push(item);
    more.lemma_flat_map_take_append(by_resource, items.len() as int);
    more.lemma_flat_map_take_append(by_scope, items.len() as int);
    assert(more.take(items.len() as int) =~= items);
    assert(more.take(items.len() as int + 1) =~= more);
    assert(Seq::<json::JsonView>::empty().flat_map(by_resource) =~= Seq::empty());
    assert(Seq::<json::JsonView>::empty().flat_map(by_scope) =~= Seq::empty());
    assert(more.map_values(|r: json::JsonView| json_record(r)) =~= items.map_values(
        |r: json::JsonView| json_record(r),
    ).push(json_record(item)));
}

/// A protobuf export is logged record by record.
pub proof fn law_protobuf_export_is_logged_record_by_record(body: Seq<u8>, i: int)
    ensures
        protobuf_body_records(body) is Some <==> otlp::exported(body) is Some,
        otlp::exported(body) matches Some(records) ==> protobuf_body_records(body)->0.len()
            == records.len() && (0 <= i < records.len() ==> protobuf_body_records(body)->0[i]
            == attr_record(records[i])),
{
}

/// An export that can be read is answered with 200, and nothing of it is lost; any other is answered
/// with 400, and nothing is logged.
pub proof fn law_answer_tells_what_was_logged(received: Received, records: Option<Seq<RecordView>>)
    requires
        answers(received, records),
    ensures
        received.status == 200 <==> records is Some,
        received.status == 400 <==> records is None,
        records is None ==> received.records@.len() == 0,
        records matches Some(expected) ==> received.records@.len() == expected.len() && forall|i: int|
            0 <= i < expected.len() ==> (#[trigger] received.records@[i])@ == expected[i],
{
    if records is Some {
        assert forall|i: int| 0 <= i < records->0.len() implies (#[trigger] received.records@[i])@
            == records->0[i] by {
            assert(record_views(received.records@)[i] == received.records@[i]@);
        }
    }
}

/// An export whose content type starts with that of protobuf is read as protobuf, any other as
/// JSON; one that cannot be read is refused.
pub proof fn law_content_type_decides(content_type: Seq<char>, rest: Seq<char>, body: Seq<u8>)
    ensures
        content_type == "application/x-protobuf"@ + rest ==> body_records(content_type, body)
            == protobuf_body_records(body),
        content_type.len() < 22 || content_type[14] != 'p' ==> body_records(content_type, body)
            == json_body_records(body),
        json::parsed_bytes(body) is None ==> json_body_records(body) is None,
        json::parsed_bytes(body) matches Some(doc) ==> json_body_records(body) == Some(
            json_records(doc),
        ),
{
    reveal_strlit("application/x-protobuf");
    let head = "application/x-protobuf"@;
    if content_type == head + rest {
        assert(content_type.subrange(0, head.len() as int) =~= head);
    }
    if head.is_prefix_of(content_type) {
        assert(content_type[14] == head[14]);
    }
}

} // verus!
