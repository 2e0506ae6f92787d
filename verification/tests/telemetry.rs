use opentelemetry_proto::tonic::collector::logs::v1::ExportLogsServiceRequest;
use opentelemetry_proto::tonic::common::v1::any_value::Value;
use opentelemetry_proto::tonic::common::v1::{AnyValue, KeyValue};
use opentelemetry_proto::tonic::logs::v1::{LogRecord, ResourceLogs, ScopeLogs};
use prost::Message;

use vibe_cat::json::{parse_bytes, parse_text, Json};
use vibe_cat::server::{
    extract_json_attr, map_codex_event, process_event, read_json_logs, read_json_record,
    read_otlp_value, receive_logs, receive_logs_json, receive_logs_protobuf, Fields, STATUS_BAD_REQUEST,
    STATUS_OK,
};

fn mapped(
    name: &str,
    tool: Option<&str>,
    decision: Option<&str>,
    kind: Option<&str>,
) -> (String, String, Option<String>) {
    map_codex_event(name, tool, decision, None, kind)
}

fn triple(a: &str, b: &str, c: Option<&str>) -> (String, String, Option<String>) {
    (a.to_string(), b.to_string(), c.map(|s| s.to_string()))
}

#[test]
fn codex_events_are_mapped() {
    assert_eq!(
        mapped("codex.conversation_starts", None, None, None),
        triple("SessionStart", "Codex session started", None)
    );
    assert_eq!(
        mapped("codex.user_prompt", None, None, None),
        triple("UserPromptSubmit", "Codex user prompt", None)
    );
    assert_eq!(
        mapped("codex.sse_event", None, None, Some("[DONE]")),
        triple("Stop", "Codex response completed", None)
    );
    assert_eq!(
        mapped("codex.websocket_event", None, None, Some("response.failed")),
        triple("Stop", "Codex response failed", None)
    );
    assert_eq!(
        mapped("codex.sse_event", None, None, Some("delta")),
        triple("sse_event", "Codex: delta", None)
    );
    assert_eq!(
        mapped("codex.sse_event", None, None, None),
        triple("sse_event", "Codex SSE event", None)
    );
    assert_eq!(
        mapped("codex.tool_result", None, None, None),
        triple("tool_result", "unknown completed", Some("unknown"))
    );
    assert_eq!(
        mapped("codex.new", Some("t"), None, None),
        triple("codex.new", "Codex event: codex.new", Some("t"))
    );
}

#[test]
fn denied_call_waits_for_the_user() {
    let name = "codex.tool_decision";
    assert_eq!(
        mapped(name, Some("shell"), Some("denied"), None),
        triple("PermissionRequest", "shell: denied", Some("shell"))
    );
    assert_eq!(
        mapped(name, None, Some("abort"), None),
        triple("PermissionRequest", "unknown: abort", Some("unknown"))
    );
    assert_eq!(
        mapped(name, Some("spawn_agent"), Some("approved"), None),
        triple(
            "SubagentStart",
            "Codex subagent spawned (approved)",
            Some("spawn_agent")
        )
    );
    assert_eq!(
        mapped(name, Some("close_agent"), None, None),
        triple(
            "SubagentStop",
            "Codex subagent stopped (unknown)",
            Some("close_agent")
        )
    );
    assert_eq!(
        mapped(name, None, None, None),
        triple("tool_decision", "unknown: unknown", None)
    );
}

fn fields(name: &str, tool: &str, decision: &str) -> Fields {
    Fields {
        event_name: Some(name.to_string()),
        conversation_id: None,
        tool_name: Some(tool.to_string()),
        decision: Some(decision.to_string()),
        call_id: Some("call-1".to_string()),
        event_kind: None,
    }
}

#[test]
fn only_subagent_events_carry_an_agent() {
    let spawned = process_event(
        &fields("codex.tool_decision", "spawn_agent", "approved"),
        Vec::new(),
    );
    assert_eq!(spawned.session_id, "unknown");
    assert_eq!(spawned.raw.get_str("agent_id"), Some("call-1"));
    let denied = process_event(
        &fields("codex.tool_decision", "spawn_agent", "denied"),
        Vec::new(),
    );
    assert_eq!(denied.event_type, "PermissionRequest");
    assert!(denied.raw.get("agent_id").is_none());
}

const EXPORT: &str = "{\"resourceLogs\":[{\"scopeLogs\":[{\"logRecords\":[{\"attributes\":[\
    {\"key\":\"event.name\",\"value\":{\"stringValue\":\"codex.tool_result\"}},\
    {\"key\":\"conversation.id\",\"value\":{\"stringValue\":\"conv\"}},\
    {\"key\":\"tool_name\",\"value\":{\"stringValue\":\"shell\"}},\
    {\"key\":\"duration_ms\",\"value\":{\"intValue\":\"42\"}},\
    {\"key\":\"ratio\",\"value\":{\"doubleValue\":0.5}},\
    {\"key\":\"ok\",\"value\":{\"boolValue\":true}},\
    {\"key\":\"odd\",\"value\":{\"arrayValue\":{}}}]},{}]}]},{}]}";

#[test]
fn json_export_is_read() {
    let received = receive_logs_json(EXPORT.as_bytes());
    assert_eq!(received.status, STATUS_OK);
    assert_eq!(received.records.len(), 2);
    let record = &received.records[0];
    assert_eq!(record.event_type, "tool_result");
    assert_eq!(record.session_id, "conv");
    assert_eq!(record.summary, "shell completed");
    assert_eq!(
        record.raw.render(),
        "{\"conversation.id\":\"conv\",\"conversation_id\":\"conv\",\"duration_ms\":42,\
         \"event.name\":\"codex.tool_result\",\"event_name\":\"codex.tool_result\",\"ok\":true,\
         \"ratio\":0.5,\"tool_name\":\"shell\"}"
    );
    let empty = &received.records[1];
    assert_eq!(empty.event_type, "unknown");
    assert_eq!(empty.summary, "Codex event: unknown");
}

#[test]
fn export_that_is_no_export_is_refused() {
    assert_eq!(receive_logs_json(b"{").status, STATUS_BAD_REQUEST);
    assert_eq!(receive_logs_json(&[0xff, 0xfe]).status, STATUS_BAD_REQUEST);
    assert_eq!(receive_logs_protobuf(&[0xff, 0xff]).status, STATUS_BAD_REQUEST);
    assert_eq!(receive_logs_json(b"{}").records.len(), 0);
    assert_eq!(receive_logs_json(b"{}").status, STATUS_OK);
}

#[test]
fn attribute_values_are_read() {
    let read = |text: &str| read_otlp_value(&parse_text(text).unwrap()).map(|v| v.render());
    assert_eq!(read("{\"stringValue\":\"x\"}").as_deref(), Some("\"x\""));
    assert_eq!(read("{\"intValue\":\"-7\"}").as_deref(), Some("-7"));
    assert_eq!(read("{\"intValue\":\"many\"}").as_deref(), Some("\"many\""));
    assert_eq!(read("{\"intValue\":8}").as_deref(), Some("8"));
    assert_eq!(read("{\"doubleValue\":2}").as_deref(), Some("2.0"));
    assert_eq!(read("{\"boolValue\":false}").as_deref(), Some("false"));
    assert_eq!(read("{}"), None);
    let attrs = match parse_text(
        "[{\"key\":\"a\",\"value\":{\"intValue\":1}},{\"key\":\"b\",\"value\":{\"stringValue\":\"x\"}}]",
    ) {
        Ok(Json::Array(items)) => items,
        _ => panic!("an array was parsed"),
    };
    assert_eq!(extract_json_attr(&attrs, "a"), None);
    assert_eq!(extract_json_attr(&attrs, "b").as_deref(), Some("x"));
    let record = read_json_record(&parse_text("{\"attributes\":[]}").unwrap());
    assert_eq!(record.session_id, "unknown");
    assert_eq!(read_json_logs(&parse_bytes(EXPORT.as_bytes()).unwrap()).len(), 2);
}

fn attribute(key: &str, value: Option<Value>) -> KeyValue {
    KeyValue {
        key: key.to_string(),
        value: Some(AnyValue { value }),
        ..Default::default()
    }
}

fn protobuf_export() -> Vec<u8> {
    let text = |s: &str| Some(Value::StringValue(s.to_string()));
    let record = LogRecord {
        attributes: vec![
            attribute("event.name", text("codex.sse_event")),
            attribute("event.kind", text("response.completed")),
            attribute("conversation.id", text("conv")),
            attribute("tokens", Some(Value::IntValue(12))),
            attribute("cached", Some(Value::BoolValue(false))),
            attribute("ratio", Some(Value::DoubleValue(0.25))),
            attribute("nothing", None),
        ],
        ..Default::default()
    };
    ExportLogsServiceRequest {
        resource_logs: vec![ResourceLogs {
            scope_logs: vec![ScopeLogs {
                log_records: vec![record, LogRecord::default()],
                ..Default::default()
            }],
            ..Default::default()
        }],
    }
    .encode_to_vec()
}

#[test]
fn protobuf_export_is_read() {
    let received = receive_logs_protobuf(&protobuf_export());
    assert_eq!(received.status, STATUS_OK);
    assert_eq!(received.records.len(), 2);
    let record = &received.records[0];
    assert_eq!(record.event_type, "Stop");
    assert_eq!(record.session_id, "conv");
    assert_eq!(
        record.raw.render(),
        "{\"cached\":false,\"conversation.id\":\"conv\",\"conversation_id\":\"conv\",\
         \"event.kind\":\"response.completed\",\"event.name\":\"codex.sse_event\",\
         \"event_name\":\"codex.sse_event\",\"ratio\":0.25,\"tokens\":12}"
    );
    assert_eq!(received.records[1].event_type, "unknown");
}

#[test]
fn content_type_tells_json_from_protobuf() {
    let json = receive_logs("application/json; charset=utf-8", EXPORT.as_bytes());
    assert_eq!(json.records.len(), 2);
    let protobuf = receive_logs("application/x-protobuf", &protobuf_export());
    assert_eq!(protobuf.records[0].event_type, "Stop");
    assert_eq!(receive_logs("", EXPORT.as_bytes()).records.len(), 2);
    assert_eq!(receive_logs("", &protobuf_export()).status, STATUS_BAD_REQUEST);
}
