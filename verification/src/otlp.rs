//! Log exports of the OpenTelemetry protocol: the boundary to the `opentelemetry-proto` and
//! `prost` crates, which decode them, and the attributes of their records as plain values.

use opentelemetry_proto::tonic::collector::logs::v1::ExportLogsServiceRequest;
use opentelemetry_proto::tonic::common::v1::any_value;
use opentelemetry_proto::tonic::common::v1::{AnyValue, KeyValue};
use opentelemetry_proto::tonic::logs::v1::{LogRecord, ResourceLogs, ScopeLogs};
use prost::{DecodeError, Message};
use vstd::prelude::*;

use crate::json;
use crate::json::Json;

verus! {

/// What an attribute holds.
#[derive(Debug)]
pub enum AttributeValue {
    Str(String),
    Int(i64),
    Bool(bool),
    /// A double as a JSON document.
    Double(Json),
    /// A list, a map or bytes, in words.
    Other(String),
}

/// What an attribute's value says.
pub enum ValueView {
    Str(Seq<char>),
    Int(i64),
    Bool(bool),
    Double(json::JsonView),
    Other(Seq<char>),
}

impl View for AttributeValue {
    type V = ValueView;

    open spec fn view(&self) -> ValueView {
        match self {
            AttributeValue::Str(s) => ValueView::Str(s@),
            AttributeValue::Int(i) => ValueView::Int(*i),
            AttributeValue::Bool(b) => ValueView::Bool(*b),
            AttributeValue::Double(d) => ValueView::Double(d@),
            AttributeValue::Other(s) => ValueView::Other(s@),
        }
    }
}

/// An attribute of a record: its key, and its value where it has one.
#[derive(Debug)]
pub struct Attribute {
    pub key: String,
    pub value: Option<AttributeValue>,
}

/// What an attribute says.
pub struct AttributeView {
    pub key: Seq<char>,
    pub value: Option<ValueView>,
}

impl View for Attribute {
    type V = AttributeView;

    open spec fn view(&self) -> AttributeView {
        AttributeView {
            key: self.key@,
            value: match self.value {
                Some(v) => Some(v@),
                None => None,
            },
        }
    }
}

/// The views of a record's attributes.
pub open spec fn attribute_views(attrs: Seq<Attribute>) -> Seq<AttributeView> {
    attrs.map_values(|a: Attribute| a@)
}

/// The views of the attributes of each record.
pub open spec fn record_views(records: Seq<Vec<Attribute>>) -> Seq<Seq<AttributeView>> {
    records.map_values(|attrs: Vec<Attribute>| attribute_views(attrs@))
}

// ---------------------------------------------------------------------------
// The opentelemetry-proto and prost crates
// ---------------------------------------------------------------------------

/// A log export.
#[verifier::external_type_specification]
#[verifier::external_body]
pub struct ExExportLogsServiceRequest(ExportLogsServiceRequest);

/// The logs of one resource.
#[verifier::external_type_specification]
#[verifier::external_body]
pub struct ExResourceLogs(ResourceLogs);

/// The logs of one scope.
#[verifier::external_type_specification]
#[verifier::external_body]
pub struct ExScopeLogs(ScopeLogs);

/// One log record.
#[verifier::external_type_specification]
#[verifier::external_body]
pub struct ExLogRecord(LogRecord);

/// One attribute of a record.
#[verifier::external_type_specification]
#[verifier::external_body]
pub struct ExKeyValue(KeyValue);

/// The value of an attribute.
#[verifier::external_type_specification]
#[verifier::external_body]
pub struct ExAnyValue(AnyValue);

/// Why bytes are no message.
#[verifier::external_type_specification]
#[verifier::external_body]
pub struct ExDecodeError(DecodeError);

/// What `Message::decode` makes of bytes for a log export; nothing where it reports an error.
pub uninterp spec fn decoded_request(bytes: Seq<u8>) -> Option<ExportLogsServiceRequest>;

/// The field `resource_logs` of an export.
pub uninterp spec fn request_resources(request: ExportLogsServiceRequest) -> Seq<ResourceLogs>;

/// The field `scope_logs` of a resource.
pub uninterp spec fn resource_scopes(resource: ResourceLogs) -> Seq<ScopeLogs>;

/// The field `log_records` of a scope.
pub uninterp spec fn scope_records(scope: ScopeLogs) -> Seq<LogRecord>;

/// The field `attributes` of a record.
pub uninterp spec fn record_attributes(record: LogRecord) -> Seq<KeyValue>;

/// The fields `key` and `value` of an attribute.
pub uninterp spec fn attribute_fields(attr: KeyValue) -> (Seq<char>, Option<AnyValue>);

/// What the field `value` of an attribute's value says.
pub uninterp spec fn any_value_content(any: AnyValue) -> Option<ValueView>;

/// Calls `prost::Message::decode` for `ExportLogsServiceRequest`, whose result depends on the
/// bytes alone.
#[verifier::external_body]
fn decode_request(bytes: &[u8]) -> (r: Result<ExportLogsServiceRequest, DecodeError>)
    ensures
        match r {
            Ok(request) => decoded_request(bytes@) == Some(request),
            Err(_) => decoded_request(bytes@) is None,
        },
{
    ExportLogsServiceRequest::decode(bytes)
}

/// Moves out the field `resource_logs` of an `ExportLogsServiceRequest`.
#[verifier::external_body]
fn take_resources(request: ExportLogsServiceRequest) -> (r: Vec<ResourceLogs>)
    ensures
        r@ == request_resources(request),
{
    request.resource_logs
}

/// Moves out the field `scope_logs` of a `ResourceLogs`.
#[verifier::external_body]
fn take_scopes(resource: ResourceLogs) -> (r: Vec<ScopeLogs>)
    ensures
        r@ == resource_scopes(resource),
{
    resource.scope_logs
}

/// Moves out the field `log_records` of a `ScopeLogs`.
#[verifier::external_body]
fn take_records(scope: ScopeLogs) -> (r: Vec<LogRecord>)
    ensures
        r@ == scope_records(scope),
{
    scope.log_records
}

/// Moves out the field `attributes` of a `LogRecord`.
#[verifier::external_body]
fn take_attributes(record: LogRecord) -> (r: Vec<KeyValue>)
    ensures
        r@ == record_attributes(record),
{
    record.attributes
}

/// Moves out the fields `key` and `value` of a `KeyValue`.
#[verifier::external_body]
fn take_fields(attr: KeyValue) -> (r: (String, Option<AnyValue>))
    ensures
        (r.0@, r.1) == attribute_fields(attr),
{
    (attr.key, attr.value)
}

/// One level of an attribute's value, a double still as `serde_json` holds it.
pub enum AnyContent {
    Str(String),
    Int(i64),
    Bool(bool),
    Double(serde_json::Value),
    Other(String),
}

/// What that level says.
pub open spec fn content_view(content: AnyContent) -> ValueView {
    match content {
        AnyContent::Str(s) => ValueView::Str(s@),
        AnyContent::Int(i) => ValueView::Int(i),
        AnyContent::Bool(b) => ValueView::Bool(b),
        AnyContent::Double(d) => ValueView::Double(json::value_model(d)),
        AnyContent::Other(s) => ValueView::Other(s@),
    }
}

/// Tells the variants of the field `value` of an `AnyValue` apart: a double becomes a document
/// by `serde_json::Value`'s `From`, a list, a map or bytes become their `Debug` text.
#[verifier::external_body]
fn take_content(any: AnyValue) -> (r: Option<AnyContent>)
    ensures
        match r {
            Some(content) => any_value_content(any) == Some(content_view(content)),
            None => any_value_content(any) is None,
        },
{
    match any.value {
        None => None,
        Some(any_value::Value::StringValue(s)) => Some(AnyContent::Str(s)),
        Some(any_value::Value::IntValue(i)) => Some(AnyContent::Int(i)),
        Some(any_value::Value::BoolValue(b)) => Some(AnyContent::Bool(b)),
        Some(any_value::Value::DoubleValue(d)) => Some(AnyContent::Double(d.into())),
        Some(other) => Some(AnyContent::Other(format!("{:?}", other))),
    }
}

// ---------------------------------------------------------------------------
// Decoding
// ---------------------------------------------------------------------------

/// What an attribute of an export says.
pub open spec fn attribute_of(attr: KeyValue) -> AttributeView {
    AttributeView {
        key: attribute_fields(attr).0,
        value: match attribute_fields(attr).1 {
            Some(any) => any_value_content(any),
            None => None,
        },
    }
}

/// What the attributes of a record of an export say.
pub open spec fn attributes_of(record: LogRecord) -> Seq<AttributeView> {
    record_attributes(record).map_values(|a: KeyValue| attribute_of(a))
}

/// The records of one scope.
pub open spec fn scope_attributes(scope: ScopeLogs) -> Seq<Seq<AttributeView>> {
    scope_records(scope).map_values(|r: LogRecord| attributes_of(r))
}

/// The records of one resource.
pub open spec fn resource_attributes(resource: ResourceLogs) -> Seq<Seq<AttributeView>> {
    resource_scopes(resource).flat_map(|s: ScopeLogs| scope_attributes(s))
}

/// The records of an export, each by its attributes: those of every scope of every resource,
/// in order. Nothing where the bytes are no export.
pub open spec fn exported(bytes: Seq<u8>) -> Option<Seq<Seq<AttributeView>>> {
    match decoded_request(bytes) {
        Some(request) => Some(
            request_resources(request).flat_map(|r: ResourceLogs| resource_attributes(r)),
        ),
        None => None,
    }
}

fn read_attribute(attr: KeyValue) -> (r: Attribute)
    ensures
        r@ == attribute_of(attr),
{
    let (key, any) = take_fields(attr);
    let value = match any {
        Some(any) => match take_content(any) {
            Some(AnyContent::Str(s)) => Some(AttributeValue::Str(s)),
            Some(AnyContent::Int(i)) => Some(AttributeValue::Int(i)),
            Some(AnyContent::Bool(b)) => Some(AttributeValue::Bool(b)),
            Some(AnyContent::Double(d)) => Some(AttributeValue::Double(json::from_value(d))),
            Some(AnyContent::Other(s)) => Some(AttributeValue::Other(s)),
            None => None,
        },
        None => None,
    };
    Attribute { key, value }
}

fn read_attributes(record: LogRecord) -> (r: Vec<Attribute>)
    ensures
        attribute_views(r@) == attributes_of(record),
{
    let attrs = take_attributes(record);
    let ghost all = attrs@;
    let mut out: Vec<Attribute> = Vec::new();
    for attr in it: attrs
        invariant
            it.seq() == all,
            out@.len() == it.index(),
            forall|j: int| 0 <= j < out@.len() ==> (#[trigger] out@[j])@ == attribute_of(all[j]),
    {
        out.push(read_attribute(attr));
    }
    proof {
        assert(attribute_views(out@) =~= attributes_of(record));
    }
    out
}

fn read_scope(scope: ScopeLogs, out: &mut Vec<Vec<Attribute>>)
    ensures
        record_views(final(out)@) == record_views(old(out)@) + scope_attributes(scope),
{
    let ghost before = record_views(out@);
    let records = take_records(scope);
    let ghost all = records@;
    let ghost step = |r: LogRecord| attributes_of(r);
    for record in it: records
        invariant
            it.seq() == all,
            step == (|r: LogRecord| attributes_of(r)),
            record_views(out@) =~= before + all.take(it.index() as int).map_values(step),
    {
        let ghost done = out@;
        let ghost i = it.index() as int;
        out.push(read_attributes(record));
        proof {
            assert(record_views(out@) =~= record_views(done).push(attributes_of(all[i])));
            assert(all.take(i + 1) =~= all.take(i).push(all[i]));
        }
    }
    proof {
        assert(all.take(all.len() as int) =~= all);
    }
}

fn read_resource(resource: ResourceLogs, out: &mut Vec<Vec<Attribute>>)
    ensures
        record_views(final(out)@) == record_views(old(out)@) + resource_attributes(resource),
{
    let ghost before = record_views(out@);
    let scopes = take_scopes(resource);
    let ghost all = scopes@;
    let ghost step = |s: ScopeLogs| scope_attributes(s);
    proof {
        assert(all.take(0).flat_map(step) =~= Seq::empty());
    }
    for scope in it: scopes
        invariant
            it.seq() == all,
            step == (|s: ScopeLogs| scope_attributes(s)),
            record_views(out@) =~= before + all.take(it.index() as int).flat_map(step),
    {
        proof {
            all.lemma_flat_map_take_append(step, it.index() as int);
        }
        read_scope(scope, out);
    }
    proof {
        assert(all.take(all.len() as int) =~= all);
    }
}

/// Decodes a log export into its records, each by its attributes.
pub fn decode_logs(body: &[u8]) -> (r: Option<Vec<Vec<Attribute>>>)
    ensures
        match r {
            Some(records) => exported(body@) == Some(record_views(records@)),
            None => exported(body@) is None,
        },
{
    match decode_request(body) {
        Ok(request) => {
            let resources = take_resources(request);
            let ghost all = resources@;
            let ghost step = |r: ResourceLogs| resource_attributes(r);
            let mut out: Vec<Vec<Attribute>> = Vec::new();
            proof {
                assert(all.take(0).flat_map(step) =~= Seq::empty());
            }
            for resource in it: resources
                invariant
                    it.seq() == all,
                    step == (|r: ResourceLogs| resource_attributes(r)),
                    record_views(out@) =~= all.take(it.index() as int).flat_map(step),
            {
                proof {
                    all.lemma_flat_map_take_append(step, it.index() as int);
                }
                read_resource(resource, &mut out);
            }
            proof {
                assert(all.take(all.len() as int) =~= all);
            }
            Some(out)
        },
        Err(_) => None,
    }
}

// ---------------------------------------------------------------------------
// Laws
// ---------------------------------------------------------------------------

/// An attribute has the key of its field, and the value that its value says, where it has one.
pub proof fn law_attribute_by_its_fields(attr: KeyValue)
    ensures
        ({
            let (key, value) = attribute_fields(attr);
            &&& attribute_of(attr).key == key
            &&& value is None ==> attribute_of(attr).value is None
            &&& value matches Some(any) ==> attribute_of(attr).value == any_value_content(any)
        }),
{
}

/// The records of an export come in order: those of a resource scope by scope, those of a scope one
/// by one, each with all its attributes in order.
pub proof fn law_records_come_in_order(
    longer: ResourceLogs,
    resource: ResourceLogs,
    scope: ScopeLogs,
    record: LogRecord,
    i: int,
)
    ensures
        resource_scopes(longer) == resource_scopes(resource).push(scope) ==> resource_attributes(
            longer,
        ) == resource_attributes(resource) + scope_attributes(scope),
        resource_scopes(resource).len() == 0 ==> resource_attributes(resource).len() == 0,
        scope_attributes(scope).len() == scope_records(scope).len(),
        0 <= i < scope_records(scope).len() ==> scope_attributes(scope)[i] == attributes_of(
            scope_records(scope)[i],
        ),
        attributes_of(record).len() == record_attributes(record).len(),
        0 <= i < record_attributes(record).len() ==> attributes_of(record)[i] == attribute_of(
            record_attributes(record)[i],
        ),
{
    let step = |s: ScopeLogs| scope_attributes(s);
    let scopes = resource_scopes(resource);
    let more = scopes.push(scope);
    more.lemma_flat_map_take_append(step, scopes.len() as int);
    assert(more.take(scopes.len() as int) =~= scopes);
    assert(more.take(scopes.len() as int + 1) =~= more);
    if scopes.len() == 0 {
        assert(scopes =~= Seq::empty());
        assert(Seq::<ScopeLogs>::empty().flat_map(step) =~= Seq::empty());
    }
}

/// The records of an export are those of its resources, one after the other.
pub proof fn law_resources_come_in_order(
    body: Seq<u8>,
    longer: Seq<u8>,
    request: ExportLogsServiceRequest,
    more: ExportLogsServiceRequest,
    resource: ResourceLogs,
)
    requires
        decoded_request(body) == Some(request),
        decoded_request(longer) == Some(more),
        request_resources(more) == request_resources(request).push(resource),
    ensures
        exported(body) is Some,
        exported(longer) is Some,
        exported(longer)->0 == exported(body)->0 + resource_attributes(resource),
        request_resources(request).len() == 0 ==> exported(body)->0.len() == 0,
{
    let step = |r: ResourceLogs| resource_attributes(r);
    let resources = request_resources(request);
    let all = resources.push(resource);
    all.lemma_flat_map_take_append(step, resources.len() as int);
    assert(all.take(resources.len() as int) =~= resources);
    assert(all.take(resources.len() as int + 1) =~= all);
    if resources.len() == 0 {
        assert(resources =~= Seq::empty());
        assert(Seq::<ResourceLogs>::empty().flat_map(step) =~= Seq::empty());
    }
}

} // verus!
