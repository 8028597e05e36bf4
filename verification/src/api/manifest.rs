//! What the server says of its own interface.

use vstd::prelude::*;

use crate::api::contexts::ServeRootState;
use crate::api::diagnostics::{accepts_commands, report, DiagnosticsView};
use crate::api::serving::RuntimeIdentity;
use crate::commands::command::CommandView;
use crate::transport::protocol::PROTOCOL_VERSION;

verus! {

/// A route of the interface.
#[derive(Debug, Clone, Copy, PartialEq, Eq)]
pub struct ApiRouteDoc {
    pub method: &'static str,
    pub path: &'static str,
    pub summary: &'static str,
}

/// The contents of an `ApiRouteDoc`.
#[verifier::ext_equal]
pub struct RouteView {
    pub method: Seq<char>,
    pub path: Seq<char>,
    pub summary: Seq<char>,
}

impl View for ApiRouteDoc {
    type V = RouteView;

    open spec fn view(&self) -> RouteView {
        RouteView { method: self.method@, path: self.path@, summary: self.summary@ }
    }
}

/// How far a capability is supported.
#[derive(Debug, Clone, Copy, PartialEq, Eq)]
pub struct ApiCapabilityStatusDoc {
    pub name: &'static str,
    pub supported: bool,
    pub status: &'static str,
    pub runtime_validated: bool,
    pub validated_by: &'static str,
    pub details: &'static str,
}

/// The contents of an `ApiCapabilityStatusDoc`.
#[verifier::ext_equal]
pub struct CapabilityView {
    pub name: Seq<char>,
    pub supported: bool,
    pub status: Seq<char>,
    pub runtime_validated: bool,
    pub validated_by: Seq<char>,
    pub details: Seq<char>,
}

impl View for ApiCapabilityStatusDoc {
    type V = CapabilityView;

    open spec fn view(&self) -> CapabilityView {
        CapabilityView {
            name: self.name@,
            supported: self.supported,
            status: self.status@,
            runtime_validated: self.runtime_validated,
            validated_by: self.validated_by@,
            details: self.details@,
        }
    }
}

/// A field of a command.
#[derive(Debug, Clone, Copy, PartialEq, Eq)]
pub struct ApiSchemaFieldDoc {
    pub name: &'static str,
    pub kind: &'static str,
    pub required: bool,
    pub description: &'static str,
}

/// The contents of an `ApiSchemaFieldDoc`.
#[verifier::ext_equal]
pub struct FieldView {
    pub name: Seq<char>,
    pub kind: Seq<char>,
    pub required: bool,
    pub description: Seq<char>,
}

impl View for ApiSchemaFieldDoc {
    type V = FieldView;

    open spec fn view(&self) -> FieldView {
        FieldView {
            name: self.name@,
            kind: self.kind@,
            required: self.required,
            description: self.description@,
        }
    }
}

/// A command.
#[derive(Debug, PartialEq, Eq)]
pub struct ApiCommandDoc {
    pub name: &'static str,
    pub summary: &'static str,
    pub targeting: &'static str,
    pub fields: Vec<ApiSchemaFieldDoc>,
}

/// The contents of an `ApiCommandDoc`.
#[verifier::ext_equal]
pub struct CommandDocView {
    pub name: Seq<char>,
    pub summary: Seq<char>,
    pub targeting: Seq<char>,
    pub fields: Seq<FieldView>,
}

/// The contents of a list of fields.
pub open spec fn field_docs_view(list: Seq<ApiSchemaFieldDoc>) -> Seq<FieldView> {
    Seq::new(list.len(), |i: int| list[i]@)
}

impl View for ApiCommandDoc {
    type V = CommandDocView;

    open spec fn view(&self) -> CommandDocView {
        CommandDocView {
            name: self.name@,
            summary: self.summary@,
            targeting: self.targeting@,
            fields: field_docs_view(self.fields@),
        }
    }
}

/// The contents of a list of routes.
pub open spec fn routes_view(list: Seq<ApiRouteDoc>) -> Seq<RouteView> {
    Seq::new(list.len(), |i: int| list[i]@)
}

/// The contents of a list of names.
pub open spec fn names_view(list: Seq<&'static str>) -> Seq<Seq<char>> {
    Seq::new(list.len(), |i: int| list[i]@)
}

/// The contents of a list of capabilities.
pub open spec fn capabilities_view(list: Seq<ApiCapabilityStatusDoc>) -> Seq<CapabilityView> {
    Seq::new(list.len(), |i: int| list[i]@)
}

/// The contents of a list of commands.
pub open spec fn command_docs_view(list: Seq<ApiCommandDoc>) -> Seq<CommandDocView> {
    Seq::new(list.len(), |i: int| list[i]@)
}

/// A route.
pub open spec fn route_doc(method: Seq<char>, path: Seq<char>, summary: Seq<char>) -> RouteView {
    RouteView { method, path, summary }
}

/// A capability whose support a healthy runtime proves.
pub open spec fn capability_doc(
    name: Seq<char>,
    validated: bool,
    validated_by: Seq<char>,
    details: Seq<char>,
) -> CapabilityView {
    CapabilityView {
        name,
        supported: true,
        status: if validated {
            "validated"@
        } else {
            "supported"@
        },
        runtime_validated: validated,
        validated_by,
        details,
    }
}

/// A capability that is being tried out.
pub open spec fn experimental_doc(
    name: Seq<char>,
    validated_by: Seq<char>,
    details: Seq<char>,
) -> CapabilityView {
    CapabilityView {
        name,
        supported: true,
        status: "experimental"@,
        runtime_validated: false,
        validated_by,
        details,
    }
}

/// A command.
pub open spec fn command_doc(
    name: Seq<char>,
    summary: Seq<char>,
    targeting: Seq<char>,
    fields: Seq<FieldView>,
) -> CommandDocView {
    CommandDocView { name, summary, targeting, fields }
}

/// A field of a command.
pub open spec fn field_doc(
    name: Seq<char>,
    kind: Seq<char>,
    required: bool,
    description: Seq<char>,
) -> FieldView {
    FieldView { name, kind, required, description }
}


/// The routes of the server itself.
pub open spec fn server_routes() -> Seq<RouteView> {
    seq![
        route_doc("GET"@, "/"@, "JSON API discovery document"@),
        route_doc("GET"@, "/manifest"@, "JSON API discovery document"@),
        route_doc("GET"@, "/version"@, "Version and protocol metadata"@),
        route_doc("GET"@, "/contexts"@, "List all named browser contexts"@),
        route_doc("POST"@, "/contexts"@, "Create a new isolated browser context"@),
    ]
}

/// The routes of a named context.
pub open spec fn context_routes() -> Seq<RouteView> {
    seq![
        route_doc("GET"@, "/contexts/{context_id}"@, "Read one browser context summary"@),
        route_doc("DELETE"@, "/contexts/{context_id}"@, "Delete one non-default browser context"@),
        route_doc("GET"@, "/contexts/{context_id}/healthz"@, "Context-scoped health"@),
        route_doc("GET"@, "/contexts/{context_id}/readyz"@, "Context-scoped readiness"@),
        route_doc("GET"@, "/contexts/{context_id}/doctor"@, "Context-scoped diagnostics"@),
        route_doc("GET"@, "/contexts/{context_id}/runtime"@, "Context runtime config and live state"@),
        route_doc("POST"@, "/contexts/{context_id}/runtime/cancel"@, "Cancel the active operation in one context"@),
        route_doc("GET"@, "/contexts/{context_id}/session"@, "Snapshot one context session"@),
        route_doc("POST"@, "/contexts/{context_id}/session"@, "Inject session state into one context"@),
        route_doc("POST"@, "/contexts/{context_id}/session/save"@, "Persist one context profile session"@),
        route_doc("POST"@, "/contexts/{context_id}/session/load"@, "Load one context profile session"@),
        route_doc("POST"@, "/contexts/{context_id}/navigate"@, "Navigate one context"@),
        route_doc("POST"@, "/contexts/{context_id}/execute"@, "Execute commands in one context"@),
        route_doc("GET"@, "/contexts/{context_id}/dom"@, "Fetch one context DOM snapshot"@),
        route_doc("GET"@, "/contexts/{context_id}/events"@, "Read buffered events for one context"@),
        route_doc("GET"@, "/contexts/{context_id}/downloads"@, "List browser-triggered downloads for one context"@),
        route_doc("GET"@, "/contexts/{context_id}/events/live"@, "Stream events for one context over SSE"@),
        route_doc("POST"@, "/contexts/{context_id}/trace/enable"@, "Enable trace recording for one context"@),
    ]
}

/// The routes of the default context.
pub open spec fn default_routes() -> Seq<RouteView> {
    seq![
        route_doc("GET"@, "/healthz"@, "Control-plane and runtime health"@),
        route_doc("GET"@, "/readyz"@, "Command readiness gate"@),
        route_doc("GET"@, "/doctor"@, "Detailed runtime diagnostics"@),
        route_doc("GET"@, "/runtime"@, "Runtime config and live state"@),
        route_doc("POST"@, "/runtime/cancel"@, "Cancel the active runtime operation"@),
        route_doc("POST"@, "/navigate"@, "Navigate the active browser page"@),
        route_doc("POST"@, "/execute"@, "Execute a command batch including file upload and media diagnostics"@),
        route_doc("GET"@, "/dom"@, "Fetch a fresh DOM snapshot"@),
        route_doc("GET"@, "/events"@, "Read buffered runtime events"@),
        route_doc("GET"@, "/downloads"@, "List browser-triggered downloads for the active context"@),
        route_doc("GET"@, "/events/live"@, "Stream runtime events over SSE"@),
        route_doc("GET"@, "/session"@, "Snapshot the active session"@),
        route_doc("POST"@, "/session"@, "Inject session state"@),
        route_doc("POST"@, "/session/save"@, "Persist the active profile session"@),
        route_doc("POST"@, "/session/load"@, "Load the active profile session"@),
        route_doc("POST"@, "/trace/enable"@, "Enable trace recording"@),
    ]
}

/// All routes of the interface.
pub open spec fn all_routes() -> Seq<RouteView> {
    server_routes() + context_routes() + default_routes()
}

/// The names of the capabilities.
pub open spec fn capability_names() -> Seq<Seq<char>> {
    seq![
        "semantic_dom_snapshot"@,
        "event_stream"@,
        "network_event_capture"@,
        "first_class_file_upload"@,
        "first_class_file_download"@,
        "media_diagnostics"@,
        "embedded_audio_playback"@,
        "named_multi_context_control_plane"@,
        "session_snapshotting"@,
        "trace_recording"@,
    ]
}

/// How far each capability is supported, given whether the runtime proves it.
pub open spec fn capability_table(validated: bool) -> Seq<CapabilityView> {
    seq![
        capability_doc(
            "semantic_dom_snapshot"@,
            validated,
            "/readyz + /dom"@,
            "DOM snapshots are execute-grade when the active runtime is command-ready."@,
        ),
        capability_doc(
            "event_stream"@,
            validated,
            "/readyz + /events"@,
            "Buffered and live events are validated against the active runtime readiness state."@,
        ),
        capability_doc(
            "network_event_capture"@,
            validated,
            "/readyz + /events"@,
            "Network capture depends on the active runtime being command-ready."@,
        ),
        capability_doc(
            "first_class_file_upload"@,
            validated,
            "/readyz + /execute(set_files)"@,
            "File uploads are staged into the Aegis-owned upload area before injection and support hidden file inputs."@,
        ),
        capability_doc(
            "first_class_file_download"@,
            validated,
            "/readyz + /downloads"@,
            "Browser-triggered downloads are saved into the configured download directory and surfaced through runtime diagnostics and events."@,
        ),
        capability_doc(
            "media_diagnostics"@,
            validated,
            "/readyz + /execute(media_state)"@,
            "Media diagnostics are validated when the browser runtime is attached and command-ready. This does not imply codec-complete playback support."@,
        ),
        experimental_doc(
            "embedded_audio_playback"@,
            "per-page media_state codec probe"@,
            "Actual audio playback depends on the embedded browser build, codecs, and response semantics. Inspect media_state.source_codec_support and likely_failure_cause before treating playback as production-ready."@,
        ),
        capability_doc(
            "named_multi_context_control_plane"@,
            validated,
            "/contexts + /contexts/{context_id}/readyz"@,
            "Named contexts are available when the default runtime is healthy."@,
        ),
        capability_doc(
            "session_snapshotting"@,
            validated,
            "/session + /session/save + /session/load"@,
            "Session snapshot and restore are validated against the active runtime surface."@,
        ),
        capability_doc(
            "trace_recording"@,
            validated,
            "/trace/enable"@,
            "Trace recording is available when the runtime reaches command-ready state."@,
        ),
    ]
}

/// The commands.
pub open spec fn command_table() -> Seq<CommandDocView> {
    seq![
        command_doc("click"@, "Click one actionable node"@, "id or match"@, Seq::empty()),
        command_doc("hover"@, "Hover one node"@, "id or match"@, Seq::empty()),
        command_doc(
            "set_value"@,
            "Set the value of one form control"@,
            "id or match"@,
            seq![
                field_doc("value"@, "string"@, true, "Text value to apply"@),
            ],
        ),
        command_doc(
            "set_files"@,
            "Attach one or more local files to a file input"@,
            "id or match"@,
            seq![
                field_doc("paths"@, "string[]"@, true, "Absolute local file paths to stage into Aegis and attach"@),
            ],
        ),
        command_doc(
            "press_key"@,
            "Dispatch keyboard interaction"@,
            "optional id or match"@,
            seq![
                field_doc("key"@, "string"@, true, "Key value such as Enter or Space"@),
            ],
        ),
        command_doc(
            "wait_for"@,
            "Wait for URL, DOM, text, scroll, or media conditions"@,
            "optional id or match"@,
            seq![
                field_doc("timeout_ms"@, "u64"@, false, "Overall wait deadline in milliseconds"@),
                field_doc("selector"@, "string"@, false, "CSS selector that must exist"@),
            ],
        ),
        command_doc("scroll"@, "Scroll the page viewport"@, "none"@, Seq::empty()),
        command_doc("drag"@, "Perform pointer drag gestures, including range controls"@, "id or match"@, Seq::empty()),
        command_doc("geometry"@, "Read geometry for a matched node"@, "id or match"@, Seq::empty()),
        command_doc("media_state"@, "Read diagnostics for all media nodes or one matched media node"@, "optional id or match"@, Seq::empty()),
        command_doc("eval"@, "Execute JavaScript and return the result"@, "none"@, Seq::empty()),
    ]
}

fn route(method: &'static str, path: &'static str, summary: &'static str) -> (res: ApiRouteDoc)
    ensures
        res@ == route_doc(method@, path@, summary@),
{
    ApiRouteDoc { method, path, summary }
}

fn capability(
    name: &'static str,
    validated: bool,
    validated_by: &'static str,
    details: &'static str,
) -> (res: ApiCapabilityStatusDoc)
    ensures
        res@ == capability_doc(name@, validated, validated_by@, details@),
{
    ApiCapabilityStatusDoc {
        name,
        supported: true,
        status: if validated {
            "validated"
        } else {
            "supported"
        },
        runtime_validated: validated,
        validated_by,
        details,
    }
}

fn experimental(name: &'static str, validated_by: &'static str, details: &'static str) -> (res:
    ApiCapabilityStatusDoc)
    ensures
        res@ == experimental_doc(name@, validated_by@, details@),
{
    ApiCapabilityStatusDoc {
        name,
        supported: true,
        status: "experimental",
        runtime_validated: false,
        validated_by,
        details,
    }
}

fn field(
    name: &'static str,
    kind: &'static str,
    required: bool,
    description: &'static str,
) -> (res: ApiSchemaFieldDoc)
    ensures
        res@ == field_doc(name@, kind@, required, description@),
{
    ApiSchemaFieldDoc { name, kind, required, description }
}

fn command(
    name: &'static str,
    summary: &'static str,
    targeting: &'static str,
    fields: Vec<ApiSchemaFieldDoc>,
) -> (res: ApiCommandDoc)
    ensures
        res@ == command_doc(name@, summary@, targeting@, field_docs_view(fields@)),
{
    ApiCommandDoc { name, summary, targeting, fields }
}

fn no_fields() -> (res: Vec<ApiSchemaFieldDoc>)
    ensures
        field_docs_view(res@) == Seq::<FieldView>::empty(),
{
    let fields: Vec<ApiSchemaFieldDoc> = Vec::new();
    assert(field_docs_view(fields@) =~= Seq::<FieldView>::empty());
    fields
}

fn one_field(doc: ApiSchemaFieldDoc) -> (res: Vec<ApiSchemaFieldDoc>)
    ensures
        field_docs_view(res@) == seq![doc@],
{
    let mut fields: Vec<ApiSchemaFieldDoc> = Vec::new();
    fields.push(doc);
    assert(field_docs_view(fields@) =~= seq![doc@]);
    fields
}

fn two_fields(first: ApiSchemaFieldDoc, second: ApiSchemaFieldDoc) -> (res: Vec<ApiSchemaFieldDoc>)
    ensures
        field_docs_view(res@) == seq![first@, second@],
{
    let mut fields: Vec<ApiSchemaFieldDoc> = Vec::new();
    fields.push(first);
    fields.push(second);
    assert(field_docs_view(fields@) =~= seq![first@, second@]);
    fields
}

fn list_server_routes() -> (res: Vec<ApiRouteDoc>)
    ensures
        routes_view(res@) == server_routes(),
{
    let mut list: Vec<ApiRouteDoc> = Vec::new();
    list.push(route("GET", "/", "JSON API discovery document"));
    list.push(route("GET", "/manifest", "JSON API discovery document"));
    list.push(route("GET", "/version", "Version and protocol metadata"));
    list.push(route("GET", "/contexts", "List all named browser contexts"));
    list.push(route("POST", "/contexts", "Create a new isolated browser context"));
    assert(routes_view(list@) =~= server_routes());
    list
}

fn list_context_routes() -> (res: Vec<ApiRouteDoc>)
    ensures
        routes_view(res@) == context_routes(),
{
    let mut list: Vec<ApiRouteDoc> = Vec::new();
    list.push(route("GET", "/contexts/{context_id}", "Read one browser context summary"));
    list.push(route("DELETE", "/contexts/{context_id}", "Delete one non-default browser context"));
    list.push(route("GET", "/contexts/{context_id}/healthz", "Context-scoped health"));
    list.push(route("GET", "/contexts/{context_id}/readyz", "Context-scoped readiness"));
    list.push(route("GET", "/contexts/{context_id}/doctor", "Context-scoped diagnostics"));
    list.push(route("GET", "/contexts/{context_id}/runtime", "Context runtime config and live state"));
    list.push(route("POST", "/contexts/{context_id}/runtime/cancel", "Cancel the active operation in one context"));
    list.push(route("GET", "/contexts/{context_id}/session", "Snapshot one context session"));
    list.push(route("POST", "/contexts/{context_id}/session", "Inject session state into one context"));
    list.push(route("POST", "/contexts/{context_id}/session/save", "Persist one context profile session"));
    list.push(route("POST", "/contexts/{context_id}/session/load", "Load one context profile session"));
    list.push(route("POST", "/contexts/{context_id}/navigate", "Navigate one context"));
    list.push(route("POST", "/contexts/{context_id}/execute", "Execute commands in one context"));
    list.push(route("GET", "/contexts/{context_id}/dom", "Fetch one context DOM snapshot"));
    list.push(route("GET", "/contexts/{context_id}/events", "Read buffered events for one context"));
    list.push(route("GET", "/contexts/{context_id}/downloads", "List browser-triggered downloads for one context"));
    list.push(route("GET", "/contexts/{context_id}/events/live", "Stream events for one context over SSE"));
    list.push(route("POST", "/contexts/{context_id}/trace/enable", "Enable trace recording for one context"));
    assert(routes_view(list@) =~= context_routes());
    list
}

fn list_default_routes() -> (res: Vec<ApiRouteDoc>)
    ensures
        routes_view(res@) == default_routes(),
{
    let mut list: Vec<ApiRouteDoc> = Vec::new();
    list.push(route("GET", "/healthz", "Control-plane and runtime health"));
    list.push(route("GET", "/readyz", "Command readiness gate"));
    list.push(route("GET", "/doctor", "Detailed runtime diagnostics"));
    list.push(route("GET", "/runtime", "Runtime config and live state"));
    list.push(route("POST", "/runtime/cancel", "Cancel the active runtime operation"));
    list.push(route("POST", "/navigate", "Navigate the active browser page"));
    list.push(route("POST", "/execute", "Execute a command batch including file upload and media diagnostics"));
    list.push(route("GET", "/dom", "Fetch a fresh DOM snapshot"));
    list.push(route("GET", "/events", "Read buffered runtime events"));
    list.push(route("GET", "/downloads", "List browser-triggered downloads for the active context"));
    list.push(route("GET", "/events/live", "Stream runtime events over SSE"));
    list.push(route("GET", "/session", "Snapshot the active session"));
    list.push(route("POST", "/session", "Inject session state"));
    list.push(route("POST", "/session/save", "Persist the active profile session"));
    list.push(route("POST", "/session/load", "Load the active profile session"));
    list.push(route("POST", "/trace/enable", "Enable trace recording"));
    assert(routes_view(list@) =~= default_routes());
    list
}

/// All routes of the interface.
pub fn list_routes() -> (res: Vec<ApiRouteDoc>)
    ensures
        routes_view(res@) == all_routes(),
{
    let mut list = list_server_routes();
    let mut context = list_context_routes();
    let mut default = list_default_routes();
    let ghost a = list@;
    let ghost b = context@;
    let ghost c = default@;
    list.append(&mut context);
    list.append(&mut default);
    assert(routes_view(list@) =~= routes_view(a) + routes_view(b) + routes_view(c));
    list
}

/// The names of the capabilities.
pub fn list_capabilities() -> (res: Vec<&'static str>)
    ensures
        names_view(res@) == capability_names(),
{
    let mut list: Vec<&'static str> = Vec::new();
    list.push("semantic_dom_snapshot");
    list.push("event_stream");
    list.push("network_event_capture");
    list.push("first_class_file_upload");
    list.push("first_class_file_download");
    list.push("media_diagnostics");
    list.push("embedded_audio_playback");
    list.push("named_multi_context_control_plane");
    list.push("session_snapshotting");
    list.push("trace_recording");
    assert(names_view(list@) =~= capability_names());
    list
}

/// How far each capability is supported, given whether the runtime proves it.
pub fn list_capability_status(runtime_validated: bool) -> (res: Vec<ApiCapabilityStatusDoc>)
    ensures
        capabilities_view(res@) == capability_table(runtime_validated),
{
    let mut list: Vec<ApiCapabilityStatusDoc> = Vec::new();
    list.push(
        capability(
            "semantic_dom_snapshot",
            runtime_validated,
            "/readyz + /dom",
            "DOM snapshots are execute-grade when the active runtime is command-ready.",
        ),
    );
    list.push(
        capability(
            "event_stream",
            runtime_validated,
            "/readyz + /events",
            "Buffered and live events are validated against the active runtime readiness state.",
        ),
    );
    list.push(
        capability(
            "network_event_capture",
            runtime_validated,
            "/readyz + /events",
            "Network capture depends on the active runtime being command-ready.",
        ),
    );
    list.push(
        capability(
            "first_class_file_upload",
            runtime_validated,
            "/readyz + /execute(set_files)",
            "File uploads are staged into the Aegis-owned upload area before injection and support hidden file inputs.",
        ),
    );
    list.push(
        capability(
            "first_class_file_download",
            runtime_validated,
            "/readyz + /downloads",
            "Browser-triggered downloads are saved into the configured download directory and surfaced through runtime diagnostics and events.",
        ),
    );
    list.push(
        capability(
            "media_diagnostics",
            runtime_validated,
            "/readyz + /execute(media_state)",
            "Media diagnostics are validated when the browser runtime is attached and command-ready. This does not imply codec-complete playback support.",
        ),
    );
    list.push(
        experimental(
            "embedded_audio_playback",
            "per-page media_state codec probe",
            "Actual audio playback depends on the embedded browser build, codecs, and response semantics. Inspect media_state.source_codec_support and likely_failure_cause before treating playback as production-ready.",
        ),
    );
    list.push(
        capability(
            "named_multi_context_control_plane",
            runtime_validated,
            "/contexts + /contexts/{context_id}/readyz",
            "Named contexts are available when the default runtime is healthy.",
        ),
    );
    list.push(
        capability(
            "session_snapshotting",
            runtime_validated,
            "/session + /session/save + /session/load",
            "Session snapshot and restore are validated against the active runtime surface.",
        ),
    );
    list.push(
        capability(
            "trace_recording",
            runtime_validated,
            "/trace/enable",
            "Trace recording is available when the runtime reaches command-ready state.",
        ),
    );
    assert(capabilities_view(list@) =~= capability_table(runtime_validated));
    list
}

/// The commands.
pub fn list_commands() -> (res: Vec<ApiCommandDoc>)
    ensures
        command_docs_view(res@) == command_table(),
{
    let mut list: Vec<ApiCommandDoc> = Vec::new();
    list.push(command("click", "Click one actionable node", "id or match", no_fields()));
    list.push(command("hover", "Hover one node", "id or match", no_fields()));
    list.push(
        command(
            "set_value",
            "Set the value of one form control",
            "id or match",
            one_field(field("value", "string", true, "Text value to apply")),
        ),
    );
    list.push(
        command(
            "set_files",
            "Attach one or more local files to a file input",
            "id or match",
            one_field(field("paths", "string[]", true, "Absolute local file paths to stage into Aegis and attach")),
        ),
    );
    list.push(
        command(
            "press_key",
            "Dispatch keyboard interaction",
            "optional id or match",
            one_field(field("key", "string", true, "Key value such as Enter or Space")),
        ),
    );
    list.push(
        command(
            "wait_for",
            "Wait for URL, DOM, text, scroll, or media conditions",
            "optional id or match",
            two_fields(
                field("timeout_ms", "u64", false, "Overall wait deadline in milliseconds"),
                field("selector", "string", false, "CSS selector that must exist"),
            ),
        ),
    );
    list.push(command("scroll", "Scroll the page viewport", "none", no_fields()));
    list.push(command("drag", "Perform pointer drag gestures, including range controls", "id or match", no_fields()));
    list.push(command("geometry", "Read geometry for a matched node", "id or match", no_fields()));
    list.push(command("media_state", "Read diagnostics for all media nodes or one matched media node", "optional id or match", no_fields()));
    list.push(command("eval", "Execute JavaScript and return the result", "none", no_fields()));
    assert(command_docs_view(list@) =~= command_table());
    list
}

/// What the server says of its interface.
#[derive(Debug)]
pub struct ApiManifest {
    pub service: &'static str,
    pub protocol_version: u16,
    pub discovery: &'static str,
    pub runtime_identity: RuntimeIdentity,
    pub routes: Vec<ApiRouteDoc>,
    pub capabilities: Vec<&'static str>,
    pub capability_status: Vec<ApiCapabilityStatusDoc>,
    pub commands: Vec<ApiCommandDoc>,
}

/// Whether a healthy runtime proves what the server supports: the default context is there,
/// accepts commands, and its bridge and browser are healthy.
pub open spec fn runtime_proves(d: DiagnosticsView) -> bool {
    let r = report(d, 0);
    r.command_ready && r.bridge_healthy && r.browser_backend_healthy
}

/// What the server says of its interface.
pub fn api_manifest(root: &ServeRootState, runtime_identity: RuntimeIdentity) -> (res: ApiManifest)
    ensures
        res.service@ == "aegis"@,
        res.protocol_version == PROTOCOL_VERSION,
        res.discovery@ == "/manifest"@,
        res.runtime_identity == runtime_identity,
        routes_view(res.routes@) == all_routes(),
        names_view(res.capabilities@) == capability_names(),
        capabilities_view(res.capability_status@) == capability_table(
            root@.contexts.contains_key(root@.default_id) && runtime_proves(
                root@.contexts[root@.default_id].diagnostics,
            ),
        ),
        command_docs_view(res.commands@) == command_table(),
{
    let runtime_validated = match root.default_context_state() {
        Some(state) => {
            let told = state.diagnostics.snapshot(0);
            told.command_ready && told.bridge_healthy && told.browser_backend_healthy
        },
        None => false,
    };
    ApiManifest {
        service: "aegis",
        protocol_version: PROTOCOL_VERSION,
        discovery: "/manifest",
        runtime_identity,
        routes: list_routes(),
        capabilities: list_capabilities(),
        capability_status: list_capability_status(runtime_validated),
        commands: list_commands(),
    }
}

/// Every capability that the server names has a status, and no other has one.
pub proof fn law_every_capability_has_a_status(validated: bool)
    ensures
        capability_table(validated).len() == capability_names().len(),
        forall|i: int|
            0 <= i < capability_names().len() ==> (#[trigger] capability_table(validated)[i]).name
                == capability_names()[i],
{
}

/// No capability is said to be proved by the runtime unless the runtime is healthy.
pub proof fn law_nothing_is_proved_by_an_unhealthy_runtime(i: int)
    requires
        0 <= i < capability_table(false).len(),
    ensures
        !capability_table(false)[i].runtime_validated,
{
}

/// A runtime that accepts commands proves what the server supports.
pub proof fn law_accepting_runtime_proves(d: DiagnosticsView)
    ensures
        runtime_proves(d) == accepts_commands(d),
{
}

/// Whether a route of one context does for it what a route does for the default context.
pub open spec fn is_scoped(r: RouteView, scoped: RouteView) -> bool {
    scoped.method == r.method && scoped.path == "/contexts/{context_id}"@ + r.path
}

/// Everything that can be asked of the default context can be asked of any other: each of its routes
/// has one below the name of a context, with the same method.
pub proof fn law_default_routes_are_there_for_all(i: int)
    requires
        0 <= i < default_routes().len(),
    ensures
        exists|j: int| 0 <= j < context_routes().len() && is_scoped(
            default_routes()[i],
            #[trigger] context_routes()[j],
        ),
        all_routes().contains(default_routes()[i]),
        forall|j: int| 0 <= j < context_routes().len() ==> all_routes().contains(
            #[trigger] context_routes()[j],
        ),
        forall|j: int| 0 <= j < server_routes().len() ==> all_routes().contains(
            #[trigger] server_routes()[j],
        ),
{
    let d = default_routes();
    let c = context_routes();
    if i == 0 {
        assert("/contexts/{context_id}"@ + "/healthz"@ =~= "/contexts/{context_id}/healthz"@) by {
            reveal_strlit("/contexts/{context_id}");
            reveal_strlit("/healthz");
            reveal_strlit("/contexts/{context_id}/healthz");
        }
        assert(is_scoped(d[0], c[2]));
    }
    if i == 1 {
        assert("/contexts/{context_id}"@ + "/readyz"@ =~= "/contexts/{context_id}/readyz"@) by {
            reveal_strlit("/contexts/{context_id}");
            reveal_strlit("/readyz");
            reveal_strlit("/contexts/{context_id}/readyz");
        }
        assert(is_scoped(d[1], c[3]));
    }
    if i == 2 {
        assert("/contexts/{context_id}"@ + "/doctor"@ =~= "/contexts/{context_id}/doctor"@) by {
            reveal_strlit("/contexts/{context_id}");
            reveal_strlit("/doctor");
            reveal_strlit("/contexts/{context_id}/doctor");
        }
        assert(is_scoped(d[2], c[4]));
    }
    if i == 3 {
        assert("/contexts/{context_id}"@ + "/runtime"@ =~= "/contexts/{context_id}/runtime"@) by {
            reveal_strlit("/contexts/{context_id}");
            reveal_strlit("/runtime");
            reveal_strlit("/contexts/{context_id}/runtime");
        }
        assert(is_scoped(d[3], c[5]));
    }
    if i == 4 {
        assert("/contexts/{context_id}"@ + "/runtime/cancel"@ =~= "/contexts/{context_id}/runtime/cancel"@) by {
            reveal_strlit("/contexts/{context_id}");
            reveal_strlit("/runtime/cancel");
            reveal_strlit("/contexts/{context_id}/runtime/cancel");
        }
        assert(is_scoped(d[4], c[6]));
    }
    if i == 5 {
        assert("/contexts/{context_id}"@ + "/navigate"@ =~= "/contexts/{context_id}/navigate"@) by {
            reveal_strlit("/contexts/{context_id}");
            reveal_strlit("/navigate");
            reveal_strlit("/contexts/{context_id}/navigate");
        }
        assert(is_scoped(d[5], c[11]));
    }
    if i == 6 {
        assert("/contexts/{context_id}"@ + "/execute"@ =~= "/contexts/{context_id}/execute"@) by {
            reveal_strlit("/contexts/{context_id}");
            reveal_strlit("/execute");
            reveal_strlit("/contexts/{context_id}/execute");
        }
        assert(is_scoped(d[6], c[12]));
    }
    if i == 7 {
        assert("/contexts/{context_id}"@ + "/dom"@ =~= "/contexts/{context_id}/dom"@) by {
            reveal_strlit("/contexts/{context_id}");
            reveal_strlit("/dom");
            reveal_strlit("/contexts/{context_id}/dom");
        }
        assert(is_scoped(d[7], c[13]));
    }
    if i == 8 {
        assert("/contexts/{context_id}"@ + "/events"@ =~= "/contexts/{context_id}/events"@) by {
            reveal_strlit("/contexts/{context_id}");
            reveal_strlit("/events");
            reveal_strlit("/contexts/{context_id}/events");
        }
        assert(is_scoped(d[8], c[14]));
    }
    if i == 9 {
        assert("/contexts/{context_id}"@ + "/downloads"@ =~= "/contexts/{context_id}/downloads"@) by {
            reveal_strlit("/contexts/{context_id}");
            reveal_strlit("/downloads");
            reveal_strlit("/contexts/{context_id}/downloads");
        }
        assert(is_scoped(d[9], c[15]));
    }
    if i == 10 {
        assert("/contexts/{context_id}"@ + "/events/live"@ =~= "/contexts/{context_id}/events/live"@) by {
            reveal_strlit("/contexts/{context_id}");
            reveal_strlit("/events/live");
            reveal_strlit("/contexts/{context_id}/events/live");
        }
        assert(is_scoped(d[10], c[16]));
    }
    if i == 11 {
        assert("/contexts/{context_id}"@ + "/session"@ =~= "/contexts/{context_id}/session"@) by {
            reveal_strlit("/contexts/{context_id}");
            reveal_strlit("/session");
            reveal_strlit("/contexts/{context_id}/session");
        }
        assert(is_scoped(d[11], c[7]));
    }
    if i == 12 {
        assert("/contexts/{context_id}"@ + "/session"@ =~= "/contexts/{context_id}/session"@) by {
            reveal_strlit("/contexts/{context_id}");
            reveal_strlit("/session");
            reveal_strlit("/contexts/{context_id}/session");
        }
        assert(is_scoped(d[12], c[8]));
    }
    if i == 13 {
        assert("/contexts/{context_id}"@ + "/session/save"@ =~= "/contexts/{context_id}/session/save"@) by {
            reveal_strlit("/contexts/{context_id}");
            reveal_strlit("/session/save");
            reveal_strlit("/contexts/{context_id}/session/save");
        }
        assert(is_scoped(d[13], c[9]));
    }
    if i == 14 {
        assert("/contexts/{context_id}"@ + "/session/load"@ =~= "/contexts/{context_id}/session/load"@) by {
            reveal_strlit("/contexts/{context_id}");
            reveal_strlit("/session/load");
            reveal_strlit("/contexts/{context_id}/session/load");
        }
        assert(is_scoped(d[14], c[10]));
    }
    if i == 15 {
        assert("/contexts/{context_id}"@ + "/trace/enable"@ =~= "/contexts/{context_id}/trace/enable"@) by {
            reveal_strlit("/contexts/{context_id}");
            reveal_strlit("/trace/enable");
            reveal_strlit("/contexts/{context_id}/trace/enable");
        }
        assert(is_scoped(d[15], c[17]));
    }
    let all = all_routes();
    let n = server_routes().len();
    assert(all[n + c.len() + i] == d[i]);
    assert forall|j: int| 0 <= j < c.len() implies all.contains(#[trigger] c[j]) by {
        assert(all[n + j] == c[j]);
    }
    assert forall|j: int| 0 <= j < n implies all.contains(#[trigger] server_routes()[j]) by {
        assert(all[j] == server_routes()[j]);
    }
}

/// Every command is documented, under the name that its record gives it.
pub proof fn law_every_command_is_documented(c: CommandView)
    ensures
        exists|i: int|
            0 <= i < command_table().len() && crate::commands::encoder::told_text(
                crate::json::found(crate::commands::encoder::command_record(c), "type"@),
            ) == Some((#[trigger] command_table()[i]).name),
{
    let t = command_table();
    match c {
        CommandView::Click { .. } => {
            crate::commands::encoder::law_record_of_click(c);
            assert(t[0].name == "click"@);
        },
        CommandView::Hover { .. } => {
            crate::commands::encoder::law_record_of_hover(c);
            assert(t[1].name == "hover"@);
        },
        CommandView::SetValue { .. } => {
            crate::commands::encoder::law_record_of_set_value(c);
            assert(t[2].name == "set_value"@);
        },
        CommandView::SetFiles { .. } => {
            crate::commands::encoder::law_record_of_set_files(c);
            assert(t[3].name == "set_files"@);
        },
        CommandView::PressKey { .. } => {
            crate::commands::encoder::law_record_of_press_key(c);
            assert(t[4].name == "press_key"@);
        },
        CommandView::WaitFor { .. } => {
            crate::commands::encoder::law_record_of_wait_for(c);
            assert(t[5].name == "wait_for"@);
        },
        CommandView::Scroll { .. } => {
            crate::commands::encoder::law_record_of_scroll(c);
            assert(t[6].name == "scroll"@);
        },
        CommandView::Drag { .. } => {
            crate::commands::encoder::law_record_of_drag(c);
            assert(t[7].name == "drag"@);
        },
        CommandView::Geometry { .. } => {
            crate::commands::encoder::law_record_of_geometry(c);
            assert(t[8].name == "geometry"@);
        },
        CommandView::MediaState { .. } => {
            crate::commands::encoder::law_record_of_media_state(c);
            assert(t[9].name == "media_state"@);
        },
        CommandView::Eval { .. } => {
            crate::commands::encoder::law_record_of_eval(c);
            assert(t[10].name == "eval"@);
        },
    }
}

/// A capability that is validated says so, one that is not is only supported, and an experimental one
/// is never validated; all of them are supported and told under their name.
pub proof fn law_status_of_capabilities(
    name: Seq<char>,
    validated: bool,
    by: Seq<char>,
    details: Seq<char>,
)
    ensures
        ({
            let c = capability_doc(name, validated, by, details);
            &&& c.name == name && c.supported && c.validated_by == by && c.details == details
            &&& c.runtime_validated == validated
            &&& validated ==> c.status == "validated"@
            &&& !validated ==> c.status == "supported"@
        }),
        ({
            let c = experimental_doc(name, by, details);
            &&& c.name == name && c.supported && c.validated_by == by && c.details == details
            &&& !c.runtime_validated && c.status == "experimental"@
        }),
{
}

/// A runtime proves the capabilities exactly when it accepts commands and neither the bridge nor the
/// browser is at fault.
pub proof fn law_runtimes_that_prove(d: DiagnosticsView)
    ensures
        runtime_proves(d) <==> crate::api::diagnostics::accepts_commands(d)
            && d.runtime.last_successful_bridge_roundtrip_at_ms is Some && d.runtime.bootstrapped
            && d.runtime.host.browser_available && d.runtime.host.renderer_ready
            && d.runtime.host.runtime_ready && !d.runtime.host.browser_closed && d.last_failure
            is None,
{
}

} // verus!
