//! The JSON form of events and document changes.

use vstd::prelude::*;

use crate::dom::diff::{mutations_view, DomMutation, MutationView};
use crate::dom::node::{opt_semantics, DomNodeSemantics, NodeId, NodeView, SemanticsView};
use crate::events::stream::{EventView, NetworkResourcePhase, RuntimeEvent, WebSocketFrameDirection};
use crate::json::{
    array, entries_view, json_ok, lemma_json_view, lemma_ordinary_name, member, members_map, object,
    opt_json, opt_ref, ordinary_name, parse_json, parsed_json, put, readable_members, reads_back,
    record_field, record_shape, reserved_name, text_of, text_or_null, values_view, write_json,
    written_json, JsonValue, JsonView,
};
use crate::string_map::{lemma_pairs_map_domain, pairs_map, StringMap};
use crate::text::{opt_text, str_eq, texts};

verus! {

/// An object without members.
pub open spec fn no_members() -> Map<Seq<char>, JsonView> {
    Map::empty()
}

/// The members with one more, if there is a value for it.
pub open spec fn insert_some(
    m: Map<Seq<char>, JsonView>,
    name: Seq<char>,
    value: Option<JsonView>,
) -> Map<Seq<char>, JsonView> {
    match value {
        Some(v) => m.insert(name, v),
        None => m,
    }
}

/// The text value of an optional text.
pub open spec fn some_text(text: Option<Seq<char>>) -> Option<JsonView> {
    match text {
        Some(t) => Some(JsonView::Text(t)),
        None => None,
    }
}

/// Text values of a list of texts.
pub open spec fn texts_json(list: Seq<Seq<char>>) -> JsonView {
    JsonView::Array(Seq::new(list.len(), |i: int| JsonView::Text(list[i])))
}

/// Number values of a list of identifiers.
pub open spec fn ids_json(list: Seq<NodeId>) -> JsonView {
    JsonView::Array(Seq::new(list.len(), |i: int| JsonView::Unsigned(list[i])))
}

/// The object of a map of attributes.
pub open spec fn attrs_json(attrs: Map<Seq<char>, Seq<char>>) -> JsonView {
    JsonView::Object(attrs.map_values(|v: Seq<char>| JsonView::Text(v)))
}

/// The object of a node's semantics; what is not set is left out.
pub open spec fn semantics_json(s: SemanticsView) -> JsonView {
    let m = insert_some(no_members(), "role"@, some_text(s.role));
    let m = insert_some(m, "name"@, some_text(s.name));
    let m = insert_some(m, "label"@, some_text(s.label));
    let m = insert_some(m, "control_type"@, some_text(s.control_type));
    let m = m.insert("actionable"@, JsonView::Bool(s.actionable));
    let m = m.insert("disabled"@, JsonView::Bool(s.disabled));
    let m = m.insert("visible"@, JsonView::Bool(s.visible));
    JsonView::Object(
        if s.actions.len() == 0 {
            m
        } else {
            m.insert("actions"@, texts_json(s.actions))
        },
    )
}

/// The value of optional semantics.
pub open spec fn some_semantics(s: Option<SemanticsView>) -> Option<JsonView> {
    match s {
        Some(x) => Some(semantics_json(x)),
        None => None,
    }
}

/// The object of a change to the document.
pub open spec fn mutation_json(m: MutationView) -> JsonView {
    JsonView::Object(
        match m {
            MutationView::Upsert { node } => {
                let o = no_members().insert("kind"@, JsonView::Text("upsert"@));
                let o = o.insert("id"@, JsonView::Unsigned(node.id));
                let o = o.insert("tag"@, JsonView::Text(node.tag));
                let o = o.insert("attrs"@, attrs_json(node.attrs));
                let o = insert_some(o, "text"@, some_text(node.text));
                let o = insert_some(o, "semantic"@, some_semantics(node.semantic));
                o.insert("children"@, ids_json(node.children))
            },
            MutationView::Remove { id } => no_members().insert(
                "kind"@,
                JsonView::Text("remove"@),
            ).insert("id"@, JsonView::Unsigned(id)),
            MutationView::SetText { id, text } => no_members().insert(
                "kind"@,
                JsonView::Text("set_text"@),
            ).insert("id"@, JsonView::Unsigned(id)).insert("text"@, text_or_null(text)),
            MutationView::SetAttr { id, name, value } => no_members().insert(
                "kind"@,
                JsonView::Text("set_attr"@),
            ).insert("id"@, JsonView::Unsigned(id)).insert("name"@, JsonView::Text(name)).insert(
                "value"@,
                text_or_null(value),
            ),
            MutationView::SetChildren { id, children } => no_members().insert(
                "kind"@,
                JsonView::Text("set_children"@),
            ).insert("id"@, JsonView::Unsigned(id)).insert("children"@, ids_json(children)),
        },
    )
}

/// The array of a list of changes.
pub open spec fn mutations_json(list: Seq<MutationView>) -> JsonView {
    JsonView::Array(Seq::new(list.len(), |i: int| mutation_json(list[i])))
}

/// The name of a phase.
pub open spec fn phase_name(p: NetworkResourcePhase) -> Seq<char> {
    match p {
        NetworkResourcePhase::Request => "request"@,
        NetworkResourcePhase::Response => "response"@,
        NetworkResourcePhase::Finished => "finished"@,
        NetworkResourcePhase::Failed => "failed"@,
    }
}

/// The name of a direction.
pub open spec fn direction_name(d: WebSocketFrameDirection) -> Seq<char> {
    match d {
        WebSocketFrameDirection::Sent => "sent"@,
        WebSocketFrameDirection::Received => "received"@,
    }
}

/// The value of an optional phase.
pub open spec fn phase_json(p: Option<NetworkResourcePhase>) -> JsonView {
    match p {
        Some(x) => JsonView::Text(phase_name(x)),
        None => JsonView::Null,
    }
}

/// The value of an optional number.
pub open spec fn u16_json(n: Option<u16>) -> JsonView {
    match n {
        Some(x) => JsonView::Unsigned(x as u64),
        None => JsonView::Null,
    }
}

/// The value of an optional number.
pub open spec fn u8_json(n: Option<u8>) -> JsonView {
    match n {
        Some(x) => JsonView::Unsigned(x as u64),
        None => JsonView::Null,
    }
}

/// The value of an optional boolean.
pub open spec fn bool_json(b: Option<bool>) -> JsonView {
    match b {
        Some(x) => JsonView::Bool(x),
        None => JsonView::Null,
    }
}

/// The value of an optional value.
pub open spec fn value_json(v: Option<JsonView>) -> JsonView {
    match v {
        Some(x) => x,
        None => JsonView::Null,
    }
}

/// The object of an event: its type and its fields, null where a field is not set. An event
/// of an unknown type is the value that it came as.
pub open spec fn event_json(e: EventView) -> JsonView {
    match e {
        EventView::DomMutation { changes } => JsonView::Object(
            no_members().insert("type"@, JsonView::Text("dom_mutation"@)).insert(
                "changes"@,
                mutations_json(changes),
            ),
        ),
        EventView::Navigation { url } => JsonView::Object(
            no_members().insert("type"@, JsonView::Text("navigation"@)).insert(
                "url"@,
                JsonView::Text(url),
            ),
        ),
        EventView::Network {
            request_id,
            url,
            method,
            resource_type,
            phase,
            status,
            status_text,
            mime_type,
            from_cache,
            error_text,
        } => {
            let o = no_members().insert("type"@, JsonView::Text("network"@));
            let o = o.insert("request_id"@, JsonView::Text(request_id));
            let o = o.insert("url"@, JsonView::Text(url));
            let o = o.insert("method"@, text_or_null(method));
            let o = o.insert("resource_type"@, text_or_null(resource_type));
            let o = o.insert("phase"@, phase_json(phase));
            let o = o.insert("status"@, u16_json(status));
            let o = o.insert("status_text"@, text_or_null(status_text));
            let o = o.insert("mime_type"@, text_or_null(mime_type));
            let o = o.insert("from_cache"@, bool_json(from_cache));
            JsonView::Object(o.insert("error_text"@, text_or_null(error_text)))
        },
        EventView::WebSocketOpen { request_id, url } => JsonView::Object(
            no_members().insert("type"@, JsonView::Text("websocket_open"@)).insert(
                "request_id"@,
                JsonView::Text(request_id),
            ).insert("url"@, JsonView::Text(url)),
        ),
        EventView::WebSocketHandshake { request_id, url, status, status_text } => {
            let o = no_members().insert("type"@, JsonView::Text("websocket_handshake"@));
            let o = o.insert("request_id"@, JsonView::Text(request_id));
            let o = o.insert("url"@, JsonView::Text(url));
            let o = o.insert("status"@, u16_json(status));
            JsonView::Object(o.insert("status_text"@, text_or_null(status_text)))
        },
        EventView::WebSocketFrame {
            request_id,
            url,
            direction,
            opcode,
            mask,
            payload_preview,
            payload_length,
            truncated,
        } => {
            let o = no_members().insert("type"@, JsonView::Text("websocket_frame"@));
            let o = o.insert("request_id"@, JsonView::Text(request_id));
            let o = o.insert("url"@, JsonView::Text(url));
            let o = o.insert("direction"@, JsonView::Text(direction_name(direction)));
            let o = o.insert("opcode"@, u8_json(opcode));
            let o = o.insert("mask"@, bool_json(mask));
            let o = o.insert("payload_preview"@, JsonView::Text(payload_preview));
            let o = o.insert("payload_length"@, JsonView::Unsigned(payload_length as u64));
            JsonView::Object(o.insert("truncated"@, JsonView::Bool(truncated)))
        },
        EventView::WebSocketClose { request_id, url } => JsonView::Object(
            no_members().insert("type"@, JsonView::Text("websocket_close"@)).insert(
                "request_id"@,
                JsonView::Text(request_id),
            ).insert("url"@, JsonView::Text(url)),
        ),
        EventView::Log { level, message, data } => JsonView::Object(
            no_members().insert("type"@, JsonView::Text("log"@)).insert(
                "level"@,
                JsonView::Text(level),
            ).insert("message"@, JsonView::Text(message)).insert("data"@, value_json(data)),
        ),
        EventView::Unknown { payload, .. } => payload,
    }
}

/// The names of the members that events are written with are ordinary ones.
proof fn lemma_member_names_are_ordinary()
    ensures
        ordinary_name("actionable"@),
        ordinary_name("actions"@),
        ordinary_name("attrs"@),
        ordinary_name("changes"@),
        ordinary_name("children"@),
        ordinary_name("control_type"@),
        ordinary_name("data"@),
        ordinary_name("direction"@),
        ordinary_name("disabled"@),
        ordinary_name("error_text"@),
        ordinary_name("from_cache"@),
        ordinary_name("id"@),
        ordinary_name("kind"@),
        ordinary_name("label"@),
        ordinary_name("level"@),
        ordinary_name("mask"@),
        ordinary_name("message"@),
        ordinary_name("method"@),
        ordinary_name("mime_type"@),
        ordinary_name("name"@),
        ordinary_name("opcode"@),
        ordinary_name("payload_length"@),
        ordinary_name("payload_preview"@),
        ordinary_name("phase"@),
        ordinary_name("request_id"@),
        ordinary_name("resource_type"@),
        ordinary_name("role"@),
        ordinary_name("semantic"@),
        ordinary_name("status"@),
        ordinary_name("status_text"@),
        ordinary_name("tag"@),
        ordinary_name("text"@),
        ordinary_name("truncated"@),
        ordinary_name("type"@),
        ordinary_name("url"@),
        ordinary_name("value"@),
        ordinary_name("visible"@),
{
    reveal_strlit("actionable");
    assert("actionable"@[0] == 'a');
    lemma_ordinary_name("actionable"@);
    reveal_strlit("actions");
    assert("actions"@[0] == 'a');
    lemma_ordinary_name("actions"@);
    reveal_strlit("attrs");
    assert("attrs"@[0] == 'a');
    lemma_ordinary_name("attrs"@);
    reveal_strlit("changes");
    assert("changes"@[0] == 'c');
    lemma_ordinary_name("changes"@);
    reveal_strlit("children");
    assert("children"@[0] == 'c');
    lemma_ordinary_name("children"@);
    reveal_strlit("control_type");
    assert("control_type"@[0] == 'c');
    lemma_ordinary_name("control_type"@);
    reveal_strlit("data");
    assert("data"@[0] == 'd');
    lemma_ordinary_name("data"@);
    reveal_strlit("direction");
    assert("direction"@[0] == 'd');
    lemma_ordinary_name("direction"@);
    reveal_strlit("disabled");
    assert("disabled"@[0] == 'd');
    lemma_ordinary_name("disabled"@);
    reveal_strlit("error_text");
    assert("error_text"@[0] == 'e');
    lemma_ordinary_name("error_text"@);
    reveal_strlit("from_cache");
    assert("from_cache"@[0] == 'f');
    lemma_ordinary_name("from_cache"@);
    reveal_strlit("id");
    assert("id"@[0] == 'i');
    lemma_ordinary_name("id"@);
    reveal_strlit("kind");
    assert("kind"@[0] == 'k');
    lemma_ordinary_name("kind"@);
    reveal_strlit("label");
    assert("label"@[0] == 'l');
    lemma_ordinary_name("label"@);
    reveal_strlit("level");
    assert("level"@[0] == 'l');
    lemma_ordinary_name("level"@);
    reveal_strlit("mask");
    assert("mask"@[0] == 'm');
    lemma_ordinary_name("mask"@);
    reveal_strlit("message");
    assert("message"@[0] == 'm');
    lemma_ordinary_name("message"@);
    reveal_strlit("method");
    assert("method"@[0] == 'm');
    lemma_ordinary_name("method"@);
    reveal_strlit("mime_type");
    assert("mime_type"@[0] == 'm');
    lemma_ordinary_name("mime_type"@);
    reveal_strlit("name");
    assert("name"@[0] == 'n');
    lemma_ordinary_name("name"@);
    reveal_strlit("opcode");
    assert("opcode"@[0] == 'o');
    lemma_ordinary_name("opcode"@);
    reveal_strlit("payload_length");
    assert("payload_length"@[0] == 'p');
    lemma_ordinary_name("payload_length"@);
    reveal_strlit("payload_preview");
    assert("payload_preview"@[0] == 'p');
    lemma_ordinary_name("payload_preview"@);
    reveal_strlit("phase");
    assert("phase"@[0] == 'p');
    lemma_ordinary_name("phase"@);
    reveal_strlit("request_id");
    assert("request_id"@[0] == 'r');
    lemma_ordinary_name("request_id"@);
    reveal_strlit("resource_type");
    assert("resource_type"@[0] == 'r');
    lemma_ordinary_name("resource_type"@);
    reveal_strlit("role");
    assert("role"@[0] == 'r');
    lemma_ordinary_name("role"@);
    reveal_strlit("semantic");
    assert("semantic"@[0] == 's');
    lemma_ordinary_name("semantic"@);
    reveal_strlit("status");
    assert("status"@[0] == 's');
    lemma_ordinary_name("status"@);
    reveal_strlit("status_text");
    assert("status_text"@[0] == 's');
    lemma_ordinary_name("status_text"@);
    reveal_strlit("tag");
    assert("tag"@[0] == 't');
    lemma_ordinary_name("tag"@);
    reveal_strlit("text");
    assert("text"@[0] == 't');
    lemma_ordinary_name("text"@);
    reveal_strlit("truncated");
    assert("truncated"@[0] == 't');
    lemma_ordinary_name("truncated"@);
    reveal_strlit("type");
    assert("type"@[0] == 't');
    lemma_ordinary_name("type"@);
    reveal_strlit("url");
    assert("url"@[0] == 'u');
    lemma_ordinary_name("url"@);
    reveal_strlit("value");
    assert("value"@[0] == 'v');
    lemma_ordinary_name("value"@);
    reveal_strlit("visible");
    assert("visible"@[0] == 'v');
    lemma_ordinary_name("visible"@);
}

pub(crate) fn put_some_text(entries: &mut Vec<(String, JsonValue)>, name: &str, value: &Option<String>)
    ensures
        members_map(entries_view(final(entries)@)) == insert_some(
            members_map(entries_view(old(entries)@)),
            name@,
            some_text(opt_text(*value)),
        ),
        forall|depth: nat| #[trigger]
            readable_members(members_map(entries_view(old(entries)@)), depth) && ordinary_name(name@)
                ==> readable_members(members_map(entries_view(final(entries)@)), depth),
{
    if let Some(v) = value {
        put(entries, name, JsonValue::Text(v.clone()));
    }
}

fn start_object(tag_name: &str, tag: &str) -> (res: Vec<(String, JsonValue)>)
    ensures
        members_map(entries_view(res@)) == no_members().insert(tag_name@, JsonView::Text(tag@)),
        ordinary_name(tag_name@) ==> forall|depth: nat| #[trigger]
            readable_members(members_map(entries_view(res@)), depth),
{
    let mut entries: Vec<(String, JsonValue)> = Vec::new();
    assert(members_map(entries_view(entries@)) =~= no_members());
    put(&mut entries, tag_name, JsonValue::text(tag));
    proof {
        if ordinary_name(tag_name@) {
            assert forall|depth: nat| #[trigger] readable_members(
                members_map(entries_view(entries@)),
                depth,
            ) by {
                assert(reads_back(JsonView::Text(tag@), depth));
            }
        }
    }
    entries
}

fn texts_to_json(list: &Vec<String>) -> (res: JsonValue)
    ensures
        res@ == texts_json(texts(list@)),
        forall|depth: nat| depth > 0 ==> #[trigger] reads_back(res@, depth),
{
    let mut items: Vec<JsonValue> = Vec::new();
    let mut i: usize = 0;
    while i < list.len()
        invariant
            i <= list@.len(),
            items@.len() == i,
            forall|j: int|
                0 <= j < i ==> (#[trigger] items@[j])@ == JsonView::Text(list@[j]@) && items@[j]
                    is Text,
        decreases list@.len() - i,
    {
        items.push(JsonValue::Text(list[i].clone()));
        i += 1;
    }
    assert(values_view(items@) =~= Seq::new(
        texts(list@).len(),
        |k: int| JsonView::Text(texts(list@)[k]),
    ));
    let res = array(items);
    proof {
        assert forall|depth: nat| depth > 0 implies #[trigger] reads_back(res@, depth) by {
            let inner = (depth - 1) as nat;
            assert(forall|k: int| 0 <= k < items@.len() ==> reads_back((#[trigger] items@[k])@, inner));
            assert(reads_back(res@, inner + 1));
        }
    }
    res
}

fn ids_to_json(list: &Vec<NodeId>) -> (res: JsonValue)
    ensures
        res@ == ids_json(list@),
        forall|depth: nat| depth > 0 ==> #[trigger] reads_back(res@, depth),
{
    let mut items: Vec<JsonValue> = Vec::new();
    let mut i: usize = 0;
    while i < list.len()
        invariant
            i <= list@.len(),
            items@.len() == i,
            forall|j: int| 0 <= j < i ==> #[trigger] items@[j] == JsonValue::Unsigned(list@[j]),
        decreases list@.len() - i,
    {
        items.push(JsonValue::Unsigned(list[i]));
        i += 1;
    }
    assert(values_view(items@) =~= Seq::new(list@.len(), |k: int| JsonView::Unsigned(list@[k])));
    let res = array(items);
    proof {
        assert forall|depth: nat| depth > 0 implies #[trigger] reads_back(res@, depth) by {
            let inner = (depth - 1) as nat;
            assert(forall|k: int| 0 <= k < items@.len() ==> reads_back((#[trigger] items@[k])@, inner));
            assert(reads_back(res@, inner + 1));
        }
    }
    res
}

pub(crate) fn attrs_to_json(attrs: &StringMap) -> (res: JsonValue)
    ensures
        res@ == attrs_json(attrs@),
        !attrs@.contains_key(reserved_name()) ==> reads_back(res@, 124),
{
    let mut entries: Vec<(String, JsonValue)> = Vec::new();
    let n: usize = attrs.len();
    let mut i: usize = 0;
    proof {
        assert(attrs.pairs().take(0) =~= Seq::empty());
        assert(members_map(entries_view(entries@)) =~= pairs_map(attrs.pairs().take(0)).map_values(
            |v: Seq<char>| JsonView::Text(v),
        ));
    }
    while i < n
        invariant
            i <= n,
            n == attrs.pairs().len(),
            members_map(entries_view(entries@)) == pairs_map(
                attrs.pairs().take(i as int),
            ).map_values(|v: Seq<char>| JsonView::Text(v)),
            !attrs@.contains_key(reserved_name()) ==> readable_members(members_map(entries_view(entries@)), 123),
        decreases n - i,
    {
        let ghost before = members_map(entries_view(entries@));
        let key = attrs.key_at(i);
        let value = attrs.value_at(i);
        put(&mut entries, key.as_str(), JsonValue::Text(value.clone()));
        proof {
            let done = attrs.pairs().take(i as int);
            let next = attrs.pairs().take(i + 1);
            assert(next.drop_last() =~= done);
            lemma_pairs_map_domain(attrs.pairs());
            assert(attrs.pairs()[i as int].0 == key@);
            assert(attrs@.contains_key(key@));
            assert(before.insert(key@, JsonView::Text(value@)) =~= pairs_map(done).insert(
                key@,
                value@,
            ).map_values(|v: Seq<char>| JsonView::Text(v)));
        }
        i += 1;
    }
    assert(attrs.pairs().take(i as int) =~= attrs.pairs());
    object(entries)
}

fn semantics_to_json(s: &DomNodeSemantics) -> (res: JsonValue)
    ensures
        res@ == semantics_json(s@),
        reads_back(res@, 124),
{
    let mut entries: Vec<(String, JsonValue)> = Vec::new();
    proof {
        lemma_member_names_are_ordinary();
    }
    assert(members_map(entries_view(entries@)) =~= no_members());
    assert(readable_members(members_map(entries_view(entries@)), 123));
    put_some_text(&mut entries, "role", &s.role);
    put_some_text(&mut entries, "name", &s.name);
    put_some_text(&mut entries, "label", &s.label);
    put_some_text(&mut entries, "control_type", &s.control_type);
    put(&mut entries, "actionable", JsonValue::Bool(s.actionable));
    put(&mut entries, "disabled", JsonValue::Bool(s.disabled));
    put(&mut entries, "visible", JsonValue::Bool(s.visible));
    if s.actions.len() > 0 {
        put(&mut entries, "actions", texts_to_json(&s.actions));
    }
    assert(readable_members(members_map(entries_view(entries@)), 123));
    object(entries)
}

/// Whether a change is read back as it is written: no attribute has the reserved name.
pub open spec fn mutation_reads_back(m: DomMutation) -> bool {
    match m {
        DomMutation::Upsert { attrs, .. } => !attrs@.contains_key(reserved_name()),
        _ => true,
    }
}

fn mutation_to_json(m: &DomMutation) -> (res: JsonValue)
    ensures
        res@ == mutation_json(m@),
        mutation_reads_back(*m) ==> reads_back(res@, 125),
{
    proof {
        lemma_member_names_are_ordinary();
    }
    let entries = match m {
        DomMutation::Upsert { id, tag, attrs, text, semantic, children } => {
            let mut entries = start_object("kind", "upsert");
            assert(readable_members(members_map(entries_view(entries@)), 124));
            put(&mut entries, "id", JsonValue::Unsigned(*id));
            put(&mut entries, "tag", JsonValue::Text(tag.clone()));
            put(&mut entries, "attrs", attrs_to_json(attrs));
            put_some_text(&mut entries, "text", text);
            if let Some(s) = semantic {
                put(&mut entries, "semantic", semantics_to_json(s));
            }
            put(&mut entries, "children", ids_to_json(children));
            entries
        },
        DomMutation::Remove { id } => {
            let mut entries = start_object("kind", "remove");
            assert(readable_members(members_map(entries_view(entries@)), 124));
            put(&mut entries, "id", JsonValue::Unsigned(*id));
            entries
        },
        DomMutation::SetText { id, text } => {
            let mut entries = start_object("kind", "set_text");
            assert(readable_members(members_map(entries_view(entries@)), 124));
            put(&mut entries, "id", JsonValue::Unsigned(*id));
            put(&mut entries, "text", JsonValue::opt_text(text));
            entries
        },
        DomMutation::SetAttr { id, name, value } => {
            let mut entries = start_object("kind", "set_attr");
            assert(readable_members(members_map(entries_view(entries@)), 124));
            put(&mut entries, "id", JsonValue::Unsigned(*id));
            put(&mut entries, "name", JsonValue::Text(name.clone()));
            put(&mut entries, "value", JsonValue::opt_text(value));
            entries
        },
        DomMutation::SetChildren { id, children } => {
            let mut entries = start_object("kind", "set_children");
            assert(readable_members(members_map(entries_view(entries@)), 124));
            put(&mut entries, "id", JsonValue::Unsigned(*id));
            put(&mut entries, "children", ids_to_json(children));
            entries
        },
    };
    assert(mutation_reads_back(*m) ==> readable_members(members_map(entries_view(entries@)), 124));
    object(entries)
}

fn mutations_to_json(list: &Vec<DomMutation>) -> (res: JsonValue)
    ensures
        res@ == mutations_json(mutations_view(list@)),
        (forall|i: int| 0 <= i < list@.len() ==> mutation_reads_back(#[trigger] list@[i]))
            ==> reads_back(res@, 126),
{
    let mut items: Vec<JsonValue> = Vec::new();
    let mut i: usize = 0;
    while i < list.len()
        invariant
            i <= list@.len(),
            items@.len() == i,
            forall|j: int|
                0 <= j < i ==> (#[trigger] items@[j])@ == mutation_json(list@[j]@) && (
                mutation_reads_back(list@[j]) ==> reads_back(items@[j]@, 125)),
        decreases list@.len() - i,
    {
        items.push(mutation_to_json(&list[i]));
        i += 1;
    }
    let ghost views = mutations_view(list@);
    assert(values_view(items@) =~= Seq::new(views.len(), |k: int| mutation_json(views[k])));
    let res = array(items);
    proof {
        if forall|i: int| 0 <= i < list@.len() ==> mutation_reads_back(#[trigger] list@[i]) {
            assert forall|k: int| 0 <= k < items@.len() implies reads_back(
                (#[trigger] items@[k])@,
                125,
            ) by {
                assert(mutation_reads_back(list@[k]));
            }
            assert(reads_back(res@, (125 + 1) as nat));
        }
    }
    res
}

fn phase_str(p: NetworkResourcePhase) -> (res: &'static str)
    ensures
        res@ == phase_name(p),
{
    match p {
        NetworkResourcePhase::Request => "request",
        NetworkResourcePhase::Response => "response",
        NetworkResourcePhase::Finished => "finished",
        NetworkResourcePhase::Failed => "failed",
    }
}

fn direction_str(d: WebSocketFrameDirection) -> (res: &'static str)
    ensures
        res@ == direction_name(d),
{
    match d {
        WebSocketFrameDirection::Sent => "sent",
        WebSocketFrameDirection::Received => "received",
    }
}

fn opt_bool_value(b: Option<bool>) -> (res: JsonValue)
    ensures
        res@ == bool_json(b),
        !(res is Array || res is Object || res is Fraction || res is Negative),
{
    match b {
        Some(x) => JsonValue::Bool(x),
        None => JsonValue::Null,
    }
}

fn opt_u16_value(n: Option<u16>) -> (res: JsonValue)
    ensures
        res@ == u16_json(n),
        !(res is Array || res is Object || res is Fraction || res is Negative),
{
    match n {
        Some(x) => JsonValue::Unsigned(x as u64),
        None => JsonValue::Null,
    }
}

fn opt_u8_value(n: Option<u8>) -> (res: JsonValue)
    ensures
        res@ == u8_json(n),
        !(res is Array || res is Object || res is Fraction || res is Negative),
{
    match n {
        Some(x) => JsonValue::Unsigned(x as u64),
        None => JsonValue::Null,
    }
}

/// Whether what an event holds is read back as it is written.
pub open spec fn event_reads_back(e: RuntimeEvent) -> bool {
    match e {
        RuntimeEvent::DomMutation { changes } => forall|i: int|
            0 <= i < changes@.len() ==> mutation_reads_back(#[trigger] changes@[i]),
        RuntimeEvent::Log { data: Some(d), .. } => reads_back(d@, 126),
        RuntimeEvent::Unknown { payload, .. } => reads_back(payload@, 127),
        _ => true,
    }
}

impl RuntimeEvent {
    /// The JSON form of an event.
    pub fn to_json(&self) -> (res: JsonValue)
        ensures
            res@ == event_json(self@),
            event_reads_back(*self) ==> reads_back(res@, 127),
    {
        proof {
            lemma_member_names_are_ordinary();
        }
        let entries = match self {
            RuntimeEvent::DomMutation { changes } => {
                let mut entries = start_object("type", "dom_mutation");
                assert(readable_members(members_map(entries_view(entries@)), 126));
                put(&mut entries, "changes", mutations_to_json(changes));
                entries
            },
            RuntimeEvent::Navigation { url } => {
                let mut entries = start_object("type", "navigation");
                assert(readable_members(members_map(entries_view(entries@)), 126));
                put(&mut entries, "url", JsonValue::Text(url.clone()));
                entries
            },
            RuntimeEvent::Network {
                request_id,
                url,
                method,
                resource_type,
                phase,
                status,
                status_text,
                mime_type,
                from_cache,
                error_text,
            } => {
                let mut entries = start_object("type", "network");
                assert(readable_members(members_map(entries_view(entries@)), 126));
                put(&mut entries, "request_id", JsonValue::Text(request_id.clone()));
                put(&mut entries, "url", JsonValue::Text(url.clone()));
                put(&mut entries, "method", JsonValue::opt_text(method));
                put(&mut entries, "resource_type", JsonValue::opt_text(resource_type));
                let phase_value = match phase {
                    Some(p) => JsonValue::text(phase_str(*p)),
                    None => JsonValue::Null,
                };
                put(&mut entries, "phase", phase_value);
                put(&mut entries, "status", opt_u16_value(*status));
                put(&mut entries, "status_text", JsonValue::opt_text(status_text));
                put(&mut entries, "mime_type", JsonValue::opt_text(mime_type));
                put(&mut entries, "from_cache", opt_bool_value(*from_cache));
                put(&mut entries, "error_text", JsonValue::opt_text(error_text));
                entries
            },
            RuntimeEvent::WebSocketOpen { request_id, url } => {
                let mut entries = start_object("type", "websocket_open");
                assert(readable_members(members_map(entries_view(entries@)), 126));
                put(&mut entries, "request_id", JsonValue::Text(request_id.clone()));
                put(&mut entries, "url", JsonValue::Text(url.clone()));
                entries
            },
            RuntimeEvent::WebSocketHandshake { request_id, url, status, status_text } => {
                let mut entries = start_object("type", "websocket_handshake");
                assert(readable_members(members_map(entries_view(entries@)), 126));
                put(&mut entries, "request_id", JsonValue::Text(request_id.clone()));
                put(&mut entries, "url", JsonValue::Text(url.clone()));
                put(&mut entries, "status", opt_u16_value(*status));
                put(&mut entries, "status_text", JsonValue::opt_text(status_text));
                entries
            },
            RuntimeEvent::WebSocketFrame {
                request_id,
                url,
                direction,
                opcode,
                mask,
                payload_preview,
                payload_length,
                truncated,
            } => {
                let mut entries = start_object("type", "websocket_frame");
                assert(readable_members(members_map(entries_view(entries@)), 126));
                put(&mut entries, "request_id", JsonValue::Text(request_id.clone()));
                put(&mut entries, "url", JsonValue::Text(url.clone()));
                put(&mut entries, "direction", JsonValue::text(direction_str(*direction)));
                put(&mut entries, "opcode", opt_u8_value(*opcode));
                put(&mut entries, "mask", opt_bool_value(*mask));
                put(&mut entries, "payload_preview", JsonValue::Text(payload_preview.clone()));
                put(&mut entries, "payload_length", JsonValue::Unsigned(*payload_length as u64));
                put(&mut entries, "truncated", JsonValue::Bool(*truncated));
                entries
            },
            RuntimeEvent::WebSocketClose { request_id, url } => {
                let mut entries = start_object("type", "websocket_close");
                assert(readable_members(members_map(entries_view(entries@)), 126));
                put(&mut entries, "request_id", JsonValue::Text(request_id.clone()));
                put(&mut entries, "url", JsonValue::Text(url.clone()));
                entries
            },
            RuntimeEvent::Log { level, message, data } => {
                let mut entries = start_object("type", "log");
                assert(readable_members(members_map(entries_view(entries@)), 126));
                put(&mut entries, "level", JsonValue::Text(level.clone()));
                put(&mut entries, "message", JsonValue::Text(message.clone()));
                let value = match data {
                    Some(d) => d.clone(),
                    None => JsonValue::Null,
                };
                put(&mut entries, "data", value);
                entries
            },
            RuntimeEvent::Unknown { event_type: _, payload } => {
                return payload.clone();
            },
        };
        assert(event_reads_back(*self) ==> readable_members(members_map(entries_view(entries@)), 126));
        object(entries)
    }
}

/// The text of a required text field.
pub open spec fn read_text(f: Option<JsonView>) -> Option<Seq<char>> {
    text_of(f)
}

/// An optional text field: missing and null mean that there is none.
pub open spec fn read_opt_text(f: Option<JsonView>) -> Option<Option<Seq<char>>> {
    match f {
        None => Some(None),
        Some(JsonView::Null) => Some(None),
        Some(JsonView::Text(s)) => Some(Some(s)),
        _ => None,
    }
}

/// A required boolean field.
pub open spec fn read_bool(f: Option<JsonView>) -> Option<bool> {
    match f {
        Some(JsonView::Bool(b)) => Some(b),
        _ => None,
    }
}

/// A boolean field that is false where it is missing.
pub open spec fn read_flag(f: Option<JsonView>) -> Option<bool> {
    match f {
        None => Some(false),
        Some(JsonView::Bool(b)) => Some(b),
        _ => None,
    }
}

/// An optional boolean field.
pub open spec fn read_opt_bool(f: Option<JsonView>) -> Option<Option<bool>> {
    match f {
        None => Some(None),
        Some(JsonView::Null) => Some(None),
        Some(JsonView::Bool(b)) => Some(Some(b)),
        _ => None,
    }
}

/// A required number field.
pub open spec fn read_u64(f: Option<JsonView>) -> Option<u64> {
    match f {
        Some(JsonView::Unsigned(n)) => Some(n),
        _ => None,
    }
}

/// A required length.
pub open spec fn read_usize(f: Option<JsonView>) -> Option<usize> {
    match f {
        Some(JsonView::Unsigned(n)) => if n <= usize::MAX {
            Some(n as usize)
        } else {
            None
        },
        _ => None,
    }
}

/// An optional number field of 16 bits.
pub open spec fn read_opt_u16(f: Option<JsonView>) -> Option<Option<u16>> {
    match f {
        None => Some(None),
        Some(JsonView::Null) => Some(None),
        Some(JsonView::Unsigned(n)) => if n <= u16::MAX {
            Some(Some(n as u16))
        } else {
            None
        },
        _ => None,
    }
}

/// An optional number field of 8 bits.
pub open spec fn read_opt_u8(f: Option<JsonView>) -> Option<Option<u8>> {
    match f {
        None => Some(None),
        Some(JsonView::Null) => Some(None),
        Some(JsonView::Unsigned(n)) => if n <= u8::MAX {
            Some(Some(n as u8))
        } else {
            None
        },
        _ => None,
    }
}

/// An optional field of any kind: missing and null mean that there is none.
pub open spec fn read_opt_value(f: Option<JsonView>) -> Option<JsonView> {
    match f {
        Some(JsonView::Null) => None,
        _ => f,
    }
}

/// The members of an object that names one value and nothing else.
pub open spec fn single_name(name: Seq<char>) -> Map<Seq<char>, JsonView> {
    no_members().insert(name, JsonView::Null)
}

/// The name of an enumerated value: a text, or an object whose one member is null.
pub open spec fn is_named(v: JsonView, name: Seq<char>) -> bool {
    match v {
        JsonView::Text(s) => s == name,
        JsonView::Object(m) => m == single_name(name),
        _ => false,
    }
}

/// The phase that a value names.
pub open spec fn read_phase(v: JsonView) -> Option<NetworkResourcePhase> {
    if is_named(v, "request"@) {
        Some(NetworkResourcePhase::Request)
    } else if is_named(v, "response"@) {
        Some(NetworkResourcePhase::Response)
    } else if is_named(v, "finished"@) {
        Some(NetworkResourcePhase::Finished)
    } else if is_named(v, "failed"@) {
        Some(NetworkResourcePhase::Failed)
    } else {
        None
    }
}

/// An optional phase.
pub open spec fn read_opt_phase(f: Option<JsonView>) -> Option<Option<NetworkResourcePhase>> {
    match f {
        None => Some(None),
        Some(JsonView::Null) => Some(None),
        Some(v) => match read_phase(v) {
            Some(p) => Some(Some(p)),
            None => None,
        },
    }
}

/// A required direction.
pub open spec fn read_direction(f: Option<JsonView>) -> Option<WebSocketFrameDirection> {
    match f {
        None => None,
        Some(v) => if is_named(v, "sent"@) {
            Some(WebSocketFrameDirection::Sent)
        } else if is_named(v, "received"@) {
            Some(WebSocketFrameDirection::Received)
        } else {
            None
        },
    }
}

/// A list of texts, empty where it is missing.
pub open spec fn read_texts(f: Option<JsonView>) -> Option<Seq<Seq<char>>> {
    match f {
        None => Some(Seq::empty()),
        Some(JsonView::Array(items)) => if forall|i: int|
            0 <= i < items.len() ==> (#[trigger] items[i]) is Text {
            Some(Seq::new(items.len(), |i: int| items[i]->Text_0))
        } else {
            None
        },
        _ => None,
    }
}

/// A list of identifiers.
pub open spec fn read_ids(f: Option<JsonView>) -> Option<Seq<NodeId>> {
    match f {
        Some(JsonView::Array(items)) => if forall|i: int|
            0 <= i < items.len() ==> (#[trigger] items[i]) is Unsigned {
            Some(Seq::new(items.len(), |i: int| items[i]->Unsigned_0))
        } else {
            None
        },
        _ => None,
    }
}

/// A list of identifiers, empty where it is missing.
pub open spec fn read_ids_or_none(f: Option<JsonView>) -> Option<Seq<NodeId>> {
    match f {
        None => Some(Seq::empty()),
        _ => read_ids(f),
    }
}

/// A map of attributes, empty where it is missing.
pub open spec fn read_attrs(f: Option<JsonView>) -> Option<Map<Seq<char>, Seq<char>>> {
    match f {
        None => Some(Map::empty()),
        Some(JsonView::Object(m)) => if forall|k: Seq<char>|
            m.contains_key(k) ==> (#[trigger] m[k]) is Text {
            Some(m.map_values(|v: JsonView| v->Text_0))
        } else {
            None
        },
        _ => None,
    }
}

/// The semantics that a value describes.
pub open spec fn read_semantics(v: JsonView) -> Option<SemanticsView> {
    let role = read_opt_text(record_field(v, "role"@, 0));
    let name = read_opt_text(record_field(v, "name"@, 1));
    let label = read_opt_text(record_field(v, "label"@, 2));
    let control_type = read_opt_text(record_field(v, "control_type"@, 3));
    let actionable = read_flag(record_field(v, "actionable"@, 4));
    let disabled = read_flag(record_field(v, "disabled"@, 5));
    let visible = read_flag(record_field(v, "visible"@, 6));
    let actions = read_texts(record_field(v, "actions"@, 7));
    if record_shape(v, 8) && role is Some && name is Some && label is Some && control_type is Some
        && actionable is Some && disabled is Some && visible is Some && actions is Some {
        Some(
            SemanticsView {
                role: role->Some_0,
                name: name->Some_0,
                label: label->Some_0,
                control_type: control_type->Some_0,
                actionable: actionable->Some_0,
                disabled: disabled->Some_0,
                visible: visible->Some_0,
                actions: actions->Some_0,
            },
        )
    } else {
        None
    }
}

/// Optional semantics.
pub open spec fn read_opt_semantics(f: Option<JsonView>) -> Option<Option<SemanticsView>> {
    match f {
        None => Some(None),
        Some(JsonView::Null) => Some(None),
        Some(v) => match read_semantics(v) {
            Some(s) => Some(Some(s)),
            None => None,
        },
    }
}

/// The kind of change that a value names: its member `kind`, or its first item.
pub open spec fn mutation_kind(v: JsonView) -> Option<Seq<char>> {
    text_of(record_field(v, "kind"@, 0))
}

/// The node that a value describes; its first field may be preceded by a kind.
pub open spec fn read_node(v: JsonView) -> Option<NodeView> {
    let id = read_u64(record_field(v, "id"@, 1));
    let tag = read_text(record_field(v, "tag"@, 2));
    let attrs = read_attrs(record_field(v, "attrs"@, 3));
    let text = read_opt_text(record_field(v, "text"@, 4));
    let semantic = read_opt_semantics(record_field(v, "semantic"@, 5));
    let children = read_ids_or_none(record_field(v, "children"@, 6));
    if record_shape(v, 7) && id is Some && tag is Some && attrs is Some && text is Some
        && semantic is Some && children is Some {
        Some(
            NodeView {
                id: id->Some_0,
                tag: tag->Some_0,
                attrs: attrs->Some_0,
                text: text->Some_0,
                semantic: semantic->Some_0,
                children: children->Some_0,
            },
        )
    } else {
        None
    }
}

/// A text field that an object may leave out, but a list may not.
pub open spec fn read_listed_opt_text(
    v: JsonView,
    name: Seq<char>,
    position: int,
) -> Option<Option<Seq<char>>> {
    if v is Array && record_field(v, name, position) is None {
        None
    } else {
        read_opt_text(record_field(v, name, position))
    }
}

/// The change that a value describes.
pub open spec fn read_mutation(v: JsonView) -> Option<MutationView> {
    let id = read_u64(record_field(v, "id"@, 1));
    match mutation_kind(v) {
        None => None,
        Some(kind) => if kind == "upsert"@ {
            match read_node(v) {
                Some(node) => Some(MutationView::Upsert { node }),
                None => None,
            }
        } else if kind == "remove"@ {
            if record_shape(v, 2) && id is Some {
                Some(MutationView::Remove { id: id->Some_0 })
            } else {
                None
            }
        } else if kind == "set_text"@ {
            let text = read_listed_opt_text(v, "text"@, 2);
            if record_shape(v, 3) && id is Some && text is Some {
                Some(MutationView::SetText { id: id->Some_0, text: text->Some_0 })
            } else {
                None
            }
        } else if kind == "set_attr"@ {
            let name = read_text(record_field(v, "name"@, 2));
            let value = read_listed_opt_text(v, "value"@, 3);
            if record_shape(v, 4) && id is Some && name is Some && value is Some {
                Some(
                    MutationView::SetAttr {
                        id: id->Some_0,
                        name: name->Some_0,
                        value: value->Some_0,
                    },
                )
            } else {
                None
            }
        } else if kind == "set_children"@ {
            let children = read_ids(record_field(v, "children"@, 2));
            if record_shape(v, 3) && id is Some && children is Some {
                Some(MutationView::SetChildren { id: id->Some_0, children: children->Some_0 })
            } else {
                None
            }
        } else {
            None
        },
    }
}

/// A required list of changes.
pub open spec fn read_mutations(f: Option<JsonView>) -> Option<Seq<MutationView>> {
    match f {
        Some(JsonView::Array(items)) => if forall|i: int|
            0 <= i < items.len() ==> read_mutation(#[trigger] items[i]) is Some {
            Some(Seq::new(items.len(), |i: int| read_mutation(items[i])->Some_0))
        } else {
            None
        },
        _ => None,
    }
}

/// The type that an event names; `unknown` where it names none.
pub open spec fn event_tag(v: JsonView) -> Seq<char> {
    match text_of(member(v, "type"@)) {
        Some(t) => t,
        None => "unknown"@,
    }
}

/// The network event that an object describes.
pub open spec fn read_network(v: JsonView) -> Option<EventView> {
    let request_id = read_text(member(v, "request_id"@));
    let url = read_text(member(v, "url"@));
    let method = read_opt_text(member(v, "method"@));
    let resource_type = read_opt_text(member(v, "resource_type"@));
    let phase = read_opt_phase(member(v, "phase"@));
    let status = read_opt_u16(member(v, "status"@));
    let status_text = read_opt_text(member(v, "status_text"@));
    let mime_type = read_opt_text(member(v, "mime_type"@));
    let from_cache = read_opt_bool(member(v, "from_cache"@));
    let error_text = read_opt_text(member(v, "error_text"@));
    if request_id is Some && url is Some && method is Some && resource_type is Some && phase is Some
        && status is Some && status_text is Some && mime_type is Some && from_cache is Some
        && error_text is Some {
        Some(
            EventView::Network {
                request_id: request_id->Some_0,
                url: url->Some_0,
                method: method->Some_0,
                resource_type: resource_type->Some_0,
                phase: phase->Some_0,
                status: status->Some_0,
                status_text: status_text->Some_0,
                mime_type: mime_type->Some_0,
                from_cache: from_cache->Some_0,
                error_text: error_text->Some_0,
            },
        )
    } else {
        None
    }
}

/// The WebSocket frame event that an object describes.
pub open spec fn read_frame(v: JsonView) -> Option<EventView> {
    let request_id = read_text(member(v, "request_id"@));
    let url = read_text(member(v, "url"@));
    let direction = read_direction(member(v, "direction"@));
    let opcode = read_opt_u8(member(v, "opcode"@));
    let mask = read_opt_bool(member(v, "mask"@));
    let payload_preview = read_text(member(v, "payload_preview"@));
    let payload_length = read_usize(member(v, "payload_length"@));
    let truncated = read_bool(member(v, "truncated"@));
    if request_id is Some && url is Some && direction is Some && opcode is Some && mask is Some
        && payload_preview is Some && payload_length is Some && truncated is Some {
        Some(
            EventView::WebSocketFrame {
                request_id: request_id->Some_0,
                url: url->Some_0,
                direction: direction->Some_0,
                opcode: opcode->Some_0,
                mask: mask->Some_0,
                payload_preview: payload_preview->Some_0,
                payload_length: payload_length->Some_0,
                truncated: truncated->Some_0,
            },
        )
    } else {
        None
    }
}

/// The event that a value describes. `None` where a value that names a known type lacks one
/// of its fields; a value that names no known type is kept whole.
pub open spec fn read_event(v: JsonView) -> Option<EventView> {
    let tag = event_tag(v);
    let request_id = read_text(member(v, "request_id"@));
    let url = read_text(member(v, "url"@));
    if tag == "dom_mutation"@ {
        match read_mutations(member(v, "changes"@)) {
            Some(changes) => Some(EventView::DomMutation { changes }),
            None => None,
        }
    } else if tag == "navigation"@ {
        match url {
            Some(u) => Some(EventView::Navigation { url: u }),
            None => None,
        }
    } else if tag == "network"@ {
        read_network(v)
    } else if tag == "websocket_open"@ {
        if request_id is Some && url is Some {
            Some(EventView::WebSocketOpen { request_id: request_id->Some_0, url: url->Some_0 })
        } else {
            None
        }
    } else if tag == "websocket_handshake"@ {
        let status = read_opt_u16(member(v, "status"@));
        let status_text = read_opt_text(member(v, "status_text"@));
        if request_id is Some && url is Some && status is Some && status_text is Some {
            Some(
                EventView::WebSocketHandshake {
                    request_id: request_id->Some_0,
                    url: url->Some_0,
                    status: status->Some_0,
                    status_text: status_text->Some_0,
                },
            )
        } else {
            None
        }
    } else if tag == "websocket_frame"@ {
        read_frame(v)
    } else if tag == "websocket_close"@ {
        if request_id is Some && url is Some {
            Some(EventView::WebSocketClose { request_id: request_id->Some_0, url: url->Some_0 })
        } else {
            None
        }
    } else if tag == "log"@ {
        let level = read_text(member(v, "level"@));
        let message = read_text(member(v, "message"@));
        if level is Some && message is Some {
            Some(
                EventView::Log {
                    level: level->Some_0,
                    message: message->Some_0,
                    data: read_opt_value(member(v, "data"@)),
                },
            )
        } else {
            None
        }
    } else {
        Some(EventView::Unknown { event_type: tag, payload: v })
    }
}

pub(crate) fn get_text(f: Option<&JsonValue>) -> (res: Option<String>)
    ensures
        opt_text(res) == read_text(opt_ref(f)),
{
    match f {
        Some(JsonValue::Text(s)) => Some(s.clone()),
        _ => None,
    }
}

/// The contents of an optional text that may have failed to be read.
pub open spec fn opt_opt_text(v: Option<Option<String>>) -> Option<Option<Seq<char>>> {
    match v {
        Some(t) => Some(opt_text(t)),
        None => None,
    }
}

pub(crate) fn get_opt_text(f: Option<&JsonValue>) -> (res: Option<Option<String>>)
    ensures
        opt_opt_text(res) == read_opt_text(opt_ref(f)),
{
    match f {
        None => Some(None),
        Some(JsonValue::Null) => Some(None),
        Some(JsonValue::Text(s)) => Some(Some(s.clone())),
        _ => None,
    }
}

pub(crate) fn get_bool(f: Option<&JsonValue>) -> (res: Option<bool>)
    ensures
        res == read_bool(opt_ref(f)),
{
    match f {
        Some(JsonValue::Bool(b)) => Some(*b),
        _ => None,
    }
}

fn get_flag(f: Option<&JsonValue>) -> (res: Option<bool>)
    ensures
        res == read_flag(opt_ref(f)),
{
    match f {
        None => Some(false),
        Some(JsonValue::Bool(b)) => Some(*b),
        _ => None,
    }
}

fn get_opt_bool(f: Option<&JsonValue>) -> (res: Option<Option<bool>>)
    ensures
        res == read_opt_bool(opt_ref(f)),
{
    match f {
        None => Some(None),
        Some(JsonValue::Null) => Some(None),
        Some(JsonValue::Bool(b)) => Some(Some(*b)),
        _ => None,
    }
}

pub(crate) fn get_u64(f: Option<&JsonValue>) -> (res: Option<u64>)
    ensures
        res == read_u64(opt_ref(f)),
{
    match f {
        Some(JsonValue::Unsigned(n)) => Some(*n),
        _ => None,
    }
}

pub(crate) fn get_usize(f: Option<&JsonValue>) -> (res: Option<usize>)
    ensures
        res == read_usize(opt_ref(f)),
{
    match f {
        Some(JsonValue::Unsigned(n)) => if *n <= usize::MAX as u64 {
            Some(*n as usize)
        } else {
            None
        },
        _ => None,
    }
}

fn get_opt_u16(f: Option<&JsonValue>) -> (res: Option<Option<u16>>)
    ensures
        res == read_opt_u16(opt_ref(f)),
{
    match f {
        None => Some(None),
        Some(JsonValue::Null) => Some(None),
        Some(JsonValue::Unsigned(n)) => if *n <= 65535 {
            Some(Some(*n as u16))
        } else {
            None
        },
        _ => None,
    }
}

fn get_opt_u8(f: Option<&JsonValue>) -> (res: Option<Option<u8>>)
    ensures
        res == read_opt_u8(opt_ref(f)),
{
    match f {
        None => Some(None),
        Some(JsonValue::Null) => Some(None),
        Some(JsonValue::Unsigned(n)) => if *n <= 255 {
            Some(Some(*n as u8))
        } else {
            None
        },
        _ => None,
    }
}

fn get_opt_value(f: Option<&JsonValue>) -> (res: Option<JsonValue>)
    ensures
        opt_json(res) == read_opt_value(opt_ref(f)),
{
    match f {
        None => None,
        Some(v) => if v.is_null() {
            None
        } else {
            Some(v.clone())
        },
    }
}

/// An object all of whose members have one name holds the last of them, and only that.
proof fn lemma_one_name(pairs: Seq<(Seq<char>, JsonView)>, name: Seq<char>)
    requires
        pairs.len() > 0,
        forall|i: int| 0 <= i < pairs.len() ==> (#[trigger] pairs[i]).0 == name,
    ensures
        members_map(pairs) == no_members().insert(name, pairs.last().1),
    decreases pairs.len(),
{
    let init = pairs.drop_last();
    assert(pairs[pairs.len() - 1].0 == name);
    if init.len() > 0 {
        assert forall|i: int| 0 <= i < init.len() implies (#[trigger] init[i]).0 == name by {
            assert(pairs[i].0 == name);
        }
        lemma_one_name(init, name);
    }
    assert(members_map(pairs) == members_map(init).insert(name, pairs.last().1));
    assert(members_map(pairs) =~= no_members().insert(name, pairs.last().1));
}

/// Every member of a list is a member of its object.
pub(crate) proof fn lemma_member_present(pairs: Seq<(Seq<char>, JsonView)>, i: int)
    requires
        0 <= i < pairs.len(),
    ensures
        members_map(pairs).contains_key(pairs[i].0),
    decreases pairs.len(),
{
    if i < pairs.len() - 1 {
        lemma_member_present(pairs.drop_last(), i);
    }
}

/// Every member of an object is a member of its list.
pub(crate) proof fn lemma_member_listed(pairs: Seq<(Seq<char>, JsonView)>, name: Seq<char>)
    requires
        members_map(pairs).contains_key(name),
    ensures
        exists|i: int| 0 <= i < pairs.len() && (#[trigger] pairs[i]).0 == name,
    decreases pairs.len(),
{
    if pairs.len() > 0 {
        if pairs.last().0 == name {
            assert(pairs[pairs.len() - 1].0 == name);
        } else {
            let init = pairs.drop_last();
            lemma_member_listed(init, name);
            let i = choose|i: int| 0 <= i < init.len() && (#[trigger] init[i]).0 == name;
            assert(pairs[i].0 == name);
        }
    }
}

/// Whether a value names an enumerated value.
pub fn names(v: &JsonValue, name: &str) -> (res: bool)
    ensures
        res == is_named(v@, name@),
{
    broadcast use lemma_json_view;

    match v {
        JsonValue::Text(s) => str_eq(s.as_str(), name),
        JsonValue::Object(entries) => {
            let ghost pairs = entries_view(entries@);
            let mut i: usize = 0;
            while i < entries.len()
                invariant
                    i <= entries@.len(),
                    pairs == entries_view(entries@),
                    v@ == JsonView::Object(members_map(pairs)),
                    forall|j: int| 0 <= j < i ==> (#[trigger] pairs[j]).0 == name@,
                decreases entries@.len() - i,
            {
                if !str_eq(entries[i].0.as_str(), name) {
                    proof {
                        lemma_member_present(pairs, i as int);
                        assert(members_map(pairs).contains_key(pairs[i as int].0));
                        assert(!single_name(name@).contains_key(pairs[i as int].0));
                    }
                    return false;
                }
                i += 1;
            }
            if entries.len() == 0 {
                assert(single_name(name@).contains_key(name@));
                return false;
            }
            proof {
                lemma_one_name(pairs, name@);
                assert(single_name(name@)[name@] == JsonView::Null);
            }
            entries[entries.len() - 1].1.is_null()
        },
        _ => false,
    }
}

fn get_opt_phase(f: Option<&JsonValue>) -> (res: Option<Option<NetworkResourcePhase>>)
    ensures
        res == read_opt_phase(opt_ref(f)),
{
    match f {
        None => Some(None),
        Some(v) => if v.is_null() {
            Some(None)
        } else if names(v, "request") {
            Some(Some(NetworkResourcePhase::Request))
        } else if names(v, "response") {
            Some(Some(NetworkResourcePhase::Response))
        } else if names(v, "finished") {
            Some(Some(NetworkResourcePhase::Finished))
        } else if names(v, "failed") {
            Some(Some(NetworkResourcePhase::Failed))
        } else {
            None
        },
    }
}

fn get_direction(f: Option<&JsonValue>) -> (res: Option<WebSocketFrameDirection>)
    ensures
        res == read_direction(opt_ref(f)),
{
    match f {
        None => None,
        Some(v) => if names(v, "sent") {
            Some(WebSocketFrameDirection::Sent)
        } else if names(v, "received") {
            Some(WebSocketFrameDirection::Received)
        } else {
            None
        },
    }
}

/// The contents of an optional list of texts.
pub open spec fn opt_texts(v: Option<Vec<String>>) -> Option<Seq<Seq<char>>> {
    match v {
        Some(list) => Some(texts(list@)),
        None => None,
    }
}

pub(crate) fn get_texts(f: Option<&JsonValue>) -> (res: Option<Vec<String>>)
    ensures
        opt_texts(res) == read_texts(opt_ref(f)),
{
    broadcast use lemma_json_view;

    match f {
        None => {
            let out: Vec<String> = Vec::new();
            assert(texts(out@) =~= Seq::<Seq<char>>::empty());
            Some(out)
        },
        Some(JsonValue::Array(items)) => {
            let ghost views = values_view(items@);
            let mut out: Vec<String> = Vec::new();
            let mut i: usize = 0;
            while i < items.len()
                invariant
                    i <= items@.len(),
                    views == values_view(items@),
                    opt_ref(f) == Some(JsonView::Array(views)),
                    out@.len() == i,
                    forall|j: int|
                        0 <= j < i ==> (#[trigger] views[j]) is Text && out@[j]@
                            == views[j]->Text_0,
                decreases items@.len() - i,
            {
                match &items[i] {
                    JsonValue::Text(s) => {
                        assert(views[i as int] == JsonView::Text(s@));
                        out.push(s.clone());
                    },
                    _ => {
                        assert(!(views[i as int] is Text));
                        return None;
                    },
                }
                i += 1;
            }
            assert(texts(out@) =~= Seq::new(views.len(), |k: int| views[k]->Text_0));
            Some(out)
        },
        _ => None,
    }
}

/// The contents of an optional list of identifiers.
pub open spec fn opt_ids(v: Option<Vec<NodeId>>) -> Option<Seq<NodeId>> {
    match v {
        Some(list) => Some(list@),
        None => None,
    }
}

fn get_ids(f: Option<&JsonValue>) -> (res: Option<Vec<NodeId>>)
    ensures
        opt_ids(res) == read_ids(opt_ref(f)),
{
    broadcast use lemma_json_view;

    match f {
        Some(JsonValue::Array(items)) => {
            let ghost views = values_view(items@);
            let mut out: Vec<NodeId> = Vec::new();
            let mut i: usize = 0;
            while i < items.len()
                invariant
                    i <= items@.len(),
                    views == values_view(items@),
                    opt_ref(f) == Some(JsonView::Array(views)),
                    out@.len() == i,
                    forall|j: int|
                        0 <= j < i ==> (#[trigger] views[j]) is Unsigned && out@[j]
                            == views[j]->Unsigned_0,
                decreases items@.len() - i,
            {
                match &items[i] {
                    JsonValue::Unsigned(n) => {
                        assert(views[i as int] == JsonView::Unsigned(*n));
                        out.push(*n);
                    },
                    _ => {
                        assert(!(views[i as int] is Unsigned));
                        return None;
                    },
                }
                i += 1;
            }
            assert(out@ =~= Seq::new(views.len(), |k: int| views[k]->Unsigned_0));
            Some(out)
        },
        _ => None,
    }
}

fn get_ids_or_none(f: Option<&JsonValue>) -> (res: Option<Vec<NodeId>>)
    ensures
        opt_ids(res) == read_ids_or_none(opt_ref(f)),
{
    match f {
        None => {
            let out: Vec<NodeId> = Vec::new();
            assert(out@ =~= Seq::<NodeId>::empty());
            Some(out)
        },
        _ => get_ids(f),
    }
}

/// The contents of an optional map.
pub open spec fn opt_map(v: Option<StringMap>) -> Option<Map<Seq<char>, Seq<char>>> {
    match v {
        Some(m) => Some(m@),
        None => None,
    }
}

fn get_attrs(f: Option<&JsonValue>) -> (res: Option<StringMap>)
    ensures
        opt_map(res) == read_attrs(opt_ref(f)),
{
    broadcast use lemma_json_view;

    match f {
        None => Some(StringMap::new()),
        Some(v) => match v {
            JsonValue::Object(entries) => {
                let ghost pairs = entries_view(entries@);
                let ghost m = members_map(pairs);
                let mut out = StringMap::new();
                let mut i: usize = 0;
                while i < entries.len()
                    invariant
                        i <= entries@.len(),
                        pairs == entries_view(entries@),
                        m == members_map(pairs),
                        v@ == JsonView::Object(m),
                        f == Some(v),
                        forall|k: Seq<char>| #[trigger]
                            out@.contains_key(k) <==> exists|j: int|
                                0 <= j < i && (#[trigger] pairs[j]).0 == k,
                        forall|k: Seq<char>| #[trigger]
                            out@.contains_key(k) ==> m.contains_key(k) && m[k] is Text && out@[k]
                                == m[k]->Text_0,
                    decreases entries@.len() - i,
                {
                    let key = &entries[i].0;
                    proof {
                        lemma_member_present(pairs, i as int);
                        assert(pairs[i as int].0 == key@);
                    }
                    let ghost before = out@;
                    let got = v.get(key.as_str());
                    match got {
                        Some(JsonValue::Text(s)) => {
                            out.insert(key.clone(), s.clone());
                            assert(m[key@] == JsonView::Text(s@));
                        },
                        _ => {
                            assert(m.contains_key(key@) && !(m[key@] is Text));
                            return None;
                        },
                    }
                    proof {
                        assert forall|k: Seq<char>| #[trigger]
                            out@.contains_key(k) <==> exists|j: int|
                                0 <= j < i + 1 && (#[trigger] pairs[j]).0 == k by {
                            if out@.contains_key(k) {
                                if k == key@ {
                                    assert(pairs[i as int].0 == k);
                                } else {
                                    assert(before.contains_key(k));
                                    let j = choose|j: int|
                                        0 <= j < i && (#[trigger] pairs[j]).0 == k;
                                    assert(pairs[j].0 == k);
                                }
                            }
                            if exists|j: int| 0 <= j < i + 1 && (#[trigger] pairs[j]).0 == k {
                                let j = choose|j: int|
                                    0 <= j < i + 1 && (#[trigger] pairs[j]).0 == k;
                                if j < i {
                                    assert(pairs[j].0 == k);
                                    assert(before.contains_key(k));
                                }
                            }
                        }
                    }
                    i += 1;
                }
                proof {
                    assert forall|k: Seq<char>| #[trigger]
                        out@.contains_key(k) == m.contains_key(k) by {
                        if m.contains_key(k) {
                            lemma_member_listed(pairs, k);
                            let j = choose|j: int|
                                0 <= j < pairs.len() && (#[trigger] pairs[j]).0 == k;
                            assert(pairs[j].0 == k);
                        }
                    }
                    assert forall|k: Seq<char>| m.contains_key(k) implies (
                    #[trigger] m[k]) is Text by {
                        assert(out@.contains_key(k));
                    }
                    assert(out@ =~= m.map_values(|x: JsonView| x->Text_0));
                }
                Some(out)
            },
            _ => None,
        },
    }
}

/// The contents of optional semantics that may have failed to be read.
pub open spec fn opt_opt_semantics(v: Option<Option<DomNodeSemantics>>) -> Option<
    Option<SemanticsView>,
> {
    match v {
        Some(s) => Some(opt_semantics(s)),
        None => None,
    }
}

fn get_semantics(v: &JsonValue) -> (res: Option<DomNodeSemantics>)
    ensures
        opt_semantics(res) == read_semantics(v@),
{
    if !v.has_record_shape(8) {
        return None;
    }
    let role = get_opt_text(v.field("role", 0));
    let name = get_opt_text(v.field("name", 1));
    let label = get_opt_text(v.field("label", 2));
    let control_type = get_opt_text(v.field("control_type", 3));
    let actionable = get_flag(v.field("actionable", 4));
    let disabled = get_flag(v.field("disabled", 5));
    let visible = get_flag(v.field("visible", 6));
    let actions = get_texts(v.field("actions", 7));
    match (role, name, label, control_type, actionable, disabled, visible, actions) {
        (
            Some(role),
            Some(name),
            Some(label),
            Some(control_type),
            Some(actionable),
            Some(disabled),
            Some(visible),
            Some(actions),
        ) => Some(
            DomNodeSemantics {
                role,
                name,
                label,
                control_type,
                actionable,
                disabled,
                visible,
                actions,
            },
        ),
        _ => None,
    }
}

fn get_opt_semantics(f: Option<&JsonValue>) -> (res: Option<Option<DomNodeSemantics>>)
    ensures
        opt_opt_semantics(res) == read_opt_semantics(opt_ref(f)),
{
    match f {
        None => Some(None),
        Some(v) => if v.is_null() {
            Some(None)
        } else {
            match get_semantics(v) {
                Some(s) => Some(Some(s)),
                None => None,
            }
        },
    }
}

/// The contents of an optional change.
pub open spec fn opt_mutation(v: Option<DomMutation>) -> Option<MutationView> {
    match v {
        Some(m) => Some(m@),
        None => None,
    }
}

fn get_upsert(v: &JsonValue) -> (res: Option<DomMutation>)
    ensures
        match read_node(v@) {
            Some(node) => opt_mutation(res) == Some(MutationView::Upsert { node }),
            None => res is None,
        },
{
    if !v.has_record_shape(7) {
        return None;
    }
    let id = get_u64(v.field("id", 1));
    let tag = get_text(v.field("tag", 2));
    let attrs = get_attrs(v.field("attrs", 3));
    let text = get_opt_text(v.field("text", 4));
    let semantic = get_opt_semantics(v.field("semantic", 5));
    let children = get_ids_or_none(v.field("children", 6));
    match (id, tag, attrs, text, semantic, children) {
        (
            Some(id),
            Some(tag),
            Some(attrs),
            Some(text),
            Some(semantic),
            Some(children),
        ) => Some(DomMutation::Upsert { id, tag, attrs, text, semantic, children }),
        _ => None,
    }
}

pub(crate) fn get_listed_opt_text(v: &JsonValue, name: &str, position: usize) -> (res: Option<Option<String>>)
    ensures
        opt_opt_text(res) == read_listed_opt_text(v@, name@, position as int),
{
    let f = v.field(name, position);
    if f.is_none() && matches!(v, JsonValue::Array(_)) {
        None
    } else {
        get_opt_text(f)
    }
}

fn mutation_from_json(v: &JsonValue) -> (res: Option<DomMutation>)
    ensures
        opt_mutation(res) == read_mutation(v@),
{
    let kind = match get_text(v.field("kind", 0)) {
        Some(k) => k,
        None => {
            return None;
        },
    };
    let kind = kind.as_str();
    let id = get_u64(v.field("id", 1));
    if str_eq(kind, "upsert") {
        get_upsert(v)
    } else if str_eq(kind, "remove") {
        match id {
            Some(id) => if v.has_record_shape(2) {
                Some(DomMutation::Remove { id })
            } else {
                None
            },
            None => None,
        }
    } else if str_eq(kind, "set_text") {
        match (id, get_listed_opt_text(v, "text", 2)) {
            (Some(id), Some(text)) => if v.has_record_shape(3) {
                Some(DomMutation::SetText { id, text })
            } else {
                None
            },
            _ => None,
        }
    } else if str_eq(kind, "set_attr") {
        match (id, get_text(v.field("name", 2)), get_listed_opt_text(v, "value", 3)) {
            (Some(id), Some(name), Some(value)) => if v.has_record_shape(4) {
                Some(DomMutation::SetAttr { id, name, value })
            } else {
                None
            },
            _ => None,
        }
    } else if str_eq(kind, "set_children") {
        match (id, get_ids(v.field("children", 2))) {
            (Some(id), Some(children)) => if v.has_record_shape(3) {
                Some(DomMutation::SetChildren { id, children })
            } else {
                None
            },
            _ => None,
        }
    } else {
        None
    }
}

/// The contents of an optional list of changes.
pub open spec fn opt_mutations(v: Option<Vec<DomMutation>>) -> Option<Seq<MutationView>> {
    match v {
        Some(list) => Some(mutations_view(list@)),
        None => None,
    }
}

fn mutations_from_json(f: Option<&JsonValue>) -> (res: Option<Vec<DomMutation>>)
    ensures
        opt_mutations(res) == read_mutations(opt_ref(f)),
{
    broadcast use lemma_json_view;

    match f {
        Some(JsonValue::Array(items)) => {
            let ghost views = values_view(items@);
            let mut out: Vec<DomMutation> = Vec::new();
            let mut i: usize = 0;
            while i < items.len()
                invariant
                    i <= items@.len(),
                    views == values_view(items@),
                    opt_ref(f) == Some(JsonView::Array(views)),
                    out@.len() == i,
                    forall|j: int|
                        0 <= j < i ==> read_mutation(#[trigger] views[j]) == Some(out@[j]@),
                decreases items@.len() - i,
            {
                assert(views[i as int] == items@[i as int]@);
                match mutation_from_json(&items[i]) {
                    Some(m) => {
                        out.push(m);
                    },
                    None => {
                        assert(read_mutation(views[i as int]) is None);
                        return None;
                    },
                }
                i += 1;
            }
            assert(mutations_view(out@) =~= Seq::new(
                views.len(),
                |k: int| read_mutation(views[k])->Some_0,
            ));
            Some(out)
        },
        _ => None,
    }
}

/// The contents of an optional event.
pub open spec fn opt_event(v: Option<RuntimeEvent>) -> Option<EventView> {
    match v {
        Some(e) => Some(e@),
        None => None,
    }
}

fn network_from_json(v: &JsonValue) -> (res: Option<RuntimeEvent>)
    ensures
        opt_event(res) == read_network(v@),
{
    let request_id = get_text(v.get("request_id"));
    let url = get_text(v.get("url"));
    let method = get_opt_text(v.get("method"));
    let resource_type = get_opt_text(v.get("resource_type"));
    let phase = get_opt_phase(v.get("phase"));
    let status = get_opt_u16(v.get("status"));
    let status_text = get_opt_text(v.get("status_text"));
    let mime_type = get_opt_text(v.get("mime_type"));
    let from_cache = get_opt_bool(v.get("from_cache"));
    let error_text = get_opt_text(v.get("error_text"));
    match (
        request_id,
        url,
        method,
        resource_type,
        phase,
        status,
        status_text,
        mime_type,
        from_cache,
        error_text,
    ) {
        (
            Some(request_id),
            Some(url),
            Some(method),
            Some(resource_type),
            Some(phase),
            Some(status),
            Some(status_text),
            Some(mime_type),
            Some(from_cache),
            Some(error_text),
        ) => Some(
            RuntimeEvent::Network {
                request_id,
                url,
                method,
                resource_type,
                phase,
                status,
                status_text,
                mime_type,
                from_cache,
                error_text,
            },
        ),
        _ => None,
    }
}

fn frame_from_json(v: &JsonValue) -> (res: Option<RuntimeEvent>)
    ensures
        opt_event(res) == read_frame(v@),
{
    let request_id = get_text(v.get("request_id"));
    let url = get_text(v.get("url"));
    let direction = get_direction(v.get("direction"));
    let opcode = get_opt_u8(v.get("opcode"));
    let mask = get_opt_bool(v.get("mask"));
    let payload_preview = get_text(v.get("payload_preview"));
    let payload_length = get_usize(v.get("payload_length"));
    let truncated = get_bool(v.get("truncated"));
    match (
        request_id,
        url,
        direction,
        opcode,
        mask,
        payload_preview,
        payload_length,
        truncated,
    ) {
        (
            Some(request_id),
            Some(url),
            Some(direction),
            Some(opcode),
            Some(mask),
            Some(payload_preview),
            Some(payload_length),
            Some(truncated),
        ) => Some(
            RuntimeEvent::WebSocketFrame {
                request_id,
                url,
                direction,
                opcode,
                mask,
                payload_preview,
                payload_length,
                truncated,
            },
        ),
        _ => None,
    }
}

/// Why there is no event in a text or a value.
#[derive(Debug, Clone, PartialEq, Eq)]
pub enum EventError {
    /// The text is no JSON; what the reader of JSON says of it.
    Json(String),
    /// The value names a known type, and a field of that type is missing or of another kind;
    /// the name of the type.
    Malformed(String),
}

/// The contents of an `EventError`.
#[verifier::ext_equal]
pub enum EventErrorView {
    Json(Seq<char>),
    Malformed(Seq<char>),
}

impl View for EventError {
    type V = EventErrorView;

    open spec fn view(&self) -> EventErrorView {
        match self {
            EventError::Json(m) => EventErrorView::Json(m@),
            EventError::Malformed(t) => EventErrorView::Malformed(t@),
        }
    }
}

/// The outcome of reading an event.
pub open spec fn event_result(res: Result<RuntimeEvent, EventError>) -> Result<
    EventView,
    EventErrorView,
> {
    match res {
        Ok(e) => Ok(e@),
        Err(e) => Err(e@),
    }
}

/// The outcome that a value calls for.
pub open spec fn decoded_event(v: JsonView) -> Result<EventView, EventErrorView> {
    match read_event(v) {
        Some(e) => Ok(e),
        None => Err(EventErrorView::Malformed(event_tag(v))),
    }
}

impl RuntimeEvent {
    fn read_json(v: &JsonValue, tag: &str) -> (res: Option<RuntimeEvent>)
        requires
            tag@ == event_tag(v@),
        ensures
            opt_event(res) == read_event(v@),
    {
        if str_eq(tag, "dom_mutation") {
            return match mutations_from_json(v.get("changes")) {
                Some(changes) => Some(RuntimeEvent::DomMutation { changes }),
                None => None,
            };
        }
        let request_id = get_text(v.get("request_id"));
        let url = get_text(v.get("url"));
        if str_eq(tag, "navigation") {
            match url {
                Some(url) => Some(RuntimeEvent::Navigation { url }),
                None => None,
            }
        } else if str_eq(tag, "network") {
            network_from_json(v)
        } else if str_eq(tag, "websocket_open") {
            match (request_id, url) {
                (Some(request_id), Some(url)) => Some(
                    RuntimeEvent::WebSocketOpen { request_id, url },
                ),
                _ => None,
            }
        } else if str_eq(tag, "websocket_handshake") {
            let status = get_opt_u16(v.get("status"));
            let status_text = get_opt_text(v.get("status_text"));
            match (request_id, url, status, status_text) {
                (Some(request_id), Some(url), Some(status), Some(status_text)) => Some(
                    RuntimeEvent::WebSocketHandshake { request_id, url, status, status_text },
                ),
                _ => None,
            }
        } else if str_eq(tag, "websocket_frame") {
            frame_from_json(v)
        } else if str_eq(tag, "websocket_close") {
            match (request_id, url) {
                (Some(request_id), Some(url)) => Some(
                    RuntimeEvent::WebSocketClose { request_id, url },
                ),
                _ => None,
            }
        } else if str_eq(tag, "log") {
            match (get_text(v.get("level")), get_text(v.get("message"))) {
                (Some(level), Some(message)) => Some(
                    RuntimeEvent::Log { level, message, data: get_opt_value(v.get("data")) },
                ),
                _ => None,
            }
        } else {
            Some(RuntimeEvent::Unknown { event_type: tag.to_owned(), payload: v.clone() })
        }
    }

    /// The event that a JSON value describes. A value that names no known type is kept whole;
    /// one that names a known type but lacks a field is refused.
    pub fn from_json(v: &JsonValue) -> (res: Result<RuntimeEvent, EventError>)
        ensures
            event_result(res) == decoded_event(v@),
    {
        let tag = match get_text(v.get("type")) {
            Some(t) => t,
            None => "unknown".to_owned(),
        };
        match RuntimeEvent::read_json(v, tag.as_str()) {
            Some(e) => Ok(e),
            None => Err(EventError::Malformed(tag)),
        }
    }

    /// The JSON text of an event.
    pub fn to_text(&self) -> (res: String)
        ensures
            res@ == written_json(event_json(self@)),
            event_reads_back(*self) ==> parsed_json(res@) == json_ok(event_json(self@)),
    {
        write_json(&self.to_json())
    }

    /// The event that a JSON text describes.
    pub fn from_text(text: &str) -> (res: Result<RuntimeEvent, EventError>)
        ensures
            event_result(res) == match parsed_json(text@) {
                Ok(v) => decoded_event(v),
                Err(m) => Err(EventErrorView::Json(m)),
            },
    {
        match parse_json(text) {
            Ok(v) => RuntimeEvent::from_json(&v),
            Err(m) => Err(EventError::Json(m)),
        }
    }
}

/// The names of the known event types are different texts.
proof fn lemma_tags_differ()
    ensures
        "dom_mutation"@ != "navigation"@,
        "dom_mutation"@ != "network"@,
        "dom_mutation"@ != "websocket_open"@,
        "dom_mutation"@ != "websocket_handshake"@,
        "dom_mutation"@ != "websocket_frame"@,
        "dom_mutation"@ != "websocket_close"@,
        "dom_mutation"@ != "log"@,
        "navigation"@ != "network"@,
        "navigation"@ != "websocket_open"@,
        "navigation"@ != "websocket_handshake"@,
        "navigation"@ != "websocket_frame"@,
        "navigation"@ != "websocket_close"@,
        "navigation"@ != "log"@,
        "network"@ != "websocket_open"@,
        "network"@ != "websocket_handshake"@,
        "network"@ != "websocket_frame"@,
        "network"@ != "websocket_close"@,
        "network"@ != "log"@,
        "websocket_open"@ != "websocket_handshake"@,
        "websocket_open"@ != "websocket_frame"@,
        "websocket_open"@ != "websocket_close"@,
        "websocket_open"@ != "log"@,
        "websocket_handshake"@ != "websocket_frame"@,
        "websocket_handshake"@ != "websocket_close"@,
        "websocket_handshake"@ != "log"@,
        "websocket_frame"@ != "websocket_close"@,
        "websocket_frame"@ != "log"@,
        "websocket_close"@ != "log"@,
{
    reveal_strlit("dom_mutation");
    reveal_strlit("navigation");
    reveal_strlit("network");
    reveal_strlit("websocket_open");
    reveal_strlit("websocket_handshake");
    reveal_strlit("websocket_frame");
    reveal_strlit("websocket_close");
    reveal_strlit("log");
    assert("dom_mutation"@.len() != "navigation"@.len());
    assert("dom_mutation"@.len() != "network"@.len());
    assert("dom_mutation"@.len() != "websocket_open"@.len());
    assert("dom_mutation"@.len() != "websocket_handshake"@.len());
    assert("dom_mutation"@.len() != "websocket_frame"@.len());
    assert("dom_mutation"@.len() != "websocket_close"@.len());
    assert("dom_mutation"@.len() != "log"@.len());
    assert("navigation"@.len() != "network"@.len());
    assert("navigation"@.len() != "websocket_open"@.len());
    assert("navigation"@.len() != "websocket_handshake"@.len());
    assert("navigation"@.len() != "websocket_frame"@.len());
    assert("navigation"@.len() != "websocket_close"@.len());
    assert("navigation"@.len() != "log"@.len());
    assert("network"@.len() != "websocket_open"@.len());
    assert("network"@.len() != "websocket_handshake"@.len());
    assert("network"@.len() != "websocket_frame"@.len());
    assert("network"@.len() != "websocket_close"@.len());
    assert("network"@.len() != "log"@.len());
    assert("websocket_open"@.len() != "websocket_handshake"@.len());
    assert("websocket_open"@.len() != "websocket_frame"@.len());
    assert("websocket_open"@.len() != "websocket_close"@.len());
    assert("websocket_open"@.len() != "log"@.len());
    assert("websocket_handshake"@.len() != "websocket_frame"@.len());
    assert("websocket_handshake"@.len() != "websocket_close"@.len());
    assert("websocket_handshake"@.len() != "log"@.len());
    assert("websocket_frame"@[10] != "websocket_close"@[10]);
    assert("websocket_frame"@.len() != "log"@.len());
    assert("websocket_close"@.len() != "log"@.len());
}

/// The names of the kinds of changes are different texts.
proof fn lemma_kinds_differ()
    ensures
        "upsert"@ != "remove"@,
        "upsert"@ != "set_text"@,
        "upsert"@ != "set_attr"@,
        "upsert"@ != "set_children"@,
        "remove"@ != "set_text"@,
        "remove"@ != "set_attr"@,
        "remove"@ != "set_children"@,
        "set_text"@ != "set_attr"@,
        "set_text"@ != "set_children"@,
        "set_attr"@ != "set_children"@,
{
    reveal_strlit("upsert");
    reveal_strlit("remove");
    reveal_strlit("set_text");
    reveal_strlit("set_attr");
    reveal_strlit("set_children");
    assert("upsert"@[0] != "remove"@[0]);
    assert("upsert"@.len() != "set_text"@.len());
    assert("upsert"@.len() != "set_attr"@.len());
    assert("upsert"@.len() != "set_children"@.len());
    assert("remove"@.len() != "set_text"@.len());
    assert("remove"@.len() != "set_attr"@.len());
    assert("remove"@.len() != "set_children"@.len());
    assert("set_text"@[4] != "set_attr"@[4]);
    assert("set_text"@.len() != "set_children"@.len());
    assert("set_attr"@.len() != "set_children"@.len());
}

/// The members of a change have different names.
proof fn lemma_mutation_members_differ()
    ensures
        "kind"@ != "id"@,
        "kind"@ != "tag"@,
        "kind"@ != "attrs"@,
        "kind"@ != "text"@,
        "kind"@ != "semantic"@,
        "kind"@ != "children"@,
        "kind"@ != "name"@,
        "kind"@ != "value"@,
        "id"@ != "tag"@,
        "id"@ != "attrs"@,
        "id"@ != "text"@,
        "id"@ != "semantic"@,
        "id"@ != "children"@,
        "id"@ != "name"@,
        "id"@ != "value"@,
        "tag"@ != "attrs"@,
        "tag"@ != "text"@,
        "tag"@ != "semantic"@,
        "tag"@ != "children"@,
        "tag"@ != "name"@,
        "tag"@ != "value"@,
        "attrs"@ != "text"@,
        "attrs"@ != "semantic"@,
        "attrs"@ != "children"@,
        "attrs"@ != "name"@,
        "attrs"@ != "value"@,
        "text"@ != "semantic"@,
        "text"@ != "children"@,
        "text"@ != "name"@,
        "text"@ != "value"@,
        "semantic"@ != "children"@,
        "semantic"@ != "name"@,
        "semantic"@ != "value"@,
        "children"@ != "name"@,
        "children"@ != "value"@,
        "name"@ != "value"@,
{
    reveal_strlit("kind");
    reveal_strlit("id");
    reveal_strlit("tag");
    reveal_strlit("attrs");
    reveal_strlit("text");
    reveal_strlit("semantic");
    reveal_strlit("children");
    reveal_strlit("name");
    reveal_strlit("value");
    assert("kind"@.len() != "id"@.len());
    assert("kind"@.len() != "tag"@.len());
    assert("kind"@.len() != "attrs"@.len());
    assert("kind"@[0] != "text"@[0]);
    assert("kind"@.len() != "semantic"@.len());
    assert("kind"@.len() != "children"@.len());
    assert("kind"@[0] != "name"@[0]);
    assert("kind"@.len() != "value"@.len());
    assert("id"@.len() != "tag"@.len());
    assert("id"@.len() != "attrs"@.len());
    assert("id"@.len() != "text"@.len());
    assert("id"@.len() != "semantic"@.len());
    assert("id"@.len() != "children"@.len());
    assert("id"@.len() != "name"@.len());
    assert("id"@.len() != "value"@.len());
    assert("tag"@.len() != "attrs"@.len());
    assert("tag"@.len() != "text"@.len());
    assert("tag"@.len() != "semantic"@.len());
    assert("tag"@.len() != "children"@.len());
    assert("tag"@.len() != "name"@.len());
    assert("tag"@.len() != "value"@.len());
    assert("attrs"@.len() != "text"@.len());
    assert("attrs"@.len() != "semantic"@.len());
    assert("attrs"@.len() != "children"@.len());
    assert("attrs"@.len() != "name"@.len());
    assert("attrs"@[0] != "value"@[0]);
    assert("text"@.len() != "semantic"@.len());
    assert("text"@.len() != "children"@.len());
    assert("text"@[0] != "name"@[0]);
    assert("text"@.len() != "value"@.len());
    assert("semantic"@[0] != "children"@[0]);
    assert("semantic"@.len() != "name"@.len());
    assert("semantic"@.len() != "value"@.len());
    assert("children"@.len() != "name"@.len());
    assert("children"@.len() != "value"@.len());
    assert("name"@.len() != "value"@.len());
}

/// The members of semantics have different names.
proof fn lemma_semantics_members_differ()
    ensures
        "role"@ != "name"@,
        "role"@ != "label"@,
        "role"@ != "control_type"@,
        "role"@ != "actionable"@,
        "role"@ != "disabled"@,
        "role"@ != "visible"@,
        "role"@ != "actions"@,
        "name"@ != "label"@,
        "name"@ != "control_type"@,
        "name"@ != "actionable"@,
        "name"@ != "disabled"@,
        "name"@ != "visible"@,
        "name"@ != "actions"@,
        "label"@ != "control_type"@,
        "label"@ != "actionable"@,
        "label"@ != "disabled"@,
        "label"@ != "visible"@,
        "label"@ != "actions"@,
        "control_type"@ != "actionable"@,
        "control_type"@ != "disabled"@,
        "control_type"@ != "visible"@,
        "control_type"@ != "actions"@,
        "actionable"@ != "disabled"@,
        "actionable"@ != "visible"@,
        "actionable"@ != "actions"@,
        "disabled"@ != "visible"@,
        "disabled"@ != "actions"@,
        "visible"@ != "actions"@,
{
    reveal_strlit("role");
    reveal_strlit("name");
    reveal_strlit("label");
    reveal_strlit("control_type");
    reveal_strlit("actionable");
    reveal_strlit("disabled");
    reveal_strlit("visible");
    reveal_strlit("actions");
    assert("role"@[0] != "name"@[0]);
    assert("role"@.len() != "label"@.len());
    assert("role"@.len() != "control_type"@.len());
    assert("role"@.len() != "actionable"@.len());
    assert("role"@.len() != "disabled"@.len());
    assert("role"@.len() != "visible"@.len());
    assert("role"@.len() != "actions"@.len());
    assert("name"@.len() != "label"@.len());
    assert("name"@.len() != "control_type"@.len());
    assert("name"@.len() != "actionable"@.len());
    assert("name"@.len() != "disabled"@.len());
    assert("name"@.len() != "visible"@.len());
    assert("name"@.len() != "actions"@.len());
    assert("label"@.len() != "control_type"@.len());
    assert("label"@.len() != "actionable"@.len());
    assert("label"@.len() != "disabled"@.len());
    assert("label"@.len() != "visible"@.len());
    assert("label"@.len() != "actions"@.len());
    assert("control_type"@.len() != "actionable"@.len());
    assert("control_type"@.len() != "disabled"@.len());
    assert("control_type"@.len() != "visible"@.len());
    assert("control_type"@.len() != "actions"@.len());
    assert("actionable"@.len() != "disabled"@.len());
    assert("actionable"@.len() != "visible"@.len());
    assert("actionable"@.len() != "actions"@.len());
    assert("disabled"@.len() != "visible"@.len());
    assert("disabled"@.len() != "actions"@.len());
    assert("visible"@[0] != "actions"@[0]);
}

/// The members of a network event have different names.
proof fn lemma_network_members_differ()
    ensures
        "type"@ != "request_id"@,
        "type"@ != "url"@,
        "type"@ != "method"@,
        "type"@ != "resource_type"@,
        "type"@ != "phase"@,
        "type"@ != "status"@,
        "type"@ != "status_text"@,
        "type"@ != "mime_type"@,
        "type"@ != "from_cache"@,
        "type"@ != "error_text"@,
        "request_id"@ != "url"@,
        "request_id"@ != "method"@,
        "request_id"@ != "resource_type"@,
        "request_id"@ != "phase"@,
        "request_id"@ != "status"@,
        "request_id"@ != "status_text"@,
        "request_id"@ != "mime_type"@,
        "request_id"@ != "from_cache"@,
        "request_id"@ != "error_text"@,
        "url"@ != "method"@,
        "url"@ != "resource_type"@,
        "url"@ != "phase"@,
        "url"@ != "status"@,
        "url"@ != "status_text"@,
        "url"@ != "mime_type"@,
        "url"@ != "from_cache"@,
        "url"@ != "error_text"@,
        "method"@ != "resource_type"@,
        "method"@ != "phase"@,
        "method"@ != "status"@,
        "method"@ != "status_text"@,
        "method"@ != "mime_type"@,
        "method"@ != "from_cache"@,
        "method"@ != "error_text"@,
        "resource_type"@ != "phase"@,
        "resource_type"@ != "status"@,
        "resource_type"@ != "status_text"@,
        "resource_type"@ != "mime_type"@,
        "resource_type"@ != "from_cache"@,
        "resource_type"@ != "error_text"@,
        "phase"@ != "status"@,
        "phase"@ != "status_text"@,
        "phase"@ != "mime_type"@,
        "phase"@ != "from_cache"@,
        "phase"@ != "error_text"@,
        "status"@ != "status_text"@,
        "status"@ != "mime_type"@,
        "status"@ != "from_cache"@,
        "status"@ != "error_text"@,
        "status_text"@ != "mime_type"@,
        "status_text"@ != "from_cache"@,
        "status_text"@ != "error_text"@,
        "mime_type"@ != "from_cache"@,
        "mime_type"@ != "error_text"@,
        "from_cache"@ != "error_text"@,
{
    reveal_strlit("type");
    reveal_strlit("request_id");
    reveal_strlit("url");
    reveal_strlit("method");
    reveal_strlit("resource_type");
    reveal_strlit("phase");
    reveal_strlit("status");
    reveal_strlit("status_text");
    reveal_strlit("mime_type");
    reveal_strlit("from_cache");
    reveal_strlit("error_text");
    assert("type"@.len() != "request_id"@.len());
    assert("type"@.len() != "url"@.len());
    assert("type"@.len() != "method"@.len());
    assert("type"@.len() != "resource_type"@.len());
    assert("type"@.len() != "phase"@.len());
    assert("type"@.len() != "status"@.len());
    assert("type"@.len() != "status_text"@.len());
    assert("type"@.len() != "mime_type"@.len());
    assert("type"@.len() != "from_cache"@.len());
    assert("type"@.len() != "error_text"@.len());
    assert("request_id"@.len() != "url"@.len());
    assert("request_id"@.len() != "method"@.len());
    assert("request_id"@.len() != "resource_type"@.len());
    assert("request_id"@.len() != "phase"@.len());
    assert("request_id"@.len() != "status"@.len());
    assert("request_id"@.len() != "status_text"@.len());
    assert("request_id"@.len() != "mime_type"@.len());
    assert("request_id"@[0] != "from_cache"@[0]);
    assert("request_id"@[0] != "error_text"@[0]);
    assert("url"@.len() != "method"@.len());
    assert("url"@.len() != "resource_type"@.len());
    assert("url"@.len() != "phase"@.len());
    assert("url"@.len() != "status"@.len());
    assert("url"@.len() != "status_text"@.len());
    assert("url"@.len() != "mime_type"@.len());
    assert("url"@.len() != "from_cache"@.len());
    assert("url"@.len() != "error_text"@.len());
    assert("method"@.len() != "resource_type"@.len());
    assert("method"@.len() != "phase"@.len());
    assert("method"@[0] != "status"@[0]);
    assert("method"@.len() != "status_text"@.len());
    assert("method"@.len() != "mime_type"@.len());
    assert("method"@.len() != "from_cache"@.len());
    assert("method"@.len() != "error_text"@.len());
    assert("resource_type"@.len() != "phase"@.len());
    assert("resource_type"@.len() != "status"@.len());
    assert("resource_type"@.len() != "status_text"@.len());
    assert("resource_type"@.len() != "mime_type"@.len());
    assert("resource_type"@.len() != "from_cache"@.len());
    assert("resource_type"@.len() != "error_text"@.len());
    assert("phase"@.len() != "status"@.len());
    assert("phase"@.len() != "status_text"@.len());
    assert("phase"@.len() != "mime_type"@.len());
    assert("phase"@.len() != "from_cache"@.len());
    assert("phase"@.len() != "error_text"@.len());
    assert("status"@.len() != "status_text"@.len());
    assert("status"@.len() != "mime_type"@.len());
    assert("status"@.len() != "from_cache"@.len());
    assert("status"@.len() != "error_text"@.len());
    assert("status_text"@.len() != "mime_type"@.len());
    assert("status_text"@.len() != "from_cache"@.len());
    assert("status_text"@.len() != "error_text"@.len());
    assert("mime_type"@.len() != "from_cache"@.len());
    assert("mime_type"@.len() != "error_text"@.len());
    assert("from_cache"@[0] != "error_text"@[0]);
}

/// The members of a frame event have different names.
proof fn lemma_frame_members_differ()
    ensures
        "type"@ != "request_id"@,
        "type"@ != "url"@,
        "type"@ != "direction"@,
        "type"@ != "opcode"@,
        "type"@ != "mask"@,
        "type"@ != "payload_preview"@,
        "type"@ != "payload_length"@,
        "type"@ != "truncated"@,
        "request_id"@ != "url"@,
        "request_id"@ != "direction"@,
        "request_id"@ != "opcode"@,
        "request_id"@ != "mask"@,
        "request_id"@ != "payload_preview"@,
        "request_id"@ != "payload_length"@,
        "request_id"@ != "truncated"@,
        "url"@ != "direction"@,
        "url"@ != "opcode"@,
        "url"@ != "mask"@,
        "url"@ != "payload_preview"@,
        "url"@ != "payload_length"@,
        "url"@ != "truncated"@,
        "direction"@ != "opcode"@,
        "direction"@ != "mask"@,
        "direction"@ != "payload_preview"@,
        "direction"@ != "payload_length"@,
        "direction"@ != "truncated"@,
        "opcode"@ != "mask"@,
        "opcode"@ != "payload_preview"@,
        "opcode"@ != "payload_length"@,
        "opcode"@ != "truncated"@,
        "mask"@ != "payload_preview"@,
        "mask"@ != "payload_length"@,
        "mask"@ != "truncated"@,
        "payload_preview"@ != "payload_length"@,
        "payload_preview"@ != "truncated"@,
        "payload_length"@ != "truncated"@,
{
    reveal_strlit("type");
    reveal_strlit("request_id");
    reveal_strlit("url");
    reveal_strlit("direction");
    reveal_strlit("opcode");
    reveal_strlit("mask");
    reveal_strlit("payload_preview");
    reveal_strlit("payload_length");
    reveal_strlit("truncated");
    assert("type"@.len() != "request_id"@.len());
    assert("type"@.len() != "url"@.len());
    assert("type"@.len() != "direction"@.len());
    assert("type"@.len() != "opcode"@.len());
    assert("type"@[0] != "mask"@[0]);
    assert("type"@.len() != "payload_preview"@.len());
    assert("type"@.len() != "payload_length"@.len());
    assert("type"@.len() != "truncated"@.len());
    assert("request_id"@.len() != "url"@.len());
    assert("request_id"@.len() != "direction"@.len());
    assert("request_id"@.len() != "opcode"@.len());
    assert("request_id"@.len() != "mask"@.len());
    assert("request_id"@.len() != "payload_preview"@.len());
    assert("request_id"@.len() != "payload_length"@.len());
    assert("request_id"@.len() != "truncated"@.len());
    assert("url"@.len() != "direction"@.len());
    assert("url"@.len() != "opcode"@.len());
    assert("url"@.len() != "mask"@.len());
    assert("url"@.len() != "payload_preview"@.len());
    assert("url"@.len() != "payload_length"@.len());
    assert("url"@.len() != "truncated"@.len());
    assert("direction"@.len() != "opcode"@.len());
    assert("direction"@.len() != "mask"@.len());
    assert("direction"@.len() != "payload_preview"@.len());
    assert("direction"@.len() != "payload_length"@.len());
    assert("direction"@[0] != "truncated"@[0]);
    assert("opcode"@.len() != "mask"@.len());
    assert("opcode"@.len() != "payload_preview"@.len());
    assert("opcode"@.len() != "payload_length"@.len());
    assert("opcode"@.len() != "truncated"@.len());
    assert("mask"@.len() != "payload_preview"@.len());
    assert("mask"@.len() != "payload_length"@.len());
    assert("mask"@.len() != "truncated"@.len());
    assert("payload_preview"@.len() != "payload_length"@.len());
    assert("payload_preview"@.len() != "truncated"@.len());
    assert("payload_length"@.len() != "truncated"@.len());
}

/// The members of the remaining events have different names.
proof fn lemma_other_members_differ()
    ensures
        "type"@ != "changes"@,
        "type"@ != "level"@,
        "type"@ != "message"@,
        "type"@ != "data"@,
        "changes"@ != "level"@,
        "changes"@ != "message"@,
        "changes"@ != "data"@,
        "level"@ != "message"@,
        "level"@ != "data"@,
        "message"@ != "data"@,
{
    reveal_strlit("type");
    reveal_strlit("changes");
    reveal_strlit("level");
    reveal_strlit("message");
    reveal_strlit("data");
    assert("type"@.len() != "changes"@.len());
    assert("type"@.len() != "level"@.len());
    assert("type"@.len() != "message"@.len());
    assert("type"@[0] != "data"@[0]);
    assert("changes"@.len() != "level"@.len());
    assert("changes"@[0] != "message"@[0]);
    assert("changes"@.len() != "data"@.len());
    assert("level"@.len() != "message"@.len());
    assert("level"@.len() != "data"@.len());
    assert("message"@.len() != "data"@.len());
}

/// The names of the phases are different texts.
proof fn lemma_phases_differ()
    ensures
        "request"@ != "response"@,
        "request"@ != "finished"@,
        "request"@ != "failed"@,
        "response"@ != "finished"@,
        "response"@ != "failed"@,
        "finished"@ != "failed"@,
{
    reveal_strlit("request");
    reveal_strlit("response");
    reveal_strlit("finished");
    reveal_strlit("failed");
    assert("request"@.len() != "response"@.len());
    assert("request"@.len() != "finished"@.len());
    assert("request"@.len() != "failed"@.len());
    assert("response"@[0] != "finished"@[0]);
    assert("response"@.len() != "failed"@.len());
    assert("finished"@.len() != "failed"@.len());
}

/// The names of the directions are different texts.
proof fn lemma_directions_differ()
    ensures
        "sent"@ != "received"@,
{
    reveal_strlit("sent");
    reveal_strlit("received");
    assert("sent"@.len() != "received"@.len());
}

/// Semantics are read as they were written.
proof fn lemma_semantics_round_trip(s: SemanticsView)
    ensures
        read_semantics(semantics_json(s)) == Some(s),
{
    lemma_semantics_members_differ();
    let v = semantics_json(s);
    assert(record_field(v, "role"@, 0) == some_text(s.role));
    assert(record_field(v, "name"@, 1) == some_text(s.name));
    assert(record_field(v, "label"@, 2) == some_text(s.label));
    assert(record_field(v, "control_type"@, 3) == some_text(s.control_type));
    assert(record_field(v, "actionable"@, 4) == Some(JsonView::Bool(s.actionable)));
    assert(record_field(v, "disabled"@, 5) == Some(JsonView::Bool(s.disabled)));
    assert(record_field(v, "visible"@, 6) == Some(JsonView::Bool(s.visible)));
    let actions = read_texts(record_field(v, "actions"@, 7));
    if s.actions.len() == 0 {
        assert(record_field(v, "actions"@, 7) is None);
        assert(s.actions =~= Seq::empty());
    } else {
        assert(record_field(v, "actions"@, 7) == Some(texts_json(s.actions)));
        assert(actions->Some_0 =~= s.actions);
    }
    assert(read_semantics(v)->Some_0 =~= s);
}

/// Attributes are read as they were written.
proof fn lemma_attrs_round_trip(attrs: Map<Seq<char>, Seq<char>>)
    ensures
        read_attrs(Some(attrs_json(attrs))) == Some(attrs),
{
    let got = read_attrs(Some(attrs_json(attrs)));
    assert(got is Some);
    assert(got->Some_0 =~= attrs);
}

/// Identifiers are read as they were written.
proof fn lemma_ids_round_trip(ids: Seq<NodeId>)
    ensures
        read_ids(Some(ids_json(ids))) == Some(ids),
{
    let got = read_ids(Some(ids_json(ids)));
    assert(got is Some);
    assert(got->Some_0 =~= ids);
}

/// A change is read as it was written.
pub proof fn law_mutation_round_trip(m: MutationView)
    ensures
        read_mutation(mutation_json(m)) == Some(m),
{
    lemma_kinds_differ();
    lemma_mutation_members_differ();
    let v = mutation_json(m);
    match m {
        MutationView::Upsert { node } => {
            lemma_attrs_round_trip(node.attrs);
            lemma_ids_round_trip(node.children);
            assert(record_field(v, "kind"@, 0) == Some(JsonView::Text("upsert"@)));
            assert(record_field(v, "id"@, 1) == Some(JsonView::Unsigned(node.id)));
            assert(record_field(v, "tag"@, 2) == Some(JsonView::Text(node.tag)));
            assert(record_field(v, "attrs"@, 3) == Some(attrs_json(node.attrs)));
            assert(record_field(v, "text"@, 4) == some_text(node.text));
            assert(record_field(v, "semantic"@, 5) == some_semantics(node.semantic));
            assert(record_field(v, "children"@, 6) == Some(ids_json(node.children)));
            if let Some(s) = node.semantic {
                lemma_semantics_round_trip(s);
                assert(semantics_json(s) is Object);
            }
            assert(read_node(v)->Some_0 =~= node);
        },
        MutationView::Remove { id } => {
            assert(record_field(v, "kind"@, 0) == Some(JsonView::Text("remove"@)));
        },
        MutationView::SetText { id, text } => {
            assert(record_field(v, "kind"@, 0) == Some(JsonView::Text("set_text"@)));
            assert(record_field(v, "id"@, 1) == Some(JsonView::Unsigned(id)));
        },
        MutationView::SetAttr { id, name, value } => {
            assert(record_field(v, "kind"@, 0) == Some(JsonView::Text("set_attr"@)));
            assert(record_field(v, "id"@, 1) == Some(JsonView::Unsigned(id)));
            assert(record_field(v, "name"@, 2) == Some(JsonView::Text(name)));
        },
        MutationView::SetChildren { id, children } => {
            lemma_ids_round_trip(children);
            assert(record_field(v, "kind"@, 0) == Some(JsonView::Text("set_children"@)));
            assert(record_field(v, "id"@, 1) == Some(JsonView::Unsigned(id)));
        },
    }
}

/// Whether a text is the name of a known event type.
pub open spec fn known_tag(tag: Seq<char>) -> bool {
    tag == "dom_mutation"@ || tag == "navigation"@ || tag == "network"@ || tag == "websocket_open"@
        || tag == "websocket_handshake"@ || tag == "websocket_frame"@ || tag == "websocket_close"@
        || tag == "log"@
}

/// Whether an event can have come from JSON: an event of an unknown type carries the type that
/// its value names, and no log entry carries a null, which stands for no data at all.
pub open spec fn faithful_event(e: EventView) -> bool {
    match e {
        EventView::Unknown { event_type, payload } => event_type == event_tag(payload)
            && !known_tag(event_type),
        EventView::Log { data, .. } => data != Some(JsonView::Null),
        _ => true,
    }
}

/// An event is read as it was written; events of unknown types keep their whole value.
pub proof fn law_event_round_trip(e: EventView)
    requires
        faithful_event(e),
    ensures
        read_event(event_json(e)) == Some(e),
{
    let v = event_json(e);
    lemma_tags_differ();
    match e {
        EventView::DomMutation { changes } => {
            lemma_other_members_differ();
            assert(member(v, "type"@) == Some(JsonView::Text("dom_mutation"@)));
            assert(member(v, "changes"@) == Some(mutations_json(changes)));
            assert forall|i: int| 0 <= i < changes.len() implies read_mutation(
                #[trigger] mutation_json(changes[i]),
            ) == Some(changes[i]) by {
                law_mutation_round_trip(changes[i]);
            }
            let got = read_mutations(member(v, "changes"@));
            assert(got is Some);
            assert(got->Some_0 =~= changes);
        },
        EventView::Navigation { url } => {
            lemma_network_members_differ();
            assert(member(v, "type"@) == Some(JsonView::Text("navigation"@)));
        },
        EventView::Network {
            request_id,
            url,
            method,
            resource_type,
            phase,
            status,
            status_text,
            mime_type,
            from_cache,
            error_text,
        } => {
            lemma_network_members_differ();
            lemma_phases_differ();
            assert(member(v, "type"@) == Some(JsonView::Text("network"@)));
            assert(member(v, "request_id"@) == Some(JsonView::Text(request_id)));
            assert(member(v, "url"@) == Some(JsonView::Text(url)));
            assert(member(v, "method"@) == Some(text_or_null(method)));
            assert(member(v, "resource_type"@) == Some(text_or_null(resource_type)));
            assert(member(v, "phase"@) == Some(phase_json(phase)));
            assert(member(v, "status"@) == Some(u16_json(status)));
            assert(member(v, "status_text"@) == Some(text_or_null(status_text)));
            assert(member(v, "mime_type"@) == Some(text_or_null(mime_type)));
            assert(member(v, "from_cache"@) == Some(bool_json(from_cache)));
            assert(member(v, "error_text"@) == Some(text_or_null(error_text)));
        },
        EventView::WebSocketOpen { request_id, url } => {
            lemma_network_members_differ();
            assert(member(v, "type"@) == Some(JsonView::Text("websocket_open"@)));
        },
        EventView::WebSocketHandshake { request_id, url, status, status_text } => {
            lemma_network_members_differ();
            assert(member(v, "type"@) == Some(JsonView::Text("websocket_handshake"@)));
            assert(member(v, "request_id"@) == Some(JsonView::Text(request_id)));
            assert(member(v, "url"@) == Some(JsonView::Text(url)));
            assert(member(v, "status"@) == Some(u16_json(status)));
        },
        EventView::WebSocketFrame {
            request_id,
            url,
            direction,
            opcode,
            mask,
            payload_preview,
            payload_length,
            truncated,
        } => {
            lemma_frame_members_differ();
            lemma_directions_differ();
            assert(member(v, "type"@) == Some(JsonView::Text("websocket_frame"@)));
            assert(member(v, "request_id"@) == Some(JsonView::Text(request_id)));
            assert(member(v, "url"@) == Some(JsonView::Text(url)));
            assert(member(v, "direction"@) == Some(JsonView::Text(direction_name(direction))));
            assert(member(v, "opcode"@) == Some(u8_json(opcode)));
            assert(member(v, "mask"@) == Some(bool_json(mask)));
            assert(member(v, "payload_preview"@) == Some(JsonView::Text(payload_preview)));
            assert(member(v, "payload_length"@) == Some(JsonView::Unsigned(payload_length as u64)));
            assert(member(v, "truncated"@) == Some(JsonView::Bool(truncated)));
        },
        EventView::WebSocketClose { request_id, url } => {
            lemma_network_members_differ();
            assert(member(v, "type"@) == Some(JsonView::Text("websocket_close"@)));
        },
        EventView::Log { level, message, data } => {
            lemma_other_members_differ();
            assert(member(v, "type"@) == Some(JsonView::Text("log"@)));
            assert(member(v, "level"@) == Some(JsonView::Text(level)));
            assert(member(v, "message"@) == Some(JsonView::Text(message)));
            assert(member(v, "data"@) == Some(value_json(data)));
        },
        EventView::Unknown { event_type, payload } => {},
    }
}

/// An event whose JSON text is read back by the JSON reader is read back as the same event.
pub proof fn law_event_text_round_trip(e: EventView, text: Seq<char>)
    requires
        faithful_event(e),
        parsed_json(text) == json_ok(event_json(e)),
    ensures
        decoded_event(parsed_json(text)->Ok_0) == Ok::<EventView, EventErrorView>(e),
{
    law_event_round_trip(e);
}

/// A report of changes is written with its type and each of its parts under its name.
pub proof fn law_dom_mutation_event_as_written(e: EventView)
    requires
        e is DomMutation,
    ensures
        ({
            let v = event_json(e);
            &&& member(v, "type"@) == Some(JsonView::Text("dom_mutation"@))
            &&& member(v, "changes"@) matches Some(JsonView::Array(items))
            &&& items.len() == e->DomMutation_changes.len()
            &&& forall|i: int| 0 <= i < items.len() ==> #[trigger] items[i] == mutation_json(e->DomMutation_changes[i])
        }),
{
    reveal_strlit("type");
    reveal_strlit("changes");
    assert("type"@.len() == 4 && "changes"@.len() == 7);
}

/// A navigation is written with its type and each of its parts under its name.
pub proof fn law_navigation_event_as_written(e: EventView)
    requires
        e is Navigation,
    ensures
        ({
            let v = event_json(e);
            &&& member(v, "type"@) == Some(JsonView::Text("navigation"@))
            &&& member(v, "url"@) == Some(JsonView::Text(e->Navigation_url))
        }),
{
    reveal_strlit("type");
    reveal_strlit("url");
    assert("type"@.len() == 4 && "url"@.len() == 3);
}

/// A network event is written with its type and each of its parts under its name.
pub proof fn law_network_event_as_written(e: EventView)
    requires
        e is Network,
    ensures
        ({
            let v = event_json(e);
            &&& member(v, "type"@) == Some(JsonView::Text("network"@))
            &&& member(v, "request_id"@) == Some(JsonView::Text(e->Network_request_id))
            &&& member(v, "url"@) == Some(JsonView::Text(e->Network_url))
            &&& member(v, "method"@) == Some(match e->Network_method { Some(x) => JsonView::Text(x), None => JsonView::Null })
            &&& member(v, "resource_type"@) == Some(match e->Network_resource_type { Some(x) => JsonView::Text(x), None => JsonView::Null })
            &&& member(v, "phase"@) == Some(match e->Network_phase {
                Some(NetworkResourcePhase::Request) => JsonView::Text("request"@),
                Some(NetworkResourcePhase::Response) => JsonView::Text("response"@),
                Some(NetworkResourcePhase::Finished) => JsonView::Text("finished"@),
                Some(NetworkResourcePhase::Failed) => JsonView::Text("failed"@),
                None => JsonView::Null,
            })
            &&& member(v, "status"@) == Some(match e->Network_status { Some(x) => JsonView::Unsigned(x as u64), None => JsonView::Null })
            &&& member(v, "status_text"@) == Some(match e->Network_status_text { Some(x) => JsonView::Text(x), None => JsonView::Null })
            &&& member(v, "mime_type"@) == Some(match e->Network_mime_type { Some(x) => JsonView::Text(x), None => JsonView::Null })
            &&& member(v, "from_cache"@) == Some(match e->Network_from_cache { Some(x) => JsonView::Bool(x), None => JsonView::Null })
            &&& member(v, "error_text"@) == Some(match e->Network_error_text { Some(x) => JsonView::Text(x), None => JsonView::Null })
        }),
{
    reveal_strlit("type");
    reveal_strlit("request_id");
    reveal_strlit("url");
    reveal_strlit("method");
    reveal_strlit("resource_type");
    reveal_strlit("phase");
    reveal_strlit("status");
    reveal_strlit("status_text");
    reveal_strlit("mime_type");
    reveal_strlit("from_cache");
    reveal_strlit("error_text");
    assert("type"@.len() == 4 && "request_id"@.len() == 10 && "url"@.len() == 3 && "method"@.len() == 6 && "resource_type"@.len() == 13 && "phase"@.len() == 5 && "status"@.len() == 6 && "status_text"@.len() == 11 && "mime_type"@.len() == 9 && "from_cache"@.len() == 10 && "error_text"@.len() == 10);
    assert("request_id"@[0] == 'r' && "method"@[0] == 'm' && "status"@[0] == 's' && "from_cache"@[0] == 'f' && "error_text"@[0] == 'e');
}

/// The opening of a socket is written with its type and each of its parts under its name.
pub proof fn law_websocket_open_event_as_written(e: EventView)
    requires
        e is WebSocketOpen,
    ensures
        ({
            let v = event_json(e);
            &&& member(v, "type"@) == Some(JsonView::Text("websocket_open"@))
            &&& member(v, "request_id"@) == Some(JsonView::Text(e->WebSocketOpen_request_id))
            &&& member(v, "url"@) == Some(JsonView::Text(e->WebSocketOpen_url))
        }),
{
    reveal_strlit("type");
    reveal_strlit("request_id");
    reveal_strlit("url");
    assert("type"@.len() == 4 && "request_id"@.len() == 10 && "url"@.len() == 3);
}

/// The handshake of a socket is written with its type and each of its parts under its name.
pub proof fn law_websocket_handshake_event_as_written(e: EventView)
    requires
        e is WebSocketHandshake,
    ensures
        ({
            let v = event_json(e);
            &&& member(v, "type"@) == Some(JsonView::Text("websocket_handshake"@))
            &&& member(v, "request_id"@) == Some(JsonView::Text(e->WebSocketHandshake_request_id))
            &&& member(v, "url"@) == Some(JsonView::Text(e->WebSocketHandshake_url))
            &&& member(v, "status"@) == Some(match e->WebSocketHandshake_status { Some(x) => JsonView::Unsigned(x as u64), None => JsonView::Null })
            &&& member(v, "status_text"@) == Some(match e->WebSocketHandshake_status_text { Some(x) => JsonView::Text(x), None => JsonView::Null })
        }),
{
    reveal_strlit("type");
    reveal_strlit("request_id");
    reveal_strlit("url");
    reveal_strlit("status");
    reveal_strlit("status_text");
    assert("type"@.len() == 4 && "request_id"@.len() == 10 && "url"@.len() == 3 && "status"@.len() == 6 && "status_text"@.len() == 11);
}

/// A frame of a socket is written with its type and each of its parts under its name.
pub proof fn law_websocket_frame_event_as_written(e: EventView)
    requires
        e is WebSocketFrame,
    ensures
        ({
            let v = event_json(e);
            &&& member(v, "type"@) == Some(JsonView::Text("websocket_frame"@))
            &&& member(v, "request_id"@) == Some(JsonView::Text(e->WebSocketFrame_request_id))
            &&& member(v, "url"@) == Some(JsonView::Text(e->WebSocketFrame_url))
            &&& member(v, "direction"@) == Some(JsonView::Text(match e->WebSocketFrame_direction {
                WebSocketFrameDirection::Sent => "sent"@,
                WebSocketFrameDirection::Received => "received"@,
            }))
            &&& member(v, "opcode"@) == Some(match e->WebSocketFrame_opcode { Some(x) => JsonView::Unsigned(x as u64), None => JsonView::Null })
            &&& member(v, "mask"@) == Some(match e->WebSocketFrame_mask { Some(x) => JsonView::Bool(x), None => JsonView::Null })
            &&& member(v, "payload_preview"@) == Some(JsonView::Text(e->WebSocketFrame_payload_preview))
            &&& member(v, "payload_length"@) == Some(JsonView::Unsigned(e->WebSocketFrame_payload_length as u64))
            &&& member(v, "truncated"@) == Some(JsonView::Bool(e->WebSocketFrame_truncated))
        }),
{
    reveal_strlit("type");
    reveal_strlit("request_id");
    reveal_strlit("url");
    reveal_strlit("direction");
    reveal_strlit("opcode");
    reveal_strlit("mask");
    reveal_strlit("payload_preview");
    reveal_strlit("payload_length");
    reveal_strlit("truncated");
    assert("type"@.len() == 4 && "request_id"@.len() == 10 && "url"@.len() == 3 && "direction"@.len() == 9 && "opcode"@.len() == 6 && "mask"@.len() == 4 && "payload_preview"@.len() == 15 && "payload_length"@.len() == 14 && "truncated"@.len() == 9);
    assert("type"@[0] == 't' && "direction"@[0] == 'd' && "mask"@[0] == 'm' && "truncated"@[0] == 't');
}

/// The closing of a socket is written with its type and each of its parts under its name.
pub proof fn law_websocket_close_event_as_written(e: EventView)
    requires
        e is WebSocketClose,
    ensures
        ({
            let v = event_json(e);
            &&& member(v, "type"@) == Some(JsonView::Text("websocket_close"@))
            &&& member(v, "request_id"@) == Some(JsonView::Text(e->WebSocketClose_request_id))
            &&& member(v, "url"@) == Some(JsonView::Text(e->WebSocketClose_url))
        }),
{
    reveal_strlit("type");
    reveal_strlit("request_id");
    reveal_strlit("url");
    assert("type"@.len() == 4 && "request_id"@.len() == 10 && "url"@.len() == 3);
}

/// A log entry is written with its type and each of its parts under its name.
pub proof fn law_log_event_as_written(e: EventView)
    requires
        e is Log,
    ensures
        ({
            let v = event_json(e);
            &&& member(v, "type"@) == Some(JsonView::Text("log"@))
            &&& member(v, "level"@) == Some(JsonView::Text(e->Log_level))
            &&& member(v, "message"@) == Some(JsonView::Text(e->Log_message))
            &&& member(v, "data"@) == Some(match e->Log_data { Some(x) => x, None => JsonView::Null })
        }),
{
    reveal_strlit("type");
    reveal_strlit("level");
    reveal_strlit("message");
    reveal_strlit("data");
    assert("type"@.len() == 4 && "level"@.len() == 5 && "message"@.len() == 7 && "data"@.len() == 4);
    assert("type"@[0] == 't' && "data"@[0] == 'd');
}

/// An event of an unknown type is written as it came.
pub proof fn law_unknown_event_as_written(e: EventView)
    requires
        e is Unknown,
    ensures
        event_json(e) == e->Unknown_payload,
{
}

/// A change is written with its kind, the node that it is about, and what it sets.
pub proof fn law_change_as_written(m: MutationView)
    ensures
        ({
            let v = mutation_json(m);
            &&& m matches MutationView::Upsert { node } ==> {
                &&& member(v, "kind"@) == Some(JsonView::Text("upsert"@))
                &&& member(v, "id"@) == Some(JsonView::Unsigned(node.id))
                &&& member(v, "tag"@) == Some(JsonView::Text(node.tag))
                &&& node.text is Some ==> member(v, "text"@) == Some(
                    JsonView::Text(node.text->Some_0),
                )
                &&& node.text is None ==> member(v, "text"@) is None
                &&& node.semantic is Some ==> member(v, "semantic"@) == Some(
                    semantics_json(node.semantic->Some_0),
                )
                &&& node.semantic is None ==> member(v, "semantic"@) is None
                &&& member(v, "attrs"@) == Some(
                    JsonView::Object(node.attrs.map_values(|t: Seq<char>| JsonView::Text(t))),
                )
                &&& member(v, "children"@) == Some(
                    JsonView::Array(node.children.map_values(|n: NodeId| JsonView::Unsigned(n))),
                )
            }
            &&& m matches MutationView::Remove { id } ==> member(v, "kind"@) == Some(
                JsonView::Text("remove"@),
            ) && member(v, "id"@) == Some(JsonView::Unsigned(id))
            &&& m matches MutationView::SetText { id, text } ==> member(v, "kind"@) == Some(
                JsonView::Text("set_text"@),
            ) && member(v, "id"@) == Some(JsonView::Unsigned(id)) && member(v, "text"@) == Some(
                match text {
                    Some(t) => JsonView::Text(t),
                    None => JsonView::Null,
                },
            )
            &&& m matches MutationView::SetAttr { id, name, value } ==> member(v, "kind"@) == Some(
                JsonView::Text("set_attr"@),
            ) && member(v, "id"@) == Some(JsonView::Unsigned(id)) && member(v, "name"@) == Some(
                JsonView::Text(name),
            ) && member(v, "value"@) == Some(
                match value {
                    Some(t) => JsonView::Text(t),
                    None => JsonView::Null,
                },
            )
            &&& m matches MutationView::SetChildren { id, children } ==> member(v, "kind"@) == Some(
                JsonView::Text("set_children"@),
            ) && member(v, "id"@) == Some(JsonView::Unsigned(id)) && member(v, "children"@) == Some(
                JsonView::Array(children.map_values(|n: NodeId| JsonView::Unsigned(n))),
            )
        }),
{
    reveal_strlit("kind");
    reveal_strlit("id");
    reveal_strlit("tag");
    reveal_strlit("text");
    reveal_strlit("semantic");
    reveal_strlit("attrs");
    reveal_strlit("children");
    reveal_strlit("name");
    reveal_strlit("value");
    assert("kind"@.len() == 4 && "id"@.len() == 2 && "tag"@.len() == 3 && "text"@.len() == 4 && "semantic"@.len() == 8 && "attrs"@.len() == 5 && "children"@.len() == 8 && "name"@.len() == 4 && "value"@.len() == 5);
    assert("kind"@[0] == 'k' && "text"@[0] == 't' && "semantic"@[0] == 's' && "attrs"@[0] == 'a' && "children"@[0] == 'c' && "name"@[0] == 'n' && "value"@[0] == 'v');
    match m {
        MutationView::Upsert { node } => {
            assert(node.children.map_values(|n: NodeId| JsonView::Unsigned(n)) =~= ids_json(
                node.children,
            )->Array_0);
        },
        MutationView::SetChildren { children, .. } => {
            assert(children.map_values(|n: NodeId| JsonView::Unsigned(n)) =~= ids_json(
                children,
            )->Array_0);
        },
        _ => {},
    }
}

/// What is meant by a node is written under the names of its parts; texts that it lacks are left out,
/// and so are actions where there are none.
pub proof fn law_semantics_as_written(s: SemanticsView)
    ensures
        ({
            let v = semantics_json(s);
            let text = |t: Option<Seq<char>>|
                match t {
                    Some(x) => Some(JsonView::Text(x)),
                    None => None,
                };
            &&& member(v, "role"@) == text(s.role)
            &&& member(v, "name"@) == text(s.name)
            &&& member(v, "label"@) == text(s.label)
            &&& member(v, "control_type"@) == text(s.control_type)
            &&& member(v, "actionable"@) == Some(JsonView::Bool(s.actionable))
            &&& member(v, "disabled"@) == Some(JsonView::Bool(s.disabled))
            &&& member(v, "visible"@) == Some(JsonView::Bool(s.visible))
            &&& s.actions.len() == 0 ==> member(v, "actions"@) is None
            &&& s.actions.len() > 0 ==> member(v, "actions"@) == Some(
                JsonView::Array(s.actions.map_values(|t: Seq<char>| JsonView::Text(t))),
            )
        }),
{
    reveal_strlit("role");
    reveal_strlit("name");
    reveal_strlit("label");
    reveal_strlit("control_type");
    reveal_strlit("actionable");
    reveal_strlit("disabled");
    reveal_strlit("visible");
    reveal_strlit("actions");
    assert("role"@.len() == 4 && "name"@.len() == 4 && "label"@.len() == 5 && "control_type"@.len() == 12 && "actionable"@.len() == 10 && "disabled"@.len() == 8 && "visible"@.len() == 7 && "actions"@.len() == 7);
    assert("role"@[0] == 'r' && "name"@[0] == 'n' && "visible"@[0] == 'v' && "actions"@[0] == 'a');
    assert(s.actions.map_values(|t: Seq<char>| JsonView::Text(t)) =~= texts_json(
        s.actions,
    )->Array_0);
}

/// An event that is read is of the type that is named, and each of its parts is what stands under the
/// name of the part; parts that may be missing are missing exactly where nothing or null stands
/// there. A value that names no known type is kept whole.
pub proof fn law_events_as_read(v: JsonView)
    requires
        read_event(v) is Some,
    ensures
        ({
            let e = read_event(v)->Some_0;
            let known = member(v, "type"@) == Some(JsonView::Text("dom_mutation"@)) || member(v, "type"@) == Some(JsonView::Text("navigation"@)) || member(v, "type"@) == Some(JsonView::Text("network"@)) || member(v, "type"@) == Some(JsonView::Text("websocket_open"@)) || member(v, "type"@) == Some(JsonView::Text("websocket_handshake"@)) || member(v, "type"@) == Some(JsonView::Text("websocket_frame"@)) || member(v, "type"@) == Some(JsonView::Text("websocket_close"@)) || member(v, "type"@) == Some(JsonView::Text("log"@));
            e is Unknown <==> !known
        }),
        ({
            let e = read_event(v)->Some_0;
            &&& e is Unknown ==> e->Unknown_payload == v
            &&& e is Unknown ==> (member(v, "type"@) matches Some(JsonView::Text(t))
                ==> e->Unknown_event_type == t)
            &&& e is Unknown && !(member(v, "type"@) matches Some(JsonView::Text(_)))
                ==> e->Unknown_event_type == "unknown"@
        }),
        ({
            let e = read_event(v)->Some_0;
            e is Navigation ==> {
            &&& member(v, "type"@) == Some(JsonView::Text("navigation"@))
            &&& member(v, "url"@) == Some(JsonView::Text(e->Navigation_url))
            }
        }),
        ({
            let e = read_event(v)->Some_0;
            e is WebSocketOpen ==> {
            &&& member(v, "type"@) == Some(JsonView::Text("websocket_open"@))
            &&& member(v, "request_id"@) == Some(JsonView::Text(e->WebSocketOpen_request_id))
            &&& member(v, "url"@) == Some(JsonView::Text(e->WebSocketOpen_url))
            }
        }),
        ({
            let e = read_event(v)->Some_0;
            e is WebSocketClose ==> {
            &&& member(v, "type"@) == Some(JsonView::Text("websocket_close"@))
            &&& member(v, "request_id"@) == Some(JsonView::Text(e->WebSocketClose_request_id))
            &&& member(v, "url"@) == Some(JsonView::Text(e->WebSocketClose_url))
            }
        }),
        ({
            let e = read_event(v)->Some_0;
            e is WebSocketHandshake ==> {
            &&& member(v, "type"@) == Some(JsonView::Text("websocket_handshake"@))
            &&& member(v, "request_id"@) == Some(JsonView::Text(e->WebSocketHandshake_request_id))
            &&& member(v, "url"@) == Some(JsonView::Text(e->WebSocketHandshake_url))
            &&& e->WebSocketHandshake_status is Some ==> member(v, "status"@) == Some(JsonView::Unsigned(e->WebSocketHandshake_status->Some_0 as u64))
            &&& e->WebSocketHandshake_status is None ==> member(v, "status"@) is None || member(v, "status"@) == Some(JsonView::Null)
            &&& e->WebSocketHandshake_status_text is Some ==> member(v, "status_text"@) == Some(JsonView::Text(e->WebSocketHandshake_status_text->Some_0))
            &&& e->WebSocketHandshake_status_text is None ==> member(v, "status_text"@) is None || member(v, "status_text"@) == Some(JsonView::Null)
            }
        }),
        ({
            let e = read_event(v)->Some_0;
            e is Network ==> {
            &&& member(v, "type"@) == Some(JsonView::Text("network"@))
            &&& member(v, "request_id"@) == Some(JsonView::Text(e->Network_request_id))
            &&& member(v, "url"@) == Some(JsonView::Text(e->Network_url))
            &&& e->Network_method is Some ==> member(v, "method"@) == Some(JsonView::Text(e->Network_method->Some_0))
            &&& e->Network_method is None ==> member(v, "method"@) is None || member(v, "method"@) == Some(JsonView::Null)
            &&& e->Network_resource_type is Some ==> member(v, "resource_type"@) == Some(JsonView::Text(e->Network_resource_type->Some_0))
            &&& e->Network_resource_type is None ==> member(v, "resource_type"@) is None || member(v, "resource_type"@) == Some(JsonView::Null)
            &&& e->Network_status_text is Some ==> member(v, "status_text"@) == Some(JsonView::Text(e->Network_status_text->Some_0))
            &&& e->Network_status_text is None ==> member(v, "status_text"@) is None || member(v, "status_text"@) == Some(JsonView::Null)
            &&& e->Network_mime_type is Some ==> member(v, "mime_type"@) == Some(JsonView::Text(e->Network_mime_type->Some_0))
            &&& e->Network_mime_type is None ==> member(v, "mime_type"@) is None || member(v, "mime_type"@) == Some(JsonView::Null)
            &&& e->Network_error_text is Some ==> member(v, "error_text"@) == Some(JsonView::Text(e->Network_error_text->Some_0))
            &&& e->Network_error_text is None ==> member(v, "error_text"@) is None || member(v, "error_text"@) == Some(JsonView::Null)
            &&& e->Network_status is Some ==> member(v, "status"@) == Some(JsonView::Unsigned(e->Network_status->Some_0 as u64))
            &&& e->Network_status is None ==> member(v, "status"@) is None || member(v, "status"@) == Some(JsonView::Null)
            &&& e->Network_from_cache is Some ==> member(v, "from_cache"@) == Some(JsonView::Bool(e->Network_from_cache->Some_0))
            &&& e->Network_from_cache is None ==> member(v, "from_cache"@) is None || member(v, "from_cache"@) == Some(JsonView::Null)
            }
        }),
        ({
            let e = read_event(v)->Some_0;
            e is WebSocketFrame ==> {
            &&& member(v, "type"@) == Some(JsonView::Text("websocket_frame"@))
            &&& member(v, "request_id"@) == Some(JsonView::Text(e->WebSocketFrame_request_id))
            &&& member(v, "url"@) == Some(JsonView::Text(e->WebSocketFrame_url))
            &&& member(v, "payload_preview"@) == Some(JsonView::Text(e->WebSocketFrame_payload_preview))
            &&& e->WebSocketFrame_opcode is Some ==> member(v, "opcode"@) == Some(JsonView::Unsigned(e->WebSocketFrame_opcode->Some_0 as u64))
            &&& e->WebSocketFrame_opcode is None ==> member(v, "opcode"@) is None || member(v, "opcode"@) == Some(JsonView::Null)
            &&& e->WebSocketFrame_mask is Some ==> member(v, "mask"@) == Some(JsonView::Bool(e->WebSocketFrame_mask->Some_0))
            &&& e->WebSocketFrame_mask is None ==> member(v, "mask"@) is None || member(v, "mask"@) == Some(JsonView::Null)
            &&& member(v, "payload_length"@) == Some(JsonView::Unsigned(e->WebSocketFrame_payload_length as u64))
            &&& member(v, "truncated"@) == Some(JsonView::Bool(e->WebSocketFrame_truncated))
            }
        }),
        ({
            let e = read_event(v)->Some_0;
            e is Log ==> {
            &&& member(v, "type"@) == Some(JsonView::Text("log"@))
            &&& member(v, "level"@) == Some(JsonView::Text(e->Log_level))
            &&& member(v, "message"@) == Some(JsonView::Text(e->Log_message))
            &&& e->Log_data is Some ==> member(v, "data"@) == Some(e->Log_data->Some_0)
            &&& e->Log_data is None ==> member(v, "data"@) is None || member(v, "data"@) == Some(JsonView::Null)
            }
        }),
        ({
            let e = read_event(v)->Some_0;
            e is DomMutation ==> {
            &&& member(v, "type"@) == Some(JsonView::Text("dom_mutation"@))
            &&& member(v, "changes"@) matches Some(JsonView::Array(items)) && items.len()
                == e->DomMutation_changes.len() && forall|i: int|
                0 <= i < items.len() ==> read_mutation(#[trigger] items[i]) == Some(
                    e->DomMutation_changes[i],
                )
            }
        }),
{
    reveal_strlit("dom_mutation");
    reveal_strlit("navigation");
    reveal_strlit("network");
    reveal_strlit("websocket_open");
    reveal_strlit("websocket_handshake");
    reveal_strlit("websocket_frame");
    reveal_strlit("websocket_close");
    reveal_strlit("log");
    reveal_strlit("unknown");
    assert("dom_mutation"@.len() == 12 && "navigation"@.len() == 10 && "network"@.len() == 7 && "websocket_open"@.len() == 14 && "websocket_handshake"@.len() == 19 && "websocket_frame"@.len() == 15 && "websocket_close"@.len() == 15 && "log"@.len() == 3 && "unknown"@.len() == 7);
    assert("network"@[0] == 'n' && "websocket_frame"@[10] == 'f' && "websocket_close"@[10] == 'c' && "unknown"@[0] == 'u');
    if read_event(v)->Some_0 is DomMutation {
        let items = member(v, "changes"@)->Some_0->Array_0;
        assert forall|i: int| 0 <= i < items.len() implies read_mutation(#[trigger] items[i]) == Some(
            read_event(v)->Some_0->DomMutation_changes[i],
        ) by {
            assert(read_mutation(items[i]) is Some);
        }
    }
}

/// A value that names a known type but lacks a part that it has to have is no event, and the failure
/// names the type.
pub proof fn law_malformed_events_are_refused(v: JsonView)
    ensures
        read_event(v) is None ==> decoded_event(v) == Err::<EventView, EventErrorView>(
            EventErrorView::Malformed(text_of(member(v, "type"@))->Some_0),
        ) && member(v, "type"@) is Some,
        read_event(v) is Some ==> decoded_event(v) == Ok::<EventView, EventErrorView>(
            read_event(v)->Some_0,
        ),
        member(v, "type"@) == Some(JsonView::Text("navigation"@)) && !(member(
            v,
            "url"@,
        ) matches Some(JsonView::Text(_))) ==> read_event(v) is None,
        member(v, "type"@) == Some(JsonView::Text("log"@)) && !(member(
            v,
            "message"@,
        ) matches Some(JsonView::Text(_))) ==> read_event(v) is None,
{
    reveal_strlit("dom_mutation");
    reveal_strlit("navigation");
    reveal_strlit("network");
    reveal_strlit("websocket_open");
    reveal_strlit("websocket_handshake");
    reveal_strlit("websocket_frame");
    reveal_strlit("websocket_close");
    reveal_strlit("log");
    reveal_strlit("unknown");
    assert("dom_mutation"@.len() == 12 && "navigation"@.len() == 10 && "network"@.len() == 7 && "websocket_open"@.len() == 14 && "websocket_handshake"@.len() == 19 && "websocket_frame"@.len() == 15 && "websocket_close"@.len() == 15 && "log"@.len() == 3 && "unknown"@.len() == 7);
    assert("network"@[0] == 'n' && "websocket_frame"@[10] == 'f' && "websocket_close"@[10] == 'c' && "unknown"@[0] == 'u');
}

/// What is meant by a node is read from under the names of its parts; flags and actions that are
/// missing are not set, and texts that are missing or null are not there.
pub proof fn law_semantics_as_read(v: JsonView)
    requires
        v is Object,
        read_semantics(v) is Some,
    ensures
        ({
            let s = read_semantics(v)->Some_0;
            &&& s.role is Some ==> member(v, "role"@) == Some(JsonView::Text(s.role->Some_0))
            &&& s.role is None ==> member(v, "role"@) is None || member(v, "role"@) == Some(
                JsonView::Null,
            )
            &&& s.name is Some ==> member(v, "name"@) == Some(JsonView::Text(s.name->Some_0))
            &&& s.name is None ==> member(v, "name"@) is None || member(v, "name"@) == Some(
                JsonView::Null,
            )
            &&& s.label is Some ==> member(v, "label"@) == Some(JsonView::Text(s.label->Some_0))
            &&& s.label is None ==> member(v, "label"@) is None || member(v, "label"@) == Some(
                JsonView::Null,
            )
            &&& s.control_type is Some ==> member(v, "control_type"@) == Some(JsonView::Text(s.control_type->Some_0))
            &&& s.control_type is None ==> member(v, "control_type"@) is None || member(v, "control_type"@) == Some(
                JsonView::Null,
            )
            &&& s.actionable <==> member(v, "actionable"@) == Some(JsonView::Bool(true))
            &&& !s.actionable ==> member(v, "actionable"@) is None || member(v, "actionable"@) == Some(
                JsonView::Bool(false),
            )
            &&& s.disabled <==> member(v, "disabled"@) == Some(JsonView::Bool(true))
            &&& !s.disabled ==> member(v, "disabled"@) is None || member(v, "disabled"@) == Some(
                JsonView::Bool(false),
            )
            &&& s.visible <==> member(v, "visible"@) == Some(JsonView::Bool(true))
            &&& !s.visible ==> member(v, "visible"@) is None || member(v, "visible"@) == Some(
                JsonView::Bool(false),
            )
            &&& member(v, "actions"@) is None ==> s.actions.len() == 0
            &&& member(v, "actions"@) matches Some(x) ==> x == JsonView::Array(
                s.actions.map_values(|t: Seq<char>| JsonView::Text(t)),
            )
        }),
{
    if let Some(JsonView::Array(items)) = member(v, "actions"@) {
        let s = read_semantics(v)->Some_0;
        assert(items =~= s.actions.map_values(|t: Seq<char>| JsonView::Text(t)));
    }
}

/// A node is read from under the names of its parts; attributes and children that are missing are
/// none, a text that is missing or null is not there.
pub proof fn law_node_as_read(v: JsonView)
    requires
        v is Object,
        read_node(v) is Some,
    ensures
        ({
            let n = read_node(v)->Some_0;
            &&& member(v, "id"@) == Some(JsonView::Unsigned(n.id))
            &&& member(v, "tag"@) == Some(JsonView::Text(n.tag))
            &&& n.text is Some ==> member(v, "text"@) == Some(JsonView::Text(n.text->Some_0))
            &&& n.text is None ==> member(v, "text"@) is None || member(v, "text"@) == Some(
                JsonView::Null,
            )
            &&& n.semantic is Some ==> (member(v, "semantic"@) matches Some(x) && read_semantics(x)
                == n.semantic)
            &&& n.semantic is None ==> member(v, "semantic"@) is None || member(v, "semantic"@)
                == Some(JsonView::Null)
            &&& member(v, "children"@) is None ==> n.children.len() == 0
            &&& member(v, "children"@) matches Some(x) ==> x == JsonView::Array(
                n.children.map_values(|i: NodeId| JsonView::Unsigned(i)),
            )
            &&& member(v, "attrs"@) is None ==> n.attrs == Map::<Seq<char>, Seq<char>>::empty()
            &&& member(v, "attrs"@) matches Some(x) ==> x == JsonView::Object(
                n.attrs.map_values(|t: Seq<char>| JsonView::Text(t)),
            )
        }),
{
    let n = read_node(v)->Some_0;
    if let Some(JsonView::Array(items)) = member(v, "children"@) {
        assert(items =~= n.children.map_values(|i: NodeId| JsonView::Unsigned(i)));
    }
    if let Some(JsonView::Object(m)) = member(v, "attrs"@) {
        assert(m =~= n.attrs.map_values(|t: Seq<char>| JsonView::Text(t)));
    }
}

/// A phase or a direction is read by its name, and no other name is read as one.
pub proof fn law_phases_and_directions_as_read(t: Seq<char>)
    ensures
        ({
            let p = read_phase(JsonView::Text(t));
            let d = read_direction(Some(JsonView::Text(t)));
            &&& p == Some(NetworkResourcePhase::Request) <==> t == "request"@
            &&& p == Some(NetworkResourcePhase::Response) <==> t == "response"@
            &&& p == Some(NetworkResourcePhase::Finished) <==> t == "finished"@
            &&& p == Some(NetworkResourcePhase::Failed) <==> t == "failed"@
            &&& d == Some(WebSocketFrameDirection::Sent) <==> t == "sent"@
            &&& d == Some(WebSocketFrameDirection::Received) <==> t == "received"@
            &&& read_opt_phase(None) == Some(None::<NetworkResourcePhase>)
            &&& read_opt_phase(Some(JsonView::Null)) == Some(None::<NetworkResourcePhase>)
            &&& read_direction(None) is None
        }),
{
    reveal_strlit("request");
    reveal_strlit("response");
    reveal_strlit("finished");
    reveal_strlit("failed");
    reveal_strlit("sent");
    reveal_strlit("received");
    assert("request"@.len() == 7 && "response"@.len() == 8 && "finished"@.len() == 8 && "failed"@.len() == 6 && "sent"@.len() == 4 && "received"@.len() == 8);
    assert("response"@[0] == 'r' && "response"@[2] == 's' && "finished"@[0] == 'f' && "received"@[0] == 'r' && "received"@[2] == 'c');
}

} // verus!
