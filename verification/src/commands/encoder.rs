//! The JSON form of commands and of batches of them.

use vstd::prelude::*;

use crate::commands::command::{
    commands_view, opt_target, opt_uploads, uploads_view, Command, CommandMatcher, CommandTarget,
    CommandView, MatcherView, TargetView, UploadFilePayload, UploadView,
};
use crate::config_store::start;
use crate::events::wire::{insert_some, no_members, put_some_text, some_text, texts_json};
use crate::json::{
    add_member, add_some, add_value, array, entries_view, found, lemma_out_view, member, lemma_plain, list, members_map, object, one_member, opt_json,
    out_members_view, outs_view, plain, plain_items, plain_members, put, record, set_member, some_member, start_record, values_view,
    with_member, write_json, write_out, written_json, written_out, JsonOut, JsonValue, JsonView,
    OutView,
};
use crate::text::{opt_text, texts};
use crate::transport::bridge::{BatchRequest, BatchRequestView};

verus! {

/// The JSON value of a signed number.
pub open spec fn signed_json(n: i64) -> JsonView {
    if n < 0 {
        JsonView::Negative(n)
    } else {
        JsonView::Unsigned(n as u64)
    }
}

/// The JSON value of a signed number.
pub fn signed_value(n: i64) -> (res: JsonValue)
    ensures
        res@ == signed_json(n),
{
    if n < 0 {
        JsonValue::Negative(n)
    } else {
        JsonValue::Unsigned(n as u64)
    }
}

/// The JSON value of an optional boolean.
pub open spec fn some_bool(b: Option<bool>) -> Option<JsonView> {
    match b {
        Some(x) => Some(JsonView::Bool(x)),
        None => None,
    }
}

/// The JSON value of an optional natural number.
pub open spec fn some_unsigned(n: Option<u64>) -> Option<JsonView> {
    match n {
        Some(x) => Some(JsonView::Unsigned(x)),
        None => None,
    }
}

/// The JSON value of an optional signed number.
pub open spec fn some_signed(n: Option<i64>) -> Option<JsonView> {
    match n {
        Some(x) => Some(signed_json(x)),
        None => None,
    }
}

/// The JSON value of an optional number that JSON wrote.
pub open spec fn some_number(n: Option<Seq<char>>) -> Option<JsonView> {
    match n {
        Some(x) => Some(JsonView::Fraction(x)),
        None => None,
    }
}

fn put_some_bool(entries: &mut Vec<(String, JsonValue)>, name: &str, value: Option<bool>)
    ensures
        members_map(entries_view(final(entries)@)) == insert_some(
            members_map(entries_view(old(entries)@)),
            name@,
            some_bool(value),
        ),
{
    if let Some(b) = value {
        put(entries, name, JsonValue::Bool(b));
    }
}

/// The JSON object of a matcher: the fields that are set.
pub open spec fn matcher_object(m: MatcherView) -> JsonView {
    let o = no_members();
    let o = insert_some(o, "selector"@, some_text(m.selector));
    let o = insert_some(o, "test_id"@, some_text(m.test_id));
    let o = insert_some(o, "role"@, some_text(m.role));
    let o = insert_some(o, "name"@, some_text(m.name));
    let o = insert_some(o, "label"@, some_text(m.label));
    let o = insert_some(o, "control_type"@, some_text(m.control_type));
    let o = insert_some(o, "tag"@, some_text(m.tag));
    let o = insert_some(o, "text"@, some_text(m.text));
    let o = insert_some(o, "placeholder"@, some_text(m.placeholder));
    let o = insert_some(o, "href_contains"@, some_text(m.href_contains));
    let o = insert_some(o, "actionable"@, some_bool(m.actionable));
    let o = insert_some(o, "disabled"@, some_bool(m.disabled));
    let o = insert_some(o, "exact"@, some_bool(m.exact));
    JsonView::Object(o)
}

/// The JSON object of a matcher.
pub fn matcher_to_json(m: &CommandMatcher) -> (res: JsonValue)
    ensures
        res@ == matcher_object(m@),
{
    let mut entries = start();
    put_some_text(&mut entries, "selector", &m.selector);
    put_some_text(&mut entries, "test_id", &m.test_id);
    put_some_text(&mut entries, "role", &m.role);
    put_some_text(&mut entries, "name", &m.name);
    put_some_text(&mut entries, "label", &m.label);
    put_some_text(&mut entries, "control_type", &m.control_type);
    put_some_text(&mut entries, "tag", &m.tag);
    put_some_text(&mut entries, "text", &m.text);
    put_some_text(&mut entries, "placeholder", &m.placeholder);
    put_some_text(&mut entries, "href_contains", &m.href_contains);
    put_some_bool(&mut entries, "actionable", m.actionable);
    put_some_bool(&mut entries, "disabled", m.disabled);
    put_some_bool(&mut entries, "exact", m.exact);
    object(entries)
}

/// The JSON text of a matcher: the fields that are set, by name.
pub open spec fn matcher_json(m: MatcherView) -> Seq<char> {
    written_json(matcher_object(m))
}

impl CommandMatcher {
    /// The JSON text of a matcher: the fields that are set, by name.
    pub fn to_json_text(&self) -> (res: String)
        ensures
            res@ == matcher_json(self@),
    {
        write_json(&matcher_to_json(self))
    }
}

/// The JSON value of an optional text.
pub(crate) fn text_value(text: &Option<String>) -> (res: Option<JsonValue>)
    ensures
        opt_json(res) == some_text(opt_text(*text)),
{
    match text {
        Some(t) => Some(JsonValue::Text(t.clone())),
        None => None,
    }
}

/// The JSON value of an optional boolean.
pub(crate) fn bool_value(value: Option<bool>) -> (res: Option<JsonValue>)
    ensures
        opt_json(res) == some_bool(value),
{
    match value {
        Some(b) => Some(JsonValue::Bool(b)),
        None => None,
    }
}

/// The JSON value of an optional natural number.
pub(crate) fn unsigned_value(value: Option<u64>) -> (res: Option<JsonValue>)
    ensures
        opt_json(res) == some_unsigned(value),
{
    match value {
        Some(n) => Some(JsonValue::Unsigned(n)),
        None => None,
    }
}

fn opt_signed_value(value: Option<i64>) -> (res: Option<JsonValue>)
    ensures
        opt_json(res) == some_signed(value),
{
    match value {
        Some(n) => Some(signed_value(n)),
        None => None,
    }
}

fn number_value(value: &Option<String>) -> (res: Option<JsonValue>)
    ensures
        opt_json(res) == some_number(opt_text(*value)),
{
    match value {
        Some(n) => Some(JsonValue::Fraction(n.clone())),
        None => None,
    }
}

/// The record of a matcher: the fields that are set, in order.
pub open spec fn matcher_record(m: MatcherView) -> OutView {
    let r = Seq::<(Seq<char>, OutView)>::empty();
    let r = r + some_member("selector"@, some_text(m.selector));
    let r = r + some_member("test_id"@, some_text(m.test_id));
    let r = r + some_member("role"@, some_text(m.role));
    let r = r + some_member("name"@, some_text(m.name));
    let r = r + some_member("label"@, some_text(m.label));
    let r = r + some_member("control_type"@, some_text(m.control_type));
    let r = r + some_member("tag"@, some_text(m.tag));
    let r = r + some_member("text"@, some_text(m.text));
    let r = r + some_member("placeholder"@, some_text(m.placeholder));
    let r = r + some_member("href_contains"@, some_text(m.href_contains));
    let r = r + some_member("actionable"@, some_bool(m.actionable));
    let r = r + some_member("disabled"@, some_bool(m.disabled));
    let r = r + some_member("exact"@, some_bool(m.exact));
    OutView::Record(r)
}

fn matcher_to_out(m: &CommandMatcher) -> (res: JsonOut)
    ensures
        res@ == matcher_record(m@),
{
    let mut members = start_record();
    add_some(&mut members, "selector", text_value(&m.selector));
    add_some(&mut members, "test_id", text_value(&m.test_id));
    add_some(&mut members, "role", text_value(&m.role));
    add_some(&mut members, "name", text_value(&m.name));
    add_some(&mut members, "label", text_value(&m.label));
    add_some(&mut members, "control_type", text_value(&m.control_type));
    add_some(&mut members, "tag", text_value(&m.tag));
    add_some(&mut members, "text", text_value(&m.text));
    add_some(&mut members, "placeholder", text_value(&m.placeholder));
    add_some(&mut members, "href_contains", text_value(&m.href_contains));
    add_some(&mut members, "actionable", bool_value(m.actionable));
    add_some(&mut members, "disabled", bool_value(m.disabled));
    add_some(&mut members, "exact", bool_value(m.exact));
    record(members)
}

/// The member of a target.
pub open spec fn target_member(t: TargetView) -> Seq<(Seq<char>, OutView)> {
    match t {
        TargetView::Id { id } => one_member("id"@, JsonView::Unsigned(id)),
        TargetView::Match { matcher } => seq![("match"@, matcher_record(matcher))],
    }
}

fn add_target(members: &mut Vec<(String, JsonOut)>, target: &CommandTarget)
    ensures
        out_members_view(final(members)@) == out_members_view(old(members)@) + target_member(
            target@,
        ),
{
    match target {
        CommandTarget::Id { id } => add_value(members, "id", JsonValue::Unsigned(*id)),
        CommandTarget::Match { matcher } => {
            let ghost before = out_members_view(members@);
            add_member(members, "match", matcher_to_out(matcher));
            assert(out_members_view(members@) =~= before + target_member(target@));
        },
    }
}

/// The member of an optional target.
pub open spec fn opt_target_member(t: Option<TargetView>) -> Seq<(Seq<char>, OutView)> {
    match t {
        Some(x) => seq![("target"@, OutView::Record(target_member(x)))],
        None => Seq::empty(),
    }
}

fn add_opt_target(members: &mut Vec<(String, JsonOut)>, target: &Option<CommandTarget>)
    ensures
        out_members_view(final(members)@) == out_members_view(old(members)@) + opt_target_member(
            opt_target(*target),
        ),
{
    let ghost before = out_members_view(members@);
    if let Some(t) = target {
        let mut inner = start_record();
        add_target(&mut inner, t);
        assert(out_members_view(inner@) =~= target_member(t@));
        add_member(members, "target", record(inner));
    }
    assert(out_members_view(members@) =~= before + opt_target_member(opt_target(*target)));
}

/// The record of a file.
pub open spec fn upload_record(u: UploadView) -> OutView {
    OutView::Record(
        one_member("name"@, JsonView::Text(u.name)) + some_member(
            "mime_type"@,
            some_text(u.mime_type),
        ) + one_member("base64"@, JsonView::Text(u.base64)) + some_member(
            "last_modified_ms"@,
            some_unsigned(u.last_modified_ms),
        ),
    )
}

fn upload_to_out(u: &UploadFilePayload) -> (res: JsonOut)
    ensures
        res@ == upload_record(u@),
{
    let mut members = start_record();
    add_value(&mut members, "name", JsonValue::text(u.name.as_str()));
    assert(out_members_view(members@) =~= one_member("name"@, JsonView::Text(u.name@)));
    add_some(&mut members, "mime_type", text_value(&u.mime_type));
    add_value(&mut members, "base64", JsonValue::text(u.base64.as_str()));
    add_some(&mut members, "last_modified_ms", unsigned_value(u.last_modified_ms));
    record(members)
}

/// The member of an optional list of files.
pub open spec fn uploads_member(files: Option<Seq<UploadView>>) -> Seq<(Seq<char>, OutView)> {
    match files {
        Some(list) => seq![
            ("files"@, OutView::List(Seq::new(list.len(), |i: int| upload_record(list[i])))),
        ],
        None => Seq::empty(),
    }
}

fn add_uploads(members: &mut Vec<(String, JsonOut)>, files: &Option<Vec<UploadFilePayload>>)
    ensures
        out_members_view(final(members)@) == out_members_view(old(members)@) + uploads_member(
            opt_uploads(*files),
        ),
{
    let ghost before = out_members_view(members@);
    if let Some(uploads) = files {
        let mut items: Vec<JsonOut> = Vec::new();
        let mut i: usize = 0;
        while i < uploads.len()
            invariant
                i <= uploads@.len(),
                items@.len() == i,
                forall|j: int| 0 <= j < i ==> (#[trigger] items@[j])@ == upload_record(uploads@[j]@),
            decreases uploads@.len() - i,
        {
            items.push(upload_to_out(&uploads[i]));
            i += 1;
        }
        proof {
            let views = uploads_view(uploads@);
            assert(outs_view(items@) =~= Seq::new(views.len(), |k: int| upload_record(views[k])));
        }
        add_member(members, "files", list(items));
    }
    assert(out_members_view(members@) =~= before + uploads_member(opt_uploads(*files)));
}

fn paths_to_json(paths: &Vec<String>) -> (res: JsonValue)
    ensures
        res@ == texts_json(texts(paths@)),
{
    let mut items: Vec<JsonValue> = Vec::new();
    let mut i: usize = 0;
    while i < paths.len()
        invariant
            i <= paths@.len(),
            items@.len() == i,
            forall|j: int| 0 <= j < i ==> (#[trigger] items@[j])@ == JsonView::Text(paths@[j]@),
        decreases paths@.len() - i,
    {
        items.push(JsonValue::text(paths[i].as_str()));
        i += 1;
    }
    proof {
        let views = texts(paths@);
        assert(values_view(items@) =~= Seq::new(views.len(), |k: int| JsonView::Text(views[k])));
    }
    array(items)
}

/// A number that fits a byte, widened.
pub open spec fn widened(n: Option<u8>) -> Option<u64> {
    match n {
        Some(x) => Some(x as u64),
        None => None,
    }
}

/// A number that fits 32 bits, widened.
pub open spec fn widened_steps(n: Option<u32>) -> Option<u64> {
    match n {
        Some(x) => Some(x as u64),
        None => None,
    }
}

fn start_typed(kind: &str) -> (res: Vec<(String, JsonOut)>)
    ensures
        out_members_view(res@) == one_member("type"@, JsonView::Text(kind@)),
{
    let mut members = start_record();
    add_value(&mut members, "type", JsonValue::text(kind));
    assert(out_members_view(members@) =~= one_member("type"@, JsonView::Text(kind@)));
    members
}

/// The record of a command: its type, and then its fields in order.
pub open spec fn command_record(c: CommandView) -> OutView {
    match c {
        CommandView::Click { target } => {
            let r = one_member("type"@, JsonView::Text("click"@));
            let r = r + target_member(target);
            OutView::Record(r)
        },
        CommandView::Hover { target } => {
            let r = one_member("type"@, JsonView::Text("hover"@));
            let r = r + target_member(target);
            OutView::Record(r)
        },
        CommandView::SetValue { target, value } => {
            let r = one_member("type"@, JsonView::Text("set_value"@));
            let r = r + target_member(target);
            let r = r + one_member("value"@, JsonView::Text(value));
            OutView::Record(r)
        },
        CommandView::SetFiles { target, paths, files } => {
            let r = one_member("type"@, JsonView::Text("set_files"@));
            let r = r + target_member(target);
            let r = r + one_member("paths"@, texts_json(paths));
            let r = r + uploads_member(files);
            OutView::Record(r)
        },
        CommandView::PressKey { target, key, code, alt_key, ctrl_key, meta_key, shift_key } => {
            let r = one_member("type"@, JsonView::Text("press_key"@));
            let r = r + opt_target_member(target);
            let r = r + one_member("key"@, JsonView::Text(key));
            let r = r + some_member("code"@, some_text(code));
            let r = r + one_member("alt_key"@, JsonView::Bool(alt_key));
            let r = r + one_member("ctrl_key"@, JsonView::Bool(ctrl_key));
            let r = r + one_member("meta_key"@, JsonView::Bool(meta_key));
            let r = r + one_member("shift_key"@, JsonView::Bool(shift_key));
            OutView::Record(r)
        },
        CommandView::WaitFor { target, selector, url_contains, title_contains, text, ready_state, scroll_x, scroll_y, scroll_changed, media_current_src_contains, media_ready_state_at_least, media_duration_known, animation_idle_ms, timeout_ms, poll_interval_ms } => {
            let r = one_member("type"@, JsonView::Text("wait_for"@));
            let r = r + opt_target_member(target);
            let r = r + some_member("selector"@, some_text(selector));
            let r = r + some_member("url_contains"@, some_text(url_contains));
            let r = r + some_member("title_contains"@, some_text(title_contains));
            let r = r + some_member("text"@, some_text(text));
            let r = r + some_member("ready_state"@, some_text(ready_state));
            let r = r + some_member("scroll_x"@, some_signed(scroll_x));
            let r = r + some_member("scroll_y"@, some_signed(scroll_y));
            let r = r + some_member("scroll_changed"@, some_bool(scroll_changed));
            let r = r + some_member("media_current_src_contains"@, some_text(media_current_src_contains));
            let r = r + some_member("media_ready_state_at_least"@, some_unsigned(widened(media_ready_state_at_least)));
            let r = r + some_member("media_duration_known"@, some_bool(media_duration_known));
            let r = r + some_member("animation_idle_ms"@, some_unsigned(animation_idle_ms));
            let r = r + some_member("timeout_ms"@, some_unsigned(timeout_ms));
            let r = r + some_member("poll_interval_ms"@, some_unsigned(poll_interval_ms));
            OutView::Record(r)
        },
        CommandView::Scroll { x, y } => {
            let r = one_member("type"@, JsonView::Text("scroll"@));
            let r = r + one_member("x"@, signed_json(x));
            let r = r + one_member("y"@, signed_json(y));
            OutView::Record(r)
        },
        CommandView::Drag { target, delta_x, delta_y, to_x, to_y, steps, handle } => {
            let r = one_member("type"@, JsonView::Text("drag"@));
            let r = r + target_member(target);
            let r = r + some_member("delta_x"@, some_number(delta_x));
            let r = r + some_member("delta_y"@, some_number(delta_y));
            let r = r + some_member("to_x"@, some_number(to_x));
            let r = r + some_member("to_y"@, some_number(to_y));
            let r = r + some_member("steps"@, some_unsigned(widened_steps(steps)));
            let r = r + some_member("handle"@, some_text(handle));
            OutView::Record(r)
        },
        CommandView::Geometry { target } => {
            let r = one_member("type"@, JsonView::Text("geometry"@));
            let r = r + target_member(target);
            OutView::Record(r)
        },
        CommandView::MediaState { target } => {
            let r = one_member("type"@, JsonView::Text("media_state"@));
            let r = r + opt_target_member(target);
            OutView::Record(r)
        },
        CommandView::Eval { code } => {
            let r = one_member("type"@, JsonView::Text("eval"@));
            let r = r + one_member("code"@, JsonView::Text(code));
            OutView::Record(r)
        },
    }
}

impl Command {
    /// The record of the command.
    pub fn to_out(&self) -> (res: JsonOut)
        ensures
            res@ == command_record(self@),
    {
        match self {
            Command::Click { target } => {
                let mut members = start_typed("click");
                add_target(&mut members, target);
                record(members)
            },
            Command::Hover { target } => {
                let mut members = start_typed("hover");
                add_target(&mut members, target);
                record(members)
            },
            Command::SetValue { target, value } => {
                let mut members = start_typed("set_value");
                add_target(&mut members, target);
                add_value(&mut members, "value", JsonValue::text(value.as_str()));
                record(members)
            },
            Command::SetFiles { target, paths, files } => {
                let mut members = start_typed("set_files");
                add_target(&mut members, target);
                add_value(&mut members, "paths", paths_to_json(paths));
                add_uploads(&mut members, files);
                record(members)
            },
            Command::PressKey { target, key, code, alt_key, ctrl_key, meta_key, shift_key } => {
                let mut members = start_typed("press_key");
                add_opt_target(&mut members, target);
                add_value(&mut members, "key", JsonValue::text(key.as_str()));
                add_some(&mut members, "code", text_value(code));
                add_value(&mut members, "alt_key", JsonValue::Bool(*alt_key));
                add_value(&mut members, "ctrl_key", JsonValue::Bool(*ctrl_key));
                add_value(&mut members, "meta_key", JsonValue::Bool(*meta_key));
                add_value(&mut members, "shift_key", JsonValue::Bool(*shift_key));
                record(members)
            },
            Command::WaitFor { target, selector, url_contains, title_contains, text, ready_state, scroll_x, scroll_y, scroll_changed, media_current_src_contains, media_ready_state_at_least, media_duration_known, animation_idle_ms, timeout_ms, poll_interval_ms } => {
                let mut members = start_typed("wait_for");
                add_opt_target(&mut members, target);
                add_some(&mut members, "selector", text_value(selector));
                add_some(&mut members, "url_contains", text_value(url_contains));
                add_some(&mut members, "title_contains", text_value(title_contains));
                add_some(&mut members, "text", text_value(text));
                add_some(&mut members, "ready_state", text_value(ready_state));
                add_some(&mut members, "scroll_x", opt_signed_value(*scroll_x));
                add_some(&mut members, "scroll_y", opt_signed_value(*scroll_y));
                add_some(&mut members, "scroll_changed", bool_value(*scroll_changed));
                add_some(&mut members, "media_current_src_contains", text_value(media_current_src_contains));
                let ready = match media_ready_state_at_least {
                    Some(n) => Some(*n as u64),
                    None => None,
                };
                add_some(&mut members, "media_ready_state_at_least", unsigned_value(ready));
                add_some(&mut members, "media_duration_known", bool_value(*media_duration_known));
                add_some(&mut members, "animation_idle_ms", unsigned_value(*animation_idle_ms));
                add_some(&mut members, "timeout_ms", unsigned_value(*timeout_ms));
                add_some(&mut members, "poll_interval_ms", unsigned_value(*poll_interval_ms));
                record(members)
            },
            Command::Scroll { x, y } => {
                let mut members = start_typed("scroll");
                add_value(&mut members, "x", signed_value(*x));
                add_value(&mut members, "y", signed_value(*y));
                record(members)
            },
            Command::Drag { target, delta_x, delta_y, to_x, to_y, steps, handle } => {
                let mut members = start_typed("drag");
                add_target(&mut members, target);
                add_some(&mut members, "delta_x", number_value(delta_x));
                add_some(&mut members, "delta_y", number_value(delta_y));
                add_some(&mut members, "to_x", number_value(to_x));
                add_some(&mut members, "to_y", number_value(to_y));
                let count = match steps {
                    Some(n) => Some(*n as u64),
                    None => None,
                };
                add_some(&mut members, "steps", unsigned_value(count));
                add_some(&mut members, "handle", text_value(handle));
                record(members)
            },
            Command::Geometry { target } => {
                let mut members = start_typed("geometry");
                add_target(&mut members, target);
                record(members)
            },
            Command::MediaState { target } => {
                let mut members = start_typed("media_state");
                add_opt_target(&mut members, target);
                record(members)
            },
            Command::Eval { code } => {
                let mut members = start_typed("eval");
                add_value(&mut members, "code", JsonValue::text(code.as_str()));
                record(members)
            },
        }
    }
}

/// The records of a list of commands.
pub open spec fn command_records(list: Seq<CommandView>) -> Seq<OutView> {
    Seq::new(list.len(), |i: int| command_record(list[i]))
}

/// The record of a batch.
pub open spec fn batch_record(b: BatchRequestView) -> OutView {
    OutView::Record(
        seq![
            ("batch_id"@, OutView::Value(JsonView::Unsigned(b.batch_id))),
            (
                "commands"@,
                OutView::List(command_records(b.commands)),
            ),
        ],
    )
}

/// A batch as it is sent. Where network events are to be captured it says so, and its members
/// go by name.
pub open spec fn batch_message(b: BatchRequestView, capture_network_events: bool) -> OutView {
    if capture_network_events {
        OutView::Value(
            with_member(
                plain(batch_record(b)),
                "capture_network_events"@,
                JsonView::Bool(true),
            ),
        )
    } else {
        batch_record(b)
    }
}

/// The JSON value that a value to be written stands for.
pub fn to_plain(value: &JsonOut) -> (res: JsonValue)
    ensures
        res@ == plain(value@),
    decreases value,
{
    broadcast use lemma_out_view;

    proof {
        lemma_plain(value@);
    }
    match value {
        JsonOut::Value(v) => v.clone(),
        JsonOut::List(items) => {
            let mut out: Vec<JsonValue> = Vec::new();
            let mut i: usize = 0;
            while i < items.len()
                invariant
                    i <= items@.len(),
                    *value == JsonOut::List(*items),
                    out@.len() == i,
                    forall|j: int| 0 <= j < i ==> (#[trigger] out@[j])@ == plain(items@[j]@),
                decreases items@.len() - i,
            {
                assert(decreases_to!(*value => value->List_0));
                assert(decreases_to!(*items => items@[i as int]));
                out.push(to_plain(&items[i]));
                i += 1;
            }
            assert(values_view(out@) =~= plain_items(outs_view(items@)));
            array(out)
        },
        JsonOut::Record(members) => {
            let mut out: Vec<(String, JsonValue)> = Vec::new();
            let mut i: usize = 0;
            while i < members.len()
                invariant
                    i <= members@.len(),
                    *value == JsonOut::Record(*members),
                    out@.len() == i,
                    forall|j: int|
                        0 <= j < i ==> (#[trigger] out@[j]).0@ == members@[j].0@ && out@[j].1@
                            == plain(members@[j].1@),
                decreases members@.len() - i,
            {
                assert(decreases_to!(*value => value->Record_0));
                assert(decreases_to!(*members => members@[i as int]));
                assert(decreases_to!(members@[i as int] => members@[i as int].1));
                out.push((members[i].0.clone(), to_plain(&members[i].1)));
                i += 1;
            }
            assert(entries_view(out@) =~= plain_members(out_members_view(members@)));
            object(out)
        },
    }
}

impl BatchRequest {
    /// The batch as it is sent.
    pub fn to_message(&self, capture_network_events: bool) -> (res: JsonOut)
        ensures
            res@ == batch_message(self@, capture_network_events),
    {
        let mut items: Vec<JsonOut> = Vec::new();
        let mut i: usize = 0;
        while i < self.commands.len()
            invariant
                i <= self.commands@.len(),
                items@.len() == i,
                forall|j: int|
                    0 <= j < i ==> (#[trigger] items@[j])@ == command_record(self.commands@[j]@),
            decreases self.commands@.len() - i,
        {
            items.push(self.commands[i].to_out());
            i += 1;
        }
        assert(outs_view(items@) =~= command_records(commands_view(self.commands@)));
        let mut members = start_record();
        add_member(&mut members, "batch_id", JsonOut::Value(JsonValue::Unsigned(self.batch_id)));
        add_member(&mut members, "commands", list(items));
        let batch = record(members);
        assert(batch@->Record_0 =~= batch_record(self@)->Record_0);
        if capture_network_events {
            JsonOut::Value(
                set_member(&to_plain(&batch), "capture_network_events", JsonValue::Bool(true)),
            )
        } else {
            batch
        }
    }
}

/// The JSON text of a batch.
pub fn encode_batch(request: &BatchRequest) -> (res: String)
    ensures
        res@ == written_out(batch_record(request@)),
{
    write_out(&request.to_message(false))
}

/// Every command of a batch is sent, in its place, whether network events are captured or not.
pub proof fn law_batch_keeps_commands(b: BatchRequestView, capture_network_events: bool, i: int)
    requires
        0 <= i < b.commands.len(),
    ensures
        ({
            let sent = plain(batch_message(b, capture_network_events))->Object_0["commands"@];
            &&& sent->Array_0.len() == b.commands.len()
            &&& sent->Array_0[i] == plain(command_record(b.commands[i]))
        }),
{
    reveal_strlit("batch_id");
    reveal_strlit("commands");
    reveal_strlit("capture_network_events");
    assert("batch_id"@[0] == 'b' && "commands"@[0] == 'c');
    assert("commands"@.len() != "capture_network_events"@.len());
    let r = batch_record(b);
    let members = r->Record_0;
    lemma_plain(r);
    lemma_plain(members[1].1);
    assert(plain_members(members).last() == ("commands"@, plain(members[1].1)));
    assert(plain(members[1].1) == JsonView::Array(plain_items(command_records(b.commands))));
}

/// The text that a reader finds, if it finds one.
pub open spec fn told_text(v: Option<JsonView>) -> Option<Seq<char>> {
    match v {
        Some(JsonView::Text(t)) => Some(t),
        _ => None,
    }
}

/// The flag that a reader finds, if it finds one.
pub open spec fn told_flag(v: Option<JsonView>) -> Option<bool> {
    match v {
        Some(JsonView::Bool(b)) => Some(b),
        _ => None,
    }
}

/// The whole number that a reader finds, if it finds one.
pub open spec fn told_number(v: Option<JsonView>) -> Option<int> {
    match v {
        Some(JsonView::Unsigned(n)) => Some(n as int),
        Some(JsonView::Negative(n)) => Some(n as int),
        _ => None,
    }
}

/// The description of a node that a reader makes of an object.
pub open spec fn matcher_read(v: JsonView) -> MatcherView {
    MatcherView {
        selector: told_text(member(v, "selector"@)),
        test_id: told_text(member(v, "test_id"@)),
        role: told_text(member(v, "role"@)),
        name: told_text(member(v, "name"@)),
        label: told_text(member(v, "label"@)),
        control_type: told_text(member(v, "control_type"@)),
        tag: told_text(member(v, "tag"@)),
        text: told_text(member(v, "text"@)),
        placeholder: told_text(member(v, "placeholder"@)),
        href_contains: told_text(member(v, "href_contains"@)),
        actionable: told_flag(member(v, "actionable"@)),
        disabled: told_flag(member(v, "disabled"@)),
        exact: told_flag(member(v, "exact"@)),
    }
}

broadcast proof fn lemma_inserted_some(
    o: Map<Seq<char>, JsonView>,
    own: Seq<char>,
    value: Option<JsonView>,
    name: Seq<char>,
)
    ensures
        #[trigger] member(JsonView::Object(insert_some(o, own, value)), name) == if own == name
            && value is Some {
            value
        } else {
            member(JsonView::Object(o), name)
        },
{
}

#[verifier::spinoff_prover]
#[verifier::rlimit(60)]
proof fn lemma_matcher_object(m: MatcherView)
    ensures
        matcher_read(matcher_object(m)) == m,
{
    broadcast use lemma_inserted_some;

    reveal_strlit("selector");
    reveal_strlit("test_id");
    reveal_strlit("role");
    reveal_strlit("name");
    reveal_strlit("label");
    reveal_strlit("control_type");
    reveal_strlit("tag");
    reveal_strlit("text");
    reveal_strlit("placeholder");
    reveal_strlit("href_contains");
    reveal_strlit("actionable");
    reveal_strlit("disabled");
    reveal_strlit("exact");
    assert("selector"@.len() == 8 && "test_id"@.len() == 7 && "role"@.len() == 4 && "name"@.len() == 4 && "label"@.len() == 5 && "control_type"@.len() == 12 && "tag"@.len() == 3 && "text"@.len() == 4 && "placeholder"@.len() == 11 && "href_contains"@.len() == 13 && "actionable"@.len() == 10 && "disabled"@.len() == 8 && "exact"@.len() == 5);
    assert("selector"@[0] == 's' && "role"@[0] == 'r' && "name"@[0] == 'n' && "label"@[0] == 'l' && "text"@[0] == 't' && "disabled"@[0] == 'd' && "exact"@[0] == 'e');
}

#[verifier::spinoff_prover]
#[verifier::rlimit(60)]
proof fn lemma_matcher_record(m: MatcherView)
    ensures
        matcher_read(plain(matcher_record(m))) == m,
{
    broadcast use crate::json::group_found;

    reveal_strlit("selector");
    reveal_strlit("test_id");
    reveal_strlit("role");
    reveal_strlit("name");
    reveal_strlit("label");
    reveal_strlit("control_type");
    reveal_strlit("tag");
    reveal_strlit("text");
    reveal_strlit("placeholder");
    reveal_strlit("href_contains");
    reveal_strlit("actionable");
    reveal_strlit("disabled");
    reveal_strlit("exact");
    assert("selector"@.len() == 8 && "test_id"@.len() == 7 && "role"@.len() == 4 && "name"@.len() == 4 && "label"@.len() == 5 && "control_type"@.len() == 12 && "tag"@.len() == 3 && "text"@.len() == 4 && "placeholder"@.len() == 11 && "href_contains"@.len() == 13 && "actionable"@.len() == 10 && "disabled"@.len() == 8 && "exact"@.len() == 5);
    assert("selector"@[0] == 's' && "role"@[0] == 'r' && "name"@[0] == 'n' && "label"@[0] == 'l' && "text"@[0] == 't' && "disabled"@[0] == 'd' && "exact"@[0] == 'e');
    let r = matcher_record(m);
    assert(member(plain(r), "selector"@) == found(r, "selector"@));
    assert(member(plain(r), "test_id"@) == found(r, "test_id"@));
    assert(member(plain(r), "role"@) == found(r, "role"@));
    assert(member(plain(r), "name"@) == found(r, "name"@));
    assert(member(plain(r), "label"@) == found(r, "label"@));
    assert(member(plain(r), "control_type"@) == found(r, "control_type"@));
    assert(member(plain(r), "tag"@) == found(r, "tag"@));
    assert(member(plain(r), "text"@) == found(r, "text"@));
    assert(member(plain(r), "placeholder"@) == found(r, "placeholder"@));
    assert(member(plain(r), "href_contains"@) == found(r, "href_contains"@));
    assert(member(plain(r), "actionable"@) == found(r, "actionable"@));
    assert(member(plain(r), "disabled"@) == found(r, "disabled"@));
    assert(member(plain(r), "exact"@) == found(r, "exact"@));
}

/// A description of a node can be read back from what is written of it, in a record or as an
/// object.
pub proof fn law_matcher_is_read_back(m: MatcherView)
    ensures
        matcher_read(plain(matcher_record(m))) == m,
        matcher_read(matcher_object(m)) == m,
{
    lemma_matcher_object(m);
    lemma_matcher_record(m);
}

/// Whether an object tells a target: the identifier of a node, or a description of one.
pub open spec fn tells_target(v: JsonView, target: TargetView) -> bool {
    match target {
        TargetView::Id { id } => told_number(member(v, "id"@)) == Some(id as int) && member(
            v,
            "match"@,
        ) is None,
        TargetView::Match { matcher } => (member(v, "match"@) matches Some(x) && matcher_read(x)
            == matcher) && member(v, "id"@) is None,
    }
}

broadcast proof fn lemma_found_target(t: TargetView, name: Seq<char>)
    ensures
        #[trigger] found(OutView::Record(target_member(t)), name) == match t {
            TargetView::Id { id } => if name == "id"@ {
                Some(JsonView::Unsigned(id))
            } else {
                None
            },
            TargetView::Match { matcher } => if name == "match"@ {
                Some(plain(matcher_record(matcher)))
            } else {
                None
            },
        },
{
    broadcast use crate::json::group_found;

}

broadcast proof fn lemma_found_opt_target(t: Option<TargetView>, name: Seq<char>)
    ensures
        #[trigger] found(OutView::Record(opt_target_member(t)), name) == if t is Some && name
            == "target"@ {
            Some(plain(OutView::Record(target_member(t->Some_0))))
        } else {
            None
        },
{
    broadcast use crate::json::group_found;

}

broadcast proof fn lemma_found_uploads(files: Option<Seq<UploadView>>, name: Seq<char>)
    ensures
        #[trigger] found(OutView::Record(uploads_member(files)), name) == if files is Some && name
            == "files"@ {
            Some(
                plain(
                    OutView::List(
                        Seq::new(files->Some_0.len(), |i: int| upload_record(files->Some_0[i])),
                    ),
                ),
            )
        } else {
            None
        },
{
    broadcast use crate::json::group_found;

}

/// The file that a reader makes of a record.
pub open spec fn upload_read(v: JsonView) -> UploadView {
    UploadView {
        name: match told_text(member(v, "name"@)) {
            Some(t) => t,
            None => Seq::empty(),
        },
        mime_type: told_text(member(v, "mime_type"@)),
        base64: match told_text(member(v, "base64"@)) {
            Some(t) => t,
            None => Seq::empty(),
        },
        last_modified_ms: match member(v, "last_modified_ms"@) {
            Some(JsonView::Unsigned(n)) => Some(n),
            _ => None,
        },
    }
}

/// A file to be uploaded can be read back from its record.
pub proof fn law_upload_is_read_back(u: UploadView)
    ensures
        upload_read(plain(upload_record(u))) == u,
{
    broadcast use crate::json::group_found;

    reveal_strlit("name");
    reveal_strlit("mime_type");
    reveal_strlit("base64");
    reveal_strlit("last_modified_ms");
    assert("name"@.len() == 4 && "mime_type"@.len() == 9 && "base64"@.len() == 6 && "last_modified_ms"@.len() == 16);
    let r = upload_record(u);
    assert(member(plain(r), "name"@) == found(r, "name"@));
    assert(member(plain(r), "mime_type"@) == found(r, "mime_type"@));
    assert(member(plain(r), "base64"@) == found(r, "base64"@));
    assert(member(plain(r), "last_modified_ms"@) == found(r, "last_modified_ms"@));
}

/// The record of a click names the kind of the command and tells each of its parts under its name.
pub proof fn law_record_of_click(c: CommandView)
    requires
        c is Click,
    ensures
        ({
            let r = command_record(c);
            &&& told_text(found(r, "type"@)) == Some("click"@)
            &&& tells_target(plain(r), c->Click_target)
        }),
{
    broadcast use {crate::json::group_found, lemma_found_target, lemma_found_opt_target, lemma_found_uploads};

    reveal_strlit("type");
    reveal_strlit("id");
    reveal_strlit("match");
    assert("type"@.len() == 4 && "id"@.len() == 2 && "match"@.len() == 5);
    let r = command_record(c);
    assert(member(plain(r), "id"@) == found(r, "id"@));
    assert(member(plain(r), "match"@) == found(r, "match"@));
    if let TargetView::Match { matcher } = c->Click_target {
        law_matcher_is_read_back(matcher);
    }
}

/// The record of a hover names the kind of the command and tells each of its parts under its name.
pub proof fn law_record_of_hover(c: CommandView)
    requires
        c is Hover,
    ensures
        ({
            let r = command_record(c);
            &&& told_text(found(r, "type"@)) == Some("hover"@)
            &&& tells_target(plain(r), c->Hover_target)
        }),
{
    broadcast use {crate::json::group_found, lemma_found_target, lemma_found_opt_target, lemma_found_uploads};

    reveal_strlit("type");
    reveal_strlit("id");
    reveal_strlit("match");
    assert("type"@.len() == 4 && "id"@.len() == 2 && "match"@.len() == 5);
    let r = command_record(c);
    assert(member(plain(r), "id"@) == found(r, "id"@));
    assert(member(plain(r), "match"@) == found(r, "match"@));
    if let TargetView::Match { matcher } = c->Hover_target {
        law_matcher_is_read_back(matcher);
    }
}

/// The record of setting a value names the kind of the command and tells each of its parts under its name.
pub proof fn law_record_of_set_value(c: CommandView)
    requires
        c is SetValue,
    ensures
        ({
            let r = command_record(c);
            &&& told_text(found(r, "type"@)) == Some("set_value"@)
            &&& tells_target(plain(r), c->SetValue_target)
            &&& told_text(found(r, "value"@)) == Some(c->SetValue_value)
        }),
{
    broadcast use {crate::json::group_found, lemma_found_target, lemma_found_opt_target, lemma_found_uploads};

    reveal_strlit("type");
    reveal_strlit("id");
    reveal_strlit("match");
    reveal_strlit("value");
    assert("type"@.len() == 4 && "id"@.len() == 2 && "match"@.len() == 5 && "value"@.len() == 5);
    assert("match"@[0] == 'm' && "value"@[0] == 'v');
    let r = command_record(c);
    assert(member(plain(r), "id"@) == found(r, "id"@));
    assert(member(plain(r), "match"@) == found(r, "match"@));
    if let TargetView::Match { matcher } = c->SetValue_target {
        law_matcher_is_read_back(matcher);
    }
}

/// The record of setting files names the kind of the command and tells each of its parts under its name.
pub proof fn law_record_of_set_files(c: CommandView)
    requires
        c is SetFiles,
    ensures
        ({
            let r = command_record(c);
            &&& told_text(found(r, "type"@)) == Some("set_files"@)
            &&& tells_target(plain(r), c->SetFiles_target)
            &&& found(r, "paths"@) matches Some(JsonView::Array(items)) && items.len() == c->SetFiles_paths.len() && forall|i: int| 0 <= i < items.len() ==> #[trigger] items[i] == JsonView::Text(c->SetFiles_paths[i])
            &&& c->SetFiles_files is None ==> found(r, "files"@) is None
            &&& c->SetFiles_files is Some ==> (found(r, "files"@) matches Some(JsonView::Array(items))
                && items.len() == c->SetFiles_files->Some_0.len() && forall|i: int|
                0 <= i < items.len() ==> upload_read(#[trigger] items[i]) == c->SetFiles_files->Some_0[i])
        }),
{
    broadcast use {crate::json::group_found, lemma_found_target, lemma_found_opt_target, lemma_found_uploads};

    reveal_strlit("type");
    reveal_strlit("id");
    reveal_strlit("match");
    reveal_strlit("paths");
    reveal_strlit("files");
    assert("type"@.len() == 4 && "id"@.len() == 2 && "match"@.len() == 5 && "paths"@.len() == 5 && "files"@.len() == 5);
    assert("match"@[0] == 'm' && "paths"@[0] == 'p' && "files"@[0] == 'f');
    let r = command_record(c);
    assert(member(plain(r), "id"@) == found(r, "id"@));
    assert(member(plain(r), "match"@) == found(r, "match"@));
    if let TargetView::Match { matcher } = c->SetFiles_target {
        law_matcher_is_read_back(matcher);
    }
    if let Some(list) = c->SetFiles_files {
        let l = OutView::List(Seq::new(list.len(), |i: int| upload_record(list[i])));
        lemma_plain(l);
        assert forall|i: int| 0 <= i < list.len() implies upload_read(
            #[trigger] plain(l)->Array_0[i],
        ) == list[i] by {
            law_upload_is_read_back(list[i]);
        }
    }
}

/// The record of pressing a key names the kind of the command and tells each of its parts under its name.
pub proof fn law_record_of_press_key(c: CommandView)
    requires
        c is PressKey,
    ensures
        ({
            let r = command_record(c);
            &&& told_text(found(r, "type"@)) == Some("press_key"@)
            &&& c->PressKey_target is None ==> found(r, "target"@) is None
            &&& c->PressKey_target is Some ==> (found(r, "target"@) matches Some(t) && tells_target(t, c->PressKey_target->Some_0))
            &&& told_text(found(r, "key"@)) == Some(c->PressKey_key)
            &&& told_text(found(r, "code"@)) == c->PressKey_code
            &&& told_flag(found(r, "alt_key"@)) == Some(c->PressKey_alt_key)
            &&& told_flag(found(r, "ctrl_key"@)) == Some(c->PressKey_ctrl_key)
            &&& told_flag(found(r, "meta_key"@)) == Some(c->PressKey_meta_key)
            &&& told_flag(found(r, "shift_key"@)) == Some(c->PressKey_shift_key)
        }),
{
    broadcast use {crate::json::group_found, lemma_found_target, lemma_found_opt_target, lemma_found_uploads};

    reveal_strlit("type");
    reveal_strlit("target");
    reveal_strlit("id");
    reveal_strlit("match");
    reveal_strlit("key");
    reveal_strlit("code");
    reveal_strlit("alt_key");
    reveal_strlit("ctrl_key");
    reveal_strlit("meta_key");
    reveal_strlit("shift_key");
    assert("type"@.len() == 4 && "target"@.len() == 6 && "id"@.len() == 2 && "match"@.len() == 5 && "key"@.len() == 3 && "code"@.len() == 4 && "alt_key"@.len() == 7 && "ctrl_key"@.len() == 8 && "meta_key"@.len() == 8 && "shift_key"@.len() == 9);
    assert("type"@[0] == 't' && "code"@[0] == 'c' && "ctrl_key"@[0] == 'c' && "meta_key"@[0] == 'm');
    let r = command_record(c);
    if let Some(t) = c->PressKey_target {
        let o = OutView::Record(target_member(t));
        assert(member(plain(o), "id"@) == found(o, "id"@));
        assert(member(plain(o), "match"@) == found(o, "match"@));
        if let TargetView::Match { matcher } = t {
            law_matcher_is_read_back(matcher);
        }
    }
}

/// The record of a wait names the kind of the command and tells each of its parts under its name.
#[verifier::spinoff_prover]
#[verifier::rlimit(80)]
pub proof fn law_record_of_wait_for(c: CommandView)
    requires
        c is WaitFor,
    ensures
        ({
            let r = command_record(c);
            &&& told_text(found(r, "type"@)) == Some("wait_for"@)
            &&& c->WaitFor_target is None ==> found(r, "target"@) is None
            &&& c->WaitFor_target is Some ==> (found(r, "target"@) matches Some(t) && tells_target(t, c->WaitFor_target->Some_0))
            &&& told_text(found(r, "selector"@)) == c->WaitFor_selector
            &&& told_text(found(r, "url_contains"@)) == c->WaitFor_url_contains
            &&& told_text(found(r, "title_contains"@)) == c->WaitFor_title_contains
            &&& told_text(found(r, "text"@)) == c->WaitFor_text
            &&& told_text(found(r, "ready_state"@)) == c->WaitFor_ready_state
            &&& c->WaitFor_scroll_x is None ==> found(r, "scroll_x"@) is None
            &&& c->WaitFor_scroll_x is Some ==> told_number(found(r, "scroll_x"@)) == Some(c->WaitFor_scroll_x->Some_0 as int)
            &&& c->WaitFor_scroll_y is None ==> found(r, "scroll_y"@) is None
            &&& c->WaitFor_scroll_y is Some ==> told_number(found(r, "scroll_y"@)) == Some(c->WaitFor_scroll_y->Some_0 as int)
            &&& told_flag(found(r, "scroll_changed"@)) == c->WaitFor_scroll_changed
            &&& told_text(found(r, "media_current_src_contains"@)) == c->WaitFor_media_current_src_contains
            &&& c->WaitFor_media_ready_state_at_least is None ==> found(r, "media_ready_state_at_least"@) is None
            &&& c->WaitFor_media_ready_state_at_least is Some ==> told_number(found(r, "media_ready_state_at_least"@)) == Some(c->WaitFor_media_ready_state_at_least->Some_0 as int)
            &&& told_flag(found(r, "media_duration_known"@)) == c->WaitFor_media_duration_known
            &&& c->WaitFor_animation_idle_ms is None ==> found(r, "animation_idle_ms"@) is None
            &&& c->WaitFor_animation_idle_ms is Some ==> told_number(found(r, "animation_idle_ms"@)) == Some(c->WaitFor_animation_idle_ms->Some_0 as int)
            &&& c->WaitFor_timeout_ms is None ==> found(r, "timeout_ms"@) is None
            &&& c->WaitFor_timeout_ms is Some ==> told_number(found(r, "timeout_ms"@)) == Some(c->WaitFor_timeout_ms->Some_0 as int)
            &&& c->WaitFor_poll_interval_ms is None ==> found(r, "poll_interval_ms"@) is None
            &&& c->WaitFor_poll_interval_ms is Some ==> told_number(found(r, "poll_interval_ms"@)) == Some(c->WaitFor_poll_interval_ms->Some_0 as int)
        }),
{
    broadcast use {crate::json::group_found, lemma_found_target, lemma_found_opt_target, lemma_found_uploads};

    reveal_strlit("type");
    reveal_strlit("target");
    reveal_strlit("id");
    reveal_strlit("match");
    reveal_strlit("selector");
    reveal_strlit("url_contains");
    reveal_strlit("title_contains");
    reveal_strlit("text");
    reveal_strlit("ready_state");
    reveal_strlit("scroll_x");
    reveal_strlit("scroll_y");
    reveal_strlit("scroll_changed");
    reveal_strlit("media_current_src_contains");
    reveal_strlit("media_ready_state_at_least");
    reveal_strlit("media_duration_known");
    reveal_strlit("animation_idle_ms");
    reveal_strlit("timeout_ms");
    reveal_strlit("poll_interval_ms");
    assert("type"@.len() == 4 && "target"@.len() == 6 && "id"@.len() == 2 && "match"@.len() == 5 && "selector"@.len() == 8 && "url_contains"@.len() == 12 && "title_contains"@.len() == 14 && "text"@.len() == 4 && "ready_state"@.len() == 11 && "scroll_x"@.len() == 8 && "scroll_y"@.len() == 8 && "scroll_changed"@.len() == 14 && "media_current_src_contains"@.len() == 26 && "media_ready_state_at_least"@.len() == 26 && "media_duration_known"@.len() == 20 && "animation_idle_ms"@.len() == 17 && "timeout_ms"@.len() == 10 && "poll_interval_ms"@.len() == 16);
    assert("type"@[1] == 'y' && "selector"@[1] == 'e' && "title_contains"@[0] == 't' && "text"@[1] == 'e' && "scroll_x"@[1] == 'c' && "scroll_x"@[7] == 'x' && "scroll_y"@[1] == 'c' && "scroll_y"@[7] == 'y' && "scroll_changed"@[0] == 's' && "media_current_src_contains"@[6] == 'c' && "media_ready_state_at_least"@[6] == 'r');
    let r = command_record(c);
    if let Some(t) = c->WaitFor_target {
        let o = OutView::Record(target_member(t));
        assert(member(plain(o), "id"@) == found(o, "id"@));
        assert(member(plain(o), "match"@) == found(o, "match"@));
        if let TargetView::Match { matcher } = t {
            law_matcher_is_read_back(matcher);
        }
    }
}

/// The record of scrolling names the kind of the command and tells each of its parts under its name.
pub proof fn law_record_of_scroll(c: CommandView)
    requires
        c is Scroll,
    ensures
        ({
            let r = command_record(c);
            &&& told_text(found(r, "type"@)) == Some("scroll"@)
            &&& told_number(found(r, "x"@)) == Some(c->Scroll_x as int)
            &&& told_number(found(r, "y"@)) == Some(c->Scroll_y as int)
        }),
{
    broadcast use {crate::json::group_found, lemma_found_target, lemma_found_opt_target, lemma_found_uploads};

    reveal_strlit("type");
    reveal_strlit("x");
    reveal_strlit("y");
    assert("type"@.len() == 4 && "x"@.len() == 1 && "y"@.len() == 1);
    assert("x"@[0] == 'x' && "y"@[0] == 'y');
    let r = command_record(c);
}

/// The record of a drag names the kind of the command and tells each of its parts under its name.
pub proof fn law_record_of_drag(c: CommandView)
    requires
        c is Drag,
    ensures
        ({
            let r = command_record(c);
            &&& told_text(found(r, "type"@)) == Some("drag"@)
            &&& tells_target(plain(r), c->Drag_target)
            &&& c->Drag_delta_x is None ==> found(r, "delta_x"@) is None
            &&& c->Drag_delta_x is Some ==> found(r, "delta_x"@) == Some(JsonView::Fraction(c->Drag_delta_x->Some_0))
            &&& c->Drag_delta_y is None ==> found(r, "delta_y"@) is None
            &&& c->Drag_delta_y is Some ==> found(r, "delta_y"@) == Some(JsonView::Fraction(c->Drag_delta_y->Some_0))
            &&& c->Drag_to_x is None ==> found(r, "to_x"@) is None
            &&& c->Drag_to_x is Some ==> found(r, "to_x"@) == Some(JsonView::Fraction(c->Drag_to_x->Some_0))
            &&& c->Drag_to_y is None ==> found(r, "to_y"@) is None
            &&& c->Drag_to_y is Some ==> found(r, "to_y"@) == Some(JsonView::Fraction(c->Drag_to_y->Some_0))
            &&& c->Drag_steps is None ==> found(r, "steps"@) is None
            &&& c->Drag_steps is Some ==> told_number(found(r, "steps"@)) == Some(c->Drag_steps->Some_0 as int)
            &&& told_text(found(r, "handle"@)) == c->Drag_handle
        }),
{
    broadcast use {crate::json::group_found, lemma_found_target, lemma_found_opt_target, lemma_found_uploads};

    reveal_strlit("type");
    reveal_strlit("id");
    reveal_strlit("match");
    reveal_strlit("delta_x");
    reveal_strlit("delta_y");
    reveal_strlit("to_x");
    reveal_strlit("to_y");
    reveal_strlit("steps");
    reveal_strlit("handle");
    assert("type"@.len() == 4 && "id"@.len() == 2 && "match"@.len() == 5 && "delta_x"@.len() == 7 && "delta_y"@.len() == 7 && "to_x"@.len() == 4 && "to_y"@.len() == 4 && "steps"@.len() == 5 && "handle"@.len() == 6);
    assert("type"@[1] == 'y' && "match"@[0] == 'm' && "delta_x"@[6] == 'x' && "delta_y"@[6] == 'y' && "to_x"@[1] == 'o' && "to_x"@[3] == 'x' && "to_y"@[1] == 'o' && "to_y"@[3] == 'y' && "steps"@[0] == 's');
    let r = command_record(c);
    assert(member(plain(r), "id"@) == found(r, "id"@));
    assert(member(plain(r), "match"@) == found(r, "match"@));
    if let TargetView::Match { matcher } = c->Drag_target {
        law_matcher_is_read_back(matcher);
    }
}

/// The record of asking for the place of a node names the kind of the command and tells each of its parts under its name.
pub proof fn law_record_of_geometry(c: CommandView)
    requires
        c is Geometry,
    ensures
        ({
            let r = command_record(c);
            &&& told_text(found(r, "type"@)) == Some("geometry"@)
            &&& tells_target(plain(r), c->Geometry_target)
        }),
{
    broadcast use {crate::json::group_found, lemma_found_target, lemma_found_opt_target, lemma_found_uploads};

    reveal_strlit("type");
    reveal_strlit("id");
    reveal_strlit("match");
    assert("type"@.len() == 4 && "id"@.len() == 2 && "match"@.len() == 5);
    let r = command_record(c);
    assert(member(plain(r), "id"@) == found(r, "id"@));
    assert(member(plain(r), "match"@) == found(r, "match"@));
    if let TargetView::Match { matcher } = c->Geometry_target {
        law_matcher_is_read_back(matcher);
    }
}

/// The record of asking for media names the kind of the command and tells each of its parts under its name.
pub proof fn law_record_of_media_state(c: CommandView)
    requires
        c is MediaState,
    ensures
        ({
            let r = command_record(c);
            &&& told_text(found(r, "type"@)) == Some("media_state"@)
            &&& c->MediaState_target is None ==> found(r, "target"@) is None
            &&& c->MediaState_target is Some ==> (found(r, "target"@) matches Some(t) && tells_target(t, c->MediaState_target->Some_0))
        }),
{
    broadcast use {crate::json::group_found, lemma_found_target, lemma_found_opt_target, lemma_found_uploads};

    reveal_strlit("type");
    reveal_strlit("target");
    reveal_strlit("id");
    reveal_strlit("match");
    assert("type"@.len() == 4 && "target"@.len() == 6 && "id"@.len() == 2 && "match"@.len() == 5);
    let r = command_record(c);
    if let Some(t) = c->MediaState_target {
        let o = OutView::Record(target_member(t));
        assert(member(plain(o), "id"@) == found(o, "id"@));
        assert(member(plain(o), "match"@) == found(o, "match"@));
        if let TargetView::Match { matcher } = t {
            law_matcher_is_read_back(matcher);
        }
    }
}

/// The record of running a script names the kind of the command and tells each of its parts under its name.
pub proof fn law_record_of_eval(c: CommandView)
    requires
        c is Eval,
    ensures
        ({
            let r = command_record(c);
            &&& told_text(found(r, "type"@)) == Some("eval"@)
            &&& told_text(found(r, "code"@)) == Some(c->Eval_code)
        }),
{
    broadcast use {crate::json::group_found, lemma_found_target, lemma_found_opt_target, lemma_found_uploads};

    reveal_strlit("type");
    reveal_strlit("code");
    assert("type"@.len() == 4 && "code"@.len() == 4);
    assert("type"@[0] == 't' && "code"@[0] == 'c');
    let r = command_record(c);
}

/// A batch is sent with its number and its commands in order, and with a word on capturing network
/// events only where they are to be captured.
pub proof fn law_batch_is_sent_whole(b: BatchRequestView, capture_network_events: bool)
    ensures
        ({
            let sent = plain(batch_message(b, capture_network_events));
            &&& member(sent, "batch_id"@) == Some(JsonView::Unsigned(b.batch_id))
            &&& member(sent, "commands"@) matches Some(JsonView::Array(items))
            &&& items.len() == b.commands.len()
            &&& forall|i: int|
                0 <= i < items.len() ==> #[trigger] items[i] == plain(command_record(b.commands[i]))
        }),
        capture_network_events ==> member(
            plain(batch_message(b, capture_network_events)),
            "capture_network_events"@,
        ) == Some(JsonView::Bool(true)),
        !capture_network_events ==> member(
            plain(batch_message(b, capture_network_events)),
            "capture_network_events"@,
        ) is None,
{
    broadcast use crate::json::group_found;

    reveal_strlit("batch_id");
    reveal_strlit("commands");
    reveal_strlit("capture_network_events");
    assert("batch_id"@.len() == 8 && "commands"@.len() == 8 && "capture_network_events"@.len() == 22);
    assert("batch_id"@[0] == 'b' && "commands"@[0] == 'c');
    let r = batch_record(b);
    let l = OutView::List(command_records(b.commands));
    lemma_plain(l);
    lemma_plain(r);
    lemma_plain(OutView::Value(JsonView::Unsigned(b.batch_id)));
    lemma_plain(batch_message(b, capture_network_events));
    assert(r->Record_0 =~= Seq::empty().push(
        ("batch_id"@, OutView::Value(JsonView::Unsigned(b.batch_id))),
    ).push(("commands"@, l)));
    assert(member(plain(r), "batch_id"@) == found(r, "batch_id"@));
    assert(member(plain(r), "commands"@) == found(r, "commands"@));
    assert(member(plain(r), "capture_network_events"@) == found(r, "capture_network_events"@));
}

} // verus!
