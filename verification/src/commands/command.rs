//! The commands that an agent sends.

use vstd::prelude::*;

use crate::json::{clone_opt_json, opt_json, JsonValue, JsonView};
use crate::text::{clone_opt, clone_texts, opt_text, texts};

verus! {

pub use crate::dom::node::NodeId;
/// A file handed to a file input, with its contents in base64.
#[derive(Debug, PartialEq, Eq)]
pub struct UploadFilePayload {
    pub name: String,
    pub mime_type: Option<String>,
    pub base64: String,
    pub last_modified_ms: Option<u64>,
}

/// The contents of an `UploadFilePayload`.
#[verifier::ext_equal]
pub struct UploadView {
    pub name: Seq<char>,
    pub mime_type: Option<Seq<char>>,
    pub base64: Seq<char>,
    pub last_modified_ms: Option<u64>,
}

impl View for UploadFilePayload {
    type V = UploadView;

    open spec fn view(&self) -> UploadView {
        UploadView {
            name: self.name@,
            mime_type: opt_text(self.mime_type),
            base64: self.base64@,
            last_modified_ms: self.last_modified_ms,
        }
    }
}

impl Clone for UploadFilePayload {
    fn clone(&self) -> (res: Self)
        ensures
            res@ == self@,
    {
        UploadFilePayload {
            name: self.name.clone(),
            mime_type: clone_opt(&self.mime_type),
            base64: self.base64.clone(),
            last_modified_ms: self.last_modified_ms,
        }
    }
}

/// The contents of a list of files.
pub open spec fn uploads_view(files: Seq<UploadFilePayload>) -> Seq<UploadView> {
    Seq::new(files.len(), |i: int| files[i]@)
}

/// The contents of an optional list of files.
pub open spec fn opt_uploads(files: Option<Vec<UploadFilePayload>>) -> Option<Seq<UploadView>> {
    match files {
        Some(list) => Some(uploads_view(list@)),
        None => None,
    }
}

/// A copy of a list of files.
pub fn clone_uploads(files: &Vec<UploadFilePayload>) -> (res: Vec<UploadFilePayload>)
    ensures
        uploads_view(res@) == uploads_view(files@),
{
    let mut out: Vec<UploadFilePayload> = Vec::new();
    let mut i: usize = 0;
    while i < files.len()
        invariant
            i <= files@.len(),
            out@.len() == i,
            forall|j: int| 0 <= j < i ==> (#[trigger] out@[j])@ == files@[j]@,
        decreases files@.len() - i,
    {
        out.push(files[i].clone());
        i += 1;
    }
    assert(uploads_view(out@) =~= uploads_view(files@));
    out
}

/// A copy of an optional list of files.
pub fn clone_opt_uploads(files: &Option<Vec<UploadFilePayload>>) -> (res: Option<
    Vec<UploadFilePayload>,
>)
    ensures
        opt_uploads(res) == opt_uploads(*files),
{
    match files {
        Some(list) => Some(clone_uploads(list)),
        None => None,
    }
}

/// What a target node has to look like.
#[derive(Debug, PartialEq, Eq)]
pub struct CommandMatcher {
    pub selector: Option<String>,
    pub test_id: Option<String>,
    pub role: Option<String>,
    pub name: Option<String>,
    pub label: Option<String>,
    pub control_type: Option<String>,
    pub tag: Option<String>,
    pub text: Option<String>,
    pub placeholder: Option<String>,
    pub href_contains: Option<String>,
    pub actionable: Option<bool>,
    pub disabled: Option<bool>,
    pub exact: Option<bool>,
}

/// The contents of a `CommandMatcher`.
#[verifier::ext_equal]
pub struct MatcherView {
    pub selector: Option<Seq<char>>,
    pub test_id: Option<Seq<char>>,
    pub role: Option<Seq<char>>,
    pub name: Option<Seq<char>>,
    pub label: Option<Seq<char>>,
    pub control_type: Option<Seq<char>>,
    pub tag: Option<Seq<char>>,
    pub text: Option<Seq<char>>,
    pub placeholder: Option<Seq<char>>,
    pub href_contains: Option<Seq<char>>,
    pub actionable: Option<bool>,
    pub disabled: Option<bool>,
    pub exact: Option<bool>,
}

impl View for CommandMatcher {
    type V = MatcherView;

    open spec fn view(&self) -> MatcherView {
        MatcherView {
            selector: opt_text(self.selector),
            test_id: opt_text(self.test_id),
            role: opt_text(self.role),
            name: opt_text(self.name),
            label: opt_text(self.label),
            control_type: opt_text(self.control_type),
            tag: opt_text(self.tag),
            text: opt_text(self.text),
            placeholder: opt_text(self.placeholder),
            href_contains: opt_text(self.href_contains),
            actionable: self.actionable,
            disabled: self.disabled,
            exact: self.exact,
        }
    }
}

impl Clone for CommandMatcher {
    fn clone(&self) -> (res: Self)
        ensures
            res@ == self@,
    {
        CommandMatcher {
            selector: clone_opt(&self.selector),
            test_id: clone_opt(&self.test_id),
            role: clone_opt(&self.role),
            name: clone_opt(&self.name),
            label: clone_opt(&self.label),
            control_type: clone_opt(&self.control_type),
            tag: clone_opt(&self.tag),
            text: clone_opt(&self.text),
            placeholder: clone_opt(&self.placeholder),
            href_contains: clone_opt(&self.href_contains),
            actionable: self.actionable,
            disabled: self.disabled,
            exact: self.exact,
        }
    }
}

/// The node that a command acts on: by identifier, or the best match.
#[derive(Debug, PartialEq, Eq)]
pub enum CommandTarget {
    Id { id: NodeId },
    Match { matcher: CommandMatcher },
}

/// The contents of a `CommandTarget`.
#[verifier::ext_equal]
pub enum TargetView {
    Id { id: NodeId },
    Match { matcher: MatcherView },
}

impl View for CommandTarget {
    type V = TargetView;

    open spec fn view(&self) -> TargetView {
        match self {
            CommandTarget::Id { id } => TargetView::Id { id: *id },
            CommandTarget::Match { matcher } => TargetView::Match { matcher: matcher@ },
        }
    }
}

impl Clone for CommandTarget {
    fn clone(&self) -> (res: Self)
        ensures
            res@ == self@,
    {
        match self {
            CommandTarget::Id { id } => CommandTarget::Id { id: *id },
            CommandTarget::Match { matcher } => CommandTarget::Match { matcher: matcher.clone() },
        }
    }
}

/// The contents of an optional target.
pub open spec fn opt_target(target: Option<CommandTarget>) -> Option<TargetView> {
    match target {
        Some(t) => Some(t@),
        None => None,
    }
}

/// A copy of an optional target.
pub fn clone_opt_target(target: &Option<CommandTarget>) -> (res: Option<CommandTarget>)
    ensures
        opt_target(res) == opt_target(*target),
{
    match target {
        Some(t) => Some(t.clone()),
        None => None,
    }
}

/// A command.
#[derive(Debug, PartialEq, Eq)]
#[allow(inconsistent_fields)]
pub enum Command {
    Click { target: CommandTarget },
    Hover { target: CommandTarget },
    SetValue { target: CommandTarget, value: String },
    SetFiles {
        target: CommandTarget,
        paths: Vec<String>,
        files: Option<Vec<UploadFilePayload>>,
    },
    PressKey {
        target: Option<CommandTarget>,
        key: String,
        code: Option<String>,
        alt_key: bool,
        ctrl_key: bool,
        meta_key: bool,
        shift_key: bool,
    },
    WaitFor {
        target: Option<CommandTarget>,
        selector: Option<String>,
        url_contains: Option<String>,
        title_contains: Option<String>,
        text: Option<String>,
        ready_state: Option<String>,
        scroll_x: Option<i64>,
        scroll_y: Option<i64>,
        scroll_changed: Option<bool>,
        media_current_src_contains: Option<String>,
        media_ready_state_at_least: Option<u8>,
        media_duration_known: Option<bool>,
        animation_idle_ms: Option<u64>,
        timeout_ms: Option<u64>,
        poll_interval_ms: Option<u64>,
    },
    Scroll { x: i64, y: i64 },
    /// The distances and coordinates are numbers as JSON writes them.
    Drag {
        target: CommandTarget,
        delta_x: Option<String>,
        delta_y: Option<String>,
        to_x: Option<String>,
        to_y: Option<String>,
        steps: Option<u32>,
        handle: Option<String>,
    },
    Geometry { target: CommandTarget },
    MediaState { target: Option<CommandTarget> },
    Eval { code: String },
}

/// The contents of a `Command`.
#[verifier::ext_equal]
#[allow(inconsistent_fields)]
pub enum CommandView {
    Click { target: TargetView },
    Hover { target: TargetView },
    SetValue { target: TargetView, value: Seq<char> },
    SetFiles { target: TargetView, paths: Seq<Seq<char>>, files: Option<Seq<UploadView>> },
    PressKey {
        target: Option<TargetView>,
        key: Seq<char>,
        code: Option<Seq<char>>,
        alt_key: bool,
        ctrl_key: bool,
        meta_key: bool,
        shift_key: bool,
    },
    WaitFor {
        target: Option<TargetView>,
        selector: Option<Seq<char>>,
        url_contains: Option<Seq<char>>,
        title_contains: Option<Seq<char>>,
        text: Option<Seq<char>>,
        ready_state: Option<Seq<char>>,
        scroll_x: Option<i64>,
        scroll_y: Option<i64>,
        scroll_changed: Option<bool>,
        media_current_src_contains: Option<Seq<char>>,
        media_ready_state_at_least: Option<u8>,
        media_duration_known: Option<bool>,
        animation_idle_ms: Option<u64>,
        timeout_ms: Option<u64>,
        poll_interval_ms: Option<u64>,
    },
    Scroll { x: i64, y: i64 },
    Drag {
        target: TargetView,
        delta_x: Option<Seq<char>>,
        delta_y: Option<Seq<char>>,
        to_x: Option<Seq<char>>,
        to_y: Option<Seq<char>>,
        steps: Option<u32>,
        handle: Option<Seq<char>>,
    },
    Geometry { target: TargetView },
    MediaState { target: Option<TargetView> },
    Eval { code: Seq<char> },
}

impl View for Command {
    type V = CommandView;

    open spec fn view(&self) -> CommandView {
        match *self {
            Command::Click { target } => CommandView::Click { target: target@ },
            Command::Hover { target } => CommandView::Hover { target: target@ },
            Command::SetValue { target, value } => CommandView::SetValue {
                target: target@,
                value: value@,
            },
            Command::SetFiles { target, paths, files } => CommandView::SetFiles {
                target: target@,
                paths: texts(paths@),
                files: opt_uploads(files),
            },
            Command::PressKey { target, key, code, alt_key, ctrl_key, meta_key, shift_key } =>
            CommandView::PressKey {
                target: opt_target(target),
                key: key@,
                code: opt_text(code),
                alt_key,
                ctrl_key,
                meta_key,
                shift_key,
            },
            Command::WaitFor {
                target,
                selector,
                url_contains,
                title_contains,
                text,
                ready_state,
                scroll_x,
                scroll_y,
                scroll_changed,
                media_current_src_contains,
                media_ready_state_at_least,
                media_duration_known,
                animation_idle_ms,
                timeout_ms,
                poll_interval_ms,
            } => CommandView::WaitFor {
                target: opt_target(target),
                selector: opt_text(selector),
                url_contains: opt_text(url_contains),
                title_contains: opt_text(title_contains),
                text: opt_text(text),
                ready_state: opt_text(ready_state),
                scroll_x,
                scroll_y,
                scroll_changed,
                media_current_src_contains: opt_text(media_current_src_contains),
                media_ready_state_at_least,
                media_duration_known,
                animation_idle_ms,
                timeout_ms,
                poll_interval_ms,
            },
            Command::Scroll { x, y } => CommandView::Scroll { x, y },
            Command::Drag { target, delta_x, delta_y, to_x, to_y, steps, handle } =>
            CommandView::Drag {
                target: target@,
                delta_x: opt_text(delta_x),
                delta_y: opt_text(delta_y),
                to_x: opt_text(to_x),
                to_y: opt_text(to_y),
                steps,
                handle: opt_text(handle),
            },
            Command::Geometry { target } => CommandView::Geometry { target: target@ },
            Command::MediaState { target } => CommandView::MediaState {
                target: opt_target(target),
            },
            Command::Eval { code } => CommandView::Eval { code: code@ },
        }
    }
}

impl Clone for Command {
    fn clone(&self) -> (res: Self)
        ensures
            res@ == self@,
    {
        match self {
            Command::Click { target } => Command::Click { target: target.clone() },
            Command::Hover { target } => Command::Hover { target: target.clone() },
            Command::SetValue { target, value } => Command::SetValue {
                target: target.clone(),
                value: value.clone(),
            },
            Command::SetFiles { target, paths, files } => Command::SetFiles {
                target: target.clone(),
                paths: clone_texts(paths),
                files: clone_opt_uploads(files),
            },
            Command::PressKey { target, key, code, alt_key, ctrl_key, meta_key, shift_key } =>
            Command::PressKey {
                target: clone_opt_target(target),
                key: key.clone(),
                code: clone_opt(code),
                alt_key: *alt_key,
                ctrl_key: *ctrl_key,
                meta_key: *meta_key,
                shift_key: *shift_key,
            },
            Command::WaitFor {
                target,
                selector,
                url_contains,
                title_contains,
                text,
                ready_state,
                scroll_x,
                scroll_y,
                scroll_changed,
                media_current_src_contains,
                media_ready_state_at_least,
                media_duration_known,
                animation_idle_ms,
                timeout_ms,
                poll_interval_ms,
            } => Command::WaitFor {
                target: clone_opt_target(target),
                selector: clone_opt(selector),
                url_contains: clone_opt(url_contains),
                title_contains: clone_opt(title_contains),
                text: clone_opt(text),
                ready_state: clone_opt(ready_state),
                scroll_x: *scroll_x,
                scroll_y: *scroll_y,
                scroll_changed: *scroll_changed,
                media_current_src_contains: clone_opt(media_current_src_contains),
                media_ready_state_at_least: *media_ready_state_at_least,
                media_duration_known: *media_duration_known,
                animation_idle_ms: *animation_idle_ms,
                timeout_ms: *timeout_ms,
                poll_interval_ms: *poll_interval_ms,
            },
            Command::Scroll { x, y } => Command::Scroll { x: *x, y: *y },
            Command::Drag { target, delta_x, delta_y, to_x, to_y, steps, handle } =>
            Command::Drag {
                target: target.clone(),
                delta_x: clone_opt(delta_x),
                delta_y: clone_opt(delta_y),
                to_x: clone_opt(to_x),
                to_y: clone_opt(to_y),
                steps: *steps,
                handle: clone_opt(handle),
            },
            Command::Geometry { target } => Command::Geometry { target: target.clone() },
            Command::MediaState { target } => Command::MediaState {
                target: clone_opt_target(target),
            },
            Command::Eval { code } => Command::Eval { code: code.clone() },
        }
    }
}

/// The contents of a list of commands.
pub open spec fn commands_view(list: Seq<Command>) -> Seq<CommandView> {
    Seq::new(list.len(), |i: int| list[i]@)
}

/// A copy of a list of commands.
pub fn clone_commands(list: &Vec<Command>) -> (res: Vec<Command>)
    ensures
        commands_view(res@) == commands_view(list@),
{
    let mut out: Vec<Command> = Vec::new();
    let mut i: usize = 0;
    while i < list.len()
        invariant
            i <= list@.len(),
            out@.len() == i,
            forall|j: int| 0 <= j < i ==> (#[trigger] out@[j])@ == list@[j]@,
        decreases list@.len() - i,
    {
        out.push(list[i].clone());
        i += 1;
    }
    assert(commands_view(out@) =~= commands_view(list@));
    out
}

/// What a command came to.
#[derive(Debug, PartialEq, Eq)]
pub struct CommandResult {
    pub ok: bool,
    pub value: Option<JsonValue>,
    pub error: Option<String>,
}

/// The contents of a `CommandResult`.
#[verifier::ext_equal]
pub struct ResultView {
    pub ok: bool,
    pub value: Option<JsonView>,
    pub error: Option<Seq<char>>,
}

impl View for CommandResult {
    type V = ResultView;

    open spec fn view(&self) -> ResultView {
        ResultView { ok: self.ok, value: opt_json(self.value), error: opt_text(self.error) }
    }
}

impl Clone for CommandResult {
    fn clone(&self) -> (res: Self)
        ensures
            res@ == self@,
    {
        CommandResult {
            ok: self.ok,
            value: clone_opt_json(&self.value),
            error: clone_opt(&self.error),
        }
    }
}

/// The result of a command that succeeded with a value.
pub open spec fn result_ok(value: JsonView) -> ResultView {
    ResultView { ok: true, value: Some(value), error: None }
}

/// The result of a command that failed with a message.
pub open spec fn result_err(message: Seq<char>) -> ResultView {
    ResultView { ok: false, value: None, error: Some(message) }
}

/// The contents of a list of results.
pub open spec fn results_view(list: Seq<CommandResult>) -> Seq<ResultView> {
    Seq::new(list.len(), |i: int| list[i]@)
}

impl CommandResult {
    /// The result of a command that succeeded with a value.
    pub fn ok(value: JsonValue) -> (res: Self)
        ensures
            res@ == result_ok(value@),
    {
        CommandResult { ok: true, value: Some(value), error: None }
    }

    /// The result of a command that failed with a message.
    pub fn err(message: String) -> (res: Self)
        ensures
            res@ == result_err(message@),
    {
        CommandResult { ok: false, value: None, error: Some(message) }
    }
}

/// The contents of a file to be uploaded are all its parts, each as it is.
pub proof fn law_contents_of_upload_file_payload(x: UploadFilePayload)
    ensures
        ({
            &&& x@.name == x.name@
            &&& x.mime_type is Some ==> x@.mime_type == Some(x.mime_type->Some_0@)
            &&& x.mime_type is None ==> x@.mime_type is None
            &&& x@.base64 == x.base64@
            &&& x@.last_modified_ms == x.last_modified_ms
        }),
{
}

/// The contents of a description are all its parts, each as it is.
pub proof fn law_contents_of_command_matcher(x: CommandMatcher)
    ensures
        ({
            &&& x.selector is Some ==> x@.selector == Some(x.selector->Some_0@)
            &&& x.selector is None ==> x@.selector is None
            &&& x.test_id is Some ==> x@.test_id == Some(x.test_id->Some_0@)
            &&& x.test_id is None ==> x@.test_id is None
            &&& x.role is Some ==> x@.role == Some(x.role->Some_0@)
            &&& x.role is None ==> x@.role is None
            &&& x.name is Some ==> x@.name == Some(x.name->Some_0@)
            &&& x.name is None ==> x@.name is None
            &&& x.label is Some ==> x@.label == Some(x.label->Some_0@)
            &&& x.label is None ==> x@.label is None
            &&& x.control_type is Some ==> x@.control_type == Some(x.control_type->Some_0@)
            &&& x.control_type is None ==> x@.control_type is None
            &&& x.tag is Some ==> x@.tag == Some(x.tag->Some_0@)
            &&& x.tag is None ==> x@.tag is None
            &&& x.text is Some ==> x@.text == Some(x.text->Some_0@)
            &&& x.text is None ==> x@.text is None
            &&& x.placeholder is Some ==> x@.placeholder == Some(x.placeholder->Some_0@)
            &&& x.placeholder is None ==> x@.placeholder is None
            &&& x.href_contains is Some ==> x@.href_contains == Some(x.href_contains->Some_0@)
            &&& x.href_contains is None ==> x@.href_contains is None
            &&& x@.actionable == x.actionable
            &&& x@.disabled == x.disabled
            &&& x@.exact == x.exact
        }),
{
}

/// The contents of a result are all its parts, each as it is.
pub proof fn law_contents_of_command_result(x: CommandResult)
    ensures
        ({
            &&& x@.ok == x.ok
            &&& x.value is Some ==> x@.value == Some(x.value->Some_0@)
            &&& x.value is None ==> x@.value is None
            &&& x.error is Some ==> x@.error == Some(x.error->Some_0@)
            &&& x.error is None ==> x@.error is None
        }),
{
}

/// The contents of a target are the identifier or the description that it is.
pub proof fn law_contents_of_command_target(x: CommandTarget)
    ensures
        x is Id ==> {
            &&& x@ is Id
            &&& x@->Id_id == x->Id_id
        },
        x is Match ==> {
            &&& x@ is Match
            &&& x@->Match_matcher == x->Match_matcher@
        },
{
}

/// The contents of a command are its kind and all its parts, each as it is.
pub proof fn law_contents_of_command(x: Command)
    ensures
        x is Click ==> {
            &&& x@ is Click
            &&& x@->Click_target == x->Click_target@
        },
        x is Hover ==> {
            &&& x@ is Hover
            &&& x@->Hover_target == x->Hover_target@
        },
        x is SetValue ==> {
            &&& x@ is SetValue
            &&& x@->SetValue_target == x->SetValue_target@
            &&& x@->SetValue_value == x->SetValue_value@
        },
        x is SetFiles ==> {
            &&& x@ is SetFiles
            &&& x@->SetFiles_target == x->SetFiles_target@
            &&& x@->SetFiles_paths.len() == x->SetFiles_paths@.len() && forall|i: int| 0 <= i < x->SetFiles_paths@.len() ==> #[trigger] x@->SetFiles_paths[i] == x->SetFiles_paths@[i]@
            &&& x->SetFiles_files is None ==> x@->SetFiles_files is None
            &&& x->SetFiles_files is Some ==> x@->SetFiles_files is Some && x@->SetFiles_files->Some_0.len() == x->SetFiles_files->Some_0@.len() && forall|i: int| 0 <= i < x->SetFiles_files->Some_0@.len() ==> #[trigger] x@->SetFiles_files->Some_0[i] == x->SetFiles_files->Some_0@[i]@
        },
        x is PressKey ==> {
            &&& x@ is PressKey
            &&& x->PressKey_target is Some ==> x@->PressKey_target == Some(x->PressKey_target->Some_0@)
            &&& x->PressKey_target is None ==> x@->PressKey_target is None
            &&& x@->PressKey_key == x->PressKey_key@
            &&& x->PressKey_code is Some ==> x@->PressKey_code == Some(x->PressKey_code->Some_0@)
            &&& x->PressKey_code is None ==> x@->PressKey_code is None
            &&& x@->PressKey_alt_key == x->PressKey_alt_key
            &&& x@->PressKey_ctrl_key == x->PressKey_ctrl_key
            &&& x@->PressKey_meta_key == x->PressKey_meta_key
            &&& x@->PressKey_shift_key == x->PressKey_shift_key
        },
        x is WaitFor ==> {
            &&& x@ is WaitFor
            &&& x->WaitFor_target is Some ==> x@->WaitFor_target == Some(x->WaitFor_target->Some_0@)
            &&& x->WaitFor_target is None ==> x@->WaitFor_target is None
            &&& x->WaitFor_selector is Some ==> x@->WaitFor_selector == Some(x->WaitFor_selector->Some_0@)
            &&& x->WaitFor_selector is None ==> x@->WaitFor_selector is None
            &&& x->WaitFor_url_contains is Some ==> x@->WaitFor_url_contains == Some(x->WaitFor_url_contains->Some_0@)
            &&& x->WaitFor_url_contains is None ==> x@->WaitFor_url_contains is None
            &&& x->WaitFor_title_contains is Some ==> x@->WaitFor_title_contains == Some(x->WaitFor_title_contains->Some_0@)
            &&& x->WaitFor_title_contains is None ==> x@->WaitFor_title_contains is None
            &&& x->WaitFor_text is Some ==> x@->WaitFor_text == Some(x->WaitFor_text->Some_0@)
            &&& x->WaitFor_text is None ==> x@->WaitFor_text is None
            &&& x->WaitFor_ready_state is Some ==> x@->WaitFor_ready_state == Some(x->WaitFor_ready_state->Some_0@)
            &&& x->WaitFor_ready_state is None ==> x@->WaitFor_ready_state is None
            &&& x@->WaitFor_scroll_x == x->WaitFor_scroll_x
            &&& x@->WaitFor_scroll_y == x->WaitFor_scroll_y
            &&& x@->WaitFor_scroll_changed == x->WaitFor_scroll_changed
            &&& x->WaitFor_media_current_src_contains is Some ==> x@->WaitFor_media_current_src_contains == Some(x->WaitFor_media_current_src_contains->Some_0@)
            &&& x->WaitFor_media_current_src_contains is None ==> x@->WaitFor_media_current_src_contains is None
            &&& x@->WaitFor_media_ready_state_at_least == x->WaitFor_media_ready_state_at_least
            &&& x@->WaitFor_media_duration_known == x->WaitFor_media_duration_known
            &&& x@->WaitFor_animation_idle_ms == x->WaitFor_animation_idle_ms
            &&& x@->WaitFor_timeout_ms == x->WaitFor_timeout_ms
            &&& x@->WaitFor_poll_interval_ms == x->WaitFor_poll_interval_ms
        },
        x is Scroll ==> {
            &&& x@ is Scroll
            &&& x@->Scroll_x == x->Scroll_x
            &&& x@->Scroll_y == x->Scroll_y
        },
        x is Drag ==> {
            &&& x@ is Drag
            &&& x@->Drag_target == x->Drag_target@
            &&& x->Drag_delta_x is Some ==> x@->Drag_delta_x == Some(x->Drag_delta_x->Some_0@)
            &&& x->Drag_delta_x is None ==> x@->Drag_delta_x is None
            &&& x->Drag_delta_y is Some ==> x@->Drag_delta_y == Some(x->Drag_delta_y->Some_0@)
            &&& x->Drag_delta_y is None ==> x@->Drag_delta_y is None
            &&& x->Drag_to_x is Some ==> x@->Drag_to_x == Some(x->Drag_to_x->Some_0@)
            &&& x->Drag_to_x is None ==> x@->Drag_to_x is None
            &&& x->Drag_to_y is Some ==> x@->Drag_to_y == Some(x->Drag_to_y->Some_0@)
            &&& x->Drag_to_y is None ==> x@->Drag_to_y is None
            &&& x@->Drag_steps == x->Drag_steps
            &&& x->Drag_handle is Some ==> x@->Drag_handle == Some(x->Drag_handle->Some_0@)
            &&& x->Drag_handle is None ==> x@->Drag_handle is None
        },
        x is Geometry ==> {
            &&& x@ is Geometry
            &&& x@->Geometry_target == x->Geometry_target@
        },
        x is MediaState ==> {
            &&& x@ is MediaState
            &&& x->MediaState_target is Some ==> x@->MediaState_target == Some(x->MediaState_target->Some_0@)
            &&& x->MediaState_target is None ==> x@->MediaState_target is None
        },
        x is Eval ==> {
            &&& x@ is Eval
            &&& x@->Eval_code == x->Eval_code@
        },
{
}

/// A result is either good, with a value and without a message, or bad, with a message and without a
/// value.
pub proof fn law_results_are_good_or_bad(value: JsonView, message: Seq<char>)
    ensures
        result_ok(value).ok && result_ok(value).value == Some(value) && result_ok(value).error
            is None,
        !result_err(message).ok && result_err(message).error == Some(message) && result_err(
            message,
        ).value is None,
{
}

} // verus!
