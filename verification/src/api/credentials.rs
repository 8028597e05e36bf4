//! Noticing logins in commands, so that they can be stored.

use vstd::prelude::*;

use crate::commands::command::{commands_view, Command, CommandTarget, CommandView, TargetView};
use crate::commands::matcher::{
    candidate_of, is_target, law_target_unique, opt_view, push_some, resolve_command_target,
};
use crate::config_store::{CredentialInput, InputView};
use crate::dom::diff::attr_of;
use crate::dom::node::{DomNode, DomSnapshot, NodeView};
use crate::text::{
    chars_of, clone_opt, concat3, contains, contains_text, find, first_occurrence, join_words,
    normalize_text, normalized_text, opt_str, opt_text, str_eq, string_of, texts_contain, trim,
    trimmed,
};

verus! {

/// A text up to its first slash.
pub open spec fn before_slash(s: Seq<char>) -> Seq<char>
    decreases s.len(),
{
    if s.len() == 0 || s[0] == '/' {
        Seq::empty()
    } else {
        seq![s[0]] + before_slash(s.drop_first())
    }
}

/// The origin of an address: scheme and host, or all of it where it has no scheme.
pub open spec fn origin_of(url: Seq<char>) -> Seq<char> {
    let t = trimmed(url);
    if contains_text(t, "://"@) {
        let at = choose|at: int| first_occurrence(t, "://"@, at);
        t.take(at) + "://"@ + before_slash(t.skip(at + 3))
    } else {
        t
    }
}

/// The origin of an address: scheme and host, or all of it where it has no scheme.
pub fn origin_key(url: &str) -> (res: String)
    ensures
        res@ == origin_of(url@),
{
    let t = trim(url);
    proof {
        reveal_strlit("://");
        assert("://"@.len() == 3);
    }
    match find(t.as_str(), "://") {
        None => t,
        Some(at) => {
            let chars = chars_of(t.as_str());
            let ghost rest = chars@.skip(at + 3);
            let total: usize = chars.len();
            proof {
                let k = choose|k: int| first_occurrence(t@, "://"@, k);
                assert(first_occurrence(t@, "://"@, at as int));
                if k < at {
                    assert(!crate::text::occurs_at(t@, "://"@, k));
                }
                if at < k {
                    assert(!crate::text::occurs_at(t@, "://"@, at as int));
                }
                assert(contains_text(t@, "://"@)) by {
                    assert(crate::text::occurs_at(t@, "://"@, at as int));
                }
            }
            assert(at + 3 <= total);
            let from: usize = at + 3;
            let mut to: usize = from;
            assert(chars@.subrange(from as int, to as int) =~= Seq::empty());
            assert(Seq::<char>::empty() + before_slash(rest) =~= before_slash(rest));
            while to < total && chars[to] != '/'
                invariant
                    from <= to <= total,
                    total == chars@.len(),
                    rest == chars@.skip(from as int),
                    before_slash(rest) == chars@.subrange(from as int, to as int) + before_slash(
                        chars@.skip(to as int),
                    ),
                decreases total - to,
            {
                let ghost here = chars@.skip(to as int);
                proof {
                    assert(here.drop_first() =~= chars@.skip(to + 1));
                    assert(here[0] == chars@[to as int]);
                    assert(chars@.subrange(from as int, to + 1) =~= chars@.subrange(
                        from as int,
                        to as int,
                    ) + seq![chars@[to as int]]);
                    assert(chars@.subrange(from as int, to as int) + (seq![chars@[to as int]]
                        + before_slash(chars@.skip(to + 1))) =~= chars@.subrange(from as int, to + 1)
                        + before_slash(chars@.skip(to + 1)));
                }
                to += 1;
            }
            proof {
                let here = chars@.skip(to as int);
                assert(before_slash(here) =~= Seq::empty());
                assert(chars@.subrange(from as int, to as int) + before_slash(here)
                    =~= chars@.subrange(from as int, to as int));
            }
            let scheme = string_of(&chars, 0, at);
            let host = string_of(&chars, from, to);
            assert(chars@.subrange(0, at as int) =~= t@.take(at as int));
            concat3(scheme.as_str(), "://", host.as_str())
        },
    }
}

/// A field of a login.
#[derive(Debug)]
pub struct CapturedCredentialField {
    pub value: String,
    pub field_name: Option<String>,
    pub label: Option<String>,
}

/// The contents of a `CapturedCredentialField`.
#[verifier::ext_equal]
pub struct CapturedView {
    pub value: Seq<char>,
    pub field_name: Option<Seq<char>>,
    pub label: Option<Seq<char>>,
}

impl View for CapturedCredentialField {
    type V = CapturedView;

    open spec fn view(&self) -> CapturedView {
        CapturedView {
            value: self.value@,
            field_name: opt_text(self.field_name),
            label: opt_text(self.label),
        }
    }
}

/// Which field of a login a node is.
#[derive(Debug, Clone, Copy, PartialEq, Eq, Structural)]
pub enum CredentialFieldKind {
    Username,
    Password,
}

/// The type of a control: what its semantics say, or else its `type` attribute, or `text`.
pub open spec fn control_type_of(node: NodeView) -> Seq<char> {
    let from_semantics = match node.semantic {
        Some(s) => s.control_type,
        None => None,
    };
    match from_semantics {
        Some(t) => t,
        None => match attr_of(node.attrs, "type"@) {
            Some(t) => t,
            None => "text"@,
        },
    }
}

/// The texts that tell what a node is for.
pub open spec fn hint_parts(node: NodeView) -> Seq<Seq<char>> {
    let p = push_some(Seq::empty(), node.text);
    let p = push_some(p, attr_of(node.attrs, "name"@));
    let p = push_some(p, attr_of(node.attrs, "type"@));
    let p = push_some(p, attr_of(node.attrs, "placeholder"@));
    let p = push_some(p, attr_of(node.attrs, "title"@));
    let p = push_some(p, attr_of(node.attrs, "autocomplete"@));
    let p = push_some(p, attr_of(node.attrs, "aria-label"@));
    let p = push_some(p, attr_of(node.attrs, "value"@));
    match node.semantic {
        Some(s) => push_some(push_some(push_some(p, s.name), s.label), s.control_type),
        None => p,
    }
}

/// What a node is for, in words.
pub open spec fn hint_of(node: NodeView) -> Seq<char> {
    normalized_text(join_words(hint_parts(node)))
}

/// Whether a hint speaks of a user.
pub open spec fn hints_user(hint: Seq<char>) -> bool {
    contains_text(hint, "user"@) || contains_text(hint, "email"@) || contains_text(hint, "login"@)
        || contains_text(hint, "account"@) || contains_text(hint, "identifier"@) || contains_text(
        hint,
        "member"@,
    )
}

/// Whether a hint speaks of submitting a login.
pub open spec fn hints_submit(hint: Seq<char>) -> bool {
    contains_text(hint, "sign in"@) || contains_text(hint, "log in"@) || contains_text(
        hint,
        "login"@,
    ) || contains_text(hint, "continue"@) || contains_text(hint, "submit"@)
}

/// Whether a control takes a line of text.
pub open spec fn takes_text(control_type: Seq<char>) -> bool {
    control_type == "email"@ || control_type == "text"@ || control_type == "searchbox"@
        || control_type == "search"@ || control_type == "textbox"@
}

/// Which field of a login a control is, given its type and its hint.
pub open spec fn field_kind(
    control_type: Seq<char>,
    normalized_type: Seq<char>,
    hint: Seq<char>,
    normalized_password: Seq<char>,
) -> Option<CredentialFieldKind> {
    if contains_text(normalized_type, normalized_password) {
        Some(CredentialFieldKind::Password)
    } else if takes_text(control_type) && hints_user(hint) {
        Some(CredentialFieldKind::Username)
    } else {
        None
    }
}

/// Which field of a login a node is, if it is one.
pub open spec fn kind_of_node(node: NodeView) -> Option<CredentialFieldKind> {
    field_kind(
        control_type_of(node),
        normalized_text(control_type_of(node)),
        hint_of(node),
        normalized_text("password"@),
    )
}

/// Which field of a login a control is, given its type and its hint, both also normalized.
pub fn classify_control(
    control_type: &str,
    normalized_type: &str,
    hint: &str,
    normalized_password: &str,
) -> (res: Option<CredentialFieldKind>)
    ensures
        res == field_kind(control_type@, normalized_type@, hint@, normalized_password@),
{
    if contains(normalized_type, normalized_password) {
        return Some(CredentialFieldKind::Password);
    }
    let text_control = str_eq(control_type, "email") || str_eq(control_type, "text") || str_eq(
        control_type,
        "searchbox",
    ) || str_eq(control_type, "search") || str_eq(control_type, "textbox");
    if text_control && (contains(hint, "user") || contains(hint, "email") || contains(hint, "login")
        || contains(hint, "account") || contains(hint, "identifier") || contains(hint, "member")) {
        return Some(CredentialFieldKind::Username);
    }
    None
}

fn push_part(parts: &mut String, any: &mut bool, part: Option<&str>, Ghost(list): Ghost<
    Seq<Seq<char>>,
>)
    requires
        old(parts)@ == join_words(list),
        *old(any) == (list.len() > 0),
    ensures
        final(parts)@ == join_words(push_some(list, opt_view(part))),
        *final(any) == (push_some(list, opt_view(part)).len() > 0),
{
    if let Some(p) = part {
        let ghost next = list.push(p@);
        proof {
            assert(next.drop_last() =~= list);
        }
        if *any {
            parts.push(' ');
        } else {
            assert(list =~= Seq::empty());
        }
        parts.append(p);
        *any = true;
        proof {
            if list.len() == 0 {
                assert(next[0] == p@);
                assert(parts@ =~= p@);
            }
        }
    }
}

fn attr<'a>(node: &'a DomNode, name: &str) -> (res: Option<&'a str>)
    ensures
        opt_view(res) == attr_of(node.attrs@, name@),
{
    match node.attrs.get(name) {
        Some(v) => Some(v.as_str()),
        None => None,
    }
}

/// What a node is for, in words.
pub fn credential_hint_text(node: &DomNode) -> (res: String)
    ensures
        res@ == hint_of(node@),
{
    let mut parts = String::new();
    let mut any = false;
    let ghost list: Seq<Seq<char>> = Seq::empty();
    assert(parts@ =~= join_words(list));
    push_part(&mut parts, &mut any, opt_str(&node.text), Ghost(list));
    let ghost list = push_some(list, opt_text(node.text));
    push_part(&mut parts, &mut any, attr(node, "name"), Ghost(list));
    let ghost list = push_some(list, attr_of(node.attrs@, "name"@));
    push_part(&mut parts, &mut any, attr(node, "type"), Ghost(list));
    let ghost list = push_some(list, attr_of(node.attrs@, "type"@));
    push_part(&mut parts, &mut any, attr(node, "placeholder"), Ghost(list));
    let ghost list = push_some(list, attr_of(node.attrs@, "placeholder"@));
    push_part(&mut parts, &mut any, attr(node, "title"), Ghost(list));
    let ghost list = push_some(list, attr_of(node.attrs@, "title"@));
    push_part(&mut parts, &mut any, attr(node, "autocomplete"), Ghost(list));
    let ghost list = push_some(list, attr_of(node.attrs@, "autocomplete"@));
    push_part(&mut parts, &mut any, attr(node, "aria-label"), Ghost(list));
    let ghost list = push_some(list, attr_of(node.attrs@, "aria-label"@));
    push_part(&mut parts, &mut any, attr(node, "value"), Ghost(list));
    let ghost list = push_some(list, attr_of(node.attrs@, "value"@));
    if let Some(s) = &node.semantic {
        push_part(&mut parts, &mut any, opt_str(&s.name), Ghost(list));
        let ghost list = push_some(list, opt_text(s.name));
        push_part(&mut parts, &mut any, opt_str(&s.label), Ghost(list));
        let ghost list = push_some(list, opt_text(s.label));
        push_part(&mut parts, &mut any, opt_str(&s.control_type), Ghost(list));
        let ghost list = push_some(list, opt_text(s.control_type));
        assert(parts@ == join_words(hint_parts(node@)));
    } else {
        assert(parts@ == join_words(hint_parts(node@)));
    }
    normalize_text(parts.as_str())
}

/// Which field of a login a node is, if it is one.
pub fn classify_credential_field(node: &DomNode) -> (res: Option<CredentialFieldKind>)
    ensures
        res == kind_of_node(node@),
{
    let from_semantics = match &node.semantic {
        Some(s) => opt_str(&s.control_type),
        None => None,
    };
    let control_type = match from_semantics {
        Some(t) => t,
        None => match attr(node, "type") {
            Some(t) => t,
            None => "text",
        },
    };
    let normalized_type = normalize_text(control_type);
    let normalized_password = normalize_text("password");
    let hint = credential_hint_text(node);
    classify_control(
        control_type,
        normalized_type.as_str(),
        hint.as_str(),
        normalized_password.as_str(),
    )
}

/// Whether clicking a node may submit a login.
pub open spec fn submits(node: NodeView) -> bool {
    ||| (node.semantic matches Some(s) && s.actions.contains("submit"@))
    ||| (node.semantic matches Some(s) && (s.control_type == Some("submit"@) || s.control_type
        == Some("button"@)))
    ||| hints_submit(hint_of(node))
}

/// Whether clicking a node may submit a login.
pub fn is_submit_like_node(node: &DomNode) -> (res: bool)
    ensures
        res == submits(node@),
{
    if let Some(s) = &node.semantic {
        if texts_contain(&s.actions, "submit") {
            return true;
        }
        if let Some(control) = &s.control_type {
            if str_eq(control.as_str(), "submit") || str_eq(control.as_str(), "button") {
                return true;
            }
        }
    }
    let hint = credential_hint_text(node);
    contains(hint.as_str(), "sign in") || contains(hint.as_str(), "log in") || contains(
        hint.as_str(),
        "login",
    ) || contains(hint.as_str(), "continue") || contains(hint.as_str(), "submit")
}

/// The node that a target means, if it means one.
pub open spec fn target_node(nodes: Seq<NodeView>, target: TargetView) -> Option<NodeView> {
    if exists|i: int| is_target(nodes, target, None, i) {
        Some(nodes[choose|i: int| is_target(nodes, target, None, i)])
    } else {
        None
    }
}

fn node_for<'a>(snapshot: &'a DomSnapshot, target: &CommandTarget) -> (res: Option<&'a DomNode>)
    ensures
        match res {
            Some(node) => target_node(snapshot@, target@) == Some(node@),
            None => target_node(snapshot@, target@) is None,
        },
{
    let found = resolve_command_target(snapshot, target, None);
    proof {
        match found {
            Some(node) => {
                let i = choose|i: int|
                    #[trigger] is_target(snapshot@, target@, None, i) && *node
                        == snapshot.nodes@[i];
                let k = choose|k: int| is_target(snapshot@, target@, None, k);
                law_target_unique(snapshot@, target@, None, i, k);
                assert(snapshot@[i] == snapshot.nodes@[i]@);
            },
            None => {
                if exists|i: int| is_target(snapshot@, target@, None, i) {
                    let i = choose|i: int| is_target(snapshot@, target@, None, i);
                    match target@ {
                        TargetView::Id { id } => {
                            assert(snapshot@[i].id == id);
                        },
                        TargetView::Match { matcher } => {
                            assert(candidate_of(snapshot@[i], matcher, None) is Some);
                        },
                    }
                }
            },
        }
    }
    found
}

/// What has been noticed of a login.
#[derive(Debug)]
pub struct AutoCredentialCapture {
    pub username: Option<CapturedCredentialField>,
    pub password: Option<CapturedCredentialField>,
    pub origin: Option<String>,
}

/// The contents of an `AutoCredentialCapture`.
#[verifier::ext_equal]
pub struct CaptureView {
    pub username: Option<CapturedView>,
    pub password: Option<CapturedView>,
    pub origin: Option<Seq<char>>,
}

/// The contents of an optional field.
pub open spec fn opt_captured(f: Option<CapturedCredentialField>) -> Option<CapturedView> {
    match f {
        Some(x) => Some(x@),
        None => None,
    }
}

impl View for AutoCredentialCapture {
    type V = CaptureView;

    open spec fn view(&self) -> CaptureView {
        CaptureView {
            username: opt_captured(self.username),
            password: opt_captured(self.password),
            origin: opt_text(self.origin),
        }
    }
}

/// Nothing noticed yet.
pub open spec fn nothing_captured() -> CaptureView {
    CaptureView { username: None, password: None, origin: None }
}

/// What is noticed of a field that is set to a value.
pub open spec fn captured_field(node: NodeView, value: Seq<char>) -> CapturedView {
    CapturedView {
        value,
        field_name: attr_of(node.attrs, "name"@),
        label: match node.semantic {
            Some(s) => match s.label {
                Some(l) => Some(l),
                None => s.name,
            },
            None => None,
        },
    }
}

/// What has been noticed after one more command: setting a field of a login is noticed.
pub open spec fn capture_command(nodes: Seq<NodeView>, c: CaptureView, command: CommandView) -> CaptureView {
    match command {
        CommandView::SetValue { target, value } => match target_node(nodes, target) {
            Some(node) => match kind_of_node(node) {
                Some(CredentialFieldKind::Username) => CaptureView {
                    username: Some(captured_field(node, value)),
                    ..c
                },
                Some(CredentialFieldKind::Password) => CaptureView {
                    password: Some(captured_field(node, value)),
                    ..c
                },
                None => c,
            },
            None => c,
        },
        _ => c,
    }
}

/// What has been noticed after a list of commands.
pub open spec fn capture_commands(
    nodes: Seq<NodeView>,
    c: CaptureView,
    commands: Seq<CommandView>,
) -> CaptureView
    decreases commands.len(),
{
    if commands.len() == 0 {
        c
    } else {
        capture_command(
            nodes,
            capture_commands(nodes, c, commands.drop_last()),
            commands.last(),
        )
    }
}

/// What counts of earlier notices on a page: those of another origin do not.
pub open spec fn capture_on_page(c: CaptureView, url: Option<Seq<char>>) -> CaptureView {
    let current = match url {
        Some(u) => Some(origin_of(u)),
        None => None,
    };
    let kept = if c.origin is Some && current is Some && c.origin != current {
        nothing_captured()
    } else {
        c
    };
    if kept.origin is None {
        CaptureView { origin: current, ..kept }
    } else {
        kept
    }
}

/// What counts of earlier notices once another page was asked for.
pub open spec fn capture_after_navigation(c: CaptureView, url: Seq<char>) -> CaptureView {
    if c.origin is Some && c.origin != Some(origin_of(url)) {
        nothing_captured()
    } else {
        c
    }
}

/// Whether a list of commands clicks something that may submit a login.
pub open spec fn clicks_submit(nodes: Seq<NodeView>, commands: Seq<CommandView>) -> bool {
    exists|i: int|
        0 <= i < commands.len() && (#[trigger] commands[i] matches CommandView::Click { target }
            && target_node(nodes, target) matches Some(node) && submits(node))
}

/// The credential that was noticed, if it is complete.
pub open spec fn noticed_credential(c: CaptureView, fallback_origin: Seq<char>) -> Option<
    InputView,
> {
    match (c.username, c.password) {
        (Some(u), Some(p)) => Some(
            InputView {
                origin: match c.origin {
                    Some(o) => o,
                    None => fallback_origin,
                },
                username: u.value,
                password: p.value,
                username_field: u.field_name,
                password_field: p.field_name,
                form_label: match p.label {
                    Some(l) => Some(l),
                    None => u.label,
                },
            },
        ),
        _ => None,
    }
}

impl AutoCredentialCapture {
    /// Nothing noticed yet.
    pub fn new() -> (res: Self)
        ensures
            res@ == nothing_captured(),
    {
        AutoCredentialCapture { username: None, password: None, origin: None }
    }

    /// Forgets what was noticed.
    pub fn clear(&mut self)
        ensures
            final(self)@ == nothing_captured(),
    {
        self.username = None;
        self.password = None;
        self.origin = None;
    }

    /// Notices the fields of a login that commands set on a page.
    pub fn capture_fields(
        &mut self,
        snapshot: &DomSnapshot,
        current_url: Option<&str>,
        commands: &[Command],
    )
        ensures
            final(self)@ == capture_commands(
                snapshot@,
                capture_on_page(old(self)@, opt_view(current_url)),
                commands_view(commands@),
            ),
    {
        let ghost start = self@;
        let current_origin = match current_url {
            Some(url) => Some(origin_key(url)),
            None => None,
        };
        let other_origin = match (&self.origin, &current_origin) {
            (Some(existing), Some(current)) => !str_eq(existing.as_str(), current.as_str()),
            _ => false,
        };
        if other_origin {
            self.clear();
        }
        if self.origin.is_none() {
            self.origin = current_origin;
        }
        let ghost base = self@;
        assert(base =~= capture_on_page(start, opt_view(current_url)));
        let ghost all = commands_view(commands@);
        let ghost nodes = snapshot@;
        let mut i: usize = 0;
        assert(all.take(0) =~= Seq::empty());
        while i < commands.len()
            invariant
                i <= commands@.len(),
                all == commands_view(commands@),
                nodes == snapshot@,
                self@ == capture_commands(nodes, base, all.take(i as int)),
            decreases commands@.len() - i,
        {
            proof {
                assert(all.take(i + 1).drop_last() =~= all.take(i as int));
                assert(all.take(i + 1).last() == commands@[i as int]@);
            }
            if let Command::SetValue { target, value } = &commands[i] {
                if let Some(node) = node_for(snapshot, target) {
                    if let Some(kind) = classify_credential_field(node) {
                        let label = match &node.semantic {
                            Some(s) => match &s.label {
                                Some(l) => Some(l.clone()),
                                None => clone_opt(&s.name),
                            },
                            None => None,
                        };
                        let field_name = match node.attrs.get("name") {
                            Some(n) => Some(n.clone()),
                            None => None,
                        };
                        let field = CapturedCredentialField {
                            value: value.clone(),
                            field_name,
                            label,
                        };
                        assert(field@ =~= captured_field(node@, value@));
                        match kind {
                            CredentialFieldKind::Username => {
                                self.username = Some(field);
                            },
                            CredentialFieldKind::Password => {
                                self.password = Some(field);
                            },
                        }
                    }
                }
            }
            i += 1;
        }
        assert(all.take(i as int) =~= all);
    }

    /// Whether the noticed login is to be stored once the commands have run: it is complete
    /// and the commands submit it.
    pub fn should_persist(&self, snapshot: &DomSnapshot, commands: &[Command]) -> (res: bool)
        ensures
            res == (self@.username is Some && self@.password is Some && clicks_submit(
                snapshot@,
                commands_view(commands@),
            )),
    {
        if self.username.is_none() || self.password.is_none() {
            return false;
        }
        let ghost all = commands_view(commands@);
        let mut i: usize = 0;
        while i < commands.len()
            invariant
                i <= commands@.len(),
                all == commands_view(commands@),
                self@.username is Some,
                self@.password is Some,
                forall|j: int|
                    0 <= j < i ==> !(#[trigger] all[j] matches CommandView::Click { target }
                        && target_node(snapshot@, target) matches Some(node) && submits(node)),
            decreases commands@.len() - i,
        {
            assert(all[i as int] == commands@[i as int]@);
            if let Command::Click { target } = &commands[i] {
                if let Some(node) = node_for(snapshot, target) {
                    if is_submit_like_node(node) {
                        assert(all[i as int] is Click);
                        return true;
                    }
                }
            }
            i += 1;
        }
        false
    }

    /// The credential that was noticed, if it is complete.
    pub fn credential(&self, fallback_origin: &str) -> (res: Option<CredentialInput>)
        ensures
            match res {
                Some(input) => noticed_credential(self@, fallback_origin@) == Some(input@),
                None => noticed_credential(self@, fallback_origin@) is None,
            },
    {
        match (&self.username, &self.password) {
            (Some(u), Some(p)) => {
                let origin = match &self.origin {
                    Some(o) => o.clone(),
                    None => fallback_origin.to_owned(),
                };
                let form_label = match &p.label {
                    Some(l) => Some(l.clone()),
                    None => clone_opt(&u.label),
                };
                Some(
                    CredentialInput {
                        origin,
                        username: u.value.clone(),
                        password: p.value.clone(),
                        username_field: clone_opt(&u.field_name),
                        password_field: clone_opt(&p.field_name),
                        form_label,
                    },
                )
            },
            _ => None,
        }
    }

    /// Forgets what was noticed when another origin is navigated to.
    pub fn reset_on_explicit_navigation(&mut self, url: &str)
        ensures
            final(self)@ == capture_after_navigation(old(self)@, url@),
    {
        let target_origin = origin_key(url);
        let other = match &self.origin {
            Some(origin) => !str_eq(origin.as_str(), target_origin.as_str()),
            None => false,
        };
        if other {
            self.clear();
        }
    }
}

/// What was noticed on one origin is never stored for another: on a page of another origin
/// the earlier notices do not count.
pub proof fn law_capture_stays_on_origin(c: CaptureView, url: Seq<char>)
    requires
        c.origin is Some,
        c.origin != Some(origin_of(url)),
    ensures
        capture_on_page(c, Some(url)).username is None,
        capture_on_page(c, Some(url)).password is None,
        capture_on_page(c, Some(url)).origin == Some(origin_of(url)),
{
}

/// A control whose type speaks of a password is the password of a login, whatever else is said of
/// it. Any other control is the user name exactly when it is one for a line of text (of type
/// email, text, searchbox, search or textbox) and its hint speaks of a user, an email, a login, an
/// account, an identifier or a member; all others are no field of a login.
pub proof fn law_login_fields_by_type_and_hint(
    control_type: Seq<char>,
    normalized_type: Seq<char>,
    hint: Seq<char>,
    normalized_password: Seq<char>,
)
    ensures
        ({
            let kind = field_kind(control_type, normalized_type, hint, normalized_password);
            let password = contains_text(normalized_type, normalized_password);
            &&& kind == Some(CredentialFieldKind::Password) <==> password
            &&& !password && control_type == "email"@ && contains_text(hint, "user"@) ==> kind == Some(
                CredentialFieldKind::Username,
            )
            &&& !password && control_type == "email"@ && contains_text(hint, "email"@) ==> kind == Some(
                CredentialFieldKind::Username,
            )
            &&& !password && control_type == "email"@ && contains_text(hint, "login"@) ==> kind == Some(
                CredentialFieldKind::Username,
            )
            &&& !password && control_type == "email"@ && contains_text(hint, "account"@) ==> kind == Some(
                CredentialFieldKind::Username,
            )
            &&& !password && control_type == "email"@ && contains_text(hint, "identifier"@) ==> kind == Some(
                CredentialFieldKind::Username,
            )
            &&& !password && control_type == "email"@ && contains_text(hint, "member"@) ==> kind == Some(
                CredentialFieldKind::Username,
            )
            &&& !password && control_type == "text"@ && contains_text(hint, "user"@) ==> kind == Some(
                CredentialFieldKind::Username,
            )
            &&& !password && control_type == "text"@ && contains_text(hint, "email"@) ==> kind == Some(
                CredentialFieldKind::Username,
            )
            &&& !password && control_type == "text"@ && contains_text(hint, "login"@) ==> kind == Some(
                CredentialFieldKind::Username,
            )
            &&& !password && control_type == "text"@ && contains_text(hint, "account"@) ==> kind == Some(
                CredentialFieldKind::Username,
            )
            &&& !password && control_type == "text"@ && contains_text(hint, "identifier"@) ==> kind == Some(
                CredentialFieldKind::Username,
            )
            &&& !password && control_type == "text"@ && contains_text(hint, "member"@) ==> kind == Some(
                CredentialFieldKind::Username,
            )
            &&& !password && control_type == "searchbox"@ && contains_text(hint, "user"@) ==> kind == Some(
                CredentialFieldKind::Username,
            )
            &&& !password && control_type == "searchbox"@ && contains_text(hint, "email"@) ==> kind == Some(
                CredentialFieldKind::Username,
            )
            &&& !password && control_type == "searchbox"@ && contains_text(hint, "login"@) ==> kind == Some(
                CredentialFieldKind::Username,
            )
            &&& !password && control_type == "searchbox"@ && contains_text(hint, "account"@) ==> kind == Some(
                CredentialFieldKind::Username,
            )
            &&& !password && control_type == "searchbox"@ && contains_text(hint, "identifier"@) ==> kind == Some(
                CredentialFieldKind::Username,
            )
            &&& !password && control_type == "searchbox"@ && contains_text(hint, "member"@) ==> kind == Some(
                CredentialFieldKind::Username,
            )
            &&& !password && control_type == "search"@ && contains_text(hint, "user"@) ==> kind == Some(
                CredentialFieldKind::Username,
            )
            &&& !password && control_type == "search"@ && contains_text(hint, "email"@) ==> kind == Some(
                CredentialFieldKind::Username,
            )
            &&& !password && control_type == "search"@ && contains_text(hint, "login"@) ==> kind == Some(
                CredentialFieldKind::Username,
            )
            &&& !password && control_type == "search"@ && contains_text(hint, "account"@) ==> kind == Some(
                CredentialFieldKind::Username,
            )
            &&& !password && control_type == "search"@ && contains_text(hint, "identifier"@) ==> kind == Some(
                CredentialFieldKind::Username,
            )
            &&& !password && control_type == "search"@ && contains_text(hint, "member"@) ==> kind == Some(
                CredentialFieldKind::Username,
            )
            &&& !password && control_type == "textbox"@ && contains_text(hint, "user"@) ==> kind == Some(
                CredentialFieldKind::Username,
            )
            &&& !password && control_type == "textbox"@ && contains_text(hint, "email"@) ==> kind == Some(
                CredentialFieldKind::Username,
            )
            &&& !password && control_type == "textbox"@ && contains_text(hint, "login"@) ==> kind == Some(
                CredentialFieldKind::Username,
            )
            &&& !password && control_type == "textbox"@ && contains_text(hint, "account"@) ==> kind == Some(
                CredentialFieldKind::Username,
            )
            &&& !password && control_type == "textbox"@ && contains_text(hint, "identifier"@) ==> kind == Some(
                CredentialFieldKind::Username,
            )
            &&& !password && control_type == "textbox"@ && contains_text(hint, "member"@) ==> kind == Some(
                CredentialFieldKind::Username,
            )
            &&& kind == Some(CredentialFieldKind::Username) ==> !password && (control_type
                == "email"@ || control_type == "text"@ || control_type == "searchbox"@
                || control_type == "search"@ || control_type == "textbox"@)
            &&& kind == Some(CredentialFieldKind::Username) ==> contains_text(hint, "user"@)
                || contains_text(hint, "email"@) || contains_text(hint, "login"@) || contains_text(
                hint,
                "account"@,
            ) || contains_text(hint, "identifier"@) || contains_text(hint, "member"@)
        }),
{
}

/// The type that a node gives for its control: what its semantics say, or else its attribute, or
/// else plain text.
pub open spec fn given_type(node: NodeView) -> Seq<char> {
    if node.semantic is Some && node.semantic->Some_0.control_type is Some {
        node.semantic->Some_0.control_type->Some_0
    } else if node.attrs.contains_key("type"@) {
        node.attrs["type"@]
    } else {
        "text"@
    }
}

/// A node is classified by the type that it gives and by its hint: as the password where the type
/// speaks of one, else as the user name where it is a line of text and the hint speaks of a user,
/// else as neither.
pub proof fn law_login_fields_of_nodes(node: NodeView)
    ensures
        ({
            let control_type = given_type(node);
            let hint = hint_of(node);
            let password = contains_text(
                normalized_text(control_type),
                normalized_text("password"@),
            );
            let line = control_type == "email"@ || control_type == "text"@ || control_type
                == "searchbox"@ || control_type == "search"@ || control_type == "textbox"@;
            let user = contains_text(hint, "user"@) || contains_text(hint, "email"@)
                || contains_text(hint, "login"@) || contains_text(hint, "account"@)
                || contains_text(hint, "identifier"@) || contains_text(hint, "member"@);
            &&& kind_of_node(node) == Some(CredentialFieldKind::Password) <==> password
            &&& kind_of_node(node) == Some(CredentialFieldKind::Username) <==> !password && line
                && user
            &&& kind_of_node(node) is None <==> !password && !(line && user)
        }),
{
}

/// The texts of a list that are there, in order.
pub open spec fn those_given(list: Seq<Option<Seq<char>>>) -> Seq<Seq<char>>
    decreases list.len(),
{
    if list.len() == 0 {
        Seq::empty()
    } else if list[0] is Some {
        seq![list[0]->Some_0] + those_given(list.drop_first())
    } else {
        those_given(list.drop_first())
    }
}

/// The value of an attribute of a node.
pub open spec fn given_attr(node: NodeView, name: Seq<char>) -> Option<Seq<char>> {
    if node.attrs.contains_key(name) {
        Some(node.attrs[name])
    } else {
        None
    }
}

proof fn lemma_given_push(list: Seq<Option<Seq<char>>>, x: Option<Seq<char>>)
    ensures
        those_given(list.push(x)) == push_some(those_given(list), x),
    decreases list.len(),
{
    if list.len() == 0 {
        assert(list.push(x).drop_first() =~= list);
        assert(those_given(list.push(x)) =~= push_some(those_given(list), x));
    } else {
        lemma_given_push(list.drop_first(), x);
        assert(list.push(x).drop_first() =~= list.drop_first().push(x));
        assert(those_given(list.push(x)) =~= push_some(those_given(list), x));
    }
}

/// The hint of a node is made of its text, its name, type, placeholder, title, autocomplete,
/// aria-label and value attributes and the name, the label and the control type of its semantics,
/// as far as they are there, in this order, with one space between neighbours and normalized.
pub proof fn law_hint_is_made_of_all_texts(node: NodeView)
    ensures
        ({
            let told = |f: spec_fn(crate::dom::node::SemanticsView) -> Option<Seq<char>>|
                match node.semantic {
                    Some(s) => f(s),
                    None => None,
                };
            hint_of(node) == normalized_text(
                join_words(
                    those_given(
                        Seq::empty().push(node.text).push(given_attr(node, "name"@)).push(
                            given_attr(node, "type"@),
                        ).push(given_attr(node, "placeholder"@)).push(
                            given_attr(node, "title"@),
                        ).push(given_attr(node, "autocomplete"@)).push(
                            given_attr(node, "aria-label"@),
                        ).push(given_attr(node, "value"@)).push(
                            told(|s: crate::dom::node::SemanticsView| s.name),
                        ).push(told(|s: crate::dom::node::SemanticsView| s.label)).push(
                            told(|s: crate::dom::node::SemanticsView| s.control_type),
                        ),
                    ),
                ),
            )
        }),
{
    let (n, l, c) = match node.semantic {
        Some(s) => (s.name, s.label, s.control_type),
        None => (None, None, None),
    };
    let l0: Seq<Option<Seq<char>>> = Seq::empty();
    let l1 = l0.push(node.text);
    let l2 = l1.push(given_attr(node, "name"@));
    let l3 = l2.push(given_attr(node, "type"@));
    let l4 = l3.push(given_attr(node, "placeholder"@));
    let l5 = l4.push(given_attr(node, "title"@));
    let l6 = l5.push(given_attr(node, "autocomplete"@));
    let l7 = l6.push(given_attr(node, "aria-label"@));
    let l8 = l7.push(given_attr(node, "value"@));
    let l9 = l8.push(n);
    let l10 = l9.push(l);
    lemma_given_push(l0, node.text);
    lemma_given_push(l1, given_attr(node, "name"@));
    lemma_given_push(l2, given_attr(node, "type"@));
    lemma_given_push(l3, given_attr(node, "placeholder"@));
    lemma_given_push(l4, given_attr(node, "title"@));
    lemma_given_push(l5, given_attr(node, "autocomplete"@));
    lemma_given_push(l6, given_attr(node, "aria-label"@));
    lemma_given_push(l7, given_attr(node, "value"@));
    lemma_given_push(l8, n);
    lemma_given_push(l9, l);
    lemma_given_push(l10, c);
}

/// Clicking a node may submit a login exactly when it can be submitted, is a submit control or a
/// button, or its hint says sign in, log in, login, continue or submit.
pub proof fn law_submitting_nodes(node: NodeView)
    ensures
        ({
            let by_semantics = node.semantic is Some && {
                let s = node.semantic->Some_0;
                ||| exists|i: int| 0 <= i < s.actions.len() && #[trigger] s.actions[i] == "submit"@
                ||| s.control_type == Some("submit"@)
                ||| s.control_type == Some("button"@)
            };
            let hint = hint_of(node);
            submits(node) <==> by_semantics || contains_text(hint, "sign in"@) || contains_text(
                hint,
                "log in"@,
            ) || contains_text(hint, "login"@) || contains_text(hint, "continue"@) || contains_text(
                hint,
                "submit"@,
            )
        }),
{
}

/// Setting the user name or the password of a login is noticed: the value that was set, the name
/// of the field and its label, or else the name that its semantics give, replace what was noticed
/// of that field before, and nothing else changes.
pub proof fn law_setting_a_login_field_is_noticed(
    nodes: Seq<NodeView>,
    c: CaptureView,
    target: TargetView,
    value: Seq<char>,
    i: int,
)
    requires
        is_target(nodes, target, None, i),
    ensures
        ({
            let after = capture_commands(nodes, c, seq![CommandView::SetValue { target, value }]);
            let noticed = CapturedView {
                value: value,
                field_name: given_attr(nodes[i], "name"@),
                label: if nodes[i].semantic is None {
                    None
                } else if nodes[i].semantic->Some_0.label is Some {
                    nodes[i].semantic->Some_0.label
                } else {
                    nodes[i].semantic->Some_0.name
                },
            };
            &&& kind_of_node(nodes[i]) == Some(CredentialFieldKind::Username) ==> after == (
            CaptureView { username: Some(noticed), password: c.password, origin: c.origin })
            &&& kind_of_node(nodes[i]) == Some(CredentialFieldKind::Password) ==> after == (
            CaptureView { username: c.username, password: Some(noticed), origin: c.origin })
            &&& kind_of_node(nodes[i]) is None ==> after == c
        }),
{
    reveal_with_fuel(capture_commands, 2);
    let k = choose|k: int| is_target(nodes, target, None, k);
    law_target_unique(nodes, target, None, i, k);
    assert(seq![CommandView::SetValue { target, value }].drop_last() =~= Seq::empty());
}

/// Only setting the value of a node that is there is noticed, and commands are noticed in turn.
pub proof fn law_commands_are_noticed_in_turn(
    nodes: Seq<NodeView>,
    c: CaptureView,
    first: Seq<CommandView>,
    second: Seq<CommandView>,
    command: CommandView,
)
    ensures
        capture_commands(nodes, c, first + second) == capture_commands(
            nodes,
            capture_commands(nodes, c, first),
            second,
        ),
        capture_commands(nodes, c, Seq::empty()) == c,
        !(command is SetValue) ==> capture_commands(nodes, c, seq![command]) == c,
        command is SetValue && (forall|i: int|
            !#[trigger] is_target(nodes, command->SetValue_target, None, i)) ==> capture_commands(
            nodes,
            c,
            seq![command],
        ) == c,
    decreases second.len(),
{
    reveal_with_fuel(capture_commands, 2);
    assert(seq![command].drop_last() =~= Seq::empty());
    if second.len() == 0 {
        assert(first + second =~= first);
    } else {
        law_commands_are_noticed_in_turn(nodes, c, first, second.drop_last(), command);
        assert((first + second).drop_last() =~= first + second.drop_last());
        assert((first + second).last() == second.last());
    }
}

/// A credential is complete exactly when user name and password were noticed; it holds their
/// values and field names, the label of the password field or else that of the user name field,
/// and the origin on which they were noticed or else the one that is given.
pub proof fn law_noticed_credential_is_complete(c: CaptureView, fallback_origin: Seq<char>)
    ensures
        noticed_credential(c, fallback_origin) is Some <==> c.username is Some && c.password is Some,
        noticed_credential(c, fallback_origin) matches Some(x) ==> {
            &&& x.username == c.username->Some_0.value
            &&& x.password == c.password->Some_0.value
            &&& x.username_field == c.username->Some_0.field_name
            &&& x.password_field == c.password->Some_0.field_name
            &&& c.password->Some_0.label is Some ==> x.form_label == c.password->Some_0.label
            &&& c.password->Some_0.label is None ==> x.form_label == c.username->Some_0.label
            &&& c.origin is Some ==> x.origin == c.origin->Some_0
            &&& c.origin is None ==> x.origin == fallback_origin
        },
{
}

/// On a page of the origin that the notices are from, or of an unknown one, they all count; those
/// without an origin get that of the page. Asking for another page of the same origin keeps
/// them, asking for one of another origin drops them.
pub proof fn law_notices_count_on_their_origin(c: CaptureView, url: Seq<char>)
    ensures
        capture_on_page(c, None) == c,
        c.origin is None ==> capture_on_page(c, Some(url)) == (CaptureView {
            origin: Some(origin_of(url)),
            ..c
        }),
        c.origin == Some(origin_of(url)) ==> capture_on_page(c, Some(url)) == c,
        c.origin is None || c.origin == Some(origin_of(url)) ==> capture_after_navigation(c, url)
            == c,
        c.origin is Some && c.origin != Some(origin_of(url)) ==> {
            let after = capture_after_navigation(c, url);
            after.username is None && after.password is None && after.origin is None
        },
{
}

proof fn lemma_before_slash(host: Seq<char>, rest: Seq<char>)
    requires
        forall|i: int| 0 <= i < host.len() ==> #[trigger] host[i] != '/',
        rest.len() == 0 || rest[0] == '/',
    ensures
        before_slash(host + rest) == host,
    decreases host.len(),
{
    if host.len() == 0 {
        assert(host + rest =~= rest);
        assert(before_slash(host + rest) =~= host);
    } else {
        let h = host.drop_first();
        assert forall|i: int| 0 <= i < h.len() implies #[trigger] h[i] != '/' by {
            assert(host[i + 1] != '/');
        }
        lemma_before_slash(h, rest);
        assert((host + rest).drop_first() =~= h + rest);
        assert(host[0] != '/');
        assert(seq![host[0]] + h =~= host);
    }
}

/// The origin of an address is its scheme and its host, whatever comes after the host; white
/// space around the address does not count, and an address without a scheme is its own origin.
pub proof fn law_origin_is_scheme_and_host(
    url: Seq<char>,
    scheme: Seq<char>,
    host: Seq<char>,
    rest: Seq<char>,
)
    requires
        forall|i: int| 0 <= i < scheme.len() ==> #[trigger] scheme[i] != ':',
        forall|i: int| 0 <= i < host.len() ==> #[trigger] host[i] != '/',
        rest.len() == 0 || rest[0] == '/',
    ensures
        trimmed(url) == scheme + "://"@ + host + rest ==> origin_of(url) == scheme + "://"@ + host,
        !contains_text(trimmed(url), "://"@) ==> origin_of(url) == trimmed(url),
{
    reveal_strlit("://");
    assert("://"@.len() == 3 && "://"@[0] == ':');
    let t = trimmed(url);
    if t == scheme + "://"@ + host + rest {
        let n = scheme.len() as int;
        assert(t.subrange(n, n + 3) =~= "://"@);
        assert(crate::text::occurs_at(t, "://"@, n));
        assert forall|j: int| 0 <= j < n implies !#[trigger] crate::text::occurs_at(t, "://"@, j) by {
            if crate::text::occurs_at(t, "://"@, j) {
                assert(t.subrange(j, j + 3)[0] == ':');
                assert(t[j] == scheme[j]);
            }
        }
        assert(first_occurrence(t, "://"@, n));
        let at = choose|at: int| first_occurrence(t, "://"@, at);
        assert(at == n) by {
            assert(first_occurrence(t, "://"@, at));
        }
        assert(t.take(n) =~= scheme);
        assert(t.skip(n + 3) =~= host + rest);
        lemma_before_slash(host, rest);
    }
}

/// A list of commands submits a login exactly when one of them clicks a node that may submit it.
pub proof fn law_submitting_clicks(nodes: Seq<NodeView>, commands: Seq<CommandView>)
    ensures
        clicks_submit(nodes, commands) ==> exists|k: int, i: int|
            0 <= k < commands.len() && (#[trigger] commands[k]) is Click && is_target(
                nodes,
                commands[k]->Click_target,
                None,
                i,
            ) && submits(#[trigger] nodes[i]),
        forall|k: int, i: int|
            0 <= k < commands.len() && (#[trigger] commands[k]) is Click && is_target(
                nodes,
                commands[k]->Click_target,
                None,
                i,
            ) && submits(#[trigger] nodes[i]) ==> clicks_submit(nodes, commands),
{
    if clicks_submit(nodes, commands) {
        let k = choose|k: int|
            0 <= k < commands.len() && (#[trigger] commands[k] matches CommandView::Click { target }
                && target_node(nodes, target) matches Some(node) && submits(node));
        let t = commands[k]->Click_target;
        let i = choose|i: int| is_target(nodes, t, None, i);
        assert(commands[k] is Click && submits(nodes[i]));
    }
    assert forall|k: int, i: int|
        0 <= k < commands.len() && (#[trigger] commands[k]) is Click && is_target(
            nodes,
            commands[k]->Click_target,
            None,
            i,
        ) && submits(#[trigger] nodes[i]) implies clicks_submit(nodes, commands) by {
        let t = commands[k]->Click_target;
        let j = choose|j: int| is_target(nodes, t, None, j);
        law_target_unique(nodes, t, None, i, j);
        assert(target_node(nodes, t) == Some(nodes[i]));
        assert(commands[k] == CommandView::Click { target: t });
    }
}

} // verus!
