//! Resolving a command's target against a snapshot.

use vstd::prelude::*;

use crate::commands::command::{CommandMatcher, CommandTarget, MatcherView, NodeId, TargetView};
use crate::dom::node::{
    no_semantics, DomNode, DomNodeSemantics, DomSnapshot, NodeView, SemanticsView,
};
use crate::dom::diff::attr_of;
use crate::text::{
    contains, contains_text, normalize_text, normalized_text, opt_str, opt_text, str_eq, texts,
    texts_contain,
};

verus! {

/// What a command wants to do with its target.
#[derive(Debug, Clone, Copy, PartialEq, Eq, Structural)]
pub enum DesiredAction {
    Click,
    Hover,
    Type,
    PressKey,
}

/// How one field of a matcher contributed to a score.
#[derive(Debug, Clone)]
pub struct MatchFieldDebug {
    pub field: &'static str,
    pub exact: bool,
    pub score: i64,
}

/// The contents of a `MatchFieldDebug`.
#[verifier::ext_equal]
pub struct FieldView {
    pub field: Seq<char>,
    pub exact: bool,
    pub score: int,
}

impl View for MatchFieldDebug {
    type V = FieldView;

    open spec fn view(&self) -> FieldView {
        FieldView { field: self.field@, exact: self.exact, score: self.score as int }
    }
}

/// The contents of a list of field contributions.
pub open spec fn fields_view(list: Seq<MatchFieldDebug>) -> Seq<FieldView> {
    Seq::new(list.len(), |i: int| list[i]@)
}

/// A node that matches, with its score.
#[derive(Debug, Clone)]
pub struct MatchCandidate<'a> {
    pub node: &'a DomNode,
    pub score: i64,
    pub actionable_for_action: bool,
    pub fields: Vec<MatchFieldDebug>,
}

/// The contents of a `MatchCandidate` without its node.
#[verifier::ext_equal]
pub struct CandidateView {
    pub score: int,
    pub actionable_for_action: bool,
    pub fields: Seq<FieldView>,
}

impl<'a> View for MatchCandidate<'a> {
    type V = CandidateView;

    open spec fn view(&self) -> CandidateView {
        CandidateView {
            score: self.score as int,
            actionable_for_action: self.actionable_for_action,
            fields: fields_view(self.fields@),
        }
    }
}

/// A score so far, with the contributions that made it; `None` once a field did not match.
pub type Tally = Option<(int, Seq<FieldView>)>;

/// The score of a normalized field against the normalized text that is asked for: nothing
/// asked for scores nothing, equal text scores most, and text that contains what is asked
/// for scores half of that unless only exact matches count.
pub open spec fn text_score(actual: Seq<char>, expected: Seq<char>, exact_only: bool) -> Option<
    int,
> {
    if expected.len() == 0 {
        Some(0)
    } else if actual.len() == 0 {
        None
    } else if actual == expected {
        Some(120)
    } else if exact_only || !contains_text(actual, expected) {
        None
    } else {
        Some(60)
    }
}

/// The score of a normalized field against the normalized text that is asked for.
pub fn score_normalized(actual: &str, expected: &str, exact_only: bool) -> (res: Option<i64>)
    ensures
        match res {
            Some(score) => text_score(actual@, expected@, exact_only) == Some(score as int),
            None => text_score(actual@, expected@, exact_only) is None,
        },
{
    if expected.unicode_len() == 0 {
        Some(0)
    } else if actual.unicode_len() == 0 {
        None
    } else if str_eq(actual, expected) {
        Some(120)
    } else if exact_only || !contains(actual, expected) {
        None
    } else {
        Some(60)
    }
}

/// The characters of a text, or none.
pub open spec fn text_or_empty(text: Option<Seq<char>>) -> Seq<char> {
    match text {
        Some(t) => t,
        None => Seq::empty(),
    }
}

/// The score of a field: a field that is not asked for scores nothing.
pub open spec fn field_score(
    actual: Option<Seq<char>>,
    expected: Option<Seq<char>>,
    exact_only: bool,
) -> Option<int> {
    match expected {
        None => Some(0),
        Some(e) => text_score(normalized_text(text_or_empty(actual)), normalized_text(e), exact_only),
    }
}

/// The contributions of a field: one where it scored, none otherwise.
pub open spec fn field_debug(field: Seq<char>, score: Option<int>) -> Seq<FieldView> {
    match score {
        Some(s) => if s > 0 {
            seq![FieldView { field, exact: s == 120, score: s }]
        } else {
            Seq::empty()
        },
        None => Seq::empty(),
    }
}

/// A tally after one more field.
pub open spec fn tally_field(
    so_far: Tally,
    field: Seq<char>,
    actual: Option<Seq<char>>,
    expected: Option<Seq<char>>,
    exact_only: bool,
) -> Tally {
    match so_far {
        None => None,
        Some((score, fields)) => {
            let s = field_score(actual, expected, exact_only);
            match s {
                None => None,
                Some(n) => Some((score + n, fields + field_debug(field, s))),
            }
        },
    }
}

/// Where placeholder text may stand: the attributes `placeholder` and `aria-label`, then the
/// accessible name and the label.
pub open spec fn placeholder_texts(node: NodeView, semantic: SemanticsView) -> Seq<Seq<char>> {
    push_some(
        push_some(
            push_some(
                push_some(Seq::empty(), attr_of(node.attrs, "placeholder"@)),
                attr_of(node.attrs, "aria-label"@),
            ),
            semantic.name,
        ),
        semantic.label,
    )
}

/// A list with one more text, if there is one.
pub open spec fn push_some(list: Seq<Seq<char>>, text: Option<Seq<char>>) -> Seq<Seq<char>> {
    match text {
        Some(t) => list.push(t),
        None => list,
    }
}

/// The best score among the first texts of a list, with all contributions.
pub open spec fn best_of(
    list: Seq<Seq<char>>,
    expected: Seq<char>,
    exact_only: bool,
) -> (Option<int>, Seq<FieldView>)
    decreases list.len(),
{
    if list.len() == 0 {
        (None, Seq::empty())
    } else {
        let (best, fields) = best_of(list.drop_last(), expected, exact_only);
        let s = field_score(Some(list.last()), Some(expected), exact_only);
        (
            match (best, s) {
                (Some(b), Some(n)) => Some(if n > b {
                    n
                } else {
                    b
                }),
                (None, _) => s,
                (_, None) => best,
            },
            fields + field_debug("placeholder"@, s),
        )
    }
}

/// A tally after the placeholder field: the best of the places where placeholder text may be.
pub open spec fn tally_placeholder(
    so_far: Tally,
    node: NodeView,
    semantic: SemanticsView,
    expected: Option<Seq<char>>,
    exact_only: bool,
) -> Tally {
    match (so_far, expected) {
        (None, _) => None,
        (_, None) => so_far,
        (Some((score, fields)), Some(e)) => {
            let (best, more) = best_of(placeholder_texts(node, semantic), e, exact_only);
            match best {
                None => None,
                Some(n) => Some((score + n, fields + more)),
            }
        },
    }
}

/// Whether a field is exactly what is asked for: the same normalized text, and not empty.
pub open spec fn exact_field(actual: Option<Seq<char>>, expected: Option<Seq<char>>) -> bool {
    match expected {
        None => true,
        Some(e) => {
            let want = normalized_text(e);
            want.len() > 0 && normalized_text(text_or_empty(actual)) == want
        },
    }
}

/// Whether one of the places for placeholder text is exactly what is asked for.
pub open spec fn exact_placeholder(
    node: NodeView,
    semantic: SemanticsView,
    expected: Option<Seq<char>>,
) -> bool {
    match expected {
        None => true,
        Some(e) => {
            let want = normalized_text(e);
            let list = placeholder_texts(node, semantic);
            want.len() > 0 && exists|i: int|
                0 <= i < list.len() && normalized_text(#[trigger] list[i]) == want
        },
    }
}

/// Whether every field that is asked for matches exactly.
#[verifier::opaque]
pub open spec fn exact_node(node: NodeView, m: MatcherView, semantic: SemanticsView) -> bool {
    &&& exact_field(semantic.role, m.role)
    &&& exact_field(semantic.name, m.name)
    &&& exact_field(semantic.label, m.label)
    &&& exact_field(semantic.control_type, m.control_type)
    &&& exact_field(Some(node.tag), m.tag)
    &&& exact_field(node.text, m.text)
    &&& exact_placeholder(node, semantic, m.placeholder)
    &&& exact_field(attr_of(node.attrs, "href"@), m.href_contains)
}

/// The semantics of a node, or the empty ones.
pub open spec fn semantics_of(node: NodeView) -> SemanticsView {
    match node.semantic {
        Some(s) => s,
        None => no_semantics(),
    }
}

/// Whether a node takes an action: a click needs an action `click`, `open` or `submit` or a
/// `label` tag, hovering and keys need an actionable node or the action itself, typing needs
/// the action `type`.
pub open spec fn takes_action(node: NodeView, action: Option<DesiredAction>) -> bool {
    let semantic = semantics_of(node);
    match action {
        Some(DesiredAction::Click) => semantic.actions.contains("click"@)
            || semantic.actions.contains("open"@) || semantic.actions.contains("submit"@)
            || node.tag == "label"@,
        Some(DesiredAction::Hover) => semantic.actionable || semantic.actions.contains("hover"@),
        Some(DesiredAction::Type) => semantic.actions.contains("type"@),
        Some(DesiredAction::PressKey) => semantic.actionable || semantic.actions.contains(
            "press_key"@,
        ),
        None => true,
    }
}

/// The fields of a node tallied against a matcher.
#[verifier::opaque]
pub open spec fn tally_node(node: NodeView, m: MatcherView) -> Tally {
    let s = semantics_of(node);
    let exact = m.exact == Some(true);
    let t: Tally = Some((0int, Seq::<FieldView>::empty()));
    let t = tally_field(t, "role"@, s.role, m.role, exact);
    let t = tally_field(t, "name"@, s.name, m.name, exact);
    let t = tally_field(t, "label"@, s.label, m.label, exact);
    let t = tally_field(t, "control_type"@, s.control_type, m.control_type, exact);
    let t = tally_field(t, "tag"@, Some(node.tag), m.tag, exact);
    let t = tally_field(t, "text"@, node.text, m.text, exact);
    let t = tally_placeholder(t, node, s, m.placeholder, exact);
    tally_field(t, "href_contains"@, attr_of(node.attrs, "href"@), m.href_contains, exact)
}

/// The candidate that a node makes for a matcher and an action, if it makes one.
pub open spec fn candidate_of(
    node: NodeView,
    m: MatcherView,
    action: Option<DesiredAction>,
) -> Option<CandidateView> {
    let s = semantics_of(node);
    let takes = takes_action(node, action);
    if !takes {
        None
    } else if m.exact == Some(true) && !exact_node(node, m, s) {
        None
    } else if m.actionable is Some && m.actionable != Some(s.actionable) {
        None
    } else if m.disabled is Some && m.disabled != Some(s.disabled) {
        None
    } else {
        match tally_node(node, m) {
            None => None,
            Some((score, fields)) => Some(
                CandidateView { score: score + 120, actionable_for_action: true, fields },
            ),
        }
    }
}

/// Whether a tally is the one that a score and its contributions carry, after `count` fields.
spec fn carries(t: Tally, score: Option<i64>, fields: Seq<MatchFieldDebug>, count: int) -> bool {
    match score {
        Some(n) => t == Some((n as int, fields_view(fields))) && 0 <= n <= 120 * count,
        None => t is None,
    }
}

fn add_string_field(
    score: Option<i64>,
    field: &'static str,
    actual: Option<&str>,
    expected: Option<&str>,
    exact_only: bool,
    fields: &mut Vec<MatchFieldDebug>,
    Ghost(t): Ghost<Tally>,
    Ghost(count): Ghost<int>,
) -> (res: Option<i64>)
    requires
        carries(t, score, old(fields)@, count),
        0 <= count <= 8,
    ensures
        carries(
            tally_field(t, field@, opt_view(actual), opt_view(expected), exact_only),
            res,
            final(fields)@,
            count + 1,
        ),
{
    match score {
        None => None,
        Some(so_far) => match score_string_field(field, actual, expected, exact_only, fields) {
            Some(n) => Some(so_far + n),
            None => None,
        },
    }
}

fn add_placeholder_field(
    score: Option<i64>,
    node: &DomNode,
    semantic: &DomNodeSemantics,
    expected: Option<&str>,
    exact_only: bool,
    fields: &mut Vec<MatchFieldDebug>,
    Ghost(t): Ghost<Tally>,
    Ghost(count): Ghost<int>,
) -> (res: Option<i64>)
    requires
        carries(t, score, old(fields)@, count),
        0 <= count <= 8,
    ensures
        carries(
            tally_placeholder(t, node@, semantic@, opt_view(expected), exact_only),
            res,
            final(fields)@,
            count + 1,
        ),
{
    match score {
        None => None,
        Some(so_far) => match score_placeholder_field(
            node,
            semantic,
            expected,
            exact_only,
            fields,
        ) {
            Some(n) => Some(so_far + n),
            None => None,
        },
    }
}

/// The score of a node's fields against a matcher.
fn score_fields(
    node: &DomNode,
    semantic: &DomNodeSemantics,
    matcher: &CommandMatcher,
    fields: &mut Vec<MatchFieldDebug>,
) -> (res: Option<i64>)
    requires
        semantic@ == semantics_of(node@),
        old(fields)@.len() == 0,
    ensures
        carries(tally_node(node@, matcher@), res, final(fields)@, 8),
{
    reveal(tally_node);
    let exact = match matcher.exact {
        Some(e) => e,
        None => false,
    };
    let ghost m = matcher@;
    let ghost s = semantic@;
    let ghost n = node@;
    let ghost t: Tally = Some((0int, Seq::<FieldView>::empty()));
    assert(fields_view(fields@) =~= Seq::<FieldView>::empty());
    let score: Option<i64> = Some(0);
    let score = add_string_field(
        score,
        "role",
        opt_str(&semantic.role),
        opt_str(&matcher.role),
        exact,
        fields,
        Ghost(t),
        Ghost(0),
    );
    let ghost t = tally_field(t, "role"@, s.role, m.role, exact);
    let score = add_string_field(
        score,
        "name",
        opt_str(&semantic.name),
        opt_str(&matcher.name),
        exact,
        fields,
        Ghost(t),
        Ghost(1),
    );
    let ghost t = tally_field(t, "name"@, s.name, m.name, exact);
    let score = add_string_field(
        score,
        "label",
        opt_str(&semantic.label),
        opt_str(&matcher.label),
        exact,
        fields,
        Ghost(t),
        Ghost(2),
    );
    let ghost t = tally_field(t, "label"@, s.label, m.label, exact);
    let score = add_string_field(
        score,
        "control_type",
        opt_str(&semantic.control_type),
        opt_str(&matcher.control_type),
        exact,
        fields,
        Ghost(t),
        Ghost(3),
    );
    let ghost t = tally_field(t, "control_type"@, s.control_type, m.control_type, exact);
    let score = add_string_field(
        score,
        "tag",
        Some(node.tag.as_str()),
        opt_str(&matcher.tag),
        exact,
        fields,
        Ghost(t),
        Ghost(4),
    );
    let ghost t = tally_field(t, "tag"@, Some(n.tag), m.tag, exact);
    let score = add_string_field(
        score,
        "text",
        opt_str(&node.text),
        opt_str(&matcher.text),
        exact,
        fields,
        Ghost(t),
        Ghost(5),
    );
    let ghost t = tally_field(t, "text"@, n.text, m.text, exact);
    let score = add_placeholder_field(
        score,
        node,
        semantic,
        opt_str(&matcher.placeholder),
        exact,
        fields,
        Ghost(t),
        Ghost(6),
    );
    let ghost t = tally_placeholder(t, n, s, m.placeholder, exact);
    add_string_field(
        score,
        "href_contains",
        attr_str(node, "href"),
        opt_str(&matcher.href_contains),
        exact,
        fields,
        Ghost(t),
        Ghost(7),
    )
}

fn score_string_field(
    field: &'static str,
    actual: Option<&str>,
    expected: Option<&str>,
    exact_only: bool,
    fields: &mut Vec<MatchFieldDebug>,
) -> (res: Option<i64>)
    ensures
        ({
            let s = field_score(opt_view(actual), opt_view(expected), exact_only);
            &&& match res {
                Some(n) => s == Some(n as int) && 0 <= n <= 120,
                None => s is None,
            }
            &&& fields_view(final(fields)@) == fields_view(old(fields)@) + field_debug(field@, s)
        }),
{
    let ghost before = fields_view(fields@);
    match expected {
        None => {
            assert(fields_view(fields@) =~= before + Seq::empty());
            Some(0)
        },
        Some(want) => {
            let actual_normalized = match actual {
                Some(a) => normalize_text(a),
                None => {
                    proof {
                        reveal_strlit("");
                        assert(""@ =~= Seq::empty());
                    }
                    normalize_text("")
                },
            };
            let expected_normalized = normalize_text(want);
            let scored = score_normalized(
                actual_normalized.as_str(),
                expected_normalized.as_str(),
                exact_only,
            );
            match scored {
                Some(n) => {
                    if n > 0 {
                        fields.push(MatchFieldDebug { field, exact: n == 120, score: n });
                        assert(fields_view(fields@) =~= before.push(
                            FieldView { field: field@, exact: n == 120, score: n as int },
                        ));
                        assert(before.push(
                            FieldView { field: field@, exact: n == 120, score: n as int },
                        ) =~= before + field_debug(field@, Some(n as int)));
                    } else {
                        assert(fields_view(fields@) =~= before + Seq::empty());
                    }
                },
                None => {
                    assert(fields_view(fields@) =~= before + Seq::empty());
                },
            }
            scored
        },
    }
}

/// The characters of an optional borrowed text.
pub open spec fn opt_view(text: Option<&str>) -> Option<Seq<char>> {
    match text {
        Some(t) => Some(t@),
        None => None,
    }
}

fn attr_str<'a>(node: &'a DomNode, name: &str) -> (res: Option<&'a str>)
    ensures
        opt_view(res) == attr_of(node.attrs@, name@),
{
    match node.attrs.get(name) {
        Some(v) => Some(v.as_str()),
        None => None,
    }
}

fn placeholder_candidates<'a>(node: &'a DomNode, semantic: &'a DomNodeSemantics) -> (res: Vec<
    &'a str,
>)
    ensures
        Seq::new(res@.len(), |i: int| res@[i]@) == placeholder_texts(node@, semantic@),
{
    let mut parts: Vec<&'a str> = Vec::new();
    let ghost seen: Seq<Seq<char>> = Seq::empty();
    assert(Seq::new(parts@.len(), |i: int| parts@[i]@) =~= seen);
    if let Some(value) = attr_str(node, "placeholder") {
        parts.push(value);
    }
    proof {
        seen = push_some(seen, attr_of(node.attrs@, "placeholder"@));
    }
    assert(Seq::new(parts@.len(), |i: int| parts@[i]@) =~= seen);
    if let Some(value) = attr_str(node, "aria-label") {
        parts.push(value);
    }
    proof {
        seen = push_some(seen, attr_of(node.attrs@, "aria-label"@));
    }
    assert(Seq::new(parts@.len(), |i: int| parts@[i]@) =~= seen);
    if let Some(value) = opt_str(&semantic.name) {
        parts.push(value);
    }
    proof {
        seen = push_some(seen, opt_text(semantic.name));
    }
    assert(Seq::new(parts@.len(), |i: int| parts@[i]@) =~= seen);
    if let Some(value) = opt_str(&semantic.label) {
        parts.push(value);
    }
    proof {
        seen = push_some(seen, opt_text(semantic.label));
    }
    assert(Seq::new(parts@.len(), |i: int| parts@[i]@) =~= seen);
    parts
}

fn score_placeholder_field(
    node: &DomNode,
    semantic: &DomNodeSemantics,
    expected: Option<&str>,
    exact_only: bool,
    fields: &mut Vec<MatchFieldDebug>,
) -> (res: Option<i64>)
    ensures
        match expected {
            None => res == Some(0i64) && fields_view(final(fields)@) == fields_view(old(fields)@),
            Some(e) => {
                let (best, more) = best_of(placeholder_texts(node@, semantic@), e@, exact_only);
                &&& match res {
                    Some(n) => best == Some(n as int) && 0 <= n <= 120,
                    None => best is None,
                }
                &&& fields_view(final(fields)@) == fields_view(old(fields)@) + more
            },
        },
{
    let ghost before = fields_view(fields@);
    match expected {
        None => Some(0),
        Some(want) => {
            let candidates = placeholder_candidates(node, semantic);
            let ghost list = placeholder_texts(node@, semantic@);
            let mut best: Option<i64> = None;
            let mut i: usize = 0;
            assert(list.take(0) =~= Seq::empty());
            assert(before + Seq::<FieldView>::empty() =~= before);
            while i < candidates.len()
                invariant
                    i <= candidates@.len(),
                    list == Seq::new(candidates@.len(), |k: int| candidates@[k]@),
                    match best {
                        Some(b) => best_of(list.take(i as int), want@, exact_only).0 == Some(
                            b as int,
                        ) && 0 <= b <= 120,
                        None => best_of(list.take(i as int), want@, exact_only).0 is None,
                    },
                    fields_view(fields@) == before + best_of(
                        list.take(i as int),
                        want@,
                        exact_only,
                    ).1,
                decreases candidates@.len() - i,
            {
                let ghost seen = fields_view(fields@);
                let scored = score_string_field(
                    "placeholder",
                    Some(candidates[i]),
                    Some(want),
                    exact_only,
                    fields,
                );
                proof {
                    assert(list.take(i + 1).drop_last() =~= list.take(i as int));
                    assert(list.take(i + 1).last() == candidates@[i as int]@);
                    let (_, more) = best_of(list.take(i as int), want@, exact_only);
                    let extra = field_debug(
                        "placeholder"@,
                        field_score(Some(candidates@[i as int]@), Some(want@), exact_only),
                    );
                    assert(before + more + extra =~= before + (more + extra));
                }
                if let Some(n) = scored {
                    best = match best {
                        Some(b) => Some(if n > b { n } else { b }),
                        None => Some(n),
                    };
                }
                i += 1;
            }
            assert(list.take(i as int) =~= list);
            best
        },
    }
}

fn exact_string_field(actual: Option<&str>, expected: Option<&str>) -> (res: bool)
    ensures
        res == exact_field(opt_view(actual), opt_view(expected)),
{
    match expected {
        None => true,
        Some(want) => {
            let actual_normalized = match actual {
                Some(a) => normalize_text(a),
                None => {
                    proof {
                        reveal_strlit("");
                        assert(""@ =~= Seq::empty());
                    }
                    normalize_text("")
                },
            };
            let expected_normalized = normalize_text(want);
            expected_normalized.as_str().unicode_len() > 0 && str_eq(
                actual_normalized.as_str(),
                expected_normalized.as_str(),
            )
        },
    }
}

fn exact_placeholder_field(
    node: &DomNode,
    semantic: &DomNodeSemantics,
    expected: Option<&str>,
) -> (res: bool)
    ensures
        res == exact_placeholder(node@, semantic@, opt_view(expected)),
{
    match expected {
        None => true,
        Some(want) => {
            let expected_normalized = normalize_text(want);
            if expected_normalized.as_str().unicode_len() == 0 {
                return false;
            }
            let candidates = placeholder_candidates(node, semantic);
            let ghost list = placeholder_texts(node@, semantic@);
            let mut i: usize = 0;
            while i < candidates.len()
                invariant
                    i <= candidates@.len(),
                    list == placeholder_texts(node@, semantic@),
                    list == Seq::new(candidates@.len(), |k: int| candidates@[k]@),
                    expected == Some(want),
                    expected_normalized@ == normalized_text(want@),
                    expected_normalized@.len() > 0,
                    forall|k: int|
                        0 <= k < i ==> normalized_text(#[trigger] list[k]) != expected_normalized@,
                decreases candidates@.len() - i,
            {
                let candidate = normalize_text(candidates[i]);
                if str_eq(candidate.as_str(), expected_normalized.as_str()) {
                    assert(normalized_text(list[i as int]) == expected_normalized@);
                    return true;
                }
                i += 1;
            }
            false
        },
    }
}

fn exact_match(node: &DomNode, matcher: &CommandMatcher, semantic: &DomNodeSemantics) -> (res: bool)
    ensures
        res == exact_node(node@, matcher@, semantic@),
{
    reveal(exact_node);
    exact_string_field(opt_str(&semantic.role), opt_str(&matcher.role)) && exact_string_field(
        opt_str(&semantic.name),
        opt_str(&matcher.name),
    ) && exact_string_field(opt_str(&semantic.label), opt_str(&matcher.label))
        && exact_string_field(opt_str(&semantic.control_type), opt_str(&matcher.control_type))
        && exact_string_field(Some(node.tag.as_str()), opt_str(&matcher.tag)) && exact_string_field(
        opt_str(&node.text),
        opt_str(&matcher.text),
    ) && exact_placeholder_field(node, semantic, opt_str(&matcher.placeholder))
        && exact_string_field(attr_str(node, "href"), opt_str(&matcher.href_contains))
}

fn is_actionable_for_action(
    node: &DomNode,
    semantic: &DomNodeSemantics,
    desired_action: Option<DesiredAction>,
) -> (res: bool)
    requires
        semantic@ == semantics_of(node@),
    ensures
        res == takes_action(node@, desired_action),
{
    match desired_action {
        Some(DesiredAction::Click) => texts_contain(&semantic.actions, "click") || texts_contain(
            &semantic.actions,
            "open",
        ) || texts_contain(&semantic.actions, "submit") || str_eq(node.tag.as_str(), "label"),
        Some(DesiredAction::Hover) => semantic.actionable || texts_contain(
            &semantic.actions,
            "hover",
        ),
        Some(DesiredAction::Type) => texts_contain(&semantic.actions, "type"),
        Some(DesiredAction::PressKey) => semantic.actionable || texts_contain(
            &semantic.actions,
            "press_key",
        ),
        None => true,
    }
}

/// The candidate that a node makes for a matcher and an action, if it makes one.
pub fn score_candidate<'a>(
    node: &'a DomNode,
    matcher: &CommandMatcher,
    desired_action: Option<DesiredAction>,
) -> (res: Option<MatchCandidate<'a>>)
    ensures
        match res {
            Some(c) => candidate_of(node@, matcher@, desired_action) == Some(c@) && *c.node
                == *node,
            None => candidate_of(node@, matcher@, desired_action) is None,
        },
{
    let semantic = match &node.semantic {
        Some(s) => s.clone(),
        None => DomNodeSemantics::default(),
    };
    assert(semantic@ == semantics_of(node@));
    let actionable_for_action = is_actionable_for_action(node, &semantic, desired_action);
    if !actionable_for_action {
        return None;
    }
    let exact = match matcher.exact {
        Some(e) => e,
        None => false,
    };
    if exact && !exact_match(node, matcher, &semantic) {
        return None;
    }
    let mut fields: Vec<MatchFieldDebug> = Vec::new();
    let scored = score_fields(node, &semantic, matcher, &mut fields);
    let mut score: i64 = match scored {
        Some(n) => n,
        None => {
            return None;
        },
    };
    if let Some(value) = matcher.actionable {
        if semantic.actionable != value {
            return None;
        }
    }
    if let Some(value) = matcher.disabled {
        if semantic.disabled != value {
            return None;
        }
    }
    if actionable_for_action {
        score += 120;
    } else if semantic.actionable {
        score += 20;
    }
    Some(MatchCandidate { node, score, actionable_for_action, fields })
}

/// Whether candidate `i` of a list of nodes ranks before candidate `j`: by score, then by
/// taking the action, then by the lower identifier, then by position.
pub open spec fn ranks_before(
    nodes: Seq<NodeView>,
    m: MatcherView,
    action: Option<DesiredAction>,
    i: int,
    j: int,
) -> bool {
    let a = candidate_of(nodes[i], m, action)->Some_0;
    let b = candidate_of(nodes[j], m, action)->Some_0;
    if a.score != b.score {
        a.score > b.score
    } else if a.actionable_for_action != b.actionable_for_action {
        a.actionable_for_action
    } else if nodes[i].id != nodes[j].id {
        nodes[i].id < nodes[j].id
    } else {
        i < j
    }
}

/// Whether the node at `i` is the best match: a candidate that ranks before all others.
pub open spec fn is_best(
    nodes: Seq<NodeView>,
    m: MatcherView,
    action: Option<DesiredAction>,
    i: int,
) -> bool {
    &&& 0 <= i < nodes.len()
    &&& candidate_of(nodes[i], m, action) is Some
    &&& forall|j: int|
        0 <= j < nodes.len() && j != i && #[trigger] candidate_of(nodes[j], m, action) is Some
            ==> ranks_before(nodes, m, action, i, j)
}

/// Whether the best match among the first `n` nodes is at `at`.
spec fn best_so_far(
    nodes: Seq<NodeView>,
    m: MatcherView,
    action: Option<DesiredAction>,
    n: int,
    at: Option<usize>,
) -> bool {
    match at {
        Some(i) => is_best(nodes.take(n), m, action, i as int),
        None => forall|j: int|
            0 <= j < n ==> #[trigger] candidate_of(nodes[j], m, action) is None,
    }
}

/// The position of the best match with its candidate.
fn best_position<'a>(
    snapshot: &'a DomSnapshot,
    matcher: &CommandMatcher,
    desired_action: Option<DesiredAction>,
) -> (res: Option<(usize, MatchCandidate<'a>)>)
    ensures
        match res {
            Some((i, c)) => is_best(snapshot@, matcher@, desired_action, i as int) && *c.node
                == snapshot.nodes@[i as int] && candidate_of(
                snapshot@[i as int],
                matcher@,
                desired_action,
            ) == Some(c@),
            None => forall|j: int|
                0 <= j < snapshot@.len() ==> #[trigger] candidate_of(
                    snapshot@[j],
                    matcher@,
                    desired_action,
                ) is None,
        },
{
    let ghost nodes = snapshot@;
    let ghost m = matcher@;
    let mut best: Option<(usize, MatchCandidate<'a>)> = None;
    let mut i: usize = 0;
    while i < snapshot.nodes.len()
        invariant
            i <= snapshot.nodes@.len(),
            nodes == snapshot@,
            m == matcher@,
            match best {
                Some((k, c)) => k < i && *c.node == snapshot.nodes@[k as int] && candidate_of(
                    nodes[k as int],
                    m,
                    desired_action,
                ) == Some(c@) && best_so_far(nodes, m, desired_action, i as int, Some(k)),
                None => best_so_far(nodes, m, desired_action, i as int, None),
            },
        decreases snapshot.nodes@.len() - i,
    {
        let ghost done = nodes.take(i as int);
        let ghost next = nodes.take(i + 1);
        proof {
            assert(nodes[i as int] == snapshot.nodes@[i as int]@);
            assert forall|k: int| 0 <= k < i implies #[trigger] next[k] == done[k] by {}
        }
        if let Some(candidate) = score_candidate(&snapshot.nodes[i], matcher, desired_action) {
            let better = match &best {
                None => true,
                Some((_, c)) => if candidate.score != c.score {
                    candidate.score > c.score
                } else if candidate.actionable_for_action != c.actionable_for_action {
                    candidate.actionable_for_action
                } else {
                    candidate.node.id < c.node.id
                },
            };
            proof {
                assert(candidate_of(next[i as int], m, desired_action) == Some(candidate@));
                match &best {
                    Some((k, c)) => {
                        let k = *k as int;
                        assert(next[k] == nodes[k]);
                        assert(is_best(done, m, desired_action, k));
                        assert(done[k] == nodes[k]);
                        if better {
                            assert forall|j: int|
                                0 <= j < next.len() && j != i && #[trigger] candidate_of(
                                    next[j],
                                    m,
                                    desired_action,
                                ) is Some implies ranks_before(
                                next,
                                m,
                                desired_action,
                                i as int,
                                j,
                            ) by {
                                assert(next[j] == done[j]);
                                if j != k {
                                    assert(ranks_before(done, m, desired_action, k, j));
                                }
                            }
                        } else {
                            assert forall|j: int|
                                0 <= j < next.len() && j != k && #[trigger] candidate_of(
                                    next[j],
                                    m,
                                    desired_action,
                                ) is Some implies ranks_before(
                                next,
                                m,
                                desired_action,
                                k,
                                j,
                            ) by {
                                if j < i {
                                    assert(next[j] == done[j]);
                                    assert(ranks_before(done, m, desired_action, k, j));
                                }
                            }
                        }
                    },
                    None => {
                        assert forall|j: int|
                            0 <= j < next.len() && j != i && #[trigger] candidate_of(
                                next[j],
                                m,
                                desired_action,
                            ) is Some implies ranks_before(next, m, desired_action, i as int, j) by {
                            assert(next[j] == nodes[j]);
                            assert(candidate_of(nodes[j], m, desired_action) is None);
                        }
                    },
                }
            }
            if better {
                best = Some((i, candidate));
            }
        } else {
            proof {
                if let Some((k, c)) = &best {
                    let k = *k as int;
                    assert(is_best(done, m, desired_action, k));
                    assert(next[k] == done[k]);
                    assert forall|j: int|
                        0 <= j < next.len() && j != k && #[trigger] candidate_of(
                            next[j],
                            m,
                            desired_action,
                        ) is Some implies ranks_before(next, m, desired_action, k, j) by {
                        if j < i {
                            assert(next[j] == done[j]);
                            assert(ranks_before(done, m, desired_action, k, j));
                        } else {
                            assert(next[j] == nodes[i as int]);
                        }
                    }
                }
            }
        }
        i += 1;
    }
    assert(nodes.take(i as int) =~= nodes);
    best
}

/// The best match for a matcher and an action: the highest score, of equal scores the node
/// that takes the action, of those the lowest identifier, of those the first.
pub fn best_match<'a>(
    snapshot: &'a DomSnapshot,
    matcher: &CommandMatcher,
    desired_action: Option<DesiredAction>,
) -> (res: Option<MatchCandidate<'a>>)
    ensures
        match res {
            Some(c) => exists|i: int|
                #[trigger] is_best(snapshot@, matcher@, desired_action, i) && *c.node
                    == snapshot.nodes@[i] && candidate_of(snapshot@[i], matcher@, desired_action)
                    == Some(c@),
            None => forall|j: int|
                0 <= j < snapshot@.len() ==> #[trigger] candidate_of(
                    snapshot@[j],
                    matcher@,
                    desired_action,
                ) is None,
        },
{
    match best_position(snapshot, matcher, desired_action) {
        Some((i, c)) => {
            assert(is_best(snapshot@, matcher@, desired_action, i as int));
            Some(c)
        },
        None => None,
    }
}

/// Whether a node matches, whatever is to be done with it.
pub fn matches_command_matcher(node: &DomNode, matcher: &CommandMatcher) -> (res: bool)
    ensures
        res == (candidate_of(node@, matcher@, None) is Some),
{
    score_candidate(node, matcher, None).is_some()
}

/// Whether the node at `i` is the one that a target means: the first with its identifier, or
/// the best match.
pub open spec fn is_target(
    nodes: Seq<NodeView>,
    target: TargetView,
    action: Option<DesiredAction>,
    i: int,
) -> bool {
    match target {
        TargetView::Id { id } => 0 <= i < nodes.len() && nodes[i].id == id && forall|j: int|
            0 <= j < i ==> (#[trigger] nodes[j]).id != id,
        TargetView::Match { matcher } => is_best(nodes, matcher, action, i),
    }
}

/// Whether no node is the one that a target means.
pub open spec fn no_target(
    nodes: Seq<NodeView>,
    target: TargetView,
    action: Option<DesiredAction>,
) -> bool {
    match target {
        TargetView::Id { id } => forall|j: int|
            0 <= j < nodes.len() ==> (#[trigger] nodes[j]).id != id,
        TargetView::Match { matcher } => forall|j: int|
            0 <= j < nodes.len() ==> #[trigger] candidate_of(nodes[j], matcher, action) is None,
    }
}

/// The node that a target means, if there is one.
pub fn resolve_command_target<'a>(
    snapshot: &'a DomSnapshot,
    target: &CommandTarget,
    desired_action: Option<DesiredAction>,
) -> (res: Option<&'a DomNode>)
    ensures
        match res {
            Some(node) => exists|i: int|
                #[trigger] is_target(snapshot@, target@, desired_action, i) && *node
                    == snapshot.nodes@[i],
            None => no_target(snapshot@, target@, desired_action),
        },
{
    match target {
        CommandTarget::Id { id } => {
            let mut i: usize = 0;
            while i < snapshot.nodes.len()
                invariant
                    i <= snapshot.nodes@.len(),
                    target@ == (TargetView::Id { id: *id }),
                    forall|j: int| 0 <= j < i ==> (#[trigger] snapshot@[j]).id != *id,
                decreases snapshot.nodes@.len() - i,
            {
                if snapshot.nodes[i].id == *id {
                    assert(snapshot@[i as int].id == *id);
                    assert(is_target(snapshot@, target@, desired_action, i as int));
                    return Some(&snapshot.nodes[i]);
                }
                assert(snapshot@[i as int].id != *id);
                i += 1;
            }
            None
        },
        CommandTarget::Match { matcher } => match best_position(
            snapshot,
            matcher,
            desired_action,
        ) {
            Some((i, c)) => {
                assert(is_target(snapshot@, target@, desired_action, i as int));
                Some(c.node)
            },
            None => None,
        },
    }
}

/// The identifier that a target names, if it names one.
pub fn target_id(target: &CommandTarget) -> (res: Option<NodeId>)
    ensures
        res == match target@ {
            TargetView::Id { id } => Some(id),
            TargetView::Match { .. } => None,
        },
{
    match target {
        CommandTarget::Id { id } => Some(*id),
        CommandTarget::Match { .. } => None,
    }
}

/// A target means at most one node: resolving it again gives the same node.
pub proof fn law_target_unique(
    nodes: Seq<NodeView>,
    target: TargetView,
    action: Option<DesiredAction>,
    i: int,
    j: int,
)
    requires
        is_target(nodes, target, action, i),
        is_target(nodes, target, action, j),
    ensures
        i == j,
{
    match target {
        TargetView::Id { id } => {
            if i < j {
                assert(nodes[i].id != id);
            }
            if j < i {
                assert(nodes[j].id != id);
            }
        },
        TargetView::Match { matcher } => {
            if i != j {
                assert(candidate_of(nodes[i], matcher, action) is Some);
                assert(candidate_of(nodes[j], matcher, action) is Some);
                assert(ranks_before(nodes, matcher, action, i, j));
                assert(ranks_before(nodes, matcher, action, j, i));
            }
        },
    }
}

/// A target that resolves for an action resolves to a node that takes the action; with an
/// exact matcher every field that is asked for is exactly that of the node.
pub proof fn law_match_is_strict(
    nodes: Seq<NodeView>,
    m: MatcherView,
    action: Option<DesiredAction>,
    i: int,
)
    requires
        is_target(nodes, TargetView::Match { matcher: m }, action, i),
    ensures
        takes_action(nodes[i], action),
        m.exact == Some(true) ==> exact_node(nodes[i], m, semantics_of(nodes[i])),
        m.actionable is Some ==> m.actionable == Some(semantics_of(nodes[i]).actionable),
        m.disabled is Some ==> m.disabled == Some(semantics_of(nodes[i]).disabled),
{
}

/// What a node says of itself, where it says nothing the empty answers.
pub open spec fn told_semantics(node: NodeView) -> SemanticsView {
    match node.semantic {
        Some(s) => s,
        None => SemanticsView {
            role: None,
            name: None,
            label: None,
            control_type: None,
            actionable: false,
            disabled: false,
            visible: false,
            actions: Seq::empty(),
        },
    }
}

/// An attribute of a node.
pub open spec fn attribute(node: NodeView, name: Seq<char>) -> Option<Seq<char>> {
    if node.attrs.contains_key(name) {
        Some(node.attrs[name])
    } else {
        None
    }
}

/// The normalized form of a text that may be missing.
pub open spec fn normalized_or_empty(text: Option<Seq<char>>) -> Seq<char> {
    match text {
        Some(t) => normalized_text(t),
        None => normalized_text(Seq::empty()),
    }
}

/// Whether something is asked for in earnest: its normalized form is not empty.
pub open spec fn asked(wanted: Option<Seq<char>>) -> bool {
    wanted matches Some(w) && normalized_text(w).len() > 0
}

/// Whether a text holds what is asked for.
pub open spec fn holds(actual: Option<Seq<char>>, wanted: Option<Seq<char>>) -> bool {
    asked(wanted) ==> contains_text(normalized_or_empty(actual), normalized_or_empty(wanted))
}

/// Whether a text is what is asked for.
pub open spec fn equals(actual: Option<Seq<char>>, wanted: Option<Seq<char>>) -> bool {
    wanted is Some ==> asked(wanted) && normalized_or_empty(actual) == normalized_or_empty(wanted)
}

/// Whether a text that is there holds what is asked for.
pub open spec fn is_there(actual: Option<Seq<char>>, wanted: Option<Seq<char>>) -> bool {
    actual is Some && holds(actual, wanted)
}

/// Whether a text that is there is what is asked for.
pub open spec fn is_just(actual: Option<Seq<char>>, wanted: Option<Seq<char>>) -> bool {
    actual is Some && asked(wanted) && normalized_or_empty(actual) == normalized_or_empty(wanted)
}

/// Whether the placeholder that is asked for stands in one of the texts that can show it.
pub open spec fn holds_placeholder(node: NodeView, wanted: Option<Seq<char>>) -> bool {
    wanted is Some ==> {
        ||| is_there(attribute(node, "placeholder"@), wanted)
        ||| is_there(attribute(node, "aria-label"@), wanted)
        ||| is_there(told_semantics(node).name, wanted)
        ||| is_there(told_semantics(node).label, wanted)
    }
}

/// Whether one of the texts that can show a placeholder is the one that is asked for.
pub open spec fn is_placeholder(node: NodeView, wanted: Option<Seq<char>>) -> bool {
    ||| is_just(attribute(node, "placeholder"@), wanted)
    ||| is_just(attribute(node, "aria-label"@), wanted)
    ||| is_just(told_semantics(node).name, wanted)
    ||| is_just(told_semantics(node).label, wanted)
}

/// What a field adds to a score: 120 where it is what is asked for, 60 where it only holds it.
pub open spec fn field_worth(actual: Option<Seq<char>>, wanted: Option<Seq<char>>) -> int {
    if !asked(wanted) {
        0
    } else if normalized_or_empty(actual) == normalized_or_empty(wanted) {
        120
    } else {
        60
    }
}

/// Whether an action can be done with a node.
pub open spec fn can_do(node: NodeView, action: DesiredAction) -> bool {
    let s = told_semantics(node);
    match action {
        DesiredAction::Click => node.tag == "label"@ || exists|i: int|
            0 <= i < s.actions.len() && (#[trigger] s.actions[i] == "click"@ || s.actions[i]
                == "open"@ || s.actions[i] == "submit"@),
        DesiredAction::Hover => s.actionable || exists|i: int|
            0 <= i < s.actions.len() && #[trigger] s.actions[i] == "hover"@,
        DesiredAction::Type => exists|i: int|
            0 <= i < s.actions.len() && #[trigger] s.actions[i] == "type"@,
        DesiredAction::PressKey => s.actionable || exists|i: int|
            0 <= i < s.actions.len() && #[trigger] s.actions[i] == "press_key"@,
    }
}

/// Every way to write what a field comes to: whether it counts, and what it adds.
proof fn lemma_field(actual: Option<Seq<char>>, wanted: Option<Seq<char>>, exact: bool)
    ensures
        field_score(actual, wanted, exact) is Some ==> holds(actual, wanted) && field_score(
            actual,
            wanted,
            exact,
        ) == Some(field_worth(actual, wanted)),
        !exact && holds(actual, wanted) ==> field_score(actual, wanted, exact) is Some,
        equals(actual, wanted) ==> field_score(actual, wanted, exact) is Some,
        equals(actual, wanted) == exact_field(actual, wanted),
{
    if let Some(w) = wanted {
        let a = normalized_or_empty(actual);
        let n = normalized_text(w);
        assert(text_or_empty(actual) == match actual {
            Some(t) => t,
            None => Seq::<char>::empty(),
        });
        if a == n {
            assert(a.subrange(0, n.len() as int) =~= n);
            assert(crate::text::occurs_at(a, n, 0));
        }
    }
}

proof fn lemma_push_some(list: Seq<Seq<char>>, text: Option<Seq<char>>)
    ensures
        forall|x: Seq<char>| #[trigger]
            push_some(list, text).contains(x) <==> list.contains(x) || text == Some(x),
{
    assert forall|x: Seq<char>| #[trigger] push_some(list, text).contains(x) <==> list.contains(x)
        || text == Some(x) by {
        if let Some(t) = text {
            let all = list.push(t);
            if list.contains(x) {
                let i = choose|i: int| 0 <= i < list.len() && list[i] == x;
                assert(all[i] == x);
            }
            if t == x {
                assert(all[list.len() as int] == x);
            }
        }
    }
}

proof fn lemma_placeholder_places(node: NodeView)
    ensures
        forall|x: Seq<char>| #[trigger]
            placeholder_texts(node, semantics_of(node)).contains(x) <==> attribute(
                node,
                "placeholder"@,
            ) == Some(x) || attribute(node, "aria-label"@) == Some(x) || told_semantics(node).name
                == Some(x) || told_semantics(node).label == Some(x),
{
    let s = semantics_of(node);
    let a: Seq<Seq<char>> = Seq::empty();
    let b = push_some(a, attr_of(node.attrs, "placeholder"@));
    let c = push_some(b, attr_of(node.attrs, "aria-label"@));
    let d = push_some(c, s.name);
    lemma_push_some(a, attr_of(node.attrs, "placeholder"@));
    lemma_push_some(b, attr_of(node.attrs, "aria-label"@));
    lemma_push_some(c, s.name);
    lemma_push_some(d, s.label);
    assert(s == told_semantics(node));
}

proof fn lemma_best_of(list: Seq<Seq<char>>, wanted: Seq<char>, exact: bool)
    ensures
        best_of(list, wanted, exact).0 is Some <==> exists|x: Seq<char>| #[trigger]
            list.contains(x) && field_score(Some(x), Some(wanted), exact) is Some,
        best_of(list, wanted, exact).0 matches Some(n) ==> n == if !asked(Some(wanted)) {
            0int
        } else if exists|x: Seq<char>| #[trigger] list.contains(x) && is_just(Some(x), Some(wanted)) {
            120int
        } else {
            60int
        },
    decreases list.len(),
{
    if list.len() > 0 {
        let init = list.drop_last();
        let last = list.last();
        lemma_best_of(init, wanted, exact);
        lemma_field(Some(last), Some(wanted), exact);
        assert(list =~= init.push(last));
        lemma_push_some(init, Some(last));
        assert(push_some(init, Some(last)) == list);
        assert(list.contains(last));
        assert forall|x: Seq<char>| #[trigger] init.contains(x) implies list.contains(x) by {}
        if exists|x: Seq<char>| #[trigger] list.contains(x) && is_just(Some(x), Some(wanted)) {
            let x = choose|x: Seq<char>| #[trigger] list.contains(x) && is_just(
                Some(x),
                Some(wanted),
            );
            lemma_field(Some(x), Some(wanted), exact);
            assert(x == last || init.contains(x));
        }
    }
}

/// What a candidate is: every field that is asked for counts.
proof fn lemma_candidate(node: NodeView, m: MatcherView, action: Option<DesiredAction>)
    ensures
        ({
            let s = told_semantics(node);
            &&& candidate_of(node, m, action) matches Some(c) ==> {
                &&& holds(s.role, m.role)
                &&& holds(s.name, m.name)
                &&& holds(s.label, m.label)
                &&& holds(s.control_type, m.control_type)
                &&& holds(Some(node.tag), m.tag)
                &&& holds(node.text, m.text)
                &&& holds(attribute(node, "href"@), m.href_contains)
                &&& holds_placeholder(node, m.placeholder)
                &&& m.exact == Some(true) ==> {
                    &&& equals(s.role, m.role)
                    &&& equals(s.name, m.name)
                    &&& equals(s.label, m.label)
                    &&& equals(s.control_type, m.control_type)
                    &&& equals(Some(node.tag), m.tag)
                    &&& equals(node.text, m.text)
                    &&& equals(attribute(node, "href"@), m.href_contains)
                    &&& m.placeholder is Some ==> is_placeholder(node, m.placeholder)
                }
                &&& action matches Some(a) ==> can_do(node, a)
                &&& m.actionable matches Some(flag) ==> s.actionable == flag
                &&& m.disabled matches Some(flag) ==> s.disabled == flag
                &&& c.score == 120 + field_worth(
                    s.role,
                    m.role,
                ) + field_worth(
                    s.name,
                    m.name,
                ) + field_worth(
                    s.label,
                    m.label,
                ) + field_worth(
                    s.control_type,
                    m.control_type,
                ) + field_worth(
                    Some(node.tag),
                    m.tag,
                ) + field_worth(
                    node.text,
                    m.text,
                ) + field_worth(
                    attribute(node, "href"@),
                    m.href_contains,
                ) + if !asked(m.placeholder) {
                    0int
                } else if is_placeholder(node, m.placeholder) {
                    120int
                } else {
                    60int
                }
            }
        }),
{
    reveal(tally_node);
    reveal(exact_node);
    let s = told_semantics(node);
    let exact = m.exact == Some(true);
    assert(semantics_of(node) == s);
    assert(attr_of(node.attrs, "href"@) == attribute(node, "href"@));
    lemma_field(s.role, m.role, exact);
    lemma_field(s.name, m.name, exact);
    lemma_field(s.label, m.label, exact);
    lemma_field(s.control_type, m.control_type, exact);
    lemma_field(Some(node.tag), m.tag, exact);
    lemma_field(node.text, m.text, exact);
    lemma_field(attribute(node, "href"@), m.href_contains, exact);
    lemma_action(node, action);
    if let Some(w) = m.placeholder {
        lemma_best_of(placeholder_texts(node, s), w, exact);
        lemma_placeholder_places(node);
        lemma_placeholder(node, w, exact);
    }
}

proof fn lemma_action(node: NodeView, action: Option<DesiredAction>)
    ensures
        takes_action(node, action) <==> (action matches Some(a) ==> can_do(node, a)),
{
    let s = told_semantics(node);
    assert(semantics_of(node) == s);
    assert forall|x: Seq<char>| #[trigger] s.actions.contains(x) <==> exists|i: int|
        0 <= i < s.actions.len() && #[trigger] s.actions[i] == x by {}
}

/// The places for a placeholder, one by one.
proof fn lemma_placeholder(node: NodeView, w: Seq<char>, exact: bool)
    ensures
        ({
            let list = placeholder_texts(node, semantics_of(node));
            &&& (exists|x: Seq<char>| #[trigger]
                list.contains(x) && field_score(Some(x), Some(w), exact) is Some)
                ==> holds_placeholder(node, Some(w))
            &&& !exact && holds_placeholder(node, Some(w)) ==> exists|x: Seq<char>| #[trigger]
                list.contains(x) && field_score(Some(x), Some(w), exact) is Some
            &&& is_placeholder(node, Some(w)) <==> exists|x: Seq<char>| #[trigger]
                list.contains(x) && is_just(Some(x), Some(w))
            &&& is_placeholder(node, Some(w)) ==> exists|x: Seq<char>| #[trigger]
                list.contains(x) && field_score(Some(x), Some(w), exact) is Some
            &&& exact_placeholder(node, semantics_of(node), Some(w)) == is_placeholder(
                node,
                Some(w),
            )
        }),
{
    let list = placeholder_texts(node, semantics_of(node));
    lemma_placeholder_places(node);
    assert forall|x: Seq<char>| #[trigger] list.contains(x) implies ({
        &&& field_score(Some(x), Some(w), exact) is Some ==> is_there(Some(x), Some(w))
        &&& !exact && is_there(Some(x), Some(w)) ==> field_score(Some(x), Some(w), exact) is Some
        &&& is_just(Some(x), Some(w)) ==> field_score(Some(x), Some(w), exact) is Some
    }) by {
        lemma_field(Some(x), Some(w), exact);
    }
    let p = attribute(node, "placeholder"@);
    let a = attribute(node, "aria-label"@);
    let n = told_semantics(node).name;
    let l = told_semantics(node).label;
    assert(p matches Some(x) ==> list.contains(x));
    assert(a matches Some(x) ==> list.contains(x));
    assert(n matches Some(x) ==> list.contains(x));
    assert(l matches Some(x) ==> list.contains(x));
    if exists|x: Seq<char>| #[trigger] list.contains(x) && is_just(Some(x), Some(w)) {
        let x = choose|x: Seq<char>| #[trigger] list.contains(x) && is_just(Some(x), Some(w));
        let i = choose|i: int| 0 <= i < list.len() && list[i] == x;
        assert(normalized_text(list[i]) == normalized_text(w));
    }
    if exact_placeholder(node, semantics_of(node), Some(w)) {
        let i = choose|i: int|
            0 <= i < list.len() && normalized_text(#[trigger] list[i]) == normalized_text(w);
        assert(list.contains(list[i]));
        assert(is_just(Some(list[i]), Some(w)));
    }
}

/// The node that a matcher is resolved to has, for every field that the matcher sets, the text
/// that is asked for in that very field; it can do what is to be done with it; and its flags are
/// as asked for. With an exact matcher each field is just what is asked for.
pub proof fn law_resolved_node_fits(
    nodes: Seq<NodeView>,
    m: MatcherView,
    action: Option<DesiredAction>,
    i: int,
)
    requires
        is_target(nodes, TargetView::Match { matcher: m }, action, i),
    ensures
        ({
            let node = nodes[i];
            let s = told_semantics(node);
            &&& 0 <= i < nodes.len()
            &&& holds(s.role, m.role)
            &&& holds(s.name, m.name)
            &&& holds(s.label, m.label)
            &&& holds(s.control_type, m.control_type)
            &&& holds(Some(node.tag), m.tag)
            &&& holds(node.text, m.text)
            &&& holds(attribute(node, "href"@), m.href_contains)
            &&& holds_placeholder(node, m.placeholder)
            &&& m.exact == Some(true) ==> {
                &&& equals(s.role, m.role)
                &&& equals(s.name, m.name)
                &&& equals(s.label, m.label)
                &&& equals(s.control_type, m.control_type)
                &&& equals(Some(node.tag), m.tag)
                &&& equals(node.text, m.text)
                &&& equals(attribute(node, "href"@), m.href_contains)
                &&& m.placeholder is Some ==> is_placeholder(node, m.placeholder)
            }
            &&& action matches Some(a) ==> can_do(node, a)
            &&& m.actionable matches Some(flag) ==> s.actionable == flag
            &&& m.disabled matches Some(flag) ==> s.disabled == flag
        }),
{
    lemma_candidate(nodes[i], m, action);
}

/// A node that fits a matcher in every field is found: the matcher does not come to nothing.
pub proof fn law_fitting_node_is_found(
    nodes: Seq<NodeView>,
    m: MatcherView,
    action: Option<DesiredAction>,
    k: int,
)
    requires
        0 <= k < nodes.len(),
        ({
            let node = nodes[k];
            let s = told_semantics(node);
            &&& action matches Some(a) ==> can_do(node, a)
            &&& m.actionable matches Some(flag) ==> s.actionable == flag
            &&& m.disabled matches Some(flag) ==> s.disabled == flag
            &&& if m.exact == Some(true) {
                &&& equals(s.role, m.role)
                &&& equals(s.name, m.name)
                &&& equals(s.label, m.label)
                &&& equals(s.control_type, m.control_type)
                &&& equals(Some(node.tag), m.tag)
                &&& equals(node.text, m.text)
                &&& equals(attribute(node, "href"@), m.href_contains)
                &&& m.placeholder is Some ==> is_placeholder(node, m.placeholder)
            } else {
                &&& holds(s.role, m.role)
                &&& holds(s.name, m.name)
                &&& holds(s.label, m.label)
                &&& holds(s.control_type, m.control_type)
                &&& holds(Some(node.tag), m.tag)
                &&& holds(node.text, m.text)
                &&& holds(attribute(node, "href"@), m.href_contains)
                &&& holds_placeholder(node, m.placeholder)
            }
        }),
    ensures
        !no_target(nodes, TargetView::Match { matcher: m }, action),
{
    reveal(tally_node);
    reveal(exact_node);
    let node = nodes[k];
    let s = told_semantics(node);
    let exact = m.exact == Some(true);
    assert(semantics_of(node) == s);
    assert(attr_of(node.attrs, "href"@) == attribute(node, "href"@));
    lemma_field(s.role, m.role, exact);
    lemma_field(s.name, m.name, exact);
    lemma_field(s.label, m.label, exact);
    lemma_field(s.control_type, m.control_type, exact);
    lemma_field(Some(node.tag), m.tag, exact);
    lemma_field(node.text, m.text, exact);
    lemma_field(attribute(node, "href"@), m.href_contains, exact);
    lemma_action(node, action);
    if let Some(w) = m.placeholder {
        lemma_best_of(placeholder_texts(node, s), w, exact);
        lemma_placeholder(node, w, exact);
    }
    assert(candidate_of(nodes[k], m, action) is Some);
}

/// The score of a match: what its fields add, and 120 for a node that can do what is to be done.
pub open spec fn match_worth(node: NodeView, m: MatcherView) -> int {
    let s = told_semantics(node);
    field_worth(s.role, m.role) + field_worth(s.name, m.name) + field_worth(s.label, m.label) + field_worth(s.control_type, m.control_type) + field_worth(Some(node.tag), m.tag) + field_worth(node.text, m.text) + field_worth(attribute(node, "href"@), m.href_contains) + if !asked(m.placeholder) {
        0int
    } else if is_placeholder(node, m.placeholder) {
        120int
    } else {
        60int
    }
}

/// The node that a matcher is resolved to is worth no less than any other that fits, and of
/// those that are worth as much it has the lowest identifier.
pub proof fn law_resolved_node_is_best(
    nodes: Seq<NodeView>,
    m: MatcherView,
    action: Option<DesiredAction>,
    i: int,
    k: int,
)
    requires
        is_target(nodes, TargetView::Match { matcher: m }, action, i),
        0 <= k < nodes.len(),
        candidate_of(nodes[k], m, action) is Some,
    ensures
        match_worth(nodes[i], m) >= match_worth(nodes[k], m),
        match_worth(nodes[i], m) == match_worth(nodes[k], m) ==> nodes[i].id <= nodes[k].id,
{
    lemma_candidate(nodes[i], m, action);
    lemma_candidate(nodes[k], m, action);
    if i != k {
        assert(ranks_before(nodes, m, action, i, k));
    }
}

/// A target by identifier is resolved to the first node with that identifier, whatever is to be
/// done with it, and to none only where no node has it.
pub proof fn law_identifier_is_resolved_to_its_node(
    nodes: Seq<NodeView>,
    id: NodeId,
    action: Option<DesiredAction>,
    i: int,
)
    ensures
        is_target(nodes, TargetView::Id { id }, action, i) ==> 0 <= i < nodes.len() && nodes[i].id
            == id && !nodes.take(i).map_values(|n: NodeView| n.id).contains(id),
        no_target(nodes, TargetView::Id { id }, action) <==> !nodes.map_values(
            |n: NodeView| n.id,
        ).contains(id),
{
    let ids = nodes.map_values(|n: NodeView| n.id);
    if is_target(nodes, TargetView::Id { id }, action, i) {
        let before = nodes.take(i).map_values(|n: NodeView| n.id);
        if before.contains(id) {
            let j = choose|j: int| 0 <= j < before.len() && before[j] == id;
            assert(nodes[j].id == id);
        }
    }
    if ids.contains(id) {
        let j = choose|j: int| 0 <= j < ids.len() && ids[j] == id;
        assert(nodes[j].id == id);
    }
    assert forall|j: int| 0 <= j < nodes.len() implies ids[j] == (#[trigger] nodes[j]).id by {}
}

/// What is told of a field that adds to a score: its name, what it adds, and whether it is what is
/// asked for; nothing is told of a field that adds nothing.
pub open spec fn contribution(name: Seq<char>, worth: int) -> Seq<FieldView> {
    if worth == 0 {
        Seq::empty()
    } else {
        Seq::empty().push(FieldView { field: name, exact: worth == 120, score: worth })
    }
}

/// What a text that can show a placeholder adds: 120 where it is the one that is asked for, 60 where it
/// only holds it and that is enough.
pub open spec fn shown_worth(shown: Option<Seq<char>>, wanted: Option<Seq<char>>, exact: bool) -> int {
    if is_just(shown, wanted) {
        120
    } else if asked(wanted) && is_there(shown, wanted) && !exact {
        60
    } else {
        0
    }
}

proof fn lemma_shown(list: Seq<Seq<char>>, shown: Option<Seq<char>>, wanted: Seq<char>, exact: bool)
    ensures
        best_of(push_some(list, shown), wanted, exact).1 == best_of(list, wanted, exact).1
            + contribution("placeholder"@, shown_worth(shown, Some(wanted), exact)),
{
    let before = best_of(list, wanted, exact).1;
    match shown {
        Some(t) => {
            assert(list.push(t).drop_last() =~= list);
            assert(list.push(t).last() == t);
            let a = normalized_text(t);
            let n = normalized_text(wanted);
            if n.len() > 0 && a.len() == 0 {
                assert(!contains_text(a, n)) by {
                    if contains_text(a, n) {
                        let at = choose|at: int| #[trigger] crate::text::occurs_at(a, n, at);
                        assert(at + n.len() <= a.len());
                    }
                }
            }
            assert(best_of(list.push(t), wanted, exact).1 =~= before + contribution(
                "placeholder"@,
                shown_worth(shown, Some(wanted), exact),
            ));
        },
        None => {
            assert(before + contribution("placeholder"@, 0) =~= before);
        },
    }
}

proof fn lemma_told_field(
    so_far: Tally,
    field: Seq<char>,
    actual: Option<Seq<char>>,
    wanted: Option<Seq<char>>,
    exact: bool,
)
    requires
        tally_field(so_far, field, actual, wanted, exact) is Some,
    ensures
        so_far is Some,
        tally_field(so_far, field, actual, wanted, exact)->Some_0.1 == so_far->Some_0.1
            + contribution(field, field_worth(actual, wanted)),
{
    lemma_field(actual, wanted, exact);
    let n = field_score(actual, wanted, exact);
    assert(field_debug(field, n) =~= contribution(field, field_worth(actual, wanted)));
}

proof fn lemma_told_placeholder(
    so_far: Tally,
    node: NodeView,
    s: SemanticsView,
    wanted: Option<Seq<char>>,
    exact: bool,
)
    requires
        tally_placeholder(so_far, node, s, wanted, exact) is Some,
    ensures
        so_far is Some,
        tally_placeholder(so_far, node, s, wanted, exact)->Some_0.1 == so_far->Some_0.1
            + contribution(
            "placeholder"@,
            shown_worth(attr_of(node.attrs, "placeholder"@), wanted, exact),
        ) + contribution(
            "placeholder"@,
            shown_worth(attr_of(node.attrs, "aria-label"@), wanted, exact),
        ) + contribution("placeholder"@, shown_worth(s.name, wanted, exact)) + contribution(
            "placeholder"@,
            shown_worth(s.label, wanted, exact),
        ),
{
    let none = Seq::<FieldView>::empty();
    let six = so_far->Some_0.1;
    let a = attr_of(node.attrs, "placeholder"@);
    let b = attr_of(node.attrs, "aria-label"@);
    let pa = contribution("placeholder"@, shown_worth(a, wanted, exact));
    let pb = contribution("placeholder"@, shown_worth(b, wanted, exact));
    let pc = contribution("placeholder"@, shown_worth(s.name, wanted, exact));
    let pd = contribution("placeholder"@, shown_worth(s.label, wanted, exact));
    match wanted {
        Some(w) => {
            let l0: Seq<Seq<char>> = Seq::empty();
            let l1 = push_some(l0, a);
            let l2 = push_some(l1, b);
            let l3 = push_some(l2, s.name);
            lemma_shown(l0, a, w, exact);
            lemma_shown(l1, b, w, exact);
            lemma_shown(l2, s.name, w, exact);
            lemma_shown(l3, s.label, w, exact);
            assert(best_of(l0, w, exact).1 =~= none);
            assert(six + (none + pa + pb + pc + pd) =~= six + pa + pb + pc + pd);
        },
        None => {
            assert(six + none + none + none + none =~= six);
        },
    }
}

/// A match is told with what each field adds to its score, in order: role, name, label, control type,
/// tag and text, each text that shows the placeholder, and the address; and nothing else is told.
pub proof fn law_contributions_are_told(node: NodeView, m: MatcherView, action: Option<DesiredAction>)
    requires
        candidate_of(node, m, action) is Some,
    ensures
        ({
            let s = told_semantics(node);
            let exact = m.exact == Some(true);
            let shown = |text: Option<Seq<char>>|
                contribution("placeholder"@, shown_worth(text, m.placeholder, exact));
            candidate_of(node, m, action)->Some_0.fields == contribution(
                "role"@,
                field_worth(s.role, m.role),
            ) + contribution("name"@, field_worth(s.name, m.name)) + contribution(
                "label"@,
                field_worth(s.label, m.label),
            ) + contribution("control_type"@, field_worth(s.control_type, m.control_type))
                + contribution("tag"@, field_worth(Some(node.tag), m.tag)) + contribution(
                "text"@,
                field_worth(node.text, m.text),
            ) + shown(attribute(node, "placeholder"@)) + shown(attribute(node, "aria-label"@))
                + shown(s.name) + shown(s.label) + contribution(
                "href_contains"@,
                field_worth(attribute(node, "href"@), m.href_contains),
            )
        }),
{
    reveal(tally_node);
    let s = semantics_of(node);
    let exact = m.exact == Some(true);
    let none = Seq::<FieldView>::empty();
    let t0: Tally = Some((0int, none));
    let t1 = tally_field(t0, "role"@, s.role, m.role, exact);
    let t2 = tally_field(t1, "name"@, s.name, m.name, exact);
    let t3 = tally_field(t2, "label"@, s.label, m.label, exact);
    let t4 = tally_field(t3, "control_type"@, s.control_type, m.control_type, exact);
    let t5 = tally_field(t4, "tag"@, Some(node.tag), m.tag, exact);
    let t6 = tally_field(t5, "text"@, node.text, m.text, exact);
    let t7 = tally_placeholder(t6, node, s, m.placeholder, exact);
    let href = attr_of(node.attrs, "href"@);
    lemma_told_field(t7, "href_contains"@, href, m.href_contains, exact);
    lemma_told_placeholder(t6, node, s, m.placeholder, exact);
    lemma_told_field(t5, "text"@, node.text, m.text, exact);
    lemma_told_field(t4, "tag"@, Some(node.tag), m.tag, exact);
    lemma_told_field(t3, "control_type"@, s.control_type, m.control_type, exact);
    lemma_told_field(t2, "label"@, s.label, m.label, exact);
    lemma_told_field(t1, "name"@, s.name, m.name, exact);
    lemma_told_field(t0, "role"@, s.role, m.role, exact);
    let one = contribution("role"@, field_worth(s.role, m.role));
    assert(none + one =~= one);
    assert(s == told_semantics(node));
}

} // verus!
