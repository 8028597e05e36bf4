use aegis::commands::matcher::{
    best_match, matches_command_matcher, resolve_command_target, score_candidate,
    score_normalized, target_id, DesiredAction,
};
use aegis::dom::node::{DomNode, DomNodeSemantics, DomSnapshot};
use aegis::string_map::StringMap;
use aegis::{CommandMatcher, CommandTarget};

fn matcher() -> CommandMatcher {
    CommandMatcher {
        selector: None,
        test_id: None,
        role: None,
        name: None,
        label: None,
        control_type: None,
        tag: None,
        text: None,
        placeholder: None,
        href_contains: None,
        actionable: None,
        disabled: None,
        exact: None,
    }
}

fn button(id: u64, name: &str) -> DomNode {
    DomNode {
        id,
        tag: "button".into(),
        attrs: StringMap::new(),
        text: Some(name.into()),
        semantic: Some(DomNodeSemantics {
            role: Some("button".into()),
            name: Some(name.into()),
            label: None,
            control_type: Some("button".into()),
            actionable: true,
            disabled: false,
            visible: true,
            actions: vec!["click".into()],
        }),
        children: vec![],
    }
}

fn named(name: &str) -> CommandMatcher {
    CommandMatcher { name: Some(name.into()), ..matcher() }
}

#[test]
fn fields_score_for_equality_before_containment() {
    assert_eq!(score_normalized("search", "search", false), Some(120));
    assert_eq!(score_normalized("search the web", "search", false), Some(60));
    assert_eq!(score_normalized("search the web", "search", true), None);
    assert_eq!(score_normalized("", "search", false), None);
    assert_eq!(score_normalized("x", "", false), Some(0));
}

#[test]
fn candidates_score_by_field_and_action() {
    let node = button(1, "Search");
    let candidate = score_candidate(&node, &named("search"), Some(DesiredAction::Click))
        .expect("a candidate");
    assert_eq!(candidate.score, 240);
    assert!(candidate.actionable_for_action);
    assert_eq!(candidate.fields.len(), 1);
    assert_eq!(candidate.fields[0].field, "name");
    assert!(candidate.fields[0].exact);
    let partial = score_candidate(&node, &named("sea"), Some(DesiredAction::Click))
        .expect("a candidate");
    assert_eq!(partial.score, 180);
    assert!(score_candidate(&node, &named("other"), None).is_none());
}

#[test]
fn the_best_match_wins_and_the_first_of_equals() {
    let snapshot = DomSnapshot {
        nodes: vec![
            button(9, "Search the web"),
            button(7, "Search"),
            button(3, "Search"),
        ],
    };
    let best = best_match(&snapshot, &named("search"), Some(DesiredAction::Click)).expect("one");
    assert_eq!(best.node.id, 3);
    let target = CommandTarget::Match { matcher: named("web") };
    let found = resolve_command_target(&snapshot, &target, None).expect("one");
    assert_eq!(found.id, 9);
    assert!(resolve_command_target(&snapshot, &CommandTarget::Id { id: 4 }, None).is_none());
    assert_eq!(target_id(&CommandTarget::Id { id: 4 }), Some(4));
    assert_eq!(target_id(&target), None);
}

#[test]
fn exact_matching_takes_no_parts() {
    let node = button(1, "Search the web");
    let exact = CommandMatcher { exact: Some(true), ..named("search") };
    assert!(!matches_command_matcher(&node, &exact));
    assert!(matches_command_matcher(&node, &named("search")));
}

#[test]
fn what_cannot_be_acted_on_is_no_candidate() {
    let mut node = button(1, "Search");
    if let Some(semantic) = node.semantic.as_mut() {
        semantic.actionable = false;
        semantic.actions.clear();
    }
    assert!(score_candidate(&node, &named("search"), Some(DesiredAction::Click)).is_none());
    assert!(score_candidate(&node, &named("search"), None).is_some());
    let wants = CommandMatcher { actionable: Some(true), ..named("search") };
    assert!(!matches_command_matcher(&node, &wants));
    let enabled = CommandMatcher { disabled: Some(true), ..named("search") };
    assert!(!matches_command_matcher(&button(1, "Search"), &enabled));
}
