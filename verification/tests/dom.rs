use aegis::dom::diff::{diff_snapshots, DomMutation};
use aegis::dom::node::{DomNode, DomNodeSemantics, DomSnapshot};
use aegis::dom::tree::DomTree;
use aegis::string_map::StringMap;

fn attrs(pairs: &[(&str, &str)]) -> StringMap {
    let mut map = StringMap::new();
    for (key, value) in pairs {
        map.insert(key.to_string(), value.to_string());
    }
    map
}

fn node(id: u64, tag: &str, children: &[u64]) -> DomNode {
    DomNode {
        id,
        tag: tag.into(),
        attrs: attrs(&[]),
        text: None,
        semantic: None,
        children: children.to_vec(),
    }
}

fn semantics(name: &str, actions: &[&str]) -> DomNodeSemantics {
    DomNodeSemantics {
        role: Some("button".into()),
        name: Some(name.into()),
        label: None,
        control_type: Some("button".into()),
        actionable: true,
        disabled: false,
        visible: true,
        actions: actions.iter().map(|a| a.to_string()).collect(),
    }
}

#[test]
fn diffs_snapshots_for_attribute_changes() {
    let before = DomSnapshot {
        nodes: vec![DomNode {
            id: 3,
            tag: "input".into(),
            attrs: attrs(&[("type", "text")]),
            text: None,
            semantic: None,
            children: vec![],
        }],
    };
    let after = DomSnapshot {
        nodes: vec![DomNode {
            id: 3,
            tag: "input".into(),
            attrs: attrs(&[("type", "text"), ("value", "value-1")]),
            text: None,
            semantic: None,
            children: vec![],
        }],
    };
    let changes = diff_snapshots(&before, &after);
    assert_eq!(
        changes,
        vec![DomMutation::SetAttr {
            id: 3,
            name: "value".into(),
            value: Some("value-1".into())
        }]
    );
}

#[test]
fn diffs_snapshots_for_semantic_changes() {
    let before = DomSnapshot {
        nodes: vec![DomNode {
            id: 7,
            tag: "button".into(),
            attrs: attrs(&[]),
            text: Some("Search".into()),
            semantic: Some(semantics("Search", &["click"])),
            children: vec![],
        }],
    };
    let after = DomSnapshot {
        nodes: vec![DomNode {
            id: 7,
            tag: "button".into(),
            attrs: attrs(&[]),
            text: Some("Search".into()),
            semantic: Some(semantics("Submit search", &["click", "submit"])),
            children: vec![],
        }],
    };

    let changes = diff_snapshots(&before, &after);
    assert_eq!(
        changes,
        vec![DomMutation::Upsert {
            id: 7,
            tag: "button".into(),
            attrs: attrs(&[]),
            text: Some("Search".into()),
            semantic: Some(semantics("Submit search", &["click", "submit"])),
            children: vec![],
        }]
    );
}

#[test]
fn applying_a_difference_gives_the_next_document() {
    let before = DomSnapshot {
        nodes: vec![node(1, "html", &[2, 3]), node(2, "p", &[]), node(3, "div", &[])],
    };
    let mut changed = node(2, "p", &[]);
    changed.text = Some("hello".into());
    let after = DomSnapshot {
        nodes: vec![node(1, "html", &[2, 4]), changed, node(4, "span", &[])],
    };
    let changes = diff_snapshots(&before, &after);
    assert!(changes.contains(&DomMutation::Remove { id: 3 }));
    assert!(changes.contains(&DomMutation::SetText {
        id: 2,
        text: Some("hello".into())
    }));
    assert!(changes.contains(&DomMutation::SetChildren {
        id: 1,
        children: vec![2, 4]
    }));
    let mut tree = DomTree::from_snapshot(before);
    tree.apply_mutations(&changes);
    assert_eq!(tree.snapshot(), after);
}

#[test]
fn removing_a_node_takes_it_from_its_parents() {
    let mut tree = DomTree::from_snapshot(DomSnapshot {
        nodes: vec![node(1, "html", &[2]), node(2, "p", &[])],
    });
    tree.apply_mutation(&DomMutation::Remove { id: 2 });
    assert_eq!(tree.snapshot().nodes, vec![node(1, "html", &[])]);
    tree.apply_mutation(&DomMutation::SetText {
        id: 9,
        text: Some("x".into()),
    });
    assert_eq!(tree.snapshot().nodes, vec![node(1, "html", &[])]);
}

#[test]
fn snapshots_are_in_the_order_of_identifiers() {
    let tree = DomTree::from_snapshot(DomSnapshot {
        nodes: vec![node(5, "b", &[]), node(1, "a", &[]), node(5, "c", &[])],
    });
    let ids: Vec<(u64, String)> =
        tree.snapshot().nodes.into_iter().map(|n| (n.id, n.tag)).collect();
    assert_eq!(ids, vec![(1, "a".to_string()), (5, "c".to_string())]);
    assert_eq!(tree.node(1).map(|n| n.tag.as_str()), Some("a"));
    assert!(tree.node(2).is_none());
}

#[test]
fn equal_documents_do_not_differ() {
    let one = DomSnapshot { nodes: vec![node(1, "html", &[2]), node(2, "p", &[])] };
    let two = DomSnapshot { nodes: vec![node(1, "html", &[2]), node(2, "p", &[])] };
    assert!(diff_snapshots(&one, &two).is_empty());
}

#[test]
fn attributes_that_go_are_unset() {
    let mut before = node(1, "a", &[]);
    before.attrs = attrs(&[("href", "/x")]);
    let changes = diff_snapshots(
        &DomSnapshot { nodes: vec![before] },
        &DomSnapshot { nodes: vec![node(1, "a", &[])] },
    );
    assert_eq!(
        changes,
        vec![DomMutation::SetAttr { id: 1, name: "href".into(), value: None }]
    );
}
