//! Changes between two snapshots.

use std::collections::HashMap;
use vstd::prelude::*;

use crate::dom::node::{
    clone_ids, clone_opt_semantics, ids_eq, last_with_id, lemma_nodes_by_id, nodes_by_id,
    opt_semantics, opt_semantics_eq, DomNode, DomNodeSemantics, DomSnapshot, NodeId, NodeView,
};
use crate::string_map::StringMap;
use crate::text::{clone_opt, opt_eq, opt_text, str_eq};

verus! {

broadcast use vstd::std_specs::hash::group_hash_axioms;

/// One change to a document.
#[derive(Debug, PartialEq, Eq)]
pub enum DomMutation {
    Upsert {
        id: NodeId,
        tag: String,
        attrs: StringMap,
        text: Option<String>,
        semantic: Option<DomNodeSemantics>,
        children: Vec<NodeId>,
    },
    Remove { id: NodeId },
    SetText { id: NodeId, text: Option<String> },
    SetAttr { id: NodeId, name: String, value: Option<String> },
    SetChildren { id: NodeId, children: Vec<NodeId> },
}

/// The contents of a `DomMutation`.
#[verifier::ext_equal]
pub enum MutationView {
    Upsert { node: NodeView },
    Remove { id: NodeId },
    SetText { id: NodeId, text: Option<Seq<char>> },
    SetAttr { id: NodeId, name: Seq<char>, value: Option<Seq<char>> },
    SetChildren { id: NodeId, children: Seq<NodeId> },
}

impl View for DomMutation {
    type V = MutationView;

    open spec fn view(&self) -> MutationView {
        match *self {
            DomMutation::Upsert { id, tag, attrs, text, semantic, children } => MutationView::Upsert {
                node: NodeView {
                    id,
                    tag: tag@,
                    attrs: attrs@,
                    text: opt_text(text),
                    semantic: opt_semantics(semantic),
                    children: children@,
                },
            },
            DomMutation::Remove { id } => MutationView::Remove { id },
            DomMutation::SetText { id, text } => MutationView::SetText { id, text: opt_text(text) },
            DomMutation::SetAttr { id, name, value } => MutationView::SetAttr {
                id,
                name: name@,
                value: opt_text(value),
            },
            DomMutation::SetChildren { id, children } => MutationView::SetChildren {
                id,
                children: children@,
            },
        }
    }
}

impl Clone for DomMutation {
    fn clone(&self) -> (res: Self)
        ensures
            res@ == self@,
    {
        match self {
            DomMutation::Upsert { id, tag, attrs, text, semantic, children } => DomMutation::Upsert {
                id: *id,
                tag: tag.clone(),
                attrs: attrs.clone(),
                text: clone_opt(text),
                semantic: clone_opt_semantics(semantic),
                children: clone_ids(children),
            },
            DomMutation::Remove { id } => DomMutation::Remove { id: *id },
            DomMutation::SetText { id, text } => DomMutation::SetText {
                id: *id,
                text: clone_opt(text),
            },
            DomMutation::SetAttr { id, name, value } => DomMutation::SetAttr {
                id: *id,
                name: name.clone(),
                value: clone_opt(value),
            },
            DomMutation::SetChildren { id, children } => DomMutation::SetChildren {
                id: *id,
                children: clone_ids(children),
            },
        }
    }
}

/// The contents of a list of changes.
pub open spec fn mutations_view(list: Seq<DomMutation>) -> Seq<MutationView> {
    Seq::new(list.len(), |i: int| list[i]@)
}

/// A copy of a list of changes.
pub fn clone_mutations(list: &Vec<DomMutation>) -> (res: Vec<DomMutation>)
    ensures
        mutations_view(res@) == mutations_view(list@),
{
    let mut out: Vec<DomMutation> = Vec::new();
    let mut i: usize = 0;
    while i < list.len()
        invariant
            i <= list@.len(),
            out@.len() == i,
            forall|j: int| 0 <= j < i ==> (#[trigger] out@[j])@ == list@[j]@,
        decreases list@.len() - i,
    {
        out.push(list[i].clone());
        i += 1;
    }
    assert(mutations_view(out@) =~= mutations_view(list@));
    out
}

/// The node that a change is about.
pub open spec fn mutation_id(m: MutationView) -> NodeId {
    match m {
        MutationView::Upsert { node } => node.id,
        MutationView::Remove { id } => id,
        MutationView::SetText { id, .. } => id,
        MutationView::SetAttr { id, .. } => id,
        MutationView::SetChildren { id, .. } => id,
    }
}

/// The value of an attribute, if there is one.
pub open spec fn attr_of(attrs: Map<Seq<char>, Seq<char>>, name: Seq<char>) -> Option<Seq<char>> {
    if attrs.contains_key(name) {
        Some(attrs[name])
    } else {
        None
    }
}

/// The node under an identifier, if there is one.
pub open spec fn node_of(nodes: Map<NodeId, NodeView>, id: NodeId) -> Option<NodeView> {
    if nodes.contains_key(id) {
        Some(nodes[id])
    } else {
        None
    }
}

/// Whether a node has to be sent whole: it is new, or what cannot be set by itself differs.
pub open spec fn needs_upsert(previous: Option<NodeView>, next: NodeView) -> bool {
    match previous {
        None => true,
        Some(p) => p.tag != next.tag || p.semantic != next.semantic,
    }
}

/// Whether `m` is one of the changes that turn the node `previous` into the node `next`.
pub open spec fn node_change(previous: Option<NodeView>, next: NodeView, m: MutationView) -> bool {
    if needs_upsert(previous, next) {
        m == MutationView::Upsert { node: next }
    } else {
        let p = previous->Some_0;
        match m {
            MutationView::SetText { id, text } => id == next.id && text == next.text && p.text
                != next.text,
            MutationView::SetChildren { id, children } => id == next.id && children
                == next.children && p.children != next.children,
            MutationView::SetAttr { id, name, value } => id == next.id && value == attr_of(
                next.attrs,
                name,
            ) && attr_of(p.attrs, name) != attr_of(next.attrs, name),
            _ => false,
        }
    }
}

/// Whether `m` is one of the changes that turn the document `previous` into `next`.
pub open spec fn expected_change(
    previous: Map<NodeId, NodeView>,
    next: Map<NodeId, NodeView>,
    m: MutationView,
) -> bool {
    let id = mutation_id(m);
    if m is Remove {
        previous.contains_key(id) && !next.contains_key(id)
    } else {
        next.contains_key(id) && node_change(node_of(previous, id), next[id], m)
    }
}

/// Whether `changes` holds every change from `previous` to `next` once and no other,
/// removals last.
pub open spec fn is_diff(
    previous: Map<NodeId, NodeView>,
    next: Map<NodeId, NodeView>,
    changes: Seq<MutationView>,
) -> bool {
    &&& changes.no_duplicates()
    &&& forall|m: MutationView| #[trigger]
        changes.contains(m) <==> expected_change(previous, next, m)
    &&& forall|i: int, j: int|
        0 <= i < j < changes.len() && (#[trigger] changes[i]) is Remove ==> (
        #[trigger] changes[j]) is Remove
}

proof fn lemma_push_contains(s: Seq<MutationView>, x: MutationView)
    ensures
        forall|m: MutationView| #[trigger] s.push(x).contains(m) <==> s.contains(m) || m == x,
        s.no_duplicates() && !s.contains(x) ==> s.push(x).no_duplicates(),
{
    assert forall|m: MutationView| #[trigger]
        s.push(x).contains(m) <==> s.contains(m) || m == x by {
        if s.contains(m) {
            let i = choose|i: int| 0 <= i < s.len() && s[i] == m;
            assert(s.push(x)[i] == m);
        }
        if m == x {
            assert(s.push(x)[s.len() as int] == m);
        }
    }
}

proof fn lemma_append_contains(s: Seq<MutationView>, t: Seq<MutationView>)
    ensures
        forall|m: MutationView| #[trigger] (s + t).contains(m) <==> s.contains(m) || t.contains(m),
        (s.no_duplicates() && t.no_duplicates() && forall|m: MutationView|
            s.contains(m) ==> !(#[trigger] t.contains(m))) ==> (s + t).no_duplicates(),
{
    assert forall|m: MutationView| #[trigger]
        (s + t).contains(m) <==> s.contains(m) || t.contains(m) by {
        if s.contains(m) {
            let i = choose|i: int| 0 <= i < s.len() && s[i] == m;
            assert((s + t)[i] == m);
        }
        if t.contains(m) {
            let i = choose|i: int| 0 <= i < t.len() && t[i] == m;
            assert((s + t)[s.len() + i] == m);
        }
    }
    if s.no_duplicates() && t.no_duplicates() && forall|m: MutationView|
        s.contains(m) ==> !(#[trigger] t.contains(m)) {
        assert forall|i: int, j: int|
            0 <= i < (s + t).len() && 0 <= j < (s + t).len() && i != j implies (s + t)[i] != (s
            + t)[j] by {
            if i < s.len() && j >= s.len() {
                assert(s.contains(s[i]));
                assert(t.contains(t[j - s.len()]));
            }
            if j < s.len() && i >= s.len() {
                assert(s.contains(s[j]));
                assert(t.contains(t[i - s.len()]));
            }
        }
    }
}

/// The last position of each identifier.
fn index_nodes(nodes: &Vec<DomNode>, Ghost(view): Ghost<Seq<NodeView>>) -> (res: HashMap<
    NodeId,
    usize,
>)
    requires
        view.len() == nodes@.len(),
        forall|i: int| 0 <= i < view.len() ==> #[trigger] view[i] == nodes@[i]@,
    ensures
        forall|id: NodeId| #[trigger]
            res@.contains_key(id) <==> nodes_by_id(view).contains_key(id),
        forall|id: NodeId| #[trigger]
            res@.contains_key(id) ==> last_with_id(view, res@[id] as int)
                && view[res@[id] as int].id == id,
{
    let mut out: HashMap<NodeId, usize> = HashMap::new();
    let mut i: usize = 0;
    while i < nodes.len()
        invariant
            i <= nodes@.len(),
            view.len() == nodes@.len(),
            forall|k: int| 0 <= k < view.len() ==> #[trigger] view[k] == nodes@[k]@,
            forall|id: NodeId| #[trigger]
                out@.contains_key(id) <==> nodes_by_id(view.take(i as int)).contains_key(id),
            forall|id: NodeId| #[trigger]
                out@.contains_key(id) ==> last_with_id(view.take(i as int), out@[id] as int)
                    && view[out@[id] as int].id == id,
        decreases nodes@.len() - i,
    {
        let ghost before = out@;
        let ghost done = view.take(i as int);
        let ghost next = view.take(i + 1);
        out.insert(nodes[i].id, i);
        proof {
            assert(next.drop_last() =~= done);
            assert(next.last() == view[i as int]);
            assert forall|id: NodeId| #[trigger] out@.contains_key(id) implies last_with_id(
                next,
                out@[id] as int,
            ) && view[out@[id] as int].id == id by {
                if id != view[i as int].id {
                    assert(before.contains_key(id));
                    let k = out@[id] as int;
                    assert(last_with_id(done, k));
                    assert forall|j: int| k < j < next.len() implies (#[trigger] next[j]).id
                        != next[k].id by {
                        if j < done.len() {
                            assert(done[j].id != done[k].id);
                        }
                    }
                }
            }
        }
        i += 1;
    }
    assert(view.take(i as int) =~= view);
    out
}

fn upsert_of(node: &DomNode) -> (res: DomMutation)
    ensures
        res@ == (MutationView::Upsert { node: node@ }),
{
    DomMutation::Upsert {
        id: node.id,
        tag: node.tag.clone(),
        attrs: node.attrs.clone(),
        text: clone_opt(&node.text),
        semantic: clone_opt_semantics(&node.semantic),
        children: clone_ids(&node.children),
    }
}

/// The changes that turn one node into another.
pub fn diff_nodes(previous: Option<&DomNode>, next: &DomNode) -> (res: Vec<DomMutation>)
    ensures
        mutations_view(res@).no_duplicates(),
        forall|m: MutationView| #[trigger]
            mutations_view(res@).contains(m) <==> node_change(
                match previous {
                    Some(p) => Some(p@),
                    None => None,
                },
                next@,
                m,
            ),
{
    let mut out: Vec<DomMutation> = Vec::new();
    let ghost before: Option<NodeView> = match previous {
        Some(p) => Some(p@),
        None => None,
    };
    let whole = match previous {
        None => true,
        Some(p) => !str_eq(p.tag.as_str(), next.tag.as_str()) || !opt_semantics_eq(
            &p.semantic,
            &next.semantic,
        ),
    };
    assert(whole == needs_upsert(before, next@));
    if whole {
        out.push(upsert_of(next));
        assert(mutations_view(out@) =~= seq![MutationView::Upsert { node: next@ }]);
        assert(mutations_view(out@)[0] == (MutationView::Upsert { node: next@ }));
        return out;
    }
    if let Some(p) = previous {
        if !opt_eq(&p.text, &next.text) {
            proof {
                lemma_push_contains(
                    mutations_view(out@),
                    MutationView::SetText { id: next.id, text: opt_text(next.text) },
                );
            }
            let ghost seen = mutations_view(out@);
            out.push(DomMutation::SetText { id: next.id, text: clone_opt(&next.text) });
            assert(mutations_view(out@) =~= seen.push(
                MutationView::SetText { id: next.id, text: opt_text(next.text) },
            ));
        }
        if !ids_eq(&p.children, &next.children) {
            proof {
                lemma_push_contains(
                    mutations_view(out@),
                    MutationView::SetChildren { id: next.id, children: next.children@ },
                );
            }
            let ghost seen = mutations_view(out@);
            out.push(
                DomMutation::SetChildren { id: next.id, children: clone_ids(&next.children) },
            );
            assert(mutations_view(out@) =~= seen.push(
                MutationView::SetChildren { id: next.id, children: next.children@ },
            ));
        }
        let ghost base = mutations_view(out@);
        assert(base.no_duplicates());
        assert(forall|m: MutationView| #[trigger]
            base.contains(m) <==> node_change(before, next@, m) && !(m is SetAttr));
        set_attr_changes(&p.attrs, &next.attrs, next.id, &mut out);
        let ghost set = mutations_view(out@);
        clear_attr_changes(&p.attrs, &next.attrs, next.id, &mut out);
        proof {
            assert forall|m: MutationView| #[trigger]
                mutations_view(out@).contains(m) <==> node_change(before, next@, m) by {
                assert(set.contains(m) <==> base.contains(m) || attr_set(
                    p.attrs@,
                    next.attrs@,
                    next.id,
                    m,
                ));
            }
        }
    }
    out
}

/// Whether `m` sets an attribute that `next` has and `previous` has not, or has otherwise.
spec fn attr_set(
    previous: Map<Seq<char>, Seq<char>>,
    next: Map<Seq<char>, Seq<char>>,
    id: NodeId,
    m: MutationView,
) -> bool {
    match m {
        MutationView::SetAttr { id: at, name, value } => at == id && next.contains_key(name)
            && value == attr_of(next, name) && attr_of(previous, name) != attr_of(next, name),
        _ => false,
    }
}

/// Whether `m` clears an attribute that `previous` has and `next` has not.
spec fn attr_cleared(
    previous: Map<Seq<char>, Seq<char>>,
    next: Map<Seq<char>, Seq<char>>,
    id: NodeId,
    m: MutationView,
) -> bool {
    match m {
        MutationView::SetAttr { id: at, name, value } => at == id && previous.contains_key(name)
            && !next.contains_key(name) && value is None,
        _ => false,
    }
}

/// Whether `m` is about one of the first `n` keys of `pairs`.
spec fn names_early(pairs: Seq<(Seq<char>, Seq<char>)>, n: int, m: MutationView) -> bool {
    m matches MutationView::SetAttr { name, .. } && exists|j: int|
        0 <= j < n && #[trigger] pairs[j].0 == name
}

fn set_attr_changes(
    previous: &StringMap,
    next: &StringMap,
    id: NodeId,
    out: &mut Vec<DomMutation>,
)
    requires
        mutations_view(old(out)@).no_duplicates(),
        forall|m: MutationView| #[trigger]
            mutations_view(old(out)@).contains(m) ==> !(m is SetAttr),
    ensures
        mutations_view(final(out)@).no_duplicates(),
        forall|m: MutationView| #[trigger]
            mutations_view(final(out)@).contains(m) <==> mutations_view(old(out)@).contains(m)
                || attr_set(previous@, next@, id, m),
{
    let ghost base = mutations_view(out@);
    let n: usize = next.len();
    let mut i: usize = 0;
    while i < n
        invariant
            n == next.pairs().len(),
            i <= n,
            crate::string_map::distinct_keys(next.pairs()),
            forall|m: MutationView| #[trigger] base.contains(m) ==> !(m is SetAttr),
            mutations_view(out@).no_duplicates(),
            forall|m: MutationView| #[trigger]
                mutations_view(out@).contains(m) <==> base.contains(m) || (attr_set(
                    previous@,
                    next@,
                    id,
                    m,
                ) && names_early(next.pairs(), i as int, m)),
        decreases n - i,
    {
        let name = next.key_at(i);
        let value = next.value_at(i);
        let changed = match previous.get(name.as_str()) {
            Some(old_value) => !str_eq(old_value.as_str(), value.as_str()),
            None => true,
        };
        let ghost seen = mutations_view(out@);
        let ghost added = MutationView::SetAttr { id, name: name@, value: Some(value@) };
        assert(next.pairs()[i as int].0 == name@);
        assert(changed == attr_set(previous@, next@, id, added));
        proof {
            assert forall|m: MutationView|
                #![trigger names_early(next.pairs(), i as int, m)]
                names_early(next.pairs(), i + 1, m) <==> names_early(next.pairs(), i as int, m) || (
                m matches MutationView::SetAttr { name: other, .. } && other == name@) by {
                if names_early(next.pairs(), i as int, m) {
                    let j = choose|j: int|
                        0 <= j < i && #[trigger] next.pairs()[j].0 == m->SetAttr_name;
                    assert(next.pairs()[j].0 == m->SetAttr_name);
                }
            }
            assert(!seen.contains(added)) by {
                if names_early(next.pairs(), i as int, added) {
                    let j = choose|j: int| 0 <= j < i && #[trigger] next.pairs()[j].0 == name@;
                    assert(next.pairs()[j].0 != next.pairs()[i as int].0);
                }
            }
        }
        if changed {
            proof {
                lemma_push_contains(seen, added);
            }
            out.push(
                DomMutation::SetAttr { id, name: name.clone(), value: Some(value.clone()) },
            );
            assert(mutations_view(out@) =~= seen.push(added));
        }
        proof {
            assert forall|m: MutationView| #[trigger]
                mutations_view(out@).contains(m) <==> base.contains(m) || (attr_set(
                    previous@,
                    next@,
                    id,
                    m,
                ) && names_early(next.pairs(), i + 1, m)) by {
                assert(seen.contains(m) <==> base.contains(m) || (attr_set(
                    previous@,
                    next@,
                    id,
                    m,
                ) && names_early(next.pairs(), i as int, m)));
            }
        }
        i += 1;
    }
    proof {
        assert forall|m: MutationView| #[trigger]
            mutations_view(out@).contains(m) <==> base.contains(m) || attr_set(
                previous@,
                next@,
                id,
                m,
            ) by {
            if attr_set(previous@, next@, id, m) {
                assert(next@.contains_key(m->SetAttr_name));
                assert(names_early(next.pairs(), n as int, m));
            }
        }
    }
}

fn clear_attr_changes(
    previous: &StringMap,
    next: &StringMap,
    id: NodeId,
    out: &mut Vec<DomMutation>,
)
    requires
        mutations_view(old(out)@).no_duplicates(),
        forall|m: MutationView| #[trigger]
            mutations_view(old(out)@).contains(m) ==> !attr_cleared(previous@, next@, id, m),
    ensures
        mutations_view(final(out)@).no_duplicates(),
        forall|m: MutationView| #[trigger]
            mutations_view(final(out)@).contains(m) <==> mutations_view(old(out)@).contains(m)
                || attr_cleared(previous@, next@, id, m),
{
    let ghost base = mutations_view(out@);
    let n: usize = previous.len();
    let mut i: usize = 0;
    while i < n
        invariant
            n == previous.pairs().len(),
            i <= n,
            crate::string_map::distinct_keys(previous.pairs()),
            forall|m: MutationView| #[trigger]
                base.contains(m) ==> !attr_cleared(previous@, next@, id, m),
            mutations_view(out@).no_duplicates(),
            forall|m: MutationView| #[trigger]
                mutations_view(out@).contains(m) <==> base.contains(m) || (attr_cleared(
                    previous@,
                    next@,
                    id,
                    m,
                ) && names_early(previous.pairs(), i as int, m)),
        decreases n - i,
    {
        let name = previous.key_at(i);
        let gone = !next.contains_key(name.as_str());
        let ghost seen = mutations_view(out@);
        let ghost added = MutationView::SetAttr { id, name: name@, value: None };
        assert(previous.pairs()[i as int].0 == name@);
        assert(gone == attr_cleared(previous@, next@, id, added));
        proof {
            assert forall|m: MutationView|
                #![trigger names_early(previous.pairs(), i as int, m)]
                names_early(previous.pairs(), i + 1, m) <==> names_early(
                    previous.pairs(),
                    i as int,
                    m,
                ) || (m matches MutationView::SetAttr { name: other, .. } && other == name@) by {
                if names_early(previous.pairs(), i as int, m) {
                    let j = choose|j: int|
                        0 <= j < i && #[trigger] previous.pairs()[j].0 == m->SetAttr_name;
                    assert(previous.pairs()[j].0 == m->SetAttr_name);
                }
            }
        }
        if gone {
            assert(!seen.contains(added)) by {
                if names_early(previous.pairs(), i as int, added) {
                    let j = choose|j: int| 0 <= j < i && #[trigger] previous.pairs()[j].0 == name@;
                    assert(previous.pairs()[j].0 != previous.pairs()[i as int].0);
                }
            }
            proof {
                lemma_push_contains(seen, added);
            }
            out.push(DomMutation::SetAttr { id, name: name.clone(), value: None });
            assert(mutations_view(out@) =~= seen.push(added));
        }
        proof {
            assert forall|m: MutationView| #[trigger]
                mutations_view(out@).contains(m) <==> base.contains(m) || (attr_cleared(
                    previous@,
                    next@,
                    id,
                    m,
                ) && names_early(previous.pairs(), i + 1, m)) by {
                assert(seen.contains(m) <==> base.contains(m) || (attr_cleared(
                    previous@,
                    next@,
                    id,
                    m,
                ) && names_early(previous.pairs(), i as int, m)));
            }
        }
        i += 1;
    }
    proof {
        assert forall|m: MutationView| #[trigger]
            mutations_view(out@).contains(m) <==> base.contains(m) || attr_cleared(
                previous@,
                next@,
                id,
                m,
            ) by {
            if attr_cleared(previous@, next@, id, m) {
                assert(previous@.contains_key(m->SetAttr_name));
                assert(names_early(previous.pairs(), n as int, m));
            }
        }
    }
}

/// Whether the last node with this identifier stands before position `n`.
spec fn covered(nodes: Seq<NodeView>, n: int, id: NodeId) -> bool {
    exists|k: int| k < n && #[trigger] last_with_id(nodes, k) && nodes[k].id == id
}

proof fn lemma_covered_step(nodes: Seq<NodeView>, n: int)
    requires
        0 <= n < nodes.len(),
    ensures
        forall|id: NodeId| #[trigger]
            covered(nodes, n + 1, id) <==> covered(nodes, n, id) || (last_with_id(nodes, n)
                && nodes[n].id == id),
        last_with_id(nodes, n) ==> !covered(nodes, n, nodes[n].id),
{
    assert forall|id: NodeId| #[trigger]
        covered(nodes, n + 1, id) <==> covered(nodes, n, id) || (last_with_id(nodes, n)
            && nodes[n].id == id) by {
        if covered(nodes, n + 1, id) {
            let k = choose|k: int|
                k < n + 1 && #[trigger] last_with_id(nodes, k) && nodes[k].id == id;
            assert(last_with_id(nodes, k));
        }
    }
    if last_with_id(nodes, n) && covered(nodes, n, nodes[n].id) {
        let k = choose|k: int|
            k < n && #[trigger] last_with_id(nodes, k) && nodes[k].id == nodes[n].id;
        assert(nodes[n].id != nodes[k].id);
    }
}

/// The changes that turn one snapshot into another: each once, removals last. Where a
/// snapshot lists an identifier more than once, its last node counts. A node whose tag or
/// semantics changed is sent whole.
pub fn diff_snapshots(previous: &DomSnapshot, next: &DomSnapshot) -> (res: Vec<DomMutation>)
    ensures
        is_diff(nodes_by_id(previous@), nodes_by_id(next@), mutations_view(res@)),
{
    let ghost prev_map = nodes_by_id(previous@);
    let ghost next_map = nodes_by_id(next@);
    let ghost pv = previous@;
    let ghost nv = next@;
    proof {
        lemma_nodes_by_id(pv);
        lemma_nodes_by_id(nv);
    }
    let prev_index = index_nodes(&previous.nodes, Ghost(pv));
    let next_index = index_nodes(&next.nodes, Ghost(nv));
    let mut changes: Vec<DomMutation> = Vec::new();
    let mut i: usize = 0;
    while i < next.nodes.len()
        invariant
            i <= next.nodes@.len(),
            pv == previous@,
            nv == next@,
            prev_map == nodes_by_id(pv),
            next_map == nodes_by_id(nv),
            forall|id: NodeId| #[trigger] prev_index@.contains_key(id) <==> prev_map.contains_key(id),
            forall|id: NodeId| #[trigger]
                prev_index@.contains_key(id) ==> last_with_id(pv, prev_index@[id] as int)
                    && pv[prev_index@[id] as int].id == id,
            forall|id: NodeId| #[trigger] next_index@.contains_key(id) <==> next_map.contains_key(id),
            forall|id: NodeId| #[trigger]
                next_index@.contains_key(id) ==> last_with_id(nv, next_index@[id] as int)
                    && nv[next_index@[id] as int].id == id,
            forall|k: int| 0 <= k < nv.len() ==> next_map.contains_key((#[trigger] nv[k]).id),
            forall|k: int| #[trigger] last_with_id(nv, k) ==> next_map[nv[k].id] == nv[k],
            forall|k: int| #[trigger] last_with_id(pv, k) ==> prev_map[pv[k].id] == pv[k],
            mutations_view(changes@).no_duplicates(),
            forall|m: MutationView| #[trigger]
                mutations_view(changes@).contains(m) <==> (expected_change(prev_map, next_map, m)
                    && !(m is Remove) && covered(nv, i as int, mutation_id(m))),
        decreases next.nodes@.len() - i,
    {
        let node = &next.nodes[i];
        assert(nv[i as int] == node@);
        proof {
            lemma_covered_step(nv, i as int);
        }
        let latest = match next_index.get(&node.id) {
            Some(k) => *k == i,
            None => false,
        };
        let ghost done = mutations_view(changes@);
        assert(latest == last_with_id(nv, i as int)) by {
            assert(next_map.contains_key(nv[i as int].id));
            assert(next_index@.contains_key(node.id));
            let k = next_index@[node.id] as int;
            assert(last_with_id(nv, k));
            if last_with_id(nv, i as int) && k != i {
                if k < i {
                    assert(nv[i as int].id != nv[k].id);
                } else {
                    assert(nv[k].id != nv[i as int].id);
                }
            }
        }
        if latest {
            let before = match prev_index.get(&node.id) {
                Some(k) => Some(&previous.nodes[*k]),
                None => None,
            };
            let ghost before_view: Option<NodeView> = match before {
                Some(p) => Some(p@),
                None => None,
            };
            assert(before_view == node_of(prev_map, node.id)) by {
                if prev_index@.contains_key(node.id) {
                    let k = prev_index@[node.id] as int;
                    assert(last_with_id(pv, k));
                    assert(pv[k] == previous.nodes@[k]@);
                }
            }
            let mut part = diff_nodes(before, node);
            let ghost added = mutations_view(part@);
            proof {
                lemma_append_contains(done, added);
                assert forall|m: MutationView| done.contains(m) implies !(#[trigger] added.contains(
                    m,
                )) by {
                    if added.contains(m) {
                        assert(node_change(before_view, node@, m));
                        assert(mutation_id(m) == node.id);
                    }
                }
            }
            changes.append(&mut part);
            assert(mutations_view(changes@) =~= done + added);
            proof {
                assert forall|m: MutationView| #[trigger]
                    mutations_view(changes@).contains(m) <==> (expected_change(
                        prev_map,
                        next_map,
                        m,
                    ) && !(m is Remove) && covered(nv, i + 1, mutation_id(m))) by {
                    assert((done + added).contains(m) <==> done.contains(m) || added.contains(m));
                    if added.contains(m) {
                        assert(node_change(before_view, node@, m));
                        assert(mutation_id(m) == node.id);
                        assert(covered(nv, i + 1, node.id));
                    }
                    if covered(nv, i + 1, mutation_id(m)) && expected_change(prev_map, next_map, m)
                        && !(m is Remove) {
                        if mutation_id(m) == node.id {
                            assert(added.contains(m));
                        } else {
                            assert(done.contains(m));
                        }
                    }
                }
            }
        }
        i += 1;
    }
    proof {
        assert forall|m: MutationView| #[trigger]
            mutations_view(changes@).contains(m) <==> (expected_change(prev_map, next_map, m)
                && !(m is Remove)) by {
            if expected_change(prev_map, next_map, m) && !(m is Remove) {
                let id = mutation_id(m);
                assert(next_map.contains_key(id));
                let k = choose|k: int| last_with_id(nv, k) && nv[k].id == id;
                assert(covered(nv, i as int, id));
            }
        }
    }
    let ghost kept = mutations_view(changes@);
    let mut i: usize = 0;
    while i < previous.nodes.len()
        invariant
            i <= previous.nodes@.len(),
            pv == previous@,
            prev_map == nodes_by_id(pv),
            forall|id: NodeId| #[trigger] prev_index@.contains_key(id) <==> prev_map.contains_key(id),
            forall|id: NodeId| #[trigger]
                prev_index@.contains_key(id) ==> last_with_id(pv, prev_index@[id] as int)
                    && pv[prev_index@[id] as int].id == id,
            forall|id: NodeId| #[trigger] next_index@.contains_key(id) <==> next_map.contains_key(id),
            forall|k: int| 0 <= k < pv.len() ==> prev_map.contains_key((#[trigger] pv[k]).id),
            forall|m: MutationView| #[trigger]
                kept.contains(m) <==> (expected_change(prev_map, next_map, m) && !(m is Remove)),
            kept.len() <= changes@.len(),
            mutations_view(changes@).take(kept.len() as int) == kept,
            forall|k: int|
                kept.len() <= k < changes@.len() ==> mutations_view(changes@)[k] is Remove,
            mutations_view(changes@).no_duplicates(),
            forall|m: MutationView| #[trigger]
                mutations_view(changes@).contains(m) <==> (expected_change(prev_map, next_map, m)
                    && (m is Remove ==> covered(pv, i as int, mutation_id(m)))),
        decreases previous.nodes@.len() - i,
    {
        let id = previous.nodes[i].id;
        assert(pv[i as int].id == id);
        proof {
            lemma_covered_step(pv, i as int);
        }
        let latest = match prev_index.get(&id) {
            Some(k) => *k == i,
            None => false,
        };
        assert(latest == last_with_id(pv, i as int)) by {
            assert(prev_map.contains_key(pv[i as int].id));
            assert(prev_index@.contains_key(id));
            let k = prev_index@[id] as int;
            assert(last_with_id(pv, k));
            if last_with_id(pv, i as int) && k != i {
                if k < i {
                    assert(pv[i as int].id != pv[k].id);
                } else {
                    assert(pv[k].id != pv[i as int].id);
                }
            }
        }
        let ghost done = mutations_view(changes@);
        let ghost added = MutationView::Remove { id };
        if latest && !next_index.contains_key(&id) {
            assert(prev_map.contains_key(id)) by {
                assert(prev_map.contains_key(pv[i as int].id));
            }
            proof {
                lemma_push_contains(done, added);
                assert(!done.contains(added));
            }
            changes.push(DomMutation::Remove { id });
            assert(mutations_view(changes@) =~= done.push(added));
            assert(done.push(added).take(kept.len() as int) =~= done.take(kept.len() as int));
        }
        proof {
            assert forall|m: MutationView| #[trigger]
                mutations_view(changes@).contains(m) <==> (expected_change(prev_map, next_map, m)
                    && (m is Remove ==> covered(pv, i + 1, mutation_id(m)))) by {
                assert(done.contains(m) <==> (expected_change(prev_map, next_map, m) && (
                m is Remove ==> covered(pv, i as int, mutation_id(m)))));
                assert(covered(pv, i + 1, mutation_id(m)) <==> covered(pv, i as int, mutation_id(m))
                    || (last_with_id(pv, i as int) && pv[i as int].id == mutation_id(m)));
                if m is Remove && mutation_id(m) == id {
                    assert(m == added);
                }
            }
        }
        i += 1;
    }
    proof {
        let all = mutations_view(changes@);
        assert forall|m: MutationView| #[trigger]
            all.contains(m) <==> expected_change(prev_map, next_map, m) by {
            if expected_change(prev_map, next_map, m) && m is Remove {
                let id = mutation_id(m);
                assert(prev_map.contains_key(id));
                let k = choose|k: int| last_with_id(pv, k) && pv[k].id == id;
                assert(covered(pv, i as int, id));
            }
        }
        assert forall|a: int, b: int|
            0 <= a < b < all.len() && (#[trigger] all[a]) is Remove implies (
        #[trigger] all[b]) is Remove by {
            if a < kept.len() {
                assert(kept[a] == all.take(kept.len() as int)[a]);
                assert(kept.contains(kept[a]));
            }
        }
    }
    changes
}

/// Between a document and itself there are no changes.
pub proof fn law_same_document_has_no_changes(
    nodes: Map<NodeId, NodeView>,
    changes: Seq<MutationView>,
)
    requires
        is_diff(nodes, nodes, changes),
    ensures
        changes.len() == 0,
{
    if changes.len() > 0 {
        assert(changes.contains(changes[0]));
    }
}

/// Only what differs is sent: a node is sent whole only where it is new or has another tag or
/// other semantics, its text, an attribute or its children only where they are others than
/// before, and it is removed only where it is no longer there.
pub proof fn law_changes_are_differences(
    previous: Map<NodeId, NodeView>,
    next: Map<NodeId, NodeView>,
    changes: Seq<MutationView>,
    i: int,
)
    requires
        is_diff(previous, next, changes),
        0 <= i < changes.len(),
    ensures
        match changes[i] {
            MutationView::Upsert { node } => next.contains_key(node.id) && next[node.id] == node && (
            previous.contains_key(node.id) ==> previous[node.id].tag != node.tag
                || previous[node.id].semantic != node.semantic),
            MutationView::Remove { id } => previous.contains_key(id) && !next.contains_key(id),
            MutationView::SetText { id, text } => previous.contains_key(id) && next.contains_key(id)
                && previous[id].tag == next[id].tag && previous[id].semantic == next[id].semantic
                && next[id].text == text && previous[id].text != text,
            MutationView::SetAttr { id, name, value } => previous.contains_key(id)
                && next.contains_key(id) && previous[id].tag == next[id].tag
                && previous[id].semantic == next[id].semantic && match value {
                Some(v) => next[id].attrs.contains_key(name) && next[id].attrs[name] == v && !(
                previous[id].attrs.contains_key(name) && previous[id].attrs[name] == v),
                None => !next[id].attrs.contains_key(name) && previous[id].attrs.contains_key(name),
            },
            MutationView::SetChildren { id, children } => previous.contains_key(id)
                && next.contains_key(id) && previous[id].tag == next[id].tag
                && previous[id].semantic == next[id].semantic && next[id].children == children
                && previous[id].children != children,
        },
{
    assert(changes.contains(changes[i]));
    assert(expected_change(previous, next, changes[i]));
}

/// The contents of a change are its kind and all its parts, each as it is.
pub proof fn law_contents_of_dom_mutation(x: DomMutation)
    ensures
        x is Upsert ==> {
            &&& x@ is Upsert
            &&& x@->node.id == x->Upsert_id
            &&& x@->node.tag == x->Upsert_tag@
            &&& x@->node.attrs == x->Upsert_attrs@
            &&& x->Upsert_text is Some ==> x@->node.text == Some(x->Upsert_text->Some_0@)
            &&& x->Upsert_text is None ==> x@->node.text is None
            &&& x->Upsert_semantic is Some ==> x@->node.semantic == Some(x->Upsert_semantic->Some_0@)
            &&& x->Upsert_semantic is None ==> x@->node.semantic is None
            &&& x@->node.children == x->Upsert_children@
        },
        x is Remove ==> {
            &&& x@ is Remove
            &&& x@->Remove_id == x->Remove_id
        },
        x is SetText ==> {
            &&& x@ is SetText
            &&& x@->SetText_id == x->SetText_id
            &&& x->SetText_text is Some ==> x@->SetText_text == Some(x->SetText_text->Some_0@)
            &&& x->SetText_text is None ==> x@->SetText_text is None
        },
        x is SetAttr ==> {
            &&& x@ is SetAttr
            &&& x@->SetAttr_id == x->SetAttr_id
            &&& x@->SetAttr_name == x->SetAttr_name@
            &&& x->SetAttr_value is Some ==> x@->SetAttr_value == Some(x->SetAttr_value->Some_0@)
            &&& x->SetAttr_value is None ==> x@->SetAttr_value is None
        },
        x is SetChildren ==> {
            &&& x@ is SetChildren
            &&& x@->SetChildren_id == x->SetChildren_id
            &&& x@->SetChildren_children == x->SetChildren_children@
        },
{
}

} // verus!
