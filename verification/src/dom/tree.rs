//! The live document tree.

use std::collections::BTreeMap;
use vstd::prelude::*;
use vstd::std_specs::iter::IteratorSpec;
use vstd::std_specs::cmp::OrdSpec;

use crate::dom::diff::{
    attr_of, expected_change, is_diff, mutation_id, mutations_view, needs_upsert, node_change,
    node_of, DomMutation, MutationView,
};
use crate::dom::node::{
    clone_ids, clone_opt_semantics, last_with_id, lemma_nodes_by_id, nodes_by_id, DomNode,
    DomSnapshot, NodeId, NodeView,
};
use crate::text::clone_opt;

verus! {

broadcast use {vstd::std_specs::btree::group_btree_axioms, vstd::laws_cmp::group_laws_cmp};

/// The identifiers other than `id`, in order.
pub open spec fn without_id(ids: Seq<NodeId>, id: NodeId) -> Seq<NodeId>
    decreases ids.len(),
{
    if ids.len() == 0 {
        ids
    } else if ids.last() == id {
        without_id(ids.drop_last(), id)
    } else {
        without_id(ids.drop_last(), id).push(ids.last())
    }
}

/// The document after one change. A change of a node that is not there has no effect;
/// removing a node also removes it from every list of children.
pub open spec fn apply_mutation(
    nodes: Map<NodeId, NodeView>,
    m: MutationView,
) -> Map<NodeId, NodeView> {
    match m {
        MutationView::Upsert { node } => nodes.insert(node.id, node),
        MutationView::Remove { id } => nodes.remove(id).map_values(
            |n: NodeView| NodeView { children: without_id(n.children, id), ..n },
        ),
        MutationView::SetText { id, text } => if nodes.contains_key(id) {
            nodes.insert(id, NodeView { text, ..nodes[id] })
        } else {
            nodes
        },
        MutationView::SetAttr { id, name, value } => if nodes.contains_key(id) {
            let attrs = match value {
                Some(v) => nodes[id].attrs.insert(name, v),
                None => nodes[id].attrs.remove(name),
            };
            nodes.insert(id, NodeView { attrs, ..nodes[id] })
        } else {
            nodes
        },
        MutationView::SetChildren { id, children } => if nodes.contains_key(id) {
            nodes.insert(id, NodeView { children, ..nodes[id] })
        } else {
            nodes
        },
    }
}

/// The document after a list of changes, in order.
pub open spec fn apply_all(
    nodes: Map<NodeId, NodeView>,
    list: Seq<MutationView>,
) -> Map<NodeId, NodeView>
    decreases list.len(),
{
    if list.len() == 0 {
        nodes
    } else {
        apply_mutation(apply_all(nodes, list.drop_last()), list.last())
    }
}

/// Whether the identifiers of a list of nodes ascend strictly.
pub open spec fn ascending(nodes: Seq<NodeView>) -> bool {
    forall|i: int, j: int|
        0 <= i < j < nodes.len() ==> (#[trigger] nodes[i]).id < (#[trigger] nodes[j]).id
}

/// The live document: nodes by identifier.
#[derive(Debug)]
pub struct DomTree {
    nodes: BTreeMap<NodeId, DomNode>,
}

impl DomTree {
    #[verifier::type_invariant]
    closed spec fn inv(&self) -> bool {
        forall|id: NodeId| #[trigger] self.nodes@.contains_key(id) ==> self.nodes@[id].id == id
    }
}

impl View for DomTree {
    type V = Map<NodeId, NodeView>;

    closed spec fn view(&self) -> Map<NodeId, NodeView> {
        self.nodes@.map_values(|n: DomNode| n@)
    }
}

fn without_child(ids: &Vec<NodeId>, id: NodeId) -> (res: Vec<NodeId>)
    ensures
        res@ == without_id(ids@, id),
{
    let mut out: Vec<NodeId> = Vec::new();
    let mut i: usize = 0;
    while i < ids.len()
        invariant
            i <= ids@.len(),
            out@ == without_id(ids@.take(i as int), id),
        decreases ids@.len() - i,
    {
        assert(ids@.take(i + 1).drop_last() =~= ids@.take(i as int));
        if ids[i] != id {
            out.push(ids[i]);
        }
        i += 1;
    }
    assert(ids@.take(i as int) =~= ids@);
    out
}

fn sorted_ids(nodes: &BTreeMap<NodeId, DomNode>) -> (res: Vec<NodeId>)
    ensures
        forall|i: int, j: int| 0 <= i < j < res@.len() ==> res@[i] < res@[j],
        forall|id: NodeId| #[trigger] nodes@.contains_key(id) <==> res@.contains(id),
{
    let mut out: Vec<NodeId> = Vec::new();
    for k in it: nodes.keys()
        invariant
            it.seq().unref() == vstd::std_specs::btree::spec_keys_iter(nodes).remaining().unref(),
            out@ == it.seq().unref().take(it.index()),
    {
        out.push(*k);
    }
    proof {
        let ks = vstd::std_specs::btree::spec_keys_iter(nodes).remaining();
        assert(out@ =~= ks.unref());
        assert(vstd::std_specs::btree::increasing_seq(ks));
        assert(vstd::laws_cmp::obeys_cmp::<&NodeId>());
        assert forall|i: int, j: int| 0 <= i < j < out@.len() implies out@[i] < out@[j] by {
            assert(OrdSpec::cmp_spec(&ks[i], &ks[j]) is Less);
        }
        assert forall|id: NodeId| #[trigger] nodes@.contains_key(id) <==> out@.contains(id) by {
            assert(out@.to_set().contains(id) <==> out@.contains(id));
        }
    }
    out
}

impl DomTree {
    /// The empty document.
    pub fn new() -> (res: Self)
        ensures
            res@ == Map::<NodeId, NodeView>::empty(),
    {
        let res = DomTree { nodes: BTreeMap::new() };
        assert(res@ =~= Map::<NodeId, NodeView>::empty());
        res
    }

    /// The document of a snapshot; of two nodes with one identifier the later counts.
    pub fn from_snapshot(snapshot: DomSnapshot) -> (res: Self)
        ensures
            res@ == nodes_by_id(snapshot@),
    {
        let ghost all = snapshot@;
        let mut nodes: BTreeMap<NodeId, DomNode> = BTreeMap::new();
        let list = snapshot.nodes;
        let mut i: usize = 0;
        assert(nodes@.map_values(|n: DomNode| n@) =~= nodes_by_id(all.take(0)));
        while i < list.len()
            invariant
                i <= list@.len(),
                all.len() == list@.len(),
                forall|k: int| 0 <= k < list@.len() ==> #[trigger] all[k] == list@[k]@,
                forall|id: NodeId| #[trigger] nodes@.contains_key(id) ==> nodes@[id].id == id,
                nodes@.map_values(|n: DomNode| n@) == nodes_by_id(all.take(i as int)),
            decreases list@.len() - i,
        {
            let ghost before = nodes@;
            let node = list[i].clone();
            let ghost added = node@;
            let id = node.id;
            nodes.insert(id, node);
            proof {
                assert(all.take(i + 1).drop_last() =~= all.take(i as int));
                assert(added == all[i as int]);
                assert(nodes@.map_values(|n: DomNode| n@) =~= before.map_values(
                    |n: DomNode| n@,
                ).insert(added.id, added));
            }
            i += 1;
        }
        assert(all.take(i as int) =~= all);
        DomTree { nodes }
    }

    /// Replaces the document by that of a snapshot.
    pub fn replace_snapshot(&mut self, snapshot: DomSnapshot)
        ensures
            final(self)@ == nodes_by_id(snapshot@),
    {
        *self = DomTree::from_snapshot(snapshot);
    }

    /// Takes the node under an identifier out, if there is one.
    fn take_node(&mut self, id: NodeId) -> (res: Option<DomNode>)
        ensures
            final(self)@ == old(self)@.remove(id),
            match res {
                Some(n) => old(self)@.contains_key(id) && n@ == old(self)@[id] && n.id == id,
                None => !old(self)@.contains_key(id),
            },
    {
        proof {
            use_type_invariant(&*self);
        }
        let mut nodes: BTreeMap<NodeId, DomNode> = BTreeMap::new();
        std::mem::swap(&mut nodes, &mut self.nodes);
        let res = nodes.remove(&id);
        *self = DomTree { nodes };
        assert(self@ =~= old(self)@.remove(id));
        res
    }

    /// Puts a node under its identifier.
    fn put_node(&mut self, node: DomNode)
        ensures
            final(self)@ == old(self)@.insert(node.id, node@),
    {
        proof {
            use_type_invariant(&*self);
        }
        let mut nodes: BTreeMap<NodeId, DomNode> = BTreeMap::new();
        std::mem::swap(&mut nodes, &mut self.nodes);
        let ghost added = node@;
        nodes.insert(node.id, node);
        *self = DomTree { nodes };
        assert(self@ =~= old(self)@.insert(added.id, added));
    }

    /// Removes an identifier from every list of children.
    fn forget_child(&mut self, id: NodeId)
        ensures
            final(self)@ == old(self)@.map_values(
                |n: NodeView| NodeView { children: without_id(n.children, id), ..n },
            ),
    {
        let ids = sorted_ids(&self.nodes);
        proof {
            assert forall|x: NodeId| #[trigger] self@.contains_key(x) <==> ids@.contains(x) by {
                assert(self.nodes@.contains_key(x) <==> ids@.contains(x));
            }
        }
        let ghost start = self@;
        let mut i: usize = 0;
        while i < ids.len()
            invariant
                i <= ids@.len(),
                forall|a: int, b: int| 0 <= a < b < ids@.len() ==> ids@[a] < ids@[b],
                forall|x: NodeId| #[trigger] start.contains_key(x) <==> ids@.contains(x),
                self@.dom() == start.dom(),
                forall|k: int|
                    0 <= k < i ==> self@[#[trigger] ids@[k]] == (NodeView {
                        children: without_id(start[ids@[k]].children, id),
                        ..start[ids@[k]]
                    }),
                forall|k: int| i <= k < ids@.len() ==> self@[#[trigger] ids@[k]] == start[ids@[k]],
            decreases ids@.len() - i,
        {
            let at = ids[i];
            assert(ids@.contains(ids@[i as int]));
            assert(start.contains_key(at));
            assert(self@.dom().contains(at));
            match self.take_node(at) {
                Some(node) => {
                    let children = without_child(&node.children, id);
                    let DomNode { id: node_id, tag, attrs, text, semantic, children: _ } = node;
                    self.put_node(DomNode { id: node_id, tag, attrs, text, semantic, children });
                },
                None => {},
            }
            assert(self@.dom() =~= start.dom());
            i += 1;
        }
        proof {
            let want = start.map_values(
                |n: NodeView| NodeView { children: without_id(n.children, id), ..n },
            );
            assert forall|x: NodeId| want.contains_key(x) implies self@[x] == want[x] by {
                assert(start.contains_key(x));
                let k = choose|k: int| 0 <= k < ids@.len() && ids@[k] == x;
                assert(self@[ids@[k]] == want[x]);
            }
            assert(self@ =~= want);
        }
    }

    /// Applies one change.
    pub fn apply_mutation(&mut self, mutation: &DomMutation)
        ensures
            final(self)@ == apply_mutation(old(self)@, mutation@),
    {
        let ghost start = self@;
        match mutation {
            DomMutation::Upsert { id, tag, attrs, text, semantic, children } => {
                self.put_node(
                    DomNode {
                        id: *id,
                        tag: tag.clone(),
                        attrs: attrs.clone(),
                        text: clone_opt(text),
                        semantic: clone_opt_semantics(semantic),
                        children: clone_ids(children),
                    },
                );
            },
            DomMutation::Remove { id } => {
                self.take_node(*id);
                self.forget_child(*id);
            },
            DomMutation::SetText { id, text } => {
                if let Some(mut node) = self.take_node(*id) {
                    node.text = clone_opt(text);
                    self.put_node(node);
                }
                assert(self@ =~= apply_mutation(start, mutation@));
            },
            DomMutation::SetAttr { id, name, value } => {
                if let Some(mut node) = self.take_node(*id) {
                    match value {
                        Some(v) => {
                            node.attrs.insert(name.clone(), v.clone());
                        },
                        None => {
                            node.attrs.remove(name.as_str());
                        },
                    }
                    self.put_node(node);
                }
                assert(self@ =~= apply_mutation(start, mutation@));
            },
            DomMutation::SetChildren { id, children } => {
                if let Some(mut node) = self.take_node(*id) {
                    node.children = clone_ids(children);
                    self.put_node(node);
                }
                assert(self@ =~= apply_mutation(start, mutation@));
            },
        }
    }

    /// Applies a list of changes in order.
    pub fn apply_mutations(&mut self, mutations: &[DomMutation])
        ensures
            final(self)@ == apply_all(old(self)@, mutations_view(mutations@)),
    {
        let ghost start = self@;
        let ghost list = mutations_view(mutations@);
        let mut i: usize = 0;
        while i < mutations.len()
            invariant
                i <= mutations@.len(),
                list == mutations_view(mutations@),
                self@ == apply_all(start, list.take(i as int)),
            decreases mutations@.len() - i,
        {
            self.apply_mutation(&mutations[i]);
            proof {
                assert(list.take(i + 1).drop_last() =~= list.take(i as int));
                assert(list.take(i + 1).last() == mutations@[i as int]@);
            }
            i += 1;
        }
        assert(list.take(i as int) =~= list);
    }

    /// The document as a list of nodes by ascending identifier.
    pub fn snapshot(&self) -> (res: DomSnapshot)
        ensures
            ascending(res@),
            nodes_by_id(res@) == self@,
    {
        proof {
            use_type_invariant(self);
        }
        let ids = sorted_ids(&self.nodes);
        let mut nodes: Vec<DomNode> = Vec::new();
        let mut i: usize = 0;
        while i < ids.len()
            invariant
                i <= ids@.len(),
                nodes@.len() == i,
                forall|id: NodeId| #[trigger]
                    self.nodes@.contains_key(id) ==> self.nodes@[id].id == id,
                forall|id: NodeId| #[trigger] self.nodes@.contains_key(id) <==> ids@.contains(id),
                forall|k: int|
                    0 <= k < i ==> (#[trigger] nodes@[k])@ == self.nodes@[ids@[k]]@ && nodes@[k].id
                        == ids@[k],
            decreases ids@.len() - i,
        {
            let id = ids[i];
            assert(ids@.contains(ids@[i as int]));
            match self.nodes.get(&id) {
                Some(node) => {
                    nodes.push(node.clone());
                },
                None => {
                    assert(false);
                },
            }
            i += 1;
        }
        let res = DomSnapshot { nodes };
        proof {
            let list = res@;
            assert forall|a: int, b: int| 0 <= a < b < list.len() implies (#[trigger] list[a]).id < (
            #[trigger] list[b]).id by {
                assert(nodes@[a].id == ids@[a] && nodes@[b].id == ids@[b]);
            }
            lemma_nodes_by_id(list);
            assert forall|id: NodeId| #[trigger]
                nodes_by_id(list).contains_key(id) == self@.contains_key(id) by {
                if nodes_by_id(list).contains_key(id) {
                    let k = choose|k: int| last_with_id(list, k) && list[k].id == id;
                    assert(nodes@[k].id == ids@[k]);
                    assert(ids@.contains(ids@[k]));
                }
                if self@.contains_key(id) {
                    assert(self.nodes@.contains_key(id));
                    let k = choose|k: int| 0 <= k < ids@.len() && ids@[k] == id;
                    assert(nodes@[k].id == id);
                    assert(list[k].id == id);
                }
            }
            assert forall|id: NodeId| self@.contains_key(id) implies nodes_by_id(list)[id]
                == self@[id] by {
                assert(nodes_by_id(list).contains_key(id));
                let k = choose|k: int| last_with_id(list, k) && list[k].id == id;
                assert(nodes@[k].id == ids@[k]);
            }
            assert(nodes_by_id(list) =~= self@);
        }
        res
    }

    /// The node under an identifier, if there is one.
    pub fn node(&self, id: NodeId) -> (res: Option<&DomNode>)
        ensures
            match res {
                Some(n) => self@.contains_key(id) && n@ == self@[id],
                None => !self@.contains_key(id),
            },
    {
        self.nodes.get(&id)
    }
}

impl Default for DomTree {
    fn default() -> (res: Self)
        ensures
            res@ == Map::<NodeId, NodeView>::empty(),
    {
        DomTree::new()
    }
}

/// Removing an identifier that a list does not hold changes nothing.
proof fn lemma_without_absent(ids: Seq<NodeId>, id: NodeId)
    requires
        !ids.contains(id),
    ensures
        without_id(ids, id) == ids,
    decreases ids.len(),
{
    if ids.len() > 0 {
        assert(ids.contains(ids[ids.len() - 1]));
        assert forall|k: int| 0 <= k < ids.drop_last().len() implies ids.drop_last()[k] != id by {
            assert(ids.contains(ids[k]));
        }
        lemma_without_absent(ids.drop_last(), id);
        assert(ids.drop_last().push(ids.last()) =~= ids);
    }
}

/// An identifier is gone after its removal, and nothing else is.
pub proof fn lemma_without_id(ids: Seq<NodeId>, id: NodeId)
    ensures
        forall|x: NodeId| #[trigger]
            without_id(ids, id).contains(x) <==> ids.contains(x) && x != id,
    decreases ids.len(),
{
    if ids.len() > 0 {
        let init = ids.drop_last();
        let rest = without_id(init, id);
        lemma_without_id(init, id);
        assert forall|x: NodeId| #[trigger]
            without_id(ids, id).contains(x) <==> ids.contains(x) && x != id by {
            assert(ids =~= init.push(ids.last()));
            if ids.contains(x) && x != ids.last() {
                let k = choose|k: int| 0 <= k < ids.len() && ids[k] == x;
                assert(init[k] == x);
            }
            if init.contains(x) {
                let k = choose|k: int| 0 <= k < init.len() && init[k] == x;
                assert(ids[k] == x);
            }
            if rest.contains(x) {
                let k = choose|k: int| 0 <= k < rest.len() && rest[k] == x;
                assert(rest.push(ids.last())[k] == x);
            }
            if x == ids.last() {
                assert(ids[ids.len() - 1] == x);
                assert(rest.push(ids.last())[rest.len() as int] == x);
            }
        }
    }
}

/// Whether no list of children in `next` names a node that `previous` has and `next` lacks.
pub open spec fn no_stale_children(
    previous: Map<NodeId, NodeView>,
    next: Map<NodeId, NodeView>,
) -> bool {
    forall|id: NodeId, child: NodeId|
        next.contains_key(id) && #[trigger] next[id].children.contains(child)
            && previous.contains_key(child) ==> next.contains_key(child)
}

/// Whether one of the first `n` changes sets the text of `id`.
spec fn text_set(list: Seq<MutationView>, n: int, id: NodeId) -> bool {
    exists|j: int|
        0 <= j < n && (#[trigger] list[j] matches MutationView::SetText { id: at, .. } && at == id)
}

/// Whether one of the first `n` changes sets the children of `id`.
spec fn children_set(list: Seq<MutationView>, n: int, id: NodeId) -> bool {
    exists|j: int|
        0 <= j < n && (#[trigger] list[j] matches MutationView::SetChildren { id: at, .. } && at
            == id)
}

/// Whether one of the first `n` changes sets the attribute `name` of `id`.
spec fn attr_done(list: Seq<MutationView>, n: int, id: NodeId, name: Seq<char>) -> bool {
    exists|j: int|
        0 <= j < n && (#[trigger] list[j] matches MutationView::SetAttr { id: at, name: x, .. }
            && at == id && x == name)
}

/// Whether one of the first `n` changes is `m`.
spec fn done(list: Seq<MutationView>, n: int, m: MutationView) -> bool {
    exists|j: int| 0 <= j < n && #[trigger] list[j] == m
}

/// What holds of a node that is kept, once the first `n` changes have been applied.
spec fn kept_progress(
    before: NodeView,
    now: NodeView,
    want: NodeView,
    list: Seq<MutationView>,
    n: int,
) -> bool {
    let id = want.id;
    &&& now.id == id
    &&& now.tag == want.tag
    &&& now.semantic == want.semantic
    &&& (text_set(list, n, id) || before.text == want.text) ==> now.text == want.text
    &&& (children_set(list, n, id) || before.children == want.children) ==> now.children
        == want.children
    &&& forall|name: Seq<char>|
        #![trigger attr_of(now.attrs, name)]
        (attr_done(list, n, id, name) || attr_of(before.attrs, name) == attr_of(want.attrs, name))
            ==> attr_of(now.attrs, name) == attr_of(want.attrs, name)
}

/// What holds of the whole document, once the first `n` changes have been applied.
spec fn progress(
    previous: Map<NodeId, NodeView>,
    next: Map<NodeId, NodeView>,
    now: Map<NodeId, NodeView>,
    list: Seq<MutationView>,
    n: int,
) -> bool {
    &&& forall|id: NodeId| #[trigger]
        now.contains_key(id) ==> previous.contains_key(id) || next.contains_key(id)
    &&& forall|id: NodeId|
        next.contains_key(id) && needs_upsert(node_of(previous, id), next[id]) && #[trigger] done(
            list,
            n,
            MutationView::Upsert { node: next[id] },
        ) ==> now.contains_key(id) && now[id] == next[id]
    &&& forall|id: NodeId|
        next.contains_key(id) && !needs_upsert(node_of(previous, id), next[id])
            ==> #[trigger] now.contains_key(id) && kept_progress(
            previous[id],
            now[id],
            next[id],
            list,
            n,
        )
    &&& forall|id: NodeId|
        !next.contains_key(id) && #[trigger] done(list, n, MutationView::Remove { id })
            ==> !now.contains_key(id)
}

proof fn lemma_progress_step(
    previous: Map<NodeId, NodeView>,
    next: Map<NodeId, NodeView>,
    now: Map<NodeId, NodeView>,
    list: Seq<MutationView>,
    n: int,
)
    requires
        0 <= n < list.len(),
        forall|id: NodeId| #[trigger] next.contains_key(id) ==> next[id].id == id,
        forall|id: NodeId| #[trigger] previous.contains_key(id) ==> previous[id].id == id,
        no_stale_children(previous, next),
        forall|i: int|
            0 <= i < list.len() ==> expected_change(previous, next, #[trigger] list[i]),
        progress(previous, next, now, list, n),
    ensures
        progress(previous, next, apply_mutation(now, list[n]), list, n + 1),
{
    let m = list[n];
    let after = apply_mutation(now, m);
    let at = mutation_id(m);
    assert(expected_change(previous, next, m));
    assert forall|x: MutationView| #[trigger]
        done(list, n + 1, x) <==> done(list, n, x) || x == m by {
        if done(list, n + 1, x) {
            let j = choose|j: int| 0 <= j < n + 1 && #[trigger] list[j] == x;
            assert(list[j] == x);
        }
        if done(list, n, x) {
            let j = choose|j: int| 0 <= j < n && #[trigger] list[j] == x;
            assert(list[j] == x);
        }
        if x == m {
            assert(list[n] == x);
        }
    }
    assert forall|id: NodeId, name: Seq<char>|
        attr_done(list, n + 1, id, name) implies attr_done(list, n, id, name) || (
    m matches MutationView::SetAttr { id: a, name: x, .. } && a == id && x == name) by {
        let j = choose|j: int|
            0 <= j < n + 1 && (#[trigger] list[j] matches MutationView::SetAttr { id: a, name: x, .. }
                && a == id && x == name);
        if j < n {
            assert(list[j] is SetAttr);
        }
    }
    assert forall|id: NodeId| text_set(list, n + 1, id) implies text_set(list, n, id) || (
    m matches MutationView::SetText { id: a, .. } && a == id) by {
        let j = choose|j: int|
            0 <= j < n + 1 && (#[trigger] list[j] matches MutationView::SetText { id: a, .. } && a
                == id);
        if j < n {
            assert(list[j] is SetText);
        }
    }
    assert forall|id: NodeId| children_set(list, n + 1, id) implies children_set(list, n, id) || (
    m matches MutationView::SetChildren { id: a, .. } && a == id) by {
        let j = choose|j: int|
            0 <= j < n + 1 && (#[trigger] list[j] matches MutationView::SetChildren { id: a, .. }
                && a == id);
        if j < n {
            assert(list[j] is SetChildren);
        }
    }
    assert forall|id: NodeId| next.contains_key(id) implies #[trigger] without_id(
        next[id].children,
        at,
    ) == next[id].children || !(m is Remove) by {
        if m is Remove {
            if next[id].children.contains(at) {
                assert(next.contains_key(at));
            }
            lemma_without_absent(next[id].children, at);
        }
    }
    assert forall|id: NodeId|
        next.contains_key(id) && needs_upsert(node_of(previous, id), next[id]) && #[trigger] done(
            list,
            n + 1,
            MutationView::Upsert { node: next[id] },
        ) implies after.contains_key(id) && after[id] == next[id] by {
        let up = MutationView::Upsert { node: next[id] };
        if up == m {
            assert(after[id] == next[id]);
        } else {
            assert(done(list, n, up));
            assert(now[id] == next[id]);
            if m is Remove {
                assert(without_id(next[id].children, at) == next[id].children);
                assert(after[id] =~= next[id]);
            } else if at == id {
                assert(node_change(node_of(previous, id), next[id], m));
            }
        }
    }
    assert forall|id: NodeId|
        next.contains_key(id) && !needs_upsert(
            node_of(previous, id),
            next[id],
        ) implies #[trigger] after.contains_key(id) && kept_progress(
        previous[id],
        after[id],
        next[id],
        list,
        n + 1,
    ) by {
        assert(now.contains_key(id));
        assert(kept_progress(previous[id], now[id], next[id], list, n));
        if m is Remove {
            assert(without_id(next[id].children, at) == next[id].children);
            assert(after[id].attrs == now[id].attrs);
            assert forall|name: Seq<char>|
                #![trigger attr_of(after[id].attrs, name)]
                (attr_done(list, n + 1, id, name) || attr_of(previous[id].attrs, name) == attr_of(
                    next[id].attrs,
                    name,
                )) implies attr_of(after[id].attrs, name) == attr_of(next[id].attrs, name) by {
                assert(attr_of(now[id].attrs, name) == attr_of(after[id].attrs, name));
            }
        } else if at == id {
            assert(node_change(node_of(previous, id), next[id], m));
            assert forall|name: Seq<char>|
                #![trigger attr_of(after[id].attrs, name)]
                (attr_done(list, n + 1, id, name) || attr_of(previous[id].attrs, name) == attr_of(
                    next[id].attrs,
                    name,
                )) implies attr_of(after[id].attrs, name) == attr_of(next[id].attrs, name) by {
                assert(attr_of(now[id].attrs, name) == attr_of(now[id].attrs, name));
            }
        } else {
            assert(after[id] == now[id]);
            assert forall|name: Seq<char>|
                #![trigger attr_of(after[id].attrs, name)]
                (attr_done(list, n + 1, id, name) || attr_of(previous[id].attrs, name) == attr_of(
                    next[id].attrs,
                    name,
                )) implies attr_of(after[id].attrs, name) == attr_of(next[id].attrs, name) by {
                assert(attr_of(now[id].attrs, name) == attr_of(after[id].attrs, name));
            }
        }
    }
    assert forall|id: NodeId|
        !next.contains_key(id) && #[trigger] done(
            list,
            n + 1,
            MutationView::Remove { id },
        ) implies !after.contains_key(id) by {
        if m != (MutationView::Remove { id }) {
            assert(done(list, n, MutationView::Remove { id }));
        }
    }
}

proof fn lemma_progress(
    previous: Map<NodeId, NodeView>,
    next: Map<NodeId, NodeView>,
    list: Seq<MutationView>,
    n: int,
)
    requires
        0 <= n <= list.len(),
        forall|id: NodeId| #[trigger] next.contains_key(id) ==> next[id].id == id,
        forall|id: NodeId| #[trigger] previous.contains_key(id) ==> previous[id].id == id,
        no_stale_children(previous, next),
        forall|i: int|
            0 <= i < list.len() ==> expected_change(previous, next, #[trigger] list[i]),
    ensures
        progress(previous, next, apply_all(previous, list.take(n)), list, n),
    decreases n,
{
    if n == 0 {
        assert(list.take(0) =~= Seq::empty());
        assert forall|id: NodeId|
            next.contains_key(id) && !needs_upsert(
                node_of(previous, id),
                next[id],
            ) implies #[trigger] previous.contains_key(id) && kept_progress(
            previous[id],
            previous[id],
            next[id],
            list,
            0,
        ) by {}
    } else {
        lemma_progress(previous, next, list, n - 1);
        let now = apply_all(previous, list.take(n - 1));
        lemma_progress_step(previous, next, now, list, n - 1);
        assert(list.take(n).drop_last() =~= list.take(n - 1));
        assert(list.take(n).last() == list[n - 1]);
    }
}

/// Applying the changes between two documents to the first gives the second, provided that
/// no list of children in the second names a node that only the first has (removing that
/// node would drop it from the list).
pub proof fn law_diff_then_apply(
    previous: Seq<NodeView>,
    next: Seq<NodeView>,
    changes: Seq<MutationView>,
)
    requires
        is_diff(nodes_by_id(previous), nodes_by_id(next), changes),
        no_stale_children(nodes_by_id(previous), nodes_by_id(next)),
    ensures
        apply_all(nodes_by_id(previous), changes) == nodes_by_id(next),
{
    let p = nodes_by_id(previous);
    let q = nodes_by_id(next);
    lemma_nodes_by_id(previous);
    lemma_nodes_by_id(next);
    assert forall|i: int| 0 <= i < changes.len() implies expected_change(
        p,
        q,
        #[trigger] changes[i],
    ) by {
        assert(changes.contains(changes[i]));
    }
    lemma_progress(p, q, changes, changes.len() as int);
    assert(changes.take(changes.len() as int) =~= changes);
    let now = apply_all(p, changes);
    let n = changes.len() as int;
    assert forall|m: MutationView| expected_change(p, q, m) implies #[trigger] done(
        changes,
        n,
        m,
    ) by {
        assert(changes.contains(m));
        let j = choose|j: int| 0 <= j < changes.len() && changes[j] == m;
        assert(changes[j] == m);
    }
    assert forall|id: NodeId| #[trigger] now.contains_key(id) == q.contains_key(id) by {
        if q.contains_key(id) {
            if needs_upsert(node_of(p, id), q[id]) {
                let up = MutationView::Upsert { node: q[id] };
                assert(expected_change(p, q, up));
                assert(done(changes, n, up));
            }
        } else if now.contains_key(id) {
            let gone = MutationView::Remove { id };
            assert(expected_change(p, q, gone));
            assert(done(changes, n, gone));
        }
    }
    assert forall|id: NodeId| q.contains_key(id) implies now[id] == q[id] by {
        assert(now.contains_key(id));
        if needs_upsert(node_of(p, id), q[id]) {
            let up = MutationView::Upsert { node: q[id] };
            assert(expected_change(p, q, up));
            assert(done(changes, n, up));
        } else {
            assert(kept_progress(p[id], now[id], q[id], changes, n));
            if p[id].text != q[id].text {
                let m = MutationView::SetText { id, text: q[id].text };
                assert(expected_change(p, q, m));
                assert(done(changes, n, m));
                let j = choose|j: int| 0 <= j < n && #[trigger] changes[j] == m;
                assert(changes[j] is SetText);
                assert(text_set(changes, n, id));
            }
            if p[id].children != q[id].children {
                let m = MutationView::SetChildren { id, children: q[id].children };
                assert(expected_change(p, q, m));
                assert(done(changes, n, m));
                let j = choose|j: int| 0 <= j < n && #[trigger] changes[j] == m;
                assert(changes[j] is SetChildren);
                assert(children_set(changes, n, id));
            }
            assert forall|name: Seq<char>| #[trigger]
                attr_of(now[id].attrs, name) == attr_of(q[id].attrs, name) by {
                if attr_of(p[id].attrs, name) != attr_of(q[id].attrs, name) {
                    let m = MutationView::SetAttr { id, name, value: attr_of(q[id].attrs, name) };
                    assert(expected_change(p, q, m));
                    assert(done(changes, n, m));
                    let j = choose|j: int| 0 <= j < n && #[trigger] changes[j] == m;
                    assert(changes[j] is SetAttr);
                    assert(attr_done(changes, n, id, name));
                }
            }
            assert(now[id].attrs =~= q[id].attrs) by {
                assert forall|name: Seq<char>| #[trigger]
                    now[id].attrs.contains_key(name) == q[id].attrs.contains_key(name) by {
                    assert(attr_of(now[id].attrs, name) == attr_of(q[id].attrs, name));
                }
                assert forall|name: Seq<char>|
                    now[id].attrs.contains_key(name) implies now[id].attrs[name]
                    == q[id].attrs[name] by {
                    assert(attr_of(now[id].attrs, name) == attr_of(q[id].attrs, name));
                }
            }
            assert(now[id] =~= q[id]);
        }
    }
    assert(now =~= q);
}

/// A list of nodes by ascending identifier is fixed by the document that it describes, so a
/// document has one snapshot, and taking the snapshot of its tree gives the list back.
pub proof fn law_snapshot_canonical(a: Seq<NodeView>, b: Seq<NodeView>)
    requires
        ascending(a),
        ascending(b),
        nodes_by_id(a) == nodes_by_id(b),
    ensures
        a == b,
    decreases a.len(),
{
    lemma_nodes_by_id(a);
    lemma_nodes_by_id(b);
    if a.len() == 0 {
        if b.len() > 0 {
            assert(nodes_by_id(b).contains_key(b[0].id));
        }
        assert(a =~= b);
    } else {
        assert(nodes_by_id(a).contains_key(a[a.len() - 1].id));
        assert(b.len() > 0);
        let x = a.last();
        let y = b.last();
        assert(last_with_id(a, a.len() - 1));
        assert(last_with_id(b, b.len() - 1));
        assert(nodes_by_id(b).contains_key(x.id));
        assert(nodes_by_id(b).contains_key(b[b.len() - 1].id));
        assert(x.id == y.id) by {
            let i = choose|i: int| last_with_id(b, i) && b[i].id == x.id;
            assert(x.id <= y.id);
            let j = choose|j: int| last_with_id(a, j) && a[j].id == y.id;
            assert(y.id <= x.id);
        }
        assert(x == y);
        let a0 = a.drop_last();
        let b0 = b.drop_last();
        lemma_nodes_by_id(a0);
        lemma_nodes_by_id(b0);
        assert(!nodes_by_id(a0).contains_key(x.id)) by {
            if nodes_by_id(a0).contains_key(x.id) {
                let i = choose|i: int| last_with_id(a0, i) && a0[i].id == x.id;
                assert(a[i].id < a[a.len() - 1].id);
            }
        }
        assert(!nodes_by_id(b0).contains_key(x.id)) by {
            if nodes_by_id(b0).contains_key(x.id) {
                let i = choose|i: int| last_with_id(b0, i) && b0[i].id == x.id;
                assert(b[i].id < b[b.len() - 1].id);
            }
        }
        assert(nodes_by_id(a0) =~= nodes_by_id(a).remove(x.id));
        assert(nodes_by_id(b0) =~= nodes_by_id(b).remove(x.id));
        assert(ascending(a0));
        assert(ascending(b0));
        law_snapshot_canonical(a0, b0);
        assert(a =~= a0.push(x));
        assert(b =~= b0.push(y));
    }
}

/// Changes count in turn: a list of changes followed by another does what the second does to
/// what the first has left, and no changes do nothing.
pub proof fn law_changes_in_turn(
    nodes: Map<NodeId, NodeView>,
    first: Seq<MutationView>,
    second: Seq<MutationView>,
)
    ensures
        apply_all(nodes, first + second) == apply_all(apply_all(nodes, first), second),
        apply_all(nodes, Seq::empty()) == nodes,
    decreases second.len(),
{
    if second.len() == 0 {
        assert(first + second =~= first);
    } else {
        law_changes_in_turn(nodes, first, second.drop_last());
        assert((first + second).drop_last() =~= first + second.drop_last());
        assert((first + second).last() == second.last());
    }
}

/// What is left of a list of children once a node is removed is the children other than it, in
/// their order.
proof fn lemma_without_is_filter(ids: Seq<NodeId>, id: NodeId)
    ensures
        without_id(ids, id) == ids.filter(|x: NodeId| x != id),
    decreases ids.len(),
{
    reveal(Seq::filter);
    if ids.len() > 0 {
        lemma_without_is_filter(ids.drop_last(), id);
    } else {
        assert(ids =~= ids.filter(|x: NodeId| x != id));
    }
}

/// A node that is sent whole stands in the document from then on as it was sent, and every
/// other node stays as it was.
pub proof fn law_upsert_puts_the_node(nodes: Map<NodeId, NodeView>, node: NodeView, other: NodeId)
    ensures
        ({
            let after = apply_all(nodes, seq![MutationView::Upsert { node }]);
            &&& after.contains_key(node.id) && after[node.id] == node
            &&& other != node.id ==> after.contains_key(other) == nodes.contains_key(other)
            &&& other != node.id && nodes.contains_key(other) ==> after[other] == nodes[other]
        }),
{
    reveal_with_fuel(apply_all, 2);
}

/// A removed node is gone; every other node stays, and only loses it from its children.
pub proof fn law_remove_takes_the_node(nodes: Map<NodeId, NodeView>, id: NodeId, other: NodeId)
    ensures
        ({
            let after = apply_all(nodes, seq![MutationView::Remove { id }]);
            &&& !after.contains_key(id)
            &&& other != id ==> after.contains_key(other) == nodes.contains_key(other)
            &&& other != id && nodes.contains_key(other) ==> after[other] == (NodeView {
                children: nodes[other].children.filter(|x: NodeId| x != id),
                ..nodes[other]
            })
        }),
{
    reveal_with_fuel(apply_all, 2);
    if nodes.contains_key(other) {
        lemma_without_is_filter(nodes[other].children, id);
    }
}

/// Setting the text, an attribute or the children of a node that is there gives it that very
/// text, attribute or list of children and leaves the rest of it, and every other node, as it
/// was; for a node that is not there it does nothing.
pub proof fn law_setting_changes_one_thing(
    nodes: Map<NodeId, NodeView>,
    id: NodeId,
    text: Option<Seq<char>>,
    name: Seq<char>,
    value: Option<Seq<char>>,
    children: Seq<NodeId>,
)
    ensures
        ({
            let texted = apply_all(nodes, seq![MutationView::SetText { id, text }]);
            let attributed = apply_all(nodes, seq![MutationView::SetAttr { id, name, value }]);
            let filled = apply_all(nodes, seq![MutationView::SetChildren { id, children }]);
            &&& !nodes.contains_key(id) ==> texted == nodes && attributed == nodes && filled == nodes
            &&& nodes.contains_key(id) ==> {
                let node = nodes[id];
                &&& texted == nodes.insert(id, NodeView { text: text, ..node })
                &&& filled == nodes.insert(id, NodeView { children: children, ..node })
                &&& value matches Some(v) ==> attributed == nodes.insert(
                    id,
                    NodeView { attrs: node.attrs.insert(name, v), ..node },
                )
                &&& value is None ==> attributed == nodes.insert(
                    id,
                    NodeView { attrs: node.attrs.remove(name), ..node },
                )
            }
        }),
{
    reveal_with_fuel(apply_all, 2);
}

} // verus!
