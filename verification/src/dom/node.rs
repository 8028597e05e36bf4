//! Document nodes and snapshots.

use vstd::prelude::*;

use crate::string_map::StringMap;
use crate::text::{clone_opt, clone_texts, opt_eq, opt_text, texts, texts_eq};

verus! {

/// The identifier of a node.
pub type NodeId = u64;

/// What assistive technology would say of a node.
#[derive(Debug, PartialEq, Eq)]
pub struct DomNodeSemantics {
    pub role: Option<String>,
    pub name: Option<String>,
    pub label: Option<String>,
    pub control_type: Option<String>,
    pub actionable: bool,
    pub disabled: bool,
    pub visible: bool,
    pub actions: Vec<String>,
}

/// The contents of a `DomNodeSemantics`.
#[verifier::ext_equal]
pub struct SemanticsView {
    pub role: Option<Seq<char>>,
    pub name: Option<Seq<char>>,
    pub label: Option<Seq<char>>,
    pub control_type: Option<Seq<char>>,
    pub actionable: bool,
    pub disabled: bool,
    pub visible: bool,
    pub actions: Seq<Seq<char>>,
}

impl View for DomNodeSemantics {
    type V = SemanticsView;

    open spec fn view(&self) -> SemanticsView {
        SemanticsView {
            role: opt_text(self.role),
            name: opt_text(self.name),
            label: opt_text(self.label),
            control_type: opt_text(self.control_type),
            actionable: self.actionable,
            disabled: self.disabled,
            visible: self.visible,
            actions: texts(self.actions@),
        }
    }
}

/// The semantics of a node that reports none.
pub open spec fn no_semantics() -> SemanticsView {
    SemanticsView {
        role: None,
        name: None,
        label: None,
        control_type: None,
        actionable: false,
        disabled: false,
        visible: false,
        actions: Seq::empty(),
    }
}

impl Default for DomNodeSemantics {
    fn default() -> (res: Self)
        ensures
            res@ == no_semantics(),
    {
        let actions: Vec<String> = Vec::new();
        assert(texts(actions@) =~= Seq::<Seq<char>>::empty());
        DomNodeSemantics {
            role: None,
            name: None,
            label: None,
            control_type: None,
            actionable: false,
            disabled: false,
            visible: false,
            actions,
        }
    }
}

impl Clone for DomNodeSemantics {
    fn clone(&self) -> (res: Self)
        ensures
            res@ == self@,
    {
        DomNodeSemantics {
            role: clone_opt(&self.role),
            name: clone_opt(&self.name),
            label: clone_opt(&self.label),
            control_type: clone_opt(&self.control_type),
            actionable: self.actionable,
            disabled: self.disabled,
            visible: self.visible,
            actions: clone_texts(&self.actions),
        }
    }
}

impl DomNodeSemantics {
    /// Whether two descriptions agree.
    pub fn same_as(&self, other: &DomNodeSemantics) -> (res: bool)
        ensures
            res == (self@ == other@),
    {
        opt_eq(&self.role, &other.role) && opt_eq(&self.name, &other.name) && opt_eq(
            &self.label,
            &other.label,
        ) && opt_eq(&self.control_type, &other.control_type) && self.actionable
            == other.actionable && self.disabled == other.disabled && self.visible == other.visible
            && texts_eq(&self.actions, &other.actions)
    }
}

/// The contents of an optional description.
pub open spec fn opt_semantics(semantic: Option<DomNodeSemantics>) -> Option<SemanticsView> {
    match semantic {
        Some(s) => Some(s@),
        None => None,
    }
}

/// A copy of an optional description.
pub fn clone_opt_semantics(semantic: &Option<DomNodeSemantics>) -> (res: Option<DomNodeSemantics>)
    ensures
        opt_semantics(res) == opt_semantics(*semantic),
{
    match semantic {
        Some(s) => Some(s.clone()),
        None => None,
    }
}

/// Whether two optional descriptions agree.
pub fn opt_semantics_eq(a: &Option<DomNodeSemantics>, b: &Option<DomNodeSemantics>) -> (res: bool)
    ensures
        res == (opt_semantics(*a) == opt_semantics(*b)),
{
    match (a, b) {
        (Some(x), Some(y)) => x.same_as(y),
        (None, None) => true,
        _ => false,
    }
}

/// A copy of a list of identifiers.
pub fn clone_ids(ids: &Vec<NodeId>) -> (res: Vec<NodeId>)
    ensures
        res@ == ids@,
{
    let mut out: Vec<NodeId> = Vec::new();
    let mut i: usize = 0;
    while i < ids.len()
        invariant
            i <= ids@.len(),
            out@ == ids@.take(i as int),
        decreases ids@.len() - i,
    {
        out.push(ids[i]);
        i += 1;
    }
    assert(ids@.take(i as int) =~= ids@);
    out
}

/// Whether two lists hold the same identifiers in the same order.
pub fn ids_eq(a: &Vec<NodeId>, b: &Vec<NodeId>) -> (res: bool)
    ensures
        res == (a@ == b@),
{
    if a.len() != b.len() {
        return false;
    }
    let mut i: usize = 0;
    while i < a.len()
        invariant
            i <= a@.len(),
            a@.len() == b@.len(),
            forall|j: int| 0 <= j < i ==> a@[j] == b@[j],
        decreases a@.len() - i,
    {
        if a[i] != b[i] {
            return false;
        }
        i += 1;
    }
    assert(a@ =~= b@);
    true
}

/// A node of the document.
#[derive(Debug, PartialEq, Eq)]
pub struct DomNode {
    pub id: NodeId,
    pub tag: String,
    pub attrs: StringMap,
    pub text: Option<String>,
    pub semantic: Option<DomNodeSemantics>,
    pub children: Vec<NodeId>,
}

/// The contents of a `DomNode`.
#[verifier::ext_equal]
pub struct NodeView {
    pub id: NodeId,
    pub tag: Seq<char>,
    pub attrs: Map<Seq<char>, Seq<char>>,
    pub text: Option<Seq<char>>,
    pub semantic: Option<SemanticsView>,
    pub children: Seq<NodeId>,
}

impl View for DomNode {
    type V = NodeView;

    open spec fn view(&self) -> NodeView {
        NodeView {
            id: self.id,
            tag: self.tag@,
            attrs: self.attrs@,
            text: opt_text(self.text),
            semantic: opt_semantics(self.semantic),
            children: self.children@,
        }
    }
}

impl Clone for DomNode {
    fn clone(&self) -> (res: Self)
        ensures
            res@ == self@,
    {
        DomNode {
            id: self.id,
            tag: self.tag.clone(),
            attrs: self.attrs.clone(),
            text: clone_opt(&self.text),
            semantic: clone_opt_semantics(&self.semantic),
            children: clone_ids(&self.children),
        }
    }
}

/// The nodes of a document at one moment.
#[derive(Debug, PartialEq, Eq)]
pub struct DomSnapshot {
    pub nodes: Vec<DomNode>,
}

impl View for DomSnapshot {
    type V = Seq<NodeView>;

    open spec fn view(&self) -> Seq<NodeView> {
        Seq::new(self.nodes@.len(), |i: int| self.nodes@[i]@)
    }
}

impl Clone for DomSnapshot {
    fn clone(&self) -> (res: Self)
        ensures
            res@ == self@,
    {
        let mut nodes: Vec<DomNode> = Vec::new();
        let mut i: usize = 0;
        while i < self.nodes.len()
            invariant
                i <= self.nodes@.len(),
                nodes@.len() == i,
                forall|j: int| 0 <= j < i ==> (#[trigger] nodes@[j])@ == self.nodes@[j]@,
            decreases self.nodes@.len() - i,
        {
            nodes.push(self.nodes[i].clone());
            i += 1;
        }
        let res = DomSnapshot { nodes };
        assert(res@ =~= self@);
        res
    }
}

impl Default for DomSnapshot {
    fn default() -> (res: Self)
        ensures
            res@ == Seq::<NodeView>::empty(),
    {
        let res = DomSnapshot { nodes: Vec::new() };
        assert(res@ =~= Seq::<NodeView>::empty());
        res
    }
}

/// The nodes of a list by identifier; of two nodes with one identifier the later counts.
pub open spec fn nodes_by_id(nodes: Seq<NodeView>) -> Map<NodeId, NodeView>
    decreases nodes.len(),
{
    if nodes.len() == 0 {
        Map::empty()
    } else {
        nodes_by_id(nodes.drop_last()).insert(nodes.last().id, nodes.last())
    }
}

/// Whether `i` is the last position in `nodes` with its identifier.
pub open spec fn last_with_id(nodes: Seq<NodeView>, i: int) -> bool {
    &&& 0 <= i < nodes.len()
    &&& forall|j: int| i < j < nodes.len() ==> (#[trigger] nodes[j]).id != nodes[i].id
}

/// `nodes_by_id` holds under each identifier the last node that has it.
pub proof fn lemma_nodes_by_id(nodes: Seq<NodeView>)
    ensures
        forall|i: int|
            0 <= i < nodes.len() ==> nodes_by_id(nodes).contains_key((#[trigger] nodes[i]).id),
        forall|i: int| #[trigger]
            last_with_id(nodes, i) ==> nodes_by_id(nodes)[nodes[i].id] == nodes[i],
        forall|id: NodeId| #[trigger]
            nodes_by_id(nodes).contains_key(id) ==> exists|i: int|
                last_with_id(nodes, i) && nodes[i].id == id,
        forall|id: NodeId| #[trigger]
            nodes_by_id(nodes).contains_key(id) ==> nodes_by_id(nodes)[id].id == id,
    decreases nodes.len(),
{
    if nodes.len() > 0 {
        let init = nodes.drop_last();
        let n = nodes.len() - 1;
        lemma_nodes_by_id(init);
        assert(last_with_id(nodes, n));
        assert forall|i: int| 0 <= i < nodes.len() implies nodes_by_id(nodes).contains_key(
            (#[trigger] nodes[i]).id,
        ) by {
            if i < n {
                assert(init[i] == nodes[i]);
            }
        }
        assert forall|i: int| #[trigger] last_with_id(nodes, i) implies nodes_by_id(
            nodes,
        )[nodes[i].id] == nodes[i] by {
            if i < n {
                assert(nodes[n].id != nodes[i].id);
                assert forall|j: int| i < j < init.len() implies (#[trigger] init[j]).id
                    != init[i].id by {
                    assert(nodes[j].id != nodes[i].id);
                }
                assert(last_with_id(init, i));
            }
        }
        assert forall|id: NodeId| #[trigger] nodes_by_id(nodes).contains_key(id) implies exists|
            i: int,
        | last_with_id(nodes, i) && nodes[i].id == id by {
            if id == nodes[n].id {
                assert(last_with_id(nodes, n));
            } else {
                assert(nodes_by_id(init).contains_key(id));
                let i = choose|i: int| last_with_id(init, i) && init[i].id == id;
                assert forall|j: int| i < j < nodes.len() implies (#[trigger] nodes[j]).id
                    != nodes[i].id by {
                    if j < n {
                        assert(init[j].id != init[i].id);
                    }
                }
                assert(last_with_id(nodes, i));
            }
        }
        assert forall|id: NodeId| #[trigger] nodes_by_id(nodes).contains_key(
            id,
        ) implies nodes_by_id(nodes)[id].id == id by {
            if id != nodes[n].id {
                assert(nodes_by_id(init).contains_key(id));
            }
        }
    }
}

/// The contents of what is meant by a node are all its parts, each as it is.
pub proof fn law_contents_of_dom_node_semantics(x: DomNodeSemantics)
    ensures
        ({
            &&& x.role is Some ==> x@.role == Some(x.role->Some_0@)
            &&& x.role is None ==> x@.role is None
            &&& x.name is Some ==> x@.name == Some(x.name->Some_0@)
            &&& x.name is None ==> x@.name is None
            &&& x.label is Some ==> x@.label == Some(x.label->Some_0@)
            &&& x.label is None ==> x@.label is None
            &&& x.control_type is Some ==> x@.control_type == Some(x.control_type->Some_0@)
            &&& x.control_type is None ==> x@.control_type is None
            &&& x@.actionable == x.actionable
            &&& x@.disabled == x.disabled
            &&& x@.visible == x.visible
            &&& x@.actions.len() == x.actions@.len() && forall|i: int| 0 <= i < x.actions@.len() ==> #[trigger] x@.actions[i] == x.actions@[i]@
        }),
{
}

/// The contents of a node are all its parts, each as it is.
pub proof fn law_contents_of_dom_node(x: DomNode)
    ensures
        ({
            &&& x@.id == x.id
            &&& x@.tag == x.tag@
            &&& x@.attrs == x.attrs@
            &&& x.text is Some ==> x@.text == Some(x.text->Some_0@)
            &&& x.text is None ==> x@.text is None
            &&& x.semantic is Some ==> x@.semantic == Some(x.semantic->Some_0@)
            &&& x.semantic is None ==> x@.semantic is None
            &&& x@.children == x.children@
        }),
{
}

} // verus!
