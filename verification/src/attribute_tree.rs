//! The attribute tree: the style state of each content element, inline and
//! computed, in nodes that the tree owns and that name their parents by id.
//!
//! The root has id 1. Every other node has the id that the tree gave it
//! when it was added: one more than the id given last.

use vstd::prelude::*;
use crate::ast::AttributeMap;
use crate::style::{inline_style, text_of, StyleAttributes, StyleModel};
use crate::text::str_eq;

verus! {

/// The style state of one content element.
#[derive(Debug)]
pub struct AttributeNode {
    /// The id of the parent node; `None` for the root.
    pub parent: Option<usize>,
    pub id: usize,
    /// The style that the element's own markup attributes write.
    pub inline: StyleAttributes,
    /// The style that the cascade gave the element.
    pub computed: StyleAttributes,
}

/// What an attribute node holds.
pub struct NodeModel {
    pub parent: Option<usize>,
    pub id: usize,
    pub inline: StyleModel,
    pub computed: StyleModel,
}

impl View for AttributeNode {
    type V = NodeModel;

    open spec fn view(&self) -> NodeModel {
        NodeModel {
            parent: self.parent,
            id: self.id,
            inline: self.inline@,
            computed: self.computed@,
        }
    }
}

impl Clone for AttributeNode {
    fn clone(&self) -> (r: Self)
        ensures
            r@ == self@,
    {
        AttributeNode {
            parent: self.parent,
            id: self.id,
            inline: self.inline.clone(),
            computed: self.computed.clone(),
        }
    }
}

/// Whether `p` is a property whose value a node without one takes from its
/// ancestors when it is looked up.
pub open spec fn is_css_inherited(p: Seq<char>) -> bool {
    p == "color"@ || p == "font-family"@ || p == "font-size"@ || p == "font-weight"@ || p
        == "font-style"@ || p == "line-height"@ || p == "text-align"@ || p == "visibility"@
}

/// The value of `p` that the node with this id has or takes from its
/// ancestors: its own computed value where it has one, else, for an
/// inherited property, that of its parent.
pub open spec fn chain_value(nodes: Seq<NodeModel>, id: int, p: Seq<char>) -> Option<Seq<char>>
    decreases id,
{
    if 1 <= id <= nodes.len() {
        let node = nodes[id - 1];
        if node.computed.get(p) is Some {
            node.computed.get(p)
        } else if is_css_inherited(p) && node.parent is Some && node.parent->0 < id {
            chain_value(nodes, node.parent->0 as int, p)
        } else {
            None
        }
    } else {
        None
    }
}

impl NodeModel {
    /// The value of `p` that this node has or takes from its ancestors in `nodes`.
    pub open spec fn effective_value(self, nodes: Seq<NodeModel>, p: Seq<char>) -> Option<
        Seq<char>,
    > {
        if self.computed.get(p) is Some {
            self.computed.get(p)
        } else if is_css_inherited(p) && self.parent is Some {
            chain_value(nodes, self.parent->0 as int, p)
        } else {
            None
        }
    }
}

impl AttributeNode {
    /// The root node: id 1, no parent, nothing set.
    pub fn new() -> (r: Self)
        ensures
            r@ == (NodeModel {
                parent: None,
                id: 1,
                inline: StyleModel::empty(),
                computed: StyleModel::empty(),
            }),
    {
        AttributeNode {
            parent: None,
            id: 1,
            inline: StyleAttributes::default(),
            computed: StyleAttributes::default(),
        }
    }

    /// A node for an element with these markup attributes, to stand under
    /// the node `parent_id`. Its id is provisional until the tree takes it.
    pub fn new_with_attributes(attributes: &AttributeMap, parent_id: usize) -> (r: Self)
        requires
            parent_id < usize::MAX,
        ensures
            r@ == (NodeModel {
                parent: Some(parent_id),
                id: (parent_id + 1) as usize,
                inline: inline_style(attributes@),
                computed: StyleModel::empty(),
            }),
    {
        AttributeNode {
            parent: Some(parent_id),
            id: parent_id + 1,
            inline: StyleAttributes::new_with_attributes(attributes),
            computed: StyleAttributes::default(),
        }
    }

    /// Whether `property` is looked up in the ancestors of a node that has no
    /// value of its own for it.
    pub fn is_inherited_property(property: &str) -> (r: bool)
        ensures
            r == is_css_inherited(property@),
    {
        str_eq(property, "color") || str_eq(property, "font-family") || str_eq(
            property,
            "font-size",
        ) || str_eq(property, "font-weight") || str_eq(property, "font-style") || str_eq(
            property,
            "line-height",
        ) || str_eq(property, "text-align") || str_eq(property, "visibility")
    }

    /// The value of `property` that this node has or takes from its ancestors in `tree`.
    pub fn get_effective_value(&self, property: &str, tree: &AttributeTree) -> (found: Option<
        String,
    >)
        requires
            tree.wf(),
        ensures
            text_of(found) == self@.effective_value(tree@, property@),
    {
        match self.computed.get(property) {
            Some(v) => {
                return Some(v);
            },
            None => {},
        }
        if !Self::is_inherited_property(property) {
            return None;
        }
        let mut r: Option<String> = None;
        let mut next: Option<usize> = self.parent;
        let ghost mut bound: int = usize::MAX + 1;
        loop
            invariant
                tree.wf(),
                is_css_inherited(property@),
                next matches Some(q) ==> q < bound,
                self@.effective_value(tree@, property@) == match next {
                    Some(q) => chain_value(tree@, q as int, property@),
                    None => None,
                },
            ensures
                text_of(r) == self@.effective_value(tree@, property@),
            decreases
                    match next {
                        Some(q) => q + 1,
                        None => 0,
                    },
        {
            let q = match next {
                Some(q) => q,
                None => {
                    r = None;
                    break;
                },
            };
            let node = match tree.find_node(q) {
                Some(n) => n,
                None => {
                    r = None;
                    break;
                },
            };
            match node.computed.get(property) {
                Some(v) => {
                    r = Some(v);
                    break;
                },
                None => {},
            }
            proof {
                bound = q as int;
            }
            next = node.parent;
        }
        r
    }
}

/// The tree of attribute nodes.
#[derive(Debug, Clone)]
pub struct AttributeTree {
    /// The nodes in the order of their ids: the node with id `k` is at `k - 1`.
    pub nodes: Vec<AttributeNode>,
}

/// The models of a sequence of nodes.
pub open spec fn node_models(nodes: Seq<AttributeNode>) -> Seq<NodeModel> {
    Seq::new(nodes.len(), |i: int| nodes[i]@)
}

impl View for AttributeTree {
    type V = Seq<NodeModel>;

    open spec fn view(&self) -> Seq<NodeModel> {
        node_models(self.nodes@)
    }
}

/// Whether the nodes form a tree: the root comes first and has no parent,
/// each node has the id of its place, and each other node has a parent
/// that was added before it.
pub open spec fn tree_wf(nodes: Seq<NodeModel>) -> bool {
    &&& nodes.len() >= 1
    &&& nodes[0].parent is None
    &&& forall|i: int| 0 <= i < nodes.len() ==> (#[trigger] nodes[i]).id == i + 1
    &&& forall|i: int|
        1 <= i < nodes.len() ==> (#[trigger] nodes[i]).parent is Some && 1 <= nodes[i].parent->0
            <= i
}

impl AttributeTree {
    /// Whether the nodes form a tree.
    pub open spec fn wf(&self) -> bool {
        tree_wf(self@)
    }

    /// Whether the nodes form a tree.
    pub fn is_well_formed(&self) -> (r: bool)
        ensures
            r == self.wf(),
    {
        if self.nodes.len() == 0 {
            return false;
        }
        if self.nodes[0].parent.is_some() || self.nodes[0].id != 1 {
            assert(self@[0] == self.nodes@[0]@);
            return false;
        }
        assert(self@[0] == self.nodes@[0]@);
        let mut i: usize = 1;
        while i < self.nodes.len()
            invariant
                1 <= i <= self.nodes@.len(),
                self@[0].parent is None,
                forall|k: int| 0 <= k < i ==> (#[trigger] self@[k]).id == k + 1,
                forall|k: int|
                    1 <= k < i ==> (#[trigger] self@[k]).parent is Some && 1 <= self@[k].parent->0
                        <= k,
            decreases self.nodes@.len() - i,
        {
            assert(self@[i as int] == self.nodes@[i as int]@);
            let node = &self.nodes[i];
            let placed = match node.parent {
                Some(p) => 1 <= p && p <= i,
                None => false,
            };
            if !placed || node.id == 0 || node.id - 1 != i {
                return false;
            }
            i += 1;
        }
        true
    }

    /// A tree that holds the root alone.
    pub fn new() -> (r: Self)
        ensures
            r.wf(),
            r@.len() == 1,
            r@[0] == (NodeModel {
                parent: None,
                id: 1,
                inline: StyleModel::empty(),
                computed: StyleModel::empty(),
            }),
    {
        let mut nodes: Vec<AttributeNode> = Vec::new();
        nodes.push(AttributeNode::new());
        AttributeTree { nodes }
    }

    /// The number of nodes, the root among them: the id that was given last.
    pub fn size(&self) -> (n: usize)
        ensures
            n == self@.len(),
    {
        self.nodes.len()
    }

    /// Takes `attributes` into the tree under the parent that it names, and
    /// returns the id that the node was given.
    pub fn add_attribute(&mut self, attributes: AttributeNode) -> (id: usize)
        requires
            old(self).wf(),
            old(self)@.len() < usize::MAX,
            attributes.parent is Some,
            1 <= attributes.parent->0 <= old(self)@.len(),
        ensures
            final(self).wf(),
            id == old(self)@.len() + 1,
            final(self)@ == old(self)@.push(NodeModel { id: id, ..attributes@ }),
    {
        let id: usize = self.nodes.len() + 1;
        let mut node = attributes;
        node.id = id;
        self.nodes.push(node);
        assert(self@ =~= old(self)@.push(NodeModel { id: id, ..attributes@ }));
        id
    }

    /// The node with this id.
    pub fn find_node(&self, id: usize) -> (r: Option<&AttributeNode>)
        ensures
            r is Some <==> 1 <= id <= self@.len(),
            r matches Some(n) ==> *n == self.nodes@[id - 1] && n@ == self@[id - 1],
            r matches Some(n) ==> self.wf() ==> n.id == id,
    {
        if id >= 1 && id <= self.nodes.len() {
            assert(self@[id - 1] == self.nodes@[id - 1]@);
            Some(&self.nodes[id - 1])
        } else {
            None
        }
    }

    /// The node with this id, to be changed in place.
    pub fn find_node_mut(&mut self, id: usize) -> (r: Option<&mut AttributeNode>)
        ensures
            r is Some <==> 1 <= id <= old(self)@.len(),
            r matches Some(n) ==> *n == old(self).nodes@[id - 1] && final(self).nodes@ == old(
                self,
            ).nodes@.update(id - 1, *final(n)),
            r is None ==> *final(self) == *old(self),
    {
        if id >= 1 && id <= self.nodes.len() {
            Some(&mut self.nodes[id - 1])
        } else {
            None
        }
    }

    /// Gives the node with this id the computed style `computed`. Nothing
    /// changes where the tree has no node with this id.
    pub fn set_computed(&mut self, id: usize, computed: StyleAttributes)
        ensures
            1 <= id <= old(self)@.len() ==> final(self)@ == old(self)@.update(
                id - 1,
                NodeModel { computed: computed@, ..old(self)@[id - 1] },
            ),
            !(1 <= id <= old(self)@.len()) ==> final(self)@ == old(self)@,
            old(self).wf() ==> final(self).wf(),
    {
        match self.find_node_mut(id) {
            Some(node) => {
                node.computed = computed;
            },
            None => {},
        }
        proof {
            if 1 <= id <= old(self)@.len() {
                assert(self@ =~= old(self)@.update(
                    id - 1,
                    NodeModel { computed: computed@, ..old(self)@[id - 1] },
                ));
            }
        }
    }
}

} // verus!
