//! The layout tree of a document: one node under the root for each
//! element that the document function emits or calls for.

use vstd::prelude::*;
use crate::ir_types::{Func, HLIRModule, Id, Op, OpModel};

verus! {

/// `taffy::TaffyTree`, the layout tree of the layout library, held as it is.
#[verifier::external_type_specification]
#[verifier::external_body]
#[verifier::reject_recursive_types(NodeContext)]
pub struct ExTaffyTree<NodeContext>(taffy::TaffyTree<NodeContext>);

/// `taffy::TaffyError`, the error of the layout library, held as it is.
#[verifier::external_type_specification]
#[verifier::external_body]
pub struct ExTaffyError(taffy::TaffyError);

/// The nodes that a layout tree holds, each by its number, with the
/// numbers of its children in order.
pub uninterp spec fn taffy_children(tree: taffy::TaffyTree) -> Map<u64, Seq<u64>>;

/// The most nodes that a layout tree takes.
pub const NODE_LIMIT: usize = 0xffff_fffe;

/// Whether a layout tree has room for another node.
pub open spec fn has_room(tree: taffy::TaffyTree) -> bool {
    taffy_children(tree).dom().finite() && taffy_children(tree).dom().len() < NODE_LIMIT
}

/// A layout tree without nodes.
///
/// Trusted: stands for `TaffyTree::new`, which makes a tree whose node
/// store and child lists are empty.
#[verifier::external_body]
fn tree_new() -> (r: taffy::TaffyTree)
    ensures
        taffy_children(r).dom() == Set::<u64>::empty(),
{
    taffy::TaffyTree::new()
}

/// Adds a node of the default style, with no children and no parent, and
/// returns its number.
///
/// Trusted: stands for `TaffyTree::new_leaf` with `Style::default()`. The
/// source stores the node under a key that no node of the tree has, gives
/// it an empty child list, leaves every other child list as it is and
/// returns `Ok` with the key. The store panics when it holds
/// `u32::MAX - 1` nodes, which `has_room` keeps out.
#[verifier::external_body]
fn tree_new_leaf(tree: &mut taffy::TaffyTree) -> (r: Result<u64, taffy::TaffyError>)
    requires
        has_room(*old(tree)),
    ensures
        r is Ok,
        r matches Ok(id) ==> !taffy_children(*old(tree)).dom().contains(id) && taffy_children(
            *final(tree),
        ) == taffy_children(*old(tree)).insert(id, Seq::empty()),
{
    match tree.new_leaf(taffy::Style::default()) {
        Ok(id) => Ok(u64::from(id)),
        Err(e) => Err(e),
    }
}

/// Adds a node of the default style that is made with an empty list of
/// children, and returns its number.
///
/// Trusted: stands for `TaffyTree::new_with_children` with
/// `Style::default()` and no children. The source stores the node under
/// a key that no node of the tree has, gives it the child list that it
/// was handed, here the empty one, and returns `Ok` with the key.
#[verifier::external_body]
fn tree_new_root(tree: &mut taffy::TaffyTree) -> (r: Result<u64, taffy::TaffyError>)
    requires
        has_room(*old(tree)),
    ensures
        r is Ok,
        r matches Ok(id) ==> !taffy_children(*old(tree)).dom().contains(id) && taffy_children(
            *final(tree),
        ) == taffy_children(*old(tree)).insert(id, Seq::empty()),
{
    match tree.new_with_children(taffy::Style::default(), &[]) {
        Ok(id) => Ok(u64::from(id)),
        Err(e) => Err(e),
    }
}

/// Puts the node `child` at the end of the children of the node `parent`.
///
/// Trusted: stands for `TaffyTree::add_child`. The source indexes the
/// tree by both keys, which panics for a key that the tree does not hold,
/// pushes the child onto the parent's child list, leaves every other
/// child list as it is, and returns `Ok`.
#[verifier::external_body]
fn tree_add_child(tree: &mut taffy::TaffyTree, parent: u64, child: u64) -> (r: Result<
    (),
    taffy::TaffyError,
>)
    requires
        taffy_children(*old(tree)).dom().contains(parent),
        taffy_children(*old(tree)).dom().contains(child),
    ensures
        r is Ok,
        taffy_children(*final(tree)) == taffy_children(*old(tree)).insert(
            parent,
            taffy_children(*old(tree))[parent].push(child),
        ),
{
    tree.add_child(taffy::NodeId::new(parent), taffy::NodeId::new(child))
}

/// Why a module has no layout tree.
#[derive(Debug, Clone, Copy, PartialEq, Eq, Structural)]
pub enum LayoutError {
    /// The module holds no function, and so no document function.
    NoDocument,
    /// A call names something that is not a function of the module.
    UnknownFunction,
    /// A call names a function that returns no element of the module.
    NoReturnedElement,
    /// The document has more elements than a layout tree takes.
    TooLarge,
    /// The layout tree refused a node. It refuses none while it has room.
    Engine,
}

/// Whether the operation `op` puts a node under the root: an emitted
/// element does, and a call of a function that returns an element of the
/// module does. A call of anything else is an error.
pub open spec fn node_of(module: crate::ir_types::ModuleModel, op: OpModel) -> Result<
    bool,
    LayoutError,
> {
    match op {
        OpModel::DocElementEmit { .. } => Ok(true),
        OpModel::Call { func, .. } => match func {
            Id::Func(f) => if f.0 < module.functions.len() {
                match module.functions[f.0 as int].body.returned_element_ref {
                    Some(e) => if e < module.elements.len() {
                        Ok(true)
                    } else {
                        Err(LayoutError::NoReturnedElement)
                    },
                    None => Err(LayoutError::NoReturnedElement),
                }
            } else {
                Err(LayoutError::UnknownFunction)
            },
            _ => Err(LayoutError::UnknownFunction),
        },
        _ => Ok(false),
    }
}

/// The number of nodes that the first `n` operations put under the root,
/// or the first error among them.
pub open spec fn nodes_upto(module: crate::ir_types::ModuleModel, ops: Seq<OpModel>, n: nat) -> Result<
    nat,
    LayoutError,
>
    decreases n,
{
    if n == 0 {
        Ok(0)
    } else {
        match nodes_upto(module, ops, (n - 1) as nat) {
            Err(e) => Err(e),
            Ok(count) => match node_of(module, ops[n - 1]) {
                Err(e) => Err(e),
                Ok(true) => Ok(count + 1),
                Ok(false) => Ok(count),
            },
        }
    }
}

/// The number of nodes under the root of the layout tree of a module:
/// one for each element that the document function, the last function of
/// the module, emits or calls for.
pub open spec fn layout_size(module: crate::ir_types::ModuleModel) -> Result<nat, LayoutError> {
    if module.functions.len() == 0 {
        Err(LayoutError::NoDocument)
    } else {
        let ops = module.functions[module.functions.len() - 1].body.ops;
        if ops.len() >= NODE_LIMIT - 1 {
            Err(LayoutError::TooLarge)
        } else {
            nodes_upto(module, ops, ops.len())
        }
    }
}

proof fn lemma_nodes_error(module: crate::ir_types::ModuleModel, ops: Seq<OpModel>, i: nat, n: nat)
    requires
        i <= n,
        nodes_upto(module, ops, i) is Err,
    ensures
        nodes_upto(module, ops, n) == nodes_upto(module, ops, i),
    decreases n,
{
    if i < n {
        lemma_nodes_error(module, ops, i, (n - 1) as nat);
    }
}

/// The layout tree of a document and the number of its root.
pub struct LayoutEngine {
    pub tree: taffy::TaffyTree,
    pub root: u64,
}

impl LayoutEngine {
    /// The nodes of the tree, each with its children.
    pub open spec fn nodes(&self) -> Map<u64, Seq<u64>> {
        taffy_children(self.tree)
    }

    /// Whether the tree is a root with `n` leaves as its children.
    pub open spec fn is_flat(&self, n: nat) -> bool {
        &&& self.nodes().dom().finite()
        &&& self.nodes().dom().len() == n + 1
        &&& self.nodes().dom().contains(self.root)
        &&& self.nodes()[self.root].len() == n
        &&& self.nodes()[self.root].no_duplicates()
        &&& forall|k: int|
            0 <= k < n ==> self.nodes()[self.root][k] != self.root && self.nodes().dom().contains(
                #[trigger] self.nodes()[self.root][k],
            ) && self.nodes()[self.nodes()[self.root][k]].len() == 0
        &&& forall|id: u64| #[trigger]
            self.nodes().dom().contains(id) ==> id == self.root || self.nodes()[self.root].contains(
                id,
            )
    }

    /// An engine whose tree holds no node yet.
    pub fn new() -> (r: Self)
        ensures
            r.nodes().dom() == Set::<u64>::empty(),
            r.root == 0,
    {
        LayoutEngine { tree: tree_new(), root: 0 }
    }

    /// Whether the operation `op` puts a node under the root.
    fn op_node(hlir: &HLIRModule, op: &Op) -> (r: Result<bool, LayoutError>)
        ensures
            r == node_of(hlir@, op@),
    {
        match op {
            Op::DocElementEmit { .. } => Ok(true),
            Op::Call { func, .. } => match func {
                Id::Func(f) => match hlir.function(*f) {
                    Some(function) => {
                        assert(hlir@.functions[f.0 as int] == function@);
                        match function.body.returned_element_ref {
                            Some(e) => {
                                if e < hlir.elements.len() {
                                    Ok(true)
                                } else {
                                    Err(LayoutError::NoReturnedElement)
                                }
                            },
                            None => Err(LayoutError::NoReturnedElement),
                        }
                    },
                    None => Err(LayoutError::UnknownFunction),
                },
                _ => Err(LayoutError::UnknownFunction),
            },
            _ => Ok(false),
        }
    }

    /// The layout tree of a module: a root, and under it one leaf for each
    /// element that the document function emits or calls for.
    pub fn build_from_hlir_module(hlir_module: &HLIRModule) -> (r: Result<LayoutEngine, LayoutError>)
        ensures
            match layout_size(hlir_module@) {
                Ok(n) => r matches Ok(engine) && engine.is_flat(n),
                Err(e) => r matches Err(got) && got == e,
            },
    {
        let ghost module = hlir_module@;
        if hlir_module.functions.len() == 0 {
            return Err(LayoutError::NoDocument);
        }
        let document = &hlir_module.functions[hlir_module.functions.len() - 1];
        assert(module.functions[module.functions.len() - 1] == document@);
        let ops = &document.body.ops;
        let ghost models = document@.body.ops;
        if ops.len() >= NODE_LIMIT - 1 {
            return Err(LayoutError::TooLarge);
        }
        let mut layout = LayoutEngine::new();
        layout.root = match tree_new_root(&mut layout.tree) {
            Ok(id) => id,
            Err(_) => {
                return Err(LayoutError::Engine);
            },
        };
        let ghost mut count: nat = 0;
        assert(layout.nodes().dom() =~= set![layout.root]);
        let mut i: usize = 0;
        while i < ops.len()
            invariant
                i <= ops@.len(),
                ops@.len() < NODE_LIMIT - 1,
                models == crate::ir_types::op_models(ops@),
                module == hlir_module@,
                nodes_upto(module, models, i as nat) == Ok::<nat, LayoutError>(count),
                count <= i,
                layout.is_flat(count),
                layout_size(module) == nodes_upto(module, models, models.len()),
            decreases ops@.len() - i,
        {
            assert(models[i as int] == ops@[i as int]@);
            match Self::op_node(hlir_module, &ops[i]) {
                Err(e) => {
                    proof {
                        lemma_nodes_error(module, models, (i + 1) as nat, models.len());
                    }
                    return Err(e);
                },
                Ok(false) => {},
                Ok(true) => {
                    let ghost before = layout.nodes();
                    let element = match tree_new_leaf(&mut layout.tree) {
                        Ok(id) => id,
                        Err(_) => {
                            return Err(LayoutError::Engine);
                        },
                    };
                    let ghost with_leaf = layout.nodes();
                    match tree_add_child(&mut layout.tree, layout.root, element) {
                        Ok(()) => {},
                        Err(_) => {
                            return Err(LayoutError::Engine);
                        },
                    }
                    proof {
                        let after = layout.nodes();
                        let root = layout.root;
                        assert(after.dom() =~= before.dom().insert(element));
                        assert(after[root] == before[root].push(element));
                        assert forall|k: int| 0 <= k < count + 1 implies after[root][k] != root
                            && after.dom().contains(#[trigger] after[root][k])
                            && after[after[root][k]].len() == 0 by {
                            if k < count {
                                assert(after[root][k] == before[root][k]);
                                assert(before.dom().contains(before[root][k]));
                            }
                        }
                        assert forall|id: u64| #[trigger]
                            after.dom().contains(id) implies id == root || after[root].contains(
                            id,
                        ) by {
                            if id == element {
                                assert(after[root][count as int] == element);
                            } else if id != root {
                                assert(before[root].contains(id));
                                let k = choose|k: int|
                                    0 <= k < before[root].len() && before[root][k] == id;
                                assert(after[root][k] == id);
                            }
                        }
                        assert(after[root].no_duplicates()) by {
                            assert forall|a: int, b: int|
                                0 <= a < after[root].len() && 0 <= b < after[root].len() && a
                                    != b implies after[root][a] != after[root][b] by {
                                if a < count && b < count {
                                    assert(before[root][a] != before[root][b]);
                                } else if a < count {
                                    assert(before.dom().contains(before[root][a]));
                                } else if b < count {
                                    assert(before.dom().contains(before[root][b]));
                                }
                            }
                        }
                        count = count + 1;
                    }
                },
            }
            i += 1;
        }
        Ok(layout)
    }
}

/// The layout tree of a module.
pub fn setup_layout(hlir_module: &HLIRModule) -> (r: Result<LayoutEngine, LayoutError>)
    ensures
        match layout_size(hlir_module@) {
            Ok(n) => r matches Ok(engine) && engine.is_flat(n),
            Err(e) => r matches Err(got) && got == e,
        },
{
    LayoutEngine::build_from_hlir_module(hlir_module)
}

} // verus!
