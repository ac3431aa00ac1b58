//! The intermediate representation that a document is lowered to.

use vstd::prelude::*;
use crate::ast::{element_models, DocElement, ElementModel, RuleModel, StyleRule};
use crate::attribute_tree::{tree_wf, AttributeTree, NodeModel};
use crate::decimal::Decimal;
use crate::assoc::map_of;
use crate::style::{attribute_text, inline_style, text_of, texts_of};
use crate::text::words;

verus! {

/// The types of values.
#[derive(Debug, Clone, Copy, PartialEq, Eq, Structural)]
pub enum Type {
    Int,
    Float,
    Bool,
    String,
    Color,
    /// The type of a function that produces content.
    DocElement,
}

/// A literal value.
#[derive(Debug)]
pub enum Literal {
    Int(i64),
    Float(Decimal),
    Bool(bool),
    String(String),
    Color(String),
}

/// What a literal is.
pub enum LiteralModel {
    Int(int),
    Float(Seq<char>),
    Bool(bool),
    String(Seq<char>),
    Color(Seq<char>),
}

impl View for Literal {
    type V = LiteralModel;

    open spec fn view(&self) -> LiteralModel {
        match self {
            Literal::Int(n) => LiteralModel::Int(*n as int),
            Literal::Float(d) => LiteralModel::Float(d@),
            Literal::Bool(b) => LiteralModel::Bool(*b),
            Literal::String(s) => LiteralModel::String(s@),
            Literal::Color(s) => LiteralModel::Color(s@),
        }
    }
}

impl Clone for Literal {
    fn clone(&self) -> (r: Self)
        ensures
            r == *self,
    {
        match self {
            Literal::Int(n) => Literal::Int(*n),
            Literal::Float(d) => Literal::Float(d.clone()),
            Literal::Bool(b) => Literal::Bool(*b),
            Literal::String(s) => Literal::String(s.clone()),
            Literal::Color(s) => Literal::Color(s.clone()),
        }
    }
}

// Identifiers. Each kind counts from 0 in the order in which its entities
// are recorded, and an identifier is never given twice.

/// The identifier of a function.
#[derive(Debug, Clone, Copy, PartialEq, Eq, Hash, Structural)]
pub struct FuncId(pub usize);

/// The identifier of a global.
#[derive(Debug, Clone, Copy, PartialEq, Eq, Hash, Structural)]
pub struct GlobalId(pub usize);

/// The identifier of a value of a block: the index of the operation that makes it.
#[derive(Debug, Clone, Copy, PartialEq, Eq, Hash, Structural)]
pub struct ValueId(pub usize);

/// An identifier of any of the three kinds.
#[derive(Debug, Clone, Copy, PartialEq, Eq, Hash, Structural)]
pub enum Id {
    Func(FuncId),
    Global(GlobalId),
    Value(ValueId),
}

/// An operand: a literal, or a value by its identifier.
#[derive(Debug, Clone)]
pub enum Value {
    Literal(Literal),
    Ref(ValueId),
}

/// The operator of a binary operation.
#[derive(Debug, Clone, Copy, PartialEq, Eq, Structural)]
pub enum BinOp {
    Add,
    Sub,
    Mul,
    Div,
    Eq,
}

/// An operation of a block.
#[derive(Debug, Clone)]
#[allow(inconsistent_fields)]
pub enum Op {
    Const { result: ValueId, literal: Literal, ty: Type },
    Var { result: ValueId, name: String, ty: Type },
    Binary { result: ValueId, op: BinOp, lhs: ValueId, rhs: ValueId },
    Call { result: Option<ValueId>, func: Id, args: Vec<ValueId> },
    Return { doc_element_ref: usize },
    DocElementEmit { index: usize, attributes_ref: usize },
    StringConcat { result: ValueId, parts: Vec<ValueId> },
}

/// What an operation is.
#[allow(inconsistent_fields)]
pub enum OpModel {
    Const { result: ValueId, literal: LiteralModel, ty: Type },
    Var { result: ValueId, name: Seq<char>, ty: Type },
    Binary { result: ValueId, op: BinOp, lhs: ValueId, rhs: ValueId },
    Call { result: Option<ValueId>, func: Id, args: Seq<ValueId> },
    Return { doc_element_ref: usize },
    DocElementEmit { index: usize, attributes_ref: usize },
    StringConcat { result: ValueId, parts: Seq<ValueId> },
}

impl View for Op {
    type V = OpModel;

    open spec fn view(&self) -> OpModel {
        match self {
            Op::Const { result, literal, ty } => OpModel::Const {
                result: *result,
                literal: literal@,
                ty: *ty,
            },
            Op::Var { result, name, ty } => OpModel::Var { result: *result, name: name@, ty: *ty },
            Op::Binary { result, op, lhs, rhs } => OpModel::Binary {
                result: *result,
                op: *op,
                lhs: *lhs,
                rhs: *rhs,
            },
            Op::Call { result, func, args } => OpModel::Call {
                result: *result,
                func: *func,
                args: args@,
            },
            Op::Return { doc_element_ref } => OpModel::Return { doc_element_ref: *doc_element_ref },
            Op::DocElementEmit { index, attributes_ref } => OpModel::DocElementEmit {
                index: *index,
                attributes_ref: *attributes_ref,
            },
            Op::StringConcat { result, parts } => OpModel::StringConcat {
                result: *result,
                parts: parts@,
            },
        }
    }
}

/// The models of a sequence of operations.
pub open spec fn op_models(ops: Seq<Op>) -> Seq<OpModel> {
    Seq::new(ops.len(), |i: int| ops[i]@)
}

/// A global: its identifier, its name, its type and its initial value.
#[derive(Debug, Clone)]
pub struct Global {
    pub id: GlobalId,
    pub name: String,
    pub ty: Type,
    pub init: Literal,
}

/// What a global is.
pub struct GlobalModel {
    pub id: GlobalId,
    pub name: Seq<char>,
    pub ty: Type,
    pub init: LiteralModel,
}

impl View for Global {
    type V = GlobalModel;

    open spec fn view(&self) -> GlobalModel {
        GlobalModel { id: self.id, name: self.name@, ty: self.ty, init: self.init@ }
    }
}

/// A value of a block and its type.
#[derive(Debug, Clone, Copy)]
pub struct Local {
    pub id: ValueId,
    pub ty: Type,
}

/// The operations of one function, and the index of the element that its
/// `return` produced, where it has one.
#[derive(Debug, Clone)]
pub struct FuncBlock {
    pub ops: Vec<Op>,
    pub returned_element_ref: Option<usize>,
}

/// What a block of a function holds.
pub struct BlockModel {
    pub ops: Seq<OpModel>,
    pub returned_element_ref: Option<usize>,
}

impl View for FuncBlock {
    type V = BlockModel;

    open spec fn view(&self) -> BlockModel {
        BlockModel { ops: op_models(self.ops@), returned_element_ref: self.returned_element_ref }
    }
}

/// A run of operations and the indices of the elements that it refers to.
#[derive(Debug, Clone)]
pub struct Block {
    pub ops: Vec<Op>,
    pub element_refs: Vec<usize>,
}

/// A function: its identifier, its name, the types of its parameters and its block.
#[derive(Debug, Clone)]
pub struct Func {
    pub id: FuncId,
    pub name: String,
    pub args: Vec<Type>,
    pub return_type: Option<Type>,
    pub body: FuncBlock,
}

/// What a function is.
pub struct FuncModel {
    pub id: FuncId,
    pub name: Seq<char>,
    pub args: Seq<Type>,
    pub return_type: Option<Type>,
    pub body: BlockModel,
}

impl View for Func {
    type V = FuncModel;

    open spec fn view(&self) -> FuncModel {
        FuncModel {
            id: self.id,
            name: self.name@,
            args: self.args@,
            return_type: self.return_type,
            body: self.body@,
        }
    }
}

/// What the cascade needs to know of an element: its id and classes, the
/// tag of its kind, the index of its parent element, and the id of its
/// node in the attribute tree.
#[derive(Debug, Clone)]
pub struct ElementMetadata {
    pub id: Option<String>,
    pub classes: Vec<String>,
    pub element_type: String,
    pub parent: Option<usize>,
    pub attributes_ref: usize,
}

/// What the metadata of an element holds.
pub struct MetaModel {
    pub id: Option<Seq<char>>,
    pub classes: Seq<Seq<char>>,
    pub element_type: Seq<char>,
    pub parent: Option<usize>,
    pub attributes_ref: usize,
}

impl View for ElementMetadata {
    type V = MetaModel;

    open spec fn view(&self) -> MetaModel {
        MetaModel {
            id: text_of(self.id),
            classes: texts_of(self.classes@),
            element_type: self.element_type@,
            parent: self.parent,
            attributes_ref: self.attributes_ref,
        }
    }
}

/// The lowered document.
#[derive(Debug, Clone)]
pub struct HLIRModule {
    /// The globals; the one with id `k` is at `k`.
    pub globals: Vec<Global>,
    /// The functions; the one with id `k` is at `k`.
    pub functions: Vec<Func>,
    pub attributes: AttributeTree,
    pub css_rules: Vec<StyleRule>,
    pub elements: Vec<DocElement>,
    /// One entry for each element, at the element's index.
    pub element_metadata: Vec<ElementMetadata>,
}

/// What a module holds.
pub struct ModuleModel {
    pub globals: Seq<GlobalModel>,
    pub functions: Seq<FuncModel>,
    pub attributes: Seq<NodeModel>,
    pub css_rules: Seq<RuleModel>,
    pub elements: Seq<ElementModel>,
    pub metadata: Seq<MetaModel>,
}

/// The models of a sequence of globals.
pub open spec fn global_models(v: Seq<Global>) -> Seq<GlobalModel> {
    Seq::new(v.len(), |i: int| v[i]@)
}

/// The models of a sequence of functions.
pub open spec fn func_models(v: Seq<Func>) -> Seq<FuncModel> {
    Seq::new(v.len(), |i: int| v[i]@)
}

/// The models of a sequence of rules.
pub open spec fn rule_models(v: Seq<StyleRule>) -> Seq<RuleModel> {
    Seq::new(v.len(), |i: int| v[i]@)
}

/// The models of a sequence of metadata entries.
pub open spec fn meta_models(v: Seq<ElementMetadata>) -> Seq<MetaModel> {
    Seq::new(v.len(), |i: int| v[i]@)
}

impl View for HLIRModule {
    type V = ModuleModel;

    open spec fn view(&self) -> ModuleModel {
        ModuleModel {
            globals: global_models(self.globals@),
            functions: func_models(self.functions@),
            attributes: self.attributes@,
            css_rules: rule_models(self.css_rules@),
            elements: element_models(self.elements@),
            metadata: meta_models(self.element_metadata@),
        }
    }
}

/// What the cascade asks of a module: the attribute nodes form a tree,
/// each element's parent comes before it, and each element has a node of
/// its own, which is not the root.
pub open spec fn cascade_ready(metadata: Seq<MetaModel>, nodes: Seq<NodeModel>) -> bool {
    &&& tree_wf(nodes)
    &&& forall|i: int|
        0 <= i < metadata.len() ==> ((#[trigger] metadata[i]).parent matches Some(p) ==> p < i)
    &&& forall|i: int|
        0 <= i < metadata.len() ==> 2 <= (#[trigger] metadata[i]).attributes_ref <= nodes.len()
    &&& forall|i: int, j: int|
        0 <= i < j < metadata.len() ==> (#[trigger] metadata[i]).attributes_ref != (
        #[trigger] metadata[j]).attributes_ref
}

/// The metadata of an element: the text of its `id` attribute, the words
/// of its `class` attribute, the tag of its kind, its parent and its node.
pub open spec fn metadata_of(e: ElementModel, parent: Option<usize>, attributes_ref: usize) -> MetaModel {
    let attrs = map_of(e.attributes());
    MetaModel {
        id: attribute_text(attrs, "id"@),
        classes: match attribute_text(attrs, "class"@) {
            Some(t) => words(t),
            None => Seq::empty(),
        },
        element_type: e.type_tag(),
        parent,
        attributes_ref,
    }
}

/// The id of the node under which the node of an element goes: the node
/// of the parent element, or the root.
pub open spec fn parent_node(metadata: Seq<MetaModel>, parent: Option<usize>) -> usize {
    match parent {
        Some(p) => metadata[p as int].attributes_ref,
        None => 1,
    }
}

impl ModuleModel {
    /// Whether the element `i` is recorded as lowering records it: its
    /// node is the one after those of the elements before it, its metadata
    /// holds what its markup says of its id and classes and the tag of its
    /// kind, and its node stands under the node of its parent element, or
    /// under the root, with the inline style that its markup writes.
    pub open spec fn recorded(self, i: int) -> bool {
        let meta = self.metadata[i];
        &&& meta.attributes_ref == i + 2
        &&& meta == metadata_of(self.elements[i], meta.parent, meta.attributes_ref)
        &&& self.attributes[i + 1].parent == Some(parent_node(self.metadata, meta.parent))
        &&& self.attributes[i + 1].inline == inline_style(map_of(self.elements[i].attributes()))
    }

    /// Whether the module is as lowering leaves it: ready for the cascade,
    /// with each element, its metadata and its attribute node at one index,
    /// parents before children, and each identifier at its place.
    pub open spec fn wf(self) -> bool {
        &&& cascade_ready(self.metadata, self.attributes)
        &&& self.elements.len() == self.metadata.len()
        &&& self.attributes.len() == self.metadata.len() + 1
        &&& forall|i: int| 0 <= i < self.metadata.len() ==> #[trigger] self.recorded(i)
        &&& forall|i: int| 0 <= i < self.globals.len() ==> (#[trigger] self.globals[i]).id.0 == i
        &&& forall|i: int|
            0 <= i < self.functions.len() ==> (#[trigger] self.functions[i]).id.0 == i
    }
}

/// A change of the globals, the functions or the rules alone leaves the
/// elements recorded as they were.
pub proof fn lemma_elements_stay_recorded(before: ModuleModel, after: ModuleModel)
    requires
        before.wf(),
        after.metadata == before.metadata,
        after.attributes == before.attributes,
        after.elements == before.elements,
        forall|i: int| 0 <= i < after.globals.len() ==> (#[trigger] after.globals[i]).id.0 == i,
        forall|i: int| 0 <= i < after.functions.len() ==> (#[trigger] after.functions[i]).id.0 == i,
    ensures
        after.wf(),
{
    assert forall|i: int| 0 <= i < after.metadata.len() implies #[trigger] after.recorded(i) by {
        assert(before.recorded(i));
    }
}

impl HLIRModule {
    /// Whether the module is as lowering leaves it.
    pub open spec fn wf(&self) -> bool {
        self@.wf()
    }

    /// A module that holds nothing but the root of its attribute tree.
    pub fn new() -> (r: Self)
        ensures
            r.wf(),
            r@.globals.len() == 0,
            r@.functions.len() == 0,
            r@.css_rules.len() == 0,
            r@.elements.len() == 0,
            r@.metadata.len() == 0,
            r@.attributes.len() == 1,
            r@.attributes[0] == (NodeModel {
                parent: None,
                id: 1,
                inline: crate::style::StyleModel::empty(),
                computed: crate::style::StyleModel::empty(),
            }),
    {
        HLIRModule {
            globals: Vec::new(),
            functions: Vec::new(),
            attributes: AttributeTree::new(),
            css_rules: Vec::new(),
            elements: Vec::new(),
            element_metadata: Vec::new(),
        }
    }

    /// Whether the module is ready for the cascade.
    pub fn is_cascade_ready(&self) -> (r: bool)
        ensures
            r == cascade_ready(self@.metadata, self@.attributes),
    {
        if !self.attributes.is_well_formed() {
            return false;
        }
        let ghost metas = self@.metadata;
        let nodes = self.attributes.size();
        let mut taken: Vec<bool> = Vec::new();
        let mut n: usize = 0;
        while n < nodes
            invariant
                n <= nodes,
                taken@.len() == n,
                forall|k: int| 0 <= k < n ==> !(#[trigger] taken@[k]),
            decreases nodes - n,
        {
            taken.push(false);
            n += 1;
        }
        let mut i: usize = 0;
        while i < self.element_metadata.len()
            invariant
                i <= self.element_metadata@.len(),
                metas == self@.metadata,
                nodes == self@.attributes.len(),
                taken@.len() == nodes,
                forall|k: int| 0 <= k < i ==> ((#[trigger] metas[k]).parent matches Some(p) ==> p < k),
                forall|k: int| 0 <= k < i ==> 2 <= (#[trigger] metas[k]).attributes_ref <= nodes,
                forall|a: int, b: int|
                    0 <= a < b < i ==> (#[trigger] metas[a]).attributes_ref != (
                    #[trigger] metas[b]).attributes_ref,
                forall|r: int|
                    0 <= r < nodes ==> (#[trigger] taken@[r] <==> exists|k: int|
                        0 <= k < i && (#[trigger] metas[k]).attributes_ref == r + 1),
            decreases self.element_metadata@.len() - i,
        {
            let meta = &self.element_metadata[i];
            assert(metas[i as int] == meta@);
            let ordered = match meta.parent {
                Some(p) => p < i,
                None => true,
            };
            if !ordered || meta.attributes_ref < 2 || meta.attributes_ref > nodes {
                return false;
            }
            let slot = meta.attributes_ref - 1;
            if taken[slot] {
                proof {
                    let k = choose|k: int|
                        0 <= k < i && (#[trigger] metas[k]).attributes_ref == slot + 1;
                    assert(metas[k].attributes_ref == metas[i as int].attributes_ref);
                }
                return false;
            }
            let ghost before = taken@;
            taken.set(slot, true);
            proof {
                assert forall|r: int| 0 <= r < nodes implies (#[trigger] taken@[r] <==> exists|
                    k: int,
                |
                    0 <= k < i + 1 && (#[trigger] metas[k]).attributes_ref == r + 1) by {
                    if r == slot {
                        assert(metas[i as int].attributes_ref == r + 1);
                    } else if before[r] {
                        let k = choose|k: int|
                            0 <= k < i && (#[trigger] metas[k]).attributes_ref == r + 1;
                        assert(0 <= k < i + 1 && metas[k].attributes_ref == r + 1);
                    } else if exists|k: int|
                        0 <= k < i + 1 && (#[trigger] metas[k]).attributes_ref == r + 1 {
                        let k = choose|k: int|
                            0 <= k < i + 1 && (#[trigger] metas[k]).attributes_ref == r + 1;
                        assert(k < i);
                    }
                }
                assert forall|a: int, b: int| 0 <= a < b < i + 1 implies (
                #[trigger] metas[a]).attributes_ref != (#[trigger] metas[b]).attributes_ref by {
                    if b == i {
                        if metas[a].attributes_ref == metas[b].attributes_ref {
                            assert(before[slot as int]);
                        }
                    }
                }
            }
            i += 1;
        }
        true
    }

    /// The global with this id.
    pub fn global(&self, id: GlobalId) -> (r: Option<&Global>)
        ensures
            r is Some <==> id.0 < self.globals@.len(),
            r matches Some(g) ==> *g == self.globals@[id.0 as int],
    {
        if id.0 < self.globals.len() {
            Some(&self.globals[id.0])
        } else {
            None
        }
    }

    /// The function with this id.
    pub fn function(&self, id: FuncId) -> (r: Option<&Func>)
        ensures
            r is Some <==> id.0 < self.functions@.len(),
            r matches Some(f) ==> *f == self.functions@[id.0 as int],
    {
        if id.0 < self.functions.len() {
            Some(&self.functions[id.0])
        } else {
            None
        }
    }
}

} // verus!
