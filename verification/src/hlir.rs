//! Lowering: from the syntax tree to the intermediate representation.
//!
//! The template section gives the globals and the functions, the style
//! section the rules, and the document section the elements with their
//! metadata and attribute nodes, parents before children, and the
//! operations of the document function.

pub use crate::ir_types::{ElementMetadata, Func, FuncId, HLIRModule, Id, Literal, Op, Type};
pub use crate::style::StyleAttributes;
pub use crate::style_resolver::resolve_styles;
use vstd::prelude::*;
use crate::assoc::map_of;
use crate::ast::{
    arg_models, concat_all, element_models, part_models, ArgType, Ast, AttributeMap, DocElement,
    ElementModel, ExprModel, Expression, FuncParam, InterpPart, KeyValue, PartModel, Statement,
    StyleRule,
};
use crate::attribute_tree::{AttributeNode, NodeModel};
use crate::decimal::{decimal_of_text, Decimal};
use crate::ir_types::{
    lemma_elements_stay_recorded, metadata_of, parent_node, rule_models, BlockModel, FuncBlock,
    FuncModel, Global, GlobalId, GlobalModel, LiteralModel, MetaModel, ModuleModel, OpModel,
    ValueId,
};
use crate::style::{attribute_string, attribute_text, inline_style, texts_of, StyleModel};
use crate::symbols::{bind, is_bound, lemma_resolve_iff_bound, resolve, scope_maps, Scope};
use crate::text::{
    i64_of_text, i64_to_string, int_text, joined, nat_text, parse_i64, split_whitespace, str_eq,
    usize_to_string, words,
};

verus! {

/// Why a document cannot be lowered.
#[derive(Debug, Clone, Copy, PartialEq, Eq, Structural)]
pub enum LowerError {
    /// A name is defined that a scope on the stack binds already.
    DuplicateSymbol,
    /// A call names a function that no scope binds.
    FunctionNotFound,
    /// An argument names a variable that no scope binds to a value.
    UnresolvedArgument,
    /// An argument or a parameter has a type tag that is not known.
    UnknownType,
    /// A raw argument does not write a literal of its kind.
    InvalidLiteral,
    /// An expression of a kind that lowering does not handle.
    UnsupportedExpression,
    /// A statement of a kind that lowering does not handle.
    UnsupportedStatement,
    /// The attribute tree has no room for another node.
    TooLarge,
}

impl LowerError {
    /// What went wrong, in words.
    pub open spec fn text(self) -> Seq<char> {
        match self {
            LowerError::DuplicateSymbol => "symbol already exists"@,
            LowerError::FunctionNotFound => "function not found"@,
            LowerError::UnresolvedArgument => "argument not handled"@,
            LowerError::UnknownType => "type not known"@,
            LowerError::InvalidLiteral => "argument is not a literal of its kind"@,
            LowerError::UnsupportedExpression => "expression kind not implemented"@,
            LowerError::UnsupportedStatement => "statement kind not implemented"@,
            LowerError::TooLarge => "too many elements"@,
        }
    }

    /// What went wrong, in words.
    pub fn message(&self) -> (s: String)
        ensures
            s@ == self.text(),
    {
        match self {
            LowerError::DuplicateSymbol => "symbol already exists".to_owned(),
            LowerError::FunctionNotFound => "function not found".to_owned(),
            LowerError::UnresolvedArgument => "argument not handled".to_owned(),
            LowerError::UnknownType => "type not known".to_owned(),
            LowerError::InvalidLiteral => "argument is not a literal of its kind".to_owned(),
            LowerError::UnsupportedExpression => "expression kind not implemented".to_owned(),
            LowerError::UnsupportedStatement => "statement kind not implemented".to_owned(),
            LowerError::TooLarge => "too many elements".to_owned(),
        }
    }
}

// ---------------------------------------------------------------------------
// What lowering computes
// ---------------------------------------------------------------------------

/// The state of the pass: the stack of scopes, the outermost first, and the module so far.
pub struct Lowering {
    pub scopes: Seq<Map<Seq<char>, Id>>,
    pub module: ModuleModel,
}

/// The text that one part of an interpolated string gives a literal: a
/// part of text its text, a literal its text, and any other expression
/// its text in braces, as a placeholder that nothing resolves.
pub open spec fn placeholder_text(p: PartModel) -> Seq<char> {
    match p {
        PartModel::Text(s) => s,
        PartModel::Expression(e) => match e {
            ExprModel::StringLiteral(s) => s,
            ExprModel::Int(n) => int_text(n),
            ExprModel::Float(d) => d,
            ExprModel::Identifier(name) => "{"@ + name + "}"@,
            _ => "{"@ + e.markup_text() + "}"@,
        },
    }
}

/// The texts that the parts of an interpolated string give a literal.
pub open spec fn placeholder_texts(parts: Seq<PartModel>) -> Seq<Seq<char>> {
    Seq::new(parts.len(), |i: int| placeholder_text(parts[i]))
}

/// The text that an interpolated string gives a literal: that of its parts, in order.
pub open spec fn interpolated_text(parts: Seq<PartModel>) -> Seq<char> {
    concat_all(placeholder_texts(parts))
}

/// The literal and the type that an expression gives a global or a
/// local: those of a string, an integer or a decimal literal. An
/// interpolated string gives a string.
pub open spec fn literal_of(e: ExprModel) -> Result<(LiteralModel, Type), LowerError> {
    match e {
        ExprModel::StringLiteral(s) => Ok((LiteralModel::String(s), Type::String)),
        ExprModel::Int(n) => Ok((LiteralModel::Int(n), Type::Int)),
        ExprModel::Float(d) => Ok((LiteralModel::Float(d), Type::Float)),
        ExprModel::InterpolatedString(parts) => Ok(
            (LiteralModel::String(interpolated_text(parts)), Type::String),
        ),
        _ => Err(LowerError::UnsupportedExpression),
    }
}

/// The scopes after `name` is defined: bound in the innermost scope,
/// unless a scope on the stack binds it already.
pub open spec fn define(scopes: Seq<Map<Seq<char>, Id>>, name: Seq<char>, id: Id) -> Result<
    Seq<Map<Seq<char>, Id>>,
    LowerError,
> {
    if is_bound(scopes, name) {
        Err(LowerError::DuplicateSymbol)
    } else {
        Ok(bind(scopes, name, id))
    }
}

/// The module after an element is recorded: the element, its metadata and
/// its attribute node are appended, each in its sequence.
pub open spec fn with_element(m: ModuleModel, e: ElementModel, parent: Option<usize>) -> Result<
    ModuleModel,
    LowerError,
> {
    if m.attributes.len() >= usize::MAX {
        Err(LowerError::TooLarge)
    } else {
        let attributes_ref = (m.attributes.len() + 1) as usize;
        Ok(
            ModuleModel {
                elements: m.elements.push(e),
                metadata: m.metadata.push(metadata_of(e, parent, attributes_ref)),
                attributes: m.attributes.push(
                    NodeModel {
                        parent: Some(parent_node(m.metadata, parent)),
                        id: attributes_ref,
                        inline: inline_style(map_of(e.attributes())),
                        computed: StyleModel::empty(),
                    },
                ),
                ..m
            },
        )
    }
}

/// The state of the lowering of the arguments of one call: the scopes,
/// the block, and the values of the arguments so far.
pub struct ArgState {
    pub scopes: Seq<Map<Seq<char>, Id>>,
    pub block: BlockModel,
    pub values: Seq<ValueId>,
}

/// A raw argument becomes a constant of the block under a fresh name.
pub open spec fn raw_argument(st: ArgState, literal: LiteralModel, ty: Type) -> ArgState {
    let id = ValueId(st.block.ops.len() as usize);
    ArgState {
        scopes: bind(st.scopes, "raw_arg_"@ + nat_text(st.block.ops.len()), Id::Value(id)),
        block: BlockModel {
            ops: st.block.ops.push(OpModel::Const { result: id, literal, ty }),
            ..st.block
        },
        values: st.values.push(id),
    }
}

/// One argument: a variable is looked up, a raw literal becomes a constant.
pub open spec fn argument_step(st: ArgState, arg: (Seq<char>, Seq<char>)) -> Result<
    ArgState,
    LowerError,
> {
    if arg.1 == "var"@ {
        match resolve(st.scopes, arg.0) {
            Some(Id::Value(v)) => Ok(ArgState { values: st.values.push(v), ..st }),
            _ => Err(LowerError::UnresolvedArgument),
        }
    } else if arg.1 == "int"@ {
        match i64_of_text(arg.0) {
            Some(n) => Ok(raw_argument(st, LiteralModel::Int(n as int), Type::Int)),
            None => Err(LowerError::InvalidLiteral),
        }
    } else if arg.1 == "float"@ {
        match decimal_of_text(arg.0) {
            Some(d) => Ok(raw_argument(st, LiteralModel::Float(d), Type::Float)),
            None => Err(LowerError::InvalidLiteral),
        }
    } else if arg.1 == "string"@ {
        Ok(raw_argument(st, LiteralModel::String(arg.0), Type::String))
    } else {
        Err(LowerError::UnknownType)
    }
}

/// The first `n` arguments, in order.
pub open spec fn arguments_upto(st: ArgState, args: Seq<(Seq<char>, Seq<char>)>, n: nat) -> Result<
    ArgState,
    LowerError,
>
    decreases n,
{
    if n == 0 {
        Ok(st)
    } else {
        match arguments_upto(st, args, (n - 1) as nat) {
            Ok(before) => argument_step(before, args[n - 1]),
            Err(e) => Err(e),
        }
    }
}

/// The arguments of a call, lowered in a scope of their own: the block
/// with the constants of the raw arguments, and the value of each argument.
pub open spec fn arguments_of(
    scopes: Seq<Map<Seq<char>, Id>>,
    block: BlockModel,
    args: Seq<(Seq<char>, Seq<char>)>,
) -> Result<(BlockModel, Seq<ValueId>), LowerError> {
    match arguments_upto(
        ArgState { scopes: scopes.push(Map::empty()), block, values: Seq::empty() },
        args,
        args.len(),
    ) {
        Ok(st) => Ok((st.block, st.values)),
        Err(e) => Err(e),
    }
}

/// The state and the block after one element of the document is lowered
/// under the parent `parent`: a call is resolved and emitted; any other
/// element is recorded and emitted, and the children of a section or a
/// list follow it, in order, with it as their parent.
pub open spec fn element_lowered(
    st: Lowering,
    block: BlockModel,
    e: ElementModel,
    parent: Option<usize>,
) -> Result<(Lowering, BlockModel), LowerError>
    decreases e,
{
    match e {
        ElementModel::Call { name, args } => match resolve(st.scopes, name) {
            None => Err(LowerError::FunctionNotFound),
            Some(func) => match arguments_of(st.scopes, block, args) {
                Err(x) => Err(x),
                Ok((with_args, values)) => Ok(
                    (
                        st,
                        BlockModel {
                            ops: with_args.ops.push(
                                OpModel::Call { result: None, func, args: values },
                            ),
                            ..with_args
                        },
                    ),
                ),
            },
        },
        _ => match with_element(st.module, e, parent) {
            Err(x) => Err(x),
            Ok(module) => {
                let index = st.module.elements.len() as usize;
                let attributes_ref = (st.module.attributes.len() + 1) as usize;
                let recorded = Lowering { module, ..st };
                let emitted = BlockModel {
                    ops: block.ops.push(OpModel::DocElementEmit { index, attributes_ref }),
                    ..block
                };
                match e {
                    ElementModel::Section { elements, .. } => children_lowered(
                        recorded,
                        emitted,
                        elements,
                        elements.len(),
                        Some(index),
                    ),
                    ElementModel::List { items, .. } => children_lowered(
                        recorded,
                        emitted,
                        items,
                        items.len(),
                        Some(index),
                    ),
                    _ => Ok((recorded, emitted)),
                }
            },
        },
    }
}

/// The state and the block after the first `n` of `children` are lowered, in order.
pub open spec fn children_lowered(
    st: Lowering,
    block: BlockModel,
    children: Seq<ElementModel>,
    n: nat,
    parent: Option<usize>,
) -> Result<(Lowering, BlockModel), LowerError>
    decreases children, n,
{
    if n == 0 || n > children.len() {
        Ok((st, block))
    } else {
        match children_lowered(st, block, children, (n - 1) as nat, parent) {
            Ok((before, ops)) => element_lowered(before, ops, children[n - 1], parent),
            Err(x) => Err(x),
        }
    }
}

/// One statement of a function body: a constant is emitted and its name
/// defined; a returned element is recorded and the return emitted.
pub open spec fn body_step(st: Lowering, block: BlockModel, stmt: Statement) -> Result<
    (Lowering, BlockModel),
    LowerError,
> {
    match stmt {
        Statement::ConstAssign { name, value } => match literal_of(value@) {
            Err(x) => Err(x),
            Ok((literal, ty)) => {
                let id = ValueId(block.ops.len() as usize);
                match define(st.scopes, name@, Id::Value(id)) {
                    Err(x) => Err(x),
                    Ok(scopes) => Ok(
                        (
                            Lowering { scopes, ..st },
                            BlockModel {
                                ops: block.ops.push(OpModel::Const { result: id, literal, ty }),
                                ..block
                            },
                        ),
                    ),
                }
            },
        },
        Statement::Return { doc_element } => match with_element(st.module, doc_element@, None) {
            Err(x) => Err(x),
            Ok(module) => {
                let index = st.module.elements.len() as usize;
                Ok(
                    (
                        Lowering { module, ..st },
                        BlockModel {
                            ops: block.ops.push(OpModel::Return { doc_element_ref: index }),
                            returned_element_ref: Some(index),
                        },
                    ),
                )
            },
        },
        _ => Err(LowerError::UnsupportedStatement),
    }
}

/// The first `n` statements of a function body, in order.
pub open spec fn body_upto(st: Lowering, block: BlockModel, body: Seq<Statement>, n: nat) -> Result<
    (Lowering, BlockModel),
    LowerError,
>
    decreases n,
{
    if n == 0 {
        Ok((st, block))
    } else {
        match body_upto(st, block, body, (n - 1) as nat) {
            Ok((before, ops)) => body_step(before, ops, body[n - 1]),
            Err(x) => Err(x),
        }
    }
}

/// A function body, lowered in a scope of its own.
pub open spec fn function_block_of(st: Lowering, body: Seq<Statement>) -> Result<
    (Lowering, BlockModel),
    LowerError,
> {
    match body_upto(
        Lowering { scopes: st.scopes.push(Map::empty()), ..st },
        BlockModel { ops: Seq::empty(), returned_element_ref: None },
        body,
        body.len(),
    ) {
        Ok((after, block)) => Ok((Lowering { scopes: after.scopes.drop_last(), ..after }, block)),
        Err(x) => Err(x),
    }
}

/// The type that a parameter's tag names: `Int`, `Float` or `String`.
pub open spec fn type_of_tag(tag: Seq<char>) -> Option<Type> {
    if tag == "Int"@ {
        Some(Type::Int)
    } else if tag == "Float"@ {
        Some(Type::Float)
    } else if tag == "String"@ {
        Some(Type::String)
    } else {
        None
    }
}

/// The types of the first `n` parameters.
pub open spec fn parameter_types(params: Seq<FuncParam>, n: nat) -> Result<Seq<Type>, LowerError>
    decreases n,
{
    if n == 0 {
        Ok(Seq::empty())
    } else {
        match parameter_types(params, (n - 1) as nat) {
            Ok(types) => match type_of_tag(params[n - 1].ty@) {
                Some(ty) => Ok(types.push(ty)),
                None => Err(LowerError::UnknownType),
            },
            Err(x) => Err(x),
        }
    }
}

/// A global is recorded under the next identifier and its name defined.
pub open spec fn global_step(st: Lowering, name: Seq<char>, value: ExprModel) -> Result<
    Lowering,
    LowerError,
> {
    match literal_of(value) {
        Err(x) => Err(x),
        Ok((init, ty)) => {
            let id = GlobalId(st.module.globals.len() as usize);
            match define(st.scopes, name, Id::Global(id)) {
                Err(x) => Err(x),
                Ok(scopes) => Ok(
                    Lowering {
                        scopes,
                        module: ModuleModel {
                            globals: st.module.globals.push(GlobalModel { id, name, ty, init }),
                            ..st.module
                        },
                    },
                ),
            }
        },
    }
}

/// One statement of the template section: a default, a constant or a
/// variable becomes a global, a default under its key with `__` before
/// it; a function declaration becomes a function, whose name is defined
/// once its body is lowered.
pub open spec fn template_step(st: Lowering, stmt: Statement) -> Result<Lowering, LowerError> {
    match stmt {
        Statement::DefaultSet { key, value } => global_step(st, "__"@ + key@, value@),
        Statement::ConstAssign { name, value } => global_step(st, name@, value@),
        Statement::VarAssign { name, value } => global_step(st, name@, value@),
        Statement::FunctionDecl { name, args, body } => match function_block_of(st, body@) {
            Err(x) => Err(x),
            Ok((after, block)) => {
                let id = FuncId(st.module.functions.len() as usize);
                match define(after.scopes, name@, Id::Func(id)) {
                    Err(x) => Err(x),
                    Ok(scopes) => match parameter_types(args@, args@.len()) {
                        Err(x) => Err(x),
                        Ok(types) => Ok(
                            Lowering {
                                scopes,
                                module: ModuleModel {
                                    functions: after.module.functions.push(
                                        FuncModel {
                                            id,
                                            name: name@,
                                            args: types,
                                            return_type: Some(Type::DocElement),
                                            body: block,
                                        },
                                    ),
                                    ..after.module
                                },
                            },
                        ),
                    },
                }
            },
        },
        _ => Err(LowerError::UnsupportedStatement),
    }
}

/// The first `n` statements of the template section, in order.
pub open spec fn template_upto(st: Lowering, statements: Seq<Statement>, n: nat) -> Result<
    Lowering,
    LowerError,
>
    decreases n,
{
    if n == 0 {
        Ok(st)
    } else {
        match template_upto(st, statements, (n - 1) as nat) {
            Ok(before) => template_step(before, statements[n - 1]),
            Err(x) => Err(x),
        }
    }
}

/// The document section, lowered in a scope of its own: its elements in
/// order, and then the document function, whose body holds what they emitted.
pub open spec fn document_lowered(st: Lowering, elements: Seq<ElementModel>) -> Result<
    Lowering,
    LowerError,
> {
    match children_lowered(
        Lowering { scopes: st.scopes.push(Map::empty()), ..st },
        BlockModel { ops: Seq::empty(), returned_element_ref: None },
        elements,
        elements.len(),
        None,
    ) {
        Err(x) => Err(x),
        Ok((after, block)) => Ok(
            Lowering {
                scopes: after.scopes.drop_last(),
                module: ModuleModel {
                    functions: after.module.functions.push(
                        FuncModel {
                            id: FuncId(after.module.functions.len() as usize),
                            name: "__document"@,
                            args: Seq::empty(),
                            return_type: Some(Type::DocElement),
                            body: block,
                        },
                    ),
                    ..after.module
                },
            },
        ),
    }
}

/// The module that holds nothing but the root of the attribute tree.
pub open spec fn empty_module() -> ModuleModel {
    ModuleModel {
        globals: Seq::empty(),
        functions: Seq::empty(),
        attributes: seq![
            NodeModel {
                parent: None,
                id: 1,
                inline: StyleModel::empty(),
                computed: StyleModel::empty(),
            },
        ],
        css_rules: Seq::empty(),
        elements: Seq::empty(),
        metadata: Seq::empty(),
    }
}

/// The statements of the template section; none where there is no such section.
pub open spec fn template_statements(ast: Ast) -> Seq<Statement> {
    match ast.template {
        Some(t) => t.statements@,
        None => Seq::empty(),
    }
}

/// The elements of the document section; none where there is no such section.
pub open spec fn document_elements(ast: Ast) -> Seq<ElementModel> {
    match ast.document {
        Some(d) => element_models(d.elements@),
        None => Seq::empty(),
    }
}

/// The rules of the style section; none where there is no such section.
pub open spec fn style_rules(ast: Ast) -> Seq<crate::ast::RuleModel> {
    match ast.style {
        Some(s) => rule_models(s.statements@),
        None => Seq::empty(),
    }
}

/// The module that a syntax tree is lowered to, or the first error that
/// stops the pass: the template section, then the style rules, then the
/// document section, in the scope of the module.
pub open spec fn lowered(ast: Ast) -> Result<ModuleModel, LowerError> {
    let start = Lowering { scopes: seq![Map::empty()], module: empty_module() };
    match template_upto(start, template_statements(ast), template_statements(ast).len()) {
        Err(x) => Err(x),
        Ok(after) => match document_lowered(
            Lowering {
                module: ModuleModel { css_rules: style_rules(ast), ..after.module },
                ..after
            },
            document_elements(ast),
        ) {
            Err(x) => Err(x),
            Ok(done) => Ok(done.module),
        },
    }
}


// ---------------------------------------------------------------------------
// An error at one step is the error of the whole
// ---------------------------------------------------------------------------

proof fn lemma_arguments_error(st: ArgState, args: Seq<(Seq<char>, Seq<char>)>, i: nat, n: nat)
    requires
        i <= n,
        arguments_upto(st, args, i) is Err,
    ensures
        arguments_upto(st, args, n) == arguments_upto(st, args, i),
    decreases n,
{
    if i < n {
        lemma_arguments_error(st, args, i, (n - 1) as nat);
    }
}

proof fn lemma_children_error(
    st: Lowering,
    block: BlockModel,
    children: Seq<ElementModel>,
    i: nat,
    n: nat,
    parent: Option<usize>,
)
    requires
        i <= n <= children.len(),
        children_lowered(st, block, children, i, parent) is Err,
    ensures
        children_lowered(st, block, children, n, parent) == children_lowered(
            st,
            block,
            children,
            i,
            parent,
        ),
    decreases n,
{
    if i < n {
        lemma_children_error(st, block, children, i, (n - 1) as nat, parent);
    }
}

proof fn lemma_body_error(st: Lowering, block: BlockModel, body: Seq<Statement>, i: nat, n: nat)
    requires
        i <= n,
        body_upto(st, block, body, i) is Err,
    ensures
        body_upto(st, block, body, n) == body_upto(st, block, body, i),
    decreases n,
{
    if i < n {
        lemma_body_error(st, block, body, i, (n - 1) as nat);
    }
}

proof fn lemma_template_error(st: Lowering, statements: Seq<Statement>, i: nat, n: nat)
    requires
        i <= n,
        template_upto(st, statements, i) is Err,
    ensures
        template_upto(st, statements, n) == template_upto(st, statements, i),
    decreases n,
{
    if i < n {
        lemma_template_error(st, statements, i, (n - 1) as nat);
    }
}

proof fn lemma_parameters_error(params: Seq<FuncParam>, i: nat, n: nat)
    requires
        i <= n,
        parameter_types(params, i) is Err,
    ensures
        parameter_types(params, n) == parameter_types(params, i),
    decreases n,
{
    if i < n {
        lemma_parameters_error(params, i, (n - 1) as nat);
    }
}

// ---------------------------------------------------------------------------
// Building the module
// ---------------------------------------------------------------------------

/// Appends an operation to a block.
fn push_op(block: &mut FuncBlock, op: Op)
    ensures
        final(block)@ == (BlockModel { ops: old(block)@.ops.push(op@), ..old(block)@ }),
{
    block.ops.push(op);
    assert(block@.ops =~= old(block)@.ops.push(op@));
}

/// Appends a global to a module.
fn push_global(module: &mut HLIRModule, global: Global)
    requires
        old(module).wf(),
        global.id.0 == old(module)@.globals.len(),
    ensures
        final(module).wf(),
        final(module)@ == (ModuleModel {
            globals: old(module)@.globals.push(global@),
            ..old(module)@
        }),
{
    module.globals.push(global);
    assert(module@.globals =~= old(module)@.globals.push(global@));
    proof {
        lemma_elements_stay_recorded(old(module)@, module@);
    }
}

/// Appends a function to a module.
fn push_function(module: &mut HLIRModule, func: Func)
    requires
        old(module).wf(),
        func.id.0 == old(module)@.functions.len(),
    ensures
        final(module).wf(),
        final(module)@ == (ModuleModel {
            functions: old(module)@.functions.push(func@),
            ..old(module)@
        }),
{
    module.functions.push(func);
    assert(module@.functions =~= old(module)@.functions.push(func@));
    proof {
        lemma_elements_stay_recorded(old(module)@, module@);
    }
}

/// The tag of an element's kind.
fn element_type_name(element: &DocElement) -> (s: String)
    ensures
        s@ == element@.type_tag(),
{
    match element {
        DocElement::Text { .. } => "text".to_owned(),
        DocElement::Image { .. } => "image".to_owned(),
        DocElement::Table { .. } => "table".to_owned(),
        DocElement::List { .. } => "list".to_owned(),
        DocElement::Code { .. } => "code".to_owned(),
        DocElement::Call { .. } => "call".to_owned(),
        DocElement::Link { .. } => "link".to_owned(),
        DocElement::Section { .. } => "section".to_owned(),
    }
}

/// The id and the classes that the markup attributes of an element give it.
pub fn extract_id_and_classes(attributes: &AttributeMap) -> (r: (Option<String>, Vec<String>))
    ensures
        crate::style::text_of(r.0) == attribute_text(attributes@, "id"@),
        texts_of(r.1@) == match attribute_text(attributes@, "class"@) {
            Some(t) => words(t),
            None => Seq::empty(),
        },
{
    let id = attribute_string(attributes, "id");
    let classes = match attribute_string(attributes, "class") {
        Some(t) => {
            let w = split_whitespace(t.as_str());
            assert(texts_of(w@) =~= words(t@));
            w
        },
        None => {
            let w: Vec<String> = Vec::new();
            assert(texts_of(w@) =~= Seq::<Seq<char>>::empty());
            w
        },
    };
    (id, classes)
}

/// Records an element with these attributes: appends a copy of it, its
/// metadata and its attribute node, and returns its index and the id of its node.
fn record_with(
    module: &mut HLIRModule,
    element: &DocElement,
    attributes: &AttributeMap,
    parent_index: Option<usize>,
) -> (r: Result<(usize, usize), LowerError>)
    requires
        old(module).wf(),
        parent_index matches Some(p) ==> p < old(module)@.metadata.len(),
        attributes@ == map_of(element@.attributes()),
    ensures
        match with_element(old(module)@, element@, parent_index) {
            Ok(after) => r == Ok::<(usize, usize), LowerError>(
                (
                    old(module)@.elements.len() as usize,
                    (old(module)@.attributes.len() + 1) as usize,
                ),
            ) && final(module)@ == after && final(module).wf(),
            Err(e) => r == Err::<(usize, usize), LowerError>(e),
        },
{
    if module.attributes.size() >= usize::MAX {
        return Err(LowerError::TooLarge);
    }
    let index = module.elements.len();
    let parent_node_id: usize = match parent_index {
        Some(p) => {
            assert(module@.metadata[p as int] == module.element_metadata@[p as int]@);
            module.element_metadata[p].attributes_ref
        },
        None => 1,
    };
    let (id, classes) = extract_id_and_classes(attributes);
    let node = AttributeNode::new_with_attributes(attributes, parent_node_id);
    let attributes_ref = module.attributes.add_attribute(node);
    let metadata = ElementMetadata {
        id,
        classes,
        element_type: element_type_name(element),
        parent: parent_index,
        attributes_ref,
    };
    assert(metadata@ == metadata_of(element@, parent_index, attributes_ref));
    module.elements.push(element.clone());
    module.element_metadata.push(metadata);
    proof {
        let after = with_element(old(module)@, element@, parent_index)->Ok_0;
        assert(module@.elements =~= after.elements);
        assert(module@.metadata =~= after.metadata);
        assert(module@.attributes =~= after.attributes);
        assert(module@.globals =~= after.globals);
        assert(module@.functions =~= after.functions);
        assert(module@.css_rules =~= after.css_rules);
        assert forall|i: int, j: int|
            0 <= i < j < module@.metadata.len() implies (#[trigger] module@.metadata[i]).attributes_ref
            != (#[trigger] module@.metadata[j]).attributes_ref by {
            if j < module@.metadata.len() - 1 {
                assert(module@.metadata[i] == old(module)@.metadata[i]);
                assert(module@.metadata[j] == old(module)@.metadata[j]);
            } else {
                assert(module@.metadata[i] == old(module)@.metadata[i]);
            }
        }
        assert forall|i: int| 0 <= i < module@.metadata.len() implies 2 <= (
        #[trigger] module@.metadata[i]).attributes_ref <= module@.attributes.len() by {
            if i < module@.metadata.len() - 1 {
                assert(module@.metadata[i] == old(module)@.metadata[i]);
            }
        }
        assert forall|i: int| 0 <= i < module@.metadata.len() implies ((
        #[trigger] module@.metadata[i]).parent matches Some(p) ==> p < i) by {
            if i < module@.metadata.len() - 1 {
                assert(module@.metadata[i] == old(module)@.metadata[i]);
            }
        }
        assert forall|i: int| 0 <= i < module@.metadata.len() implies #[trigger] module@.recorded(
            i,
        ) by {
            if i < module@.metadata.len() - 1 {
                assert(old(module)@.recorded(i));
                assert(module@.metadata[i] == old(module)@.metadata[i]);
                assert(module@.elements[i] == old(module)@.elements[i]);
                assert(module@.attributes[i + 1] == old(module)@.attributes[i + 1]);
                match module@.metadata[i].parent {
                    Some(p) => {
                        assert(p < i);
                        assert(module@.metadata[p as int] == old(module)@.metadata[p as int]);
                    },
                    None => {},
                }
            } else {
                match parent_index {
                    Some(p) => {
                        assert(module@.metadata[p as int] == old(module)@.metadata[p as int]);
                    },
                    None => {},
                }
            }
        }
    }
    Ok((index, attributes_ref))
}

/// Records an element: appends a copy of it, its metadata and its
/// attribute node, and returns its index and the id of its node.
fn record_element(module: &mut HLIRModule, element: &DocElement, parent_index: Option<usize>) -> (r:
    Result<(usize, usize), LowerError>)
    requires
        old(module).wf(),
        parent_index matches Some(p) ==> p < old(module)@.metadata.len(),
    ensures
        match with_element(old(module)@, element@, parent_index) {
            Ok(after) => r == Ok::<(usize, usize), LowerError>(
                (
                    old(module)@.elements.len() as usize,
                    (old(module)@.attributes.len() + 1) as usize,
                ),
            ) && final(module)@ == after && final(module).wf(),
            Err(e) => r == Err::<(usize, usize), LowerError>(e),
        },
{
    match element {
        DocElement::Text { attributes, .. } => record_with(module, element, attributes, parent_index),
        DocElement::Image { attributes, .. } => record_with(
            module,
            element,
            attributes,
            parent_index,
        ),
        DocElement::Table { attributes, .. } => record_with(
            module,
            element,
            attributes,
            parent_index,
        ),
        DocElement::List { attributes, .. } => record_with(module, element, attributes, parent_index),
        DocElement::Code { attributes, .. } => record_with(module, element, attributes, parent_index),
        DocElement::Link { attributes, .. } => record_with(module, element, attributes, parent_index),
        DocElement::Section { attributes, .. } => record_with(
            module,
            element,
            attributes,
            parent_index,
        ),
        DocElement::Call { .. } => {
            let none = AttributeMap::new();
            record_with(module, element, &none, parent_index)
        },
    }
}

/// The type that a parameter's tag names.
fn parse_type_tag(tag: &str) -> (r: Option<Type>)
    ensures
        r == type_of_tag(tag@),
{
    if str_eq(tag, "Int") {
        Some(Type::Int)
    } else if str_eq(tag, "Float") {
        Some(Type::Float)
    } else if str_eq(tag, "String") {
        Some(Type::String)
    } else {
        None
    }
}

/// The string literal that an interpolated string gives: the text of its
/// parts, where an expression that is no literal stands in braces.
pub fn eval_interpolated_string_to_literal(parts: &Vec<InterpPart>) -> (r: Literal)
    ensures
        r@ == LiteralModel::String(interpolated_text(part_models(parts@))),
{
    let ghost texts = placeholder_texts(part_models(parts@));
    let mut result = String::new();
    let mut i: usize = 0;
    assert(result@ =~= concat_all(texts.take(0)));
    while i < parts.len()
        invariant
            i <= parts@.len(),
            texts == placeholder_texts(part_models(parts@)),
            result@ == concat_all(texts.take(i as int)),
        decreases parts@.len() - i,
    {
        let ghost before = result@;
        proof {
            assert(texts.take(i + 1).drop_last() =~= texts.take(i as int));
            assert(texts.take(i + 1).last() == placeholder_text(parts@[i as int]@));
        }
        match &parts[i] {
            InterpPart::Text(text) => result.append(text.as_str()),
            InterpPart::Expression(expr) => match expr {
                Expression::StringLiteral(s) => result.append(s.as_str()),
                Expression::Int(n) => {
                    let digits = i64_to_string(*n);
                    result.append(digits.as_str());
                },
                Expression::Float(d) => result.append(d.text.as_str()),
                Expression::Identifier(name) => {
                    result.append("{");
                    result.append(name.as_str());
                    result.append("}");
                    assert(result@ =~= before + ("{"@ + name@ + "}"@));
                },
                _ => {
                    let text = expr.to_string();
                    result.append("{");
                    result.append(text.as_str());
                    result.append("}");
                    assert(result@ =~= before + ("{"@ + text@ + "}"@));
                },
            },
        }
        i += 1;
    }
    assert(texts.take(parts@.len() as int) =~= texts);
    Literal::String(result)
}

/// The literal and the type that an expression gives a global or a local.
fn literal_from(value: &Expression) -> (r: Result<(Literal, Type), LowerError>)
    ensures
        match literal_of(value@) {
            Ok((literal, ty)) => r matches Ok(got) && got.0@ == literal && got.1 == ty,
            Err(e) => r matches Err(got) && got == e,
        },
{
    match value {
        Expression::StringLiteral(s) => Ok((Literal::String(s.clone()), Type::String)),
        Expression::Int(n) => Ok((Literal::Int(*n), Type::Int)),
        Expression::Float(d) => Ok((Literal::Float(d.clone()), Type::Float)),
        Expression::InterpolatedString(parts) => {
            assert(value@->InterpolatedString_0 =~= part_models(parts@));
            Ok((eval_interpolated_string_to_literal(parts), Type::String))
        },
        _ => Err(LowerError::UnsupportedExpression),
    }
}

// ---------------------------------------------------------------------------
// The pass
// ---------------------------------------------------------------------------

/// The lowering pass: it owns the stack of scopes.
#[derive(Debug)]
pub struct HLIRPass {
    /// The scopes, the outermost first.
    pub symbol_table: Vec<Scope>,
}

impl View for HLIRPass {
    type V = Seq<Map<Seq<char>, Id>>;

    open spec fn view(&self) -> Seq<Map<Seq<char>, Id>> {
        scope_maps(self.symbol_table@)
    }
}

impl HLIRPass {
    /// A pass with no scope open.
    pub fn new() -> (r: Self)
        ensures
            r@ == Seq::<Map<Seq<char>, Id>>::empty(),
    {
        let r = HLIRPass { symbol_table: Vec::new() };
        assert(r@ =~= Seq::<Map<Seq<char>, Id>>::empty());
        r
    }

    /// Opens a scope.
    pub fn push_scope(&mut self)
        ensures
            final(self)@ == old(self)@.push(Map::empty()),
    {
        self.symbol_table.push(Scope::new());
        assert(self@ =~= old(self)@.push(Map::empty()));
    }

    /// Closes the innermost scope.
    pub fn pop_scope(&mut self)
        ensures
            final(self)@ == if old(self)@.len() > 0 {
                old(self)@.drop_last()
            } else {
                old(self)@
            },
    {
        let _ = self.symbol_table.pop();
        proof {
            if old(self)@.len() > 0 {
                assert(self@ =~= old(self)@.drop_last());
            } else {
                assert(self@ =~= old(self)@);
            }
        }
    }

    /// The identifier of `name`: that of the innermost scope that binds it.
    pub fn find_symbol(&self, name: &str) -> (r: Option<Id>)
        ensures
            r == resolve(self@, name@),
    {
        let mut i: usize = self.symbol_table.len();
        assert(self@.take(i as int) =~= self@);
        while i > 0
            invariant
                i <= self.symbol_table@.len(),
                resolve(self@, name@) == resolve(self@.take(i as int), name@),
            decreases i,
        {
            i -= 1;
            proof {
                assert(self@.take(i + 1).last() == self.symbol_table@[i as int]@);
                assert(self@.take(i + 1).drop_last() =~= self@.take(i as int));
            }
            match self.symbol_table[i].get(name) {
                Some(id) => {
                    return Some(id);
                },
                None => {},
            }
        }
        None
    }

    /// Defines `name`: binds it in the innermost scope, unless a scope on
    /// the stack binds it already.
    pub fn try_add_symbol(&mut self, name: String, id: Id) -> (r: Result<(), LowerError>)
        requires
            old(self)@.len() > 0,
        ensures
            match define(old(self)@, name@, id) {
                Ok(scopes) => r is Ok && final(self)@ == scopes,
                Err(e) => r == Err::<(), LowerError>(e) && final(self)@ == old(self)@,
            },
    {
        proof {
            lemma_resolve_iff_bound(self@, name@);
        }
        match self.find_symbol(name.as_str()) {
            Some(_) => Err(LowerError::DuplicateSymbol),
            None => {
                let last = self.symbol_table.len() - 1;
                self.symbol_table[last].insert(name, id);
                assert(self@ =~= bind(old(self)@, name@, id));
                Ok(())
            },
        }
    }

    /// Binds `name` in the innermost scope.
    pub fn add_symbol(&mut self, name: String, id: Id)
        requires
            old(self)@.len() > 0,
            !is_bound(old(self)@, name@),
        ensures
            final(self)@ == bind(old(self)@, name@, id),
    {
        match self.try_add_symbol(name, id) {
            Ok(()) => {},
            Err(_) => {
                vstd::pervasive::unreached::<()>();
            },
        }
    }

    /// The global that the expression `value` initialises.
    pub fn assign_global(&self, name: String, value: &Expression, id: GlobalId) -> (r: Result<
        Global,
        LowerError,
    >)
        ensures
            match literal_of(value@) {
                Ok((init, ty)) => r matches Ok(g) && g@ == (GlobalModel {
                    id,
                    name: name@,
                    ty,
                    init,
                }),
                Err(e) => r matches Err(got) && got == e,
            },
    {
        match literal_from(value) {
            Ok((init, ty)) => Ok(Global { id, name, ty, init }),
            Err(e) => Err(e),
        }
    }

    /// The constant that the expression `value` gives the local `name`,
    /// which is bound in the innermost scope.
    pub fn assign_local(&mut self, name: String, value: &Expression, id: ValueId) -> (r: Result<
        Op,
        LowerError,
    >)
        requires
            old(self)@.len() > 0,
        ensures
            match literal_of(value@) {
                Ok((literal, ty)) => r matches Ok(op) && op@ == (OpModel::Const {
                    result: id,
                    literal,
                    ty,
                }) && final(self)@ == bind(old(self)@, name@, Id::Value(id)),
                Err(e) => r matches Err(got) && got == e && final(self)@ == old(self)@,
            },
    {
        match literal_from(value) {
            Ok((literal, ty)) => {
                let last = self.symbol_table.len() - 1;
                self.symbol_table[last].insert(name, Id::Value(id));
                assert(self@ =~= bind(old(self)@, name@, Id::Value(id)));
                Ok(Op::Const { result: id, literal, ty })
            },
            Err(e) => Err(e),
        }
    }
}


impl HLIRPass {
    /// Lowers the arguments of a call in a scope of their own: a variable
    /// gives the value that it is bound to, and a raw literal becomes a
    /// constant of the block under a fresh name.
    #[verifier::loop_isolation(false)]
    pub fn handle_args(&mut self, arguments: &Vec<ArgType>, ir_body: &mut FuncBlock) -> (r: Result<
        Vec<ValueId>,
        LowerError,
    >)
        ensures
            match arguments_of(old(self)@, old(ir_body)@, arg_models(arguments@)) {
                Ok((block, values)) => r matches Ok(v) && v@ == values && final(ir_body)@ == block
                    && final(self)@ == old(self)@,
                Err(e) => r matches Err(got) && got == e,
            },
    {
        let ghost models = arg_models(arguments@);
        let ghost start = ArgState {
            scopes: old(self)@.push(Map::empty()),
            block: old(ir_body)@,
            values: Seq::empty(),
        };
        self.push_scope();
        let mut args: Vec<ValueId> = Vec::new();
        let mut i: usize = 0;
        while i < arguments.len()
            invariant
                i <= arguments@.len(),
                models == arg_models(arguments@),
                self@.len() == old(self)@.len() + 1,
                self@.drop_last() == old(self)@,
                arguments_upto(start, models, i as nat) == Ok::<ArgState, LowerError>(
                    ArgState { scopes: self@, block: ir_body@, values: args@ },
                ),
            decreases arguments@.len() - i,
        {
            let arg = &arguments[i];
            let ghost before = ArgState { scopes: self@, block: ir_body@, values: args@ };
            assert(models[i as int] == (arg.name@, arg.ty@));
            proof {
                if argument_step(before, models[i as int]) is Err {
                    lemma_arguments_error(start, models, (i + 1) as nat, models.len());
                }
            }
            if str_eq(arg.ty.as_str(), "var") {
                match self.find_symbol(arg.name.as_str()) {
                    Some(Id::Value(v)) => {
                        args.push(v);
                    },
                    _ => {
                        return Err(LowerError::UnresolvedArgument);
                    },
                }
            } else {
                let literal: Literal;
                let ty: Type;
                if str_eq(arg.ty.as_str(), "int") {
                    match parse_i64(arg.name.as_str()) {
                        Some(n) => {
                            literal = Literal::Int(n);
                            ty = Type::Int;
                        },
                        None => {
                            return Err(LowerError::InvalidLiteral);
                        },
                    }
                } else if str_eq(arg.ty.as_str(), "float") {
                    match Decimal::parse(arg.name.as_str()) {
                        Some(d) => {
                            literal = Literal::Float(d);
                            ty = Type::Float;
                        },
                        None => {
                            return Err(LowerError::InvalidLiteral);
                        },
                    }
                } else if str_eq(arg.ty.as_str(), "string") {
                    literal = Literal::String(arg.name.clone());
                    ty = Type::String;
                } else {
                    return Err(LowerError::UnknownType);
                }
                let id = ValueId(ir_body.ops.len());
                let number = usize_to_string(ir_body.ops.len());
                let var_name = joined("raw_arg_", number.as_str());
                let last = self.symbol_table.len() - 1;
                self.symbol_table[last].insert(var_name, Id::Value(id));
                push_op(ir_body, Op::Const { result: id, literal, ty });
                args.push(id);
                proof {
                    let after = raw_argument(before, literal@, ty);
                    assert(self@ =~= after.scopes);
                    assert(self@.drop_last() =~= old(self)@);
                }
            }
            i += 1;
        }
        self.pop_scope();
        Ok(args)
    }

    /// The attributes that a call's attribute list gives the called
    /// function. No attribute of a call is read yet: they are the default ones.
    pub fn handle_attributes(&mut self, attributes: &Vec<KeyValue>, name: &str) -> (r:
        StyleAttributes)
        ensures
            r@ == StyleModel::empty(),
            final(self)@ == old(self)@,
    {
        StyleAttributes::default()
    }

    /// Lowers the body of a function in a scope of its own.
    #[verifier::loop_isolation(false)]
    pub fn lower_function_block(&mut self, body: &Vec<Statement>, hlirmodule: &mut HLIRModule) -> (r:
        Result<FuncBlock, LowerError>)
        requires
            old(hlirmodule).wf(),
        ensures
            match function_block_of(
                Lowering { scopes: old(self)@, module: old(hlirmodule)@ },
                body@,
            ) {
                Ok((after, block)) => r matches Ok(b) && b@ == block && final(self)@ == after.scopes
                    && final(hlirmodule)@ == after.module && final(hlirmodule).wf() && final(
                    self)@.len() == old(self)@.len() && final(hlirmodule)@.functions == old(
                    hlirmodule)@.functions,
                Err(e) => r matches Err(got) && got == e,
            },
    {
        let ghost start = Lowering {
            scopes: old(self)@.push(Map::empty()),
            module: old(hlirmodule)@,
        };
        let ghost empty = BlockModel { ops: Seq::empty(), returned_element_ref: None };
        let mut ir_body = FuncBlock { ops: Vec::new(), returned_element_ref: None };
        assert(ir_body@.ops =~= Seq::<OpModel>::empty());
        self.push_scope();
        let mut i: usize = 0;
        while i < body.len()
            invariant
                i <= body@.len(),
                hlirmodule.wf(),
                hlirmodule@.functions == old(hlirmodule)@.functions,
                self@.len() == old(self)@.len() + 1,
                body_upto(start, empty, body@, i as nat) == Ok::<(Lowering, BlockModel), LowerError>(
                    (Lowering { scopes: self@, module: hlirmodule@ }, ir_body@),
                ),
            decreases body@.len() - i,
        {
            let ghost before = Lowering { scopes: self@, module: hlirmodule@ };
            proof {
                if body_step(before, ir_body@, body@[i as int]) is Err {
                    lemma_body_error(start, empty, body@, (i + 1) as nat, body@.len());
                }
            }
            match &body[i] {
                Statement::ConstAssign { name, value } => {
                    let id = ValueId(ir_body.ops.len());
                    let (literal, ty) = match literal_from(value) {
                        Ok(pair) => pair,
                        Err(e) => {
                            return Err(e);
                        },
                    };
                    match self.try_add_symbol(name.clone(), Id::Value(id)) {
                        Ok(()) => {},
                        Err(e) => {
                            return Err(e);
                        },
                    }
                    push_op(&mut ir_body, Op::Const { result: id, literal, ty });
                },
                Statement::Return { doc_element } => {
                    let index = match record_element(hlirmodule, doc_element, None) {
                        Ok((index, _)) => index,
                        Err(e) => {
                            return Err(e);
                        },
                    };
                    push_op(&mut ir_body, Op::Return { doc_element_ref: index });
                    ir_body.returned_element_ref = Some(index);
                },
                _ => {
                    return Err(LowerError::UnsupportedStatement);
                },
            }
            i += 1;
        }
        self.pop_scope();
        Ok(ir_body)
    }

    /// Lowers one element of the document under the parent `parent_index`.
    pub fn lower_document_element(
        &mut self,
        element: &DocElement,
        hlirmodule: &mut HLIRModule,
        ir_body: &mut FuncBlock,
        parent_index: Option<usize>,
    ) -> (r: Result<(), LowerError>)
        requires
            old(hlirmodule).wf(),
            parent_index matches Some(p) ==> p < old(hlirmodule)@.metadata.len(),
        ensures
            match element_lowered(
                Lowering { scopes: old(self)@, module: old(hlirmodule)@ },
                old(ir_body)@,
                element@,
                parent_index,
            ) {
                Ok((after, block)) => r is Ok && final(self)@ == after.scopes && final(hlirmodule)@ == after.module && final(ir_body)@ == block && final(hlirmodule).wf() && final(self)@ == old(self)@ && final(hlirmodule)@.metadata.len() >= old(hlirmodule)@.metadata.len(),
                Err(e) => r matches Err(got) && got == e,
            },
        decreases element,
    {
        match element {
            DocElement::Call { name, args } => {
                let func = match self.find_symbol(name.as_str()) {
                    Some(id) => id,
                    None => {
                        return Err(LowerError::FunctionNotFound);
                    },
                };
                let values = match self.handle_args(args, ir_body) {
                    Ok(v) => v,
                    Err(e) => {
                        return Err(e);
                    },
                };
                push_op(ir_body, Op::Call { result: None, func, args: values });
                Ok(())
            },
            _ => {
                let (index, attributes_ref) = match record_element(hlirmodule, element, parent_index) {
                    Ok(pair) => pair,
                    Err(e) => {
                        return Err(e);
                    },
                };
                push_op(ir_body, Op::DocElementEmit { index, attributes_ref });
                match element {
                    DocElement::Section { elements, .. } => {
                        assert(decreases_to!(element => elements));
                        self.lower_children(elements, hlirmodule, ir_body, Some(index))
                    },
                    DocElement::List { items, .. } => {
                        assert(decreases_to!(element => items));
                        self.lower_children(items, hlirmodule, ir_body, Some(index))
                    },
                    _ => Ok(()),
                }
            },
        }
    }

    /// Lowers the children of the element `parent`, in order.
    #[verifier::loop_isolation(false)]
    fn lower_children(
        &mut self,
        children: &Vec<DocElement>,
        hlirmodule: &mut HLIRModule,
        ir_body: &mut FuncBlock,
        parent: Option<usize>,
    ) -> (r: Result<(), LowerError>)
        requires
            old(hlirmodule).wf(),
            parent matches Some(p) ==> p < old(hlirmodule)@.metadata.len(),
        ensures
            match children_lowered(
                Lowering { scopes: old(self)@, module: old(hlirmodule)@ },
                old(ir_body)@,
                element_models(children@),
                children@.len(),
                parent,
            ) {
                Ok((after, block)) => r is Ok && final(self)@ == after.scopes && final(hlirmodule)@ == after.module && final(ir_body)@ == block && final(hlirmodule).wf() && final(self)@ == old(self)@ && final(hlirmodule)@.metadata.len() >= old(hlirmodule)@.metadata.len(),
                Err(e) => r matches Err(got) && got == e,
            },
        decreases children,
    {
        let ghost start = Lowering { scopes: old(self)@, module: old(hlirmodule)@ };
        let ghost block0 = old(ir_body)@;
        let ghost models = element_models(children@);
        let mut i: usize = 0;
        while i < children.len()
            invariant
                i <= children@.len(),
                models == element_models(children@),
                hlirmodule.wf(),
                parent matches Some(p) ==> p < hlirmodule@.metadata.len(),
                hlirmodule@.metadata.len() >= old(hlirmodule)@.metadata.len(),
                self@ == old(self)@,
                children_lowered(start, block0, models, i as nat, parent) == Ok::<
                    (Lowering, BlockModel),
                    LowerError,
                >((Lowering { scopes: self@, module: hlirmodule@ }, ir_body@)),
            decreases children@.len() - i,
        {
            proof {
                vstd::std_specs::vec::axiom_vec_index_decreases(*children, i as int);
                assert(models[i as int] == children@[i as int]@);
                if element_lowered(
                    Lowering { scopes: self@, module: hlirmodule@ },
                    ir_body@,
                    models[i as int],
                    parent,
                ) is Err {
                    lemma_children_error(start, block0, models, (i + 1) as nat, models.len(), parent);
                }
            }
            match self.lower_document_element(&children[i], hlirmodule, ir_body, parent) {
                Ok(()) => {},
                Err(e) => {
                    return Err(e);
                },
            }
            i += 1;
        }
        Ok(())
    }
}


/// A copy of each rule of `rules`.
fn clone_rules(rules: &Vec<StyleRule>) -> (r: Vec<StyleRule>)
    ensures
        rule_models(r@) == rule_models(rules@),
{
    let mut out: Vec<StyleRule> = Vec::new();
    let mut i: usize = 0;
    while i < rules.len()
        invariant
            i <= rules@.len(),
            out@.len() == i,
            forall|j: int| 0 <= j < i ==> out@[j]@ == rules@[j]@,
        decreases rules@.len() - i,
    {
        out.push(rules[i].clone());
        i += 1;
    }
    assert(rule_models(out@) =~= rule_models(rules@));
    out
}

impl HLIRPass {
    /// The types of the parameters of a function.
    fn lower_parameters(params: &Vec<FuncParam>) -> (r: Result<Vec<Type>, LowerError>)
        ensures
            match parameter_types(params@, params@.len()) {
                Ok(types) => r matches Ok(v) && v@ == types,
                Err(e) => r matches Err(got) && got == e,
            },
    {
        let mut types: Vec<Type> = Vec::new();
        let mut i: usize = 0;
        while i < params.len()
            invariant
                i <= params@.len(),
                parameter_types(params@, i as nat) == Ok::<Seq<Type>, LowerError>(types@),
            decreases params@.len() - i,
        {
            match parse_type_tag(params[i].ty.as_str()) {
                Some(ty) => {
                    types.push(ty);
                },
                None => {
                    proof {
                        lemma_parameters_error(params@, (i + 1) as nat, params@.len());
                    }
                    return Err(LowerError::UnknownType);
                },
            }
            i += 1;
        }
        Ok(types)
    }

    /// Records a global under the next identifier and defines its name.
    fn lower_global(&mut self, name: String, value: &Expression, hlirmodule: &mut HLIRModule) -> (r:
        Result<(), LowerError>)
        requires
            old(hlirmodule).wf(),
            old(self)@.len() > 0,
        ensures
            match global_step(
                Lowering { scopes: old(self)@, module: old(hlirmodule)@ },
                name@,
                value@,
            ) {
                Ok(after) => r is Ok && final(self)@ == after.scopes && final(hlirmodule)@
                    == after.module && final(hlirmodule).wf() && final(self)@.len() == old(
                    self)@.len(),
                Err(e) => r matches Err(got) && got == e,
            },
    {
        let global_id = GlobalId(hlirmodule.globals.len());
        let global = match self.assign_global(name.clone(), value, global_id) {
            Ok(g) => g,
            Err(e) => {
                return Err(e);
            },
        };
        match self.try_add_symbol(name, Id::Global(global_id)) {
            Ok(()) => {},
            Err(e) => {
                return Err(e);
            },
        }
        push_global(hlirmodule, global);
        Ok(())
    }

    /// Lowers the template section: its globals and its functions, in order.
    #[verifier::loop_isolation(false)]
    pub fn lower_template_block(&mut self, ast: &Ast, hlirmodule: &mut HLIRModule) -> (r: Result<
        (),
        LowerError,
    >)
        requires
            old(hlirmodule).wf(),
            old(self)@.len() > 0,
        ensures
            match template_upto(
                Lowering { scopes: old(self)@, module: old(hlirmodule)@ },
                template_statements(*ast),
                template_statements(*ast).len(),
            ) {
                Ok(after) => r is Ok && final(self)@ == after.scopes && final(hlirmodule)@
                    == after.module && final(hlirmodule).wf() && final(self)@.len() == old(
                    self)@.len(),
                Err(e) => r matches Err(got) && got == e,
            },
    {
        let template = match &ast.template {
            Some(t) => t,
            None => {
                return Ok(());
            },
        };
        let ghost start = Lowering { scopes: old(self)@, module: old(hlirmodule)@ };
        let statements = &template.statements;
        let mut i: usize = 0;
        while i < statements.len()
            invariant
                i <= statements@.len(),
                hlirmodule.wf(),
                self@.len() == old(self)@.len(),
                template_upto(start, statements@, i as nat) == Ok::<Lowering, LowerError>(
                    Lowering { scopes: self@, module: hlirmodule@ },
                ),
            decreases statements@.len() - i,
        {
            let ghost before = Lowering { scopes: self@, module: hlirmodule@ };
            proof {
                if template_step(before, statements@[i as int]) is Err {
                    lemma_template_error(start, statements@, (i + 1) as nat, statements@.len());
                }
            }
            match &statements[i] {
                Statement::DefaultSet { key, value } => {
                    let name = joined("__", key.as_str());
                    match self.lower_global(name, value, hlirmodule) {
                        Ok(()) => {},
                        Err(e) => {
                            return Err(e);
                        },
                    }
                },
                Statement::ConstAssign { name, value } => {
                    match self.lower_global(name.clone(), value, hlirmodule) {
                        Ok(()) => {},
                        Err(e) => {
                            return Err(e);
                        },
                    }
                },
                Statement::VarAssign { name, value } => {
                    match self.lower_global(name.clone(), value, hlirmodule) {
                        Ok(()) => {},
                        Err(e) => {
                            return Err(e);
                        },
                    }
                },
                Statement::FunctionDecl { name, args, body } => {
                    let func_id = FuncId(hlirmodule.functions.len());
                    let hlir_body = match self.lower_function_block(body, hlirmodule) {
                        Ok(b) => b,
                        Err(e) => {
                            return Err(e);
                        },
                    };
                    match self.try_add_symbol(name.clone(), Id::Func(func_id)) {
                        Ok(()) => {},
                        Err(e) => {
                            return Err(e);
                        },
                    }
                    let arg_list = match Self::lower_parameters(args) {
                        Ok(v) => v,
                        Err(e) => {
                            return Err(e);
                        },
                    };
                    push_function(
                        hlirmodule,
                        Func {
                            id: func_id,
                            name: name.clone(),
                            args: arg_list,
                            return_type: Some(Type::DocElement),
                            body: hlir_body,
                        },
                    );
                },
                _ => {
                    return Err(LowerError::UnsupportedStatement);
                },
            }
            i += 1;
        }
        Ok(())
    }

    /// Lowers the document section in a scope of its own, and records the
    /// document function.
    pub fn lower_document_block(&mut self, ast: &Ast, hlirmodule: &mut HLIRModule) -> (r: Result<
        (),
        LowerError,
    >)
        requires
            old(hlirmodule).wf(),
        ensures
            match document_lowered(
                Lowering { scopes: old(self)@, module: old(hlirmodule)@ },
                document_elements(*ast),
            ) {
                Ok(after) => r is Ok && final(self)@ == after.scopes && final(hlirmodule)@
                    == after.module && final(hlirmodule).wf(),
                Err(e) => r matches Err(got) && got == e,
            },
    {
        let mut ir_body = FuncBlock { ops: Vec::new(), returned_element_ref: None };
        assert(ir_body@.ops =~= Seq::<OpModel>::empty());
        self.push_scope();
        match &ast.document {
            Some(document) => {
                match self.lower_children(&document.elements, hlirmodule, &mut ir_body, None) {
                    Ok(()) => {},
                    Err(e) => {
                        return Err(e);
                    },
                }
            },
            None => {
                assert(document_elements(*ast).len() == 0);
            },
        }
        let func_id = FuncId(hlirmodule.functions.len());
        let args: Vec<Type> = Vec::new();
        assert(args@ =~= Seq::<Type>::empty());
        push_function(
            hlirmodule,
            Func {
                id: func_id,
                name: "__document".to_owned(),
                args,
                return_type: Some(Type::DocElement),
                body: ir_body,
            },
        );
        self.pop_scope();
        assert(self@ =~= old(self)@.push(Map::empty()).drop_last());
        Ok(())
    }

    /// Lowers a syntax tree in the scope of the module.
    pub fn lower(&mut self, ast: &Ast) -> (r: Result<HLIRModule, LowerError>)
        requires
            old(self)@.len() == 0,
        ensures
            match lowered(*ast) {
                Ok(module) => r matches Ok(m) && m@ == module && m.wf(),
                Err(e) => r matches Err(got) && got == e,
            },
    {
        let mut hlirmodule = HLIRModule::new();
        proof {
            assert(hlirmodule@.globals =~= empty_module().globals);
            assert(hlirmodule@.functions =~= empty_module().functions);
            assert(hlirmodule@.attributes =~= empty_module().attributes);
            assert(hlirmodule@.css_rules =~= empty_module().css_rules);
            assert(hlirmodule@.elements =~= empty_module().elements);
            assert(hlirmodule@.metadata =~= empty_module().metadata);
        }
        self.push_scope();
        assert(self@ =~= seq![Map::<Seq<char>, Id>::empty()]);
        match self.lower_template_block(ast, &mut hlirmodule) {
            Ok(()) => {},
            Err(e) => {
                return Err(e);
            },
        }
        let ghost after_template = hlirmodule@;
        match &ast.style {
            Some(style) => {
                hlirmodule.css_rules = clone_rules(&style.statements);
            },
            None => {
                hlirmodule.css_rules = Vec::new();
            },
        }
        proof {
            let want = ModuleModel { css_rules: style_rules(*ast), ..after_template };
            assert(hlirmodule@.css_rules =~= want.css_rules);
            assert(hlirmodule@.globals =~= want.globals);
            assert(hlirmodule@.functions =~= want.functions);
            assert(hlirmodule@.attributes =~= want.attributes);
            assert(hlirmodule@.elements =~= want.elements);
            assert(hlirmodule@.metadata =~= want.metadata);
            lemma_elements_stay_recorded(after_template, hlirmodule@);
        }
        match self.lower_document_block(ast, &mut hlirmodule) {
            Ok(()) => {},
            Err(e) => {
                return Err(e);
            },
        }
        self.pop_scope();
        Ok(hlirmodule)
    }
}

/// Lowers a syntax tree to its module, or says what stops the pass.
pub fn try_lower(ast: &Ast) -> (r: Result<HLIRModule, LowerError>)
    ensures
        match lowered(*ast) {
            Ok(module) => r matches Ok(m) && m@ == module && m.wf(),
            Err(e) => r matches Err(got) && got == e,
        },
{
    let mut pass = HLIRPass::new();
    pass.lower(ast)
}

/// Lowers a syntax tree that can be lowered to its module.
pub fn lower(ast: &Ast) -> (module: HLIRModule)
    requires
        lowered(*ast) is Ok,
    ensures
        module@ == lowered(*ast)->Ok_0,
        module.wf(),
{
    match try_lower(ast) {
        Ok(module) => module,
        Err(_) => vstd::pervasive::unreached(),
    }
}

} // verus!
