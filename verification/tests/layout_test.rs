//! The layout tree of lowered documents.

use pyrus::hlir::lower;
use pyrus::ir_types::{FuncId, HLIRModule, Id, Op};
use pyrus::layout::{setup_layout, LayoutEngine, LayoutError};
use pyrus::lexer::lex;
use pyrus::parser::parse;
use taffy::{NodeId, TraversePartialTree};

fn module(source: &str) -> HLIRModule {
    lower(&parse(lex(source)))
}

#[test]
fn one_leaf_for_each_emitted_element_and_each_call() {
    let hlir = module(
        "template { func card() { return text { \"Card\" } } }
         document { text { a } section { text { b } } card() text { c } }",
    );
    let engine = setup_layout(&hlir).unwrap();
    let root = NodeId::new(engine.root);
    let children = engine.tree.children(root).unwrap();
    assert_eq!(children.len(), 5);
    assert_eq!(engine.tree.total_node_count(), 6);
    for child in &children {
        assert_eq!(engine.tree.parent(*child), Some(root));
        assert_eq!(engine.tree.child_count(*child), 0);
    }
    assert_eq!(engine.tree.parent(root), None);
}

#[test]
fn empty_document_has_a_root_alone() {
    let hlir = module("document { }");
    let engine = LayoutEngine::build_from_hlir_module(&hlir).unwrap();
    assert_eq!(engine.tree.total_node_count(), 1);
    assert_eq!(engine.tree.child_count(NodeId::new(engine.root)), 0);
}

#[test]
fn new_engine_holds_no_node() {
    let engine = LayoutEngine::new();
    assert_eq!(engine.tree.total_node_count(), 0);
    assert_eq!(engine.root, 0);
}

#[test]
fn module_without_functions_has_no_layout() {
    let hlir = HLIRModule::new();
    assert_eq!(setup_layout(&hlir).err(), Some(LayoutError::NoDocument));
}

#[test]
fn calls_of_what_returns_no_element_are_errors() {
    let mut hlir = module("template { let g = 1 func empty() { const a = 1 } } document { empty() }");
    assert_eq!(setup_layout(&hlir).err(), Some(LayoutError::NoReturnedElement));

    let last = hlir.functions.len() - 1;
    hlir.functions[last].body.ops[0] =
        Op::Call { result: None, func: Id::Func(FuncId(7)), args: vec![] };
    assert_eq!(setup_layout(&hlir).err(), Some(LayoutError::UnknownFunction));

    let mut hlir = module("template { let g = 1 } document { g() }");
    assert_eq!(setup_layout(&hlir).err(), Some(LayoutError::UnknownFunction));
    let last = hlir.functions.len() - 1;
    hlir.functions[last].body.ops.clear();
    assert!(setup_layout(&hlir).is_ok());
}
