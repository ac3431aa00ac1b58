//! Lowering: symbols, identifiers, operations, metadata and attribute nodes.

use pyrus::ast::{Ast, DocElement, DocumentBlock, Expression, FuncParam, Statement, TemplateBlock};
use pyrus::attribute_tree::{AttributeNode, AttributeTree};
use pyrus::hlir::{lower, try_lower, HLIRPass, LowerError};
use pyrus::ir_types::{FuncId, GlobalId, HLIRModule, Id, Literal, Op, Type, ValueId};
use pyrus::lexer::lex;
use pyrus::parser::parse;
use pyrus::style::StyleAttributes;

fn ast(source: &str) -> Ast {
    parse(lex(source))
}

fn module(source: &str) -> HLIRModule {
    lower(&ast(source))
}

fn error(source: &str) -> LowerError {
    try_lower(&ast(source)).err().unwrap()
}

#[test]
fn globals_take_dense_identifiers_in_order() {
    let hlir = module("template { width = 100 let title = \"Doc\" const ratio = 1.50 }");
    assert_eq!(hlir.globals.len(), 3);
    assert_eq!(hlir.globals[0].id, GlobalId(0));
    assert_eq!(hlir.globals[0].name, "__width");
    assert_eq!(hlir.globals[0].ty, Type::Int);
    assert!(matches!(hlir.globals[0].init, Literal::Int(100)));
    assert_eq!(hlir.globals[1].id, GlobalId(1));
    assert_eq!(hlir.globals[1].name, "title");
    assert_eq!(hlir.globals[1].ty, Type::String);
    match &hlir.globals[1].init {
        Literal::String(s) => assert_eq!(s, "Doc"),
        _ => panic!("Expected a string"),
    }
    assert_eq!(hlir.globals[2].id, GlobalId(2));
    assert_eq!(hlir.globals[2].ty, Type::Float);
    match &hlir.globals[2].init {
        Literal::Float(d) => assert_eq!(d.to_string(), "1.5"),
        _ => panic!("Expected a decimal number"),
    }
    assert_eq!(hlir.global(GlobalId(1)).map(|g| g.name.as_str()), Some("title"));
    assert!(hlir.global(GlobalId(3)).is_none());
}

#[test]
fn interpolated_string_becomes_a_string_global() {
    let hlir = module("template { let a = \"Hi {name}, {3} and {x + 1}\" }");
    assert_eq!(hlir.globals[0].ty, Type::String);
    match &hlir.globals[0].init {
        Literal::String(s) => assert_eq!(s, "Hi {name}, 3 and {Error}"),
        _ => panic!("Expected a string"),
    }
}

#[test]
fn default_and_global_of_one_name_do_not_collide() {
    let hlir = module("template { width = 1 let width = 2 }");
    assert_eq!(hlir.globals.len(), 2);
    assert_eq!(hlir.globals[0].name, "__width");
    assert_eq!(hlir.globals[1].name, "width");
    assert_eq!(error("template { width = 1 width = 2 }"), LowerError::DuplicateSymbol);
}

#[test]
fn functions_and_the_document_function() {
    let hlir = module(
        "template {
            func card(title: String, n: Int, r: Float) { const pad = 4 const s = \"x\" return text (id=\"c\") { \"Card\" } }
            func plain() { }
         }
         document { text { a } }",
    );
    assert_eq!(hlir.functions.len(), 3);
    let card = &hlir.functions[0];
    assert_eq!(card.id, FuncId(0));
    assert_eq!(card.name, "card");
    assert_eq!(card.args, vec![Type::String, Type::Int, Type::Float]);
    assert_eq!(card.return_type, Some(Type::DocElement));
    assert_eq!(card.body.ops.len(), 3);
    match &card.body.ops[0] {
        Op::Const { result, literal: Literal::Int(4), ty } => {
            assert_eq!(*result, ValueId(0));
            assert_eq!(*ty, Type::Int);
        }
        _ => panic!("Expected a constant"),
    }
    match &card.body.ops[1] {
        Op::Const { result, literal: Literal::String(s), ty } => {
            assert_eq!(*result, ValueId(1));
            assert_eq!(s, "x");
            assert_eq!(*ty, Type::String);
        }
        _ => panic!("Expected a constant"),
    }
    assert!(matches!(card.body.ops[2], Op::Return { doc_element_ref: 0 }));
    assert_eq!(card.body.returned_element_ref, Some(0));

    let plain = &hlir.functions[1];
    assert_eq!(plain.id, FuncId(1));
    assert!(plain.body.ops.is_empty());
    assert_eq!(plain.body.returned_element_ref, None);

    let document = &hlir.functions[2];
    assert_eq!(document.id, FuncId(2));
    assert_eq!(document.name, "__document");
    assert!(document.args.is_empty());
    assert_eq!(document.return_type, Some(Type::DocElement));
    assert_eq!(document.body.returned_element_ref, None);
    assert!(matches!(document.body.ops[0], Op::DocElementEmit { index: 1, attributes_ref: 3 }));
    assert_eq!(hlir.function(FuncId(2)).map(|f| f.name.as_str()), Some("__document"));
    assert!(hlir.function(FuncId(3)).is_none());

    // The returned element is an element of the module like any other.
    assert_eq!(hlir.elements.len(), 2);
    assert_eq!(hlir.element_metadata.len(), 2);
    assert_eq!(hlir.element_metadata[0].id, Some("c".to_string()));
    assert_eq!(hlir.element_metadata[0].parent, None);
    assert_eq!(hlir.element_metadata[0].attributes_ref, 2);
}

#[test]
fn elements_are_recorded_parents_first() {
    let hlir = module(
        "document {
            text (id=\"a\", class=\"x y\") { one }
            section (id=\"s\", margin=\"4\") {
                text { two }
                list (class=\"l\") { item { three } item (id=\"i\") { four } }
                section { text { five } }
            }
            text { six }
         }",
    );
    let metadata = &hlir.element_metadata;
    assert_eq!(hlir.elements.len(), 9);
    assert_eq!(metadata.len(), 9);
    let kinds: Vec<&str> = metadata.iter().map(|m| m.element_type.as_str()).collect();
    assert_eq!(
        kinds,
        vec!["text", "section", "text", "list", "text", "text", "section", "text", "text"]
    );
    let parents: Vec<Option<usize>> = metadata.iter().map(|m| m.parent).collect();
    assert_eq!(
        parents,
        vec![None, None, Some(1), Some(1), Some(3), Some(3), Some(1), Some(6), None]
    );
    for (index, meta) in metadata.iter().enumerate() {
        assert_eq!(meta.attributes_ref, index + 2);
        if let Some(parent) = meta.parent {
            assert!(parent < index);
        }
        let node = hlir.attributes.find_node(meta.attributes_ref).unwrap();
        assert_eq!(node.id, meta.attributes_ref);
        let parent_node = match meta.parent {
            Some(parent) => metadata[parent].attributes_ref,
            None => 1,
        };
        assert_eq!(node.parent, Some(parent_node));
        assert!(node.computed.style.is_empty());
    }
    assert_eq!(hlir.attributes.size(), 10);
    assert_eq!(metadata[0].id, Some("a".to_string()));
    assert_eq!(metadata[0].classes, vec!["x", "y"]);
    assert_eq!(metadata[3].classes, vec!["l"]);
    assert_eq!(metadata[5].id, Some("i".to_string()));
    assert!(metadata[2].classes.is_empty());
    let section = hlir.attributes.find_node(3).unwrap();
    assert_eq!(section.inline.margin.as_ref().map(|m| m.to_string()), Some("4".to_string()));
    assert_eq!(section.inline.id, Some("s".to_string()));

    let document = hlir.functions.last().unwrap();
    let emitted: Vec<(usize, usize)> = document
        .body
        .ops
        .iter()
        .map(|op| match op {
            Op::DocElementEmit { index, attributes_ref } => (*index, *attributes_ref),
            _ => panic!("Expected an emitted element"),
        })
        .collect();
    assert_eq!(emitted, (0..9).map(|i| (i, i + 2)).collect::<Vec<_>>());
    match &hlir.elements[1] {
        DocElement::Section { elements, .. } => assert_eq!(elements.len(), 3),
        _ => panic!("Expected the section with its children"),
    }
}

#[test]
fn calls_and_their_arguments() {
    let hlir = module(
        "template { let g = 1 func show() { return text { x } } }
         document { text { a } show(12, \"s\", 1.5, raw_arg_1) show() g() }",
    );
    let ops = &hlir.functions.last().unwrap().body.ops;
    assert_eq!(ops.len(), 7);
    assert!(matches!(ops[0], Op::DocElementEmit { index: 1, attributes_ref: 3 }));
    match &ops[1] {
        Op::Const { result, literal: Literal::Int(12), ty } => {
            assert_eq!(*result, ValueId(1));
            assert_eq!(*ty, Type::Int);
        }
        _ => panic!("Expected the integer argument"),
    }
    match &ops[2] {
        Op::Const { result, literal: Literal::String(s), ty } => {
            assert_eq!(*result, ValueId(2));
            assert_eq!(s, "\"s\"");
            assert_eq!(*ty, Type::String);
        }
        _ => panic!("Expected the string argument"),
    }
    match &ops[3] {
        Op::Const { result, literal: Literal::Float(d), ty } => {
            assert_eq!(*result, ValueId(3));
            assert_eq!(d.to_string(), "1.5");
            assert_eq!(*ty, Type::Float);
        }
        _ => panic!("Expected the decimal argument"),
    }
    match &ops[4] {
        Op::Call { result, func, args } => {
            assert_eq!(*result, None);
            assert_eq!(*func, Id::Func(FuncId(0)));
            assert_eq!(*args, vec![ValueId(1), ValueId(2), ValueId(3), ValueId(1)]);
        }
        _ => panic!("Expected the call"),
    }
    match &ops[5] {
        Op::Call { func, args, .. } => {
            assert_eq!(*func, Id::Func(FuncId(0)));
            assert!(args.is_empty());
        }
        _ => panic!("Expected the call"),
    }
    match &ops[6] {
        Op::Call { func, .. } => assert_eq!(*func, Id::Global(GlobalId(0))),
        _ => panic!("Expected the call"),
    }
}

#[test]
fn style_rules_are_kept_in_order() {
    let hlir = module("style { text { a = 1 } #x { b = 2 } }");
    assert_eq!(hlir.css_rules.len(), 2);
    assert_eq!(hlir.css_rules[0].specificity, 1);
    assert_eq!(hlir.css_rules[1].specificity, 100);
    assert_eq!(hlir.css_rules[1].declaration_block[0].key, "b");
    assert_eq!(hlir.functions.len(), 1);
    assert!(module("").css_rules.is_empty());
}

#[test]
fn each_error_and_what_brings_it() {
    assert_eq!(error("template { let a = 1 const a = 2 }"), LowerError::DuplicateSymbol);
    assert_eq!(
        error("template { let a = 1 func f() { const a = 2 } }"),
        LowerError::DuplicateSymbol
    );
    assert_eq!(error("template { let f = 1 func f() { } }"), LowerError::DuplicateSymbol);
    assert_eq!(error("document { missing() }"), LowerError::FunctionNotFound);
    assert_eq!(
        error("template { func f() { } } document { f(nowhere) }"),
        LowerError::UnresolvedArgument
    );
    assert_eq!(
        error("template { let g = 1 func f() { } } document { f(g) }"),
        LowerError::UnresolvedArgument
    );
    assert_eq!(error("template { func f(a: Bool) { } }"), LowerError::UnknownType);
    assert_eq!(error("template { let a = b }"), LowerError::UnsupportedExpression);
    assert_eq!(error("template { let a = - 1 }"), LowerError::UnsupportedExpression);
    assert_eq!(
        error("template { func f() { const a = b + 1 } }"),
        LowerError::UnsupportedExpression
    );
    assert_eq!(error("template { func f() { let a = 1 } }"), LowerError::UnsupportedStatement);
    assert_eq!(error("template { func f() { a = 1 } }"), LowerError::UnsupportedStatement);
    // A name of a function body is free again behind the body.
    let scoped =
        module("template { func f() { const a = 1 } func g() { const a = 2 } let a = 3 }");
    assert_eq!(scoped.functions.len(), 3);
    assert_eq!(scoped.globals.len(), 1);
}

#[test]
fn errors_that_no_source_text_writes() {
    let call = |ty: &str, name: &str| Ast {
        template: Some(TemplateBlock {
            statements: vec![Statement::FunctionDecl {
                name: "f".to_string(),
                args: vec![],
                body: vec![],
            }],
        }),
        document: Some(DocumentBlock {
            elements: vec![DocElement::Call {
                name: "f".to_string(),
                args: vec![pyrus::ast::ArgType { name: name.to_string(), ty: ty.to_string() }],
            }],
        }),
        style: None,
    };
    assert_eq!(try_lower(&call("bool", "true")).err(), Some(LowerError::UnknownType));
    assert_eq!(try_lower(&call("int", "x")).err(), Some(LowerError::InvalidLiteral));
    assert_eq!(try_lower(&call("float", "1e5")).err(), Some(LowerError::InvalidLiteral));
    assert!(try_lower(&call("string", "anything")).is_ok());

    let statement = |s: Statement| Ast {
        template: Some(TemplateBlock { statements: vec![s] }),
        document: None,
        style: None,
    };
    let looping = Statement::While { condition: Expression::Int(1), body: vec![] };
    assert_eq!(try_lower(&statement(looping)).err(), Some(LowerError::UnsupportedStatement));
    let param = Statement::FunctionDecl {
        name: "f".to_string(),
        args: vec![FuncParam { ty: "int".to_string(), value: Expression::Int(0) }],
        body: vec![],
    };
    assert_eq!(try_lower(&statement(param)).err(), Some(LowerError::UnknownType));
    assert_eq!(LowerError::FunctionNotFound.message(), "function not found");
}

#[test]
fn scopes_and_symbols() {
    let mut pass = HLIRPass::new();
    pass.push_scope();
    pass.add_symbol("a".to_string(), Id::Global(GlobalId(0)));
    pass.push_scope();
    assert_eq!(pass.find_symbol("a"), Some(Id::Global(GlobalId(0))));
    assert_eq!(pass.find_symbol("b"), None);
    assert_eq!(
        pass.try_add_symbol("a".to_string(), Id::Value(ValueId(1))),
        Err(LowerError::DuplicateSymbol)
    );
    assert_eq!(pass.try_add_symbol("b".to_string(), Id::Value(ValueId(1))), Ok(()));
    assert_eq!(pass.find_symbol("b"), Some(Id::Value(ValueId(1))));
    // A local that is assigned directly takes the place of an outer binding.
    let op = pass.assign_local("a".to_string(), &Expression::Int(5), ValueId(2)).unwrap();
    assert!(matches!(op, Op::Const { result: ValueId(2), literal: Literal::Int(5), ty: Type::Int }));
    assert_eq!(pass.find_symbol("a"), Some(Id::Value(ValueId(2))));
    assert_eq!(
        pass.assign_local("c".to_string(), &Expression::Identifier("x".to_string()), ValueId(3))
            .err(),
        Some(LowerError::UnsupportedExpression)
    );
    assert_eq!(pass.find_symbol("c"), None);
    pass.pop_scope();
    assert_eq!(pass.find_symbol("a"), Some(Id::Global(GlobalId(0))));
    assert_eq!(pass.find_symbol("b"), None);
    assert_eq!(pass.try_add_symbol("b".to_string(), Id::Func(FuncId(0))), Ok(()));
    pass.pop_scope();
    assert_eq!(pass.find_symbol("a"), None);
    pass.pop_scope();
    assert!(pass.symbol_table.is_empty());
    let global = pass
        .assign_global("g".to_string(), &Expression::StringLiteral("v".to_string()), GlobalId(4))
        .unwrap();
    assert_eq!(global.id, GlobalId(4));
    assert_eq!(global.name, "g");
    assert_eq!(global.ty, Type::String);
}

#[test]
fn attribute_tree_gives_ids_in_order_and_looks_up_the_chain() {
    let mut tree = AttributeTree::new();
    assert_eq!(tree.size(), 1);
    let root = tree.find_node(1).unwrap();
    assert_eq!(root.id, 1);
    assert_eq!(root.parent, None);
    assert!(tree.find_node(0).is_none());
    assert!(tree.find_node(2).is_none());

    let none = pyrus::ast::AttributeMap::new();
    let a = tree.add_attribute(AttributeNode::new_with_attributes(&none, 1));
    let b = tree.add_attribute(AttributeNode::new_with_attributes(&none, a));
    let c = tree.add_attribute(AttributeNode::new_with_attributes(&none, 1));
    assert_eq!((a, b, c), (2, 3, 4));
    assert_eq!(tree.find_node(b).unwrap().parent, Some(a));
    assert_eq!(tree.find_node(b).unwrap().id, 3);
    assert_eq!(tree.find_node(c).unwrap().parent, Some(1));

    let mut style = StyleAttributes::default();
    style.set("color", "blue".to_string());
    style.set("border", "1px".to_string());
    style.set("margin", "3".to_string());
    tree.set_computed(a, style);
    tree.find_node_mut(1).unwrap().computed.set("visibility", "hidden".to_string());
    assert!(tree.find_node_mut(9).is_none());
    tree.set_computed(9, StyleAttributes::default());
    assert_eq!(tree.size(), 4);

    let child = tree.find_node(b).unwrap();
    assert_eq!(child.get_effective_value("color", &tree), Some("blue".to_string()));
    assert_eq!(child.get_effective_value("visibility", &tree), Some("hidden".to_string()));
    assert_eq!(child.get_effective_value("border", &tree), None);
    assert_eq!(child.get_effective_value("margin", &tree), None);
    assert_eq!(child.get_effective_value("hidden", &tree), Some("false".to_string()));
    assert_eq!(child.get_effective_value("font-size", &tree), None);
    let sibling = tree.find_node(c).unwrap();
    assert_eq!(sibling.get_effective_value("color", &tree), None);
    assert_eq!(sibling.get_effective_value("visibility", &tree), Some("hidden".to_string()));
    let own = tree.find_node(a).unwrap();
    assert_eq!(own.get_effective_value("border", &tree), Some("1px".to_string()));
    assert_eq!(own.get_effective_value("margin", &tree), Some("3".to_string()));

    for name in [
        "color",
        "font-family",
        "font-size",
        "font-weight",
        "font-style",
        "line-height",
        "text-align",
        "visibility",
    ] {
        assert!(AttributeNode::is_inherited_property(name), "{}", name);
    }
    for name in ["margin", "padding", "border", "align", "Color", ""] {
        assert!(!AttributeNode::is_inherited_property(name), "{}", name);
    }
    let fresh = AttributeNode::new();
    assert_eq!((fresh.id, fresh.parent), (1, None));
}
