//! The cascade on documents that are built by hand.

use pyrus::ast::{
    Ast, AttributeMap, DocElement, DocumentBlock, Expression, KeyValue, Selector, StyleBlock,
    StyleRule,
};
use pyrus::hlir::{try_lower, LowerError};
use pyrus::ir_types::HLIRModule;
use pyrus::style_resolver::resolve_styles;

fn attrs(pairs: &[(&str, &str)]) -> AttributeMap {
    let mut map = AttributeMap::new();
    for (k, v) in pairs {
        map.insert(k.to_string(), Expression::StringLiteral(v.to_string()));
    }
    map
}

fn text(pairs: &[(&str, &str)]) -> DocElement {
    DocElement::Text { content: "Text".to_string(), attributes: attrs(pairs) }
}

fn rule(selector: Selector, key: &str, value: Expression) -> StyleRule {
    StyleRule::new(vec![selector], vec![KeyValue { key: key.to_string(), value }])
}

fn resolved(elements: Vec<DocElement>, rules: Vec<StyleRule>) -> HLIRModule {
    let ast = Ast {
        template: None,
        document: Some(DocumentBlock { elements }),
        style: Some(StyleBlock { statements: rules }),
    };
    let mut hlir = try_lower(&ast).unwrap();
    resolve_styles(&mut hlir);
    hlir
}

fn computed(hlir: &HLIRModule, index: usize, property: &str) -> Option<String> {
    let node = hlir.attributes.find_node(hlir.element_metadata[index].attributes_ref).unwrap();
    node.computed.get(property)
}

#[test]
fn example_id_rule_sets_font_size() {
    let hlir = resolved(
        vec![text(&[("id", "header")])],
        vec![rule(Selector::Id("header".to_string()), "font-size", Expression::Int(24))],
    );
    assert_eq!(computed(&hlir, 0, "font-size"), Some("24".to_string()));
}

#[test]
fn example_id_beats_class() {
    let hlir = resolved(
        vec![text(&[("id", "x"), ("class", "y")])],
        vec![
            rule(Selector::Id("x".to_string()), "font-size", Expression::Int(24)),
            rule(Selector::Class("y".to_string()), "font-size", Expression::Int(12)),
        ],
    );
    assert_eq!(computed(&hlir, 0, "font-size"), Some("24".to_string()));
}

#[test]
fn example_inline_wins() {
    let hlir = resolved(
        vec![text(&[("id", "mytext"), ("style", "font-size: 10")])],
        vec![rule(Selector::Id("mytext".to_string()), "font-size", Expression::Int(24))],
    );
    assert_eq!(computed(&hlir, 0, "font-size"), Some("10".to_string()));
}

#[test]
fn example_color_is_inherited_and_margin_is_not() {
    let section = DocElement::Section { elements: vec![text(&[])], attributes: attrs(&[]) };
    let hlir = resolved(
        vec![section],
        vec![
            rule(
                Selector::Type("section".to_string()),
                "color",
                Expression::StringLiteral("blue".to_string()),
            ),
            rule(Selector::Type("section".to_string()), "margin", Expression::Int(20)),
        ],
    );
    assert_eq!(hlir.element_metadata.len(), 2);
    assert_eq!(hlir.element_metadata[1].parent, Some(0));
    assert_eq!(computed(&hlir, 0, "color"), Some("blue".to_string()));
    assert_eq!(computed(&hlir, 0, "margin"), Some("20".to_string()));
    assert_eq!(computed(&hlir, 1, "color"), Some("blue".to_string()));
    assert_eq!(computed(&hlir, 1, "margin"), None);
    let node = hlir.attributes.find_node(hlir.element_metadata[1].attributes_ref).unwrap();
    assert!(node.computed.margin.is_none());
}

#[test]
fn example_later_rule_of_same_specificity_wins() {
    let hlir = resolved(
        vec![text(&[("class", "intro")])],
        vec![
            rule(Selector::Class("intro".to_string()), "font-size", Expression::Int(12)),
            rule(Selector::Class("intro".to_string()), "font-size", Expression::Int(24)),
        ],
    );
    assert_eq!(computed(&hlir, 0, "font-size"), Some("24".to_string()));
}

#[test]
fn unstyled_element_has_default_style() {
    let hlir = resolved(
        vec![text(&[])],
        vec![rule(Selector::Class("nomatch".to_string()), "font-size", Expression::Int(24))],
    );
    let node = hlir.attributes.find_node(hlir.element_metadata[0].attributes_ref).unwrap();
    assert!(node.computed.style.is_empty());
    assert!(node.computed.id.is_none());
    assert!(node.computed.class.is_empty());
    assert!(node.computed.margin.is_none());
    assert!(node.computed.padding.is_none());
    assert!(node.computed.align.is_none());
    assert!(!node.computed.hidden);
    assert!(node.computed.role.is_none());
}

#[test]
fn call_of_unknown_function_is_an_error() {
    let ast = Ast {
        template: None,
        document: Some(DocumentBlock {
            elements: vec![DocElement::Call { name: "missing".to_string(), args: vec![] }],
        }),
        style: None,
    };
    assert_eq!(try_lower(&ast).err(), Some(LowerError::FunctionNotFound));
}
