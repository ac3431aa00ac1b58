//! The cascade beyond single rules: order, inheritance down the tree, repeated runs.

use pyrus::hlir::{lower, HLIRPass};
use pyrus::ir_types::HLIRModule;
use pyrus::lexer::lex;
use pyrus::parser::parse;
use pyrus::style::{Align, PageBreak};
use pyrus::style_resolver::{cascade_order_of, resolve_styles, try_resolve_styles, StyleResolver};

fn module(source: &str) -> HLIRModule {
    lower(&parse(lex(source)))
}

fn resolved(source: &str) -> HLIRModule {
    let mut hlir = module(source);
    resolve_styles(&mut hlir);
    hlir
}

fn computed(hlir: &HLIRModule, index: usize, property: &str) -> Option<String> {
    let node = hlir.attributes.find_node(hlir.element_metadata[index].attributes_ref).unwrap();
    node.computed.get(property)
}

fn snapshot(hlir: &HLIRModule) -> Vec<String> {
    (0..hlir.element_metadata.len())
        .map(|i| {
            let node =
                hlir.attributes.find_node(hlir.element_metadata[i].attributes_ref).unwrap();
            let mut entries = node.computed.style.entries.clone();
            entries.sort();
            format!(
                "{:?} {:?} {:?} {:?} {:?} {:?} {:?} {:?} {:?}",
                entries,
                node.computed.id,
                node.computed.class,
                node.computed.margin,
                node.computed.padding,
                node.computed.align,
                node.computed.hidden,
                node.computed.page_break,
                node.computed.role
            )
        })
        .collect()
}

#[test]
fn cascade_order_is_stable_by_specificity() {
    let hlir = module(
        "style { #a { x = 1 } text { x = 2 } .c { x = 3 } section { x = 4 } .d { x = 5 } #b { x = 6 } .e, .f { x = 7 } }",
    );
    let specificities: Vec<u32> = hlir.css_rules.iter().map(|r| r.specificity).collect();
    assert_eq!(specificities, vec![100, 1, 10, 1, 10, 100, 20]);
    assert_eq!(cascade_order_of(&hlir.css_rules), vec![1, 3, 2, 4, 6, 0, 5]);
    assert_eq!(StyleResolver::new(&hlir).order, vec![1, 3, 2, 4, 6, 0, 5]);
    assert!(cascade_order_of(&Vec::new()).is_empty());
}

#[test]
fn precedence_of_type_class_id_and_inline() {
    let source = |inline: &str| {
        format!(
            "document {{ text (id=\"i\", class=\"c\"{}) {{ x }} }}
             style {{ #i {{ a = id  b = id  c = id }} .c {{ a = class b = class c = class d = class }} text {{ a = type b = type c = type d = type e = type }} }}",
            inline
        )
    };
    let hlir = resolved(&source(", style=\"a: inline\""));
    assert_eq!(computed(&hlir, 0, "a"), Some("inline".to_string()));
    assert_eq!(computed(&hlir, 0, "b"), Some("id".to_string()));
    assert_eq!(computed(&hlir, 0, "d"), Some("class".to_string()));
    assert_eq!(computed(&hlir, 0, "e"), Some("type".to_string()));
    assert_eq!(computed(&hlir, 0, "f"), None);
}

#[test]
fn rule_order_within_one_specificity_decides() {
    let first = resolved(
        "document { text (class=\"a b\") { x } } style { .a { size = 1 } #n { size = 9 } .b { size = 2 } }",
    );
    assert_eq!(computed(&first, 0, "size"), Some("2".to_string()));
    let second = resolved(
        "document { text (class=\"a b\") { x } } style { .b { size = 2 } .a { size = 1 } #n { size = 9 } }",
    );
    assert_eq!(computed(&second, 0, "size"), Some("1".to_string()));
    // Moving a rule across rules of another specificity changes nothing.
    let moved = resolved(
        "document { text (class=\"a b\") { x } } style { #n { size = 9 } .a { size = 1 } .b { size = 2 } }",
    );
    assert_eq!(snapshot(&moved), snapshot(&first));
}

#[test]
fn many_class_selectors_outweigh_one_id_selector() {
    let hlir = resolved(
        "document { text (id=\"i\", class=\"c\") { x } }
         style { #i { size = id } .c, .c, .c, .c, .c, .c, .c, .c, .c, .c, .c { size = classes } }",
    );
    assert_eq!(hlir.css_rules[1].specificity, 110);
    assert_eq!(computed(&hlir, 0, "size"), Some("classes".to_string()));
}

#[test]
fn inheritance_down_the_tree() {
    let hlir = resolved(
        "document {
            section (class=\"top\") {
                section {
                    text { deep }
                    text (style=\"color: green\") { own }
                    text (class=\"red\") { ruled }
                }
                list { item { in list } }
            }
            text { outside }
         }
         style {
            .top { color = blue  font-size = 14  border = thick  margin = 8  align = center  hidden = true  role = main }
            .red { color = red }
         }",
    );
    assert_eq!(computed(&hlir, 0, "color"), Some("blue".to_string()));
    assert_eq!(computed(&hlir, 0, "margin"), Some("8".to_string()));
    for index in [1, 2, 5, 6] {
        assert_eq!(computed(&hlir, index, "color"), Some("blue".to_string()), "{}", index);
        assert_eq!(computed(&hlir, index, "font-size"), Some("14".to_string()), "{}", index);
    }
    assert_eq!(computed(&hlir, 3, "color"), Some("green".to_string()));
    assert_eq!(computed(&hlir, 4, "color"), Some("red".to_string()));
    for index in 1..7 {
        assert_eq!(computed(&hlir, index, "border"), None, "{}", index);
        assert_eq!(computed(&hlir, index, "margin"), None, "{}", index);
        assert_eq!(computed(&hlir, index, "role"), None, "{}", index);
        assert_eq!(computed(&hlir, index, "hidden"), Some("false".to_string()), "{}", index);
        let node =
            hlir.attributes.find_node(hlir.element_metadata[index].attributes_ref).unwrap();
        assert_eq!(node.computed.align, Some(Align::Center), "{}", index);
    }
    assert_eq!(computed(&hlir, 7, "color"), None);
    assert_eq!(computed(&hlir, 7, "font-size"), None);
    let outside = hlir.attributes.find_node(hlir.element_metadata[7].attributes_ref).unwrap();
    assert_eq!(outside.computed.align, None);
}

#[test]
fn inline_typed_properties_lie_over_the_rules() {
    let hlir = resolved(
        "document { text (id=\"t\", class=\"k\", margin=\"1\", padding=\"2\", align=\"left\", hidden=\"true\", page_break=\"after\", role=\"r\") { x }
                    text (style=\"margin: 7; id: other\") { y } }
         style { text { margin = 9 padding = 9 align = right page_break = before role = ruled id = ruled } }",
    );
    let node = hlir.attributes.find_node(2).unwrap();
    assert_eq!(node.computed.id, Some("t".to_string()));
    assert_eq!(node.computed.class, vec!["k"]);
    assert_eq!(node.computed.margin.as_ref().map(|m| m.to_string()), Some("1".to_string()));
    assert_eq!(node.computed.padding.as_ref().map(|m| m.to_string()), Some("2".to_string()));
    assert_eq!(node.computed.align, Some(Align::Left));
    assert!(node.computed.hidden);
    assert_eq!(node.computed.page_break, PageBreak::After);
    assert_eq!(node.computed.role, Some("r".to_string()));

    let second = hlir.attributes.find_node(3).unwrap();
    assert_eq!(second.computed.margin.as_ref().map(|m| m.to_string()), Some("7".to_string()));
    assert_eq!(second.computed.id, Some("other".to_string()));
    assert_eq!(second.computed.padding.as_ref().map(|m| m.to_string()), Some("9".to_string()));
    assert_eq!(second.computed.align, Some(Align::Right));
    assert_eq!(second.computed.page_break, PageBreak::Before);
    assert_eq!(second.computed.role, Some("ruled".to_string()));
    assert!(second.computed.style.is_empty());
    assert!(second.computed.class.is_empty());
}

#[test]
fn values_are_text_and_nothing_is_evaluated() {
    let hlir = resolved(
        "template { let accent = \"red\" }
         document { text { x } }
         style { text { color = accent  width = a + 2  offset = - 3  label = \"n {accent}\"  ratio = 1.50  margin = big } }",
    );
    assert_eq!(computed(&hlir, 0, "color"), Some("accent".to_string()));
    assert_eq!(computed(&hlir, 0, "width"), Some("a Add 2".to_string()));
    assert_eq!(computed(&hlir, 0, "offset"), Some("Negate 3".to_string()));
    assert_eq!(computed(&hlir, 0, "label"), Some("n accent".to_string()));
    assert_eq!(computed(&hlir, 0, "ratio"), Some("1.5".to_string()));
    assert_eq!(computed(&hlir, 0, "margin"), None);
}

#[test]
fn resolving_again_changes_nothing() {
    let mut hlir = module(
        "document { section (class=\"a\", style=\"color: red\") { text (id=\"t\") { x } text { y } } }
         style { .a { font-size = 12 margin = 3 } #t { color = blue } text { line-height = 2 } }",
    );
    resolve_styles(&mut hlir);
    let once = snapshot(&hlir);
    resolve_styles(&mut hlir);
    assert_eq!(snapshot(&hlir), once);
    let mut pass = HLIRPass::new();
    pass.style_pass(&mut hlir);
    assert_eq!(snapshot(&hlir), once);
    StyleResolver::new(&hlir).resolve(&mut hlir);
    assert_eq!(snapshot(&hlir), once);
    // The root and the inline attributes are as they were.
    assert!(hlir.attributes.find_node(1).unwrap().computed.style.is_empty());
    assert_eq!(
        hlir.attributes.find_node(2).unwrap().inline.style.get("color"),
        Some(&"red".to_string())
    );
}

#[test]
fn siblings_do_not_change_each_other() {
    let alone = resolved(
        "document { section (class=\"s\") { text (class=\"k\") { x } } } style { .s { color = blue } .k { size = 1 } .other { size = 2 color = red } }",
    );
    let among = resolved(
        "document { text (class=\"other\") { before } section (class=\"s\") { text (class=\"other\") { a } text (class=\"k\") { x } text (class=\"other\") { b } } } style { .s { color = blue } .k { size = 1 } .other { size = 2 color = red } }",
    );
    assert_eq!(snapshot(&alone)[1], snapshot(&among)[3]);
    assert_eq!(snapshot(&alone)[0], snapshot(&among)[1]);
}

#[test]
fn a_module_is_resolved_only_where_it_is_ready() {
    let source = "document { section { text { a } } text { b } } style { text { color = red } }";
    let mut ready = module(source);
    assert!(ready.attributes.is_well_formed());
    assert!(ready.is_cascade_ready());
    assert!(try_resolve_styles(&mut ready));
    assert_eq!(computed(&ready, 1, "color"), Some("red".to_string()));

    // A parent that comes behind its child.
    let mut late_parent = module(source);
    late_parent.element_metadata[0].parent = Some(1);
    assert!(!late_parent.is_cascade_ready());
    assert!(!try_resolve_styles(&mut late_parent));
    assert_eq!(computed(&late_parent, 1, "color"), None);

    // Two elements with one node.
    let mut shared = module(source);
    shared.element_metadata[2].attributes_ref = 2;
    assert!(!shared.is_cascade_ready());

    // A node that the tree does not hold, and the root as an element's node.
    let mut missing = module(source);
    missing.element_metadata[2].attributes_ref = 9;
    assert!(!missing.is_cascade_ready());
    let mut root = module(source);
    root.element_metadata[0].attributes_ref = 1;
    assert!(!root.is_cascade_ready());

    // A tree whose nodes do not stand at their ids, or name later parents.
    let mut misplaced = module(source);
    misplaced.attributes.nodes[2].id = 7;
    assert!(!misplaced.attributes.is_well_formed());
    assert!(!misplaced.is_cascade_ready());
    let mut forward = module(source);
    forward.attributes.nodes[1].parent = Some(3);
    assert!(!forward.attributes.is_well_formed());
    let mut rootless = module(source);
    rootless.attributes.nodes[0].parent = Some(1);
    assert!(!rootless.attributes.is_well_formed());
    rootless.attributes.nodes.clear();
    assert!(!rootless.attributes.is_well_formed());
}
