//! Style attributes: reading, setting, merging and inheriting.

use pyrus::ast::{AttributeMap, Expression, UnaryOp};
use pyrus::decimal::Decimal;
use pyrus::style::{Align, PageBreak, StyleAttributes};
use pyrus::style_map::StyleMap;

fn set(style: &mut StyleAttributes, property: &str, value: &str) {
    style.set(property, value.to_string());
}

fn get(style: &StyleAttributes, property: &str) -> Option<String> {
    style.get(property)
}

#[test]
fn set_then_get_unknown_property() {
    let mut s = StyleAttributes::default();
    set(&mut s, "color", "blue");
    assert_eq!(get(&s, "color"), Some("blue".to_string()));
    set(&mut s, "color", "red");
    assert_eq!(get(&s, "color"), Some("red".to_string()));
    assert_eq!(s.style.len(), 1);
    assert_eq!(get(&s, "font-size"), None);
}

#[test]
fn default_style_has_nothing_set() {
    let s = StyleAttributes::default();
    assert!(s.id.is_none());
    assert!(s.class.is_empty());
    assert!(s.style.is_empty());
    assert!(s.margin.is_none());
    assert!(s.padding.is_none());
    assert!(s.align.is_none());
    assert!(!s.hidden);
    assert!(s.condition.is_none());
    assert_eq!(s.page_break, PageBreak::NoBreak);
    assert!(s.role.is_none());
    assert_eq!(get(&s, "id"), None);
    assert_eq!(get(&s, "margin"), None);
    assert_eq!(get(&s, "align"), None);
    assert_eq!(get(&s, "hidden"), Some("false".to_string()));
    assert_eq!(get(&s, "page_break"), Some("none".to_string()));
    assert_eq!(get(&s, "role"), None);
    assert_eq!(get(&s, "class"), None);
}

#[test]
fn set_then_get_typed_properties_in_normal_form() {
    let mut s = StyleAttributes::default();
    set(&mut s, "id", "main");
    set(&mut s, "margin", "015.50");
    set(&mut s, "padding", "-0.0");
    set(&mut s, "align", "center");
    set(&mut s, "hidden", "true");
    set(&mut s, "page_break", "before");
    set(&mut s, "role", "note");
    assert_eq!(get(&s, "id"), Some("main".to_string()));
    assert_eq!(get(&s, "margin"), Some("15.5".to_string()));
    assert_eq!(get(&s, "padding"), Some("0".to_string()));
    assert_eq!(get(&s, "align"), Some("Center".to_string()));
    assert_eq!(get(&s, "hidden"), Some("true".to_string()));
    assert_eq!(get(&s, "page_break"), Some("before".to_string()));
    assert_eq!(get(&s, "role"), Some("note".to_string()));
    assert!(s.style.is_empty());
    assert_eq!(s.align, Some(Align::Center));
    assert_eq!(s.page_break, PageBreak::Before);
}

#[test]
fn values_that_do_not_parse_keep_or_reset_the_property() {
    let mut s = StyleAttributes::default();
    set(&mut s, "margin", "12");
    set(&mut s, "margin", "wide");
    assert_eq!(get(&s, "margin"), Some("12".to_string()));
    set(&mut s, "align", "left");
    set(&mut s, "align", "Left");
    assert_eq!(s.align, Some(Align::Left));
    set(&mut s, "hidden", "true");
    set(&mut s, "hidden", "yes");
    assert!(!s.hidden);
    set(&mut s, "page_break", "after");
    set(&mut s, "page_break", "sometimes");
    assert_eq!(s.page_break, PageBreak::NoBreak);
}

#[test]
fn open_map_entry_is_read_before_the_typed_property() {
    let mut s = StyleAttributes::default();
    s.style.insert("margin".to_string(), "5".to_string());
    set(&mut s, "margin", "10");
    assert_eq!(get(&s, "margin"), Some("5".to_string()));
    assert_eq!(s.margin.as_ref().map(|m| m.to_string()), Some("10".to_string()));
}

#[test]
fn merge_keeps_what_is_set_and_takes_the_rest() {
    let mut mine = StyleAttributes::default();
    set(&mut mine, "color", "red");
    set(&mut mine, "margin", "1");
    mine.class = vec!["a".to_string()];
    let mut theirs = StyleAttributes::default();
    set(&mut theirs, "color", "blue");
    set(&mut theirs, "font-size", "12");
    set(&mut theirs, "margin", "2");
    set(&mut theirs, "padding", "3");
    set(&mut theirs, "id", "x");
    set(&mut theirs, "role", "r");
    set(&mut theirs, "align", "right");
    set(&mut theirs, "hidden", "true");
    set(&mut theirs, "page_break", "after");
    theirs.class = vec!["b".to_string(), "c".to_string()];
    theirs.condition = Some(true);

    mine.merge(&theirs);
    assert_eq!(get(&mine, "color"), Some("red".to_string()));
    assert_eq!(get(&mine, "font-size"), Some("12".to_string()));
    assert_eq!(get(&mine, "margin"), Some("1".to_string()));
    assert_eq!(get(&mine, "padding"), Some("3".to_string()));
    assert_eq!(get(&mine, "id"), Some("x".to_string()));
    assert_eq!(get(&mine, "role"), Some("r".to_string()));
    assert_eq!(mine.align, Some(Align::Right));
    assert!(mine.hidden);
    assert_eq!(mine.page_break, PageBreak::After);
    assert_eq!(mine.class, vec!["a"]);
    assert_eq!(mine.condition, None);

    let mut set_already = StyleAttributes::default();
    set(&mut set_already, "page_break", "before");
    set_already.merge(&theirs);
    assert_eq!(set_already.page_break, PageBreak::Before);
    assert_eq!(set_already.class, vec!["b", "c"]);
}

#[test]
fn apply_inherited_takes_the_allow_list_only() {
    let mut parent = StyleAttributes::default();
    for (k, v) in [
        ("font-family", "serif"),
        ("font-size", "12"),
        ("font-weight", "bold"),
        ("color", "blue"),
        ("line-height", "2"),
        ("border", "1px"),
        ("font-style", "italic"),
        ("margin", "4"),
        ("align", "right"),
        ("id", "p"),
    ] {
        set(&mut parent, k, v);
    }
    let mut child = StyleAttributes::default();
    set(&mut child, "color", "red");
    child.apply_inherited(&parent);
    assert_eq!(get(&child, "font-family"), Some("serif".to_string()));
    assert_eq!(get(&child, "font-size"), Some("12".to_string()));
    assert_eq!(get(&child, "font-weight"), Some("bold".to_string()));
    assert_eq!(get(&child, "line-height"), Some("2".to_string()));
    assert_eq!(get(&child, "color"), Some("red".to_string()));
    assert_eq!(get(&child, "border"), None);
    assert_eq!(get(&child, "font-style"), None);
    assert_eq!(get(&child, "margin"), None);
    assert_eq!(get(&child, "id"), None);
    assert_eq!(child.align, Some(Align::Right));
    assert_eq!(child.style.len(), 5);

    let mut aligned = StyleAttributes::default();
    set(&mut aligned, "align", "left");
    aligned.apply_inherited(&parent);
    assert_eq!(aligned.align, Some(Align::Left));
}

fn markup(pairs: &[(&str, Expression)]) -> AttributeMap {
    let mut map = AttributeMap::new();
    for (k, v) in pairs {
        map.insert(k.to_string(), v.clone());
    }
    map
}

fn string(s: &str) -> Expression {
    Expression::StringLiteral(s.to_string())
}

#[test]
fn inline_style_from_markup() {
    let attributes = markup(&[
        ("id", string("main")),
        ("class", string("  big \t bold\n")),
        ("style", string(" color : red ;font-size:12;;broken; a:b:c ; color: blue")),
        ("margin", Expression::Int(20)),
        ("padding", string("1.50")),
        ("align", string("right")),
        ("hidden", string("true")),
        ("condition", string("false")),
        ("page_break", string("after")),
        ("role", string("note")),
        ("other", string("x")),
    ]);
    let s = StyleAttributes::new_with_attributes(&attributes);
    assert_eq!(s.id, Some("main".to_string()));
    assert_eq!(s.class, vec!["big", "bold"]);
    assert_eq!(s.style.len(), 3);
    assert_eq!(s.style.get("color"), Some(&"blue".to_string()));
    assert_eq!(s.style.get("font-size"), Some(&"12".to_string()));
    assert_eq!(s.style.get("a"), Some(&"b:c".to_string()));
    assert_eq!(s.style.get("broken"), None);
    assert_eq!(s.margin.as_ref().map(|m| m.to_string()), Some("20".to_string()));
    assert_eq!(s.padding.as_ref().map(|m| m.to_string()), Some("1.5".to_string()));
    assert_eq!(s.align, Some(Align::Right));
    assert!(s.hidden);
    assert_eq!(s.condition, Some(false));
    assert_eq!(s.page_break, PageBreak::After);
    assert_eq!(s.role, Some("note".to_string()));
    assert_eq!(s.get("other"), None);
}

#[test]
fn markup_that_does_not_parse_keeps_the_default() {
    let attributes = markup(&[
        ("margin", string("wide")),
        ("padding", Expression::Identifier("p".to_string())),
        ("align", string("middle")),
        ("hidden", string("yes")),
        ("condition", string("maybe")),
        ("page_break", string("often")),
        (
            "id",
            Expression::Unary {
                operator: UnaryOp::Negate,
                expression: Box::new(Expression::Int(3)),
            },
        ),
    ]);
    let s = StyleAttributes::new_with_attributes(&attributes);
    assert!(s.margin.is_none());
    assert!(s.padding.is_none());
    assert!(s.align.is_none());
    assert!(!s.hidden);
    assert_eq!(s.condition, None);
    assert_eq!(s.page_break, PageBreak::NoBreak);
    assert_eq!(s.id, Some("-3".to_string()));
    assert!(s.class.is_empty());
    assert!(s.style.is_empty());
}

#[test]
fn parse_style_splits_on_semicolons_and_colons() {
    let map = StyleAttributes::parse_style("a:1;b : 2 ; c");
    assert_eq!(map.len(), 2);
    assert_eq!(map.get("a"), Some(&"1".to_string()));
    assert_eq!(map.get("b"), Some(&"2".to_string()));
    assert!(!map.contains_key("c"));
    assert!(StyleAttributes::parse_style("").is_empty());
    let empty_key = StyleAttributes::parse_style(": v");
    assert_eq!(empty_key.get(""), Some(&"v".to_string()));
}

#[test]
fn style_map_keeps_one_entry_for_each_key() {
    let mut map = StyleMap::new();
    assert!(map.is_empty());
    map.insert("a".to_string(), "1".to_string());
    map.insert("b".to_string(), "2".to_string());
    map.insert("a".to_string(), "3".to_string());
    assert_eq!(map.len(), 2);
    assert_eq!(map.get("a"), Some(&"3".to_string()));
    assert_eq!(map.get("b"), Some(&"2".to_string()));
    assert_eq!(map.get("c"), None);
    assert!(map.contains_key("b"));
    assert_eq!(map.entries[0].0, "a");
    let copy = map.clone();
    assert_eq!(copy.entries, map.entries);
}

#[test]
fn decimal_numbers_in_normal_form() {
    let normal = |s: &str| Decimal::parse(s).map(|d| d.to_string());
    assert_eq!(normal("20"), Some("20".to_string()));
    assert_eq!(normal("+7"), Some("7".to_string()));
    assert_eq!(normal("-7.250"), Some("-7.25".to_string()));
    assert_eq!(normal("007"), Some("7".to_string()));
    assert_eq!(normal("0.50"), Some("0.5".to_string()));
    assert_eq!(normal(".5"), Some("0.5".to_string()));
    assert_eq!(normal("5."), Some("5".to_string()));
    assert_eq!(normal("-0"), Some("0".to_string()));
    assert_eq!(normal("-0.00"), Some("0".to_string()));
    assert_eq!(normal("000"), Some("0".to_string()));
    assert_eq!(
        normal("123456789012345678901234567890.5"),
        Some("123456789012345678901234567890.5".to_string())
    );
    for bad in ["", "+", "-", ".", "-.", "1e5", "1.2.3", " 1", "1 ", "abc", "1,5", "inf", "--1"] {
        assert_eq!(normal(bad), None, "{:?}", bad);
    }
}

#[test]
fn alignment_and_page_break_names() {
    assert_eq!(Align::parse("left"), Some(Align::Left));
    assert_eq!(Align::parse("center"), Some(Align::Center));
    assert_eq!(Align::parse("right"), Some(Align::Right));
    assert_eq!(Align::parse("Right"), None);
    assert_eq!(Align::Left.name(), "Left");
    assert_eq!(Align::Right.name(), "Right");
    assert_eq!("center".parse::<Align>(), Ok(Align::Center));
    assert_eq!("up".parse::<Align>(), Err("Invalid alignment value: up".to_string()));
    assert_eq!(PageBreak::parse("before"), Some(PageBreak::Before));
    assert_eq!(PageBreak::parse("after"), Some(PageBreak::After));
    assert_eq!(PageBreak::parse("none"), Some(PageBreak::NoBreak));
    assert_eq!(PageBreak::parse(""), None);
    assert_eq!(PageBreak::After.name(), "after");
    assert_eq!("none".parse::<PageBreak>(), Ok(PageBreak::NoBreak));
    assert_eq!("x".parse::<PageBreak>(), Err("Invalid page break value: x".to_string()));
}
