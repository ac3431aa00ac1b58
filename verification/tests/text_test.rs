//! Text helpers and the text of expressions.

use pyrus::ast::{
    expr_to_string, BinaryOp, Expression, InterpPart, KeyValue, Selector, StyleRule, UnaryOp,
};
use pyrus::decimal::Decimal;
use pyrus::text::{
    i64_to_string, is_whitespace, joined, parse_i64, split_whitespace, str_eq, string_of,
    to_chars, usize_to_string,
};

#[test]
fn integers_to_text_and_back() {
    assert_eq!(i64_to_string(0), "0");
    assert_eq!(i64_to_string(7), "7");
    assert_eq!(i64_to_string(-7), "-7");
    assert_eq!(i64_to_string(1203), "1203");
    assert_eq!(i64_to_string(i64::MAX), "9223372036854775807");
    assert_eq!(i64_to_string(i64::MIN), "-9223372036854775808");
    assert_eq!(usize_to_string(0), "0");
    assert_eq!(usize_to_string(4096), "4096");

    assert_eq!(parse_i64("0"), Some(0));
    assert_eq!(parse_i64("-0"), Some(0));
    assert_eq!(parse_i64("+15"), Some(15));
    assert_eq!(parse_i64("0042"), Some(42));
    assert_eq!(parse_i64("9223372036854775807"), Some(i64::MAX));
    assert_eq!(parse_i64("-9223372036854775808"), Some(i64::MIN));
    assert_eq!(parse_i64("9223372036854775808"), None);
    assert_eq!(parse_i64("-9223372036854775809"), None);
    assert_eq!(parse_i64("99999999999999999999999"), None);
    for bad in ["", "+", "-", "1.5", " 1", "1 ", "1a", "a", "--1", "٣"] {
        assert_eq!(parse_i64(bad), None, "{:?}", bad);
    }
}

#[test]
fn strings_and_characters() {
    assert!(str_eq("", ""));
    assert!(str_eq("héllo", "héllo"));
    assert!(!str_eq("hello", "hellO"));
    assert!(!str_eq("a", "ab"));
    assert_eq!(to_chars("hé!"), vec!['h', 'é', '!']);
    assert_eq!(string_of(&vec!['h', 'é', '!']), "hé!");
    assert_eq!(joined("raw_arg_", "12"), "raw_arg_12");
    for c in [' ', '\t', '\n', '\u{b}', '\u{c}', '\r', '\u{85}', '\u{a0}', '\u{2003}', '\u{3000}'] {
        assert!(is_whitespace(c), "{:?}", c);
        assert!(c.is_whitespace());
    }
    for c in ['a', '0', '_', '\u{200b}', '\u{feff}'] {
        assert!(!is_whitespace(c), "{:?}", c);
        assert!(!c.is_whitespace());
    }
    assert_eq!(split_whitespace("  large \t bold\nwide "), vec!["large", "bold", "wide"]);
    assert!(split_whitespace(" \n ").is_empty());
    assert!(split_whitespace("").is_empty());
    assert_eq!(split_whitespace("one"), vec!["one"]);
}

fn id(name: &str) -> Expression {
    Expression::Identifier(name.to_string())
}

#[test]
fn text_of_expressions_as_style_values() {
    assert_eq!(expr_to_string(&Expression::StringLiteral("1px solid".to_string())), "1px solid");
    assert_eq!(expr_to_string(&Expression::Int(-24)), "-24");
    assert_eq!(expr_to_string(&Expression::Float(Decimal::parse("1.50").unwrap())), "1.5");
    assert_eq!(expr_to_string(&id("accent")), "accent");
    assert_eq!(expr_to_string(&Expression::StructDefault("Font".to_string())), "default(Font)");
    let sum = Expression::Binary {
        left: Box::new(id("a")),
        operator: BinaryOp::Add,
        right: Box::new(Expression::Int(2)),
    };
    assert_eq!(expr_to_string(&sum), "a Add 2");
    for (operator, name) in [
        (BinaryOp::Subtract, "Subtract"),
        (BinaryOp::Multiply, "Multiply"),
        (BinaryOp::Divide, "Divide"),
        (BinaryOp::Equals, "Equals"),
        (BinaryOp::Mod, "Mod"),
    ] {
        let e = Expression::Binary { left: Box::new(id("x")), operator, right: Box::new(id("y")) };
        assert_eq!(expr_to_string(&e), format!("x {} y", name));
    }
    let not = Expression::Unary { operator: UnaryOp::Not, expression: Box::new(id("x")) };
    assert_eq!(expr_to_string(&not), "Not x");
    let neg = Expression::Unary { operator: UnaryOp::Negate, expression: Box::new(sum.clone()) };
    assert_eq!(expr_to_string(&neg), "Negate a Add 2");
    let parts = Expression::InterpolatedString(vec![
        InterpPart::Text("w ".to_string()),
        InterpPart::Expression(id("n")),
        InterpPart::Text("!".to_string()),
        InterpPart::Expression(Expression::Int(3)),
    ]);
    assert_eq!(expr_to_string(&parts), "w n!3");
    assert_eq!(expr_to_string(&Expression::InterpolatedString(vec![])), "");
}

#[test]
fn text_of_expressions_as_markup_values() {
    assert_eq!(Expression::StringLiteral("x y".to_string()).to_string(), "x y");
    assert_eq!(Expression::Int(7).to_string(), "7");
    assert_eq!(Expression::Float(Decimal::parse("2.0").unwrap()).to_string(), "2");
    assert_eq!(Expression::StructDefault("S".to_string()).to_string(), "default(S)");
    assert_eq!(id("a").to_string(), "Error");
    let sum = Expression::Binary {
        left: Box::new(id("a")),
        operator: BinaryOp::Add,
        right: Box::new(Expression::Int(2)),
    };
    assert_eq!(sum.to_string(), "Error");
    let neg = Expression::Unary {
        operator: UnaryOp::Negate,
        expression: Box::new(Expression::Int(5)),
    };
    assert_eq!(neg.to_string(), "-5");
    let not = Expression::Unary { operator: UnaryOp::Not, expression: Box::new(id("x")) };
    assert_eq!(not.to_string(), "!Error");
    let parts = Expression::InterpolatedString(vec![
        InterpPart::Text("n=".to_string()),
        InterpPart::Expression(Expression::Int(3)),
        InterpPart::Expression(id("q")),
    ]);
    assert_eq!(parts.to_string(), "n=3Error");
    assert_eq!(Expression::Int(9).as_number(), Some(9));
    assert_eq!(id("x").as_number(), None);
}

#[test]
fn copies_of_expressions_are_alike() {
    let e = Expression::InterpolatedString(vec![
        InterpPart::Text("a".to_string()),
        InterpPart::Expression(Expression::Unary {
            operator: UnaryOp::Not,
            expression: Box::new(id("x")),
        }),
    ]);
    assert_eq!(format!("{:?}", e.clone()), format!("{:?}", e));
}

#[test]
fn specificity_of_rules() {
    let rule = |selectors: Vec<Selector>| StyleRule::new(selectors, Vec::<KeyValue>::new());
    assert_eq!(rule(vec![]).specificity, 0);
    assert_eq!(rule(vec![Selector::Id("a".to_string())]).specificity, 100);
    assert_eq!(rule(vec![Selector::Class("a".to_string())]).specificity, 10);
    assert_eq!(rule(vec![Selector::Type("a".to_string())]).specificity, 1);
    let mixed = rule(vec![
        Selector::Type("t".to_string()),
        Selector::Id("a".to_string()),
        Selector::Class("c".to_string()),
        Selector::Id("b".to_string()),
        Selector::Class("d".to_string()),
        Selector::Class("e".to_string()),
    ]);
    assert_eq!(mixed.specificity, 231);
    assert_eq!(mixed.selector_list.len(), 6);
    let classes: Vec<Selector> = (0..11).map(|i| Selector::Class(format!("c{}", i))).collect();
    assert_eq!(StyleRule::compute_specificity(&classes), 110);
    let copy = mixed.clone();
    assert_eq!(copy.specificity, 231);
    assert_eq!(format!("{:?}", copy), format!("{:?}", mixed));
}
