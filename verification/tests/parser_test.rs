use pyrus::ast::{Ast, BinaryOp, DocElement, Expression, Statement, UnaryOp};
use pyrus::grammar::{ParseError, ParseErrorKind};
use pyrus::lexer::lex;
use pyrus::lexer::TokenKind;
use pyrus::parser::{try_parse, Parser};

fn parse(source: &str) -> Ast {
    pyrus::parser::parse(lex(source))
}

fn parse_error(source: &str) -> ParseError {
    try_parse(lex(source)).err().unwrap()
}

#[test]
fn test_parse_empty_document() {
    let source = "document { }";
    let ast = parse(source);
    assert!(ast.document.is_some());
    assert!(ast.template.is_none());
    assert!(ast.style.is_none());

    let doc = ast.document.unwrap();
    assert_eq!(doc.elements.len(), 0);
}

#[test]
fn test_parse_empty_template() {
    let source = "template { }";
    let ast = parse(source);
    assert!(ast.template.is_some());
    assert!(ast.document.is_none());
    assert!(ast.style.is_none());

    let template = ast.template.unwrap();
    assert_eq!(template.statements.len(), 0);
}

#[test]
fn test_parse_empty_style() {
    let source = "style { }";
    let ast = parse(source);
    assert!(ast.style.is_some());
    assert!(ast.template.is_none());
    assert!(ast.document.is_none());
}

#[test]
fn test_parse_all_blocks() {
    let source = "template { } document { } style { }";
    let ast = parse(source);
    assert!(ast.template.is_some());
    assert!(ast.document.is_some());
    assert!(ast.style.is_some());
}

#[test]
fn test_parse_variable_assignment() {
    let source = "template { let x = \"hello\" }";
    let ast = parse(source);
    let template = ast.template.unwrap();
    assert_eq!(template.statements.len(), 1);

    match &template.statements[0] {
        Statement::VarAssign { name, value } => {
            assert_eq!(name, "x");
            match value {
                Expression::StringLiteral(s) => assert_eq!(s, "hello"),
                _ => panic!("Expected StringLiteral expression"),
            }
        }
        _ => panic!("Expected VarAssign statement"),
    }
}

#[test]
fn test_parse_const_assignment() {
    let source = "template { const PI = \"3.14\" }";
    let ast = parse(source);
    let template = ast.template.unwrap();
    assert_eq!(template.statements.len(), 1);

    match &template.statements[0] {
        Statement::ConstAssign { name, value } => {
            assert_eq!(name, "PI");
            match value {
                Expression::StringLiteral(s) => assert_eq!(s, "3.14"),
                _ => panic!("Expected StringLiteral expression"),
            }
        }
        _ => panic!("Expected ConstAssign statement"),
    }
}

#[test]
fn test_parse_unary_negation() {
    let source = "template { let x = - 42 }";
    let ast = parse(source);
    let template = ast.template.unwrap();

    match &template.statements[0] {
        Statement::VarAssign { name, value } => {
            assert_eq!(name, "x");
            match value {
                Expression::Unary { operator, expression } => {
                    match operator {
                        UnaryOp::Negate => {}
                        _ => panic!("Expected Negate operator"),
                    }
                    assert_eq!(expression.as_number(), Some(42));
                }
                _ => panic!("Expected Unary expression"),
            }
        }
        _ => panic!("Expected VarAssign statement"),
    }
}

#[test]
fn test_parse_binary_addition() {
    let source = "template { let sum = x + y }";
    let ast = parse(source);
    let template = ast.template.unwrap();

    match &template.statements[0] {
        Statement::VarAssign { name, value } => {
            assert_eq!(name, "sum");
            match value {
                Expression::Binary { left, operator, right } => {
                    match operator {
                        BinaryOp::Add => {}
                        _ => panic!("Expected Add operator"),
                    }
                    match (&**left, &**right) {
                        (Expression::Identifier(l), Expression::Identifier(r)) => {
                            assert_eq!(l, "x");
                            assert_eq!(r, "y");
                        }
                        _ => panic!("Expected identifier expressions"),
                    }
                }
                _ => panic!("Expected Binary expression"),
            }
        }
        _ => panic!("Expected VarAssign statement"),
    }
}

#[test]
fn test_parse_binary_subtraction() {
    let source = "template { let diff = a - b }";
    let ast = parse(source);
    let template = ast.template.unwrap();

    match &template.statements[0] {
        Statement::VarAssign { value, .. } => match value {
            Expression::Binary { operator, .. } => match operator {
                BinaryOp::Subtract => {}
                _ => panic!("Expected Subtract operator"),
            },
            _ => panic!("Expected Binary expression"),
        },
        _ => panic!("Expected VarAssign statement"),
    }
}

#[test]
fn test_parse_binary_multiplication() {
    let source = "template { let product = a * b }";
    let ast = parse(source);
    let template = ast.template.unwrap();

    match &template.statements[0] {
        Statement::VarAssign { value, .. } => match value {
            Expression::Binary { operator, .. } => match operator {
                BinaryOp::Multiply => {}
                _ => panic!("Expected Multiply operator"),
            },
            _ => panic!("Expected Binary expression"),
        },
        _ => panic!("Expected VarAssign statement"),
    }
}

#[test]
fn test_parse_binary_division() {
    let source = "template { let quotient = a / b }";
    let ast = parse(source);
    let template = ast.template.unwrap();

    match &template.statements[0] {
        Statement::VarAssign { value, .. } => match value {
            Expression::Binary { operator, .. } => match operator {
                BinaryOp::Divide => {}
                _ => panic!("Expected Divide operator"),
            },
            _ => panic!("Expected Binary expression"),
        },
        _ => panic!("Expected VarAssign statement"),
    }
}

#[test]
fn test_parse_binary_equals() {
    let source = "template { let result = a = b }";
    let ast = parse(source);
    let template = ast.template.unwrap();

    match &template.statements[0] {
        Statement::VarAssign { value, .. } => match value {
            Expression::Binary { operator, .. } => match operator {
                BinaryOp::Equals => {}
                _ => panic!("Expected Equals operator"),
            },
            _ => panic!("Expected Binary expression"),
        },
        _ => panic!("Expected VarAssign statement"),
    }
}

#[test]
fn test_parse_string_literal() {
    let source = "template { let msg = \"Hello, World!\" }";
    let ast = parse(source);
    let template = ast.template.unwrap();

    match &template.statements[0] {
        Statement::VarAssign { value, .. } => match value {
            Expression::StringLiteral(s) => assert_eq!(s, "Hello, World!"),
            _ => panic!("Expected StringLiteral expression"),
        },
        _ => panic!("Expected VarAssign statement"),
    }
}

#[test]
fn test_parse_function_call_no_args() {
    let source = "document { greet() }";
    let ast = parse(source);
    let doc = ast.document.unwrap();

    match &doc.elements[0] {
        DocElement::Call { name, args } => {
            assert_eq!(name, "greet");
            assert_eq!(args.len(), 0);
        }
        _ => panic!("Expected FunctionCall statement"),
    }
}

#[test]
fn test_parse_function_call_with_args() {
    let source = "document { print(\"hello\", \"world\") }";
    let ast = parse(source);
    let doc = ast.document.unwrap();

    match &doc.elements[0] {
        DocElement::Call { name, args } => {
            assert_eq!(name, "print");
            assert_eq!(args.len(), 2);
            assert_eq!(args[0].name, "\"hello\"");
            assert_eq!(args[0].ty, "string");
            assert_eq!(args[1].name, "\"world\"");
        }
        _ => panic!("Expected FunctionCall statement"),
    }
}

#[test]
fn test_parse_multiple_statements() {
    let source = "template { let x = 1 let y = 2 let z = 3 }";
    let ast = parse(source);
    let template = ast.template.unwrap();
    assert_eq!(template.statements.len(), 3);
}

#[test]
fn test_parse_mixed_statements() {
    let source = "template { let x = 10 const MAX = 100 width = 50 }";
    let ast = parse(source);
    let template = ast.template.unwrap();
    assert_eq!(template.statements.len(), 3);

    match &template.statements[0] {
        Statement::VarAssign { .. } => {}
        _ => panic!("Expected VarAssign"),
    }
    match &template.statements[1] {
        Statement::ConstAssign { .. } => {}
        _ => panic!("Expected ConstAssign"),
    }
    match &template.statements[2] {
        Statement::DefaultSet { .. } => {}
        _ => panic!("Expected DefaultSet"),
    }
}

#[test]
fn test_parse_dollar_sign_interpolation() {
    let source = "template { let msg = $ x $ }";
    let ast = parse(source);
    let template = ast.template.unwrap();

    match &template.statements[0] {
        Statement::VarAssign { value, .. } => match value {
            Expression::Identifier(id) => {
                assert_eq!(id, "x");
            }
            _ => panic!("Expected Identifier expression"),
        },
        _ => panic!("Expected VarAssign statement"),
    }
}

// ---------------------------------------------------------------------------
// The grammar beyond the cases above
// ---------------------------------------------------------------------------

#[test]
fn integer_and_decimal_literals_keep_their_kind() {
    let ast = parse("template { let num = 42 let pi = 3.140 width = 100 ratio = 0.50 name = \"x\" }");
    let statements = ast.template.unwrap().statements;
    match &statements[0] {
        Statement::VarAssign { value: Expression::Int(n), .. } => assert_eq!(*n, 42),
        _ => panic!("Expected an integer"),
    }
    match &statements[1] {
        Statement::VarAssign { value: Expression::Float(d), .. } => {
            assert_eq!(d.to_string(), "3.14")
        }
        _ => panic!("Expected a decimal number"),
    }
    match &statements[2] {
        Statement::DefaultSet { key, value: Expression::Int(n) } => {
            assert_eq!(key, "width");
            assert_eq!(*n, 100);
        }
        _ => panic!("Expected an integer default"),
    }
    match &statements[3] {
        Statement::DefaultSet { value: Expression::Float(d), .. } => {
            assert_eq!(d.to_string(), "0.5")
        }
        _ => panic!("Expected a decimal default"),
    }
    match &statements[4] {
        Statement::DefaultSet { value: Expression::StringLiteral(s), .. } => assert_eq!(s, "x"),
        _ => panic!("Expected a string default"),
    }
}

#[test]
fn function_declaration_with_typed_parameters() {
    let ast = parse(
        "template { func card(title: String, width: Int) { const pad = 4 return text { \"Card\" } } }",
    );
    let statements = ast.template.unwrap().statements;
    assert_eq!(statements.len(), 1);
    match &statements[0] {
        Statement::FunctionDecl { name, args, body } => {
            assert_eq!(name, "card");
            assert_eq!(args.len(), 2);
            assert_eq!(args[0].ty, "String");
            assert_eq!(args[1].ty, "Int");
            match &args[0].value {
                Expression::Identifier(n) => assert_eq!(n, "title"),
                _ => panic!("Expected the parameter's name"),
            }
            assert_eq!(body.len(), 2);
            match &body[1] {
                Statement::Return { doc_element: DocElement::Text { content, .. } } => {
                    assert_eq!(content, "Card")
                }
                _ => panic!("Expected a returned text"),
            }
        }
        _ => panic!("Expected FunctionDecl statement"),
    }
}

#[test]
fn text_content_joins_tokens_with_spaces() {
    let ast = parse("document { text { Hello \"big\" world } }");
    match &ast.document.unwrap().elements[0] {
        DocElement::Text { content, attributes } => {
            assert_eq!(content, "Hello big world");
            assert!(attributes.entries.is_empty());
        }
        _ => panic!("Expected a text"),
    }
}

#[test]
fn attributes_sections_and_lists() {
    let ast = parse(
        "document { section (class=\"a b\", id=\"s\") { list { item { one } item (id=\"i\") { two } } } }",
    );
    match &ast.document.unwrap().elements[0] {
        DocElement::Section { elements, attributes } => {
            assert_eq!(attributes.get("class").unwrap().to_string(), "a b");
            assert_eq!(attributes.get("id").unwrap().to_string(), "s");
            assert!(attributes.get("style").is_none());
            assert_eq!(elements.len(), 1);
            match &elements[0] {
                DocElement::List { items, .. } => {
                    assert_eq!(items.len(), 2);
                    match &items[1] {
                        DocElement::Text { content, attributes } => {
                            assert_eq!(content, "two");
                            assert_eq!(attributes.get("id").unwrap().to_string(), "i");
                        }
                        _ => panic!("Expected an item"),
                    }
                }
                _ => panic!("Expected a list"),
            }
        }
        _ => panic!("Expected a section"),
    }
}

#[test]
fn later_attribute_of_a_name_replaces_the_earlier() {
    let ast = parse("document { text (id=\"a\", id=\"b\") { x } }");
    match &ast.document.unwrap().elements[0] {
        DocElement::Text { attributes, .. } => {
            assert_eq!(attributes.entries.len(), 1);
            assert_eq!(attributes.get("id").unwrap().to_string(), "b");
        }
        _ => panic!("Expected a text"),
    }
}

#[test]
fn call_arguments_are_tagged_by_kind() {
    let ast = parse("document { show(\"s\", 12, 1.5, name, 99999999999) }");
    match &ast.document.unwrap().elements[0] {
        DocElement::Call { args, .. } => {
            let tags: Vec<&str> = args.iter().map(|a| a.ty.as_str()).collect();
            assert_eq!(tags, vec!["string", "int", "float", "var", "float"]);
            assert_eq!(args[3].name, "name");
        }
        _ => panic!("Expected a call"),
    }
}

#[test]
fn interpolated_strings() {
    let ast = parse(
        "template { let a = \"Hi {name}!\" let b = \"{{x}}\" let c = \"{1 + n}\" let d = \"{ 7 }\" let e = \"\" }",
    );
    let statements = ast.template.unwrap().statements;
    match &statements[0] {
        Statement::VarAssign { value: Expression::InterpolatedString(parts), .. } => {
            assert_eq!(parts.len(), 3);
        }
        _ => panic!("Expected an interpolated string"),
    }
    match &statements[0] {
        Statement::VarAssign { value, .. } => assert_eq!(value.to_string(), "Hi Error!"),
        _ => panic!("Expected VarAssign"),
    }
    match &statements[1] {
        Statement::VarAssign { value: Expression::StringLiteral(s), .. } => assert_eq!(s, "{x}"),
        _ => panic!("Expected a plain string"),
    }
    match &statements[2] {
        Statement::VarAssign { value: Expression::InterpolatedString(parts), .. } => {
            match &parts[0] {
                pyrus::ast::InterpPart::Expression(Expression::Binary { left, operator, right }) => {
                    assert_eq!(left.as_number(), Some(1));
                    assert_eq!(*operator, BinaryOp::Add);
                    match &**right {
                        Expression::Identifier(n) => assert_eq!(n, "n"),
                        _ => panic!("Expected an identifier"),
                    }
                }
                _ => panic!("Expected a binary expression"),
            }
        }
        _ => panic!("Expected an interpolated string"),
    }
    match &statements[3] {
        Statement::VarAssign { value: Expression::InterpolatedString(parts), .. } => {
            match &parts[0] {
                pyrus::ast::InterpPart::Expression(e) => assert_eq!(e.as_number(), Some(7)),
                _ => panic!("Expected an expression"),
            }
        }
        _ => panic!("Expected an interpolated string"),
    }
    match &statements[4] {
        Statement::VarAssign { value: Expression::StringLiteral(s), .. } => assert_eq!(s, ""),
        _ => panic!("Expected an empty string"),
    }
}

#[test]
fn style_rules_with_selectors_and_declarations() {
    let ast = parse("style { #a, .b, text { font-size = 12; color = \"red\" margin = wide } }");
    let rules = ast.style.unwrap().statements;
    assert_eq!(rules.len(), 1);
    assert_eq!(rules[0].selector_list.len(), 3);
    assert_eq!(rules[0].specificity, 111);
    assert_eq!(rules[0].declaration_block.len(), 3);
    assert_eq!(rules[0].declaration_block[0].key, "font-size");
    assert_eq!(rules[0].declaration_block[1].key, "color");
    match &rules[0].declaration_block[2].value {
        Expression::Identifier(n) => assert_eq!(n, "wide"),
        _ => panic!("Expected an identifier"),
    }
}

#[test]
fn errors_name_their_kind_and_token() {
    assert_eq!(
        parse_error("let"),
        ParseError { kind: ParseErrorKind::UnexpectedToken, index: 0 }
    );
    assert_eq!(
        parse_error("document { image { } }"),
        ParseError { kind: ParseErrorKind::Unsupported, index: 2 }
    );
    assert_eq!(
        parse_error("document { list { text { } } }"),
        ParseError { kind: ParseErrorKind::ExpectedItem, index: 4 }
    );
    assert_eq!(
        parse_error("template { let x = 99999999999999999999 }"),
        ParseError { kind: ParseErrorKind::InvalidNumber, index: 5 }
    );
    assert_eq!(
        parse_error("template { func f() { let"),
        ParseError { kind: ParseErrorKind::UnexpectedEnd, index: 9 }
    );
    assert_eq!(
        parse_error("template { func f() { if } }"),
        ParseError { kind: ParseErrorKind::UnexpectedToken, index: 7 }
    );
    assert_eq!(
        parse_error("template { func f() { "),
        ParseError { kind: ParseErrorKind::UnexpectedEnd, index: 7 }
    );
    assert_eq!(parse_error("document { text { a").kind, ParseErrorKind::UnexpectedEnd);
    assert_eq!(
        parse_error("template { return \"done\" }").kind,
        ParseErrorKind::UnexpectedToken
    );
    assert_eq!(
        parse_error("document { button(class = \"primary\") }").kind,
        ParseErrorKind::UnexpectedToken
    );
    assert_eq!(parse_error("document { p { Hello } }").kind, ParseErrorKind::UnexpectedToken);
}

#[test]
fn stepping_through_tokens() {
    let mut p = Parser::new(lex("a { b { c } d } e"));
    assert_eq!(p.idx, 0);
    assert_eq!(p.current_token_kind(), TokenKind::Identifier);
    assert_eq!(p.current_text(), "a");
    assert_eq!((p.current_token_line(), p.current_token_col()), (1, 1));
    assert_eq!(p.advance(), TokenKind::Identifier);
    assert_eq!(p.idx, 1);
    assert!(!p.match_kind(TokenKind::RightBrace));
    assert_eq!(p.idx, 1);
    p.skip_optional_block();
    assert_eq!(p.idx, 8);
    assert_eq!(p.current_text(), "e");
    assert_eq!(p.current_token_col(), 17);
    p.skip_optional_block();
    assert_eq!(p.idx, 8);
    assert_eq!(p.expect(TokenKind::Identifier), TokenKind::Identifier);
    assert!(p.match_kind(TokenKind::Eof));
    assert_eq!(p.idx, 10);
    assert_eq!(p.advance(), TokenKind::Eof);
    assert_eq!(p.idx, 10);
    p.skip_optional_block();
    assert_eq!(p.idx, 10);

    let mut open = Parser::new(lex("{ { a }"));
    open.skip_optional_block();
    assert_eq!(open.idx, 4);
    assert_eq!(open.current_token_kind(), TokenKind::Eof);
}

#[test]
fn selectors_are_read_up_to_the_brace() {
    let mut p = Parser::new(lex(".a, #b text , . { x"));
    let selectors = p.parse_selector_list();
    // A dot takes the token behind it as its name, whatever it is.
    assert_eq!(
        format!("{:?}", selectors),
        "[Class(\"a\"), Id(\"b\"), Type(\"text\"), Class(\"{\"), Type(\"x\")]"
    );
    assert_eq!(p.current_text(), "");
    assert_eq!(p.current_token_kind(), TokenKind::Eof);

    let mut q = Parser::new(lex("h1 { x = 1 }"));
    let one = q.parse_selector_list();
    assert_eq!(format!("{:?}", one), "[Type(\"h1\")]");
    assert_eq!(q.current_text(), "x");
}
