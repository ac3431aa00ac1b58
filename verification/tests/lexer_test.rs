use pyrus::lexer::{lex, TokenKind, TokenStream};

fn lexeme(ts: &TokenStream, idx: usize) -> String {
    let r = &ts.ranges[idx];
    ts.source.chars().skip(r.start).take(r.end - r.start).collect()
}

#[test]
fn lexes_sample_tokens() {
    let data = "template {\n    title = \"My Document\"\n}\n";
    let tokens = lex(data);

    assert!(!tokens.kinds.is_empty());
    assert_eq!(tokens.kinds[0], TokenKind::Template);
    assert_eq!(tokens.kinds[1], TokenKind::LeftBrace);

    let string_indices: Vec<usize> = tokens
        .kinds
        .iter()
        .enumerate()
        .filter_map(|(i, k)| if *k == TokenKind::StringLiteral { Some(i) } else { None })
        .collect();
    assert!(!string_indices.is_empty(), "expected at least one string literal");
    let found_title = string_indices.iter().any(|&i| lexeme(&tokens, i).contains("My Document"));
    assert!(found_title, "expected a string literal containing 'My Document'");

    assert_eq!(*tokens.kinds.last().unwrap(), TokenKind::Eof);
}

#[test]
fn kinds_ranges_lines_and_columns() {
    let tokens = lex("let x = 12.5\n  #a // note\n/* b\n */ !");
    assert_eq!(
        tokens.kinds,
        vec![
            TokenKind::Let,
            TokenKind::Identifier,
            TokenKind::Equals,
            TokenKind::Float,
            TokenKind::Hash,
            TokenKind::Identifier,
            TokenKind::Bang,
            TokenKind::Eof,
        ]
    );
    assert_eq!(tokens.ranges[3], 8..12);
    assert_eq!(lexeme(&tokens, 3), "12.5");
    assert_eq!(tokens.lines, vec![1, 1, 1, 1, 2, 2, 4, 4]);
    assert_eq!(tokens.cols, vec![1, 5, 7, 9, 3, 4, 2, 3]);
    assert_eq!(tokens.source, "let x = 12.5\n  #a // note\n/* b\n */ !");
}

#[test]
fn every_symbol_and_keyword() {
    let tokens = lex("(){}[],.;:+-*/%=$#!");
    assert_eq!(
        tokens.kinds,
        vec![
            TokenKind::LeftParen,
            TokenKind::RightParen,
            TokenKind::LeftBrace,
            TokenKind::RightBrace,
            TokenKind::LeftBracket,
            TokenKind::RightBracket,
            TokenKind::Comma,
            TokenKind::Dot,
            TokenKind::Semicolon,
            TokenKind::Colon,
            TokenKind::Plus,
            TokenKind::Minus,
            TokenKind::Star,
            TokenKind::Slash,
            TokenKind::Percent,
            TokenKind::Equals,
            TokenKind::Dollarsign,
            TokenKind::Hash,
            TokenKind::Bang,
            TokenKind::Eof,
        ]
    );
    let words = lex(
        "template document style let const if else for while return func text list image link table section other",
    );
    assert_eq!(
        words.kinds,
        vec![
            TokenKind::Template,
            TokenKind::Document,
            TokenKind::Style,
            TokenKind::Let,
            TokenKind::Const,
            TokenKind::If,
            TokenKind::Else,
            TokenKind::For,
            TokenKind::While,
            TokenKind::Return,
            TokenKind::Func,
            TokenKind::Text,
            TokenKind::List,
            TokenKind::Image,
            TokenKind::Link,
            TokenKind::Table,
            TokenKind::Section,
            TokenKind::Identifier,
            TokenKind::Eof,
        ]
    );
}

#[test]
fn strings_numbers_and_unknown_characters() {
    let tokens = lex("\"a\\\"b\" 7 7. 1.2.3 \u{e9}x \"open");
    assert_eq!(
        tokens.kinds,
        vec![
            TokenKind::StringLiteral,
            TokenKind::Int,
            TokenKind::Float,
            TokenKind::Float,
            TokenKind::Dot,
            TokenKind::Int,
            TokenKind::Identifier,
            TokenKind::StringLiteral,
            TokenKind::Eof,
        ]
    );
    assert_eq!(lexeme(&tokens, 0), "\"a\\\"b\"");
    assert_eq!(lexeme(&tokens, 2), "7.");
    assert_eq!(lexeme(&tokens, 3), "1.2");
    assert_eq!(lexeme(&tokens, 6), "x");
    assert_eq!(lexeme(&tokens, 7), "\"open");
    let end = tokens.source.chars().count();
    assert_eq!(tokens.ranges[8], end..end);
}

#[test]
fn empty_source_is_the_end_mark_alone() {
    let tokens = lex("");
    assert_eq!(tokens.kinds, vec![TokenKind::Eof]);
    assert_eq!(tokens.ranges[0], 0..0);
    assert_eq!(tokens.lines, vec![1]);
    assert_eq!(tokens.cols, vec![1]);
}

#[test]
fn streams_that_are_and_are_not_well_formed() {
    let mut tokens = lex("a = \"é\"");
    assert!(tokens.is_well_formed());
    assert_eq!(tokens.ranges[2], 4..7);
    tokens.ranges[2] = 4..8;
    assert!(!tokens.is_well_formed());
    tokens.ranges[2] = 5..4;
    assert!(!tokens.is_well_formed());
    tokens.ranges[2] = 7..7;
    assert!(tokens.is_well_formed());
    tokens.lines.pop();
    assert!(!tokens.is_well_formed());

    let mut built = TokenStream::new("ab".to_string());
    assert!(built.is_well_formed());
    built.push(TokenKind::Identifier, 0, 2, 1, 1);
    built.push(TokenKind::Eof, 2, 2, 1, 3);
    assert!(built.is_well_formed());
    assert_eq!(built.kinds, vec![TokenKind::Identifier, TokenKind::Eof]);
    assert_eq!(built.ranges, vec![0..2, 2..2]);
    assert_eq!(built.lines, vec![1, 1]);
    assert_eq!(built.cols, vec![1, 3]);
}
