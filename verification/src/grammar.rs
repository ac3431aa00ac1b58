//! The grammar of the source language, as functions from a position in
//! the tokens to what stands there and the position behind it.

use vstd::prelude::*;
use crate::assoc::put;
use crate::ast::{
    specificity_of, AstModel, BinaryOp, ElementModel, ExprModel, PartModel, RuleModel,
    SelectorModel, StatementModel, UnaryOp,
};
use crate::decimal::{decimal_of_text, is_decimal};
use crate::lexer::TokenKind;
use crate::text::{i64_of_text, int_of_text, trim};

verus! {

/// The tokens as the grammar reads them: the kind and the text of each.
pub struct Tokens {
    pub kinds: Seq<TokenKind>,
    pub texts: Seq<Seq<char>>,
}

/// The kinds of errors that parsing ends with.
#[derive(Debug, Clone, Copy, PartialEq, Eq, Structural)]
pub enum ParseErrorKind {
    /// A token that the grammar has no place for stands at this position.
    UnexpectedToken,
    /// The tokens end where the grammar wants more.
    UnexpectedEnd,
    /// A number that is too large to be held.
    InvalidNumber,
    /// An image, a link or a table, which the grammar names and does not read yet.
    Unsupported,
    /// A list holds something other than an `item`.
    ExpectedItem,
}

/// Why the tokens cannot be parsed, and the index of the token at which it shows.
#[derive(Debug, Clone, Copy, PartialEq, Eq, Structural)]
pub struct ParseError {
    pub kind: ParseErrorKind,
    pub index: usize,
}

/// The error of the kind `kind` at the token `i`.
pub open spec fn fail(kind: ParseErrorKind, i: int) -> ParseError {
    ParseError { kind, index: i as usize }
}

/// The kind of the token at `i`.
pub open spec fn kind_at(t: Tokens, i: int) -> Result<TokenKind, ParseError> {
    if 0 <= i < t.kinds.len() {
        Ok(t.kinds[i])
    } else {
        Err(fail(ParseErrorKind::UnexpectedEnd, i))
    }
}

/// The position behind the token at `i`, which is of the kind `kind`.
pub open spec fn eat(t: Tokens, i: int, kind: TokenKind) -> Result<int, ParseError> {
    match kind_at(t, i) {
        Ok(k) => if k == kind {
            Ok(i + 1)
        } else {
            Err(fail(ParseErrorKind::UnexpectedToken, i))
        },
        Err(e) => Err(e),
    }
}

// ---------------------------------------------------------------------------
// Text inside a string literal
// ---------------------------------------------------------------------------

/// The first index at or after `i` that holds no double quote, or the length.
pub open spec fn skip_quotes(s: Seq<char>, i: int) -> int
    decreases s.len() - i,
{
    if 0 <= i < s.len() && s[i] == '"' {
        skip_quotes(s, i + 1)
    } else {
        i
    }
}

/// The end of `s[lo..j]` once its trailing double quotes are dropped.
pub open spec fn back_quotes(s: Seq<char>, lo: int, j: int) -> int
    decreases j,
{
    if 0 <= lo < j <= s.len() && s[j - 1] == '"' {
        back_quotes(s, lo, j - 1)
    } else {
        j
    }
}

/// `s` without the double quotes at its start and at its end.
pub open spec fn strip_quotes(s: Seq<char>) -> Seq<char> {
    let lo = skip_quotes(s, 0);
    s.subrange(lo, back_quotes(s, lo, s.len() as int))
}

/// Whether `c` is one of the operator characters `+ - * / =`.
pub open spec fn is_operator(c: char) -> bool {
    c == '+' || c == '-' || c == '*' || c == '/' || c == '='
}

/// The operator that an operator character writes.
pub open spec fn operator_of(c: char) -> BinaryOp {
    if c == '+' {
        BinaryOp::Add
    } else if c == '-' {
        BinaryOp::Subtract
    } else if c == '*' {
        BinaryOp::Multiply
    } else if c == '/' {
        BinaryOp::Divide
    } else {
        BinaryOp::Equals
    }
}

/// The index of the first operator character at or after `i`, or the length.
pub open spec fn find_operator(s: Seq<char>, i: int) -> int
    decreases s.len() - i,
{
    if 0 <= i < s.len() && !is_operator(s[i]) {
        find_operator(s, i + 1)
    } else {
        i
    }
}

/// The expression that the text between the braces of an interpolated
/// string writes: nothing, an integer, a decimal number, a quoted string,
/// two expressions about the first operator character, or an identifier.
pub open spec fn expression_of_text(s: Seq<char>) -> ExprModel
    decreases s.len(),
{
    let t = trim(s);
    if t.len() == 0 {
        ExprModel::StringLiteral(Seq::empty())
    } else if i64_of_text(t) is Some {
        ExprModel::Int(i64_of_text(t)->0 as int)
    } else if decimal_of_text(t) is Some {
        ExprModel::Float(decimal_of_text(t)->0)
    } else if t.len() >= 2 && t[0] == '"' && t[t.len() - 1] == '"' {
        ExprModel::StringLiteral(t.subrange(1, t.len() - 1))
    } else {
        let k = find_operator(t, 0);
        if 0 <= k < t.len() && t.len() <= s.len() {
            ExprModel::Binary {
                left: Box::new(expression_of_text(t.subrange(0, k))),
                operator: operator_of(t[k]),
                right: Box::new(expression_of_text(t.subrange(k + 1, t.len() as int))),
            }
        } else {
            ExprModel::Identifier(t)
        }
    }
}

/// The index of the brace that closes the one behind which `i` stands,
/// with `depth` braces open, or the length where none does.
pub open spec fn brace_end(s: Seq<char>, i: int, depth: int) -> int
    decreases s.len() - i,
{
    if !(0 <= i < s.len()) {
        i
    } else if s[i] == '{' {
        brace_end(s, i + 1, depth + 1)
    } else if s[i] == '}' {
        if depth <= 1 {
            i
        } else {
            brace_end(s, i + 1, depth - 1)
        }
    } else {
        brace_end(s, i + 1, depth)
    }
}

/// The parts with the text `cur` behind them, where there is any.
pub open spec fn flush(parts: Seq<PartModel>, cur: Seq<char>) -> Seq<PartModel> {
    if cur.len() > 0 {
        parts.push(PartModel::Text(cur))
    } else {
        parts
    }
}

/// The expression that parts make: a plain string where they are at
/// most one part of text, and an interpolated string else.
pub open spec fn expression_of_parts(parts: Seq<PartModel>) -> ExprModel {
    if parts.len() == 0 {
        ExprModel::StringLiteral(Seq::empty())
    } else if parts.len() == 1 && parts[0] is Text {
        ExprModel::StringLiteral(parts[0]->Text_0)
    } else {
        ExprModel::InterpolatedString(parts)
    }
}

/// The parts of the text of a string from `i` on, behind `parts` and the
/// text `cur`: `{{` and `}}` write one brace, and what stands between
/// single braces is an expression.
pub open spec fn parts_from(s: Seq<char>, i: int, parts: Seq<PartModel>, cur: Seq<char>) -> Seq<
    PartModel,
>
    decreases s.len() - i,
{
    if !(0 <= i < s.len()) {
        flush(parts, cur)
    } else if s[i] == '{' {
        if i + 1 < s.len() && s[i + 1] == '{' {
            parts_from(s, i + 2, parts, cur.push('{'))
        } else {
            let e = brace_end(s, i + 1, 1);
            let next = if e < s.len() {
                e + 1
            } else {
                e
            };
            if i < e <= s.len() {
                parts_from(
                    s,
                    next,
                    flush(parts, cur).push(
                        PartModel::Expression(expression_of_text(s.subrange(i + 1, e))),
                    ),
                    Seq::empty(),
                )
            } else {
                flush(parts, cur)
            }
        }
    } else if s[i] == '}' && i + 1 < s.len() && s[i + 1] == '}' {
        parts_from(s, i + 2, parts, cur.push('}'))
    } else {
        parts_from(s, i + 1, parts, cur.push(s[i]))
    }
}

/// The expression that the text of a string literal writes.
pub open spec fn interpolation_of(s: Seq<char>) -> ExprModel {
    expression_of_parts(parts_from(s, 0, Seq::empty(), Seq::empty()))
}

// ---------------------------------------------------------------------------
// Expressions
// ---------------------------------------------------------------------------

/// The operator that a token of this kind writes, if it writes one.
pub open spec fn binary_op_of(k: TokenKind) -> Option<BinaryOp> {
    if k == TokenKind::Plus {
        Some(BinaryOp::Add)
    } else if k == TokenKind::Minus {
        Some(BinaryOp::Subtract)
    } else if k == TokenKind::Star {
        Some(BinaryOp::Multiply)
    } else if k == TokenKind::Slash {
        Some(BinaryOp::Divide)
    } else if k == TokenKind::Equals {
        Some(BinaryOp::Equals)
    } else {
        None
    }
}

/// The expression that starts at `i`, and the position behind it.
pub open spec fn expression_at(t: Tokens, i: int) -> Result<(ExprModel, int), ParseError>
    decreases t.kinds.len() - i,
{
    match kind_at(t, i) {
        Err(e) => Err(e),
        Ok(k) => if k == TokenKind::Minus || k == TokenKind::Bang {
            match expression_at(t, i + 1) {
                Ok((e, j)) => Ok(
                    (
                        ExprModel::Unary {
                            operator: if k == TokenKind::Minus {
                                UnaryOp::Negate
                            } else {
                                UnaryOp::Not
                            },
                            expression: Box::new(e),
                        },
                        j,
                    ),
                ),
                Err(x) => Err(x),
            }
        } else if k == TokenKind::StringLiteral {
            Ok((interpolation_of(strip_quotes(t.texts[i])), i + 1))
        } else if k == TokenKind::Float {
            match decimal_of_text(t.texts[i]) {
                Some(d) => Ok((ExprModel::Float(d), i + 1)),
                None => Err(fail(ParseErrorKind::InvalidNumber, i)),
            }
        } else if k == TokenKind::Int {
            match i64_of_text(t.texts[i]) {
                Some(n) => Ok((ExprModel::Int(n as int), i + 1)),
                None => Err(fail(ParseErrorKind::InvalidNumber, i)),
            }
        } else if k == TokenKind::Dollarsign {
            match expression_at(t, i + 1) {
                Ok((e, j)) => Ok(
                    (
                        e,
                        if j < t.kinds.len() {
                            j + 1
                        } else {
                            j
                        },
                    ),
                ),
                Err(x) => Err(x),
            }
        } else if k == TokenKind::Identifier {
            binary_at(t, i)
        } else {
            Err(fail(ParseErrorKind::UnexpectedToken, i))
        },
    }
}

/// The expression that starts with the identifier at `i`: the identifier
/// alone, or with an operator and an expression behind it.
pub open spec fn binary_at(t: Tokens, i: int) -> Result<(ExprModel, int), ParseError>
    decreases t.kinds.len() - i - 1,
{
    match kind_at(t, i) {
        Err(e) => Err(e),
        Ok(k) => if k != TokenKind::Identifier {
            Err(fail(ParseErrorKind::UnexpectedToken, i))
        } else {
            match kind_at(t, i + 1) {
                Err(e) => Err(e),
                Ok(k2) => match binary_op_of(k2) {
                    Some(operator) => match expression_at(t, i + 2) {
                        Ok((right, j)) => Ok(
                            (
                                ExprModel::Binary {
                                    left: Box::new(ExprModel::Identifier(t.texts[i])),
                                    operator,
                                    right: Box::new(right),
                                },
                                j,
                            ),
                        ),
                        Err(x) => Err(x),
                    },
                    None => Ok((ExprModel::Identifier(t.texts[i]), i + 1)),
                },
            }
        },
    }
}

// ---------------------------------------------------------------------------
// Elements of the document
// ---------------------------------------------------------------------------

/// The attributes from `i` on, behind those of `acc`, up to the closing parenthesis.
pub open spec fn attributes_from(t: Tokens, i: int, acc: Seq<(Seq<char>, ExprModel)>) -> Result<
    (Seq<(Seq<char>, ExprModel)>, int),
    ParseError,
>
    decreases t.kinds.len() - i,
{
    match kind_at(t, i) {
        Err(e) => Err(e),
        Ok(k) => if k == TokenKind::RightParen {
            Ok((acc, i + 1))
        } else {
            match eat(t, i + 1, TokenKind::Equals) {
                Err(e) => Err(e),
                Ok(j) => match expression_at(t, j) {
                    Err(e) => Err(e),
                    Ok((value, j2)) => match kind_at(t, j2) {
                        Err(e) => Err(e),
                        Ok(k2) => {
                            let next = if k2 == TokenKind::Comma {
                                j2 + 1
                            } else {
                                j2
                            };
                            if next > i {
                                attributes_from(t, next, put(acc, t.texts[i], value))
                            } else {
                                Err(fail(ParseErrorKind::UnexpectedToken, i))
                            }
                        },
                    },
                },
            }
        },
    }
}

/// The attributes in parentheses at `i`; none where no parenthesis opens there.
pub open spec fn style_attributes_at(t: Tokens, i: int) -> Result<
    (Seq<(Seq<char>, ExprModel)>, int),
    ParseError,
> {
    match kind_at(t, i) {
        Err(e) => Err(e),
        Ok(k) => if k == TokenKind::LeftParen {
            attributes_from(t, i + 1, Seq::empty())
        } else {
            Ok((Seq::empty(), i))
        },
    }
}

/// The text of the tokens from `i` up to the closing brace, with a space
/// between two tokens, behind `acc`. A string literal gives its text
/// without its quotes.
pub open spec fn text_content_from(t: Tokens, i: int, acc: Seq<char>) -> Result<
    (Seq<char>, int),
    ParseError,
>
    decreases t.kinds.len() - i,
{
    match kind_at(t, i) {
        Err(e) => Err(e),
        Ok(k) => if k == TokenKind::RightBrace {
            Ok((acc, i))
        } else {
            let piece = if k == TokenKind::StringLiteral {
                strip_quotes(t.texts[i])
            } else {
                t.texts[i]
            };
            match kind_at(t, i + 1) {
                Err(e) => Err(e),
                Ok(k2) => text_content_from(
                    t,
                    i + 1,
                    if k2 != TokenKind::RightBrace {
                        acc + piece + seq![' ']
                    } else {
                        acc + piece
                    },
                ),
            }
        },
    }
}

/// The items of a list from `i` up to the closing brace, behind those of `acc`.
pub open spec fn list_from(t: Tokens, i: int, acc: Seq<ElementModel>) -> Result<
    (Seq<ElementModel>, int),
    ParseError,
>
    decreases t.kinds.len() - i,
{
    match kind_at(t, i) {
        Err(e) => Err(e),
        Ok(k) => if k == TokenKind::RightBrace {
            Ok((acc, i))
        } else if k == TokenKind::Identifier && t.texts[i] == "item"@ {
            match style_attributes_at(t, i + 1) {
                Err(e) => Err(e),
                Ok((attributes, j)) => match eat(t, j, TokenKind::LeftBrace) {
                    Err(e) => Err(e),
                    Ok(j2) => match text_content_from(t, j2, Seq::empty()) {
                        Err(e) => Err(e),
                        Ok((content, j3)) => match eat(t, j3, TokenKind::RightBrace) {
                            Err(e) => Err(e),
                            Ok(j4) => if i < j4 <= t.kinds.len() {
                                list_from(t, j4, acc.push(ElementModel::Text { content, attributes }))
                            } else {
                                Err(fail(ParseErrorKind::UnexpectedToken, i))
                            },
                        },
                    },
                },
            }
        } else {
            Err(fail(ParseErrorKind::ExpectedItem, i))
        },
    }
}

/// The integer that `s` writes, where it fits in 32 bits.
pub open spec fn fits_i32(s: Seq<char>) -> bool {
    int_of_text(s) matches Some(n) && i32::MIN <= n <= i32::MAX
}

/// The tag of the kind of an argument: a quoted string, an integer, a
/// decimal number, or else a variable.
pub open spec fn arg_tag(name: Seq<char>) -> Seq<char> {
    if name.len() > 0 && name[0] == '"' {
        "string"@
    } else if fits_i32(name) {
        "int"@
    } else if is_decimal(name) {
        "float"@
    } else {
        "var"@
    }
}

/// The arguments of a call from `i` up to the closing parenthesis, behind those of `acc`.
pub open spec fn call_args_from(t: Tokens, i: int, acc: Seq<(Seq<char>, Seq<char>)>) -> Result<
    (Seq<(Seq<char>, Seq<char>)>, int),
    ParseError,
>
    decreases t.kinds.len() - i,
{
    match kind_at(t, i) {
        Err(e) => Err(e),
        Ok(k) => if k == TokenKind::RightParen {
            Ok((acc, i))
        } else {
            let arg = (t.texts[i], arg_tag(t.texts[i]));
            match kind_at(t, i + 1) {
                Err(e) => Err(e),
                Ok(k2) => if k2 == TokenKind::Comma {
                    call_args_from(t, i + 2, acc.push(arg))
                } else if k2 == TokenKind::RightParen {
                    Ok((acc.push(arg), i + 1))
                } else {
                    Err(fail(ParseErrorKind::UnexpectedToken, i + 1))
                },
            }
        },
    }
}

/// The call that starts with the name at `i`.
pub open spec fn call_at(t: Tokens, i: int) -> Result<(ElementModel, int), ParseError> {
    if kind_at(t, i) is Ok && kind_at(t, i + 1) == Ok::<TokenKind, ParseError>(TokenKind::LeftParen) {
        match call_args_from(t, i + 2, Seq::empty()) {
            Err(e) => Err(e),
            Ok((args, j)) => match eat(t, j, TokenKind::RightParen) {
                Err(e) => Err(e),
                Ok(j2) => Ok((ElementModel::Call { name: t.texts[i], args }, j2)),
            },
        }
    } else {
        Err(fail(ParseErrorKind::UnexpectedToken, i))
    }
}

/// The element that starts at `i`, and the position behind it.
pub open spec fn element_at(t: Tokens, i: int) -> Result<(ElementModel, int), ParseError>
    decreases t.kinds.len() - i, 0nat,
{
    match kind_at(t, i) {
        Err(e) => Err(e),
        Ok(k) => if k == TokenKind::Text {
            match style_attributes_at(t, i + 1) {
                Err(e) => Err(e),
                Ok((attributes, j)) => match eat(t, j, TokenKind::LeftBrace) {
                    Err(e) => Err(e),
                    Ok(j2) => match text_content_from(t, j2, Seq::empty()) {
                        Err(e) => Err(e),
                        Ok((content, j3)) => match eat(t, j3, TokenKind::RightBrace) {
                            Err(e) => Err(e),
                            Ok(j4) => Ok((ElementModel::Text { content, attributes }, j4)),
                        },
                    },
                },
            }
        } else if k == TokenKind::List {
            match style_attributes_at(t, i + 1) {
                Err(e) => Err(e),
                Ok((attributes, j)) => match eat(t, j, TokenKind::LeftBrace) {
                    Err(e) => Err(e),
                    Ok(j2) => match list_from(t, j2, Seq::empty()) {
                        Err(e) => Err(e),
                        Ok((items, j3)) => match eat(t, j3, TokenKind::RightBrace) {
                            Err(e) => Err(e),
                            Ok(j4) => Ok((ElementModel::List { items, attributes }, j4)),
                        },
                    },
                },
            }
        } else if k == TokenKind::Image || k == TokenKind::Link || k == TokenKind::Table {
            Err(fail(ParseErrorKind::Unsupported, i))
        } else if k == TokenKind::Section {
            match style_attributes_at(t, i + 1) {
                Err(e) => Err(e),
                Ok((attributes, j)) => match eat(t, j, TokenKind::LeftBrace) {
                    Err(e) => Err(e),
                    Ok(j2) => if i < j2 <= t.kinds.len() {
                        match block_from(t, j2, Seq::empty()) {
                            Err(e) => Err(e),
                            Ok((elements, j3)) => Ok(
                                (ElementModel::Section { elements, attributes }, j3),
                            ),
                        }
                    } else {
                        Err(fail(ParseErrorKind::UnexpectedToken, i))
                    },
                },
            }
        } else if k == TokenKind::Identifier {
            call_at(t, i)
        } else {
            Err(fail(ParseErrorKind::UnexpectedToken, i))
        },
    }
}

/// The elements of a block from `i` on, behind those of `acc`: up to and
/// with the closing brace, or up to the end mark.
pub open spec fn block_from(t: Tokens, i: int, acc: Seq<ElementModel>) -> Result<
    (Seq<ElementModel>, int),
    ParseError,
>
    decreases t.kinds.len() - i, 1nat,
{
    if !(0 <= i < t.kinds.len()) {
        Ok((acc, i))
    } else if t.kinds[i] == TokenKind::RightBrace {
        Ok((acc, i + 1))
    } else if t.kinds[i] == TokenKind::Eof {
        Ok((acc, i))
    } else {
        match element_at(t, i) {
            Err(e) => Err(e),
            Ok((element, j)) => if i < j <= t.kinds.len() {
                block_from(t, j, acc.push(element))
            } else {
                Err(fail(ParseErrorKind::UnexpectedToken, i))
            },
        }
    }
}

// ---------------------------------------------------------------------------
// Statements of the template
// ---------------------------------------------------------------------------

/// The value of a default: an integer or a decimal number where the
/// text without quotes writes one, and that text as a string else.
pub open spec fn default_value(text: Seq<char>) -> ExprModel {
    let s = strip_quotes(text);
    match i64_of_text(s) {
        Some(n) => ExprModel::Int(n as int),
        None => match decimal_of_text(s) {
            Some(d) => ExprModel::Float(d),
            None => ExprModel::StringLiteral(s),
        },
    }
}

/// The statement that starts at `i`, and the position behind it.
pub open spec fn statement_at(t: Tokens, i: int) -> Result<(StatementModel, int), ParseError> {
    match kind_at(t, i) {
        Err(e) => Err(e),
        Ok(k) => if k == TokenKind::Identifier {
            match eat(t, i + 1, TokenKind::Equals) {
                Err(e) => Err(e),
                Ok(j) => match kind_at(t, j) {
                    Err(e) => Err(e),
                    Ok(_) => Ok(
                        (
                            StatementModel::DefaultSet {
                                key: t.texts[i],
                                value: default_value(t.texts[j]),
                            },
                            j + 1,
                        ),
                    ),
                },
            }
        } else if k == TokenKind::Let || k == TokenKind::Const {
            match kind_at(t, i + 1) {
                Err(e) => Err(e),
                Ok(_) => match eat(t, i + 2, TokenKind::Equals) {
                    Err(e) => Err(e),
                    Ok(j) => match expression_at(t, j) {
                        Err(e) => Err(e),
                        Ok((value, j2)) => Ok(
                            (
                                if k == TokenKind::Let {
                                    StatementModel::VarAssign { name: t.texts[i + 1], value }
                                } else {
                                    StatementModel::ConstAssign { name: t.texts[i + 1], value }
                                },
                                j2,
                            ),
                        ),
                    },
                },
            }
        } else if k == TokenKind::Return {
            match element_at(t, i + 1) {
                Err(e) => Err(e),
                Ok((doc_element, j)) => Ok((StatementModel::Return { doc_element }, j)),
            }
        } else {
            Err(fail(ParseErrorKind::UnexpectedToken, i))
        },
    }
}

/// The parameters of a function from `i` up to and with the closing
/// parenthesis, behind those of `acc`, each as type tag and name.
pub open spec fn params_from(t: Tokens, i: int, acc: Seq<(Seq<char>, ExprModel)>) -> Result<
    (Seq<(Seq<char>, ExprModel)>, int),
    ParseError,
>
    decreases t.kinds.len() - i,
{
    match kind_at(t, i) {
        Err(e) => Err(e),
        Ok(k) => if k == TokenKind::RightParen {
            Ok((acc, i + 1))
        } else if k == TokenKind::Identifier {
            match expression_at(t, i) {
                Err(e) => Err(e),
                Ok((name, j)) => match eat(t, j, TokenKind::Colon) {
                    Err(e) => Err(e),
                    Ok(j2) => match eat(t, j2, TokenKind::Identifier) {
                        Err(e) => Err(e),
                        Ok(j3) => match kind_at(t, j3) {
                            Err(e) => Err(e),
                            Ok(k3) => {
                                let next = if k3 == TokenKind::Comma {
                                    j3 + 1
                                } else {
                                    j3
                                };
                                if next > i {
                                    params_from(t, next, acc.push((t.texts[j2], name)))
                                } else {
                                    Err(fail(ParseErrorKind::UnexpectedToken, i))
                                }
                            },
                        },
                    },
                },
            }
        } else {
            Err(fail(ParseErrorKind::UnexpectedToken, i))
        },
    }
}

/// The statements of a function body from `i` up to and with the closing
/// brace, behind those of `acc`.
pub open spec fn body_from(t: Tokens, i: int, acc: Seq<StatementModel>) -> Result<
    (Seq<StatementModel>, int),
    ParseError,
>
    decreases t.kinds.len() - i,
{
    if !(0 <= i < t.kinds.len()) {
        Ok((acc, i))
    } else if t.kinds[i] == TokenKind::RightBrace {
        Ok((acc, i + 1))
    } else if t.kinds[i] == TokenKind::Eof {
        Err(fail(ParseErrorKind::UnexpectedEnd, i))
    } else {
        match statement_at(t, i) {
            Err(e) => Err(e),
            Ok((statement, j)) => if i < j <= t.kinds.len() {
                body_from(t, j, acc.push(statement))
            } else {
                Err(fail(ParseErrorKind::UnexpectedToken, i))
            },
        }
    }
}

/// The function declaration that starts at `i`.
pub open spec fn func_decl_at(t: Tokens, i: int) -> Result<(StatementModel, int), ParseError> {
    match eat(t, i, TokenKind::Func) {
        Err(e) => Err(e),
        Ok(_) => match eat(t, i + 1, TokenKind::Identifier) {
            Err(e) => Err(e),
            Ok(_) => match eat(t, i + 2, TokenKind::LeftParen) {
                Err(e) => Err(e),
                Ok(_) => match params_from(t, i + 3, Seq::empty()) {
                    Err(e) => Err(e),
                    Ok((args, j)) => match eat(t, j, TokenKind::LeftBrace) {
                        Err(e) => Err(e),
                        Ok(j2) => match body_from(t, j2, Seq::empty()) {
                            Err(e) => Err(e),
                            Ok((body, j3)) => Ok(
                                (StatementModel::FunctionDecl { name: t.texts[i + 1], args, body }, j3),
                            ),
                        },
                    },
                },
            },
        },
    }
}

/// The statements of the template section from `i` on, behind those of
/// `acc`: up to and with the closing brace, or up to the end mark.
pub open spec fn template_from(t: Tokens, i: int, acc: Seq<StatementModel>) -> Result<
    (Seq<StatementModel>, int),
    ParseError,
>
    decreases t.kinds.len() - i,
{
    if !(0 <= i < t.kinds.len()) {
        Ok((acc, i))
    } else if t.kinds[i] == TokenKind::RightBrace {
        Ok((acc, i + 1))
    } else if t.kinds[i] == TokenKind::Eof {
        Ok((acc, i))
    } else {
        match if t.kinds[i] == TokenKind::Func {
            func_decl_at(t, i)
        } else {
            statement_at(t, i)
        } {
            Err(e) => Err(e),
            Ok((statement, j)) => if i < j <= t.kinds.len() {
                template_from(t, j, acc.push(statement))
            } else {
                Err(fail(ParseErrorKind::UnexpectedToken, i))
            },
        }
    }
}

// ---------------------------------------------------------------------------
// Rules of the style section
// ---------------------------------------------------------------------------

/// The selectors from `i` on, behind those of `acc`: up to and with the
/// opening brace of the declarations, or up to the end mark. A dot
/// before a name makes it a class, a hash an id.
pub open spec fn selectors_from(t: Tokens, i: int, acc: Seq<SelectorModel>) -> (Seq<SelectorModel>, int)
    decreases t.kinds.len() - i,
{
    if !(0 <= i < t.kinds.len()) {
        (acc, i)
    } else if t.kinds[i] == TokenKind::Comma {
        selectors_from(t, i + 1, acc)
    } else if t.kinds[i] == TokenKind::LeftBrace {
        (acc, i + 1)
    } else if t.kinds[i] == TokenKind::Eof {
        (acc, i)
    } else if (t.texts[i] == "."@ || t.texts[i] == "#"@) && i + 1 < t.kinds.len() {
        selectors_from(
            t,
            i + 2,
            acc.push(
                if t.texts[i] == "."@ {
                    SelectorModel::Class(t.texts[i + 1])
                } else {
                    SelectorModel::Id(t.texts[i + 1])
                },
            ),
        )
    } else {
        selectors_from(t, i + 1, acc.push(SelectorModel::Type(t.texts[i])))
    }
}

/// The name of a property: the texts of the tokens from `i` up to the
/// equals sign, behind `acc`.
pub open spec fn property_from(t: Tokens, i: int, acc: Seq<char>) -> Result<
    (Seq<char>, int),
    ParseError,
>
    decreases t.kinds.len() - i,
{
    match kind_at(t, i) {
        Err(e) => Err(e),
        Ok(k) => if k == TokenKind::Equals {
            Ok((acc, i))
        } else {
            property_from(t, i + 1, acc + t.texts[i])
        },
    }
}

/// The declarations from `i` on, behind those of `acc`: up to and with
/// the closing brace, or up to the end mark.
pub open spec fn declarations_from(t: Tokens, i: int, acc: Seq<(Seq<char>, ExprModel)>) -> Result<
    (Seq<(Seq<char>, ExprModel)>, int),
    ParseError,
>
    decreases t.kinds.len() - i,
{
    if !(0 <= i < t.kinds.len()) {
        Ok((acc, i))
    } else if t.kinds[i] == TokenKind::Semicolon {
        declarations_from(t, i + 1, acc)
    } else if t.kinds[i] == TokenKind::RightBrace {
        Ok((acc, i + 1))
    } else if t.kinds[i] == TokenKind::Eof {
        Ok((acc, i))
    } else {
        match property_from(t, i, Seq::empty()) {
            Err(e) => Err(e),
            Ok((property, j)) => match expression_at(t, j + 1) {
                Err(e) => Err(e),
                Ok((value, j2)) => if i < j2 <= t.kinds.len() {
                    declarations_from(t, j2, acc.push((property, value)))
                } else {
                    Err(fail(ParseErrorKind::UnexpectedToken, i))
                },
            },
        }
    }
}

/// The rule that starts at `i`: its selectors and its declarations.
pub open spec fn rule_at(t: Tokens, i: int) -> Result<(RuleModel, int), ParseError> {
    let (selectors, j) = selectors_from(t, i, Seq::empty());
    match declarations_from(t, j, Seq::empty()) {
        Err(e) => Err(e),
        Ok((declarations, j2)) => Ok(
            (RuleModel { selectors, declarations, specificity: specificity_of(selectors) }, j2),
        ),
    }
}

/// The rules of the style section from `i` on, behind those of `acc`.
pub open spec fn rules_from(t: Tokens, i: int, acc: Seq<RuleModel>) -> Result<
    (Seq<RuleModel>, int),
    ParseError,
>
    decreases t.kinds.len() - i,
{
    if !(0 <= i < t.kinds.len()) {
        Ok((acc, i))
    } else if t.kinds[i] == TokenKind::RightBrace {
        Ok((acc, i + 1))
    } else if t.kinds[i] == TokenKind::Eof {
        Ok((acc, i))
    } else {
        match rule_at(t, i) {
            Err(e) => Err(e),
            Ok((rule, j)) => if i < j <= t.kinds.len() {
                rules_from(t, j, acc.push(rule))
            } else {
                Err(fail(ParseErrorKind::UnexpectedToken, i))
            },
        }
    }
}

// ---------------------------------------------------------------------------
// The three sections
// ---------------------------------------------------------------------------

/// The sections from `i` on, laid over those of `acc`: a later section
/// of a kind takes the place of an earlier one.
pub open spec fn sections_from(t: Tokens, i: int, acc: AstModel) -> Result<AstModel, ParseError>
    decreases t.kinds.len() - i,
{
    if !(0 <= i < t.kinds.len()) {
        Ok(acc)
    } else if t.kinds[i] == TokenKind::Template {
        match eat(t, i + 1, TokenKind::LeftBrace) {
            Err(e) => Err(e),
            Ok(j) => match template_from(t, j, Seq::empty()) {
                Err(e) => Err(e),
                Ok((statements, j2)) => if i < j2 <= t.kinds.len() {
                    sections_from(t, j2, AstModel { template: Some(statements), ..acc })
                } else {
                    Err(fail(ParseErrorKind::UnexpectedToken, i))
                },
            },
        }
    } else if t.kinds[i] == TokenKind::Document {
        match eat(t, i + 1, TokenKind::LeftBrace) {
            Err(e) => Err(e),
            Ok(j) => match block_from(t, j, Seq::empty()) {
                Err(e) => Err(e),
                Ok((elements, j2)) => if i < j2 <= t.kinds.len() {
                    sections_from(t, j2, AstModel { document: Some(elements), ..acc })
                } else {
                    Err(fail(ParseErrorKind::UnexpectedToken, i))
                },
            },
        }
    } else if t.kinds[i] == TokenKind::Style {
        match eat(t, i + 1, TokenKind::LeftBrace) {
            Err(e) => Err(e),
            Ok(j) => match rules_from(t, j, Seq::empty()) {
                Err(e) => Err(e),
                Ok((rules, j2)) => if i < j2 <= t.kinds.len() {
                    sections_from(t, j2, AstModel { style: Some(rules), ..acc })
                } else {
                    Err(fail(ParseErrorKind::UnexpectedToken, i))
                },
            },
        }
    } else if t.kinds[i] == TokenKind::Eof {
        Ok(acc)
    } else {
        Err(fail(ParseErrorKind::UnexpectedToken, i))
    }
}

/// The syntax tree that the tokens write, or the first error.
pub open spec fn parsed(t: Tokens) -> Result<AstModel, ParseError> {
    sections_from(t, 0, AstModel { template: None, document: None, style: None })
}

} // verus!
