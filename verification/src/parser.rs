//! The parser: from tokens to the syntax tree.

use vstd::prelude::*;
use crate::ast::{
    arg_models, declaration_models, element_models, param_models, part_models, selector_models,
    statement_models, style_rule_models, ArgType, Ast, AstModel, AttributeMap, BinaryOp,
    DocElement, DocumentBlock, ElementModel, ExprModel, Expression, FuncParam, InterpPart,
    KeyValue, PartModel, RuleModel, Selector, SelectorModel, Statement, StatementModel,
    StyleBlock, StyleRule, TemplateBlock, UnaryOp,
};
use crate::decimal::Decimal;
use crate::grammar::{
    arg_tag, attributes_from, back_quotes, binary_at, block_from, body_from, brace_end,
    call_args_from, call_at, declarations_from, default_value, eat, element_at, expression_at,
    expression_of_text, find_operator, flush, func_decl_at, interpolation_of, is_operator,
    kind_at, list_from, operator_of, params_from, parsed, parts_from, property_from, rule_at,
    rules_from, sections_from, selectors_from, skip_quotes, statement_at, strip_quotes,
    style_attributes_at, template_from, text_content_from, ParseError, ParseErrorKind, Tokens,
};
use crate::lexer::{TokenKind, TokenStream};
use crate::text::{
    parse_i64, parse_i64_range, push_char, str_eq, string_from_chars, string_of, to_chars,
    trim_range,
};

verus! {

/// A position in a token stream.
#[derive(Debug)]
pub struct Parser {
    pub toks: TokenStream,
    /// The index of the current token.
    pub idx: usize,
}

/// The index behind the block whose tokens are scanned from `i` on with
/// `depth` braces open: behind the brace that closes the block, or at the
/// end mark, or the end of the tokens.
pub open spec fn block_end(kinds: Seq<TokenKind>, i: int, depth: int) -> int
    decreases kinds.len() - i,
{
    if !(0 <= i < kinds.len()) {
        i
    } else if kinds[i] == TokenKind::LeftBrace {
        block_end(kinds, i + 1, depth + 1)
    } else if kinds[i] == TokenKind::RightBrace {
        if depth - 1 <= 0 {
            i + 1
        } else {
            block_end(kinds, i + 1, depth - 1)
        }
    } else if kinds[i] == TokenKind::Eof {
        i
    } else {
        block_end(kinds, i + 1, depth)
    }
}

impl TokenStream {
    /// The tokens as the grammar reads them.
    pub open spec fn cells(&self) -> Tokens {
        Tokens {
            kinds: self.kinds@,
            texts: Seq::new(
                self.kinds@.len(),
                |i: int|
                    self.source@.subrange(self.ranges@[i].start as int, self.ranges@[i].end as int),
            ),
        }
    }
}

// ---------------------------------------------------------------------------
// Text inside a string literal
// ---------------------------------------------------------------------------

/// The bounds of `strip_quotes(v[from..to])` inside `v`.
fn strip_quotes_range(v: &Vec<char>, from: usize, to: usize) -> (r: (usize, usize))
    requires
        from <= to <= v@.len(),
    ensures
        from <= r.0 <= r.1 <= to,
        v@.subrange(r.0 as int, r.1 as int) == strip_quotes(v@.subrange(from as int, to as int)),
{
    let ghost s = v@.subrange(from as int, to as int);
    let mut lo: usize = from;
    while lo < to && v[lo] == '"'
        invariant
            from <= lo <= to <= v@.len(),
            s == v@.subrange(from as int, to as int),
            skip_quotes(s, 0) == skip_quotes(s, lo - from),
        decreases to - lo,
    {
        lo += 1;
    }
    let mut hi: usize = to;
    while hi > lo && v[hi - 1] == '"'
        invariant
            from <= lo <= hi <= to <= v@.len(),
            s == v@.subrange(from as int, to as int),
            back_quotes(s, lo - from, s.len() as int) == back_quotes(s, lo - from, hi - from),
        decreases hi - lo,
    {
        hi -= 1;
    }
    assert(s.subrange(lo - from, hi - from) =~= v@.subrange(lo as int, hi as int));
    (lo, hi)
}

/// `s` without the double quotes at its start and at its end.
fn strip_quotes_of(s: &str) -> (r: String)
    ensures
        r@ == strip_quotes(s@),
{
    let v = to_chars(s);
    assert(v@.subrange(0, v@.len() as int) =~= v@);
    let (lo, hi) = strip_quotes_range(&v, 0, v.len());
    string_from_chars(&v, lo, hi)
}

fn is_operator_char(c: char) -> (r: bool)
    ensures
        r == is_operator(c),
{
    c == '+' || c == '-' || c == '*' || c == '/' || c == '='
}

fn operator_from(c: char) -> (r: BinaryOp)
    ensures
        r == operator_of(c),
{
    if c == '+' {
        BinaryOp::Add
    } else if c == '-' {
        BinaryOp::Subtract
    } else if c == '*' {
        BinaryOp::Multiply
    } else if c == '/' {
        BinaryOp::Divide
    } else {
        BinaryOp::Equals
    }
}

/// The expression that the text `v[from..to]` between braces writes.
fn expression_from_range(v: &Vec<char>, from: usize, to: usize) -> (r: Expression)
    requires
        from <= to <= v@.len(),
    ensures
        r@ == expression_of_text(v@.subrange(from as int, to as int)),
    decreases to - from,
{
    let ghost s = v@.subrange(from as int, to as int);
    let (a, b) = trim_range(v, from, to);
    let ghost t = v@.subrange(a as int, b as int);
    if a == b {
        return Expression::StringLiteral(String::new());
    }
    match parse_i64_range(v, a, b) {
        Some(n) => {
            return Expression::Int(n);
        },
        None => {},
    }
    let text = string_from_chars(v, a, b);
    match Decimal::parse(text.as_str()) {
        Some(d) => {
            return Expression::Float(d);
        },
        None => {},
    }
    if b - a >= 2 && v[a] == '"' && v[b - 1] == '"' {
        assert(t.subrange(1, t.len() - 1) =~= v@.subrange(a + 1, b - 1));
        return Expression::StringLiteral(string_from_chars(v, a + 1, b - 1));
    }
    let mut k: usize = a;
    while k < b && !is_operator_char(v[k])
        invariant
            a <= k <= b <= v@.len(),
            t == v@.subrange(a as int, b as int),
            find_operator(t, 0) == find_operator(t, k - a),
        decreases b - k,
    {
        k += 1;
    }
    if k < b {
        assert(t.subrange(0, k - a) =~= v@.subrange(a as int, k as int));
        assert(t.subrange(k - a + 1, t.len() as int) =~= v@.subrange(k + 1, b as int));
        let left = expression_from_range(v, a, k);
        let right = expression_from_range(v, k + 1, b);
        Expression::Binary {
            left: Box::new(left),
            operator: operator_from(v[k]),
            right: Box::new(right),
        }
    } else {
        Expression::Identifier(text)
    }
}

/// Appends the text `cur`, where there is any, to `parts` as a part.
fn flush_text(parts: &mut Vec<InterpPart>, cur: &Vec<char>)
    ensures
        part_models(final(parts)@) == flush(part_models(old(parts)@), cur@),
{
    if cur.len() > 0 {
        parts.push(InterpPart::Text(string_of(cur)));
        assert(part_models(parts@) =~= part_models(old(parts)@).push(PartModel::Text(cur@)));
    }
}

/// The expression that the text of a string literal writes.
fn interpolation_from(v: &Vec<char>) -> (r: Expression)
    ensures
        r@ == interpolation_of(v@),
{
    let ghost s = v@;
    let n = v.len();
    let mut parts: Vec<InterpPart> = Vec::new();
    let mut cur: Vec<char> = Vec::new();
    let mut i: usize = 0;
    assert(part_models(parts@) =~= Seq::<PartModel>::empty());
    while i < n
        invariant
            i <= n == v@.len(),
            s == v@,
            parts_from(s, i as int, part_models(parts@), cur@) == parts_from(
                s,
                0,
                Seq::empty(),
                Seq::empty(),
            ),
        decreases n - i,
    {
        let c = v[i];
        if c == '{' {
            if i + 1 < n && v[i + 1] == '{' {
                cur.push('{');
                i += 2;
            } else {
                flush_text(&mut parts, &cur);
                cur = Vec::new();
                let start = i + 1;
                let mut e: usize = start;
                let mut depth: usize = 1;
                loop
                    invariant_except_break
                        brace_end(s, e as int, depth as int) == brace_end(s, start as int, 1),
                        depth >= 1,
                        depth <= e - start + 1,
                    invariant
                        1 <= start <= e <= n == v@.len(),
                        s == v@,
                    ensures
                        e == brace_end(s, start as int, 1),
                    decreases n - e,
                {
                    if e >= n {
                        break ;
                    }
                    if v[e] == '{' {
                        depth += 1;
                    } else if v[e] == '}' {
                        if depth <= 1 {
                            break ;
                        }
                        depth -= 1;
                    }
                    e += 1;
                }
                let expr = expression_from_range(v, start, e);
                let ghost before = part_models(parts@);
                parts.push(InterpPart::Expression(expr));
                assert(part_models(parts@) =~= before.push(PartModel::Expression(expr@)));
                i = if e < n {
                    e + 1
                } else {
                    e
                };
            }
        } else if c == '}' && i + 1 < n && v[i + 1] == '}' {
            cur.push('}');
            i += 2;
        } else {
            cur.push(c);
            i += 1;
        }
    }
    flush_text(&mut parts, &cur);
    let ghost models = part_models(parts@);
    if parts.len() == 0 {
        Expression::StringLiteral(String::new())
    } else if parts.len() == 1 {
        let only = parts.pop();
        match only {
            Some(InterpPart::Text(text)) => Expression::StringLiteral(text),
            Some(part) => {
                let mut one: Vec<InterpPart> = Vec::new();
                one.push(part);
                let r = Expression::InterpolatedString(one);
                assert(r@->InterpolatedString_0 =~= models);
                r
            },
            None => Expression::StringLiteral(String::new()),
        }
    } else {
        let r = Expression::InterpolatedString(parts);
        assert(r@->InterpolatedString_0 =~= models);
        r
    }
}

impl Parser {
    /// Whether the parser stands in a well-formed stream: on a token or behind the last.
    pub open spec fn wf(&self) -> bool {
        self.toks.wf() && self.idx <= self.toks.kinds@.len()
    }

    /// Whether the parser stands on a token of a well-formed stream.
    pub open spec fn on_token(&self) -> bool {
        self.toks.wf() && self.idx < self.toks.kinds@.len()
    }

    /// The text of the token at `i`.
    pub open spec fn text_at(&self, i: int) -> Seq<char> {
        self.toks.source@.subrange(
            self.toks.ranges@[i].start as int,
            self.toks.ranges@[i].end as int,
        )
    }

    /// A parser at the first token of `toks`.
    pub fn new(toks: TokenStream) -> (r: Self)
        ensures
            r.toks == toks,
            r.idx == 0,
    {
        Parser { toks, idx: 0 }
    }

    /// The kind of the current token.
    pub fn current_token_kind(&self) -> (r: TokenKind)
        requires
            self.idx < self.toks.kinds@.len(),
        ensures
            r == self.toks.kinds@[self.idx as int],
    {
        self.toks.kinds[self.idx]
    }

    /// The line at which the current token starts.
    pub fn current_token_line(&self) -> (r: u32)
        requires
            self.idx < self.toks.lines@.len(),
        ensures
            r == self.toks.lines@[self.idx as int],
    {
        self.toks.lines[self.idx]
    }

    /// The column at which the current token starts.
    pub fn current_token_col(&self) -> (r: u32)
        requires
            self.idx < self.toks.cols@.len(),
        ensures
            r == self.toks.cols@[self.idx as int],
    {
        self.toks.cols[self.idx]
    }

    /// The text of the current token.
    pub fn current_text(&self) -> (r: String)
        requires
            self.on_token(),
        ensures
            r@ == self.text_at(self.idx as int),
    {
        let start = self.toks.ranges[self.idx].start;
        let end = self.toks.ranges[self.idx].end;
        self.toks.source.as_str().substring_char(start, end).to_owned()
    }

    /// Steps to the next token, where there is one, and returns the kind
    /// of the token that the parser then stands behind.
    pub fn advance(&mut self) -> (r: TokenKind)
        requires
            old(self).toks.kinds@.len() > 0,
            old(self).idx <= old(self).toks.kinds@.len(),
        ensures
            final(self).toks == old(self).toks,
            final(self).idx == if old(self).idx < old(self).toks.kinds@.len() {
                old(self).idx + 1
            } else {
                old(self).idx as int
            },
            r == old(self).toks.kinds@[final(self).idx - 1],
    {
        if self.idx < self.toks.kinds.len() {
            self.idx += 1;
        }
        self.toks.kinds[self.idx - 1]
    }

    /// Steps over the current token, which is of the kind `kind`.
    pub fn expect(&mut self, kind: TokenKind) -> (r: TokenKind)
        requires
            old(self).idx < old(self).toks.kinds@.len(),
            old(self).toks.kinds@[old(self).idx as int] == kind,
        ensures
            final(self).toks == old(self).toks,
            final(self).idx == old(self).idx + 1,
            r == kind,
    {
        self.advance()
    }

    /// Steps over the current token where it is of the kind `kind`, and
    /// says whether it was.
    pub fn match_kind(&mut self, kind: TokenKind) -> (r: bool)
        requires
            old(self).idx < old(self).toks.kinds@.len(),
        ensures
            final(self).toks == old(self).toks,
            r == (old(self).toks.kinds@[old(self).idx as int] == kind),
            final(self).idx == if r {
                old(self).idx + 1
            } else {
                old(self).idx as int
            },
    {
        if self.current_token_kind() == kind {
            self.advance();
            return true;
        }
        false
    }

    /// Where the current token opens a block, steps behind the brace that
    /// closes it, nested blocks and all.
    pub fn skip_optional_block(&mut self)
        requires
            old(self).idx <= old(self).toks.kinds@.len(),
        ensures
            final(self).toks == old(self).toks,
            final(self).idx == if old(self).idx < old(self).toks.kinds@.len() && old(
                self,
            ).toks.kinds@[old(self).idx as int] == TokenKind::LeftBrace {
                block_end(old(self).toks.kinds@, old(self).idx as int, 0)
            } else {
                old(self).idx as int
            },
    {
        if self.idx < self.toks.kinds.len() && self.current_token_kind() == TokenKind::LeftBrace {
            let mut depth: usize = 0;
            while self.idx < self.toks.kinds.len()
                invariant_except_break
                    depth <= self.idx - old(self).idx,
                    depth == 0 ==> self.idx == old(self).idx,
                    block_end(self.toks.kinds@, self.idx as int, depth as int) == block_end(
                        self.toks.kinds@,
                        old(self).idx as int,
                        0,
                    ),
                invariant
                    self.toks == old(self).toks,
                    old(self).idx < self.toks.kinds@.len(),
                    old(self).idx <= self.idx <= self.toks.kinds@.len(),
                    self.toks.kinds@[old(self).idx as int] == TokenKind::LeftBrace,
                ensures
                    self.toks == old(self).toks,
                    self.idx == block_end(self.toks.kinds@, old(self).idx as int, 0),
                decreases self.toks.kinds@.len() - self.idx,
            {
                let kind = self.current_token_kind();
                if kind == TokenKind::LeftBrace {
                    depth += 1;
                } else if kind == TokenKind::RightBrace {
                    if depth <= 1 {
                        self.advance();
                        break ;
                    }
                    depth -= 1;
                } else if kind == TokenKind::Eof {
                    break ;
                }
                self.advance();
            }
        }
    }
}


// ---------------------------------------------------------------------------
// Expressions
// ---------------------------------------------------------------------------

impl Parser {
    /// The tokens as the grammar reads them.
    pub open spec fn cells(&self) -> Tokens {
        self.toks.cells()
    }

    /// The kind of the current token.
    fn peek(&self) -> (r: Result<TokenKind, ParseError>)
        requires
            self.wf(),
        ensures
            r == kind_at(self.cells(), self.idx as int),
    {
        if self.idx < self.toks.kinds.len() {
            Ok(self.toks.kinds[self.idx])
        } else {
            Err(ParseError { kind: ParseErrorKind::UnexpectedEnd, index: self.idx })
        }
    }

    /// Steps over the current token where it is of the kind `kind`.
    fn eat_kind(&mut self, kind: TokenKind) -> (r: Result<(), ParseError>)
        requires
            old(self).wf(),
        ensures
            final(self).toks == old(self).toks,
            match eat(old(self).cells(), old(self).idx as int, kind) {
                Ok(j) => r is Ok && final(self).idx == j,
                Err(e) => r == Err::<(), ParseError>(e) && final(self).idx == old(self).idx,
            },
    {
        match self.peek() {
            Ok(k) => {
                if k == kind {
                    self.step();
                    Ok(())
                } else {
                    Err(ParseError { kind: ParseErrorKind::UnexpectedToken, index: self.idx })
                }
            },
            Err(e) => Err(e),
        }
    }

    /// Steps over the current token.
    fn step(&mut self)
        requires
            old(self).idx < old(self).toks.kinds@.len(),
        ensures
            final(self).toks == old(self).toks,
            final(self).idx == old(self).idx + 1,
    {
        if self.idx < self.toks.kinds.len() {
            self.idx += 1;
        }
    }

    /// The text of the current token.
    fn token_text(&self) -> (r: String)
        requires
            self.on_token(),
        ensures
            r@ == self.cells().texts[self.idx as int],
    {
        self.current_text()
    }

    /// The expression that the text of a string literal writes.
    pub fn parse_string_with_interpolation(&self, s: &str) -> (r: Expression)
        ensures
            r@ == interpolation_of(s@),
    {
        let v = to_chars(s);
        interpolation_from(&v)
    }

    /// The expression that the text between the braces of an interpolated string writes.
    pub fn parse_expression_from_str(&self, expr_str: &str) -> (r: Expression)
        ensures
            r@ == expression_of_text(expr_str@),
    {
        let v = to_chars(expr_str);
        assert(v@.subrange(0, v@.len() as int) =~= v@);
        expression_from_range(&v, 0, v.len())
    }

    /// Parses the expression at the current token.
    pub fn parse_expression(&mut self) -> (r: Result<Expression, ParseError>)
        requires
            old(self).wf(),
        ensures
            final(self).toks == old(self).toks,
            match expression_at(old(self).cells(), old(self).idx as int) {
                Ok((model, j)) => r matches Ok(v) && v@ == model && final(self).idx == j && old(
                    self).idx < j <= old(self).toks.kinds@.len(),
                Err(e) => r matches Err(got) && got == e,
            },
        decreases old(self).toks.kinds@.len() - old(self).idx,
    {
        let kind = match self.peek() {
            Ok(k) => k,
            Err(e) => {
                return Err(e);
            },
        };
        if kind == TokenKind::Minus || kind == TokenKind::Bang {
            self.step();
            let right = match self.parse_expression() {
                Ok(e) => e,
                Err(e) => {
                    return Err(e);
                },
            };
            Ok(
                Expression::Unary {
                    operator: if kind == TokenKind::Minus {
                        UnaryOp::Negate
                    } else {
                        UnaryOp::Not
                    },
                    expression: Box::new(right),
                },
            )
        } else if kind == TokenKind::StringLiteral {
            let value = self.token_text();
            let trimmed = strip_quotes_of(value.as_str());
            self.step();
            Ok(self.parse_string_with_interpolation(trimmed.as_str()))
        } else if kind == TokenKind::Float {
            let value = self.token_text();
            match Decimal::parse(value.as_str()) {
                Some(d) => {
                    self.step();
                    Ok(Expression::Float(d))
                },
                None => Err(ParseError { kind: ParseErrorKind::InvalidNumber, index: self.idx }),
            }
        } else if kind == TokenKind::Int {
            let value = self.token_text();
            match parse_i64(value.as_str()) {
                Some(n) => {
                    self.step();
                    Ok(Expression::Int(n))
                },
                None => Err(ParseError { kind: ParseErrorKind::InvalidNumber, index: self.idx }),
            }
        } else if kind == TokenKind::Dollarsign {
            self.step();
            let expression = match self.parse_expression() {
                Ok(e) => e,
                Err(e) => {
                    return Err(e);
                },
            };
            if self.idx < self.toks.kinds.len() {
                self.step();
            }
            Ok(expression)
        } else if kind == TokenKind::Identifier {
            self.parse_binary_expr()
        } else {
            Err(ParseError { kind: ParseErrorKind::UnexpectedToken, index: self.idx })
        }
    }

    /// Parses the expression that starts with the identifier at the current token.
    pub fn parse_binary_expr(&mut self) -> (r: Result<Expression, ParseError>)
        requires
            old(self).wf(),
        ensures
            final(self).toks == old(self).toks,
            match binary_at(old(self).cells(), old(self).idx as int) {
                Ok((model, j)) => r matches Ok(v) && v@ == model && final(self).idx == j && old(
                    self).idx < j <= old(self).toks.kinds@.len(),
                Err(e) => r matches Err(got) && got == e,
            },
        decreases old(self).toks.kinds@.len() - old(self).idx - 1,
    {
        let kind = match self.peek() {
            Ok(k) => k,
            Err(e) => {
                return Err(e);
            },
        };
        if kind != TokenKind::Identifier {
            return Err(ParseError { kind: ParseErrorKind::UnexpectedToken, index: self.idx });
        }
        let name = self.token_text();
        self.step();
        let next = match self.peek() {
            Ok(k) => k,
            Err(e) => {
                return Err(e);
            },
        };
        let operator = if next == TokenKind::Plus {
            BinaryOp::Add
        } else if next == TokenKind::Minus {
            BinaryOp::Subtract
        } else if next == TokenKind::Star {
            BinaryOp::Multiply
        } else if next == TokenKind::Slash {
            BinaryOp::Divide
        } else if next == TokenKind::Equals {
            BinaryOp::Equals
        } else {
            return Ok(Expression::Identifier(name));
        };
        self.step();
        let right = match self.parse_expression() {
            Ok(e) => e,
            Err(e) => {
                return Err(e);
            },
        };
        let left = Expression::Identifier(name);
        assert(left@ == ExprModel::Identifier(name@));
        Ok(Expression::Binary { left: Box::new(left), operator, right: Box::new(right) })
    }
}


// ---------------------------------------------------------------------------
// Elements of the document
// ---------------------------------------------------------------------------

/// The tag of the kind of an argument of a call.
fn argument_tag(name: &str) -> (r: String)
    ensures
        r@ == arg_tag(name@),
{
    let v = to_chars(name);
    if v.len() > 0 && v[0] == '"' {
        return "string".to_owned();
    }
    match parse_i64(name) {
        Some(n) => {
            if -2147483648 <= n && n <= 2147483647 {
                return "int".to_owned();
            }
        },
        None => {},
    }
    match Decimal::parse(name) {
        Some(_) => "float".to_owned(),
        None => "var".to_owned(),
    }
}

impl Parser {
    /// Parses the attributes in parentheses at the current token, where there are any.
    pub fn parse_style_attributes(&mut self) -> (r: Result<AttributeMap, ParseError>)
        requires
            old(self).wf(),
        ensures
            final(self).toks == old(self).toks,
            match style_attributes_at(old(self).cells(), old(self).idx as int) {
                Ok((pairs, j)) => r matches Ok(a) && a.pairs() == pairs && final(self).idx == j
                    && old(self).idx <= j <= old(self).toks.kinds@.len(),
                Err(e) => r matches Err(got) && got == e,
            },
    {
        let ghost t = self.cells();
        let mut attributes = AttributeMap::new();
        let first = match self.peek() {
            Ok(k) => k,
            Err(e) => {
                return Err(e);
            },
        };
        if first != TokenKind::LeftParen {
            return Ok(attributes);
        }
        self.step();
        let ghost start = self.idx as int;
        loop
            invariant
                attributes_from(t, self.idx as int, attributes.pairs()) == attributes_from(
                    t,
                    start,
                    Seq::empty(),
                ),
                self.toks == old(self).toks,
                self.toks.wf(),
                t == self.cells(),
                t == old(self).cells(),
                kind_at(t, old(self).idx as int) == Ok::<TokenKind, ParseError>(
                    TokenKind::LeftParen,
                ),
                start == old(self).idx + 1,
                start <= self.idx <= self.toks.kinds@.len(),
            decreases self.toks.kinds@.len() - self.idx,
        {
            let kind = match self.peek() {
                Ok(k) => k,
                Err(e) => {
                    return Err(e);
                },
            };
            if kind == TokenKind::RightParen {
                self.step();
                return Ok(attributes);
            }
            let name = self.token_text();
            self.step();
            match self.eat_kind(TokenKind::Equals) {
                Ok(()) => {},
                Err(e) => {
                    return Err(e);
                },
            }
            let value = match self.parse_expression() {
                Ok(v) => v,
                Err(e) => {
                    return Err(e);
                },
            };
            attributes.insert(name, value);
            match self.peek() {
                Ok(k) => {
                    if k == TokenKind::Comma {
                        self.step();
                    }
                },
                Err(e) => {
                    return Err(e);
                },
            }
        }
    }

    /// Gathers the text of the tokens up to the closing brace.
    pub fn parse_document_text_content(&mut self) -> (r: Result<String, ParseError>)
        requires
            old(self).wf(),
        ensures
            final(self).toks == old(self).toks,
            match text_content_from(old(self).cells(), old(self).idx as int, Seq::empty()) {
                Ok((text, j)) => r matches Ok(s) && s@ == text && final(self).idx == j && old(
                    self).idx <= j < old(self).toks.kinds@.len(),
                Err(e) => r matches Err(got) && got == e,
            },
    {
        let ghost t = self.cells();
        let ghost start = self.idx as int;
        let mut content = String::new();
        loop
            invariant
                text_content_from(t, self.idx as int, content@) == text_content_from(
                    t,
                    start,
                    Seq::empty(),
                ),
                self.toks == old(self).toks,
                self.toks.wf(),
                t == self.cells(),
                t == old(self).cells(),
                start == old(self).idx,
                start <= self.idx <= self.toks.kinds@.len(),
            decreases self.toks.kinds@.len() - self.idx,
        {
            let kind = match self.peek() {
                Ok(k) => k,
                Err(e) => {
                    return Err(e);
                },
            };
            if kind == TokenKind::RightBrace {
                return Ok(content);
            }
            let text = self.token_text();
            let piece = if kind == TokenKind::StringLiteral {
                strip_quotes_of(text.as_str())
            } else {
                text
            };
            let ghost before = content@;
            content.append(piece.as_str());
            self.step();
            match self.peek() {
                Ok(k) => {
                    if k != TokenKind::RightBrace {
                        push_char(&mut content, ' ');
                        assert(content@ =~= before + piece@ + seq![' ']);
                    }
                },
                Err(e) => {
                    return Err(e);
                },
            }
        }
    }

    /// Parses the items of a list up to the closing brace.
    pub fn parse_document_list(&mut self) -> (r: Result<Vec<DocElement>, ParseError>)
        requires
            old(self).wf(),
        ensures
            final(self).toks == old(self).toks,
            match list_from(old(self).cells(), old(self).idx as int, Seq::empty()) {
                Ok((items, j)) => r matches Ok(v) && element_models(v@) == items && final(self).idx
                    == j && old(self).idx <= j <= old(self).toks.kinds@.len(),
                Err(e) => r matches Err(got) && got == e,
            },
    {
        let ghost t = self.cells();
        let ghost start = self.idx as int;
        let mut items: Vec<DocElement> = Vec::new();
        assert(element_models(items@) =~= Seq::<ElementModel>::empty());
        loop
            invariant
                list_from(t, self.idx as int, element_models(items@)) == list_from(
                    t,
                    start,
                    Seq::empty(),
                ),
                self.toks == old(self).toks,
                self.toks.wf(),
                t == self.cells(),
                t == old(self).cells(),
                start == old(self).idx,
                start <= self.idx <= self.toks.kinds@.len(),
            decreases self.toks.kinds@.len() - self.idx,
        {
            let kind = match self.peek() {
                Ok(k) => k,
                Err(e) => {
                    return Err(e);
                },
            };
            if kind == TokenKind::RightBrace {
                return Ok(items);
            }
            if kind != TokenKind::Identifier {
                return Err(ParseError { kind: ParseErrorKind::ExpectedItem, index: self.idx });
            }
            let word = self.token_text();
            if !str_eq(word.as_str(), "item") {
                return Err(ParseError { kind: ParseErrorKind::ExpectedItem, index: self.idx });
            }
            self.step();
            let attributes = match self.parse_style_attributes() {
                Ok(a) => a,
                Err(e) => {
                    return Err(e);
                },
            };
            match self.eat_kind(TokenKind::LeftBrace) {
                Ok(()) => {},
                Err(e) => {
                    return Err(e);
                },
            }
            let content = match self.parse_document_text_content() {
                Ok(c) => c,
                Err(e) => {
                    return Err(e);
                },
            };
            match self.eat_kind(TokenKind::RightBrace) {
                Ok(()) => {},
                Err(e) => {
                    return Err(e);
                },
            }
            let ghost before = element_models(items@);
            let item = DocElement::Text { content, attributes };
            items.push(item);
            assert(element_models(items@) =~= before.push(item@));
        }
    }

    /// Parses the call that starts with the name at the current token.
    pub fn parse_document_function_call(&mut self) -> (r: Result<DocElement, ParseError>)
        requires
            old(self).wf(),
        ensures
            final(self).toks == old(self).toks,
            match call_at(old(self).cells(), old(self).idx as int) {
                Ok((model, j)) => r matches Ok(v) && v@ == model && final(self).idx == j && old(
                    self).idx < j <= old(self).toks.kinds@.len(),
                Err(e) => r matches Err(got) && got == e,
            },
    {
        let ghost t = self.cells();
        let n = self.toks.kinds.len();
        if !(self.idx < n && n - self.idx > 1 && self.toks.kinds[self.idx + 1]
            == TokenKind::LeftParen) {
            return Err(ParseError { kind: ParseErrorKind::UnexpectedToken, index: self.idx });
        }
        let func_name = self.token_text();
        self.step();
        self.step();
        let ghost start = self.idx as int;
        let mut args: Vec<ArgType> = Vec::new();
        assert(arg_models(args@) =~= Seq::<(Seq<char>, Seq<char>)>::empty());
        loop
            invariant_except_break
                call_args_from(t, self.idx as int, arg_models(args@)) == call_args_from(
                    t,
                    start,
                    Seq::empty(),
                ),
            invariant
                self.toks == old(self).toks,
                self.toks.wf(),
                t == self.cells(),
                t == old(self).cells(),
                start == old(self).idx + 2,
                start <= self.idx <= self.toks.kinds@.len(),
                kind_at(t, old(self).idx as int) is Ok,
                kind_at(t, old(self).idx + 1) == Ok::<TokenKind, ParseError>(TokenKind::LeftParen),
            ensures
                call_args_from(t, start, Seq::empty()) == Ok::<
                    (Seq<(Seq<char>, Seq<char>)>, int),
                    ParseError,
                >((arg_models(args@), self.idx as int)),
            decreases self.toks.kinds@.len() - self.idx,
        {
            let kind = match self.peek() {
                Ok(k) => k,
                Err(e) => {
                    return Err(e);
                },
            };
            if kind == TokenKind::RightParen {
                break ;
            }
            let name = self.token_text();
            let ty = argument_tag(name.as_str());
            self.step();
            let ghost before = arg_models(args@);
            let next = match self.peek() {
                Ok(k) => k,
                Err(e) => {
                    return Err(e);
                },
            };
            if next == TokenKind::Comma {
                args.push(ArgType { name, ty });
                assert(arg_models(args@) =~= before.push((name@, ty@)));
                self.step();
            } else if next == TokenKind::RightParen {
                args.push(ArgType { name, ty });
                assert(arg_models(args@) =~= before.push((name@, ty@)));
                break ;
            } else {
                return Err(ParseError { kind: ParseErrorKind::UnexpectedToken, index: self.idx });
            }
        }
        match self.eat_kind(TokenKind::RightParen) {
            Ok(()) => {},
            Err(e) => {
                return Err(e);
            },
        }
        Ok(DocElement::Call { name: func_name, args })
    }

    /// Parses the element at the current token.
    pub fn parse_document_element(&mut self) -> (r: Result<DocElement, ParseError>)
        requires
            old(self).wf(),
        ensures
            final(self).toks == old(self).toks,
            match element_at(old(self).cells(), old(self).idx as int) {
                Ok((model, j)) => r matches Ok(v) && v@ == model && final(self).idx == j && old(
                    self).idx < j <= old(self).toks.kinds@.len(),
                Err(e) => r matches Err(got) && got == e,
            },
        decreases old(self).toks.kinds@.len() - old(self).idx, 0nat,
    {
        let kind = match self.peek() {
            Ok(k) => k,
            Err(e) => {
                return Err(e);
            },
        };
        if kind == TokenKind::Text {
            self.step();
            let attributes = match self.parse_style_attributes() {
                Ok(a) => a,
                Err(e) => {
                    return Err(e);
                },
            };
            match self.eat_kind(TokenKind::LeftBrace) {
                Ok(()) => {},
                Err(e) => {
                    return Err(e);
                },
            }
            let content = match self.parse_document_text_content() {
                Ok(c) => c,
                Err(e) => {
                    return Err(e);
                },
            };
            match self.eat_kind(TokenKind::RightBrace) {
                Ok(()) => {},
                Err(e) => {
                    return Err(e);
                },
            }
            Ok(DocElement::Text { content, attributes })
        } else if kind == TokenKind::List {
            self.step();
            let attributes = match self.parse_style_attributes() {
                Ok(a) => a,
                Err(e) => {
                    return Err(e);
                },
            };
            match self.eat_kind(TokenKind::LeftBrace) {
                Ok(()) => {},
                Err(e) => {
                    return Err(e);
                },
            }
            let items = match self.parse_document_list() {
                Ok(v) => v,
                Err(e) => {
                    return Err(e);
                },
            };
            match self.eat_kind(TokenKind::RightBrace) {
                Ok(()) => {},
                Err(e) => {
                    return Err(e);
                },
            }
            Ok(DocElement::List { items, attributes })
        } else if kind == TokenKind::Image || kind == TokenKind::Link || kind == TokenKind::Table {
            Err(ParseError { kind: ParseErrorKind::Unsupported, index: self.idx })
        } else if kind == TokenKind::Section {
            self.step();
            let attributes = match self.parse_style_attributes() {
                Ok(a) => a,
                Err(e) => {
                    return Err(e);
                },
            };
            match self.eat_kind(TokenKind::LeftBrace) {
                Ok(()) => {},
                Err(e) => {
                    return Err(e);
                },
            }
            let elements = match self.parse_document_block() {
                Ok(v) => v,
                Err(e) => {
                    return Err(e);
                },
            };
            Ok(DocElement::Section { elements, attributes })
        } else if kind == TokenKind::Identifier {
            self.parse_document_function_call()
        } else {
            Err(ParseError { kind: ParseErrorKind::UnexpectedToken, index: self.idx })
        }
    }

    /// Parses the elements of a block: up to and with its closing brace,
    /// or up to the end mark.
    pub fn parse_document_block(&mut self) -> (r: Result<Vec<DocElement>, ParseError>)
        requires
            old(self).wf(),
        ensures
            final(self).toks == old(self).toks,
            match block_from(old(self).cells(), old(self).idx as int, Seq::empty()) {
                Ok((models, j)) => r matches Ok(v) && element_models(v@) == models && final(
                    self).idx == j && old(self).idx <= j <= old(self).toks.kinds@.len(),
                Err(e) => r matches Err(got) && got == e,
            },
        decreases old(self).toks.kinds@.len() - old(self).idx, 1nat,
    {
        let ghost t = self.cells();
        let ghost start = self.idx as int;
        let mut elements: Vec<DocElement> = Vec::new();
        assert(element_models(elements@) =~= Seq::<ElementModel>::empty());
        while self.idx < self.toks.kinds.len()
            invariant
                block_from(t, self.idx as int, element_models(elements@)) == block_from(
                    t,
                    start,
                    Seq::empty(),
                ),
                self.toks == old(self).toks,
                self.toks.wf(),
                t == self.cells(),
                t == old(self).cells(),
                start == old(self).idx,
                start <= self.idx,
                start <= self.toks.kinds@.len() ==> self.idx <= self.toks.kinds@.len(),
            decreases self.toks.kinds@.len() - self.idx,
        {
            let kind = self.toks.kinds[self.idx];
            if kind == TokenKind::RightBrace {
                self.step();
                return Ok(elements);
            }
            if kind == TokenKind::Eof {
                return Ok(elements);
            }
            let element = match self.parse_document_element() {
                Ok(e) => e,
                Err(e) => {
                    return Err(e);
                },
            };
            let ghost before = element_models(elements@);
            elements.push(element);
            assert(element_models(elements@) =~= before.push(element@));
        }
        Ok(elements)
    }
}


// ---------------------------------------------------------------------------
// Statements of the template
// ---------------------------------------------------------------------------

/// The value of a default with this text.
fn default_expression(text: &str) -> (r: Expression)
    ensures
        r@ == default_value(text@),
{
    let trimmed = strip_quotes_of(text);
    match parse_i64(trimmed.as_str()) {
        Some(n) => Expression::Int(n),
        None => match Decimal::parse(trimmed.as_str()) {
            Some(d) => Expression::Float(d),
            None => Expression::StringLiteral(trimmed),
        },
    }
}

impl Parser {
    /// Parses the statement at the current token.
    pub fn parse_statement(&mut self) -> (r: Result<Statement, ParseError>)
        requires
            old(self).wf(),
        ensures
            final(self).toks == old(self).toks,
            match statement_at(old(self).cells(), old(self).idx as int) {
                Ok((model, j)) => r matches Ok(v) && v@ == model && final(self).idx == j && old(
                    self).idx < j <= old(self).toks.kinds@.len(),
                Err(e) => r matches Err(got) && got == e,
            },
    {
        let kind = match self.peek() {
            Ok(k) => k,
            Err(e) => {
                return Err(e);
            },
        };
        if kind == TokenKind::Identifier {
            let varname = self.token_text();
            self.step();
            match self.eat_kind(TokenKind::Equals) {
                Ok(()) => {},
                Err(e) => {
                    return Err(e);
                },
            }
            match self.peek() {
                Ok(_) => {},
                Err(e) => {
                    return Err(e);
                },
            }
            let text = self.token_text();
            let value = default_expression(text.as_str());
            self.step();
            Ok(Statement::DefaultSet { key: varname, value })
        } else if kind == TokenKind::Let || kind == TokenKind::Const {
            self.step();
            match self.peek() {
                Ok(_) => {},
                Err(e) => {
                    return Err(e);
                },
            }
            let varname = self.token_text();
            self.step();
            match self.eat_kind(TokenKind::Equals) {
                Ok(()) => {},
                Err(e) => {
                    return Err(e);
                },
            }
            let value = match self.parse_expression() {
                Ok(v) => v,
                Err(e) => {
                    return Err(e);
                },
            };
            if kind == TokenKind::Let {
                Ok(Statement::VarAssign { name: varname, value })
            } else {
                Ok(Statement::ConstAssign { name: varname, value })
            }
        } else if kind == TokenKind::Return {
            self.step();
            let doc_element = match self.parse_document_element() {
                Ok(e) => e,
                Err(e) => {
                    return Err(e);
                },
            };
            Ok(Statement::Return { doc_element })
        } else {
            Err(ParseError { kind: ParseErrorKind::UnexpectedToken, index: self.idx })
        }
    }

    /// Parses the parameters of a function, up to and with the closing parenthesis.
    pub fn parse_args(&mut self) -> (r: Result<Vec<FuncParam>, ParseError>)
        requires
            old(self).wf(),
        ensures
            final(self).toks == old(self).toks,
            match params_from(old(self).cells(), old(self).idx as int, Seq::empty()) {
                Ok((models, j)) => r matches Ok(v) && param_models(v@) == models && final(self).idx
                    == j && old(self).idx < j <= old(self).toks.kinds@.len(),
                Err(e) => r matches Err(got) && got == e,
            },
    {
        let ghost t = self.cells();
        let ghost start = self.idx as int;
        let mut params: Vec<FuncParam> = Vec::new();
        assert(param_models(params@) =~= Seq::<(Seq<char>, ExprModel)>::empty());
        loop
            invariant
                params_from(t, self.idx as int, param_models(params@)) == params_from(
                    t,
                    start,
                    Seq::empty(),
                ),
                self.toks == old(self).toks,
                self.toks.wf(),
                t == self.cells(),
                t == old(self).cells(),
                start == old(self).idx,
                start <= self.idx <= self.toks.kinds@.len(),
            decreases self.toks.kinds@.len() - self.idx,
        {
            let kind = match self.peek() {
                Ok(k) => k,
                Err(e) => {
                    return Err(e);
                },
            };
            if kind == TokenKind::RightParen {
                self.step();
                return Ok(params);
            }
            if kind != TokenKind::Identifier {
                return Err(ParseError { kind: ParseErrorKind::UnexpectedToken, index: self.idx });
            }
            let value = match self.parse_expression() {
                Ok(v) => v,
                Err(e) => {
                    return Err(e);
                },
            };
            match self.eat_kind(TokenKind::Colon) {
                Ok(()) => {},
                Err(e) => {
                    return Err(e);
                },
            }
            match self.peek() {
                Ok(k) => {
                    if k != TokenKind::Identifier {
                        return Err(
                            ParseError { kind: ParseErrorKind::UnexpectedToken, index: self.idx },
                        );
                    }
                },
                Err(e) => {
                    return Err(e);
                },
            }
            let ty = self.token_text();
            self.step();
            match self.peek() {
                Ok(k) => {
                    if k == TokenKind::Comma {
                        self.step();
                    }
                },
                Err(e) => {
                    return Err(e);
                },
            }
            let ghost before = param_models(params@);
            params.push(FuncParam { ty, value });
            assert(param_models(params@) =~= before.push((ty@, value@)));
        }
    }

    /// Parses the statements of a function body, up to and with the closing brace.
    pub fn parse_func_decl_body(&mut self) -> (r: Result<Vec<Statement>, ParseError>)
        requires
            old(self).wf(),
        ensures
            final(self).toks == old(self).toks,
            match body_from(old(self).cells(), old(self).idx as int, Seq::empty()) {
                Ok((models, j)) => r matches Ok(v) && statement_models(v@) == models && final(
                    self).idx == j && old(self).idx <= j <= old(self).toks.kinds@.len(),
                Err(e) => r matches Err(got) && got == e,
            },
    {
        let ghost t = self.cells();
        let ghost start = self.idx as int;
        let mut statements: Vec<Statement> = Vec::new();
        assert(statement_models(statements@) =~= Seq::<StatementModel>::empty());
        while self.idx < self.toks.kinds.len()
            invariant
                body_from(t, self.idx as int, statement_models(statements@)) == body_from(
                    t,
                    start,
                    Seq::empty(),
                ),
                self.toks == old(self).toks,
                self.toks.wf(),
                t == self.cells(),
                t == old(self).cells(),
                start == old(self).idx,
                start <= self.idx <= self.toks.kinds@.len(),
            decreases self.toks.kinds@.len() - self.idx,
        {
            let kind = self.toks.kinds[self.idx];
            if kind == TokenKind::RightBrace {
                self.step();
                return Ok(statements);
            }
            if kind == TokenKind::Eof {
                return Err(ParseError { kind: ParseErrorKind::UnexpectedEnd, index: self.idx });
            }
            let statement = match self.parse_statement() {
                Ok(s) => s,
                Err(e) => {
                    return Err(e);
                },
            };
            let ghost before = statement_models(statements@);
            statements.push(statement);
            assert(statement_models(statements@) =~= before.push(statement@));
        }
        Ok(statements)
    }

    /// Parses the function declaration at the current token.
    pub fn parse_func_decl(&mut self) -> (r: Result<Statement, ParseError>)
        requires
            old(self).wf(),
        ensures
            final(self).toks == old(self).toks,
            match func_decl_at(old(self).cells(), old(self).idx as int) {
                Ok((model, j)) => r matches Ok(v) && v@ == model && final(self).idx == j && old(
                    self).idx < j <= old(self).toks.kinds@.len(),
                Err(e) => r matches Err(got) && got == e,
            },
    {
        match self.eat_kind(TokenKind::Func) {
            Ok(()) => {},
            Err(e) => {
                return Err(e);
            },
        }
        match self.peek() {
            Ok(k) => {
                if k != TokenKind::Identifier {
                    return Err(
                        ParseError { kind: ParseErrorKind::UnexpectedToken, index: self.idx },
                    );
                }
            },
            Err(e) => {
                return Err(e);
            },
        }
        let name = self.token_text();
        self.step();
        match self.eat_kind(TokenKind::LeftParen) {
            Ok(()) => {},
            Err(e) => {
                return Err(e);
            },
        }
        let args = match self.parse_args() {
            Ok(v) => v,
            Err(e) => {
                return Err(e);
            },
        };
        match self.eat_kind(TokenKind::LeftBrace) {
            Ok(()) => {},
            Err(e) => {
                return Err(e);
            },
        }
        let body = match self.parse_func_decl_body() {
            Ok(v) => v,
            Err(e) => {
                return Err(e);
            },
        };
        Ok(Statement::FunctionDecl { name, args, body })
    }

    /// Parses the statements of the template section: up to and with its
    /// closing brace, or up to the end mark.
    pub fn parse_template_block(&mut self) -> (r: Result<Vec<Statement>, ParseError>)
        requires
            old(self).wf(),
        ensures
            final(self).toks == old(self).toks,
            match template_from(old(self).cells(), old(self).idx as int, Seq::empty()) {
                Ok((models, j)) => r matches Ok(v) && statement_models(v@) == models && final(
                    self).idx == j && old(self).idx <= j <= old(self).toks.kinds@.len(),
                Err(e) => r matches Err(got) && got == e,
            },
    {
        let ghost t = self.cells();
        let ghost start = self.idx as int;
        let mut statements: Vec<Statement> = Vec::new();
        assert(statement_models(statements@) =~= Seq::<StatementModel>::empty());
        while self.idx < self.toks.kinds.len()
            invariant
                template_from(t, self.idx as int, statement_models(statements@)) == template_from(
                    t,
                    start,
                    Seq::empty(),
                ),
                self.toks == old(self).toks,
                self.toks.wf(),
                t == self.cells(),
                t == old(self).cells(),
                start == old(self).idx,
                start <= self.idx <= self.toks.kinds@.len(),
            decreases self.toks.kinds@.len() - self.idx,
        {
            let kind = self.toks.kinds[self.idx];
            if kind == TokenKind::RightBrace {
                self.step();
                return Ok(statements);
            }
            if kind == TokenKind::Eof {
                return Ok(statements);
            }
            let parsed_statement = if kind == TokenKind::Func {
                self.parse_func_decl()
            } else {
                self.parse_statement()
            };
            let statement = match parsed_statement {
                Ok(s) => s,
                Err(e) => {
                    return Err(e);
                },
            };
            let ghost before = statement_models(statements@);
            statements.push(statement);
            assert(statement_models(statements@) =~= before.push(statement@));
        }
        Ok(statements)
    }
}

// ---------------------------------------------------------------------------
// Rules of the style section
// ---------------------------------------------------------------------------

impl Parser {
    /// Parses the selectors of a rule: up to and with the opening brace
    /// of its declarations, or up to the end mark.
    pub fn parse_selector_list(&mut self) -> (r: Vec<Selector>)
        requires
            old(self).wf(),
        ensures
            final(self).toks == old(self).toks,
            selector_models(r@) == selectors_from(
                old(self).cells(),
                old(self).idx as int,
                Seq::empty(),
            ).0,
            final(self).idx == selectors_from(
                old(self).cells(),
                old(self).idx as int,
                Seq::empty(),
            ).1,
            old(self).idx <= final(self).idx <= old(self).toks.kinds@.len(),
    {
        let ghost t = self.cells();
        let ghost start = self.idx as int;
        let mut selectors: Vec<Selector> = Vec::new();
        assert(selector_models(selectors@) =~= Seq::<SelectorModel>::empty());
        while self.idx < self.toks.kinds.len()
            invariant
                selectors_from(t, self.idx as int, selector_models(selectors@)) == selectors_from(
                    t,
                    start,
                    Seq::empty(),
                ),
                self.toks == old(self).toks,
                self.toks.wf(),
                t == self.cells(),
                t == old(self).cells(),
                start == old(self).idx,
                start <= self.idx <= self.toks.kinds@.len(),
            decreases self.toks.kinds@.len() - self.idx,
        {
            let kind = self.toks.kinds[self.idx];
            if kind == TokenKind::Comma {
                self.step();
                continue ;
            }
            if kind == TokenKind::LeftBrace {
                self.step();
                return selectors;
            }
            if kind == TokenKind::Eof {
                return selectors;
            }
            let text = self.token_text();
            let ghost before = selector_models(selectors@);
            let is_class = str_eq(text.as_str(), ".");
            let is_id = str_eq(text.as_str(), "#");
            if (is_class || is_id) && self.toks.kinds.len() - self.idx > 1 {
                self.step();
                let name = self.token_text();
                let selector = if is_class {
                    Selector::Class(name)
                } else {
                    Selector::Id(name)
                };
                selectors.push(selector);
                assert(selector_models(selectors@) =~= before.push(selector@));
                self.step();
            } else {
                let selector = Selector::Type(text);
                selectors.push(selector);
                assert(selector_models(selectors@) =~= before.push(selector@));
                self.step();
            }
        }
        selectors
    }

    /// Parses the declarations of a rule: up to and with the closing
    /// brace, or up to the end mark.
    pub fn parse_style_declarations(&mut self) -> (r: Result<Vec<KeyValue>, ParseError>)
        requires
            old(self).wf(),
        ensures
            final(self).toks == old(self).toks,
            match declarations_from(old(self).cells(), old(self).idx as int, Seq::empty()) {
                Ok((models, j)) => r matches Ok(v) && declaration_models(v@) == models && final(
                    self).idx == j && old(self).idx <= j <= old(self).toks.kinds@.len(),
                Err(e) => r matches Err(got) && got == e,
            },
    {
        let ghost t = self.cells();
        let ghost start = self.idx as int;
        let mut declarations: Vec<KeyValue> = Vec::new();
        assert(declaration_models(declarations@) =~= Seq::<(Seq<char>, ExprModel)>::empty());
        while self.idx < self.toks.kinds.len()
            invariant
                declarations_from(t, self.idx as int, declaration_models(declarations@))
                    == declarations_from(t, start, Seq::empty()),
                self.toks == old(self).toks,
                self.toks.wf(),
                t == self.cells(),
                t == old(self).cells(),
                start == old(self).idx,
                start <= self.idx <= self.toks.kinds@.len(),
            decreases self.toks.kinds@.len() - self.idx,
        {
            let kind = self.toks.kinds[self.idx];
            if kind == TokenKind::Semicolon {
                self.step();
                continue ;
            }
            if kind == TokenKind::RightBrace {
                self.step();
                return Ok(declarations);
            }
            if kind == TokenKind::Eof {
                return Ok(declarations);
            }
            let ghost first = self.idx as int;
            let mut property = String::new();
            loop
                invariant_except_break
                    property_from(t, self.idx as int, property@) == property_from(
                        t,
                        first,
                        Seq::empty(),
                    ),
                invariant
                    self.toks == old(self).toks,
                    self.toks.wf(),
                    t == self.cells(),
                    t == old(self).cells(),
                    first <= self.idx <= self.toks.kinds@.len(),
                    start == old(self).idx,
                    declarations_from(t, first, declaration_models(declarations@))
                        == declarations_from(t, start, Seq::empty()),
                    0 <= first < t.kinds.len(),
                    t.kinds[first] != TokenKind::Semicolon,
                    t.kinds[first] != TokenKind::RightBrace,
                    t.kinds[first] != TokenKind::Eof,
                ensures
                    property_from(t, first, Seq::empty()) == Ok::<(Seq<char>, int), ParseError>(
                        (property@, self.idx as int),
                    ),
                    self.idx < self.toks.kinds@.len(),
                decreases self.toks.kinds@.len() - self.idx,
            {
                let k = match self.peek() {
                    Ok(k) => k,
                    Err(e) => {
                        proof {
                            assert(property_from(t, self.idx as int, property@) == Err::<
                                (Seq<char>, int),
                                ParseError,
                            >(e));
                            assert(declarations_from(
                                t,
                                first,
                                declaration_models(declarations@),
                            ) == Err::<(Seq<(Seq<char>, ExprModel)>, int), ParseError>(e));
                        }
                        return Err(e);
                    },
                };
                if k == TokenKind::Equals {
                    break ;
                }
                let text = self.token_text();
                property.append(text.as_str());
                self.step();
            }
            self.step();
            let value = match self.parse_expression() {
                Ok(v) => v,
                Err(e) => {
                    return Err(e);
                },
            };
            let ghost before = declaration_models(declarations@);
            declarations.push(KeyValue { key: property, value });
            assert(declaration_models(declarations@) =~= before.push((property@, value@)));
        }
        Ok(declarations)
    }

    /// Parses the rule at the current token.
    pub fn parse_style_rule(&mut self) -> (r: Result<StyleRule, ParseError>)
        requires
            old(self).wf(),
        ensures
            final(self).toks == old(self).toks,
            match rule_at(old(self).cells(), old(self).idx as int) {
                Ok((model, j)) => r matches Ok(v) && v@ == model && final(self).idx == j && old(
                    self).idx <= j <= old(self).toks.kinds@.len(),
                Err(e) => r matches Err(got) && got == e,
            },
    {
        let selectors = self.parse_selector_list();
        let declarations = match self.parse_style_declarations() {
            Ok(v) => v,
            Err(e) => {
                return Err(e);
            },
        };
        Ok(StyleRule::new(selectors, declarations))
    }

    /// Parses the rules of the style section: up to and with its closing
    /// brace, or up to the end mark.
    pub fn parse_style_block(&mut self) -> (r: Result<Vec<StyleRule>, ParseError>)
        requires
            old(self).wf(),
        ensures
            final(self).toks == old(self).toks,
            match rules_from(old(self).cells(), old(self).idx as int, Seq::empty()) {
                Ok((models, j)) => r matches Ok(v) && style_rule_models(v@) == models && final(
                    self).idx == j && old(self).idx <= j <= old(self).toks.kinds@.len(),
                Err(e) => r matches Err(got) && got == e,
            },
    {
        let ghost t = self.cells();
        let ghost start = self.idx as int;
        let mut rules: Vec<StyleRule> = Vec::new();
        assert(style_rule_models(rules@) =~= Seq::<RuleModel>::empty());
        while self.idx < self.toks.kinds.len()
            invariant
                rules_from(t, self.idx as int, style_rule_models(rules@)) == rules_from(
                    t,
                    start,
                    Seq::empty(),
                ),
                self.toks == old(self).toks,
                self.toks.wf(),
                t == self.cells(),
                t == old(self).cells(),
                start == old(self).idx,
                start <= self.idx <= self.toks.kinds@.len(),
            decreases self.toks.kinds@.len() - self.idx,
        {
            let kind = self.toks.kinds[self.idx];
            if kind == TokenKind::RightBrace {
                self.step();
                return Ok(rules);
            }
            if kind == TokenKind::Eof {
                return Ok(rules);
            }
            let ghost at = self.idx;
            let rule = match self.parse_style_rule() {
                Ok(rule) => rule,
                Err(e) => {
                    return Err(e);
                },
            };
            proof {
                lemma_selectors_progress(t, at as int, Seq::empty());
                lemma_declarations_progress(
                    t,
                    selectors_from(t, at as int, Seq::empty()).1,
                    Seq::empty(),
                );
            }
            let ghost before = style_rule_models(rules@);
            rules.push(rule);
            assert(style_rule_models(rules@) =~= before.push(rule@));
        }
        Ok(rules)
    }
}

/// Selectors that do not start at a comma, an opening brace or the end
/// mark take at least one token.
proof fn lemma_selectors_progress(t: Tokens, i: int, acc: Seq<SelectorModel>)
    requires
        0 <= i <= t.kinds.len(),
    ensures
        i <= selectors_from(t, i, acc).1 <= t.kinds.len(),
        i < t.kinds.len() && t.kinds[i] != TokenKind::Eof ==> i < selectors_from(t, i, acc).1,
    decreases t.kinds.len() - i,
{
    if i < t.kinds.len() {
        if t.kinds[i] == TokenKind::Comma {
            lemma_selectors_progress(t, i + 1, acc);
        } else if t.kinds[i] == TokenKind::LeftBrace {
        } else if t.kinds[i] == TokenKind::Eof {
        } else if (t.texts[i] == "."@ || t.texts[i] == "#"@) && i + 1 < t.kinds.len() {
            lemma_selectors_progress(
                t,
                i + 2,
                acc.push(
                    if t.texts[i] == "."@ {
                        SelectorModel::Class(t.texts[i + 1])
                    } else {
                        SelectorModel::Id(t.texts[i + 1])
                    },
                ),
            );
        } else {
            lemma_selectors_progress(t, i + 1, acc.push(SelectorModel::Type(t.texts[i])));
        }
    }
}

/// Declarations end at or behind the position at which they start.
proof fn lemma_declarations_progress(t: Tokens, i: int, acc: Seq<(Seq<char>, ExprModel)>)
    requires
        0 <= i <= t.kinds.len(),
    ensures
        declarations_from(t, i, acc) matches Ok(r) ==> i <= r.1 <= t.kinds.len(),
    decreases t.kinds.len() - i,
{
    if i < t.kinds.len() {
        if t.kinds[i] == TokenKind::Semicolon {
            lemma_declarations_progress(t, i + 1, acc);
        } else if t.kinds[i] == TokenKind::RightBrace {
        } else if t.kinds[i] == TokenKind::Eof {
        } else {
            match property_from(t, i, Seq::empty()) {
                Err(e) => {},
                Ok((property, j)) => match expression_at(t, j + 1) {
                    Err(e) => {},
                    Ok((value, j2)) => {
                        if i < j2 <= t.kinds.len() {
                            lemma_declarations_progress(t, j2, acc.push((property, value)));
                        }
                    },
                },
            }
        }
    }
}

// ---------------------------------------------------------------------------
// The three sections
// ---------------------------------------------------------------------------

impl Parser {
    /// Parses the sections of a source, and gives its syntax tree.
    pub fn parse(&mut self) -> (r: Result<Ast, ParseError>)
        requires
            old(self).wf(),
        ensures
            final(self).toks == old(self).toks,
            match sections_from(
                old(self).cells(),
                old(self).idx as int,
                AstModel { template: None, document: None, style: None },
            ) {
                Ok(model) => r matches Ok(ast) && ast@ == model,
                Err(e) => r matches Err(got) && got == e,
            },
    {
        let ghost t = self.cells();
        let ghost start = self.idx as int;
        let ghost none = AstModel { template: None, document: None, style: None };
        let mut ast = Ast { template: None, document: None, style: None };
        while self.idx < self.toks.kinds.len()
            invariant
                sections_from(t, self.idx as int, ast@) == sections_from(t, start, none),
                self.toks == old(self).toks,
                self.toks.wf(),
                t == self.cells(),
                t == old(self).cells(),
                start == old(self).idx,
                none == (AstModel { template: None, document: None, style: None }),
                start <= self.idx <= self.toks.kinds@.len(),
            decreases self.toks.kinds@.len() - self.idx,
        {
            let kind = self.toks.kinds[self.idx];
            if kind == TokenKind::Template {
                self.step();
                match self.eat_kind(TokenKind::LeftBrace) {
                    Ok(()) => {},
                    Err(e) => {
                        return Err(e);
                    },
                }
                let statements = match self.parse_template_block() {
                    Ok(v) => v,
                    Err(e) => {
                        return Err(e);
                    },
                };
                ast.template = Some(TemplateBlock { statements });
            } else if kind == TokenKind::Document {
                self.step();
                match self.eat_kind(TokenKind::LeftBrace) {
                    Ok(()) => {},
                    Err(e) => {
                        return Err(e);
                    },
                }
                let elements = match self.parse_document_block() {
                    Ok(v) => v,
                    Err(e) => {
                        return Err(e);
                    },
                };
                ast.document = Some(DocumentBlock { elements });
            } else if kind == TokenKind::Style {
                self.step();
                match self.eat_kind(TokenKind::LeftBrace) {
                    Ok(()) => {},
                    Err(e) => {
                        return Err(e);
                    },
                }
                let statements = match self.parse_style_block() {
                    Ok(v) => v,
                    Err(e) => {
                        return Err(e);
                    },
                };
                ast.style = Some(StyleBlock { statements });
            } else if kind == TokenKind::Eof {
                return Ok(ast);
            } else {
                return Err(ParseError { kind: ParseErrorKind::UnexpectedToken, index: self.idx });
            }
        }
        Ok(ast)
    }
}

/// The syntax tree that the tokens write, or the first error.
pub fn try_parse(tokens: TokenStream) -> (r: Result<Ast, ParseError>)
    requires
        tokens.wf(),
    ensures
        match parsed(tokens.cells()) {
            Ok(model) => r matches Ok(ast) && ast@ == model,
            Err(e) => r matches Err(got) && got == e,
        },
{
    let mut p = Parser::new(tokens);
    p.parse()
}

/// The syntax tree that the tokens write.
pub fn parse(tokens: TokenStream) -> (ast: Ast)
    requires
        tokens.wf(),
        parsed(tokens.cells()) is Ok,
    ensures
        ast@ == parsed(tokens.cells())->Ok_0,
{
    match try_parse(tokens) {
        Ok(ast) => ast,
        Err(_) => vstd::pervasive::unreached(),
    }
}

} // verus!
