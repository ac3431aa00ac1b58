//! The lexer: from source text to tokens.
//!
//! Positions are counted in characters. Line and column numbers stop at
//! the largest number of 32 bits.

use vstd::prelude::*;
use crate::decimal::skip_digits;
use crate::text::{find_char, find_in, is_ascii_digit, is_digit, lemma_find_char_is, str_eq, to_chars};

verus! {

/// The kinds of tokens.
#[derive(Copy, Clone, Debug, PartialEq, Eq, Structural)]
pub enum TokenKind {
    // Single-character symbols
    LeftParen,
    RightParen,
    LeftBrace,
    RightBrace,
    LeftBracket,
    RightBracket,
    Comma,
    Dot,
    Semicolon,
    Colon,
    Plus,
    Minus,
    Star,
    Slash,
    Percent,
    Equals,
    Dollarsign,
    Hash,
    Bang,
    // Literals
    Identifier,
    Int,
    Float,
    StringLiteral,
    // Keywords
    Template,
    Document,
    Style,
    Let,
    Const,
    If,
    Else,
    For,
    While,
    Return,
    Func,
    Text,
    List,
    Image,
    Link,
    Table,
    Section,
    // End
    Eof,
}

/// The keyword that `word` is, if it is one.
pub open spec fn keyword_of(word: Seq<char>) -> Option<TokenKind> {
    if word == "template"@ {
        Some(TokenKind::Template)
    } else if word == "document"@ {
        Some(TokenKind::Document)
    } else if word == "style"@ {
        Some(TokenKind::Style)
    } else if word == "let"@ {
        Some(TokenKind::Let)
    } else if word == "const"@ {
        Some(TokenKind::Const)
    } else if word == "if"@ {
        Some(TokenKind::If)
    } else if word == "else"@ {
        Some(TokenKind::Else)
    } else if word == "for"@ {
        Some(TokenKind::For)
    } else if word == "while"@ {
        Some(TokenKind::While)
    } else if word == "return"@ {
        Some(TokenKind::Return)
    } else if word == "func"@ {
        Some(TokenKind::Func)
    } else if word == "text"@ {
        Some(TokenKind::Text)
    } else if word == "list"@ {
        Some(TokenKind::List)
    } else if word == "image"@ {
        Some(TokenKind::Image)
    } else if word == "link"@ {
        Some(TokenKind::Link)
    } else if word == "table"@ {
        Some(TokenKind::Table)
    } else if word == "section"@ {
        Some(TokenKind::Section)
    } else {
        None
    }
}

/// The kind of the token that a word is: its keyword, or an identifier.
pub open spec fn word_kind(word: Seq<char>) -> TokenKind {
    match keyword_of(word) {
        Some(k) => k,
        None => TokenKind::Identifier,
    }
}

/// The keyword that `word` is, if it is one.
pub fn keyword_kind(word: &str) -> (r: Option<TokenKind>)
    ensures
        r == keyword_of(word@),
{
    if str_eq(word, "template") {
        Some(TokenKind::Template)
    } else if str_eq(word, "document") {
        Some(TokenKind::Document)
    } else if str_eq(word, "style") {
        Some(TokenKind::Style)
    } else if str_eq(word, "let") {
        Some(TokenKind::Let)
    } else if str_eq(word, "const") {
        Some(TokenKind::Const)
    } else if str_eq(word, "if") {
        Some(TokenKind::If)
    } else if str_eq(word, "else") {
        Some(TokenKind::Else)
    } else if str_eq(word, "for") {
        Some(TokenKind::For)
    } else if str_eq(word, "while") {
        Some(TokenKind::While)
    } else if str_eq(word, "return") {
        Some(TokenKind::Return)
    } else if str_eq(word, "func") {
        Some(TokenKind::Func)
    } else if str_eq(word, "text") {
        Some(TokenKind::Text)
    } else if str_eq(word, "list") {
        Some(TokenKind::List)
    } else if str_eq(word, "image") {
        Some(TokenKind::Image)
    } else if str_eq(word, "link") {
        Some(TokenKind::Link)
    } else if str_eq(word, "table") {
        Some(TokenKind::Table)
    } else if str_eq(word, "section") {
        Some(TokenKind::Section)
    } else {
        None
    }
}

/// The kind of the token that the one character `c` is, if it is one.
pub open spec fn symbol_of(c: char) -> Option<TokenKind> {
    if c == '(' {
        Some(TokenKind::LeftParen)
    } else if c == ')' {
        Some(TokenKind::RightParen)
    } else if c == '{' {
        Some(TokenKind::LeftBrace)
    } else if c == '}' {
        Some(TokenKind::RightBrace)
    } else if c == '[' {
        Some(TokenKind::LeftBracket)
    } else if c == ']' {
        Some(TokenKind::RightBracket)
    } else if c == ',' {
        Some(TokenKind::Comma)
    } else if c == '.' {
        Some(TokenKind::Dot)
    } else if c == ';' {
        Some(TokenKind::Semicolon)
    } else if c == ':' {
        Some(TokenKind::Colon)
    } else if c == '+' {
        Some(TokenKind::Plus)
    } else if c == '-' {
        Some(TokenKind::Minus)
    } else if c == '*' {
        Some(TokenKind::Star)
    } else if c == '/' {
        Some(TokenKind::Slash)
    } else if c == '%' {
        Some(TokenKind::Percent)
    } else if c == '=' {
        Some(TokenKind::Equals)
    } else if c == '$' {
        Some(TokenKind::Dollarsign)
    } else if c == '#' {
        Some(TokenKind::Hash)
    } else if c == '!' {
        Some(TokenKind::Bang)
    } else {
        None
    }
}

/// The kind of the token that the one character `c` is, if it is one.
pub fn symbol_kind(c: char) -> (r: Option<TokenKind>)
    ensures
        r == symbol_of(c),
{
    if c == '(' {
        Some(TokenKind::LeftParen)
    } else if c == ')' {
        Some(TokenKind::RightParen)
    } else if c == '{' {
        Some(TokenKind::LeftBrace)
    } else if c == '}' {
        Some(TokenKind::RightBrace)
    } else if c == '[' {
        Some(TokenKind::LeftBracket)
    } else if c == ']' {
        Some(TokenKind::RightBracket)
    } else if c == ',' {
        Some(TokenKind::Comma)
    } else if c == '.' {
        Some(TokenKind::Dot)
    } else if c == ';' {
        Some(TokenKind::Semicolon)
    } else if c == ':' {
        Some(TokenKind::Colon)
    } else if c == '+' {
        Some(TokenKind::Plus)
    } else if c == '-' {
        Some(TokenKind::Minus)
    } else if c == '*' {
        Some(TokenKind::Star)
    } else if c == '/' {
        Some(TokenKind::Slash)
    } else if c == '%' {
        Some(TokenKind::Percent)
    } else if c == '=' {
        Some(TokenKind::Equals)
    } else if c == '$' {
        Some(TokenKind::Dollarsign)
    } else if c == '#' {
        Some(TokenKind::Hash)
    } else if c == '!' {
        Some(TokenKind::Bang)
    } else {
        None
    }
}

// ---------------------------------------------------------------------------
// Tokens
// ---------------------------------------------------------------------------

/// One token: its kind, the characters `start..end` of the source that it
/// covers, and the line and column at which it starts.
pub struct TokenModel {
    pub kind: TokenKind,
    pub start: int,
    pub end: int,
    pub line: u32,
    pub col: u32,
}

/// The tokens of a source, held column-wise, and the source itself.
#[derive(Debug, Clone)]
pub struct TokenStream {
    pub kinds: Vec<TokenKind>,
    pub ranges: Vec<std::ops::Range<usize>>,
    pub lines: Vec<u32>,
    pub cols: Vec<u32>,
    pub source: String,
}

impl TokenStream {
    /// Whether the four columns have one length and each token lies in the source.
    pub open spec fn wf(&self) -> bool {
        &&& self.ranges@.len() == self.kinds@.len()
        &&& self.lines@.len() == self.kinds@.len()
        &&& self.cols@.len() == self.kinds@.len()
        &&& forall|k: int|
            0 <= k < self.ranges@.len() ==> (#[trigger] self.ranges@[k]).start <= self.ranges@[k].end
                <= self.source@.len()
    }

    /// Whether the stream is complete: well formed, with the end mark as its last token.
    pub open spec fn complete(&self) -> bool {
        &&& self.wf()
        &&& self.kinds@.len() > 0
        &&& self.kinds@[self.kinds@.len() - 1] == TokenKind::Eof
    }

    /// The tokens, in order.
    pub open spec fn tokens(&self) -> Seq<TokenModel> {
        Seq::new(
            self.kinds@.len(),
            |k: int|
                TokenModel {
                    kind: self.kinds@[k],
                    start: self.ranges@[k].start as int,
                    end: self.ranges@[k].end as int,
                    line: self.lines@[k],
                    col: self.cols@[k],
                },
        )
    }

    /// Whether the four columns have one length and each token lies in the source.
    pub fn is_well_formed(&self) -> (r: bool)
        ensures
            r == self.wf(),
    {
        let n = self.kinds.len();
        if self.ranges.len() != n || self.lines.len() != n || self.cols.len() != n {
            return false;
        }
        let length = self.source.as_str().unicode_len();
        let mut k: usize = 0;
        while k < n
            invariant
                k <= n == self.ranges@.len(),
                length == self.source@.len(),
                forall|j: int|
                    0 <= j < k ==> (#[trigger] self.ranges@[j]).start <= self.ranges@[j].end
                        <= length,
            decreases n - k,
        {
            if self.ranges[k].start > self.ranges[k].end || self.ranges[k].end > length {
                return false;
            }
            k += 1;
        }
        true
    }

    /// A stream over `source` that holds no token yet.
    pub fn new(source: String) -> (r: Self)
        ensures
            r.wf(),
            r.source == source,
            r.tokens() == Seq::<TokenModel>::empty(),
    {
        let r = TokenStream {
            kinds: Vec::new(),
            ranges: Vec::new(),
            lines: Vec::new(),
            cols: Vec::new(),
            source,
        };
        assert(r.tokens() =~= Seq::<TokenModel>::empty());
        r
    }

    /// Appends one token.
    pub fn push(&mut self, kind: TokenKind, start: usize, end: usize, line: u32, col: u32)
        requires
            old(self).wf(),
            start <= end <= old(self).source@.len(),
        ensures
            final(self).wf(),
            final(self).source == old(self).source,
            final(self).tokens() == old(self).tokens().push(
                TokenModel { kind, start: start as int, end: end as int, line, col },
            ),
    {
        self.kinds.push(kind);
        self.ranges.push(start..end);
        self.lines.push(line);
        self.cols.push(col);
        assert(self.tokens() =~= old(self).tokens().push(
            TokenModel { kind, start: start as int, end: end as int, line, col },
        ));
    }
}

// ---------------------------------------------------------------------------
// What the lexer reads
// ---------------------------------------------------------------------------

/// Whether `c` may start an identifier: a letter of ASCII or an underscore.
pub open spec fn is_ident_start_char(c: char) -> bool {
    ('a' <= c <= 'z') || ('A' <= c <= 'Z') || c == '_'
}

/// Whether `c` may stand inside an identifier: what may start one, or a digit.
pub open spec fn is_ident_continue_char(c: char) -> bool {
    is_ident_start_char(c) || is_digit(c)
}

/// The white space of the source language: space, tab, line feed, form
/// feed and carriage return.
pub open spec fn is_blank(c: char) -> bool {
    c == ' ' || c == '\t' || c == '\n' || c == '\x0C' || c == '\r'
}

/// Whether `c` may start an identifier.
pub fn is_ident_start(c: char) -> (r: bool)
    ensures
        r == is_ident_start_char(c),
{
    ('a' <= c && c <= 'z') || ('A' <= c && c <= 'Z') || c == '_'
}

/// Whether `c` may stand inside an identifier.
pub fn is_ident_continue(c: char) -> (r: bool)
    ensures
        r == is_ident_continue_char(c),
{
    is_ident_start(c) || is_ascii_digit(c)
}

fn is_blank_char(c: char) -> (r: bool)
    ensures
        r == is_blank(c),
{
    c == ' ' || c == '\t' || c == '\n' || c == '\x0C' || c == '\r'
}

/// `n + k`, held at the largest number of 32 bits.
pub open spec fn bump(n: u32, k: int) -> u32 {
    if n + k <= u32::MAX {
        (n + k) as u32
    } else {
        u32::MAX
    }
}

fn bump_by(n: u32, k: usize) -> (r: u32)
    ensures
        r == bump(n, k as int),
{
    if k > 0xffff_ffff {
        0xffff_ffff
    } else if n > 0xffff_ffff - (k as u32) {
        0xffff_ffff
    } else {
        n + (k as u32)
    }
}

/// The end of the run of identifier characters that starts at `i`.
pub open spec fn ident_end(s: Seq<char>, i: int) -> int
    decreases s.len() - i,
{
    if 0 <= i < s.len() && is_ident_continue_char(s[i]) {
        ident_end(s, i + 1)
    } else {
        i
    }
}

/// The end of the number that starts at `i`: digits, and where a point
/// follows them, the point and the digits behind it.
pub open spec fn number_end(s: Seq<char>, i: int) -> int {
    let a = skip_digits(s, i);
    if 0 <= a < s.len() && s[a] == '.' {
        skip_digits(s, a + 1)
    } else {
        a
    }
}

/// Whether the number that starts at `i` has a point.
pub open spec fn number_has_point(s: Seq<char>, i: int) -> bool {
    let a = skip_digits(s, i);
    0 <= a < s.len() && s[a] == '.'
}

/// The index of the quote that closes a string whose body starts at `j`,
/// or an index at or past the end where none does. A backslash takes the
/// character behind it along.
pub open spec fn string_body_end(s: Seq<char>, j: int) -> int
    decreases s.len() - j,
{
    if 0 <= j < s.len() && s[j] != '"' {
        if s[j] == '\\' && j + 1 < s.len() {
            string_body_end(s, j + 2)
        } else {
            string_body_end(s, j + 1)
        }
    } else {
        j
    }
}

/// The end of the string literal that starts at `i`: behind its closing
/// quote, or the end of the source where it has none.
pub open spec fn string_end(s: Seq<char>, i: int) -> int {
    let j = string_body_end(s, i + 1);
    if j + 1 <= s.len() {
        j + 1
    } else {
        s.len() as int
    }
}

/// Where a block comment whose body starts at `i` ends, and the line and
/// column there: behind its `*/`, or the end of the source.
pub open spec fn block_comment_end(s: Seq<char>, i: int, line: u32, col: u32) -> (int, u32, u32)
    decreases s.len() - i,
{
    if 0 <= i && i + 1 < s.len() && !(s[i] == '*' && s[i + 1] == '/') {
        if s[i] == '\n' {
            block_comment_end(s, i + 1, bump(line, 1), 1)
        } else {
            block_comment_end(s, i + 1, line, col)
        }
    } else if i + 2 <= s.len() {
        (i + 2, line, col)
    } else {
        (s.len() as int, line, col)
    }
}

/// The tokens of `s` from the index `i` on, behind those of `acc`, where
/// `line` and `col` are the position of `i`. The last token is the end mark.
pub open spec fn scan(s: Seq<char>, i: int, line: u32, col: u32, acc: Seq<TokenModel>) -> Seq<
    TokenModel,
>
    decreases s.len() - i,
{
    if !(0 <= i < s.len()) {
        acc.push(
            TokenModel {
                kind: TokenKind::Eof,
                start: s.len() as int,
                end: s.len() as int,
                line,
                col,
            },
        )
    } else if is_blank(s[i]) {
        if s[i] == '\n' {
            scan(s, i + 1, bump(line, 1), 1, acc)
        } else {
            scan(s, i + 1, line, bump(col, 1), acc)
        }
    } else if is_ident_start_char(s[i]) {
        let e = ident_end(s, i + 1);
        if i < e <= s.len() {
            scan(
                s,
                e,
                line,
                bump(col, e - i),
                acc.push(
                    TokenModel { kind: word_kind(s.subrange(i, e)), start: i, end: e, line, col },
                ),
            )
        } else {
            acc
        }
    } else if is_digit(s[i]) {
        let e = number_end(s, i);
        if i < e <= s.len() {
            scan(
                s,
                e,
                line,
                bump(col, e - i),
                acc.push(
                    TokenModel {
                        kind: if number_has_point(s, i) {
                            TokenKind::Float
                        } else {
                            TokenKind::Int
                        },
                        start: i,
                        end: e,
                        line,
                        col,
                    },
                ),
            )
        } else {
            acc
        }
    } else if s[i] == '"' {
        let e = string_end(s, i);
        if i < e <= s.len() {
            scan(
                s,
                e,
                line,
                bump(col, e - i),
                acc.push(TokenModel { kind: TokenKind::StringLiteral, start: i, end: e, line, col }),
            )
        } else {
            acc
        }
    } else if s[i] == '/' && i + 1 < s.len() && s[i + 1] == '/' {
        let e = find_char(s, '\n', i + 2);
        if i < e <= s.len() {
            scan(s, e, line, col, acc)
        } else {
            acc
        }
    } else if s[i] == '/' && i + 1 < s.len() && s[i + 1] == '*' {
        let r = block_comment_end(s, i + 2, line, col);
        if i < r.0 <= s.len() {
            scan(s, r.0, r.1, r.2, acc)
        } else {
            acc
        }
    } else {
        match symbol_of(s[i]) {
            Some(kind) => scan(
                s,
                i + 1,
                line,
                bump(col, 1),
                acc.push(TokenModel { kind, start: i, end: i + 1, line, col }),
            ),
            None => scan(s, i + 1, line, bump(col, 1), acc),
        }
    }
}

/// The tokens of a source.
pub open spec fn tokens_of(s: Seq<char>) -> Seq<TokenModel> {
    scan(s, 0, 1, 1, Seq::empty())
}

proof fn lemma_skip_digits_range(s: Seq<char>, i: int)
    requires
        0 <= i <= s.len(),
    ensures
        i <= skip_digits(s, i) <= s.len(),
        i < s.len() && is_digit(s[i]) ==> i < skip_digits(s, i),
    decreases s.len() - i,
{
    if i < s.len() && is_digit(s[i]) {
        lemma_skip_digits_range(s, i + 1);
    }
}

fn scan_digits(v: &Vec<char>, from: usize) -> (j: usize)
    requires
        from <= v@.len(),
    ensures
        from <= j <= v@.len(),
        j == skip_digits(v@, from as int),
{
    let mut j: usize = from;
    while j < v.len() && is_ascii_digit(v[j])
        invariant
            from <= j <= v@.len(),
            skip_digits(v@, from as int) == skip_digits(v@, j as int),
        decreases v@.len() - j,
    {
        j += 1;
    }
    j
}

/// The tokens of `source`.
pub fn lex(source: &str) -> (out: TokenStream)
    ensures
        out.complete(),
        out.source@ == source@,
        out.tokens() == tokens_of(source@),
{
    let mut out = TokenStream::new(source.to_owned());
    let v = to_chars(source);
    let len = v.len();
    let mut i: usize = 0;
    let mut line: u32 = 1;
    let mut col: u32 = 1;
    while i < len
        invariant
            i <= len == v@.len(),
            v@ == source@,
            out.wf(),
            out.source@ == source@,
            scan(v@, i as int, line, col, out.tokens()) == tokens_of(v@),
        decreases len - i,
    {
        let c = v[i];
        if is_blank_char(c) {
            if c == '\n' {
                line = bump_by(line, 1);
                col = 1;
            } else {
                col = bump_by(col, 1);
            }
            i += 1;
            continue ;
        }
        let start = i;
        if is_ident_start(c) {
            i += 1;
            while i < len && is_ident_continue(v[i])
                invariant
                    start < i <= len == v@.len(),
                    ident_end(v@, start + 1) == ident_end(v@, i as int),
                decreases len - i,
            {
                i += 1;
            }
            let word = crate::text::string_from_chars(&v, start, i);
            let kind = match keyword_kind(word.as_str()) {
                Some(k) => k,
                None => TokenKind::Identifier,
            };
            out.push(kind, start, i, line, col);
            col = bump_by(col, i - start);
            continue ;
        }
        if is_ascii_digit(c) {
            let a = scan_digits(&v, i);
            proof {
                lemma_skip_digits_range(v@, start as int);
            }
            let mut kind = TokenKind::Int;
            i = a;
            if a < len && v[a] == '.' {
                kind = TokenKind::Float;
                i = scan_digits(&v, a + 1);
            }
            out.push(kind, start, i, line, col);
            col = bump_by(col, i - start);
            continue ;
        }
        if c == '"' {
            i += 1;
            while i < len && v[i] != '"'
                invariant
                    start < i <= len + 1,
                    len == v@.len(),
                    string_body_end(v@, start + 1) == string_body_end(v@, i as int),
                decreases len + 1 - i,
            {
                if v[i] == '\\' && i + 1 < len {
                    i += 1;
                }
                i += 1;
            }
            if i < len {
                i += 1;
            } else {
                i = len;
            }
            out.push(TokenKind::StringLiteral, start, i, line, col);
            col = bump_by(col, i - start);
            continue ;
        }
        if c == '/' && i + 1 < len {
            if v[i + 1] == '/' {
                i = find_in(&v, '\n', i + 2, len);
                proof {
                    lemma_find_char_is(v@, '\n', start + 2, i as int);
                }
                continue ;
            } else if v[i + 1] == '*' {
                i += 2;
                let ghost line0 = line;
                let ghost col0 = col;
                while len - i > 1 && !(v[i] == '*' && v[i + 1] == '/')
                    invariant
                        start + 2 <= i <= len == v@.len(),
                        block_comment_end(v@, start + 2, line0, col0) == block_comment_end(
                            v@,
                            i as int,
                            line,
                            col,
                        ),
                    decreases len - i,
                {
                    if v[i] == '\n' {
                        line = bump_by(line, 1);
                        col = 1;
                    }
                    i += 1;
                }
                if len - i >= 2 {
                    i += 2;
                } else {
                    i = len;
                }
                continue ;
            }
        }
        match symbol_kind(c) {
            Some(kind) => {
                out.push(kind, i, i + 1, line, col);
            },
            None => {},
        }
        i += 1;
        col = bump_by(col, 1);
    }
    out.push(TokenKind::Eof, len, len, line, col);
    assert(out.tokens()[out.kinds@.len() - 1].kind == TokenKind::Eof);
    out
}

} // verus!
