//! The syntax tree of a document: a template section, a document section
//! and a style section.

use vstd::prelude::*;
use crate::assoc::{
    lemma_map_of_absent, lemma_map_of_last, lemma_map_of_update, lemma_put_absent,
    lemma_put_found, map_of, put,
};
use crate::decimal::Decimal;
use crate::text::{int_text, push_char, push_nat, str_eq};

verus! {

/// The operator of a binary expression.
#[derive(Debug, Clone, Copy, PartialEq, Eq, Structural)]
pub enum BinaryOp {
    Add,
    Subtract,
    Multiply,
    Divide,
    Equals,
    Mod,
}

/// The operator of a unary expression.
#[derive(Debug, Clone, Copy, PartialEq, Eq, Structural)]
pub enum UnaryOp {
    Negate,
    Not,
}

/// An expression as it was written. Nothing evaluates it.
#[derive(Debug)]
#[allow(inconsistent_fields)]
pub enum Expression {
    StringLiteral(String),
    InterpolatedString(Vec<InterpPart>),
    Int(i64),
    Float(Decimal),
    Identifier(String),
    Binary { left: Box<Expression>, operator: BinaryOp, right: Box<Expression> },
    Unary { operator: UnaryOp, expression: Box<Expression> },
    StructDefault(String),
}

/// One part of an interpolated string: literal text or an expression.
#[derive(Debug)]
pub enum InterpPart {
    Text(String),
    Expression(Expression),
}

/// What an expression is, apart from how it is stored.
#[allow(inconsistent_fields)]
pub enum ExprModel {
    StringLiteral(Seq<char>),
    InterpolatedString(Seq<PartModel>),
    Int(int),
    Float(Seq<char>),
    Identifier(Seq<char>),
    Binary { left: Box<ExprModel>, operator: BinaryOp, right: Box<ExprModel> },
    Unary { operator: UnaryOp, expression: Box<ExprModel> },
    StructDefault(Seq<char>),
}

/// What a part of an interpolated string is.
pub enum PartModel {
    Text(Seq<char>),
    Expression(ExprModel),
}

/// The texts of `ss`, one after the other.
pub open spec fn concat_all(ss: Seq<Seq<char>>) -> Seq<char>
    decreases ss.len(),
{
    if ss.len() == 0 {
        Seq::empty()
    } else {
        concat_all(ss.drop_last()) + ss.last()
    }
}

/// The name of a binary operator as it is written into a style value.
pub open spec fn binary_name(op: BinaryOp) -> Seq<char> {
    match op {
        BinaryOp::Add => "Add"@,
        BinaryOp::Subtract => "Subtract"@,
        BinaryOp::Multiply => "Multiply"@,
        BinaryOp::Divide => "Divide"@,
        BinaryOp::Equals => "Equals"@,
        BinaryOp::Mod => "Mod"@,
    }
}

/// The name of a unary operator as it is written into a style value.
pub open spec fn unary_name(op: UnaryOp) -> Seq<char> {
    match op {
        UnaryOp::Negate => "Negate"@,
        UnaryOp::Not => "Not"@,
    }
}

/// The sign that a unary operator is written with in markup.
pub open spec fn unary_sign(op: UnaryOp) -> Seq<char> {
    match op {
        UnaryOp::Negate => "-"@,
        UnaryOp::Not => "!"@,
    }
}

impl ExprModel {
    /// The text of an expression as a style declaration's value. Nothing is
    /// evaluated: a literal gives its text, an identifier its name, an
    /// interpolated string its parts in order, and an operator its name
    /// between the texts of its operands.
    pub open spec fn text(self) -> Seq<char>
        decreases self,
    {
        match self {
            ExprModel::StringLiteral(s) => s,
            ExprModel::InterpolatedString(parts) => concat_all(part_texts(parts)),
            ExprModel::Int(n) => int_text(n),
            ExprModel::Float(d) => d,
            ExprModel::Identifier(s) => s,
            ExprModel::Binary { left, operator, right } => left.text() + " "@ + binary_name(
                operator,
            ) + " "@ + right.text(),
            ExprModel::Unary { operator, expression } => unary_name(operator) + " "@
                + expression.text(),
            ExprModel::StructDefault(s) => "default("@ + s + ")"@,
        }
    }

    /// The text of an expression as the value of a markup attribute. An
    /// identifier and a binary expression have none and give `Error`.
    pub open spec fn markup_text(self) -> Seq<char>
        decreases self,
    {
        match self {
            ExprModel::StringLiteral(s) => s,
            ExprModel::InterpolatedString(parts) => concat_all(part_markup_texts(parts)),
            ExprModel::Int(n) => int_text(n),
            ExprModel::Float(d) => d,
            ExprModel::Unary { operator, expression } => unary_sign(operator)
                + expression.markup_text(),
            ExprModel::StructDefault(s) => "default("@ + s + ")"@,
            ExprModel::Identifier(_) => "Error"@,
            ExprModel::Binary { .. } => "Error"@,
        }
    }
}

/// The texts of the parts of an interpolated string as a style value.
pub open spec fn part_texts(parts: Seq<PartModel>) -> Seq<Seq<char>>
    decreases parts,
{
    Seq::new(
        parts.len(),
        |i: int|
            if 0 <= i < parts.len() {
                parts[i].text()
            } else {
                Seq::empty()
            },
    )
}

/// The texts of the parts of an interpolated string as a markup value.
pub open spec fn part_markup_texts(parts: Seq<PartModel>) -> Seq<Seq<char>>
    decreases parts,
{
    Seq::new(
        parts.len(),
        |i: int|
            if 0 <= i < parts.len() {
                parts[i].markup_text()
            } else {
                Seq::empty()
            },
    )
}

impl PartModel {
    /// The text of a part as a style value.
    pub open spec fn text(self) -> Seq<char>
        decreases self,
    {
        match self {
            PartModel::Text(s) => s,
            PartModel::Expression(e) => e.text(),
        }
    }

    /// The text of a part as a markup value.
    pub open spec fn markup_text(self) -> Seq<char>
        decreases self,
    {
        match self {
            PartModel::Text(s) => s,
            PartModel::Expression(e) => e.markup_text(),
        }
    }
}

impl Expression {
    /// What this expression is.
    pub open spec fn model(&self) -> ExprModel
        decreases self,
    {
        match self {
            Expression::StringLiteral(s) => ExprModel::StringLiteral(s@),
            Expression::InterpolatedString(parts) => ExprModel::InterpolatedString(
                Seq::new(
                    parts@.len(),
                    |i: int|
                        if 0 <= i < parts@.len() {
                            parts@[i].model()
                        } else {
                            PartModel::Text(Seq::empty())
                        },
                ),
            ),
            Expression::Int(n) => ExprModel::Int(*n as int),
            Expression::Float(d) => ExprModel::Float(d@),
            Expression::Identifier(s) => ExprModel::Identifier(s@),
            Expression::Binary { left, operator, right } => ExprModel::Binary {
                left: Box::new(left.model()),
                operator: *operator,
                right: Box::new(right.model()),
            },
            Expression::Unary { operator, expression } => ExprModel::Unary {
                operator: *operator,
                expression: Box::new(expression.model()),
            },
            Expression::StructDefault(s) => ExprModel::StructDefault(s@),
        }
    }
}

impl InterpPart {
    /// What this part is.
    pub open spec fn model(&self) -> PartModel
        decreases self,
    {
        match self {
            InterpPart::Text(s) => PartModel::Text(s@),
            InterpPart::Expression(e) => PartModel::Expression(e.model()),
        }
    }
}

/// The models of the parts of an interpolated string.
pub open spec fn part_models(parts: Seq<InterpPart>) -> Seq<PartModel> {
    Seq::new(parts.len(), |i: int| parts[i]@)
}

impl View for Expression {
    type V = ExprModel;

    open spec fn view(&self) -> ExprModel {
        self.model()
    }
}

impl View for InterpPart {
    type V = PartModel;

    open spec fn view(&self) -> PartModel {
        self.model()
    }
}

impl Clone for Expression {
    fn clone(&self) -> (r: Self)
        ensures
            r@ == self@,
        decreases self,
    {
        match self {
            Expression::StringLiteral(s) => Expression::StringLiteral(s.clone()),
            Expression::InterpolatedString(parts) => {
                let mut out: Vec<InterpPart> = Vec::new();
                let mut i: usize = 0;
                while i < parts.len()
                    invariant
                        i <= parts.len(),
                        out@.len() == i,
                        forall|j: int| 0 <= j < i ==> out@[j]@ == parts@[j]@,
                        self is InterpolatedString,
                        *parts == self->InterpolatedString_0,
                    decreases parts.len() - i,
                {
                    proof {
                        vstd::std_specs::vec::axiom_vec_index_decreases(*parts, i as int);
                        assert(decreases_to!(*self => self->InterpolatedString_0));
                    }
                    let p = match &parts[i] {
                        InterpPart::Text(s) => InterpPart::Text(s.clone()),
                        InterpPart::Expression(e) => InterpPart::Expression(e.clone()),
                    };
                    out.push(p);
                    i += 1;
                }
                let r = Expression::InterpolatedString(out);
                assert(r@->InterpolatedString_0 =~= self@->InterpolatedString_0);
                r
            },
            Expression::Int(n) => Expression::Int(*n),
            Expression::Float(d) => Expression::Float(d.clone()),
            Expression::Identifier(s) => Expression::Identifier(s.clone()),
            Expression::Binary { left, operator, right } => Expression::Binary {
                left: Box::new((**left).clone()),
                operator: *operator,
                right: Box::new((**right).clone()),
            },
            Expression::Unary { operator, expression } => Expression::Unary {
                operator: *operator,
                expression: Box::new((**expression).clone()),
            },
            Expression::StructDefault(s) => Expression::StructDefault(s.clone()),
        }
    }
}

impl Clone for InterpPart {
    fn clone(&self) -> (r: Self)
        ensures
            r@ == self@,
    {
        match self {
            InterpPart::Text(s) => InterpPart::Text(s.clone()),
            InterpPart::Expression(e) => InterpPart::Expression(e.clone()),
        }
    }
}

fn push_binary_name(out: &mut String, op: BinaryOp)
    ensures
        final(out)@ == old(out)@ + binary_name(op),
{
    match op {
        BinaryOp::Add => out.append("Add"),
        BinaryOp::Subtract => out.append("Subtract"),
        BinaryOp::Multiply => out.append("Multiply"),
        BinaryOp::Divide => out.append("Divide"),
        BinaryOp::Equals => out.append("Equals"),
        BinaryOp::Mod => out.append("Mod"),
    }
}

/// Appends the decimal text of `n`.
fn push_int(out: &mut String, n: i64)
    ensures
        final(out)@ == old(out)@ + int_text(n as int),
{
    if n < 0 {
        push_char(out, '-');
        let magnitude: u64 = if n == i64::MIN {
            9223372036854775808u64
        } else {
            (-n) as u64
        };
        push_nat(out, magnitude);
        assert(out@ =~= old(out)@ + int_text(n as int));
    } else {
        push_nat(out, n as u64);
    }
}

/// Appends the text of `expr` as a style value.
fn write_text(expr: &Expression, out: &mut String)
    ensures
        final(out)@ == old(out)@ + expr@.text(),
    decreases expr,
{
    match expr {
        Expression::StringLiteral(s) => {
            out.append(s.as_str());
            assert(out@ =~= old(out)@ + expr@.text());
        },
        Expression::InterpolatedString(parts) => {
            let ghost texts = part_texts(expr@->InterpolatedString_0);
            let mut i: usize = 0;
            assert(out@ =~= old(out)@ + concat_all(texts.take(0)));
            while i < parts.len()
                invariant
                    i <= parts.len(),
                    texts.len() == parts.len(),
                    forall|j: int| 0 <= j < parts.len() ==> texts[j] == parts@[j]@.text(),
                    out@ == old(out)@ + concat_all(texts.take(i as int)),
                    expr is InterpolatedString,
                    *parts == expr->InterpolatedString_0,
                decreases parts.len() - i,
            {
                proof {
                    vstd::std_specs::vec::axiom_vec_index_decreases(*parts, i as int);
                    assert(decreases_to!(*expr => expr->InterpolatedString_0));
                    assert(texts.take(i + 1).drop_last() =~= texts.take(i as int));
                }
                let ghost before = out@;
                match &parts[i] {
                    InterpPart::Text(s) => out.append(s.as_str()),
                    InterpPart::Expression(e) => write_text(e, out),
                }
                assert(out@ =~= old(out)@ + concat_all(texts.take(i + 1)));
                i += 1;
            }
            assert(texts.take(parts.len() as int) =~= texts);
            assert(out@ =~= old(out)@ + expr@.text());
        },
        Expression::Int(n) => {
            push_int(out, *n);
            assert(out@ =~= old(out)@ + expr@.text());
        },
        Expression::Float(d) => {
            out.append(d.text.as_str());
            assert(out@ =~= old(out)@ + expr@.text());
        },
        Expression::Identifier(s) => {
            out.append(s.as_str());
            assert(out@ =~= old(out)@ + expr@.text());
        },
        Expression::Binary { left, operator, right } => {
            write_text(left, out);
            push_char(out, ' ');
            push_binary_name(out, *operator);
            push_char(out, ' ');
            write_text(right, out);
            proof {
                reveal_strlit(" ");
                assert(" "@ =~= seq![' ']);
                assert(out@ =~= old(out)@ + expr@.text());
            }
        },
        Expression::Unary { operator, expression } => {
            match operator {
                UnaryOp::Negate => out.append("Negate"),
                UnaryOp::Not => out.append("Not"),
            }
            push_char(out, ' ');
            write_text(expression, out);
            proof {
                reveal_strlit(" ");
                assert(" "@ =~= seq![' ']);
                assert(out@ =~= old(out)@ + expr@.text());
            }
        },
        Expression::StructDefault(s) => {
            out.append("default(");
            out.append(s.as_str());
            out.append(")");
            assert(out@ =~= old(out)@ + expr@.text());
        },
    }
}

/// The text of an expression as a style declaration's value.
pub fn expr_to_string(expr: &Expression) -> (s: String)
    ensures
        s@ == expr@.text(),
{
    let mut s = String::new();
    write_text(expr, &mut s);
    assert(s@ =~= expr@.text());
    s
}

/// Appends the text of `expr` as a markup attribute's value.
fn write_markup(expr: &Expression, out: &mut String)
    ensures
        final(out)@ == old(out)@ + expr@.markup_text(),
    decreases expr,
{
    match expr {
        Expression::StringLiteral(s) => {
            out.append(s.as_str());
            assert(out@ =~= old(out)@ + expr@.markup_text());
        },
        Expression::InterpolatedString(parts) => {
            let ghost texts = part_markup_texts(expr@->InterpolatedString_0);
            let mut i: usize = 0;
            assert(out@ =~= old(out)@ + concat_all(texts.take(0)));
            while i < parts.len()
                invariant
                    i <= parts.len(),
                    texts.len() == parts.len(),
                    forall|j: int| 0 <= j < parts.len() ==> texts[j] == parts@[j]@.markup_text(),
                    out@ == old(out)@ + concat_all(texts.take(i as int)),
                    expr is InterpolatedString,
                    *parts == expr->InterpolatedString_0,
                decreases parts.len() - i,
            {
                proof {
                    vstd::std_specs::vec::axiom_vec_index_decreases(*parts, i as int);
                    assert(decreases_to!(*expr => expr->InterpolatedString_0));
                    assert(texts.take(i + 1).drop_last() =~= texts.take(i as int));
                }
                match &parts[i] {
                    InterpPart::Text(s) => out.append(s.as_str()),
                    InterpPart::Expression(e) => write_markup(e, out),
                }
                assert(out@ =~= old(out)@ + concat_all(texts.take(i + 1)));
                i += 1;
            }
            assert(texts.take(parts.len() as int) =~= texts);
            assert(out@ =~= old(out)@ + expr@.markup_text());
        },
        Expression::Int(n) => {
            push_int(out, *n);
            assert(out@ =~= old(out)@ + expr@.markup_text());
        },
        Expression::Float(d) => {
            out.append(d.text.as_str());
            assert(out@ =~= old(out)@ + expr@.markup_text());
        },
        Expression::Unary { operator, expression } => {
            match operator {
                UnaryOp::Negate => out.append("-"),
                UnaryOp::Not => out.append("!"),
            }
            write_markup(expression, out);
            assert(out@ =~= old(out)@ + expr@.markup_text());
        },
        Expression::StructDefault(s) => {
            out.append("default(");
            out.append(s.as_str());
            out.append(")");
            assert(out@ =~= old(out)@ + expr@.markup_text());
        },
        Expression::Identifier(_) => out.append("Error"),
        Expression::Binary { .. } => out.append("Error"),
    }
}

impl Expression {
    /// The number that an integer literal holds.
    pub fn as_number(&self) -> (r: Option<i64>)
        ensures
            r == match self@ {
                ExprModel::Int(n) => Some(n as i64),
                _ => None,
            },
    {
        match self {
            Expression::Int(n) => Some(*n),
            _ => None,
        }
    }

    /// The text of this expression as the value of a markup attribute.
    pub fn to_string(&self) -> (s: String)
        ensures
            s@ == self@.markup_text(),
    {
        let mut s = String::new();
        write_markup(self, &mut s);
        assert(s@ =~= self@.markup_text());
        s
    }
}


// ---------------------------------------------------------------------------
// Statements of the template section
// ---------------------------------------------------------------------------

/// A parameter of a function: the tag of its type and the expression that names it.
#[derive(Debug, Clone)]
pub struct FuncParam {
    pub ty: String,
    pub value: Expression,
}

/// The template section: defaults, globals and functions.
#[derive(Debug)]
pub struct TemplateBlock {
    pub statements: Vec<Statement>,
}

/// A declaration of a style rule: a property and the expression of its value.
#[derive(Debug)]
pub struct KeyValue {
    pub key: String,
    pub value: Expression,
}

impl KeyValue {
    /// The property and the expression of its value.
    pub open spec fn model(&self) -> (Seq<char>, ExprModel) {
        (self.key@, self.value@)
    }
}

impl Clone for KeyValue {
    fn clone(&self) -> (r: Self)
        ensures
            r.model() == self.model(),
    {
        KeyValue { key: self.key.clone(), value: self.value.clone() }
    }
}

/// An argument of a call in the document: its text and the tag of its kind
/// (`var`, `int`, `float` or `string`).
#[derive(Debug)]
pub struct ArgType {
    pub name: String,
    pub ty: String,
}

impl ArgType {
    /// The text and the tag.
    pub open spec fn model(&self) -> (Seq<char>, Seq<char>) {
        (self.name@, self.ty@)
    }
}

impl Clone for ArgType {
    fn clone(&self) -> (r: Self)
        ensures
            r == *self,
    {
        ArgType { name: self.name.clone(), ty: self.ty.clone() }
    }
}

/// A statement of the template section or of a function body.
#[derive(Debug)]
pub enum Statement {
    DefaultSet { key: String, value: Expression },
    VarAssign { name: String, value: Expression },
    ConstAssign { name: String, value: Expression },
    If { condition: Expression, body: Vec<Statement>, else_body: Option<Vec<Statement>> },
    While { condition: Expression, body: Vec<Statement> },
    For { iterator: String, iterable: Expression, body: Vec<Statement> },
    Return { doc_element: DocElement },
    FunctionDecl { name: String, args: Vec<FuncParam>, body: Vec<Statement> },
}

// ---------------------------------------------------------------------------
// Content elements
// ---------------------------------------------------------------------------

/// The attributes that markup gives an element: name to expression. Where a
/// name stands more than once, the last entry counts.
#[derive(Debug)]
pub struct AttributeMap {
    pub entries: Vec<(String, Expression)>,
}

impl View for AttributeMap {
    type V = Map<Seq<char>, ExprModel>;

    open spec fn view(&self) -> Map<Seq<char>, ExprModel> {
        map_of(self.pairs())
    }
}

/// The entries of an attribute map that is held as a sequence.
pub open spec fn attribute_pairs(entries: Seq<(String, Expression)>) -> Seq<(Seq<char>, ExprModel)> {
    Seq::new(entries.len(), |i: int| (entries[i].0@, entries[i].1@))
}

impl AttributeMap {
    /// The entries, in order, each as name and expression.
    pub open spec fn pairs(&self) -> Seq<(Seq<char>, ExprModel)> {
        attribute_pairs(self.entries@)
    }

    /// A map without attributes.
    pub fn new() -> (r: Self)
        ensures
            r.pairs() == Seq::<(Seq<char>, ExprModel)>::empty(),
            r@ == Map::<Seq<char>, ExprModel>::empty(),
    {
        let r = AttributeMap { entries: Vec::new() };
        assert(r.pairs() =~= Seq::<(Seq<char>, ExprModel)>::empty());
        r
    }

    /// The index of the last entry with this name.
    fn position(&self, key: &str) -> (r: Option<usize>)
        ensures
            match r {
                Some(i) => i < self.entries@.len() && self.pairs()[i as int].0 == key@ && forall|
                    j: int,
                |
                    i < j < self.entries@.len() ==> (#[trigger] self.pairs()[j]).0 != key@,
                None => forall|j: int|
                    0 <= j < self.entries@.len() ==> (#[trigger] self.pairs()[j]).0 != key@,
            },
    {
        let mut i: usize = self.entries.len();
        while i > 0
            invariant
                i <= self.entries@.len(),
                forall|j: int|
                    i <= j < self.entries@.len() ==> (#[trigger] self.pairs()[j]).0 != key@,
            decreases i,
        {
            i -= 1;
            if str_eq(self.entries[i].0.as_str(), key) {
                return Some(i);
            }
        }
        None
    }

    /// The expression of the attribute `key`, where the element has it.
    pub fn get(&self, key: &str) -> (r: Option<&Expression>)
        ensures
            r is Some <==> self@.dom().contains(key@),
            r matches Some(e) ==> e@ == self@[key@],
    {
        match self.position(key) {
            Some(i) => {
                proof {
                    lemma_map_of_last(self.pairs(), i as int);
                }
                Some(&self.entries[i].1)
            },
            None => {
                proof {
                    lemma_map_of_absent(self.pairs(), key@);
                }
                None
            },
        }
    }

    /// Gives the attribute `key` the expression `value`.
    pub fn insert(&mut self, key: String, value: Expression)
        ensures
            final(self)@ == old(self)@.insert(key@, value@),
            final(self).pairs() == put(old(self).pairs(), key@, value@),
    {
        match self.position(key.as_str()) {
            Some(i) => {
                proof {
                    lemma_map_of_update(self.pairs(), i as int, value@);
                    lemma_put_found(self.pairs(), key@, value@, i as int);
                }
                let ghost before = self.pairs();
                self.entries.set(i, (key, value));
                assert(self.pairs() =~= before.update(i as int, (key@, value@)));
            },
            None => {
                proof {
                    lemma_put_absent(self.pairs(), key@, value@);
                }
                let ghost before = self.pairs();
                self.entries.push((key, value));
                assert(self.pairs() =~= before.push((key@, value@)));
                assert(self.pairs().drop_last() =~= before);
            },
        }
    }
}

impl Clone for AttributeMap {
    fn clone(&self) -> (r: Self)
        ensures
            r.pairs() == self.pairs(),
            r@ == self@,
    {
        let mut entries: Vec<(String, Expression)> = Vec::new();
        let mut i: usize = 0;
        while i < self.entries.len()
            invariant
                i <= self.entries@.len(),
                entries@.len() == i,
                forall|j: int|
                    0 <= j < i ==> entries@[j].0@ == self.entries@[j].0@ && entries@[j].1@
                        == self.entries@[j].1@,
            decreases self.entries@.len() - i,
        {
            entries.push((self.entries[i].0.clone(), self.entries[i].1.clone()));
            i += 1;
        }
        let r = AttributeMap { entries };
        assert(r.pairs() =~= self.pairs());
        r
    }
}

/// A content element of the document.
#[derive(Debug)]
pub enum DocElement {
    Text { content: String, attributes: AttributeMap },
    Image { src: String, attributes: AttributeMap },
    Table { rows: Vec<Vec<DocElement>>, attributes: AttributeMap },
    List { items: Vec<DocElement>, attributes: AttributeMap },
    Code { content: String, attributes: AttributeMap },
    Call { name: String, args: Vec<ArgType> },
    Link { href: String, content: String, attributes: AttributeMap },
    Section { elements: Vec<DocElement>, attributes: AttributeMap },
}

/// What a content element is, apart from how it is stored.
pub enum ElementModel {
    Text { content: Seq<char>, attributes: Seq<(Seq<char>, ExprModel)> },
    Image { src: Seq<char>, attributes: Seq<(Seq<char>, ExprModel)> },
    Table { rows: Seq<Seq<ElementModel>>, attributes: Seq<(Seq<char>, ExprModel)> },
    List { items: Seq<ElementModel>, attributes: Seq<(Seq<char>, ExprModel)> },
    Code { content: Seq<char>, attributes: Seq<(Seq<char>, ExprModel)> },
    Call { name: Seq<char>, args: Seq<(Seq<char>, Seq<char>)> },
    Link { href: Seq<char>, content: Seq<char>, attributes: Seq<(Seq<char>, ExprModel)> },
    Section { elements: Seq<ElementModel>, attributes: Seq<(Seq<char>, ExprModel)> },
}

/// The models of a sequence of elements.
pub open spec fn element_models(v: Seq<DocElement>) -> Seq<ElementModel>
    decreases v,
{
    Seq::new(
        v.len(),
        |i: int|
            if 0 <= i < v.len() {
                v[i].model()
            } else {
                ElementModel::Text { content: Seq::empty(), attributes: Seq::empty() }
            },
    )
}

/// The models of the rows of a table.
pub open spec fn row_models(rows: Seq<Vec<DocElement>>) -> Seq<Seq<ElementModel>>
    decreases rows,
{
    Seq::new(
        rows.len(),
        |i: int|
            if 0 <= i < rows.len() {
                element_models(rows[i]@)
            } else {
                Seq::empty()
            },
    )
}

/// The arguments of a call, each as text and tag.
pub open spec fn arg_models(args: Seq<ArgType>) -> Seq<(Seq<char>, Seq<char>)> {
    Seq::new(args.len(), |i: int| args[i].model())
}

impl DocElement {
    /// What this element is.
    pub open spec fn model(&self) -> ElementModel
        decreases self,
    {
        match self {
            DocElement::Text { content, attributes } => ElementModel::Text {
                content: content@,
                attributes: attributes.pairs(),
            },
            DocElement::Image { src, attributes } => ElementModel::Image {
                src: src@,
                attributes: attributes.pairs(),
            },
            DocElement::Table { rows, attributes } => ElementModel::Table {
                rows: row_models(rows@),
                attributes: attributes.pairs(),
            },
            DocElement::List { items, attributes } => ElementModel::List {
                items: element_models(items@),
                attributes: attributes.pairs(),
            },
            DocElement::Code { content, attributes } => ElementModel::Code {
                content: content@,
                attributes: attributes.pairs(),
            },
            DocElement::Call { name, args } => ElementModel::Call {
                name: name@,
                args: arg_models(args@),
            },
            DocElement::Link { href, content, attributes } => ElementModel::Link {
                href: href@,
                content: content@,
                attributes: attributes.pairs(),
            },
            DocElement::Section { elements, attributes } => ElementModel::Section {
                elements: element_models(elements@),
                attributes: attributes.pairs(),
            },
        }
    }
}

impl View for DocElement {
    type V = ElementModel;

    open spec fn view(&self) -> ElementModel {
        self.model()
    }
}

impl ElementModel {
    /// The attributes that markup gave the element; a call has none.
    pub open spec fn attributes(self) -> Seq<(Seq<char>, ExprModel)> {
        match self {
            ElementModel::Text { attributes, .. } => attributes,
            ElementModel::Image { attributes, .. } => attributes,
            ElementModel::Table { attributes, .. } => attributes,
            ElementModel::List { attributes, .. } => attributes,
            ElementModel::Code { attributes, .. } => attributes,
            ElementModel::Call { .. } => Seq::empty(),
            ElementModel::Link { attributes, .. } => attributes,
            ElementModel::Section { attributes, .. } => attributes,
        }
    }

    /// The tag of the element's kind, which a type selector is matched against.
    pub open spec fn type_tag(self) -> Seq<char> {
        match self {
            ElementModel::Text { .. } => "text"@,
            ElementModel::Image { .. } => "image"@,
            ElementModel::Table { .. } => "table"@,
            ElementModel::List { .. } => "list"@,
            ElementModel::Code { .. } => "code"@,
            ElementModel::Call { .. } => "call"@,
            ElementModel::Link { .. } => "link"@,
            ElementModel::Section { .. } => "section"@,
        }
    }

    /// The elements that a container holds; empty for every other kind.
    pub open spec fn children(self) -> Seq<ElementModel> {
        match self {
            ElementModel::List { items, .. } => items,
            ElementModel::Section { elements, .. } => elements,
            _ => Seq::empty(),
        }
    }
}

/// A copy of each element of `v`.
pub fn clone_elements(v: &Vec<DocElement>) -> (r: Vec<DocElement>)
    ensures
        element_models(r@) == element_models(v@),
    decreases v,
{
    let mut out: Vec<DocElement> = Vec::new();
    let mut i: usize = 0;
    while i < v.len()
        invariant
            i <= v.len(),
            out@.len() == i,
            forall|j: int| 0 <= j < i ==> out@[j]@ == v@[j]@,
        decreases v.len() - i,
    {
        proof {
            vstd::std_specs::vec::axiom_vec_index_decreases(*v, i as int);
        }
        out.push(v[i].clone());
        i += 1;
    }
    assert(element_models(out@) =~= element_models(v@));
    out
}

fn clone_rows(rows: &Vec<Vec<DocElement>>) -> (r: Vec<Vec<DocElement>>)
    ensures
        row_models(r@) == row_models(rows@),
    decreases rows,
{
    let mut out: Vec<Vec<DocElement>> = Vec::new();
    let mut i: usize = 0;
    while i < rows.len()
        invariant
            i <= rows.len(),
            out@.len() == i,
            forall|j: int| 0 <= j < i ==> element_models(out@[j]@) == element_models(rows@[j]@),
        decreases rows.len() - i,
    {
        proof {
            vstd::std_specs::vec::axiom_vec_index_decreases(*rows, i as int);
        }
        out.push(clone_elements(&rows[i]));
        i += 1;
    }
    assert(row_models(out@) =~= row_models(rows@));
    out
}

fn clone_args(args: &Vec<ArgType>) -> (r: Vec<ArgType>)
    ensures
        r@ == args@,
{
    let mut out: Vec<ArgType> = Vec::new();
    let mut i: usize = 0;
    while i < args.len()
        invariant
            i <= args.len(),
            out@.len() == i,
            forall|j: int| 0 <= j < i ==> out@[j] == args@[j],
        decreases args.len() - i,
    {
        out.push(args[i].clone());
        i += 1;
    }
    assert(out@ =~= args@);
    out
}

impl Clone for DocElement {
    fn clone(&self) -> (r: Self)
        ensures
            r@ == self@,
        decreases self,
    {
        match self {
            DocElement::Text { content, attributes } => DocElement::Text {
                content: content.clone(),
                attributes: attributes.clone(),
            },
            DocElement::Image { src, attributes } => DocElement::Image {
                src: src.clone(),
                attributes: attributes.clone(),
            },
            DocElement::Table { rows, attributes } => DocElement::Table {
                rows: clone_rows(rows),
                attributes: attributes.clone(),
            },
            DocElement::List { items, attributes } => DocElement::List {
                items: clone_elements(items),
                attributes: attributes.clone(),
            },
            DocElement::Code { content, attributes } => DocElement::Code {
                content: content.clone(),
                attributes: attributes.clone(),
            },
            DocElement::Call { name, args } => DocElement::Call {
                name: name.clone(),
                args: clone_args(args),
            },
            DocElement::Link { href, content, attributes } => DocElement::Link {
                href: href.clone(),
                content: content.clone(),
                attributes: attributes.clone(),
            },
            DocElement::Section { elements, attributes } => DocElement::Section {
                elements: clone_elements(elements),
                attributes: attributes.clone(),
            },
        }
    }
}

// ---------------------------------------------------------------------------
// Style rules
// ---------------------------------------------------------------------------

/// A selector of a style rule: by class, by id or by kind of element.
#[derive(Debug)]
pub enum Selector {
    Class(String),
    Id(String),
    Type(String),
}

/// What a selector is.
pub enum SelectorModel {
    Class(Seq<char>),
    Id(Seq<char>),
    Type(Seq<char>),
}

impl View for Selector {
    type V = SelectorModel;

    open spec fn view(&self) -> SelectorModel {
        match self {
            Selector::Class(s) => SelectorModel::Class(s@),
            Selector::Id(s) => SelectorModel::Id(s@),
            Selector::Type(s) => SelectorModel::Type(s@),
        }
    }
}

impl Clone for Selector {
    fn clone(&self) -> (r: Self)
        ensures
            r == *self,
    {
        match self {
            Selector::Class(s) => Selector::Class(s.clone()),
            Selector::Id(s) => Selector::Id(s.clone()),
            Selector::Type(s) => Selector::Type(s.clone()),
        }
    }
}

/// What one selector adds to a rule's specificity.
pub open spec fn selector_weight(s: SelectorModel) -> nat {
    match s {
        SelectorModel::Id(_) => 100,
        SelectorModel::Class(_) => 10,
        SelectorModel::Type(_) => 1,
    }
}

/// 100 for each id selector, 10 for each class selector and 1 for each type selector.
pub open spec fn weight_sum(selectors: Seq<SelectorModel>) -> nat
    decreases selectors.len(),
{
    if selectors.len() == 0 {
        0
    } else {
        weight_sum(selectors.drop_last()) + selector_weight(selectors.last())
    }
}

/// The specificity of a selector list: its weight, held at the largest
/// number of 32 bits where it is more.
pub open spec fn specificity_of(selectors: Seq<SelectorModel>) -> nat {
    if weight_sum(selectors) <= u32::MAX {
        weight_sum(selectors)
    } else {
        u32::MAX as nat
    }
}

/// The models of a sequence of selectors.
pub open spec fn selector_models(v: Seq<Selector>) -> Seq<SelectorModel> {
    Seq::new(v.len(), |i: int| v[i]@)
}

/// The declarations of a rule, each as property and expression.
pub open spec fn declaration_models(v: Seq<KeyValue>) -> Seq<(Seq<char>, ExprModel)> {
    Seq::new(v.len(), |i: int| v[i].model())
}

/// A style rule: selectors, declarations, and the specificity of the selectors.
#[derive(Debug)]
pub struct StyleRule {
    pub selector_list: Vec<Selector>,
    pub declaration_block: Vec<KeyValue>,
    pub specificity: u32,
}

/// What a style rule is.
pub struct RuleModel {
    pub selectors: Seq<SelectorModel>,
    pub declarations: Seq<(Seq<char>, ExprModel)>,
    pub specificity: nat,
}

impl View for StyleRule {
    type V = RuleModel;

    open spec fn view(&self) -> RuleModel {
        RuleModel {
            selectors: selector_models(self.selector_list@),
            declarations: declaration_models(self.declaration_block@),
            specificity: self.specificity as nat,
        }
    }
}

impl StyleRule {
    /// A rule of these selectors and declarations, with its specificity.
    pub fn new(selector_list: Vec<Selector>, declaration_block: Vec<KeyValue>) -> (r: Self)
        ensures
            r.selector_list == selector_list,
            r.declaration_block == declaration_block,
            r.specificity == specificity_of(selector_models(selector_list@)),
    {
        let specificity = Self::compute_specificity(&selector_list);
        StyleRule { selector_list, declaration_block, specificity }
    }

    /// 100 for each id selector, 10 for each class selector and 1 for each
    /// type selector; `u32::MAX` where that is more.
    pub fn compute_specificity(selectors: &Vec<Selector>) -> (r: u32)
        ensures
            r == specificity_of(selector_models(selectors@)),
    {
        let ghost models = selector_models(selectors@);
        let mut id_count: usize = 0;
        let mut class_count: usize = 0;
        let mut type_count: usize = 0;
        let mut i: usize = 0;
        while i < selectors.len()
            invariant
                i <= selectors.len(),
                models == selector_models(selectors@),
                id_count + class_count + type_count == i,
                id_count * 100 + class_count * 10 + type_count == weight_sum(models.take(i as int)),
            decreases selectors.len() - i,
        {
            proof {
                assert(models.take(i + 1).drop_last() =~= models.take(i as int));
                assert(models.take(i + 1).last() == selectors@[i as int]@);
            }
            match &selectors[i] {
                Selector::Id(_) => {
                    id_count += 1;
                },
                Selector::Class(_) => {
                    class_count += 1;
                },
                Selector::Type(_) => {
                    type_count += 1;
                },
            }
            i += 1;
        }
        assert(models.take(selectors.len() as int) =~= models);
        let total: u128 = (id_count as u128) * 100 + (class_count as u128) * 10 + (
        type_count as u128);
        if total > 0xffff_ffff {
            0xffff_ffff
        } else {
            total as u32
        }
    }
}

impl Clone for StyleRule {
    fn clone(&self) -> (r: Self)
        ensures
            r@ == self@,
    {
        let mut selector_list: Vec<Selector> = Vec::new();
        let mut i: usize = 0;
        while i < self.selector_list.len()
            invariant
                i <= self.selector_list.len(),
                selector_list@.len() == i,
                forall|j: int| 0 <= j < i ==> selector_list@[j] == self.selector_list@[j],
            decreases self.selector_list.len() - i,
        {
            selector_list.push(self.selector_list[i].clone());
            i += 1;
        }
        let mut declaration_block: Vec<KeyValue> = Vec::new();
        let mut k: usize = 0;
        while k < self.declaration_block.len()
            invariant
                k <= self.declaration_block.len(),
                declaration_block@.len() == k,
                forall|j: int|
                    0 <= j < k ==> declaration_block@[j].model() == self.declaration_block@[j].model(),
            decreases self.declaration_block.len() - k,
        {
            declaration_block.push(self.declaration_block[k].clone());
            k += 1;
        }
        let r = StyleRule { selector_list, declaration_block, specificity: self.specificity };
        assert(r@.selectors =~= self@.selectors);
        assert(r@.declarations =~= self@.declarations);
        r
    }
}

// ---------------------------------------------------------------------------
// What statements are
// ---------------------------------------------------------------------------

/// What a statement is, apart from how it is stored.
pub enum StatementModel {
    DefaultSet { key: Seq<char>, value: ExprModel },
    VarAssign { name: Seq<char>, value: ExprModel },
    ConstAssign { name: Seq<char>, value: ExprModel },
    If { condition: ExprModel, body: Seq<StatementModel>, else_body: Option<Seq<StatementModel>> },
    While { condition: ExprModel, body: Seq<StatementModel> },
    For { iterator: Seq<char>, iterable: ExprModel, body: Seq<StatementModel> },
    Return { doc_element: ElementModel },
    FunctionDecl {
        name: Seq<char>,
        args: Seq<(Seq<char>, ExprModel)>,
        body: Seq<StatementModel>,
    },
}

/// The models of a sequence of statements.
pub open spec fn statement_models(v: Seq<Statement>) -> Seq<StatementModel>
    decreases v,
{
    Seq::new(
        v.len(),
        |i: int|
            if 0 <= i < v.len() {
                v[i].model()
            } else {
                StatementModel::While { condition: ExprModel::Int(0), body: Seq::empty() }
            },
    )
}

/// The parameters of a function, each as type tag and expression.
pub open spec fn param_models(v: Seq<FuncParam>) -> Seq<(Seq<char>, ExprModel)> {
    Seq::new(v.len(), |i: int| (v[i].ty@, v[i].value@))
}

impl Statement {
    /// What this statement is.
    pub open spec fn model(&self) -> StatementModel
        decreases self,
    {
        match self {
            Statement::DefaultSet { key, value } => StatementModel::DefaultSet {
                key: key@,
                value: value@,
            },
            Statement::VarAssign { name, value } => StatementModel::VarAssign {
                name: name@,
                value: value@,
            },
            Statement::ConstAssign { name, value } => StatementModel::ConstAssign {
                name: name@,
                value: value@,
            },
            Statement::If { condition, body, else_body } => StatementModel::If {
                condition: condition@,
                body: statement_models(body@),
                else_body: match else_body {
                    Some(b) => Some(statement_models(b@)),
                    None => None,
                },
            },
            Statement::While { condition, body } => StatementModel::While {
                condition: condition@,
                body: statement_models(body@),
            },
            Statement::For { iterator, iterable, body } => StatementModel::For {
                iterator: iterator@,
                iterable: iterable@,
                body: statement_models(body@),
            },
            Statement::Return { doc_element } => StatementModel::Return {
                doc_element: doc_element@,
            },
            Statement::FunctionDecl { name, args, body } => StatementModel::FunctionDecl {
                name: name@,
                args: param_models(args@),
                body: statement_models(body@),
            },
        }
    }
}

/// A copy of each statement of `v`.
pub fn clone_statements(v: &Vec<Statement>) -> (r: Vec<Statement>)
    ensures
        statement_models(r@) == statement_models(v@),
    decreases v,
{
    let mut out: Vec<Statement> = Vec::new();
    let mut i: usize = 0;
    while i < v.len()
        invariant
            i <= v.len(),
            out@.len() == i,
            forall|j: int| 0 <= j < i ==> out@[j]@ == v@[j]@,
        decreases v.len() - i,
    {
        proof {
            vstd::std_specs::vec::axiom_vec_index_decreases(*v, i as int);
        }
        out.push(v[i].clone());
        i += 1;
    }
    assert(statement_models(out@) =~= statement_models(v@));
    out
}

fn clone_params(v: &Vec<FuncParam>) -> (r: Vec<FuncParam>)
    ensures
        param_models(r@) == param_models(v@),
{
    let mut out: Vec<FuncParam> = Vec::new();
    let mut i: usize = 0;
    while i < v.len()
        invariant
            i <= v.len(),
            out@.len() == i,
            forall|j: int|
                0 <= j < i ==> out@[j].ty@ == v@[j].ty@ && out@[j].value@ == v@[j].value@,
        decreases v.len() - i,
    {
        out.push(FuncParam { ty: v[i].ty.clone(), value: v[i].value.clone() });
        i += 1;
    }
    assert(param_models(out@) =~= param_models(v@));
    out
}

impl Clone for Statement {
    fn clone(&self) -> (r: Self)
        ensures
            r@ == self@,
        decreases self,
    {
        match self {
            Statement::DefaultSet { key, value } => Statement::DefaultSet {
                key: key.clone(),
                value: value.clone(),
            },
            Statement::VarAssign { name, value } => Statement::VarAssign {
                name: name.clone(),
                value: value.clone(),
            },
            Statement::ConstAssign { name, value } => Statement::ConstAssign {
                name: name.clone(),
                value: value.clone(),
            },
            Statement::If { condition, body, else_body } => Statement::If {
                condition: condition.clone(),
                body: clone_statements(body),
                else_body: match else_body {
                    Some(b) => Some(clone_statements(b)),
                    None => None,
                },
            },
            Statement::While { condition, body } => Statement::While {
                condition: condition.clone(),
                body: clone_statements(body),
            },
            Statement::For { iterator, iterable, body } => Statement::For {
                iterator: iterator.clone(),
                iterable: iterable.clone(),
                body: clone_statements(body),
            },
            Statement::Return { doc_element } => Statement::Return {
                doc_element: doc_element.clone(),
            },
            Statement::FunctionDecl { name, args, body } => Statement::FunctionDecl {
                name: name.clone(),
                args: clone_params(args),
                body: clone_statements(body),
            },
        }
    }
}

impl Clone for TemplateBlock {
    fn clone(&self) -> (r: Self)
        ensures
            statement_models(r.statements@) == statement_models(self.statements@),
    {
        TemplateBlock { statements: clone_statements(&self.statements) }
    }
}

impl View for Statement {
    type V = StatementModel;

    open spec fn view(&self) -> StatementModel {
        self.model()
    }
}

// ---------------------------------------------------------------------------
// The three sections
// ---------------------------------------------------------------------------

/// The document section: the content elements in order.
#[derive(Debug, Clone)]
pub struct DocumentBlock {
    pub elements: Vec<DocElement>,
}

/// The style section: the rules in order.
#[derive(Debug, Clone)]
pub struct StyleBlock {
    pub statements: Vec<StyleRule>,
}

/// The syntax tree of a source: its three sections, each where the source has it.
#[derive(Debug, Clone)]
pub struct Ast {
    pub template: Option<TemplateBlock>,
    pub document: Option<DocumentBlock>,
    pub style: Option<StyleBlock>,
}

/// What a syntax tree holds.
pub struct AstModel {
    pub template: Option<Seq<StatementModel>>,
    pub document: Option<Seq<ElementModel>>,
    pub style: Option<Seq<RuleModel>>,
}

/// The models of a sequence of rules.
pub open spec fn style_rule_models(v: Seq<StyleRule>) -> Seq<RuleModel> {
    Seq::new(v.len(), |i: int| v[i]@)
}

impl View for Ast {
    type V = AstModel;

    open spec fn view(&self) -> AstModel {
        AstModel {
            template: match self.template {
                Some(t) => Some(statement_models(t.statements@)),
                None => None,
            },
            document: match self.document {
                Some(d) => Some(element_models(d.elements@)),
                None => None,
            },
            style: match self.style {
                Some(s) => Some(style_rule_models(s.statements@)),
                None => None,
            },
        }
    }
}

} // verus!
