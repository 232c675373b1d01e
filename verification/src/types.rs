//! The data the language is made of: source positions, tokens, runtime
//! values and the expression tree, each with its mathematical view.

use crate::numbers::Number;
use crate::text::{push_decimal, push_str, string_of};
use crate::text::decimal;
use vstd::prelude::*;

verus! {

/// A span is a location in the source code.
#[derive(Debug, PartialEq, Eq)]
pub struct Span {
    pub name: Option<String>,
    pub row: usize,
    pub column: usize,
    pub length: usize,
}

/// What a span holds.
pub struct SpanView {
    pub name: Option<Seq<char>>,
    pub row: nat,
    pub column: nat,
    pub length: nat,
}

impl View for Span {
    type V = SpanView;

    open spec fn view(&self) -> SpanView {
        SpanView {
            name: match self.name {
                Some(n) => Some(n@),
                None => None,
            },
            row: self.row as nat,
            column: self.column as nat,
            length: self.length as nat,
        }
    }
}

impl Clone for Span {
    fn clone(&self) -> (r: Self)
        ensures
            r@ == self@,
    {
        Span {
            name: match &self.name {
                Some(n) => Some(n.clone()),
                None => None,
            },
            row: self.row,
            column: self.column,
            length: self.length,
        }
    }
}

/// The text of a span: its name, or `<unknown>` where it has none, then
/// row, column and length, with colons between them.
pub open spec fn span_text(span: SpanView) -> Seq<char> {
    (match span.name {
        Some(n) => n,
        None => "<unknown>"@,
    }) + seq![':'] + decimal(span.row) + seq![':'] + decimal(span.column) + seq![':'] + decimal(
        span.length,
    )
}

impl Span {
    /// The text of the span, as `name:row:column:length`.
    pub fn to_string(&self) -> (r: String)
        ensures
            r@ == span_text(self@),
    {
        let mut out: Vec<char> = Vec::new();
        match &self.name {
            Some(n) => push_str(&mut out, n.as_str()),
            None => push_str(&mut out, "<unknown>"),
        }
        out.push(':');
        push_decimal(&mut out, self.row as u128);
        out.push(':');
        push_decimal(&mut out, self.column as u128);
        out.push(':');
        push_decimal(&mut out, self.length as u128);
        assert(out@ =~= span_text(self@));
        string_of(&out)
    }
}

/// A token is a single unit of a program.
#[derive(Debug, PartialEq, Eq)]
pub struct Token {
    pub span: Span,
    pub token: String,
}

/// What a token holds.
pub struct TokenView {
    pub span: SpanView,
    pub token: Seq<char>,
}

impl View for Token {
    type V = TokenView;

    open spec fn view(&self) -> TokenView {
        TokenView { span: self.span@, token: self.token@ }
    }
}

impl Clone for Token {
    fn clone(&self) -> (r: Self)
        ensures
            r@ == self@,
    {
        Token { span: self.span.clone(), token: self.token.clone() }
    }
}

/// A value is a literal value that has been evaluated.
///
/// A list, a hash and an integer-keyed hash are shared: the value holds the
/// handle of a container that lives in the evaluator's store, so that every
/// holder of the handle sees what any of them writes.
#[derive(Debug, PartialEq, Eq)]
pub enum Value {
    Number(Number),
    String(String),
    Boolean(bool),
    Block { arity_in: usize, arity_out: usize, expression: Box<Expression> },
    List(usize),
    Hash(usize),
    IntHash(usize),
}

/// An expression is a single unit of a program, part of the AST.
#[derive(Debug, PartialEq, Eq)]
pub enum Expression {
    /// An identifier/variable, used to lookup a named value or global
    Identifier(String),
    /// A dotted expression, used to lookup fields in structs
    DottedIdentifier(Vec<String>),
    /// A literal value
    Literal(Value),
    /// A function definition, generally delimited with {}
    Block(Vec<Expression>),
    /// A list of values, generally delimited with []
    List(Vec<Expression>),
    /// A group of values, generally delimited with ()
    Group(Vec<Expression>),
    /// An @ prefixed expression, used to name values on the stack
    At(Box<Expression>),
    /// A ! prefixed expression, used to set values by name
    Bang(Box<Expression>),
    /// A $ prefixed expression, used to push a named value without calling it
    Dollar(Box<Expression>),
}

/// What a value holds.
pub enum ValueView {
    Number(Number),
    String(Seq<char>),
    Boolean(bool),
    Block { arity_in: nat, arity_out: nat, expression: Box<ExpressionView> },
    List(nat),
    Hash(nat),
    IntHash(nat),
}

/// What an expression holds.
pub enum ExpressionView {
    Identifier(Seq<char>),
    DottedIdentifier(Seq<Seq<char>>),
    Literal(ValueView),
    Block(Seq<ExpressionView>),
    List(Seq<ExpressionView>),
    Group(Seq<ExpressionView>),
    At(Box<ExpressionView>),
    Bang(Box<ExpressionView>),
    Dollar(Box<ExpressionView>),
}

/// The views of a sequence of strings.
pub open spec fn string_views(names: Seq<String>) -> Seq<Seq<char>> {
    Seq::new(names.len(), |i: int| names[i]@)
}

/// The view of a value.
pub open spec fn value_view(v: Value) -> ValueView
    decreases v,
{
    match v {
        Value::Number(n) => ValueView::Number(n),
        Value::String(s) => ValueView::String(s@),
        Value::Boolean(b) => ValueView::Boolean(b),
        Value::Block { arity_in, arity_out, expression } => ValueView::Block {
            arity_in: arity_in as nat,
            arity_out: arity_out as nat,
            expression: Box::new(expression_view(*expression)),
        },
        Value::List(h) => ValueView::List(h as nat),
        Value::Hash(h) => ValueView::Hash(h as nat),
        Value::IntHash(h) => ValueView::IntHash(h as nat),
    }
}

/// The view of an expression.
pub open spec fn expression_view(e: Expression) -> ExpressionView
    decreases e,
{
    match e {
        Expression::Identifier(s) => ExpressionView::Identifier(s@),
        Expression::DottedIdentifier(ids) => ExpressionView::DottedIdentifier(string_views(ids@)),
        Expression::Literal(v) => ExpressionView::Literal(value_view(v)),
        Expression::Block(c) => ExpressionView::Block(expression_views(c@)),
        Expression::List(c) => ExpressionView::List(expression_views(c@)),
        Expression::Group(c) => ExpressionView::Group(expression_views(c@)),
        Expression::At(b) => ExpressionView::At(Box::new(expression_view(*b))),
        Expression::Bang(b) => ExpressionView::Bang(Box::new(expression_view(*b))),
        Expression::Dollar(b) => ExpressionView::Dollar(Box::new(expression_view(*b))),
    }
}

/// The views of a sequence of expressions, one for one.
pub open spec fn expression_views(es: Seq<Expression>) -> Seq<ExpressionView>
    decreases es,
{
    if es.len() == 0 {
        Seq::empty()
    } else {
        expression_views(es.drop_last()).push(expression_view(es.last()))
    }
}

/// The views of a sequence of values, one for one.
pub open spec fn value_views(vs: Seq<Value>) -> Seq<ValueView> {
    Seq::new(vs.len(), |i: int| value_view(vs[i]))
}

/// `expression_views` keeps the length and views each item in its place.
pub proof fn lemma_expression_views(es: Seq<Expression>)
    ensures
        expression_views(es).len() == es.len(),
        forall|i: int| 0 <= i < es.len() ==> #[trigger] expression_views(es)[i] == expression_view(es[i]),
    decreases es.len(),
{
    if es.len() > 0 {
        lemma_expression_views(es.drop_last());
    }
}

/// Viewing a sequence with one more item views the item last.
pub proof fn lemma_expression_views_push(es: Seq<Expression>, e: Expression)
    ensures
        expression_views(es.push(e)) == expression_views(es).push(expression_view(e)),
{
    assert(es.push(e).drop_last() =~= es);
}

impl View for Value {
    type V = ValueView;

    open spec fn view(&self) -> ValueView {
        value_view(*self)
    }
}

impl View for Expression {
    type V = ExpressionView;

    open spec fn view(&self) -> ExpressionView {
        expression_view(*self)
    }
}

fn clone_strings(v: &Vec<String>) -> (r: Vec<String>)
    ensures
        string_views(r@) == string_views(v@),
{
    let mut out: Vec<String> = Vec::new();
    let mut i: usize = 0;
    while i < v.len()
        invariant
            i <= v.len(),
            out.len() == i,
            forall|j: int| 0 <= j < i ==> out@[j]@ == v@[j]@,
        decreases v.len() - i,
    {
        out.push(v[i].clone());
        i = i + 1;
    }
    assert(string_views(out@) =~= string_views(v@));
    out
}

fn clone_value(v: &Value) -> (r: Value)
    ensures
        r@ == v@,
    decreases v,
{
    match v {
        Value::Number(n) => Value::Number(*n),
        Value::String(s) => Value::String(s.clone()),
        Value::Boolean(b) => Value::Boolean(*b),
        Value::Block { arity_in, arity_out, expression } => Value::Block {
            arity_in: *arity_in,
            arity_out: *arity_out,
            expression: Box::new(clone_expression(expression)),
        },
        Value::List(h) => Value::List(*h),
        Value::Hash(h) => Value::Hash(*h),
        Value::IntHash(h) => Value::IntHash(*h),
    }
}

fn clone_expressions(v: &Vec<Expression>) -> (r: Vec<Expression>)
    ensures
        expression_views(r@) == expression_views(v@),
    decreases v,
{
    let mut out: Vec<Expression> = Vec::new();
    let mut i: usize = 0;
    while i < v.len()
        invariant
            i <= v.len(),
            expression_views(out@) == expression_views(v@.take(i as int)),
        decreases v.len() - i,
    {
        let c = clone_expression(&v[i]);
        proof {
            lemma_expression_views_push(out@, c);
            lemma_expression_views_push(v@.take(i as int), v@[i as int]);
            assert(v@.take(i as int).push(v@[i as int]) =~= v@.take(i + 1));
        }
        out.push(c);
        i = i + 1;
    }
    assert(v@.take(v.len() as int) =~= v@);
    out
}

fn clone_expression(e: &Expression) -> (r: Expression)
    ensures
        r@ == e@,
    decreases e,
{
    match e {
        Expression::Identifier(s) => Expression::Identifier(s.clone()),
        Expression::DottedIdentifier(ids) => Expression::DottedIdentifier(clone_strings(ids)),
        Expression::Literal(v) => Expression::Literal(clone_value(v)),
        Expression::Block(c) => Expression::Block(clone_expressions(c)),
        Expression::List(c) => Expression::List(clone_expressions(c)),
        Expression::Group(c) => Expression::Group(clone_expressions(c)),
        Expression::At(b) => Expression::At(Box::new(clone_expression(b))),
        Expression::Bang(b) => Expression::Bang(Box::new(clone_expression(b))),
        Expression::Dollar(b) => Expression::Dollar(Box::new(clone_expression(b))),
    }
}

impl Clone for Value {
    /// A copy with the same view. A shared container is not copied: the
    /// copy holds the same handle.
    fn clone(&self) -> (r: Self)
        ensures
            r@ == self@,
    {
        clone_value(self)
    }
}

impl Clone for Expression {
    fn clone(&self) -> (r: Self)
        ensures
            r@ == self@,
    {
        clone_expression(self)
    }
}

} // verus!
