//! The syntax of queries and expressions, shared by the virtual schema and
//! the physical one: rewriting maps a tree over entities to a tree over tables.

use vstd::prelude::*;

use crate::text::texts;

verus! {

/// A binary operator, in rising order of binding strength by group.
#[derive(Clone, Copy, Debug, PartialEq, Eq, Structural)]
pub enum BinaryOp {
    Or,
    And,
    Eq,
    NotEq,
    Lt,
    LtEq,
    Gt,
    GtEq,
    Plus,
    Minus,
    Multiply,
    Divide,
    Modulo,
    /// `LIKE`; binds as the comparisons do.
    Like,
    /// The concatenation of two strings, written `||`.
    Concat,
}

/// An operator with a list of operands.
#[derive(Clone, Copy, Debug, PartialEq, Eq, Structural)]
pub enum NaryOp {
    /// `a IN (b, ..)`: the tested value, then the candidates.
    In,
    /// `a NOT IN (b, ..)`.
    NotIn,
    /// `a BETWEEN low AND high`: three operands.
    Between,
    /// `a NOT BETWEEN low AND high`.
    NotBetween,
    /// `CASE WHEN c THEN r .. [ELSE e] END`: pairs of condition and result,
    /// then the result of `ELSE` if the number of operands is odd.
    Case,
    /// `CASE x WHEN v THEN r .. [ELSE e] END`: the operand, pairs of value
    /// and result, then the result of `ELSE` if the number of operands is
    /// even.
    CaseOf,
    /// `EXISTS (subquery)`: one operand.
    Exists,
}

/// How a join treats rows without a partner.
#[derive(Clone, Copy, Debug, PartialEq, Eq, Structural)]
pub enum JoinKind {
    Inner,
    Left,
    Right,
    Full,
    /// Every row with every row. Such a join has no condition: what stands
    /// in its place is not written.
    Cross,
}

/// What a table reference names.
#[derive(Debug, PartialEq, Eq)]
pub enum TableSource {
    /// A dotted name: an entity in a virtual query, a table in a physical one.
    Named(Vec<String>),
    /// The text of a subquery that stands for a table.
    Raw(String),
    /// A nested block of the query block that holds the reference, by its
    /// place among the nested blocks.
    Block(usize),
}

/// A table in a `FROM` or `JOIN` clause.
#[derive(Debug, PartialEq, Eq)]
pub struct TableRef {
    pub source: TableSource,
    pub alias: Option<String>,
}

/// A join with its condition.
#[derive(Debug, PartialEq, Eq)]
pub struct Join {
    pub kind: JoinKind,
    pub table: TableRef,
    pub on: Expr,
}

/// An expression.
#[derive(Debug, PartialEq, Eq)]
pub enum Expr {
    Null,
    Bool(bool),
    /// A numeric literal, as written.
    Number(String),
    /// A string literal; the content without the quotes.
    Text(String),
    /// `*`, as a select item or as the argument of `count`.
    Wildcard,
    /// A dotted column path.
    Column(Vec<String>),
    Not(Box<Expr>),
    Negate(Box<Expr>),
    /// `IS NULL`, or `IS NOT NULL` where the flag is set.
    IsNull(Box<Expr>, bool),
    Binary(BinaryOp, Box<Expr>, Box<Expr>),
    /// A function call: name, `DISTINCT` flag, arguments.
    Call(String, bool, Vec<Expr>),
    /// An operator with a list of operands.
    Nary(NaryOp, Vec<Expr>),
    /// `CAST(e AS type)`, with the type as written.
    Cast(Box<Expr>, String),
    /// A nested block of the enclosing query block, by its place among the
    /// nested blocks.
    Subquery(usize),
    /// A scalar subquery that computes one aggregate over the rows of `table`
    /// (with `joins`) that satisfy `on`.
    Summary { call: Box<Expr>, table: TableRef, joins: Vec<Join>, on: Box<Expr> },
}

#[derive(Debug, PartialEq, Eq)]
pub struct SelectItem {
    pub expr: Expr,
    pub alias: Option<String>,
}

#[derive(Debug, PartialEq, Eq)]
pub struct OrderItem {
    pub expr: Expr,
    pub descending: bool,
}

/// How two query blocks are combined.
#[derive(Clone, Copy, Debug, PartialEq, Eq, Structural)]
pub enum SetOp {
    Union,
    Intersect,
    Except,
}

/// The set operation that follows a query block.
#[derive(Clone, Copy, Debug, PartialEq, Eq, Structural)]
pub struct SetStep {
    pub op: SetOp,
    /// With `ALL`: rows that occur more than once are kept.
    pub all: bool,
    /// The other side: its place among the nested blocks of the block that
    /// the operation follows.
    pub block: usize,
}

/// One query block.
#[derive(Debug, PartialEq, Eq)]
pub struct Select {
    pub distinct: bool,
    pub items: Vec<SelectItem>,
    pub from: TableRef,
    pub joins: Vec<Join>,
    pub filter: Option<Expr>,
    pub group_by: Vec<Expr>,
    pub having: Option<Expr>,
    pub order_by: Vec<OrderItem>,
    /// The row limit, as written.
    pub limit: Option<String>,
    /// The row offset, as written.
    pub offset: Option<String>,
    /// The nested blocks: subqueries of expressions and of table references,
    /// and the other side of a set operation.
    pub blocks: Vec<Select>,
    /// The set operation with all that follows the block, where one follows.
    pub union_with: Option<SetStep>,
}

pub enum TableSourceView {
    Named(Seq<Seq<char>>),
    Raw(Seq<char>),
    Block(usize),
}

pub struct TableRefView {
    pub source: TableSourceView,
    pub alias: Option<Seq<char>>,
}

pub struct JoinView {
    pub kind: JoinKind,
    pub table: TableRefView,
    pub on: ExprView,
}

pub enum ExprView {
    Null,
    Bool(bool),
    Number(Seq<char>),
    Text(Seq<char>),
    Wildcard,
    Column(Seq<Seq<char>>),
    Not(Box<ExprView>),
    Negate(Box<ExprView>),
    IsNull(Box<ExprView>, bool),
    Binary(BinaryOp, Box<ExprView>, Box<ExprView>),
    Call(Seq<char>, bool, Seq<ExprView>),
    Nary(NaryOp, Seq<ExprView>),
    Cast(Box<ExprView>, Seq<char>),
    Subquery(usize),
    Summary { call: Box<ExprView>, table: TableRefView, joins: Seq<JoinView>, on: Box<ExprView> },
}

pub struct SelectItemView {
    pub expr: ExprView,
    pub alias: Option<Seq<char>>,
}

pub struct OrderItemView {
    pub expr: ExprView,
    pub descending: bool,
}

pub struct SelectView {
    pub distinct: bool,
    pub items: Seq<SelectItemView>,
    pub from: TableRefView,
    pub joins: Seq<JoinView>,
    pub filter: Option<ExprView>,
    pub group_by: Seq<ExprView>,
    pub having: Option<ExprView>,
    pub order_by: Seq<OrderItemView>,
    pub limit: Option<Seq<char>>,
    pub offset: Option<Seq<char>>,
    pub blocks: Seq<SelectView>,
    pub union_with: Option<SetStep>,
}

/// The text of an optional string.
pub open spec fn opt_text(s: Option<String>) -> Option<Seq<char>> {
    match s {
        Some(t) => Some(t@),
        None => None,
    }
}

impl View for TableSource {
    type V = TableSourceView;

    open spec fn view(&self) -> TableSourceView {
        match self {
            TableSource::Named(p) => TableSourceView::Named(texts(p@)),
            TableSource::Raw(t) => TableSourceView::Raw(t@),
            TableSource::Block(k) => TableSourceView::Block(*k),
        }
    }
}

impl View for TableRef {
    type V = TableRefView;

    open spec fn view(&self) -> TableRefView {
        TableRefView { source: self.source@, alias: opt_text(self.alias) }
    }
}

/// The mathematical value of an expression.
pub open spec fn expr_view(e: Expr) -> ExprView
    decreases e,
{
    match e {
        Expr::Null => ExprView::Null,
        Expr::Bool(b) => ExprView::Bool(b),
        Expr::Number(t) => ExprView::Number(t@),
        Expr::Text(t) => ExprView::Text(t@),
        Expr::Wildcard => ExprView::Wildcard,
        Expr::Column(p) => ExprView::Column(texts(p@)),
        Expr::Not(a) => ExprView::Not(Box::new(expr_view(*a))),
        Expr::Negate(a) => ExprView::Negate(Box::new(expr_view(*a))),
        Expr::IsNull(a, n) => ExprView::IsNull(Box::new(expr_view(*a)), n),
        Expr::Binary(op, a, b) => ExprView::Binary(
            op,
            Box::new(expr_view(*a)),
            Box::new(expr_view(*b)),
        ),
        Expr::Call(name, distinct, args) => ExprView::Call(name@, distinct, expr_views(args@)),
        Expr::Nary(op, args) => ExprView::Nary(op, expr_views(args@)),
        Expr::Cast(a, t) => ExprView::Cast(Box::new(expr_view(*a)), t@),
        Expr::Subquery(k) => ExprView::Subquery(k),
        Expr::Summary { call, table, joins, on } => ExprView::Summary {
            call: Box::new(expr_view(*call)),
            table: table@,
            joins: join_views(joins@),
            on: Box::new(expr_view(*on)),
        },
    }
}

/// The values of a sequence of expressions.
pub open spec fn expr_views(s: Seq<Expr>) -> Seq<ExprView>
    decreases s,
{
    Seq::new(s.len(), |i: int| if 0 <= i < s.len() { expr_view(s[i]) } else { ExprView::Null })
}

/// The mathematical value of a join.
pub open spec fn join_view(j: Join) -> JoinView
    decreases j,
{
    JoinView { kind: j.kind, table: j.table@, on: expr_view(j.on) }
}

/// The values of a sequence of joins.
pub open spec fn join_views(s: Seq<Join>) -> Seq<JoinView>
    decreases s,
{
    Seq::new(
        s.len(),
        |i: int|
            if 0 <= i < s.len() {
                join_view(s[i])
            } else {
                JoinView {
                    kind: JoinKind::Left,
                    table: TableRefView { source: TableSourceView::Raw(Seq::empty()), alias: None },
                    on: ExprView::Null,
                }
            },
    )
}

impl View for Expr {
    type V = ExprView;

    open spec fn view(&self) -> ExprView {
        expr_view(*self)
    }
}

impl View for Join {
    type V = JoinView;

    open spec fn view(&self) -> JoinView {
        join_view(*self)
    }
}

/// The value of an optional expression.
pub open spec fn opt_expr_view(e: Option<Expr>) -> Option<ExprView> {
    match e {
        Some(x) => Some(x@),
        None => None,
    }
}

impl View for SelectItem {
    type V = SelectItemView;

    open spec fn view(&self) -> SelectItemView {
        SelectItemView { expr: self.expr@, alias: opt_text(self.alias) }
    }
}

impl View for OrderItem {
    type V = OrderItemView;

    open spec fn view(&self) -> OrderItemView {
        OrderItemView { expr: self.expr@, descending: self.descending }
    }
}

/// The mathematical value of a query block.
pub open spec fn select_view(q: Select) -> SelectView
    decreases q,
{
    SelectView {
        distinct: q.distinct,
        items: Seq::new(q.items@.len(), |i: int| q.items@[i]@),
        from: q.from@,
        joins: join_views(q.joins@),
        filter: opt_expr_view(q.filter),
        group_by: expr_views(q.group_by@),
        having: opt_expr_view(q.having),
        order_by: Seq::new(q.order_by@.len(), |i: int| q.order_by@[i]@),
        limit: opt_text(q.limit),
        offset: opt_text(q.offset),
        blocks: select_views(q.blocks@),
        union_with: q.union_with,
    }
}

/// The values of a sequence of query blocks.
pub open spec fn select_views(s: Seq<Select>) -> Seq<SelectView>
    decreases s,
{
    Seq::new(
        s.len(),
        |i: int|
            if 0 <= i < s.len() {
                select_view(s[i])
            } else {
                arbitrary()
            },
    )
}

impl View for Select {
    type V = SelectView;

    open spec fn view(&self) -> SelectView {
        select_view(*self)
    }
}

} // verus!
