//! The diagnostics: for each error, the text that says what went wrong and
//! where.

use vstd::prelude::*;
use vstd::string::*;

use crate::analysis::{AnalysisError, AnalysisErrorView, ColumnName, ColumnNameView};
use crate::dialect::Dialect;
use crate::joins::{
    BindError, BindErrorView, ExpandError, ExpandErrorView, RewriteError, RewriteErrorView,
};
use crate::lexer::LexError;
use crate::parser::{Expected, SyntaxError};
use crate::query::{ParseError, ParseErrorView};
use crate::render::{RenderError, RenderErrorView};
use crate::schema::{ReferenceError, ReferenceErrorView};
use crate::text::same_text;
use crate::transform::{TransformError, TransformErrorView};

verus! {

/// The character of the digit `d`.
pub open spec fn digit_char(d: nat) -> char {
    if d == 0 {
        '0'
    } else if d == 1 {
        '1'
    } else if d == 2 {
        '2'
    } else if d == 3 {
        '3'
    } else if d == 4 {
        '4'
    } else if d == 5 {
        '5'
    } else if d == 6 {
        '6'
    } else if d == 7 {
        '7'
    } else if d == 8 {
        '8'
    } else {
        '9'
    }
}

/// The decimal numeral of `n`, without leading zeros.
pub open spec fn decimal_text(n: nat) -> Seq<char>
    decreases n,
{
    if n < 10 {
        seq![digit_char(n)]
    } else {
        decimal_text(n / 10).push(digit_char(n % 10))
    }
}

/// The numeral of one digit.
pub(crate) fn digit(d: u64) -> (r: &'static str)
    requires
        d < 10,
    ensures
        r@ == seq![digit_char(d as nat)],
{
    proof {
        reveal_strlit("0");
        reveal_strlit("1");
        reveal_strlit("2");
        reveal_strlit("3");
        reveal_strlit("4");
        reveal_strlit("5");
        reveal_strlit("6");
        reveal_strlit("7");
        reveal_strlit("8");
        reveal_strlit("9");
    }
    let r = if d == 0 {
        "0"
    } else if d == 1 {
        "1"
    } else if d == 2 {
        "2"
    } else if d == 3 {
        "3"
    } else if d == 4 {
        "4"
    } else if d == 5 {
        "5"
    } else if d == 6 {
        "6"
    } else if d == 7 {
        "7"
    } else if d == 8 {
        "8"
    } else {
        "9"
    };
    assert(r@ =~= seq![digit_char(d as nat)]);
    r
}

/// Appends the decimal numeral of `n` to `out`.
pub fn put_decimal(out: &mut String, n: u64)
    ensures
        final(out)@ == old(out)@ + decimal_text(n as nat),
    decreases n,
{
    if n < 10 {
        out.append(digit(n));
    } else {
        let ghost before = out@;
        put_decimal(out, n / 10);
        out.append(digit(n % 10));
        assert(out@ =~= before + decimal_text(n as nat));
    }
}

/// What the grammar needed, in words.
pub open spec fn expected_text(e: Expected) -> Seq<char> {
    match e {
        Expected::Expression => "an expression"@,
        Expected::Name => "a name"@,
        Expected::ClosingParen => "a closing parenthesis"@,
        Expected::Select => "SELECT"@,
        Expected::From => "FROM"@,
        Expected::By => "BY"@,
        Expected::Null => "NULL"@,
        Expected::Number => "a number"@,
        Expected::End => "the end of the query"@,
        Expected::OpeningParen => "an opening parenthesis"@,
        Expected::And => "AND"@,
        Expected::When => "WHEN"@,
        Expected::Then => "THEN"@,
        Expected::EndOfCase => "END"@,
        Expected::As => "AS"@,
        Expected::Subquery => "a nested query"@,
        Expected::Join => "JOIN"@,
        Expected::On => "ON"@,
    }
}

/// What the grammar needed, in words.
pub fn expected_word(e: Expected) -> (r: &'static str)
    ensures
        r@ == expected_text(e),
{
    match e {
        Expected::Expression => "an expression",
        Expected::Name => "a name",
        Expected::ClosingParen => "a closing parenthesis",
        Expected::Select => "SELECT",
        Expected::From => "FROM",
        Expected::By => "BY",
        Expected::Null => "NULL",
        Expected::Number => "a number",
        Expected::End => "the end of the query",
        Expected::OpeningParen => "an opening parenthesis",
        Expected::And => "AND",
        Expected::When => "WHEN",
        Expected::Then => "THEN",
        Expected::EndOfCase => "END",
        Expected::As => "AS",
        Expected::Subquery => "a nested query",
        Expected::Join => "JOIN",
        Expected::On => "ON",
    }
}

/// The diagnostic of a syntax error: what was needed, and the line and the
/// column of the lexeme that stands there instead. Where the input ended
/// too early, the line and the column are those of its last lexeme.
pub open spec fn syntax_text(e: SyntaxError) -> Seq<char> {
    if e.ended && e.line == 0 {
        "syntax error: expected "@ + expected_text(e.expected) + " in an empty text"@
    } else {
        "syntax error: expected "@ + expected_text(e.expected) + (if e.ended {
            " after the lexeme at line "@
        } else {
            " at line "@
        }) + decimal_text(e.line as nat) + ", column "@ + decimal_text(e.column as nat)
    }
}

impl SyntaxError {
    /// The diagnostic.
    pub fn message(&self) -> (r: String)
        ensures
            r@ == syntax_text(*self),
    {
        let mut s = String::from_str("syntax error: expected ");
        s.append(expected_word(self.expected));
        if self.ended && self.line == 0 {
            s.append(" in an empty text");
        } else {
            if self.ended {
                s.append(" after the lexeme at line ");
            } else {
                s.append(" at line ");
            }
            put_decimal(&mut s, self.line);
            s.append(", column ");
            put_decimal(&mut s, self.column);
        }
        s
    }
}

/// The diagnostic of a text that is no sentence: the tokenizer's own words,
/// or those of the syntax error.
pub open spec fn parse_text(e: ParseErrorView) -> Seq<char> {
    match e {
        ParseErrorView::Lex(l) => l.message,
        ParseErrorView::Syntax(s) => syntax_text(s),
    }
}

impl ParseError {
    /// The diagnostic.
    pub fn message(&self) -> (r: String)
        ensures
            r@ == parse_text(self@),
    {
        match self {
            ParseError::Lex(l) => l.message.clone(),
            ParseError::Syntax(s) => s.message(),
        }
    }
}

/// `a`, `x`, `b`, `y` and `c` in a row.
pub(crate) fn framed(a: &str, x: &str, b: &str, y: &str, c: &str) -> (r: String)
    ensures
        r@ == a@ + x@ + b@ + y@ + c@,
{
    let mut s = String::from_str(a);
    s.append(x);
    s.append(b);
    s.append(y);
    s.append(c);
    s
}

/// `a`, `x` and `b` in a row.
pub(crate) fn quoted(a: &str, x: &str, b: &str) -> (r: String)
    ensures
        r@ == a@ + x@ + b@,
{
    let mut s = String::from_str(a);
    s.append(x);
    s.append(b);
    s
}

/// The diagnostic of a column path that does not resolve.
pub open spec fn reference_text(e: ReferenceErrorView) -> Seq<char> {
    match e {
        ReferenceErrorView::UnknownReference { entity, name } => "entity '"@ + entity
            + "' has no relationship or entity '"@ + name + "' to follow"@,
        ReferenceErrorView::UnknownColumn { entity, column } => "entity '"@ + entity
            + "' has no column '"@ + column + "'"@,
        ReferenceErrorView::Unrelated { entity, relationship } => "entity '"@ + entity
            + "' is no side of relationship '"@ + relationship + "'"@,
        ReferenceErrorView::NotConnected { from, to } => "no relationship path leads from '"@ + from
            + "' to '"@ + to + "'"@,
        ReferenceErrorView::AmbiguousPath { from, to } =>
            "more than one relationship path leads from '"@ + from + "' to '"@ + to + "'"@,
    }
}

impl ReferenceError {
    /// The diagnostic.
    pub fn message(&self) -> (r: String)
        ensures
            r@ == reference_text(self@),
    {
        match self {
            ReferenceError::UnknownReference { entity, name } => framed(
                "entity '",
                entity.as_str(),
                "' has no relationship or entity '",
                name.as_str(),
                "' to follow",
            ),
            ReferenceError::UnknownColumn { entity, column } => framed(
                "entity '",
                entity.as_str(),
                "' has no column '",
                column.as_str(),
                "'",
            ),
            ReferenceError::Unrelated { entity, relationship } => framed(
                "entity '",
                entity.as_str(),
                "' is no side of relationship '",
                relationship.as_str(),
                "'",
            ),
            ReferenceError::NotConnected { from, to } => framed(
                "no relationship path leads from '",
                from.as_str(),
                "' to '",
                to.as_str(),
                "'",
            ),
            ReferenceError::AmbiguousPath { from, to } => framed(
                "more than one relationship path leads from '",
                from.as_str(),
                "' to '",
                to.as_str(),
                "'",
            ),
        }
    }
}

/// The diagnostic of a reference that names nothing in the model.
pub open spec fn bind_text(e: BindErrorView) -> Seq<char> {
    match e {
        BindErrorView::UnknownEntity(n) => "unknown entity '"@ + n + "'"@,
        BindErrorView::UnknownFunction(n) => "unknown function '"@ + n + "'"@,
        BindErrorView::Reference(r) => reference_text(r),
    }
}

impl BindError {
    /// The diagnostic.
    pub fn message(&self) -> (r: String)
        ensures
            r@ == bind_text(self@),
    {
        match self {
            BindError::UnknownEntity(n) => quoted("unknown entity '", n.as_str(), "'"),
            BindError::UnknownFunction(n) => quoted("unknown function '", n.as_str(), "'"),
            BindError::Reference(r) => r.message(),
        }
    }
}

/// The diagnostic of a query that cannot be expanded.
pub open spec fn expand_text(e: ExpandErrorView) -> Seq<char> {
    match e {
        ExpandErrorView::Path(r) => reference_text(r),
        ExpandErrorView::FanOut { relationship } => "relationship '"@ + relationship
            + "' leads to many rows outside an aggregate"@,
        ExpandErrorView::MixedSummary =>
            "an aggregate mixes columns that are not reached through one relationship"@,
        ExpandErrorView::InvalidCondition { relationship } => "the condition of relationship '"@
            + relationship + "' is not over physical columns of its entities"@,
        ExpandErrorView::TooDeep => "derived columns nest too deep"@,
        ExpandErrorView::Unsupported => "the query uses a construct that cannot be rewritten"@,
    }
}

impl ExpandError {
    /// The diagnostic.
    pub fn message(&self) -> (r: String)
        ensures
            r@ == expand_text(self@),
    {
        match self {
            ExpandError::Path(r) => r.message(),
            ExpandError::FanOut { relationship } => quoted(
                "relationship '",
                relationship.as_str(),
                "' leads to many rows outside an aggregate",
            ),
            ExpandError::MixedSummary => String::from_str(
                "an aggregate mixes columns that are not reached through one relationship",
            ),
            ExpandError::InvalidCondition { relationship } => quoted(
                "the condition of relationship '",
                relationship.as_str(),
                "' is not over physical columns of its entities",
            ),
            ExpandError::TooDeep => String::from_str("derived columns nest too deep"),
            ExpandError::Unsupported => String::from_str(
                "the query uses a construct that cannot be rewritten",
            ),
        }
    }
}

/// The diagnostic of a query that could not be rewritten.
pub open spec fn rewrite_text(e: RewriteErrorView) -> Seq<char> {
    match e {
        RewriteErrorView::Bind(b) => bind_text(b),
        RewriteErrorView::Expand(x) => expand_text(x),
    }
}

impl RewriteError {
    /// The diagnostic.
    pub fn message(&self) -> (r: String)
        ensures
            r@ == rewrite_text(self@),
    {
        match self {
            RewriteError::Bind(b) => b.message(),
            RewriteError::Expand(x) => x.message(),
        }
    }
}

/// The name of a dialect, in lower case.
pub open spec fn dialect_text(d: Dialect) -> Seq<char> {
    match d {
        Dialect::BigQuery => "bigquery"@,
        Dialect::MySQL => "mysql"@,
        Dialect::Postgres => "postgres"@,
        Dialect::Snowflake => "snowflake"@,
        Dialect::MSSQL => "mssql"@,
        Dialect::Trino => "trino"@,
        Dialect::Clickhouse => "clickhouse"@,
        Dialect::Canner => "canner"@,
        Dialect::Datafusion => "datafusion"@,
        Dialect::DuckDB => "duckdb"@,
        Dialect::Oracle => "oracle"@,
    }
}

/// The name of a dialect, in lower case.
pub fn dialect_name(d: Dialect) -> (r: &'static str)
    ensures
        r@ == dialect_text(d),
{
    match d {
        Dialect::BigQuery => "bigquery",
        Dialect::MySQL => "mysql",
        Dialect::Postgres => "postgres",
        Dialect::Snowflake => "snowflake",
        Dialect::MSSQL => "mssql",
        Dialect::Trino => "trino",
        Dialect::Clickhouse => "clickhouse",
        Dialect::Canner => "canner",
        Dialect::Datafusion => "datafusion",
        Dialect::DuckDB => "duckdb",
        Dialect::Oracle => "oracle",
    }
}

/// The diagnostic of a construct that a dialect cannot express.
pub open spec fn render_text(e: RenderErrorView) -> Seq<char> {
    "dialect "@ + dialect_text(e.dialect) + " cannot express "@ + e.construct
}

impl RenderError {
    /// The diagnostic.
    pub fn message(&self) -> (r: String)
        ensures
            r@ == render_text(self@),
    {
        let mut s = String::from_str("dialect ");
        s.append(dialect_name(self.dialect));
        s.append(" cannot express ");
        s.append(self.construct.as_str());
        s
    }
}

/// The diagnostic of a dialect name that is not supported.
pub open spec fn unsupported_text(name: Seq<char>) -> Seq<char> {
    "Unsupported dialect: "@ + name
        + ". Supported dialects: bigquery, mysql, postgres, snowflake, mssql, trino, clickhouse, canner, datafusion, duckdb, oracle"@
}

/// The diagnostic of a failed transformation: the stage that failed, and
/// the diagnostic of its error.
pub open spec fn transform_text(e: TransformErrorView) -> Seq<char> {
    match e {
        TransformErrorView::Parse(p) => "parse error: "@ + parse_text(p),
        TransformErrorView::Bind(b) => "bind error: "@ + bind_text(b),
        TransformErrorView::Expand(x) => "expansion error: "@ + expand_text(x),
        TransformErrorView::Render(r) => "render error: "@ + render_text(r),
        TransformErrorView::UnsupportedDialect(n) => unsupported_text(n),
    }
}

/// `a` and `x` in a row.
pub(crate) fn headed(a: &str, x: String) -> (r: String)
    ensures
        r@ == a@ + x@,
{
    let mut s = String::from_str(a);
    s.append(x.as_str());
    s
}

impl TransformError {
    /// The diagnostic.
    pub fn message(&self) -> (r: String)
        ensures
            r@ == transform_text(self@),
    {
        match self {
            TransformError::Parse(p) => headed("parse error: ", p.message()),
            TransformError::Bind(b) => headed("bind error: ", b.message()),
            TransformError::Expand(x) => headed("expansion error: ", x.message()),
            TransformError::Render(r) => headed("render error: ", r.message()),
            TransformError::UnsupportedDialect(n) => quoted(
                "Unsupported dialect: ",
                n.as_str(),
                ". Supported dialects: bigquery, mysql, postgres, snowflake, mssql, trino, clickhouse, canner, datafusion, duckdb, oracle",
            ),
        }
    }
}

/// The columns of `c` from place `i` on, each as `entity.column` and each
/// followed by an arrow, after `acc`.
pub open spec fn chain_text(c: Seq<ColumnNameView>, i: int, acc: Seq<char>) -> Seq<char>
    decreases c.len() - i,
{
    if !(0 <= i < c.len()) {
        acc
    } else {
        chain_text(c, i + 1, acc + c[i].entity + "."@ + c[i].column + " -> "@)
    }
}

/// The diagnostic of a cycle: its columns in order, joined by arrows, and
/// the first once more.
pub open spec fn cycle_text(c: Seq<ColumnNameView>) -> Seq<char> {
    if c.len() == 0 {
        "derived columns depend on each other in a cycle"@
    } else {
        chain_text(c, 0, "derived columns depend on each other in a cycle: "@) + c[0].entity
            + "."@ + c[0].column
    }
}

/// The diagnostic of a cycle.
pub fn cycle_message(c: &Vec<ColumnName>) -> (r: String)
    ensures
        r@ == cycle_text(crate::analysis::column_name_views(c@)),
{
    let ghost cv = crate::analysis::column_name_views(c@);
    if c.len() == 0 {
        return String::from_str("derived columns depend on each other in a cycle");
    }
    let mut s = String::from_str("derived columns depend on each other in a cycle: ");
    let mut i: usize = 0;
    while i < c.len()
        invariant
            i <= c.len(),
            cv == crate::analysis::column_name_views(c@),
            chain_text(cv, 0, "derived columns depend on each other in a cycle: "@) == chain_text(
                cv,
                i as int,
                s@,
            ),
        decreases c.len() - i,
    {
        assert(cv[i as int] == c[i as int]@);
        s.append(c[i].entity.as_str());
        s.append(".");
        s.append(c[i].column.as_str());
        s.append(" -> ");
        i += 1;
    }
    assert(cv[0] == c[0]@);
    s.append(c[0].entity.as_str());
    s.append(".");
    s.append(c[0].column.as_str());
    s
}

/// The diagnostic of a manifest that cannot be analyzed.
pub open spec fn analysis_text(e: AnalysisErrorView) -> Seq<char> {
    match e {
        AnalysisErrorView::DuplicateName(n) => "the name '"@ + n + "' is declared twice"@,
        AnalysisErrorView::UnknownEntity { relationship, entity } => "relationship '"@
            + relationship + "' names the undeclared entity '"@ + entity + "'"@,
        AnalysisErrorView::InvalidRelationship(n) => "relationship '"@ + n
            + "' joins an entity to itself, or its condition is not over physical columns of its entities"@,
        AnalysisErrorView::InvalidExpression { owner, column, error } => if column.len() == 0 {
            "the condition of relationship '"@ + owner + "' is no expression: "@ + parse_text(
                error,
            )
        } else {
            "column '"@ + owner + "."@ + column + "' is no expression: "@ + parse_text(error)
        },
        AnalysisErrorView::Reference { entity, column, cause } => "column '"@ + entity + "."@
            + column + "': "@ + reference_text(cause),
        AnalysisErrorView::CyclicDependency(c) => cycle_text(c),
        AnalysisErrorView::UnsupportedDialect(n) => unsupported_text(n),
        AnalysisErrorView::UnknownTable { entity } => "the catalog has no table for entity '"@
            + entity + "'"@,
        AnalysisErrorView::UnknownPhysicalColumn { entity, column } => "the table of entity '"@
            + entity + "' has no column '"@ + column + "'"@,
    }
}

impl AnalysisError {
    /// The diagnostic.
    pub fn message(&self) -> (r: String)
        ensures
            r@ == analysis_text(self@),
    {
        match self {
            AnalysisError::DuplicateName(n) => quoted(
                "the name '",
                n.as_str(),
                "' is declared twice",
            ),
            AnalysisError::UnknownEntity { relationship, entity } => framed(
                "relationship '",
                relationship.as_str(),
                "' names the undeclared entity '",
                entity.as_str(),
                "'",
            ),
            AnalysisError::InvalidRelationship(n) => quoted(
                "relationship '",
                n.as_str(),
                "' joins an entity to itself, or its condition is not over physical columns of its entities",
            ),
            AnalysisError::InvalidExpression { owner, column, error } => {
                let mut s = if column.as_str().unicode_len() == 0 {
                    quoted("the condition of relationship '", owner.as_str(), "' is no expression: ")
                } else {
                    framed("column '", owner.as_str(), ".", column.as_str(), "' is no expression: ")
                };
                s.append(error.message().as_str());
                s
            },
            AnalysisError::Reference { entity, column, cause } => {
                let mut s = framed("column '", entity.as_str(), ".", column.as_str(), "': ");
                s.append(cause.message().as_str());
                s
            },
            AnalysisError::CyclicDependency(c) => cycle_message(c),
            AnalysisError::UnsupportedDialect(n) => quoted(
                "Unsupported dialect: ",
                n.as_str(),
                ". Supported dialects: bigquery, mysql, postgres, snowflake, mssql, trino, clickhouse, canner, datafusion, duckdb, oracle",
            ),
            AnalysisError::UnknownTable { entity } => quoted(
                "the catalog has no table for entity '",
                entity.as_str(),
                "'",
            ),
            AnalysisError::UnknownPhysicalColumn { entity, column } => framed(
                "the table of entity '",
                entity.as_str(),
                "' has no column '",
                column.as_str(),
                "'",
            ),
        }
    }
}

} // verus!
