//! The dialect renderer: a query block over physical tables becomes SQL
//! text for one dialect. Each dialect has its rule for quoting identifiers,
//! its names for the built-in functions, and its form of pagination.
//!
//! The specification functions take the text rendered so far and return it
//! with more text appended.

use vstd::prelude::*;
use vstd::string::*;

use crate::ast::{JoinKind, NaryOp, 
    expr_views, join_views, BinaryOp, Expr, ExprView, Join, JoinView, TableRef, TableRefView,
    TableSource, TableSourceView,
};
use crate::dialect::Dialect;
use crate::text::{folded_match, same_folded, texts};

verus! {

/// A construct that a dialect cannot express.
#[derive(Debug, PartialEq, Eq)]
pub struct RenderError {
    /// The function or construct that has no equivalent.
    pub construct: String,
    pub dialect: Dialect,
}

pub struct RenderErrorView {
    pub construct: Seq<char>,
    pub dialect: Dialect,
}

impl View for RenderError {
    type V = RenderErrorView;

    open spec fn view(&self) -> RenderErrorView {
        RenderErrorView { construct: self.construct@, dialect: self.dialect }
    }
}

/// The character that closes a quoted identifier.
pub open spec fn closing_char(d: Dialect) -> char {
    match d {
        Dialect::BigQuery | Dialect::MySQL => '`',
        Dialect::MSSQL => ']',
        _ => '"',
    }
}

/// The text that opens a quoted identifier.
pub open spec fn opening(d: Dialect) -> Seq<char> {
    match d {
        Dialect::BigQuery | Dialect::MySQL => "`"@,
        Dialect::MSSQL => "["@,
        _ => "\""@,
    }
}

/// The text that closes a quoted identifier.
pub open spec fn closing(d: Dialect) -> Seq<char> {
    match d {
        Dialect::BigQuery | Dialect::MySQL => "`"@,
        Dialect::MSSQL => "]"@,
        _ => "\""@,
    }
}

/// The text that stands for the closing character inside an identifier.
pub open spec fn escape(d: Dialect) -> Seq<char> {
    match d {
        Dialect::BigQuery => "\\`"@,
        Dialect::MySQL => "``"@,
        Dialect::MSSQL => "]]"@,
        _ => "\"\""@,
    }
}

/// `acc` followed by the characters of `name` from the `i`-th on, each
/// closing character replaced by its escape.
pub open spec fn escaped_from(d: Dialect, name: Seq<char>, i: int, acc: Seq<char>) -> Seq<char>
    decreases name.len() - i,
{
    if 0 <= i < name.len() {
        if name[i] == closing_char(d) {
            escaped_from(d, name, i + 1, acc + escape(d))
        } else {
            escaped_from(d, name, i + 1, acc + name.subrange(i, i + 1))
        }
    } else {
        acc
    }
}

/// `acc` followed by the identifier `name` in quotes.
pub open spec fn quoted(d: Dialect, name: Seq<char>, acc: Seq<char>) -> Seq<char> {
    escaped_from(d, name, 0, acc + opening(d)) + closing(d)
}

/// `acc` followed by the characters of `text` from the `i`-th on, each
/// single quote doubled.
pub open spec fn doubled_from(text: Seq<char>, i: int, acc: Seq<char>) -> Seq<char>
    decreases text.len() - i,
{
    if 0 <= i < text.len() {
        if text[i] == '\'' {
            doubled_from(text, i + 1, acc + "''"@)
        } else {
            doubled_from(text, i + 1, acc + text.subrange(i, i + 1))
        }
    } else {
        acc
    }
}

/// `acc` followed by the string literal with the content `text`.
pub open spec fn literal(text: Seq<char>, acc: Seq<char>) -> Seq<char> {
    doubled_from(text, 0, acc + "'"@) + "'"@
}

/// `acc` followed by the names of `path` from the `i`-th on, quoted and
/// separated by dots.
pub open spec fn dotted_from(d: Dialect, path: Seq<Seq<char>>, i: int, acc: Seq<char>) -> Seq<char>
    decreases path.len() - i,
{
    if 0 <= i < path.len() {
        let start = if i > 0 {
            acc + "."@
        } else {
            acc
        };
        dotted_from(d, path, i + 1, quoted(d, path[i], start))
    } else {
        acc
    }
}

/// How a dialect writes a built-in function.
#[derive(Clone, Copy, Debug, PartialEq, Eq, Structural)]
pub enum Form {
    /// A call under the given name.
    Named,
    /// The given keyword, without parentheses.
    Bare,
    /// The dialect has no equivalent.
    Missing,
    /// The function is not built in; it is written as the query names it.
    Foreign,
}

/// How the dialect `d` writes the function `name`.
pub open spec fn form_of(d: Dialect, name: Seq<char>) -> (Form, Seq<char>) {
    if same_folded(name, "count"@) {
        (Form::Named, "COUNT"@)
    } else if same_folded(name, "sum"@) {
        (Form::Named, "SUM"@)
    } else if same_folded(name, "avg"@) {
        (Form::Named, "AVG"@)
    } else if same_folded(name, "min"@) {
        (Form::Named, "MIN"@)
    } else if same_folded(name, "max"@) {
        (Form::Named, "MAX"@)
    } else if same_folded(name, "abs"@) {
        (Form::Named, "ABS"@)
    } else if same_folded(name, "round"@) {
        (Form::Named, "ROUND"@)
    } else if same_folded(name, "floor"@) {
        (Form::Named, "FLOOR"@)
    } else if same_folded(name, "ceil"@) {
        if d == Dialect::MSSQL {
            (Form::Named, "CEILING"@)
        } else {
            (Form::Named, "CEIL"@)
        }
    } else if same_folded(name, "lower"@) {
        (Form::Named, "LOWER"@)
    } else if same_folded(name, "upper"@) {
        (Form::Named, "UPPER"@)
    } else if same_folded(name, "length"@) {
        if d == Dialect::MSSQL {
            (Form::Named, "LEN"@)
        } else {
            (Form::Named, "LENGTH"@)
        }
    } else if same_folded(name, "trim"@) {
        (Form::Named, "TRIM"@)
    } else if same_folded(name, "concat"@) {
        (Form::Named, "CONCAT"@)
    } else if same_folded(name, "coalesce"@) {
        (Form::Named, "COALESCE"@)
    } else if same_folded(name, "nullif"@) {
        (Form::Named, "NULLIF"@)
    } else if same_folded(name, "substr"@) {
        if d == Dialect::MSSQL {
            (Form::Named, "SUBSTRING"@)
        } else {
            (Form::Named, "SUBSTR"@)
        }
    } else if same_folded(name, "now"@) {
        match d {
            Dialect::BigQuery | Dialect::Snowflake => (Form::Named, "CURRENT_TIMESTAMP"@),
            Dialect::MSSQL => (Form::Named, "SYSDATETIME"@),
            Dialect::Oracle => (Form::Bare, "SYSTIMESTAMP"@),
            _ => (Form::Named, "NOW"@),
        }
    } else if same_folded(name, "md5"@) {
        match d {
            Dialect::MSSQL | Dialect::Oracle => (Form::Missing, name),
            _ => (Form::Named, "MD5"@),
        }
    } else {
        (Form::Foreign, name)
    }
}

/// Whether the dialect writes the remainder as a function.
pub open spec fn modulo_is_function(d: Dialect) -> bool {
    d == Dialect::BigQuery || d == Dialect::Oracle
}

/// Whether the dialect writes the concatenation of strings as a function.
pub open spec fn concat_is_function(d: Dialect) -> bool {
    d == Dialect::MySQL || d == Dialect::MSSQL
}

/// Whether the dialect writes the operator as a function of two arguments.
pub open spec fn is_function(d: Dialect, op: BinaryOp) -> bool {
    (op == BinaryOp::Modulo && modulo_is_function(d)) || (op == BinaryOp::Concat
        && concat_is_function(d))
}

/// How the function that stands for an operator starts.
pub open spec fn function_start(op: BinaryOp) -> Seq<char> {
    if op == BinaryOp::Concat {
        "CONCAT("@
    } else {
        "MOD("@
    }
}

/// Whether the dialect has the literals `TRUE` and `FALSE`.
pub open spec fn has_booleans(d: Dialect) -> bool {
    d != Dialect::MSSQL && d != Dialect::Oracle
}

/// How a binary operator is spelled.
pub open spec fn symbol(op: BinaryOp) -> Seq<char> {
    match op {
        BinaryOp::Or => "OR"@,
        BinaryOp::And => "AND"@,
        BinaryOp::Eq => "="@,
        BinaryOp::NotEq => "<>"@,
        BinaryOp::Lt => "<"@,
        BinaryOp::LtEq => "<="@,
        BinaryOp::Gt => ">"@,
        BinaryOp::GtEq => ">="@,
        BinaryOp::Plus => "+"@,
        BinaryOp::Minus => "-"@,
        BinaryOp::Multiply => "*"@,
        BinaryOp::Divide => "/"@,
        BinaryOp::Modulo => "%"@,
        BinaryOp::Like => "LIKE"@,
        BinaryOp::Concat => "||"@,
    }
}

/// The error of a construct that the dialect cannot express.
pub open spec fn cannot(d: Dialect, construct: Seq<char>) -> RenderErrorView {
    RenderErrorView { construct, dialect: d }
}

/// `acc` followed by a table reference: the quoted name or the subquery in
/// parentheses, then the alias.
pub open spec fn rendered_table(d: Dialect, subs: Seq<Seq<char>>, t: TableRefView, acc: Seq<char>) -> Seq<char> {
    let named = match t.source {
        TableSourceView::Named(p) => dotted_from(d, p, 0, acc),
        TableSourceView::Raw(text) => acc + "("@ + text + ")"@,
        TableSourceView::Block(k) => if k < subs.len() {
            acc + "("@ + subs[k as int] + ")"@
        } else {
            acc + "()"@
        },
    };
    match t.alias {
        Some(a) => if d == Dialect::Oracle {
            quoted(d, a, named + " "@)
        } else {
            quoted(d, a, named + " AS "@)
        },
        None => named,
    }
}

/// `acc` followed by the expression `e` in the dialect `d`.
pub open spec fn rendered_expr(d: Dialect, subs: Seq<Seq<char>>, e: ExprView, acc: Seq<char>) -> Result<
    Seq<char>,
    RenderErrorView,
>
    decreases e, 0int,
{
    match e {
        ExprView::Null => Ok(acc + "NULL"@),
        ExprView::Bool(b) => if !has_booleans(d) {
            Err(cannot(d, "boolean literal"@))
        } else if b {
            Ok(acc + "TRUE"@)
        } else {
            Ok(acc + "FALSE"@)
        },
        ExprView::Number(t) => Ok(acc + t),
        ExprView::Text(t) => Ok(literal(t, acc)),
        ExprView::Wildcard => Ok(acc + "*"@),
        ExprView::Column(p) => Ok(dotted_from(d, p, 0, acc)),
        ExprView::Not(a) => match rendered_expr(d, subs, *a, acc + "NOT ("@) {
            Ok(t) => Ok(t + ")"@),
            Err(x) => Err(x),
        },
        ExprView::Negate(a) => match rendered_expr(d, subs, *a, acc + "-("@) {
            Ok(t) => Ok(t + ")"@),
            Err(x) => Err(x),
        },
        ExprView::IsNull(a, negated) => match rendered_expr(d, subs, *a, acc + "("@) {
            Ok(t) => if negated {
                Ok(t + ") IS NOT NULL"@)
            } else {
                Ok(t + ") IS NULL"@)
            },
            Err(x) => Err(x),
        },
        ExprView::Binary(op, a, b) => if is_function(d, op) {
            match rendered_expr(d, subs, *a, acc + function_start(op)) {
                Ok(t) => match rendered_expr(d, subs, *b, t + ", "@) {
                    Ok(u) => Ok(u + ")"@),
                    Err(x) => Err(x),
                },
                Err(x) => Err(x),
            }
        } else {
            match rendered_expr(d, subs, *a, acc + "("@) {
                Ok(t) => match rendered_expr(d, subs, *b, t + " "@ + symbol(op) + " "@) {
                    Ok(u) => Ok(u + ")"@),
                    Err(x) => Err(x),
                },
                Err(x) => Err(x),
            }
        },
        ExprView::Call(name, distinct, args) => {
            let (form, text) = form_of(d, name);
            if form == Form::Missing {
                Err(cannot(d, name))
            } else if form == Form::Bare {
                if args.len() == 0 && !distinct {
                    Ok(acc + text)
                } else {
                    Err(cannot(d, name))
                }
            } else {
                let start = if distinct {
                    acc + text + "(DISTINCT "@
                } else {
                    acc + text + "("@
                };
                match rendered_list(d, subs, 0, args, 0, start) {
                    Ok(t) => Ok(t + ")"@),
                    Err(x) => Err(x),
                }
            }
        },
        ExprView::Nary(op, args) => rendered_nary(d, subs, op, args, acc),
        ExprView::Cast(a, t) => match rendered_expr(d, subs, *a, acc + "CAST("@) {
            Ok(u) => Ok(u + " AS "@ + t + ")"@),
            Err(x) => Err(x),
        },
        ExprView::Subquery(k) => if k < subs.len() {
            Ok(acc + "("@ + subs[k as int] + ")"@)
        } else {
            Err(cannot(d, "subquery"@))
        },
        ExprView::Summary { call, table, joins, on } => match rendered_expr(d, subs,
            *call,
            acc + "(SELECT "@,
        ) {
            Err(x) => Err(x),
            Ok(t) => match rendered_joins(d, subs, joins, 0, rendered_table(d, subs, table, t + " FROM "@)) {
                Err(x) => Err(x),
                Ok(u) => match rendered_expr(d, subs, *on, u + " WHERE "@) {
                    Ok(v) => Ok(v + ")"@),
                    Err(x) => Err(x),
                },
            },
        },
    }
}

/// `acc` followed by the expressions of `list` from the `i`-th on,
/// separated by commas; `first` is the place of the first one that is
/// rendered.
pub open spec fn rendered_list(
    d: Dialect,
    subs: Seq<Seq<char>>,
    first: int,
    list: Seq<ExprView>,
    i: int,
    acc: Seq<char>,
) -> Result<Seq<char>, RenderErrorView>
    decreases list, list.len() - i,
{
    if 0 <= i < list.len() {
        let start = if i > first {
            acc + ", "@
        } else {
            acc
        };
        match rendered_expr(d, subs, list[i], start) {
            Ok(t) => rendered_list(d, subs, first, list, i + 1, t),
            Err(x) => Err(x),
        }
    } else {
        Ok(acc)
    }
}

/// `acc` followed by the pairs of `WHEN` and `THEN` of a `CASE` from the
/// `i`-th operand on, the `ELSE` where one operand is left, and `END`.
pub open spec fn rendered_case(
    d: Dialect,
    subs: Seq<Seq<char>>,
    list: Seq<ExprView>,
    i: int,
    acc: Seq<char>,
) -> Result<Seq<char>, RenderErrorView>
    decreases list, list.len() - i,
{
    if 0 <= i && i + 1 < list.len() {
        match rendered_expr(d, subs, list[i], acc + " WHEN "@) {
            Ok(t) => match rendered_expr(d, subs, list[i + 1], t + " THEN "@) {
                Ok(u) => rendered_case(d, subs, list, i + 2, u),
                Err(x) => Err(x),
            },
            Err(x) => Err(x),
        }
    } else if 0 <= i < list.len() {
        match rendered_expr(d, subs, list[i], acc + " ELSE "@) {
            Ok(t) => Ok(t + " END"@),
            Err(x) => Err(x),
        }
    } else {
        Ok(acc + " END"@)
    }
}

/// `acc` followed by an operator with its operands. An operator with the
/// wrong number of operands is refused.
pub open spec fn rendered_nary(
    d: Dialect,
    subs: Seq<Seq<char>>,
    op: NaryOp,
    args: Seq<ExprView>,
    acc: Seq<char>,
) -> Result<Seq<char>, RenderErrorView>
    decreases args, args.len() + 1,
{
    match op {
        NaryOp::In | NaryOp::NotIn => if args.len() < 2 {
            Err(cannot(d, "malformed IN"@))
        } else {
            let word = if op == NaryOp::In {
                " IN "@
            } else {
                " NOT IN "@
            };
            match rendered_expr(d, subs, args[0], acc + "("@) {
                Err(x) => Err(x),
                Ok(t) => if args.len() == 2 && args[1] is Subquery {
                    match rendered_expr(d, subs, args[1], t + word) {
                        Ok(u) => Ok(u + ")"@),
                        Err(x) => Err(x),
                    }
                } else {
                    match rendered_list(d, subs, 1, args, 1, t + word + "("@) {
                        Ok(u) => Ok(u + "))"@),
                        Err(x) => Err(x),
                    }
                },
            }
        },
        NaryOp::Between | NaryOp::NotBetween => if args.len() != 3 {
            Err(cannot(d, "malformed BETWEEN"@))
        } else {
            let word = if op == NaryOp::Between {
                " BETWEEN "@
            } else {
                " NOT BETWEEN "@
            };
            match rendered_expr(d, subs, args[0], acc + "("@) {
                Err(x) => Err(x),
                Ok(t) => match rendered_expr(d, subs, args[1], t + word) {
                    Err(x) => Err(x),
                    Ok(u) => match rendered_expr(d, subs, args[2], u + " AND "@) {
                        Err(x) => Err(x),
                        Ok(v) => Ok(v + ")"@),
                    },
                },
            }
        },
        NaryOp::Case => if args.len() < 2 {
            Err(cannot(d, "malformed CASE"@))
        } else {
            rendered_case(d, subs, args, 0, acc + "CASE"@)
        },
        NaryOp::CaseOf => if args.len() < 3 {
            Err(cannot(d, "malformed CASE"@))
        } else {
            match rendered_expr(d, subs, args[0], acc + "CASE "@) {
                Err(x) => Err(x),
                Ok(t) => rendered_case(d, subs, args, 1, t),
            }
        },
        NaryOp::Exists => if args.len() != 1 {
            Err(cannot(d, "malformed EXISTS"@))
        } else {
            rendered_expr(d, subs, args[0], acc + "EXISTS "@)
        },
    }
}

/// How a join of the given kind is introduced.
pub open spec fn join_word(kind: JoinKind) -> Seq<char> {
    match kind {
        JoinKind::Inner => " INNER JOIN "@,
        JoinKind::Left => " LEFT JOIN "@,
        JoinKind::Right => " RIGHT JOIN "@,
        JoinKind::Full => " FULL JOIN "@,
        JoinKind::Cross => " CROSS JOIN "@,
    }
}

/// `acc` followed by the joins of `joins` from the `i`-th on.
pub open spec fn rendered_joins(d: Dialect, subs: Seq<Seq<char>>, joins: Seq<JoinView>, i: int, acc: Seq<char>) -> Result<
    Seq<char>,
    RenderErrorView,
>
    decreases joins, joins.len() - i,
{
    if 0 <= i < joins.len() {
        let table = rendered_table(d, subs, joins[i].table, acc + join_word(joins[i].kind));
        if joins[i].kind == JoinKind::Cross {
            rendered_joins(d, subs, joins, i + 1, table)
        } else {
            match rendered_expr(d, subs, joins[i].on, table + " ON "@) {
                Ok(t) => rendered_joins(d, subs, joins, i + 1, t),
                Err(x) => Err(x),
            }
        }
    } else {
        Ok(acc)
    }
}

/// Appends `s` to `out`.
pub(crate) fn put(out: &mut String, s: &str)
    ensures
        final(out)@ == old(out)@ + s@,
{
    out.append(s);
}

/// The character that closes a quoted identifier.
pub(crate) fn closing_quote(d: Dialect) -> (r: char)
    ensures
        r == closing_char(d),
{
    match d {
        Dialect::BigQuery | Dialect::MySQL => '`',
        Dialect::MSSQL => ']',
        _ => '"',
    }
}

/// Appends the opening of a quoted identifier.
pub(crate) fn put_opening(d: Dialect, out: &mut String)
    ensures
        final(out)@ == old(out)@ + opening(d),
{
    match d {
        Dialect::BigQuery | Dialect::MySQL => put(out, "`"),
        Dialect::MSSQL => put(out, "["),
        _ => put(out, "\""),
    }
}

/// Appends the closing of a quoted identifier.
pub(crate) fn put_closing(d: Dialect, out: &mut String)
    ensures
        final(out)@ == old(out)@ + closing(d),
{
    match d {
        Dialect::BigQuery | Dialect::MySQL => put(out, "`"),
        Dialect::MSSQL => put(out, "]"),
        _ => put(out, "\""),
    }
}

/// Appends the escape of the closing character.
pub(crate) fn put_escape(d: Dialect, out: &mut String)
    ensures
        final(out)@ == old(out)@ + escape(d),
{
    match d {
        Dialect::BigQuery => put(out, "\\`"),
        Dialect::MySQL => put(out, "``"),
        Dialect::MSSQL => put(out, "]]"),
        _ => put(out, "\"\""),
    }
}

/// Appends the identifier `name` in quotes.
pub(crate) fn put_quoted(d: Dialect, out: &mut String, name: &str)
    ensures
        final(out)@ == quoted(d, name@, old(out)@),
{
    let ghost start = out@;
    put_opening(d, out);
    let n = name.unicode_len();
    let close = closing_quote(d);
    let mut i: usize = 0;
    while i < n
        invariant
            i <= n,
            n == name@.len(),
            close == closing_char(d),
            escaped_from(d, name@, 0, start + opening(d)) == escaped_from(d, name@, i as int, out@),
        decreases n - i,
    {
        if name.get_char(i) == close {
            put_escape(d, out);
        } else {
            put(out, name.substring_char(i, i + 1));
        }
        i += 1;
    }
    put_closing(d, out);
}

/// Appends the string literal with the content `text`.
pub(crate) fn put_literal(out: &mut String, text: &str)
    ensures
        final(out)@ == literal(text@, old(out)@),
{
    let ghost start = out@;
    put(out, "'");
    let n = text.unicode_len();
    let mut i: usize = 0;
    while i < n
        invariant
            i <= n,
            n == text@.len(),
            doubled_from(text@, 0, start + "'"@) == doubled_from(text@, i as int, out@),
        decreases n - i,
    {
        if text.get_char(i) == '\'' {
            put(out, "''");
        } else {
            put(out, text.substring_char(i, i + 1));
        }
        i += 1;
    }
    put(out, "'");
}

/// Appends the names of `path`, quoted and separated by dots.
pub(crate) fn put_dotted(d: Dialect, out: &mut String, path: &Vec<String>)
    ensures
        final(out)@ == dotted_from(d, texts(path@), 0, old(out)@),
{
    let ghost start = out@;
    let mut i: usize = 0;
    while i < path.len()
        invariant
            i <= path.len(),
            dotted_from(d, texts(path@), 0, start) == dotted_from(d, texts(path@), i as int, out@),
        decreases path.len() - i,
    {
        if i > 0 {
            put(out, ".");
        }
        assert(texts(path@)[i as int] == path@[i as int]@);
        put_quoted(d, out, path[i].as_str());
        i += 1;
    }
}

/// Appends a table reference.
pub(crate) fn put_table(d: Dialect, subs: &Vec<String>, out: &mut String, t: &TableRef)
    ensures
        final(out)@ == rendered_table(d, texts(subs@), t@, old(out)@),
{
    match &t.source {
        TableSource::Named(p) => put_dotted(d, out, p),
        TableSource::Raw(text) => {
            put(out, "(");
            put(out, text.as_str());
            put(out, ")");
        },
        TableSource::Block(k) => {
            if *k < subs.len() {
                assert(texts(subs@)[*k as int] == subs@[*k as int]@);
                put(out, "(");
                put(out, subs[*k].as_str());
                put(out, ")");
            } else {
                put(out, "()");
            }
        },
    }
    match &t.alias {
        Some(a) => {
            if d == Dialect::Oracle {
                put(out, " ");
            } else {
                put(out, " AS ");
            }
            put_quoted(d, out, a.as_str());
        },
        None => {},
    }
}

/// How the dialect `d` writes the function `name`.
pub(crate) fn function_form<'a>(d: Dialect, name: &'a str) -> (r: (Form, &'a str))
    ensures
        (r.0, r.1@) == form_of(d, name@),
{
    if folded_match(name, "count") {
        (Form::Named, "COUNT")
    } else if folded_match(name, "sum") {
        (Form::Named, "SUM")
    } else if folded_match(name, "avg") {
        (Form::Named, "AVG")
    } else if folded_match(name, "min") {
        (Form::Named, "MIN")
    } else if folded_match(name, "max") {
        (Form::Named, "MAX")
    } else if folded_match(name, "abs") {
        (Form::Named, "ABS")
    } else if folded_match(name, "round") {
        (Form::Named, "ROUND")
    } else if folded_match(name, "floor") {
        (Form::Named, "FLOOR")
    } else if folded_match(name, "ceil") {
        if d == Dialect::MSSQL {
            (Form::Named, "CEILING")
        } else {
            (Form::Named, "CEIL")
        }
    } else if folded_match(name, "lower") {
        (Form::Named, "LOWER")
    } else if folded_match(name, "upper") {
        (Form::Named, "UPPER")
    } else if folded_match(name, "length") {
        if d == Dialect::MSSQL {
            (Form::Named, "LEN")
        } else {
            (Form::Named, "LENGTH")
        }
    } else if folded_match(name, "trim") {
        (Form::Named, "TRIM")
    } else if folded_match(name, "concat") {
        (Form::Named, "CONCAT")
    } else if folded_match(name, "coalesce") {
        (Form::Named, "COALESCE")
    } else if folded_match(name, "nullif") {
        (Form::Named, "NULLIF")
    } else if folded_match(name, "substr") {
        if d == Dialect::MSSQL {
            (Form::Named, "SUBSTRING")
        } else {
            (Form::Named, "SUBSTR")
        }
    } else if folded_match(name, "now") {
        match d {
            Dialect::BigQuery | Dialect::Snowflake => (Form::Named, "CURRENT_TIMESTAMP"),
            Dialect::MSSQL => (Form::Named, "SYSDATETIME"),
            Dialect::Oracle => (Form::Bare, "SYSTIMESTAMP"),
            _ => (Form::Named, "NOW"),
        }
    } else if folded_match(name, "md5") {
        match d {
            Dialect::MSSQL | Dialect::Oracle => (Form::Missing, name),
            _ => (Form::Named, "MD5"),
        }
    } else {
        (Form::Foreign, name)
    }
}

/// Appends the spelling of a binary operator.
pub(crate) fn put_symbol(out: &mut String, op: BinaryOp)
    ensures
        final(out)@ == old(out)@ + symbol(op),
{
    match op {
        BinaryOp::Or => put(out, "OR"),
        BinaryOp::And => put(out, "AND"),
        BinaryOp::Eq => put(out, "="),
        BinaryOp::NotEq => put(out, "<>"),
        BinaryOp::Lt => put(out, "<"),
        BinaryOp::LtEq => put(out, "<="),
        BinaryOp::Gt => put(out, ">"),
        BinaryOp::GtEq => put(out, ">="),
        BinaryOp::Plus => put(out, "+"),
        BinaryOp::Minus => put(out, "-"),
        BinaryOp::Multiply => put(out, "*"),
        BinaryOp::Divide => put(out, "/"),
        BinaryOp::Modulo => put(out, "%"),
        BinaryOp::Like => put(out, "LIKE"),
        BinaryOp::Concat => put(out, "||"),
    }
}

/// The error of a construct that the dialect cannot express.
pub(crate) fn unsupported(d: Dialect, construct: &str) -> (r: RenderError)
    ensures
        r@ == cannot(d, construct@),
{
    RenderError { construct: String::from_str(construct), dialect: d }
}

/// Appends the expression `e` in the dialect `d`.
pub fn render_expr(d: Dialect, subs: &Vec<String>, out: &mut String, e: &Expr) -> (r: Result<(), RenderError>)
    ensures
        match r {
            Ok(_) => rendered_expr(d, texts(subs@), e@, old(out)@) == Ok::<Seq<char>, RenderErrorView>(
                final(out)@,
            ),
            Err(x) => rendered_expr(d, texts(subs@), e@, old(out)@) == Err::<Seq<char>, RenderErrorView>(x@),
        },
    decreases e, 1int,
{
    match e {
        Expr::Null => {
            put(out, "NULL");
            Ok(())
        },
        Expr::Bool(b) => {
            if d == Dialect::MSSQL || d == Dialect::Oracle {
                return Err(unsupported(d, "boolean literal"));
            }
            if *b {
                put(out, "TRUE");
            } else {
                put(out, "FALSE");
            }
            Ok(())
        },
        Expr::Number(t) => {
            put(out, t.as_str());
            Ok(())
        },
        Expr::Text(t) => {
            put_literal(out, t.as_str());
            Ok(())
        },
        Expr::Wildcard => {
            put(out, "*");
            Ok(())
        },
        Expr::Column(p) => {
            put_dotted(d, out, p);
            Ok(())
        },
        Expr::Not(a) => {
            put(out, "NOT (");
            match render_expr(d, subs, out, a) {
                Ok(_) => {
                    put(out, ")");
                    Ok(())
                },
                Err(x) => Err(x),
            }
        },
        Expr::Negate(a) => {
            put(out, "-(");
            match render_expr(d, subs, out, a) {
                Ok(_) => {
                    put(out, ")");
                    Ok(())
                },
                Err(x) => Err(x),
            }
        },
        Expr::IsNull(a, negated) => {
            put(out, "(");
            match render_expr(d, subs, out, a) {
                Ok(_) => {
                    if *negated {
                        put(out, ") IS NOT NULL");
                    } else {
                        put(out, ") IS NULL");
                    }
                    Ok(())
                },
                Err(x) => Err(x),
            }
        },
        Expr::Binary(op, a, b) => {
            let as_function = (*op == BinaryOp::Modulo && (d == Dialect::BigQuery || d
                == Dialect::Oracle)) || (*op == BinaryOp::Concat && (d == Dialect::MySQL || d
                == Dialect::MSSQL));
            if as_function {
                if *op == BinaryOp::Concat {
                    put(out, "CONCAT(");
                } else {
                    put(out, "MOD(");
                }
            } else {
                put(out, "(");
            }
            match render_expr(d, subs, out, a) {
                Err(x) => Err(x),
                Ok(_) => {
                    if as_function {
                        put(out, ", ");
                    } else {
                        put(out, " ");
                        put_symbol(out, *op);
                        put(out, " ");
                    }
                    match render_expr(d, subs, out, b) {
                        Err(x) => Err(x),
                        Ok(_) => {
                            put(out, ")");
                            Ok(())
                        },
                    }
                },
            }
        },
        Expr::Call(_, _, _) => render_call(d, subs, out, e),
        Expr::Nary(_, _) => render_nary(d, subs, out, e),
        Expr::Cast(a, t) => {
            put(out, "CAST(");
            match render_expr(d, subs, out, a) {
                Ok(_) => {
                    put(out, " AS ");
                    put(out, t.as_str());
                    put(out, ")");
                    Ok(())
                },
                Err(x) => Err(x),
            }
        },
        Expr::Subquery(k) => {
            if *k < subs.len() {
                assert(texts(subs@)[*k as int] == subs@[*k as int]@);
                put(out, "(");
                put(out, subs[*k].as_str());
                put(out, ")");
                Ok(())
            } else {
                Err(unsupported(d, "subquery"))
            }
        },
        Expr::Summary { .. } => render_summary(d, subs, out, e),
    }
}

/// Appends a call.
pub(crate) fn render_call(d: Dialect, subs: &Vec<String>, out: &mut String, e: &Expr) -> (r: Result<(), RenderError>)
    requires
        e is Call,
    ensures
        match r {
            Ok(_) => rendered_expr(d, texts(subs@), e@, old(out)@) == Ok::<Seq<char>, RenderErrorView>(
                final(out)@,
            ),
            Err(x) => rendered_expr(d, texts(subs@), e@, old(out)@) == Err::<Seq<char>, RenderErrorView>(x@),
        },
    decreases e, 0int,
{
    match e {
        Expr::Call(name, distinct, args) => {
            assert(decreases_to!(*e => (*e)->Call_2));
            let (form, text) = function_form(d, name.as_str());
            if form == Form::Missing {
                return Err(unsupported(d, name.as_str()));
            }
            if form == Form::Bare {
                assert(expr_views(args@).len() == args.len());
                if args.len() == 0 && !*distinct {
                    put(out, text);
                    return Ok(());
                } else {
                    return Err(unsupported(d, name.as_str()));
                }
            }
            put(out, text);
            if *distinct {
                put(out, "(DISTINCT ");
            } else {
                put(out, "(");
            }
            match render_list(d, subs, 0, out, args) {
                Ok(_) => {
                    put(out, ")");
                    Ok(())
                },
                Err(x) => Err(x),
            }
        },
        _ => Ok(()),
    }
}

/// Appends a scalar subquery that computes one aggregate.
pub(crate) fn render_summary(d: Dialect, subs: &Vec<String>, out: &mut String, e: &Expr) -> (r: Result<(), RenderError>)
    requires
        e is Summary,
    ensures
        match r {
            Ok(_) => rendered_expr(d, texts(subs@), e@, old(out)@) == Ok::<Seq<char>, RenderErrorView>(
                final(out)@,
            ),
            Err(x) => rendered_expr(d, texts(subs@), e@, old(out)@) == Err::<Seq<char>, RenderErrorView>(x@),
        },
    decreases e, 0int,
{
    match e {
        Expr::Summary { call, table, joins, on } => {
            assert(decreases_to!(*e => (*e)->joins));
            put(out, "(SELECT ");
            match render_expr(d, subs, out, call) {
                Err(x) => Err(x),
                Ok(_) => {
                    put(out, " FROM ");
                    put_table(d, subs, out, table);
                    match render_joins(d, subs, out, joins) {
                        Err(x) => Err(x),
                        Ok(_) => {
                            put(out, " WHERE ");
                            match render_expr(d, subs, out, on) {
                                Err(x) => Err(x),
                                Ok(_) => {
                                    put(out, ")");
                                    Ok(())
                                },
                            }
                        },
                    }
                },
            }
        },
        _ => Ok(()),
    }
}

/// Appends the expressions of `list` from the place `first` on, separated
/// by commas.
pub(crate) fn render_list(
    d: Dialect,
    subs: &Vec<String>,
    first: usize,
    out: &mut String,
    list: &Vec<Expr>,
) -> (r: Result<(), RenderError>)
    ensures
        match r {
            Ok(_) => rendered_list(
                d,
                texts(subs@),
                first as int,
                expr_views(list@),
                first as int,
                old(out)@,
            ) == Ok::<Seq<char>, RenderErrorView>(final(out)@),
            Err(x) => rendered_list(
                d,
                texts(subs@),
                first as int,
                expr_views(list@),
                first as int,
                old(out)@,
            ) == Err::<Seq<char>, RenderErrorView>(x@),
        },
    decreases list, 2int,
{
    let ghost v = expr_views(list@);
    let ghost start = out@;
    let mut i: usize = first;
    while i < list.len()
        invariant
            first <= i,
            v == expr_views(list@),
            start == old(out)@,
            rendered_list(d, texts(subs@), first as int, v, first as int, start) == rendered_list(
                d,
                texts(subs@),
                first as int,
                v,
                i as int,
                out@,
            ),
        decreases list.len() - i,
    {
        if i > first {
            put(out, ", ");
        }
        assert(decreases_to!(*list => list@) && decreases_to!(list@ => list@[i as int]));
        match render_expr(d, subs, out, &list[i]) {
            Ok(_) => {},
            Err(x) => {
                return Err(x);
            },
        }
        i += 1;
    }
    Ok(())
}

/// Appends the pairs of `WHEN` and `THEN` of a `CASE` from the `first`
/// operand on, the `ELSE` where one operand is left, and `END`.
pub(crate) fn render_case(
    d: Dialect,
    subs: &Vec<String>,
    first: usize,
    out: &mut String,
    list: &Vec<Expr>,
) -> (r: Result<(), RenderError>)
    ensures
        match r {
            Ok(_) => rendered_case(d, texts(subs@), expr_views(list@), first as int, old(out)@)
                == Ok::<Seq<char>, RenderErrorView>(final(out)@),
            Err(x) => rendered_case(d, texts(subs@), expr_views(list@), first as int, old(out)@)
                == Err::<Seq<char>, RenderErrorView>(x@),
        },
    decreases list, 2int,
{
    let ghost v = expr_views(list@);
    let ghost start = out@;
    let mut i: usize = first;
    while i < list.len() && i + 1 < list.len()
        invariant
            first <= i,
            v == expr_views(list@),
            start == old(out)@,
            rendered_case(d, texts(subs@), v, first as int, start) == rendered_case(
                d,
                texts(subs@),
                v,
                i as int,
                out@,
            ),
        decreases list.len() - i,
    {
        assert(decreases_to!(*list => list@) && decreases_to!(list@ => list@[i as int])
            && decreases_to!(list@ => list@[i + 1]));
        put(out, " WHEN ");
        match render_expr(d, subs, out, &list[i]) {
            Ok(_) => {},
            Err(x) => {
                return Err(x);
            },
        }
        put(out, " THEN ");
        match render_expr(d, subs, out, &list[i + 1]) {
            Ok(_) => {},
            Err(x) => {
                return Err(x);
            },
        }
        i += 2;
    }
    if i < list.len() {
        assert(decreases_to!(*list => list@) && decreases_to!(list@ => list@[i as int]));
        put(out, " ELSE ");
        match render_expr(d, subs, out, &list[i]) {
            Ok(_) => {},
            Err(x) => {
                return Err(x);
            },
        }
    }
    put(out, " END");
    Ok(())
}

/// Appends an operator with its operands.
pub(crate) fn render_nary(d: Dialect, subs: &Vec<String>, out: &mut String, e: &Expr) -> (r: Result<
    (),
    RenderError,
>)
    requires
        e is Nary,
    ensures
        match r {
            Ok(_) => rendered_expr(d, texts(subs@), e@, old(out)@) == Ok::<
                Seq<char>,
                RenderErrorView,
            >(final(out)@),
            Err(x) => rendered_expr(d, texts(subs@), e@, old(out)@) == Err::<
                Seq<char>,
                RenderErrorView,
            >(x@),
        },
    decreases e, 0int,
{
    match e {
        Expr::Nary(op, args) => {
            assert(decreases_to!(*e => (*e)->Nary_1) && decreases_to!(*args => args@));
            let ghost v = expr_views(args@);
            assert(v.len() == args.len());
            assert(e@ == ExprView::Nary(*op, v));
            assert(rendered_expr(d, texts(subs@), e@, out@) == rendered_nary(
                d,
                texts(subs@),
                *op,
                v,
                out@,
            ));
            assert(forall|i: int| 0 <= i < v.len() ==> v[i] == args@[i]@);
            match op {
                NaryOp::In | NaryOp::NotIn => {
                    if args.len() < 2 {
                        return Err(unsupported(d, "malformed IN"));
                    }
                    assert(decreases_to!(args@ => args@[0]) && decreases_to!(args@ => args@[1]));
                    assert(v[1] == args@[1]@);
                    put(out, "(");
                    match render_expr(d, subs, out, &args[0]) {
                        Ok(_) => {},
                        Err(x) => {
                            return Err(x);
                        },
                    }
                    match op {
                        NaryOp::In => put(out, " IN "),
                        _ => put(out, " NOT IN "),
                    }
                    let single = args.len() == 2 && match &args[1] {
                        Expr::Subquery(_) => true,
                        _ => false,
                    };
                    if single {
                        match render_expr(d, subs, out, &args[1]) {
                            Ok(_) => {
                                put(out, ")");
                                Ok(())
                            },
                            Err(x) => Err(x),
                        }
                    } else {
                        put(out, "(");
                        match render_list(d, subs, 1, out, args) {
                            Ok(_) => {
                                put(out, "))");
                                Ok(())
                            },
                            Err(x) => Err(x),
                        }
                    }
                },
                NaryOp::Between | NaryOp::NotBetween => {
                    if args.len() != 3 {
                        return Err(unsupported(d, "malformed BETWEEN"));
                    }
                    assert(decreases_to!(args@ => args@[0]) && decreases_to!(args@ => args@[1])
                        && decreases_to!(args@ => args@[2]));
                    put(out, "(");
                    match render_expr(d, subs, out, &args[0]) {
                        Ok(_) => {},
                        Err(x) => {
                            return Err(x);
                        },
                    }
                    match op {
                        NaryOp::Between => put(out, " BETWEEN "),
                        _ => put(out, " NOT BETWEEN "),
                    }
                    match render_expr(d, subs, out, &args[1]) {
                        Ok(_) => {},
                        Err(x) => {
                            return Err(x);
                        },
                    }
                    put(out, " AND ");
                    match render_expr(d, subs, out, &args[2]) {
                        Ok(_) => {
                            put(out, ")");
                            Ok(())
                        },
                        Err(x) => Err(x),
                    }
                },
                NaryOp::Case => {
                    if args.len() < 2 {
                        return Err(unsupported(d, "malformed CASE"));
                    }
                    put(out, "CASE");
                    render_case(d, subs, 0, out, args)
                },
                NaryOp::CaseOf => {
                    if args.len() < 3 {
                        return Err(unsupported(d, "malformed CASE"));
                    }
                    assert(decreases_to!(args@ => args@[0]));
                    put(out, "CASE ");
                    match render_expr(d, subs, out, &args[0]) {
                        Ok(_) => render_case(d, subs, 1, out, args),
                        Err(x) => Err(x),
                    }
                },
                NaryOp::Exists => {
                    if args.len() != 1 {
                        return Err(unsupported(d, "malformed EXISTS"));
                    }
                    assert(decreases_to!(args@ => args@[0]));
                    put(out, "EXISTS ");
                    render_expr(d, subs, out, &args[0])
                },
            }
        },
        _ => Ok(()),
    }
}

/// Appends the joins of `joins`.
pub(crate) fn render_joins(d: Dialect, subs: &Vec<String>, out: &mut String, joins: &Vec<Join>) -> (r: Result<
    (),
    RenderError,
>)
    ensures
        match r {
            Ok(_) => rendered_joins(d, texts(subs@), join_views(joins@), 0, old(out)@) == Ok::<
                Seq<char>,
                RenderErrorView,
            >(final(out)@),
            Err(x) => rendered_joins(d, texts(subs@), join_views(joins@), 0, old(out)@) == Err::<
                Seq<char>,
                RenderErrorView,
            >(x@),
        },
    decreases joins, 2int,
{
    let ghost v = join_views(joins@);
    let ghost start = out@;
    let mut i: usize = 0;
    while i < joins.len()
        invariant
            i <= joins.len(),
            v == join_views(joins@),
            start == old(out)@,
            rendered_joins(d, texts(subs@), v, 0, start) == rendered_joins(d, texts(subs@), v, i as int, out@),
        decreases joins.len() - i,
    {
        assert(v[i as int] == joins@[i as int]@);
        match joins[i].kind {
            JoinKind::Inner => put(out, " INNER JOIN "),
            JoinKind::Left => put(out, " LEFT JOIN "),
            JoinKind::Right => put(out, " RIGHT JOIN "),
            JoinKind::Full => put(out, " FULL JOIN "),
            JoinKind::Cross => put(out, " CROSS JOIN "),
        }
        put_table(d, subs, out, &joins[i].table);
        if joins[i].kind != JoinKind::Cross {
            put(out, " ON ");
            assert(decreases_to!(*joins => joins@) && decreases_to!(joins@ => joins@[i as int])
                && decreases_to!(joins@[i as int] => joins@[i as int].on));
            match render_expr(d, subs, out, &joins[i].on) {
                Ok(_) => {},
                Err(x) => {
                    return Err(x);
                },
            }
        }
        i += 1;
    }
    Ok(())
}

} // verus!
