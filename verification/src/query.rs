//! The grammar of a query block over lexemes, with its joins, its named and
//! its nested blocks, and parsing from text.

use vstd::prelude::*;

use crate::ast::{
    expr_views, join_views, opt_expr_view, opt_text, select_views, Expr, ExprView, Join, JoinKind,
    JoinView, OrderItem, OrderItemView, Select, SelectItem, SelectItemView, SelectView, SetOp,
    SetStep,
    TableRef, TableRefView, TableSource, TableSourceView,
};
use crate::lexer::{
    lexeme_views, meaningful_lexemes, tokenize, LexError, LexErrorView, LexKind, Lexeme,
    LexemeView,
};
use crate::text::{find_name, position, texts};
use crate::parser::{
    at_keyword, at_name, at_symbol, block_at, expr_at, is_keyword, is_symbol, keyword_at, list_at, miss,
    missing, name_at, parse_expr, parse_list, parse_path, path_from, symbol_at, Expected,
    SyntaxError,
};

verus! {

/// Text that is no sentence of the grammar.
#[derive(Debug, PartialEq, Eq)]
pub enum ParseError {
    /// The text could not be cut into lexemes.
    Lex(LexError),
    /// The lexemes do not form a sentence.
    Syntax(SyntaxError),
}

pub enum ParseErrorView {
    Lex(LexErrorView),
    Syntax(SyntaxError),
}

impl View for ParseError {
    type V = ParseErrorView;

    open spec fn view(&self) -> ParseErrorView {
        match self {
            ParseError::Lex(e) => ParseErrorView::Lex(e@),
            ParseError::Syntax(e) => ParseErrorView::Syntax(*e),
        }
    }
}

/// An optional alias at `pos`: `AS name`, or a bare name.
pub open spec fn alias_at(t: Seq<LexemeView>, pos: int) -> (Option<Seq<char>>, int) {
    if keyword_at(t, pos, "AS"@) && name_at(t, pos + 1) {
        (Some(t[pos + 1].text), pos + 2)
    } else if name_at(t, pos) {
        (Some(t[pos].text), pos + 1)
    } else {
        (None, pos)
    }
}

/// The select item at `pos`: `name.*`, which stands for every column of the
/// table of that name and is held as a wildcard under that name, or an
/// expression with an optional alias.
pub open spec fn item_at(t: Seq<LexemeView>, pos: int) -> Result<(SelectItemView, int), SyntaxError> {
    if name_at(t, pos) && symbol_at(t, pos + 1, "."@) && symbol_at(t, pos + 2, "*"@) {
        Ok((SelectItemView { expr: ExprView::Wildcard, alias: Some(t[pos].text) }, pos + 3))
    } else {
        match expr_at(t, pos, 0) {
            Ok((e, p)) => {
                let (alias, q) = alias_at(t, p);
                Ok((SelectItemView { expr: e, alias }, q))
            },
            Err(e) => Err(e),
        }
    }
}

/// The select items that continue at `pos`, after those in `acc`.
pub open spec fn items_at(t: Seq<LexemeView>, pos: int, acc: Seq<SelectItemView>) -> Result<
    (Seq<SelectItemView>, int),
    SyntaxError,
>
    decreases t.len() - pos,
{
    match item_at(t, pos) {
        Ok((item, q)) => {
            if symbol_at(t, q, ","@) && pos < q {
                items_at(t, q + 1, acc.push(item))
            } else {
                Ok((acc.push(item), q))
            }
        },
        Err(e) => Err(e),
    }
}

/// The table reference at `pos`: a nested block or a dotted name, with an
/// optional alias. A single name that is one of `names` stands for the
/// nested block at the same place of `places`, under that name unless an
/// alias follows.
pub open spec fn table_at(
    t: Seq<LexemeView>,
    pos: int,
    names: Seq<Seq<char>>,
    places: Seq<usize>,
) -> Result<(TableRefView, int), SyntaxError> {
    if block_at(t, pos) {
        let (alias, q) = alias_at(t, pos + 1);
        Ok((TableRefView { source: TableSourceView::Block(t[pos].block), alias }, q))
    } else if name_at(t, pos) {
        let (path, p) = path_from(t, pos + 1, seq![t[pos].text]);
        let (alias, q) = alias_at(t, p);
        let found = if path.len() == 1 {
            position(names, path[0])
        } else {
            None
        };
        if found is Some && 0 <= found->0 < places.len() {
            let name = match alias {
                Some(a) => a,
                None => path[0],
            };
            Ok(
                (
                    TableRefView {
                        source: TableSourceView::Block(places[found->0]),
                        alias: Some(name),
                    },
                    q,
                ),
            )
        } else {
            Ok((TableRefView { source: TableSourceView::Named(path), alias }, q))
        }
    } else {
        Err(missing(t, pos, Expected::Name))
    }
}

/// The kind of the join whose keywords start at `pos`, and the place after
/// them; nothing where no join starts there.
pub open spec fn join_start(t: Seq<LexemeView>, pos: int) -> Result<
    Option<(JoinKind, int)>,
    SyntaxError,
> {
    if keyword_at(t, pos, "JOIN"@) {
        Ok(Some((JoinKind::Inner, pos + 1)))
    } else if symbol_at(t, pos, ","@) {
        Ok(Some((JoinKind::Cross, pos + 1)))
    } else if keyword_at(t, pos, "CROSS"@) {
        if keyword_at(t, pos + 1, "JOIN"@) {
            Ok(Some((JoinKind::Cross, pos + 2)))
        } else {
            Err(missing(t, pos + 1, Expected::Join))
        }
    } else if keyword_at(t, pos, "INNER"@) {
        if keyword_at(t, pos + 1, "JOIN"@) {
            Ok(Some((JoinKind::Inner, pos + 2)))
        } else {
            Err(missing(t, pos + 1, Expected::Join))
        }
    } else if keyword_at(t, pos, "LEFT"@) || keyword_at(t, pos, "RIGHT"@) || keyword_at(
        t,
        pos,
        "FULL"@,
    ) {
        let kind = if keyword_at(t, pos, "LEFT"@) {
            JoinKind::Left
        } else if keyword_at(t, pos, "RIGHT"@) {
            JoinKind::Right
        } else {
            JoinKind::Full
        };
        let p = if keyword_at(t, pos + 1, "OUTER"@) {
            pos + 2
        } else {
            pos + 1
        };
        if keyword_at(t, p, "JOIN"@) {
            Ok(Some((kind, p + 1)))
        } else {
            Err(missing(t, p, Expected::Join))
        }
    } else {
        Ok(None)
    }
}

/// The joins that continue at `pos`, after those in `acc`: each a kind, a
/// table reference, `ON` and a condition. A comma stands for `CROSS JOIN`,
/// which has no condition; in its place stands `TRUE`.
pub open spec fn joins_at(
    t: Seq<LexemeView>,
    pos: int,
    names: Seq<Seq<char>>,
    places: Seq<usize>,
    acc: Seq<JoinView>,
) -> Result<(Seq<JoinView>, int), SyntaxError>
    decreases t.len() - pos,
{
    match join_start(t, pos) {
        Err(e) => Err(e),
        Ok(None) => Ok((acc, pos)),
        Ok(Some((kind, p))) => match table_at(t, p, names, places) {
            Err(e) => Err(e),
            Ok((table, q)) => if kind == JoinKind::Cross {
                if pos < q <= t.len() {
                    joins_at(
                        t,
                        q,
                        names,
                        places,
                        acc.push(JoinView { kind, table, on: ExprView::Bool(true) }),
                    )
                } else {
                    Err(missing(t, pos, Expected::Name))
                }
            } else if !keyword_at(t, q, "ON"@) {
                Err(missing(t, q, Expected::On))
            } else {
                match expr_at(t, q + 1, 0) {
                    Err(e) => Err(e),
                    Ok((on, r)) => if pos < r <= t.len() {
                        joins_at(t, r, names, places, acc.push(JoinView { kind, table, on }))
                    } else {
                        Err(missing(t, pos, Expected::Expression))
                    },
                }
            },
        },
    }
}

/// An optional clause at `pos` made of the keyword `kw` and an expression.
pub open spec fn condition_at(t: Seq<LexemeView>, pos: int, kw: Seq<char>) -> Result<
    (Option<ExprView>, int),
    SyntaxError,
> {
    if keyword_at(t, pos, kw) {
        match expr_at(t, pos + 1, 0) {
            Ok((e, p)) => Ok((Some(e), p)),
            Err(e) => Err(e),
        }
    } else {
        Ok((None, pos))
    }
}

/// An optional `GROUP BY` clause at `pos`.
pub open spec fn grouping_at(t: Seq<LexemeView>, pos: int) -> Result<
    (Seq<ExprView>, int),
    SyntaxError,
> {
    if keyword_at(t, pos, "GROUP"@) {
        if keyword_at(t, pos + 1, "BY"@) {
            list_at(t, pos + 2, Seq::empty())
        } else {
            Err(missing(t, pos + 1, Expected::By))
        }
    } else {
        Ok((Seq::empty(), pos))
    }
}

/// The sort keys that continue at `pos`, after those in `acc`.
pub open spec fn keys_at(t: Seq<LexemeView>, pos: int, acc: Seq<OrderItemView>) -> Result<
    (Seq<OrderItemView>, int),
    SyntaxError,
>
    decreases t.len() - pos,
{
    match expr_at(t, pos, 0) {
        Ok((e, p)) => {
            let descending = keyword_at(t, p, "DESC"@);
            let q = if descending || keyword_at(t, p, "ASC"@) {
                p + 1
            } else {
                p
            };
            let key = OrderItemView { expr: e, descending };
            if symbol_at(t, q, ","@) && pos < q {
                keys_at(t, q + 1, acc.push(key))
            } else {
                Ok((acc.push(key), q))
            }
        },
        Err(e) => Err(e),
    }
}

/// An optional `ORDER BY` clause at `pos`.
pub open spec fn ordering_at(t: Seq<LexemeView>, pos: int) -> Result<
    (Seq<OrderItemView>, int),
    SyntaxError,
> {
    if keyword_at(t, pos, "ORDER"@) {
        if keyword_at(t, pos + 1, "BY"@) {
            keys_at(t, pos + 2, Seq::empty())
        } else {
            Err(missing(t, pos + 1, Expected::By))
        }
    } else {
        Ok((Seq::empty(), pos))
    }
}

/// An optional clause at `pos` made of the keyword `kw` and a number.
pub open spec fn count_at(t: Seq<LexemeView>, pos: int, kw: Seq<char>) -> Result<
    (Option<Seq<char>>, int),
    SyntaxError,
> {
    if keyword_at(t, pos, kw) {
        if 0 <= pos + 1 < t.len() && t[pos + 1].kind == LexKind::Number {
            Ok((Some(t[pos + 1].text), pos + 2))
        } else {
            Err(missing(t, pos + 1, Expected::Number))
        }
    } else {
        Ok((None, pos))
    }
}

/// The clauses of a query block after its `FROM` clause, which ended at `pos`.
pub open spec fn tail_of(
    t: Seq<LexemeView>,
    pos: int,
    distinct: bool,
    items: Seq<SelectItemView>,
    from: TableRefView,
    joins: Seq<JoinView>,
) -> Result<SelectView, SyntaxError> {
    match condition_at(t, pos, "WHERE"@) {
        Err(e) => Err(e),
        Ok((filter, p1)) => match grouping_at(t, p1) {
            Err(e) => Err(e),
            Ok((group_by, p2)) => match condition_at(t, p2, "HAVING"@) {
                Err(e) => Err(e),
                Ok((having, p3)) => match ordering_at(t, p3) {
                    Err(e) => Err(e),
                    Ok((order_by, p4)) => match count_at(t, p4, "LIMIT"@) {
                        Err(e) => Err(e),
                        Ok((limit, p5)) => match count_at(t, p5, "OFFSET"@) {
                            Err(e) => Err(e),
                            Ok((offset, p6)) => {
                                let end = if symbol_at(t, p6, ";"@) {
                                    p6 + 1
                                } else {
                                    p6
                                };
                                if end == t.len() {
                                    Ok(
                                        SelectView {
                                            distinct,
                                            items,
                                            from,
                                            joins,
                                            filter,
                                            group_by,
                                            having,
                                            order_by,
                                            limit,
                                            offset,
                                            blocks: Seq::empty(),
                                            union_with: None,
                                        },
                                    )
                                } else {
                                    Err(missing(t, end, Expected::End))
                                }
                            },
                        },
                    },
                },
            },
        },
    }
}

/// The query block whose `SELECT` stands at `start`, with no nested block
/// attached:
/// `SELECT [DISTINCT] items FROM table {join} [WHERE e] [GROUP BY list]
/// [HAVING e] [ORDER BY keys] [LIMIT n] [OFFSET n] [;]`.
pub open spec fn body_at(
    t: Seq<LexemeView>,
    start: int,
    names: Seq<Seq<char>>,
    places: Seq<usize>,
) -> Result<SelectView, SyntaxError> {
    if !keyword_at(t, start, "SELECT"@) {
        Err(missing(t, start, Expected::Select))
    } else {
        let distinct = keyword_at(t, start + 1, "DISTINCT"@);
        let first = if distinct {
            start + 2
        } else {
            start + 1
        };
        match items_at(t, first, Seq::empty()) {
            Err(e) => Err(e),
            Ok((items, p)) => if !keyword_at(t, p, "FROM"@) {
                Err(missing(t, p, Expected::From))
            } else {
                match table_at(t, p + 1, names, places) {
                    Err(e) => Err(e),
                    Ok((from, q)) => match joins_at(t, q, names, places, Seq::empty()) {
                        Err(e) => Err(e),
                        Ok((joins, r)) => tail_of(t, r, distinct, items, from, joins),
                    },
                }
            },
        }
    }
}

/// The named blocks of a `WITH` clause that continue at `pos`, after those
/// in `names` and `places`: each a name, `AS` and a nested block.
pub open spec fn named_at(
    t: Seq<LexemeView>,
    pos: int,
    names: Seq<Seq<char>>,
    places: Seq<usize>,
) -> Result<(Seq<Seq<char>>, Seq<usize>, int), SyntaxError>
    decreases t.len() - pos,
{
    if !name_at(t, pos) {
        Err(missing(t, pos, Expected::Name))
    } else if !keyword_at(t, pos + 1, "AS"@) {
        Err(missing(t, pos + 1, Expected::As))
    } else if !block_at(t, pos + 2) {
        Err(missing(t, pos + 2, Expected::Subquery))
    } else if symbol_at(t, pos + 3, ","@) {
        named_at(t, pos + 4, names.push(t[pos].text), places.push(t[pos + 2].block))
    } else {
        Ok((names.push(t[pos].text), places.push(t[pos + 2].block), pos + 3))
    }
}

/// The query block that the lexemes `t` spell once its nested blocks are
/// cut out: an optional `WITH` clause, then the block itself.
pub open spec fn flat_select(t: Seq<LexemeView>) -> Result<SelectView, SyntaxError> {
    if keyword_at(t, 0, "WITH"@) {
        match named_at(t, 1, Seq::empty(), Seq::empty()) {
            Err(e) => Err(e),
            Ok((names, places, p)) => body_at(t, p, names, places),
        }
    } else {
        body_at(t, 0, Seq::empty(), Seq::empty())
    }
}

/// The place of the parenthesis that closes the one opened before `i`, with
/// `depth` more opened since; the length of `t` where there is none.
pub open spec fn closing(t: Seq<LexemeView>, i: int, depth: int) -> int
    decreases t.len() - i,
{
    if !(0 <= i < t.len()) {
        t.len() as int
    } else if is_symbol(t[i], ")"@) {
        if depth <= 0 {
            i
        } else {
            closing(t, i + 1, depth - 1)
        }
    } else if is_symbol(t[i], "("@) {
        closing(t, i + 1, depth + 1)
    } else {
        closing(t, i + 1, depth)
    }
}

/// The lexeme that stands for the nested block `k`, which opened at `at`.
pub open spec fn block_lexeme(at: LexemeView, k: usize) -> LexemeView {
    LexemeView {
        kind: LexKind::Block,
        quote: None,
        text: Seq::empty(),
        line: at.line,
        column: at.column,
        block: k,
    }
}

/// Whether a nested block opens at `i`: a parenthesis before `SELECT` or
/// `WITH`.
pub open spec fn opens_block(t: Seq<LexemeView>, i: int) -> bool {
    symbol_at(t, i, "("@) && (keyword_at(t, i + 1, "SELECT"@) || keyword_at(t, i + 1, "WITH"@))
}

/// The lexemes of `t` from `i` on with each outermost nested block cut out,
/// after `outer`, and the lexemes of these blocks, after `inner`. A block
/// lexeme stands where a block was.
pub open spec fn carved(
    t: Seq<LexemeView>,
    i: int,
    outer: Seq<LexemeView>,
    inner: Seq<Seq<LexemeView>>,
) -> Result<(Seq<LexemeView>, Seq<Seq<LexemeView>>), SyntaxError>
    decreases t.len() - i,
{
    if !(0 <= i < t.len()) {
        Ok((outer, inner))
    } else if opens_block(t, i) {
        let c = closing(t, i + 1, 0);
        if i < c < t.len() {
            carved(
                t,
                c + 1,
                outer.push(block_lexeme(t[i], inner.len() as usize)),
                inner.push(t.subrange(i + 1, c)),
            )
        } else {
            Err(missing(t, t.len() as int, Expected::ClosingParen))
        }
    } else {
        carved(t, i + 1, outer.push(t[i]), inner)
    }
}

/// The query blocks that the rows of lexemes in `inner` spell from row `i`
/// on, after those in `acc`; each row is shorter than `bound`.
pub open spec fn blocks_of(
    bound: int,
    inner: Seq<Seq<LexemeView>>,
    i: int,
    acc: Seq<SelectView>,
) -> Result<Seq<SelectView>, SyntaxError>
    decreases bound, 0int, inner.len() - i,
{
    if !(0 <= i < inner.len()) {
        Ok(acc)
    } else if inner[i].len() < bound {
        match select_of(inner[i]) {
            Err(e) => Err(e),
            Ok(b) => blocks_of(bound, inner, i + 1, acc.push(b)),
        }
    } else {
        Err(missing(inner[i], 0, Expected::End))
    }
}

/// The set operation that a lexeme names.
pub open spec fn set_op_of(t: LexemeView) -> Option<SetOp> {
    if is_keyword(t, "UNION"@) {
        Some(SetOp::Union)
    } else if is_keyword(t, "INTERSECT"@) {
        Some(SetOp::Intersect)
    } else if is_keyword(t, "EXCEPT"@) {
        Some(SetOp::Except)
    } else {
        None
    }
}

/// The place of the first `UNION`, `INTERSECT` or `EXCEPT` at or after `i`;
/// the length of `t` where there is none.
pub open spec fn union_at(t: Seq<LexemeView>, i: int) -> int
    decreases t.len() - i,
{
    if !(0 <= i < t.len()) {
        t.len() as int
    } else if set_op_of(t[i]) is Some {
        i
    } else {
        union_at(t, i + 1)
    }
}

/// The query block that the lexemes `outer` spell, whose nested blocks are
/// cut out and read as `blocks`. What follows the first `UNION`, `INTERSECT`
/// or `EXCEPT`, with or without `ALL`, is read in the same way and becomes
/// one more nested block, the other side of the set operation.
#[verifier::opaque]
pub open spec fn chain_of(outer: Seq<LexemeView>, blocks: Seq<SelectView>) -> Result<
    SelectView,
    SyntaxError,
>
    decreases outer.len(),
{
    let u = union_at(outer, 0);
    if 0 <= u < outer.len() {
        let all = keyword_at(outer, u + 1, "ALL"@);
        let start = if all {
            u + 2
        } else {
            u + 1
        };
        match flat_select(outer.subrange(0, u)) {
            Err(e) => Err(e),
            Ok(s) => match chain_of(outer.subrange(start, outer.len() as int), blocks) {
                Err(e) => Err(e),
                Ok(next) => Ok(
                    SelectView {
                        blocks: blocks.push(next),
                        union_with: Some(
                            SetStep {
                                op: set_op_of(outer[u])->0,
                                all,
                                block: blocks.len() as usize,
                            },
                        ),
                        ..s
                    },
                ),
            },
        }
    } else {
        match flat_select(outer) {
            Err(e) => Err(e),
            Ok(s) => Ok(SelectView { blocks, ..s }),
        }
    }
}

/// The query block that the lexemes `t` spell. Each nested block, a
/// parenthesis around `SELECT` or `WITH`, is cut out and read by itself;
/// the block that held it names it by its place.
pub open spec fn select_of(t: Seq<LexemeView>) -> Result<SelectView, SyntaxError>
    decreases t.len(), 1int, 0int,
{
    match carved(t, 0, Seq::empty(), Seq::empty()) {
        Err(e) => Err(e),
        Ok((outer, inner)) => match blocks_of(t.len() as int, inner, 0, Seq::empty()) {
            Err(e) => Err(e),
            Ok(blocks) => chain_of(outer, blocks),
        },
    }
}

/// The expression that the lexemes `t` spell, all of them.
pub open spec fn expression_of(t: Seq<LexemeView>) -> Result<ExprView, SyntaxError> {
    match expr_at(t, 0, 0) {
        Ok((e, p)) => if p == t.len() {
            Ok(e)
        } else {
            Err(missing(t, p, Expected::End))
        },
        Err(e) => Err(e),
    }
}

/// The query block that a text spells.
pub open spec fn query_of(sql: Seq<char>) -> Result<SelectView, ParseErrorView> {
    match meaningful_lexemes(sql) {
        Err(e) => Err(ParseErrorView::Lex(e)),
        Ok(t) => match select_of(t) {
            Err(e) => Err(ParseErrorView::Syntax(e)),
            Ok(s) => Ok(s),
        },
    }
}

/// The expression that a text spells.
pub open spec fn expression_of_text(sql: Seq<char>) -> Result<ExprView, ParseErrorView> {
    match meaningful_lexemes(sql) {
        Err(e) => Err(ParseErrorView::Lex(e)),
        Ok(t) => match expression_of(t) {
            Err(e) => Err(ParseErrorView::Syntax(e)),
            Ok(s) => Ok(s),
        },
    }
}

/// The values of a sequence of select items.
pub open spec fn item_views(s: Seq<SelectItem>) -> Seq<SelectItemView> {
    Seq::new(s.len(), |i: int| s[i]@)
}

/// The values of a sequence of sort keys.
pub open spec fn key_views(s: Seq<OrderItem>) -> Seq<OrderItemView> {
    Seq::new(s.len(), |i: int| s[i]@)
}

/// The value of the outcome of parsing a query block.
pub open spec fn parsed_select(r: Result<Select, SyntaxError>) -> Result<SelectView, SyntaxError> {
    match r {
        Ok(s) => Ok(s@),
        Err(e) => Err(e),
    }
}

/// The value of the outcome of parsing a whole expression.
pub open spec fn parsed_whole(r: Result<Expr, SyntaxError>) -> Result<ExprView, SyntaxError> {
    match r {
        Ok(s) => Ok(s@),
        Err(e) => Err(e),
    }
}

/// Reads an optional alias at `pos`.
pub(crate) fn parse_alias(tokens: &Vec<Lexeme>, pos: usize) -> (r: (Option<String>, usize))
    requires
        pos <= tokens.len(),
    ensures
        (opt_text(r.0), r.1 as int) == alias_at(lexeme_views(tokens@), pos as int),
        pos <= r.1 <= tokens.len(),
{
    if at_keyword(tokens, pos, "AS") && at_name(tokens, pos + 1) {
        (Some(tokens[pos + 1].text.clone()), pos + 2)
    } else if at_name(tokens, pos) {
        (Some(tokens[pos].text.clone()), pos + 1)
    } else {
        (None, pos)
    }
}

/// Parses the select items that start at `pos`.
pub(crate) fn parse_items(tokens: &Vec<Lexeme>, pos: usize) -> (r: Result<
    (Vec<SelectItem>, usize),
    SyntaxError,
>)
    requires
        pos <= tokens.len(),
    ensures
        match r {
            Ok((v, p)) => items_at(lexeme_views(tokens@), pos as int, Seq::empty()) == Ok::<
                (Seq<SelectItemView>, int),
                SyntaxError,
            >((item_views(v@), p as int)) && pos < p <= tokens.len(),
            Err(e) => items_at(lexeme_views(tokens@), pos as int, Seq::empty()) == Err::<
                (Seq<SelectItemView>, int),
                SyntaxError,
            >(e),
        },
{
    let ghost t = lexeme_views(tokens@);
    let mut items: Vec<SelectItem> = Vec::new();
    let mut p = pos;
    assert(item_views(items@) == Seq::<SelectItemView>::empty());
    loop
        invariant
            pos <= p <= tokens.len(),
            t == lexeme_views(tokens@),
            items_at(t, pos as int, Seq::empty()) == items_at(t, p as int, item_views(items@)),
        decreases tokens.len() - p,
    {
        match parse_item(tokens, p) {
            Ok((item, q)) => {
                let ghost before = item_views(items@);
                let ghost iv = item@;
                items.push(item);
                assert(item_views(items@) == before.push(iv));
                if at_symbol(tokens, q, ",") {
                    p = q + 1;
                } else {
                    return Ok((items, q));
                }
            },
            Err(e) => {
                return Err(e);
            },
        }
    }
}

/// Parses the select item at `pos`.
pub(crate) fn parse_item(tokens: &Vec<Lexeme>, pos: usize) -> (r: Result<
    (SelectItem, usize),
    SyntaxError,
>)
    requires
        pos <= tokens.len(),
    ensures
        match r {
            Ok((v, p)) => item_at(lexeme_views(tokens@), pos as int) == Ok::<
                (SelectItemView, int),
                SyntaxError,
            >((v@, p as int)) && pos < p <= tokens.len(),
            Err(e) => item_at(lexeme_views(tokens@), pos as int) == Err::<
                (SelectItemView, int),
                SyntaxError,
            >(e),
        },
{
    if at_name(tokens, pos) && at_symbol(tokens, pos + 1, ".") && at_symbol(tokens, pos + 2, "*") {
        Ok((SelectItem { expr: Expr::Wildcard, alias: Some(tokens[pos].text.clone()) }, pos + 3))
    } else {
        match parse_expr(tokens, pos, 0) {
            Ok((e, next)) => {
                let (alias, q) = parse_alias(tokens, next);
                Ok((SelectItem { expr: e, alias }, q))
            },
            Err(e) => Err(e),
        }
    }
}

/// The value of the outcome of parsing a table reference.
pub open spec fn parsed_table(r: Result<(TableRef, usize), SyntaxError>) -> Result<
    (TableRefView, int),
    SyntaxError,
> {
    match r {
        Ok((v, p)) => Ok((v@, p as int)),
        Err(e) => Err(e),
    }
}

/// Parses the table reference at `pos`.
pub(crate) fn parse_table(
    tokens: &Vec<Lexeme>,
    pos: usize,
    names: &Vec<String>,
    places: &Vec<usize>,
) -> (r: Result<(TableRef, usize), SyntaxError>)
    requires
        pos <= tokens.len(),
    ensures
        parsed_table(r) == table_at(lexeme_views(tokens@), pos as int, texts(names@), places@),
        r matches Ok((_, p)) ==> pos < p <= tokens.len(),
{
    let ghost t = lexeme_views(tokens@);
    if pos < tokens.len() && tokens[pos].kind == LexKind::Block {
        let (alias, q) = parse_alias(tokens, pos + 1);
        Ok((TableRef { source: TableSource::Block(tokens[pos].block), alias }, q))
    } else if at_name(tokens, pos) {
        let mut first: Vec<String> = Vec::new();
        first.push(tokens[pos].text.clone());
        assert(texts(first@) == seq![t[pos as int].text]);
        let (path, p) = parse_path(tokens, pos + 1, first);
        let (alias, q) = parse_alias(tokens, p);
        let found = if path.len() == 1 {
            assert(texts(path@)[0] == path@[0]@);
            find_name(names, path[0].as_str())
        } else {
            None
        };
        match found {
            Some(i) => if i < places.len() {
                let name = match alias {
                    Some(a) => a,
                    None => path[0].clone(),
                };
                Ok((TableRef { source: TableSource::Block(places[i]), alias: Some(name) }, q))
            } else {
                Ok((TableRef { source: TableSource::Named(path), alias }, q))
            },
            None => Ok((TableRef { source: TableSource::Named(path), alias }, q)),
        }
    } else {
        Err(miss(tokens, pos, Expected::Name))
    }
}

/// Reads the keywords of a join at `pos`.
pub(crate) fn parse_join_start(tokens: &Vec<Lexeme>, pos: usize) -> (r: Result<
    Option<(JoinKind, usize)>,
    SyntaxError,
>)
    requires
        pos <= tokens.len(),
    ensures
        match r {
            Ok(Some((k, p))) => join_start(lexeme_views(tokens@), pos as int) == Ok::<
                Option<(JoinKind, int)>,
                SyntaxError,
            >(Some((k, p as int))) && pos < p <= tokens.len(),
            Ok(None) => join_start(lexeme_views(tokens@), pos as int) == Ok::<
                Option<(JoinKind, int)>,
                SyntaxError,
            >(None),
            Err(e) => join_start(lexeme_views(tokens@), pos as int) == Err::<
                Option<(JoinKind, int)>,
                SyntaxError,
            >(e),
        },
{
    if at_keyword(tokens, pos, "JOIN") {
        Ok(Some((JoinKind::Inner, pos + 1)))
    } else if at_symbol(tokens, pos, ",") {
        Ok(Some((JoinKind::Cross, pos + 1)))
    } else if at_keyword(tokens, pos, "CROSS") {
        if at_keyword(tokens, pos + 1, "JOIN") {
            Ok(Some((JoinKind::Cross, pos + 2)))
        } else {
            Err(miss(tokens, pos + 1, Expected::Join))
        }
    } else if at_keyword(tokens, pos, "INNER") {
        if at_keyword(tokens, pos + 1, "JOIN") {
            Ok(Some((JoinKind::Inner, pos + 2)))
        } else {
            Err(miss(tokens, pos + 1, Expected::Join))
        }
    } else if at_keyword(tokens, pos, "LEFT") || at_keyword(tokens, pos, "RIGHT") || at_keyword(
        tokens,
        pos,
        "FULL",
    ) {
        let kind = if at_keyword(tokens, pos, "LEFT") {
            JoinKind::Left
        } else if at_keyword(tokens, pos, "RIGHT") {
            JoinKind::Right
        } else {
            JoinKind::Full
        };
        let p = if at_keyword(tokens, pos + 1, "OUTER") {
            pos + 2
        } else {
            pos + 1
        };
        if at_keyword(tokens, p, "JOIN") {
            Ok(Some((kind, p + 1)))
        } else {
            Err(miss(tokens, p, Expected::Join))
        }
    } else {
        Ok(None)
    }
}

/// Parses the joins that start at `pos`.
pub(crate) fn parse_joins(
    tokens: &Vec<Lexeme>,
    pos: usize,
    names: &Vec<String>,
    places: &Vec<usize>,
) -> (r: Result<(Vec<Join>, usize), SyntaxError>)
    requires
        pos <= tokens.len(),
    ensures
        match r {
            Ok((v, p)) => joins_at(
                lexeme_views(tokens@),
                pos as int,
                texts(names@),
                places@,
                Seq::empty(),
            ) == Ok::<(Seq<JoinView>, int), SyntaxError>((join_views(v@), p as int)) && pos <= p
                <= tokens.len(),
            Err(e) => joins_at(
                lexeme_views(tokens@),
                pos as int,
                texts(names@),
                places@,
                Seq::empty(),
            ) == Err::<(Seq<JoinView>, int), SyntaxError>(e),
        },
{
    let ghost t = lexeme_views(tokens@);
    let ghost ns = texts(names@);
    let mut joins: Vec<Join> = Vec::new();
    let mut p = pos;
    assert(join_views(joins@) == Seq::<JoinView>::empty());
    loop
        invariant
            pos <= p <= tokens.len(),
            t == lexeme_views(tokens@),
            ns == texts(names@),
            joins_at(t, pos as int, ns, places@, Seq::empty()) == joins_at(
                t,
                p as int,
                ns,
                places@,
                join_views(joins@),
            ),
        decreases tokens.len() - p,
    {
        let (kind, at) = match parse_join_start(tokens, p) {
            Err(e) => {
                return Err(e);
            },
            Ok(None) => {
                return Ok((joins, p));
            },
            Ok(Some(x)) => x,
        };
        let (table, q) = match parse_table(tokens, at, names, places) {
            Err(e) => {
                return Err(e);
            },
            Ok(x) => x,
        };
        if kind == JoinKind::Cross {
            let ghost before = join_views(joins@);
            let j = Join { kind, table, on: Expr::Bool(true) };
            let ghost jv = j@;
            assert(jv.on == ExprView::Bool(true));
            joins.push(j);
            assert(join_views(joins@) == before.push(jv));
            p = q;
            continue ;
        }
        if !at_keyword(tokens, q, "ON") {
            return Err(miss(tokens, q, Expected::On));
        }
        match parse_expr(tokens, q + 1, 0) {
            Err(e) => {
                return Err(e);
            },
            Ok((on, next)) => {
                let ghost before = join_views(joins@);
                let j = Join { kind, table, on };
                let ghost jv = j@;
                joins.push(j);
                assert(join_views(joins@) == before.push(jv));
                p = next;
            },
        }
    }
}

/// Parses an optional clause at `pos` made of the keyword `kw` and an
/// expression.
pub(crate) fn parse_condition(tokens: &Vec<Lexeme>, pos: usize, kw: &str) -> (r: Result<
    (Option<Expr>, usize),
    SyntaxError,
>)
    requires
        pos <= tokens.len(),
    ensures
        match r {
            Ok((v, p)) => condition_at(lexeme_views(tokens@), pos as int, kw@) == Ok::<
                (Option<ExprView>, int),
                SyntaxError,
            >((opt_expr_view(v), p as int)) && pos <= p <= tokens.len(),
            Err(e) => condition_at(lexeme_views(tokens@), pos as int, kw@) == Err::<
                (Option<ExprView>, int),
                SyntaxError,
            >(e),
        },
{
    if at_keyword(tokens, pos, kw) {
        match parse_expr(tokens, pos + 1, 0) {
            Ok((e, p)) => Ok((Some(e), p)),
            Err(e) => Err(e),
        }
    } else {
        Ok((None, pos))
    }
}

/// Parses an optional `GROUP BY` clause at `pos`.
pub(crate) fn parse_grouping(tokens: &Vec<Lexeme>, pos: usize) -> (r: Result<
    (Vec<Expr>, usize),
    SyntaxError,
>)
    requires
        pos <= tokens.len(),
    ensures
        match r {
            Ok((v, p)) => grouping_at(lexeme_views(tokens@), pos as int) == Ok::<
                (Seq<ExprView>, int),
                SyntaxError,
            >((expr_views(v@), p as int)) && pos <= p <= tokens.len(),
            Err(e) => grouping_at(lexeme_views(tokens@), pos as int) == Err::<
                (Seq<ExprView>, int),
                SyntaxError,
            >(e),
        },
{
    if at_keyword(tokens, pos, "GROUP") {
        if at_keyword(tokens, pos + 1, "BY") {
            parse_list(tokens, pos + 2)
        } else {
            Err(miss(tokens, pos + 1, Expected::By))
        }
    } else {
        let none: Vec<Expr> = Vec::new();
        assert(expr_views(none@) == Seq::<ExprView>::empty());
        Ok((none, pos))
    }
}

/// Parses the sort keys that start at `pos`.
pub(crate) fn parse_keys(tokens: &Vec<Lexeme>, pos: usize) -> (r: Result<
    (Vec<OrderItem>, usize),
    SyntaxError,
>)
    requires
        pos <= tokens.len(),
    ensures
        match r {
            Ok((v, p)) => keys_at(lexeme_views(tokens@), pos as int, Seq::empty()) == Ok::<
                (Seq<OrderItemView>, int),
                SyntaxError,
            >((key_views(v@), p as int)) && pos < p <= tokens.len(),
            Err(e) => keys_at(lexeme_views(tokens@), pos as int, Seq::empty()) == Err::<
                (Seq<OrderItemView>, int),
                SyntaxError,
            >(e),
        },
{
    let ghost t = lexeme_views(tokens@);
    let mut keys: Vec<OrderItem> = Vec::new();
    let mut p = pos;
    assert(key_views(keys@) == Seq::<OrderItemView>::empty());
    loop
        invariant
            pos <= p <= tokens.len(),
            t == lexeme_views(tokens@),
            keys_at(t, pos as int, Seq::empty()) == keys_at(t, p as int, key_views(keys@)),
        decreases tokens.len() - p,
    {
        match parse_expr(tokens, p, 0) {
            Ok((e, next)) => {
                let descending = at_keyword(tokens, next, "DESC");
                let q = if descending || at_keyword(tokens, next, "ASC") {
                    next + 1
                } else {
                    next
                };
                let ghost before = key_views(keys@);
                let key = OrderItem { expr: e, descending };
                let ghost kv = key@;
                keys.push(key);
                assert(key_views(keys@) == before.push(kv));
                if at_symbol(tokens, q, ",") {
                    p = q + 1;
                } else {
                    return Ok((keys, q));
                }
            },
            Err(e) => {
                return Err(e);
            },
        }
    }
}

/// Parses an optional `ORDER BY` clause at `pos`.
pub(crate) fn parse_ordering(tokens: &Vec<Lexeme>, pos: usize) -> (r: Result<
    (Vec<OrderItem>, usize),
    SyntaxError,
>)
    requires
        pos <= tokens.len(),
    ensures
        match r {
            Ok((v, p)) => ordering_at(lexeme_views(tokens@), pos as int) == Ok::<
                (Seq<OrderItemView>, int),
                SyntaxError,
            >((key_views(v@), p as int)) && pos <= p <= tokens.len(),
            Err(e) => ordering_at(lexeme_views(tokens@), pos as int) == Err::<
                (Seq<OrderItemView>, int),
                SyntaxError,
            >(e),
        },
{
    if at_keyword(tokens, pos, "ORDER") {
        if at_keyword(tokens, pos + 1, "BY") {
            parse_keys(tokens, pos + 2)
        } else {
            Err(miss(tokens, pos + 1, Expected::By))
        }
    } else {
        let none: Vec<OrderItem> = Vec::new();
        assert(key_views(none@) == Seq::<OrderItemView>::empty());
        Ok((none, pos))
    }
}

/// Parses an optional clause at `pos` made of the keyword `kw` and a number.
pub(crate) fn parse_count(tokens: &Vec<Lexeme>, pos: usize, kw: &str) -> (r: Result<
    (Option<String>, usize),
    SyntaxError,
>)
    requires
        pos <= tokens.len(),
    ensures
        match r {
            Ok((v, p)) => count_at(lexeme_views(tokens@), pos as int, kw@) == Ok::<
                (Option<Seq<char>>, int),
                SyntaxError,
            >((opt_text(v), p as int)) && pos <= p <= tokens.len(),
            Err(e) => count_at(lexeme_views(tokens@), pos as int, kw@) == Err::<
                (Option<Seq<char>>, int),
                SyntaxError,
            >(e),
        },
{
    if at_keyword(tokens, pos, kw) {
        if pos + 1 < tokens.len() && tokens[pos + 1].kind == LexKind::Number {
            Ok((Some(tokens[pos + 1].text.clone()), pos + 2))
        } else {
            Err(miss(tokens, pos + 1, Expected::Number))
        }
    } else {
        Ok((None, pos))
    }
}

/// Parses the clauses of a query block after its `FROM` clause.
pub(crate) fn parse_tail(
    tokens: &Vec<Lexeme>,
    pos: usize,
    distinct: bool,
    items: Vec<SelectItem>,
    from: TableRef,
    joins: Vec<Join>,
) -> (r: Result<Select, SyntaxError>)
    requires
        pos <= tokens.len(),
    ensures
        parsed_select(r) == tail_of(
            lexeme_views(tokens@),
            pos as int,
            distinct,
            item_views(items@),
            from@,
            join_views(joins@),
        ),
{
    let (filter, p1) = match parse_condition(tokens, pos, "WHERE") {
        Ok(x) => x,
        Err(e) => {
            return Err(e);
        },
    };
    let (group_by, p2) = match parse_grouping(tokens, p1) {
        Ok(x) => x,
        Err(e) => {
            return Err(e);
        },
    };
    let (having, p3) = match parse_condition(tokens, p2, "HAVING") {
        Ok(x) => x,
        Err(e) => {
            return Err(e);
        },
    };
    let (order_by, p4) = match parse_ordering(tokens, p3) {
        Ok(x) => x,
        Err(e) => {
            return Err(e);
        },
    };
    let (limit, p5) = match parse_count(tokens, p4, "LIMIT") {
        Ok(x) => x,
        Err(e) => {
            return Err(e);
        },
    };
    let (offset, p6) = match parse_count(tokens, p5, "OFFSET") {
        Ok(x) => x,
        Err(e) => {
            return Err(e);
        },
    };
    let end = if at_symbol(tokens, p6, ";") {
        p6 + 1
    } else {
        p6
    };
    if end == tokens.len() {
        let s = Select {
            distinct,
            items,
            from,
            joins,
            filter,
            group_by,
            having,
            order_by,
            limit,
            offset,
            blocks: Vec::new(),
            union_with: None,
        };
        assert(s@.joins == join_views(joins@));
        assert(s@.blocks == Seq::<SelectView>::empty());
        assert(s@.items == item_views(items@));
        assert(s@.order_by == key_views(order_by@));
        Ok(s)
    } else {
        Err(miss(tokens, end, Expected::End))
    }
}

/// Parses the query block whose `SELECT` stands at `start`.
pub(crate) fn parse_body(
    tokens: &Vec<Lexeme>,
    start: usize,
    names: &Vec<String>,
    places: &Vec<usize>,
) -> (r: Result<Select, SyntaxError>)
    requires
        start <= tokens.len(),
    ensures
        parsed_select(r) == body_at(lexeme_views(tokens@), start as int, texts(names@), places@),
{
    if !at_keyword(tokens, start, "SELECT") {
        return Err(miss(tokens, start, Expected::Select));
    }
    let distinct = at_keyword(tokens, start + 1, "DISTINCT");
    let first: usize = if distinct {
        start + 2
    } else {
        start + 1
    };
    match parse_items(tokens, first) {
        Err(e) => Err(e),
        Ok((items, p)) => if !at_keyword(tokens, p, "FROM") {
            Err(miss(tokens, p, Expected::From))
        } else {
            match parse_table(tokens, p + 1, names, places) {
                Err(e) => Err(e),
                Ok((from, q)) => match parse_joins(tokens, q, names, places) {
                    Err(e) => Err(e),
                    Ok((joins, r)) => parse_tail(tokens, r, distinct, items, from, joins),
                },
            }
        },
    }
}

/// Parses a query block whose nested blocks are cut out.
pub(crate) fn parse_flat(tokens: &Vec<Lexeme>) -> (r: Result<Select, SyntaxError>)
    ensures
        parsed_select(r) == flat_select(lexeme_views(tokens@)),
{
    let ghost t = lexeme_views(tokens@);
    let mut names: Vec<String> = Vec::new();
    let mut places: Vec<usize> = Vec::new();
    if !at_keyword(tokens, 0, "WITH") {
        assert(texts(names@) == Seq::<Seq<char>>::empty());
        assert(places@ == Seq::<usize>::empty());
        return parse_body(tokens, 0, &names, &places);
    }
    let mut p: usize = 1;
    assert(texts(names@) == Seq::<Seq<char>>::empty());
    assert(places@ == Seq::<usize>::empty());
    loop
        invariant
            1 <= p <= tokens.len(),
            t == lexeme_views(tokens@),
            keyword_at(t, 0, "WITH"@),
            named_at(t, 1, Seq::empty(), Seq::empty()) == named_at(
                t,
                p as int,
                texts(names@),
                places@,
            ),
        decreases tokens.len() - p,
    {
        if !at_name(tokens, p) {
            return Err(miss(tokens, p, Expected::Name));
        }
        if !at_keyword(tokens, p + 1, "AS") {
            return Err(miss(tokens, p + 1, Expected::As));
        }
        if !(p + 2 < tokens.len() && tokens[p + 2].kind == LexKind::Block) {
            return Err(miss(tokens, p + 2, Expected::Subquery));
        }
        let ghost before = texts(names@);
        names.push(tokens[p].text.clone());
        places.push(tokens[p + 2].block);
        assert(texts(names@) == before.push(t[p as int].text));
        if at_symbol(tokens, p + 3, ",") {
            p = p + 4;
        } else {
            return parse_body(tokens, p + 3, &names, &places);
        }
    }
}

/// Finds the parenthesis that closes the one opened before `start`.
pub(crate) fn find_closing(tokens: &Vec<Lexeme>, start: usize) -> (r: usize)
    requires
        start <= tokens.len(),
    ensures
        r as int == closing(lexeme_views(tokens@), start as int, 0),
        start <= r <= tokens.len(),
{
    let ghost t = lexeme_views(tokens@);
    let mut i = start;
    let mut depth: usize = 0;
    while i < tokens.len()
        invariant
            start <= i <= tokens.len(),
            depth <= i - start,
            t == lexeme_views(tokens@),
            closing(t, start as int, 0) == closing(t, i as int, depth as int),
        decreases tokens.len() - i,
    {
        if at_symbol(tokens, i, ")") {
            if depth == 0 {
                return i;
            }
            depth -= 1;
        } else if at_symbol(tokens, i, "(") {
            depth += 1;
        }
        i += 1;
    }
    i
}

/// A copy of a lexeme.
pub(crate) fn copy_lexeme(l: &Lexeme) -> (r: Lexeme)
    ensures
        r@ == l@,
{
    Lexeme {
        kind: l.kind,
        quote: l.quote,
        text: l.text.clone(),
        line: l.line,
        column: l.column,
        block: l.block,
    }
}

/// A copy of the lexemes from `from` up to `to`.
pub(crate) fn copy_range(tokens: &Vec<Lexeme>, from: usize, to: usize) -> (r: Vec<Lexeme>)
    requires
        from <= to <= tokens.len(),
    ensures
        lexeme_views(r@) == lexeme_views(tokens@).subrange(from as int, to as int),
        r.len() == to - from,
{
    let mut out: Vec<Lexeme> = Vec::new();
    let mut i = from;
    while i < to
        invariant
            from <= i <= to <= tokens.len(),
            out.len() == i - from,
            forall|k: int| 0 <= k < out.len() ==> out[k]@ == tokens[from + k]@,
        decreases to - i,
    {
        out.push(copy_lexeme(&tokens[i]));
        i += 1;
    }
    assert(lexeme_views(out@) =~= lexeme_views(tokens@).subrange(from as int, to as int));
    out
}

/// The values of rows of lexemes.
pub open spec fn lexeme_rows(v: Seq<Vec<Lexeme>>) -> Seq<Seq<LexemeView>> {
    Seq::new(v.len(), |i: int| lexeme_views(v[i]@))
}

/// Cuts the outermost nested blocks out of `tokens`.
pub(crate) fn carve(tokens: &Vec<Lexeme>) -> (r: Result<
    (Vec<Lexeme>, Vec<Vec<Lexeme>>),
    SyntaxError,
>)
    ensures
        match r {
            Ok((outer, inner)) => carved(
                lexeme_views(tokens@),
                0,
                Seq::empty(),
                Seq::empty(),
            ) == Ok::<(Seq<LexemeView>, Seq<Seq<LexemeView>>), SyntaxError>(
                (lexeme_views(outer@), lexeme_rows(inner@)),
            ) && forall|k: int| 0 <= k < inner.len() ==> (#[trigger] inner[k]).len() < tokens.len(),
            Err(e) => carved(lexeme_views(tokens@), 0, Seq::empty(), Seq::empty()) == Err::<
                (Seq<LexemeView>, Seq<Seq<LexemeView>>),
                SyntaxError,
            >(e),
        },
{
    let ghost t = lexeme_views(tokens@);
    let mut outer: Vec<Lexeme> = Vec::new();
    let mut inner: Vec<Vec<Lexeme>> = Vec::new();
    let mut i: usize = 0;
    assert(lexeme_views(outer@) == Seq::<LexemeView>::empty());
    assert(lexeme_rows(inner@) == Seq::<Seq<LexemeView>>::empty());
    while i < tokens.len()
        invariant
            i <= tokens.len(),
            t == lexeme_views(tokens@),
            carved(t, 0, Seq::empty(), Seq::empty()) == carved(
                t,
                i as int,
                lexeme_views(outer@),
                lexeme_rows(inner@),
            ),
            forall|k: int| 0 <= k < inner.len() ==> (#[trigger] inner[k]).len() < tokens.len(),
        decreases tokens.len() - i,
    {
        let ghost o = lexeme_views(outer@);
        let ghost n = lexeme_rows(inner@);
        if at_symbol(tokens, i, "(") && (at_keyword(tokens, i + 1, "SELECT") || at_keyword(
            tokens,
            i + 1,
            "WITH",
        )) {
            let c = find_closing(tokens, i + 1);
            if c < tokens.len() {
                let row = copy_range(tokens, i + 1, c);
                let b = Lexeme {
                    kind: LexKind::Block,
                    quote: None,
                    text: String::new(),
                    line: tokens[i].line,
                    column: tokens[i].column,
                    block: inner.len(),
                };
                assert(b@ == block_lexeme(t[i as int], n.len() as usize));
                outer.push(b);
                inner.push(row);
                assert(lexeme_views(outer@) == o.push(block_lexeme(t[i as int], n.len() as usize)));
                assert(lexeme_rows(inner@) == n.push(t.subrange(i + 1, c as int)));
                i = c + 1;
            } else {
                return Err(miss(tokens, tokens.len(), Expected::ClosingParen));
            }
        } else {
            outer.push(copy_lexeme(&tokens[i]));
            assert(lexeme_views(outer@) == o.push(t[i as int]));
            i += 1;
        }
    }
    Ok((outer, inner))
}

/// Parses the nested blocks whose lexemes are the rows of `inner`.
pub(crate) fn parse_blocks(bound: usize, inner: &Vec<Vec<Lexeme>>) -> (r: Result<
    Vec<Select>,
    SyntaxError,
>)
    requires
        forall|k: int| 0 <= k < inner.len() ==> (#[trigger] inner[k]).len() < bound,
    ensures
        match r {
            Ok(v) => blocks_of(bound as int, lexeme_rows(inner@), 0, Seq::empty()) == Ok::<
                Seq<SelectView>,
                SyntaxError,
            >(select_views(v@)),
            Err(e) => blocks_of(bound as int, lexeme_rows(inner@), 0, Seq::empty()) == Err::<
                Seq<SelectView>,
                SyntaxError,
            >(e),
        },
    decreases bound, 0int, 0int,
{
    let ghost rows = lexeme_rows(inner@);
    let mut blocks: Vec<Select> = Vec::new();
    let mut i: usize = 0;
    assert(select_views(blocks@) == Seq::<SelectView>::empty());
    while i < inner.len()
        invariant
            i <= inner.len(),
            rows == lexeme_rows(inner@),
            forall|k: int| 0 <= k < inner.len() ==> (#[trigger] inner[k]).len() < bound,
            blocks_of(bound as int, rows, 0, Seq::empty()) == blocks_of(
                bound as int,
                rows,
                i as int,
                select_views(blocks@),
            ),
        decreases inner.len() - i,
    {
        assert(rows[i as int] == lexeme_views(inner[i as int]@));
        assert(rows[i as int].len() == inner[i as int].len());
        match parse_select(&inner[i]) {
            Err(e) => {
                return Err(e);
            },
            Ok(b) => {
                let ghost before = select_views(blocks@);
                let ghost bv = b@;
                blocks.push(b);
                assert(select_views(blocks@) == before.push(bv));
            },
        }
        i += 1;
    }
    Ok(blocks)
}

/// The set operation that the lexeme at `pos` names.
pub(crate) fn set_op_at(tokens: &Vec<Lexeme>, pos: usize) -> (r: Option<SetOp>)
    requires
        pos < tokens.len(),
    ensures
        r == set_op_of(lexeme_views(tokens@)[pos as int]),
{
    if at_keyword(tokens, pos, "UNION") {
        Some(SetOp::Union)
    } else if at_keyword(tokens, pos, "INTERSECT") {
        Some(SetOp::Intersect)
    } else if at_keyword(tokens, pos, "EXCEPT") {
        Some(SetOp::Except)
    } else {
        None
    }
}

/// Finds the first set operation at or after `start`.
pub(crate) fn find_union(tokens: &Vec<Lexeme>, start: usize) -> (r: usize)
    requires
        start <= tokens.len(),
    ensures
        r as int == union_at(lexeme_views(tokens@), start as int),
        start <= r <= tokens.len(),
        r < tokens.len() ==> set_op_of(lexeme_views(tokens@)[r as int]) is Some,
{
    let ghost t = lexeme_views(tokens@);
    let mut i = start;
    while i < tokens.len()
        invariant
            start <= i <= tokens.len(),
            t == lexeme_views(tokens@),
            union_at(t, start as int) == union_at(t, i as int),
        decreases tokens.len() - i,
    {
        if set_op_at(tokens, i).is_some() {
            return i;
        }
        i += 1;
    }
    i
}

/// The query block `s` with the nested blocks `blocks` and the set
/// operation `step`.
pub(crate) fn with_blocks(s: Select, blocks: Vec<Select>, step: Option<SetStep>) -> (q: Select)
    ensures
        q@ == (SelectView { blocks: select_views(blocks@), union_with: step, ..s@ }),
{
    Select {
        distinct: s.distinct,
        items: s.items,
        from: s.from,
        joins: s.joins,
        filter: s.filter,
        group_by: s.group_by,
        having: s.having,
        order_by: s.order_by,
        limit: s.limit,
        offset: s.offset,
        blocks,
        union_with: step,
    }
}

/// What a chain is where a `UNION` stands at `u`.
proof fn chain_unfolds(outer: Seq<LexemeView>, blocks: Seq<SelectView>, u: int, start: int)
    requires
        u == union_at(outer, 0),
        0 <= u < outer.len(),
        start == (if keyword_at(outer, u + 1, "ALL"@) {
            u + 2
        } else {
            u + 1
        }),
    ensures
        chain_of(outer, blocks) == (match flat_select(outer.subrange(0, u)) {
            Err(e) => Err(e),
            Ok(s) => match chain_of(outer.subrange(start, outer.len() as int), blocks) {
                Err(e) => Err(e),
                Ok(next) => Ok(
                    SelectView {
                        blocks: blocks.push(next),
                        union_with: Some(
                            SetStep {
                                op: set_op_of(outer[u])->0,
                                all: keyword_at(outer, u + 1, "ALL"@),
                                block: blocks.len() as usize,
                            },
                        ),
                        ..s
                    },
                ),
            },
        }),
{
    reveal(chain_of);
}

/// What a chain is where no `UNION` stands.
proof fn chain_ends(outer: Seq<LexemeView>, blocks: Seq<SelectView>)
    requires
        union_at(outer, 0) >= outer.len(),
    ensures
        chain_of(outer, blocks) == (match flat_select(outer) {
            Err(e) => Err(e),
            Ok(s) => Ok(SelectView { blocks, ..s }),
        }),
{
    reveal(chain_of);
}

/// Parses the nested blocks once more; they were parsed before.
pub(crate) fn parse_again(bound: usize, inner: &Vec<Vec<Lexeme>>) -> (r: Vec<Select>)
    requires
        forall|k: int| 0 <= k < inner.len() ==> (#[trigger] inner[k]).len() < bound,
        blocks_of(bound as int, lexeme_rows(inner@), 0, Seq::empty()) is Ok,
    ensures
        select_views(r@) == blocks_of(bound as int, lexeme_rows(inner@), 0, Seq::empty())->Ok_0,
    decreases bound, 0int, 1int,
{
    match parse_blocks(bound, inner) {
        Ok(blocks) => blocks,
        Err(_) => Vec::new(),
    }
}

/// Parses a query block whose nested blocks are cut out into `inner`, and
/// the set operations that follow it.
pub(crate) fn parse_chain(outer: &Vec<Lexeme>, inner: &Vec<Vec<Lexeme>>, bound: usize) -> (r:
    Result<Select, SyntaxError>)
    requires
        forall|k: int| 0 <= k < inner.len() ==> (#[trigger] inner[k]).len() < bound,
        blocks_of(bound as int, lexeme_rows(inner@), 0, Seq::empty()) is Ok,
    ensures
        parsed_select(r) == chain_of(
            lexeme_views(outer@),
            blocks_of(bound as int, lexeme_rows(inner@), 0, Seq::empty())->Ok_0,
        ),
    decreases bound, 0int, 2 + outer.len(),
{
    let ghost t = lexeme_views(outer@);
    let ghost read = blocks_of(bound as int, lexeme_rows(inner@), 0, Seq::empty())->Ok_0;
    let u = find_union(outer, 0);
    if u < outer.len() {
        let op = match set_op_at(outer, u) {
            Some(op) => op,
            None => SetOp::Union,
        };
        let all = at_keyword(outer, u + 1, "ALL");
        let start: usize = if all {
            u + 2
        } else {
            u + 1
        };
        proof {
            chain_unfolds(t, read, u as int, start as int);
        }
        let head = copy_range(outer, 0, u);
        let s = match parse_flat(&head) {
            Err(e) => {
                return Err(e);
            },
            Ok(s) => s,
        };
        let rest = copy_range(outer, start, outer.len());
        let next = match parse_chain(&rest, inner, bound) {
            Err(e) => {
                return Err(e);
            },
            Ok(n) => n,
        };
        let mut blocks = parse_again(bound, inner);
        let ghost nv = next@;
        let k = blocks.len();
        blocks.push(next);
        assert(select_views(blocks@) == read.push(nv));
        Ok(with_blocks(s, blocks, Some(SetStep { op, all, block: k })))
    } else {
        proof {
            chain_ends(t, read);
        }
        match parse_flat(outer) {
            Err(e) => Err(e),
            Ok(s) => {
                let blocks = parse_again(bound, inner);
                let step = s.union_with;
                Ok(with_blocks(s, blocks, step))
            },
        }
    }
}

/// Parses a query block from its lexemes.
pub fn parse_select(tokens: &Vec<Lexeme>) -> (r: Result<Select, SyntaxError>)
    ensures
        parsed_select(r) == select_of(lexeme_views(tokens@)),
    decreases tokens.len(), 1int, 0int,
{
    match carve(tokens) {
        Err(e) => Err(e),
        Ok((outer, inner)) => match parse_blocks(tokens.len(), &inner) {
            Err(e) => Err(e),
            Ok(_) => parse_chain(&outer, &inner, tokens.len()),
        },
    }
}

/// Parses a whole expression from its lexemes.
pub fn parse_expression(tokens: &Vec<Lexeme>) -> (r: Result<Expr, SyntaxError>)
    ensures
        parsed_whole(r) == expression_of(lexeme_views(tokens@)),
{
    match parse_expr(tokens, 0, 0) {
        Ok((e, p)) => if p == tokens.len() {
            Ok(e)
        } else {
            Err(miss(tokens, p, Expected::End))
        },
        Err(e) => Err(e),
    }
}

/// Parses a query block from text.
pub fn parse_query(sql: &str) -> (r: Result<Select, ParseError>)
    ensures
        match r {
            Ok(s) => query_of(sql@) == Ok::<SelectView, ParseErrorView>(s@),
            Err(e) => query_of(sql@) == Err::<SelectView, ParseErrorView>(e@),
        },
{
    match tokenize(sql) {
        Err(e) => Err(ParseError::Lex(e)),
        Ok(tokens) => match parse_select(&tokens) {
            Err(e) => Err(ParseError::Syntax(e)),
            Ok(s) => Ok(s),
        },
    }
}

/// Parses a whole expression from text.
pub fn parse_expression_text(sql: &str) -> (r: Result<Expr, ParseError>)
    ensures
        match r {
            Ok(s) => expression_of_text(sql@) == Ok::<ExprView, ParseErrorView>(s@),
            Err(e) => expression_of_text(sql@) == Err::<ExprView, ParseErrorView>(e@),
        },
{
    match tokenize(sql) {
        Err(e) => Err(ParseError::Lex(e)),
        Ok(tokens) => match parse_expression(&tokens) {
            Err(e) => Err(ParseError::Syntax(e)),
            Ok(s) => Ok(s),
        },
    }
}

} // verus!
