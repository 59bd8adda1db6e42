//! Rendering of a whole query block: the clauses in order, and pagination in
//! the form that the dialect has.

use vstd::prelude::*;
use vstd::string::*;

use crate::ast::{SetOp, SetStep, expr_views, join_views, select_views, 
    opt_expr_view, Expr, ExprView, OrderItem, OrderItemView, Select, SelectItem, SelectItemView,
    SelectView,
};
use crate::dialect::Dialect;
use crate::text::texts;
use crate::query::{item_views, key_views};
use crate::render::{
    cannot, put, put_quoted, put_table, quoted, render_expr, render_joins, render_list,
    rendered_expr, rendered_joins, rendered_list, rendered_table, unsupported, RenderError,
    RenderErrorView,
};

verus! {

/// `acc` followed by the select items of `items` from the `i`-th on.
pub open spec fn rendered_items(d: Dialect, subs: Seq<Seq<char>>,
    items: Seq<SelectItemView>,
    i: int,
    acc: Seq<char>,
) -> Result<Seq<char>, RenderErrorView>
    decreases items.len() - i,
{
    if 0 <= i < items.len() {
        let start = if i > 0 {
            acc + ", "@
        } else {
            acc
        };
        match rendered_expr(d, subs, items[i].expr, start) {
            Err(x) => Err(x),
            Ok(t) => match items[i].alias {
                Some(a) => rendered_items(d, subs, items, i + 1, quoted(d, a, t + " AS "@)),
                None => rendered_items(d, subs, items, i + 1, t),
            },
        }
    } else {
        Ok(acc)
    }
}

/// `acc` followed by the sort keys of `keys` from the `i`-th on.
pub open spec fn rendered_keys(d: Dialect, subs: Seq<Seq<char>>, keys: Seq<OrderItemView>, i: int, acc: Seq<char>) -> Result<
    Seq<char>,
    RenderErrorView,
>
    decreases keys.len() - i,
{
    if 0 <= i < keys.len() {
        let start = if i > 0 {
            acc + ", "@
        } else {
            acc
        };
        match rendered_expr(d, subs, keys[i].expr, start) {
            Err(x) => Err(x),
            Ok(t) => if keys[i].descending {
                rendered_keys(d, subs, keys, i + 1, t + " DESC"@)
            } else {
                rendered_keys(d, subs, keys, i + 1, t)
            },
        }
    } else {
        Ok(acc)
    }
}

/// `acc` followed by the clause `kw e`, if there is an `e`.
pub open spec fn rendered_clause(d: Dialect, subs: Seq<Seq<char>>, kw: Seq<char>, e: Option<ExprView>, acc: Seq<char>) -> Result<
    Seq<char>,
    RenderErrorView,
> {
    match e {
        Some(x) => rendered_expr(d, subs, x, acc + kw),
        None => Ok(acc),
    }
}

/// Whether the dialect writes a row limit without an offset as `TOP`.
pub open spec fn uses_top(d: Dialect, q: SelectView) -> bool {
    d == Dialect::MSSQL && q.limit is Some && q.offset is None
}

/// `acc` followed by the head of the query block.
pub open spec fn rendered_head(d: Dialect, q: SelectView, acc: Seq<char>) -> Seq<char> {
    let start = if q.distinct {
        acc + "SELECT DISTINCT "@
    } else {
        acc + "SELECT "@
    };
    if uses_top(d, q) {
        start + "TOP "@ + q.limit->0 + " "@
    } else {
        start
    }
}

/// `acc` followed by the pagination of the query block, in the form of the
/// dialect.
pub open spec fn rendered_paging(d: Dialect, q: SelectView, acc: Seq<char>) -> Result<
    Seq<char>,
    RenderErrorView,
> {
    match d {
        Dialect::MSSQL => match q.offset {
            None => Ok(acc),
            Some(m) => if q.order_by.len() == 0 {
                Err(cannot(d, "OFFSET without ORDER BY"@))
            } else {
                match q.limit {
                    Some(n) => Ok(
                        acc + " OFFSET "@ + m + " ROWS"@ + " FETCH NEXT "@ + n + " ROWS ONLY"@,
                    ),
                    None => Ok(acc + " OFFSET "@ + m + " ROWS"@),
                }
            },
        },
        Dialect::Oracle => {
            let t = match q.offset {
                Some(m) => acc + " OFFSET "@ + m + " ROWS"@,
                None => acc,
            };
            match q.limit {
                Some(n) => Ok(t + " FETCH NEXT "@ + n + " ROWS ONLY"@),
                None => Ok(t),
            }
        },
        _ => if q.offset is Some && q.limit is None && (d == Dialect::MySQL || d
            == Dialect::BigQuery) {
            Err(cannot(d, "OFFSET without LIMIT"@))
        } else {
            let t = match q.limit {
                Some(n) => acc + " LIMIT "@ + n,
                None => acc,
            };
            match q.offset {
                Some(m) => Ok(t + " OFFSET "@ + m),
                None => Ok(t),
            }
        },
    }
}

/// The texts of the blocks of `blocks` from the `i`-th on, after those in
/// `acc`.
pub open spec fn rendered_blocks(
    d: Dialect,
    blocks: Seq<SelectView>,
    i: int,
    acc: Seq<Seq<char>>,
) -> Result<Seq<Seq<char>>, RenderErrorView>
    decreases blocks, blocks.len() - i,
{
    if 0 <= i < blocks.len() {
        match rendered_select(d, blocks[i], Seq::empty()) {
            Ok(t) => rendered_blocks(d, blocks, i + 1, acc.push(t)),
            Err(x) => Err(x),
        }
    } else {
        Ok(acc)
    }
}

/// `acc` followed by the query block `q` in the dialect `d`: its nested
/// blocks are rendered first, each on its own, and stand in parentheses
/// where the block refers to them.
pub open spec fn rendered_select(d: Dialect, q: SelectView, acc: Seq<char>) -> Result<
    Seq<char>,
    RenderErrorView,
>
    decreases q, 0int,
{
    match rendered_blocks(d, q.blocks, 0, Seq::empty()) {
        Err(x) => Err(x),
        Ok(subs) => rendered_body(d, subs, q, acc),
    }
}

/// The keyword of a set operation.
pub open spec fn set_word(op: SetOp) -> Seq<char> {
    match op {
        SetOp::Union => " UNION "@,
        SetOp::Intersect => " INTERSECT "@,
        SetOp::Except => " EXCEPT "@,
    }
}

/// `acc` followed by the set operation `u`: its keyword, `ALL` where it has
/// it, and the text of the other side as it is.
pub open spec fn rendered_union(
    d: Dialect,
    subs: Seq<Seq<char>>,
    u: Option<SetStep>,
    acc: Seq<char>,
) -> Result<Seq<char>, RenderErrorView> {
    match u {
        None => Ok(acc),
        Some(s) => if s.block < subs.len() {
            Ok(
                acc + set_word(s.op) + (if s.all {
                    "ALL "@
                } else {
                    ""@
                }) + subs[s.block as int],
            )
        } else {
            Err(cannot(d, "set operation"@))
        },
    }
}

/// `acc` followed by the clauses of the query block `q`, with the texts
/// `subs` of its nested blocks, and by the set operation that follows it.
pub open spec fn rendered_body(
    d: Dialect,
    subs: Seq<Seq<char>>,
    q: SelectView,
    acc: Seq<char>,
) -> Result<Seq<char>, RenderErrorView> {
    match rendered_items(d, subs, q.items, 0, rendered_head(d, q, acc)) {
        Err(x) => Err(x),
        Ok(t1) => match rendered_joins(d, subs, q.joins, 0, rendered_table(d, subs, q.from, t1 + " FROM "@)) {
            Err(x) => Err(x),
            Ok(t2) => match rendered_clause(d, subs, " WHERE "@, q.filter, t2) {
                Err(x) => Err(x),
                Ok(t3) => match (if q.group_by.len() == 0 {
                    Ok(t3)
                } else {
                    rendered_list(d, subs, 0, q.group_by, 0, t3 + " GROUP BY "@)
                }) {
                    Err(x) => Err(x),
                    Ok(t4) => match rendered_clause(d, subs, " HAVING "@, q.having, t4) {
                        Err(x) => Err(x),
                        Ok(t5) => match (if q.order_by.len() == 0 {
                            Ok(t5)
                        } else {
                            rendered_keys(d, subs, q.order_by, 0, t5 + " ORDER BY "@)
                        }) {
                            Err(x) => Err(x),
                            Ok(t6) => match rendered_paging(d, q, t6) {
                                Err(x) => Err(x),
                                Ok(t7) => rendered_union(d, subs, q.union_with, t7),
                            },
                        },
                    },
                },
            },
        },
    }
}

/// The text of the query block `q` in the dialect `d`.
pub open spec fn rendered(d: Dialect, q: SelectView) -> Result<Seq<char>, RenderErrorView> {
    rendered_select(d, q, Seq::empty())
}

/// Appends the select items of `items`.
pub(crate) fn render_items(d: Dialect, subs: &Vec<String>, out: &mut String, items: &Vec<SelectItem>) -> (r: Result<
    (),
    RenderError,
>)
    ensures
        match r {
            Ok(_) => rendered_items(d, texts(subs@), item_views(items@), 0, old(out)@) == Ok::<
                Seq<char>,
                RenderErrorView,
            >(final(out)@),
            Err(x) => rendered_items(d, texts(subs@), item_views(items@), 0, old(out)@) == Err::<
                Seq<char>,
                RenderErrorView,
            >(x@),
        },
{
    let ghost v = item_views(items@);
    let ghost start = out@;
    let mut i: usize = 0;
    while i < items.len()
        invariant
            i <= items.len(),
            v == item_views(items@),
            start == old(out)@,
            rendered_items(d, texts(subs@), v, 0, start) == rendered_items(d, texts(subs@), v, i as int, out@),
        decreases items.len() - i,
    {
        assert(v[i as int] == items@[i as int]@);
        if i > 0 {
            put(out, ", ");
        }
        match render_expr(d, subs, out, &items[i].expr) {
            Ok(_) => {},
            Err(x) => {
                return Err(x);
            },
        }
        match &items[i].alias {
            Some(a) => {
                put(out, " AS ");
                put_quoted(d, out, a.as_str());
            },
            None => {},
        }
        i += 1;
    }
    Ok(())
}

/// Appends the sort keys of `keys`.
pub(crate) fn render_keys(d: Dialect, subs: &Vec<String>, out: &mut String, keys: &Vec<OrderItem>) -> (r: Result<
    (),
    RenderError,
>)
    ensures
        match r {
            Ok(_) => rendered_keys(d, texts(subs@), key_views(keys@), 0, old(out)@) == Ok::<
                Seq<char>,
                RenderErrorView,
            >(final(out)@),
            Err(x) => rendered_keys(d, texts(subs@), key_views(keys@), 0, old(out)@) == Err::<
                Seq<char>,
                RenderErrorView,
            >(x@),
        },
{
    let ghost v = key_views(keys@);
    let ghost start = out@;
    let mut i: usize = 0;
    while i < keys.len()
        invariant
            i <= keys.len(),
            v == key_views(keys@),
            start == old(out)@,
            rendered_keys(d, texts(subs@), v, 0, start) == rendered_keys(d, texts(subs@), v, i as int, out@),
        decreases keys.len() - i,
    {
        assert(v[i as int] == keys@[i as int]@);
        if i > 0 {
            put(out, ", ");
        }
        match render_expr(d, subs, out, &keys[i].expr) {
            Ok(_) => {},
            Err(x) => {
                return Err(x);
            },
        }
        if keys[i].descending {
            put(out, " DESC");
        }
        i += 1;
    }
    Ok(())
}

/// Appends the clause `kw e`, if there is an `e`.
pub(crate) fn render_clause(d: Dialect, subs: &Vec<String>, out: &mut String, kw: &str, e: &Option<Expr>) -> (r: Result<
    (),
    RenderError,
>)
    ensures
        match r {
            Ok(_) => rendered_clause(d, texts(subs@), kw@, opt_expr_view(*e), old(out)@) == Ok::<
                Seq<char>,
                RenderErrorView,
            >(final(out)@),
            Err(x) => rendered_clause(d, texts(subs@), kw@, opt_expr_view(*e), old(out)@) == Err::<
                Seq<char>,
                RenderErrorView,
            >(x@),
        },
{
    match e {
        Some(x) => {
            put(out, kw);
            render_expr(d, subs, out, x)
        },
        None => Ok(()),
    }
}

/// Appends the pagination of the query block.
pub(crate) fn render_paging(d: Dialect, out: &mut String, q: &Select) -> (r: Result<(), RenderError>)
    ensures
        match r {
            Ok(_) => rendered_paging(d, q@, old(out)@) == Ok::<Seq<char>, RenderErrorView>(
                final(out)@,
            ),
            Err(x) => rendered_paging(d, q@, old(out)@) == Err::<Seq<char>, RenderErrorView>(x@),
        },
{
    assert(q@.order_by.len() == q.order_by.len());
    match d {
        Dialect::MSSQL => match &q.offset {
            None => Ok(()),
            Some(m) => {
                if q.order_by.len() == 0 {
                    return Err(unsupported(d, "OFFSET without ORDER BY"));
                }
                put(out, " OFFSET ");
                put(out, m.as_str());
                put(out, " ROWS");
                match &q.limit {
                    Some(n) => {
                        put(out, " FETCH NEXT ");
                        put(out, n.as_str());
                        put(out, " ROWS ONLY");
                    },
                    None => {},
                }
                Ok(())
            },
        },
        Dialect::Oracle => {
            match &q.offset {
                Some(m) => {
                    put(out, " OFFSET ");
                    put(out, m.as_str());
                    put(out, " ROWS");
                },
                None => {},
            }
            match &q.limit {
                Some(n) => {
                    put(out, " FETCH NEXT ");
                    put(out, n.as_str());
                    put(out, " ROWS ONLY");
                },
                None => {},
            }
            Ok(())
        },
        _ => {
            if q.offset.is_some() && q.limit.is_none() && (d == Dialect::MySQL || d
                == Dialect::BigQuery) {
                return Err(unsupported(d, "OFFSET without LIMIT"));
            }
            match &q.limit {
                Some(n) => {
                    put(out, " LIMIT ");
                    put(out, n.as_str());
                },
                None => {},
            }
            match &q.offset {
                Some(m) => {
                    put(out, " OFFSET ");
                    put(out, m.as_str());
                },
                None => {},
            }
            Ok(())
        },
    }
}

/// Appends the query block `q` in the dialect `d`.
pub(crate) fn render_select(d: Dialect, out: &mut String, q: &Select) -> (r: Result<(), RenderError>)
    ensures
        match r {
            Ok(_) => rendered_select(d, q@, old(out)@) == Ok::<Seq<char>, RenderErrorView>(
                final(out)@,
            ),
            Err(x) => rendered_select(d, q@, old(out)@) == Err::<Seq<char>, RenderErrorView>(x@),
        },
    decreases q,
{
    let mut texts_of_blocks: Vec<String> = Vec::new();
    let ghost blocks = select_views(q.blocks@);
    assert(q@.blocks == blocks);
    assert(texts(texts_of_blocks@) == Seq::<Seq<char>>::empty());
    let mut k: usize = 0;
    while k < q.blocks.len()
        invariant
            k <= q.blocks.len(),
            blocks == select_views(q.blocks@),
            out@ == old(out)@,
            rendered_blocks(d, blocks, 0, Seq::empty()) == rendered_blocks(
                d,
                blocks,
                k as int,
                texts(texts_of_blocks@),
            ),
        decreases q.blocks.len() - k,
    {
        assert(decreases_to!(*q => q.blocks) && decreases_to!(q.blocks => q.blocks@)
            && decreases_to!(q.blocks@ => q.blocks@[k as int]));
        assert(blocks[k as int] == q.blocks@[k as int]@);
        let mut text = String::new();
        match render_select(d, &mut text, &q.blocks[k]) {
            Ok(_) => {
                let ghost before = texts(texts_of_blocks@);
                let ghost tv = text@;
                texts_of_blocks.push(text);
                assert(texts(texts_of_blocks@) == before.push(tv));
            },
            Err(x) => {
                return Err(x);
            },
        }
        k += 1;
    }
    let subs = &texts_of_blocks;
    assert(q@.items == item_views(q.items@));
    assert(q@.order_by == key_views(q.order_by@));
    if q.distinct {
        put(out, "SELECT DISTINCT ");
    } else {
        put(out, "SELECT ");
    }
    if d == Dialect::MSSQL && q.offset.is_none() {
        match &q.limit {
            Some(n) => {
                put(out, "TOP ");
                put(out, n.as_str());
                put(out, " ");
            },
            None => {},
        }
    }
    assert(out@ == rendered_head(d, q@, old(out)@));
    assert(q@.joins == join_views(q.joins@));
    assert(q@.group_by == expr_views(q.group_by@));
    match render_items(d, subs, out, &q.items) {
        Ok(_) => {},
        Err(x) => {
            return Err(x);
        },
    }
    put(out, " FROM ");
    put_table(d, subs, out, &q.from);
    match render_joins(d, subs, out, &q.joins) {
        Ok(_) => {},
        Err(x) => {
            return Err(x);
        },
    }
    match render_clause(d, subs, out, " WHERE ", &q.filter) {
        Ok(_) => {},
        Err(x) => {
            return Err(x);
        },
    }
    if q.group_by.len() > 0 {
        put(out, " GROUP BY ");
        match render_list(d, subs, 0, out, &q.group_by) {
            Ok(_) => {},
            Err(x) => {
                return Err(x);
            },
        }
    }
    match render_clause(d, subs, out, " HAVING ", &q.having) {
        Ok(_) => {},
        Err(x) => {
            return Err(x);
        },
    }
    if q.order_by.len() > 0 {
        put(out, " ORDER BY ");
        match render_keys(d, subs, out, &q.order_by) {
            Ok(_) => {},
            Err(x) => {
                return Err(x);
            },
        }
    }
    match render_paging(d, out, q) {
        Ok(_) => {},
        Err(x) => {
            return Err(x);
        },
    }
    match q.union_with {
        None => Ok(()),
        Some(s) => if s.block < subs.len() {
            match s.op {
                SetOp::Union => put(out, " UNION "),
                SetOp::Intersect => put(out, " INTERSECT "),
                SetOp::Except => put(out, " EXCEPT "),
            }
            if s.all {
                put(out, "ALL ");
            } else {
                put(out, "");
            }
            assert(texts(subs@)[s.block as int] == subs@[s.block as int]@);
            put(out, subs[s.block].as_str());
            Ok(())
        } else {
            Err(RenderError { construct: String::from_str("set operation"), dialect: d })
        },
    }
}

/// Renders the query block `q` in the dialect `d`.
pub fn render(d: Dialect, q: &Select) -> (r: Result<String, RenderError>)
    ensures
        match r {
            Ok(t) => rendered(d, q@) == Ok::<Seq<char>, RenderErrorView>(t@),
            Err(x) => rendered(d, q@) == Err::<Seq<char>, RenderErrorView>(x@),
        },
{
    let mut out = String::new();
    match render_select(d, &mut out, q) {
        Ok(_) => Ok(out),
        Err(x) => Err(x),
    }
}

} // verus!
