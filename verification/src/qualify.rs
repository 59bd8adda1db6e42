//! Column paths made explicit: every path of an expression is rewritten so
//! that each segment before the column names the relationship to traverse.

use vstd::prelude::*;

use crate::ast::{expr_views, join_views, Expr, ExprView, Join, TableRef, TableSource};
use crate::routes::Step;
use crate::schema::{
    explicit_path_resolves, links_sound, step_names, 
    resolve, resolved, schema_ok, steps_within, ReferenceError, ReferenceErrorView, Schema,
    SchemaView,
};
use crate::text::texts;

verus! {

/// The explicit form of the column path `path`, read from the entity `base`:
/// the names of the relationships to traverse, then the column.
pub open spec fn explicit_path(s: SchemaView, base: int, path: Seq<Seq<char>>) -> Result<
    Seq<Seq<char>>,
    ReferenceErrorView,
> {
    match resolved(s, base, path) {
        Ok(t) => Ok(step_names(s, t.steps).push(path.last())),
        Err(e) => Err(e),
    }
}

/// The expression `e` with every column path in its explicit form, read from
/// the entity `base`; the error of the first path that does not resolve.
pub open spec fn qualified(s: SchemaView, base: int, e: ExprView) -> Result<
    ExprView,
    ReferenceErrorView,
>
    decreases e, 0int,
{
    match e {
        ExprView::Column(p) => match explicit_path(s, base, p) {
            Ok(q) => Ok(ExprView::Column(q)),
            Err(x) => Err(x),
        },
        ExprView::Not(a) => match qualified(s, base, *a) {
            Ok(b) => Ok(ExprView::Not(Box::new(b))),
            Err(x) => Err(x),
        },
        ExprView::Negate(a) => match qualified(s, base, *a) {
            Ok(b) => Ok(ExprView::Negate(Box::new(b))),
            Err(x) => Err(x),
        },
        ExprView::IsNull(a, n) => match qualified(s, base, *a) {
            Ok(b) => Ok(ExprView::IsNull(Box::new(b), n)),
            Err(x) => Err(x),
        },
        ExprView::Binary(op, a, b) => match qualified(s, base, *a) {
            Ok(c) => match qualified(s, base, *b) {
                Ok(d) => Ok(ExprView::Binary(op, Box::new(c), Box::new(d))),
                Err(x) => Err(x),
            },
            Err(x) => Err(x),
        },
        ExprView::Call(name, distinct, args) => match qualified_from(
            s,
            base,
            args,
            0,
            Seq::empty(),
        ) {
            Ok(list) => Ok(ExprView::Call(name, distinct, list)),
            Err(x) => Err(x),
        },
        ExprView::Nary(op, args) => match qualified_from(s, base, args, 0, Seq::empty()) {
            Ok(list) => Ok(ExprView::Nary(op, list)),
            Err(x) => Err(x),
        },
        ExprView::Cast(a, t) => match qualified(s, base, *a) {
            Ok(b) => Ok(ExprView::Cast(Box::new(b), t)),
            Err(x) => Err(x),
        },
        _ => Ok(e),
    }
}

/// The expressions of `list` from the `i`-th on with every column path in
/// its explicit form, after those in `acc`.
pub open spec fn qualified_from(
    s: SchemaView,
    base: int,
    list: Seq<ExprView>,
    i: int,
    acc: Seq<ExprView>,
) -> Result<Seq<ExprView>, ReferenceErrorView>
    decreases list, list.len() - i,
{
    if 0 <= i < list.len() {
        match qualified(s, base, list[i]) {
            Ok(x) => qualified_from(s, base, list, i + 1, acc.push(x)),
            Err(x) => Err(x),
        }
    } else {
        Ok(acc)
    }
}

/// Whether every column path of `e` resolves, read from the entity `base`.
pub open spec fn all_resolve(s: SchemaView, base: int, e: ExprView) -> bool
    decreases e,
{
    match e {
        ExprView::Column(p) => resolved(s, base, p) is Ok,
        ExprView::Not(a) => all_resolve(s, base, *a),
        ExprView::Negate(a) => all_resolve(s, base, *a),
        ExprView::IsNull(a, _) => all_resolve(s, base, *a),
        ExprView::Binary(_, a, b) => all_resolve(s, base, *a) && all_resolve(s, base, *b),
        ExprView::Call(_, _, args) => forall|i: int|
            0 <= i < args.len() ==> all_resolve(s, base, #[trigger] args[i]),
        ExprView::Nary(_, args) => forall|i: int|
            0 <= i < args.len() ==> all_resolve(s, base, #[trigger] args[i]),
        ExprView::Cast(a, _) => all_resolve(s, base, *a),
        _ => true,
    }
}

/// A copy of a table source.
pub(crate) fn copy_source(t: &TableSource) -> (r: TableSource)
    ensures
        r@ == t@,
{
    match t {
        TableSource::Named(p) => TableSource::Named(copy_names(p)),
        TableSource::Raw(x) => TableSource::Raw(x.clone()),
        TableSource::Block(k) => TableSource::Block(*k),
    }
}

/// A copy of a list of names.
pub(crate) fn copy_names(names: &Vec<String>) -> (r: Vec<String>)
    ensures
        texts(r@) == texts(names@),
{
    let mut out: Vec<String> = Vec::new();
    let mut i: usize = 0;
    while i < names.len()
        invariant
            i <= names.len(),
            texts(out@) == texts(names@).take(i as int),
        decreases names.len() - i,
    {
        let ghost before = texts(out@);
        out.push(names[i].clone());
        assert(texts(out@) == before.push(names@[i as int]@));
        assert(texts(names@).take(i + 1) == texts(names@).take(i as int).push(names@[i as int]@));
        i += 1;
    }
    assert(texts(names@).take(names.len() as int) == texts(names@));
    out
}

/// A copy of an optional name.
pub(crate) fn copy_alias(a: &Option<String>) -> (r: Option<String>)
    ensures
        crate::ast::opt_text(r) == crate::ast::opt_text(*a),
{
    match a {
        Some(t) => Some(t.clone()),
        None => None,
    }
}

/// A copy of a table reference.
pub(crate) fn copy_table(t: &TableRef) -> (r: TableRef)
    ensures
        r@ == t@,
{
    TableRef { source: copy_source(&t.source), alias: copy_alias(&t.alias) }
}

/// A copy of an expression.
pub(crate) fn copy_expr(e: &Expr) -> (r: Expr)
    ensures
        r@ == e@,
    decreases e, 0int,
{
    match e {
        Expr::Null => Expr::Null,
        Expr::Bool(b) => Expr::Bool(*b),
        Expr::Number(t) => Expr::Number(t.clone()),
        Expr::Text(t) => Expr::Text(t.clone()),
        Expr::Wildcard => Expr::Wildcard,
        Expr::Column(p) => Expr::Column(copy_names(p)),
        Expr::Not(a) => Expr::Not(Box::new(copy_expr(a))),
        Expr::Negate(a) => Expr::Negate(Box::new(copy_expr(a))),
        Expr::IsNull(a, n) => Expr::IsNull(Box::new(copy_expr(a)), *n),
        Expr::Binary(op, a, b) => Expr::Binary(*op, Box::new(copy_expr(a)), Box::new(copy_expr(b))),
        Expr::Call(name, distinct, args) => {
            assert(decreases_to!(*e => (*e)->Call_2));
            Expr::Call(name.clone(), *distinct, copy_list(args))
        },
        Expr::Nary(op, args) => {
            assert(decreases_to!(*e => (*e)->Nary_1));
            Expr::Nary(*op, copy_list(args))
        },
        Expr::Cast(a, t) => Expr::Cast(Box::new(copy_expr(a)), t.clone()),
        Expr::Subquery(k) => Expr::Subquery(*k),
        Expr::Summary { call, table, joins, on } => {
            let mut out: Vec<Join> = Vec::new();
            let mut i: usize = 0;
            while i < joins.len()
                invariant
                    i <= joins.len(),
                    out.len() == i,
                    e == (Expr::Summary { call: *call, table: *table, joins: *joins, on: *on }),
                    forall|k: int| 0 <= k < i ==> (#[trigger] out@[k])@ == joins@[k]@,
                decreases joins.len() - i,
            {
                assert(decreases_to!(*e => (*e)->joins) && decreases_to!(*joins => joins@)
                    && decreases_to!(joins@ => joins@[i as int]) && decreases_to!(joins@[i as int] => joins@[i as int].on));
                let on = copy_expr(&joins[i].on);
                out.push(Join { kind: joins[i].kind, table: copy_table(&joins[i].table), on });
                i += 1;
            }
            assert(join_views(out@) == join_views(joins@));
            Expr::Summary {
                call: Box::new(copy_expr(call)),
                table: copy_table(table),
                joins: out,
                on: Box::new(copy_expr(on)),
            }
        },
    }
}

/// A copy of a list of expressions.
pub(crate) fn copy_list(list: &Vec<Expr>) -> (r: Vec<Expr>)
    ensures
        expr_views(r@) == expr_views(list@),
    decreases list, 1int,
{
    let mut out: Vec<Expr> = Vec::new();
    let mut i: usize = 0;
    while i < list.len()
        invariant
            i <= list.len(),
            out.len() == i,
            forall|k: int| 0 <= k < i ==> (#[trigger] out@[k])@ == list@[k]@,
        decreases list.len() - i,
    {
        assert(decreases_to!(*list => list@) && decreases_to!(list@ => list@[i as int]));
        let x = copy_expr(&list[i]);
        out.push(x);
        i += 1;
    }
    assert(expr_views(out@) == expr_views(list@));
    out
}

/// The names of the relationships that `steps` traverse, then `column`.
pub(crate) fn name_steps(schema: &Schema, steps: &Vec<Step>, column: &String) -> (r: Vec<String>)
    requires
        schema_ok(schema@),
        steps_within(schema@, steps@),
    ensures
        texts(r@) == step_names(schema@, steps@).push(column@),
{
    let mut out: Vec<String> = Vec::new();
    let mut k: usize = 0;
    while k < steps.len()
        invariant
            k <= steps.len(),
            schema_ok(schema@),
            steps_within(schema@, steps@),
            texts(out@) == step_names(schema@, steps@).take(k as int),
        decreases steps.len() - k,
    {
        let ghost before = texts(out@);
        let ghost name = schema@.link_names[steps@[k as int].edge as int];
        assert(steps@[k as int].edge < schema.link_names.len());
        out.push(schema.link_names[steps[k].edge].clone());
        assert(texts(out@) == before.push(name));
        assert(step_names(schema@, steps@).take(k + 1) == step_names(schema@, steps@).take(
            k as int,
        ).push(name));
        k += 1;
    }
    assert(step_names(schema@, steps@).take(steps.len() as int) == step_names(schema@, steps@));
    let ghost before = texts(out@);
    out.push(column.clone());
    assert(texts(out@) == before.push(column@));
    out
}

/// Rewrites every column path of `e` into its explicit form, read from the
/// entity `base`.
pub fn qualify(schema: &Schema, base: usize, e: &Expr) -> (r: Result<Expr, ReferenceError>)
    requires
        schema_ok(schema@),
        links_sound(schema@),
        base < schema.table_names.len(),
    ensures
        match r {
            Ok(q) => qualified(schema@, base as int, e@) == Ok::<ExprView, ReferenceErrorView>(q@)
                && all_resolve(schema@, base as int, q@),
            Err(x) => qualified(schema@, base as int, e@) == Err::<ExprView, ReferenceErrorView>(
                x@,
            ),
        },
    decreases e, 0int,
{
    match e {
        Expr::Column(p) => {
            if p.len() == 0 {
                match resolve(schema, base, p) {
                    Ok(t) => Ok(copy_expr(e)),
                    Err(x) => Err(x),
                }
            } else {
                match resolve(schema, base, p) {
                    Ok(t) => {
                        assert(texts(p@).last() == p@[p.len() - 1]@);
                        proof {
                            explicit_path_resolves(schema@, base as int, texts(p@));
                        }
                        Ok(Expr::Column(name_steps(schema, &t.steps, &p[p.len() - 1])))
                    },
                    Err(x) => Err(x),
                }
            }
        },
        Expr::Not(a) => match qualify(schema, base, a) {
            Ok(b) => Ok(Expr::Not(Box::new(b))),
            Err(x) => Err(x),
        },
        Expr::Negate(a) => match qualify(schema, base, a) {
            Ok(b) => Ok(Expr::Negate(Box::new(b))),
            Err(x) => Err(x),
        },
        Expr::IsNull(a, n) => match qualify(schema, base, a) {
            Ok(b) => Ok(Expr::IsNull(Box::new(b), *n)),
            Err(x) => Err(x),
        },
        Expr::Binary(op, a, b) => match qualify(schema, base, a) {
            Ok(c) => match qualify(schema, base, b) {
                Ok(d) => Ok(Expr::Binary(*op, Box::new(c), Box::new(d))),
                Err(x) => Err(x),
            },
            Err(x) => Err(x),
        },
        Expr::Call(name, distinct, args) => {
            assert(decreases_to!(*e => (*e)->Call_2));
            match qualify_list(schema, base, args) {
                Ok(out) => Ok(Expr::Call(name.clone(), *distinct, out)),
                Err(x) => Err(x),
            }
        },
        Expr::Nary(op, args) => {
            assert(decreases_to!(*e => (*e)->Nary_1));
            match qualify_list(schema, base, args) {
                Ok(out) => Ok(Expr::Nary(*op, out)),
                Err(x) => Err(x),
            }
        },
        Expr::Cast(a, t) => match qualify(schema, base, a) {
            Ok(b) => Ok(Expr::Cast(Box::new(b), t.clone())),
            Err(x) => Err(x),
        },
        _ => Ok(copy_expr(e)),
    }
}

/// Rewrites every column path of the expressions of `list` into its
/// explicit form.
pub(crate) fn qualify_list(schema: &Schema, base: usize, list: &Vec<Expr>) -> (r: Result<
    Vec<Expr>,
    ReferenceError,
>)
    requires
        schema_ok(schema@),
        links_sound(schema@),
        base < schema.table_names.len(),
    ensures
        match r {
            Ok(q) => qualified_from(schema@, base as int, expr_views(list@), 0, Seq::empty())
                == Ok::<Seq<ExprView>, ReferenceErrorView>(expr_views(q@)) && forall|k: int|
                0 <= k < q.len() ==> all_resolve(schema@, base as int, #[trigger] expr_views(q@)[k]),
            Err(x) => qualified_from(schema@, base as int, expr_views(list@), 0, Seq::empty())
                == Err::<Seq<ExprView>, ReferenceErrorView>(x@),
        },
    decreases list, 1int,
{
    let ghost v = expr_views(list@);
    let mut out: Vec<Expr> = Vec::new();
    let mut i: usize = 0;
    assert(expr_views(out@) == Seq::<ExprView>::empty());
    while i < list.len()
        invariant
            i <= list.len(),
            schema_ok(schema@),
            links_sound(schema@),
            base < schema.table_names.len(),
            v == expr_views(list@),
            forall|k: int|
                0 <= k < out.len() ==> all_resolve(
                    schema@,
                    base as int,
                    #[trigger] expr_views(out@)[k],
                ),
            qualified_from(schema@, base as int, v, 0, Seq::empty()) == qualified_from(
                schema@,
                base as int,
                v,
                i as int,
                expr_views(out@),
            ),
        decreases list.len() - i,
    {
        assert(decreases_to!(*list => list@) && decreases_to!(list@ => list@[i as int]));
        match qualify(schema, base, &list[i]) {
            Ok(x) => {
                let ghost before = expr_views(out@);
                let ghost xv = x@;
                out.push(x);
                assert(expr_views(out@) == before.push(xv));
            },
            Err(x) => {
                return Err(x);
            },
        }
        i += 1;
    }
    Ok(out)
}

} // verus!
