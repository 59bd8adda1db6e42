//! Expansion of expressions over the virtual schema into expressions over
//! physical tables: column paths become columns of joined tables, derived
//! columns are replaced by their definitions, and an aggregate of a derived
//! column is computed in a scalar subquery of its own so that it cannot
//! multiply the rows of the query around it.

use vstd::prelude::*;

use crate::ast::{expr_views, join_views, Expr, ExprView, Join, JoinView};
use crate::functions::{
    find_function, function_kind, signature_views, FunctionKind, FunctionSignature,
    FunctionSignatureView,
};
use crate::joins::{
    join_alias, join_for, joined_alias, make_join, reference_failure, classify, walk, walked,
    BindError, BindErrorView, ExpandError, ExpandErrorView, RewriteError, RewriteErrorView,
};
use crate::model::{AnalyzedManifest, AnalyzedView, Definition, DefinitionView};
use crate::routes::Step;
use crate::schema::{resolve, resolve_from, resolved, resolved_from, schema_ok, Schema, SchemaView};
use crate::text::{same_text, texts};

verus! {

/// Where an expression is read: which entity its column paths start from,
/// and which table alias stands for that entity's rows.
#[derive(Debug, PartialEq, Eq)]
pub struct Scope {
    /// The entity that column paths are read from.
    pub base: usize,
    /// The alias of the table that paths are walked from.
    pub alias: String,
    /// Inside an aggregate of a derived column: the step that every path
    /// starts with, which leads to the table of the subquery.
    pub skip: Option<Step>,
    /// The name by which the query calls the table of its `FROM` clause.
    pub aliased: Option<String>,
    /// Whether the expression belongs to the definition of a derived column.
    pub inner: bool,
    /// Whether the expression stands inside an aggregate of a derived column.
    pub summed: bool,
}

pub struct ScopeView {
    pub base: int,
    pub alias: Seq<char>,
    pub skip: Option<Step>,
    pub aliased: Option<Seq<char>>,
    pub inner: bool,
    pub summed: bool,
}

impl View for Scope {
    type V = ScopeView;

    open spec fn view(&self) -> ScopeView {
        ScopeView {
            base: self.base as int,
            alias: self.alias@,
            skip: self.skip,
            aliased: crate::ast::opt_text(self.aliased),
            inner: self.inner,
            summed: self.summed,
        }
    }
}

/// The first step of the first column path of `e`, read in order, that
/// leaves the entity `base`.
pub open spec fn leading(s: SchemaView, base: int, e: ExprView) -> Option<Step>
    decreases e, 0int,
{
    match e {
        ExprView::Column(p) => match resolved(s, base, p) {
            Ok(t) => if t.steps.len() > 0 {
                Some(t.steps[0])
            } else {
                None
            },
            Err(_) => None,
        },
        ExprView::Not(a) => leading(s, base, *a),
        ExprView::Negate(a) => leading(s, base, *a),
        ExprView::IsNull(a, _) => leading(s, base, *a),
        ExprView::Binary(_, a, b) => match leading(s, base, *a) {
            Some(x) => Some(x),
            None => leading(s, base, *b),
        },
        ExprView::Call(_, _, args) => leading_from(s, base, args, 0),
        ExprView::Nary(_, args) => leading_from(s, base, args, 0),
        ExprView::Cast(a, _) => leading(s, base, *a),
        _ => None,
    }
}

/// The first step of the first column path of the expressions of `list`
/// from the `i`-th on that leaves the entity `base`.
pub open spec fn leading_from(s: SchemaView, base: int, list: Seq<ExprView>, i: int) -> Option<Step>
    decreases list, list.len() - i,
{
    if 0 <= i < list.len() {
        match leading(s, base, list[i]) {
            Some(x) => Some(x),
            None => leading_from(s, base, list, i + 1),
        }
    } else {
        None
    }
}

/// How many leading segments of `p` only name the table of the `FROM`
/// clause, which the query calls `aliased`.
pub open spec fn qualifier_len(aliased: Option<Seq<char>>, p: Seq<Seq<char>>) -> int {
    match aliased {
        Some(al) => if p.len() >= 2 && p[0] == al {
            1
        } else {
            0
        },
        None => 0,
    }
}

/// The error of an aggregate that mixes columns of different origin.
pub open spec fn mixed() -> RewriteErrorView {
    RewriteErrorView::Expand(ExpandErrorView::MixedSummary)
}

/// The expression `e` of the scope `sc` over physical tables, and the joins
/// of the enclosing query block after those that `e` needs were added to
/// `joins`.
///
/// A column path is resolved and walked; the column it ends at is the
/// physical column behind it, or the expansion of its definition. A call
/// must name a known function. An aggregate in the definition of a derived
/// column whose arguments leave the entity becomes a scalar subquery over
/// the table that the first step leads to; all its column paths must start
/// with that step. `fuel` bounds how deep definitions nest.
pub open spec fn expanded(
    a: AnalyzedView,
    supplied: Seq<FunctionSignatureView>,
    sc: ScopeView,
    fuel: nat,
    joins: Seq<JoinView>,
    e: ExprView,
) -> Result<(ExprView, Seq<JoinView>), RewriteErrorView>
    decreases fuel, e, 0int,
{
    match e {
        ExprView::Null | ExprView::Bool(_) | ExprView::Number(_) | ExprView::Text(_)
        | ExprView::Wildcard | ExprView::Subquery(_) => Ok((e, joins)),
        ExprView::Nary(op, args) => match expanded_from(
            a,
            supplied,
            sc,
            fuel,
            joins,
            args,
            0,
            Seq::empty(),
        ) {
            Ok((list, j)) => Ok((ExprView::Nary(op, list), j)),
            Err(x) => Err(x),
        },
        ExprView::Cast(x, t) => match expanded(a, supplied, sc, fuel, joins, *x) {
            Ok((y, j)) => Ok((ExprView::Cast(Box::new(y), t), j)),
            Err(x) => Err(x),
        },
        ExprView::Column(p) => match resolved_from(a.schema, sc.base, p, qualifier_len(sc.aliased, p)) {
            Err(x) => Err(reference_failure(x)),
            Ok(t) => {
                let from: int = match sc.skip {
                    None => 0,
                    Some(s) => if t.steps.len() > 0 && t.steps[0] == s {
                        1
                    } else {
                        -1
                    },
                };
                if from < 0 {
                    Err(mixed())
                } else {
                    match walked(a, sc.alias, t.steps, from, sc.summed, joins) {
                        Err(x) => Err(x),
                        Ok((alias, joined)) => match a.definitions[t.table][t.field] {
                            DefinitionView::Physical(ph) => Ok(
                                (ExprView::Column(seq![alias, ph]), joined),
                            ),
                            DefinitionView::Derived(d) => if fuel == 0 {
                                Err(RewriteErrorView::Expand(ExpandErrorView::TooDeep))
                            } else {
                                expanded(
                                    a,
                                    supplied,
                                    ScopeView {
                                        base: t.table,
                                        alias,
                                        skip: None,
                                        aliased: None,
                                        inner: true,
                                        summed: sc.summed,
                                    },
                                    (fuel - 1) as nat,
                                    joined,
                                    d,
                                )
                            },
                        },
                    }
                }
            },
        },
        ExprView::Not(x) => match expanded(a, supplied, sc, fuel, joins, *x) {
            Ok((y, j)) => Ok((ExprView::Not(Box::new(y)), j)),
            Err(x) => Err(x),
        },
        ExprView::Negate(x) => match expanded(a, supplied, sc, fuel, joins, *x) {
            Ok((y, j)) => Ok((ExprView::Negate(Box::new(y)), j)),
            Err(x) => Err(x),
        },
        ExprView::IsNull(x, n) => match expanded(a, supplied, sc, fuel, joins, *x) {
            Ok((y, j)) => Ok((ExprView::IsNull(Box::new(y), n), j)),
            Err(x) => Err(x),
        },
        ExprView::Binary(op, x, y) => match expanded(a, supplied, sc, fuel, joins, *x) {
            Ok((x2, j)) => match expanded(a, supplied, sc, fuel, j, *y) {
                Ok((y2, j2)) => Ok((ExprView::Binary(op, Box::new(x2), Box::new(y2)), j2)),
                Err(x) => Err(x),
            },
            Err(x) => Err(x),
        },
        ExprView::Call(name, distinct, args) => match function_kind(supplied, name) {
            None => Err(RewriteErrorView::Bind(BindErrorView::UnknownFunction(name))),
            Some(kind) => {
                let lead = if kind == FunctionKind::Aggregate && sc.inner && sc.skip is None {
                    leading_from(a.schema, sc.base, args, 0)
                } else {
                    None
                };
                match lead {
                    Some(s) => {
                        let inner_alias = joined_alias(
                            sc.alias,
                            a.schema.link_names[s.edge as int],
                        );
                        let inner = ScopeView {
                            base: sc.base,
                            alias: inner_alias,
                            skip: Some(s),
                            aliased: None,
                            inner: true,
                            summed: true,
                        };
                        match expanded_from(
                            a,
                            supplied,
                            inner,
                            fuel,
                            Seq::empty(),
                            args,
                            0,
                            Seq::empty(),
                        ) {
                            Err(x) => Err(x),
                            Ok((args2, inner_joins)) => match join_for(
                                a,
                                s,
                                sc.alias,
                                inner_alias,
                            ) {
                                Err(x) => Err(x),
                                Ok(j) => Ok(
                                    (
                                        ExprView::Summary {
                                            call: Box::new(ExprView::Call(name, distinct, args2)),
                                            table: j.table,
                                            joins: inner_joins,
                                            on: Box::new(j.on),
                                        },
                                        joins,
                                    ),
                                ),
                            },
                        }
                    },
                    None => match expanded_from(
                        a,
                        supplied,
                        sc,
                        fuel,
                        joins,
                        args,
                        0,
                        Seq::empty(),
                    ) {
                        Err(x) => Err(x),
                        Ok((args2, j)) => Ok((ExprView::Call(name, distinct, args2), j)),
                    },
                }
            },
        },
        ExprView::Summary { .. } => Err(RewriteErrorView::Expand(ExpandErrorView::Unsupported)),
    }
}

/// The expressions of `list` from the `i`-th on, expanded in order after
/// those in `acc`, and the joins after all of them.
pub open spec fn expanded_from(
    a: AnalyzedView,
    supplied: Seq<FunctionSignatureView>,
    sc: ScopeView,
    fuel: nat,
    joins: Seq<JoinView>,
    list: Seq<ExprView>,
    i: int,
    acc: Seq<ExprView>,
) -> Result<(Seq<ExprView>, Seq<JoinView>), RewriteErrorView>
    decreases fuel, list, list.len() - i,
{
    if 0 <= i < list.len() {
        match expanded(a, supplied, sc, fuel, joins, list[i]) {
            Ok((x, j)) => expanded_from(a, supplied, sc, fuel, j, list, i + 1, acc.push(x)),
            Err(x) => Err(x),
        }
    } else {
        Ok((acc, joins))
    }
}

/// Finds the first step of the first column path of `e` that leaves the
/// entity `base`.
pub(crate) fn lead(schema: &Schema, base: usize, e: &Expr) -> (r: Option<Step>)
    requires
        schema_ok(schema@),
        base < schema.table_names.len(),
    ensures
        r == leading(schema@, base as int, e@),
        r matches Some(s) ==> s.edge < schema.link_names.len(),
    decreases e, 0int,
{
    match e {
        Expr::Column(p) => match resolve(schema, base, p) {
            Ok(t) => if t.steps.len() > 0 {
                Some(t.steps[0])
            } else {
                None
            },
            Err(_) => None,
        },
        Expr::Not(a) => lead(schema, base, a),
        Expr::Negate(a) => lead(schema, base, a),
        Expr::IsNull(a, _) => lead(schema, base, a),
        Expr::Binary(_, a, b) => match lead(schema, base, a) {
            Some(x) => Some(x),
            None => lead(schema, base, b),
        },
        Expr::Call(_, _, args) => {
            assert(decreases_to!(*e => (*e)->Call_2));
            lead_list(schema, base, args)
        },
        Expr::Nary(_, args) => {
            assert(decreases_to!(*e => (*e)->Nary_1));
            lead_list(schema, base, args)
        },
        Expr::Cast(a, _) => lead(schema, base, a),
        _ => None,
    }
}

/// Finds the first step of the first column path of `list` that leaves the
/// entity `base`.
pub(crate) fn lead_list(schema: &Schema, base: usize, list: &Vec<Expr>) -> (r: Option<Step>)
    requires
        schema_ok(schema@),
        base < schema.table_names.len(),
    ensures
        r == leading_from(schema@, base as int, expr_views(list@), 0),
        r matches Some(s) ==> s.edge < schema.link_names.len(),
    decreases list, 1int,
{
    let ghost v = expr_views(list@);
    let mut i: usize = 0;
    while i < list.len()
        invariant
            i <= list.len(),
            schema_ok(schema@),
            base < schema.table_names.len(),
            v == expr_views(list@),
            leading_from(schema@, base as int, v, 0) == leading_from(schema@, base as int, v, i as int),
        decreases list.len() - i,
    {
        assert(decreases_to!(*list => list@) && decreases_to!(list@ => list@[i as int]));
        match lead(schema, base, &list[i]) {
            Some(x) => {
                return Some(x);
            },
            None => {},
        }
        i += 1;
    }
    None
}

/// Expands the expression `e` of the scope `sc`, adding the joins that it
/// needs to `joins`.
pub fn expand(
    a: &AnalyzedManifest,
    supplied: &Vec<FunctionSignature>,
    sc: &Scope,
    fuel: usize,
    joins: &mut Vec<Join>,
    e: &Expr,
) -> (r: Result<Expr, RewriteError>)
    requires
        sc.base < a@.schema.table_names.len(),
    ensures
        match r {
            Ok(x) => expanded(
                a@,
                signature_views(supplied@),
                sc@,
                fuel as nat,
                join_views(old(joins)@),
                e@,
            ) == Ok::<(ExprView, Seq<JoinView>), RewriteErrorView>(
                (x@, join_views(final(joins)@)),
            ),
            Err(x) => expanded(
                a@,
                signature_views(supplied@),
                sc@,
                fuel as nat,
                join_views(old(joins)@),
                e@,
            ) == Err::<(ExprView, Seq<JoinView>), RewriteErrorView>(x@),
        },
    decreases fuel, e, 1int,
{
    match e {
        Expr::Null | Expr::Bool(_) | Expr::Number(_) | Expr::Text(_) | Expr::Wildcard
        | Expr::Subquery(_) => Ok(crate::qualify::copy_expr(e)),
        Expr::Nary(op, args) => {
            assert(decreases_to!(*e => (*e)->Nary_1));
            match expand_list(a, supplied, sc, fuel, joins, args) {
                Ok(list) => Ok(Expr::Nary(*op, list)),
                Err(x) => Err(x),
            }
        },
        Expr::Cast(x, t) => match expand(a, supplied, sc, fuel, joins, x) {
            Ok(y) => Ok(Expr::Cast(Box::new(y), t.clone())),
            Err(x) => Err(x),
        },
        Expr::Column(_) => expand_column(a, supplied, sc, fuel, joins, e),
        Expr::Not(x) => match expand(a, supplied, sc, fuel, joins, x) {
            Ok(y) => Ok(Expr::Not(Box::new(y))),
            Err(x) => Err(x),
        },
        Expr::Negate(x) => match expand(a, supplied, sc, fuel, joins, x) {
            Ok(y) => Ok(Expr::Negate(Box::new(y))),
            Err(x) => Err(x),
        },
        Expr::IsNull(x, n) => match expand(a, supplied, sc, fuel, joins, x) {
            Ok(y) => Ok(Expr::IsNull(Box::new(y), *n)),
            Err(x) => Err(x),
        },
        Expr::Binary(op, x, y) => match expand(a, supplied, sc, fuel, joins, x) {
            Ok(x2) => match expand(a, supplied, sc, fuel, joins, y) {
                Ok(y2) => Ok(Expr::Binary(*op, Box::new(x2), Box::new(y2))),
                Err(x) => Err(x),
            },
            Err(x) => Err(x),
        },
        Expr::Call(_, _, _) => expand_call(a, supplied, sc, fuel, joins, e),
        Expr::Summary { .. } => Err(RewriteError::Expand(ExpandError::Unsupported)),
    }
}

/// Expands a column path.
pub(crate) fn expand_column(
    a: &AnalyzedManifest,
    supplied: &Vec<FunctionSignature>,
    sc: &Scope,
    fuel: usize,
    joins: &mut Vec<Join>,
    e: &Expr,
) -> (r: Result<Expr, RewriteError>)
    requires
        sc.base < a@.schema.table_names.len(),
        e is Column,
    ensures
        match r {
            Ok(x) => expanded(
                a@,
                signature_views(supplied@),
                sc@,
                fuel as nat,
                join_views(old(joins)@),
                e@,
            ) == Ok::<(ExprView, Seq<JoinView>), RewriteErrorView>(
                (x@, join_views(final(joins)@)),
            ),
            Err(x) => expanded(
                a@,
                signature_views(supplied@),
                sc@,
                fuel as nat,
                join_views(old(joins)@),
                e@,
            ) == Err::<(ExprView, Seq<JoinView>), RewriteErrorView>(x@),
        },
    decreases fuel, e, 0int,
{
    proof {
        use_type_invariant(a);
        a.shape();
    }
    match e {
        Expr::Column(p) => {
            let start: usize = match &sc.aliased {
                Some(al) => if p.len() >= 2 && same_text(p[0].as_str(), al.as_str()) {
                    1
                } else {
                    0
                },
                None => 0,
            };
            assert(p.len() >= 2 ==> texts(p@)[0] == p@[0]@);
            assert(start == qualifier_len(sc@.aliased, texts(p@)));
            match resolve_from(&a.schema, sc.base, p, start) {
                Err(x) => Err(classify(x)),
                Ok(t) => {
                    let from: usize = match sc.skip {
                        None => 0,
                        Some(s) => if t.steps.len() > 0 && t.steps[0] == s {
                            1
                        } else {
                            return Err(RewriteError::Expand(ExpandError::MixedSummary));
                        },
                    };
                    match walk(a, &sc.alias, &t.steps, from, sc.summed, joins) {
                        Err(x) => Err(x),
                        Ok(alias) => {
                            assert(a@.definitions[t.table as int].len()
                                == a@.schema.field_names[t.table as int].len());
                            match &a.definitions[t.table][t.field] {
                                Definition::Physical(ph) => {
                                    let mut q: Vec<String> = Vec::new();
                                    let ghost al = alias@;
                                    q.push(alias);
                                    q.push(ph.clone());
                                    assert(texts(q@) == seq![al, ph@]);
                                    Ok(Expr::Column(q))
                                },
                                Definition::Derived(d) => if fuel == 0 {
                                    Err(RewriteError::Expand(ExpandError::TooDeep))
                                } else {
                                    let inner = Scope {
                                        base: t.table,
                                        alias,
                                        skip: None,
                                        aliased: None,
                                        inner: true,
                                        summed: sc.summed,
                                    };
                                    expand(a, supplied, &inner, fuel - 1, joins, d)
                                },
                            }
                        },
                    }
                },
            }
        },
        _ => Err(RewriteError::Expand(ExpandError::Unsupported)),
    }
}

/// Expands a call.
pub(crate) fn expand_call(
    a: &AnalyzedManifest,
    supplied: &Vec<FunctionSignature>,
    sc: &Scope,
    fuel: usize,
    joins: &mut Vec<Join>,
    e: &Expr,
) -> (r: Result<Expr, RewriteError>)
    requires
        sc.base < a@.schema.table_names.len(),
        e is Call,
    ensures
        match r {
            Ok(x) => expanded(
                a@,
                signature_views(supplied@),
                sc@,
                fuel as nat,
                join_views(old(joins)@),
                e@,
            ) == Ok::<(ExprView, Seq<JoinView>), RewriteErrorView>(
                (x@, join_views(final(joins)@)),
            ),
            Err(x) => expanded(
                a@,
                signature_views(supplied@),
                sc@,
                fuel as nat,
                join_views(old(joins)@),
                e@,
            ) == Err::<(ExprView, Seq<JoinView>), RewriteErrorView>(x@),
        },
    decreases fuel, e, 0int,
{
    proof {
        use_type_invariant(a);
        a.shape();
    }
    match e {
        Expr::Call(name, distinct, args) => {
            assert(decreases_to!(*e => (*e)->Call_2));
            match find_function(supplied, name.as_str()) {
                None => Err(RewriteError::Bind(BindError::UnknownFunction(name.clone()))),
                Some(kind) => {
                    let lead_step = if kind == FunctionKind::Aggregate && sc.inner
                        && sc.skip.is_none() {
                        lead_list(&a.schema, sc.base, args)
                    } else {
                        None
                    };
                    match lead_step {
                        Some(s) => {
                            let inner_alias = join_alias(&sc.alias, &a.schema.link_names[s.edge]);
                            let inner = Scope {
                                base: sc.base,
                                alias: inner_alias,
                                skip: Some(s),
                                aliased: None,
                                inner: true,
                                summed: true,
                            };
                            let mut inner_joins: Vec<Join> = Vec::new();
                            assert(join_views(inner_joins@) == Seq::<JoinView>::empty());
                            assert(a@.schema.link_names[s.edge as int]
                                == a.schema.link_names@[s.edge as int]@);
                            assert(inner@ == (ScopeView {
                                base: sc@.base,
                                alias: joined_alias(sc@.alias, a@.schema.link_names[s.edge as int]),
                                skip: Some(s),
                                aliased: None,
                                inner: true,
                                summed: true,
                            }));
                            match expand_list(a, supplied, &inner, fuel, &mut inner_joins, args) {
                                Err(x) => Err(x),
                                Ok(args2) => match make_join(a, s, &sc.alias, &inner.alias) {
                                    Err(x) => Err(x),
                                    Ok(j) => {
                                        let ghost list = expr_views(args2@);
                                        let call = Expr::Call(name.clone(), *distinct, args2);
                                        assert(call@ == ExprView::Call(name@, *distinct, list));
                                        Ok(
                                            Expr::Summary {
                                                call: Box::new(call),
                                                table: j.table,
                                                joins: inner_joins,
                                                on: Box::new(j.on),
                                            },
                                        )
                                    },
                                },
                            }
                        },
                        None => match expand_list(a, supplied, sc, fuel, joins, args) {
                            Err(x) => Err(x),
                            Ok(args2) => Ok(Expr::Call(name.clone(), *distinct, args2)),
                        },
                    }
                },
            }
        },
        _ => Err(RewriteError::Expand(ExpandError::Unsupported)),
    }
}

/// Expands the expressions of `list` in order, adding the joins that they
/// need to `joins`.
pub(crate) fn expand_list(
    a: &AnalyzedManifest,
    supplied: &Vec<FunctionSignature>,
    sc: &Scope,
    fuel: usize,
    joins: &mut Vec<Join>,
    list: &Vec<Expr>,
) -> (r: Result<Vec<Expr>, RewriteError>)
    requires
        sc.base < a@.schema.table_names.len(),
    ensures
        match r {
            Ok(x) => expanded_from(
                a@,
                signature_views(supplied@),
                sc@,
                fuel as nat,
                join_views(old(joins)@),
                expr_views(list@),
                0,
                Seq::empty(),
            ) == Ok::<(Seq<ExprView>, Seq<JoinView>), RewriteErrorView>(
                (expr_views(x@), join_views(final(joins)@)),
            ),
            Err(x) => expanded_from(
                a@,
                signature_views(supplied@),
                sc@,
                fuel as nat,
                join_views(old(joins)@),
                expr_views(list@),
                0,
                Seq::empty(),
            ) == Err::<(Seq<ExprView>, Seq<JoinView>), RewriteErrorView>(x@),
        },
    decreases fuel, list, 2int,
{
    let ghost v = expr_views(list@);
    let ghost sigs = signature_views(supplied@);
    let ghost start = join_views(joins@);
    let mut out: Vec<Expr> = Vec::new();
    let mut i: usize = 0;
    assert(expr_views(out@) == Seq::<ExprView>::empty());
    while i < list.len()
        invariant
            i <= list.len(),
            sc.base < a@.schema.table_names.len(),
            v == expr_views(list@),
            sigs == signature_views(supplied@),
            start == join_views(old(joins)@),
            expanded_from(a@, sigs, sc@, fuel as nat, start, v, 0, Seq::empty()) == expanded_from(
                a@,
                sigs,
                sc@,
                fuel as nat,
                join_views(joins@),
                v,
                i as int,
                expr_views(out@),
            ),
        decreases list.len() - i,
    {
        assert(decreases_to!(*list => list@) && decreases_to!(list@ => list@[i as int]));
        match expand(a, supplied, sc, fuel, joins, &list[i]) {
            Ok(x) => {
                let ghost before = expr_views(out@);
                let ghost xv = x@;
                out.push(x);
                assert(expr_views(out@) == before.push(xv));
            },
            Err(x) => {
                return Err(x);
            },
        }
        i += 1;
    }
    Ok(out)
}

} // verus!
