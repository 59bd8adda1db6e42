//! Why expansion over an analyzed model fails only for a fault of the query.
//! It never runs out of depth: the dependencies of the columns have a
//! ranking, and the definition of a column only refers to columns of
//! smaller rank. And every join condition can be placed.

use vstd::prelude::*;

use crate::analysis::columns_before;
use crate::ast::{
    ExprView, JoinView, OrderItemView, SelectItemView, SelectView, TableRefView,
    TableSourceView,
};
use crate::cycles::ranked;
use crate::deps::{
    column_number, dependencies, graph_rows_are_column_refs, numbers_grow, refs_from, refs_in,
};
use crate::expand::{expanded, expanded_from, leading, leading_from, qualifier_len, ScopeView};
use crate::functions::{function_kind, FunctionKind, FunctionSignatureView};
use crate::joins::{
    join_for, joined_alias, left_mark, placed, right_mark, to_many, walked, RewriteErrorView,
};
use crate::model::{well_formed, AnalyzedView, DefinitionView};
use crate::rewrite::{
    chosen, expanded_key, expanded_opt, fields_from, items_from, joined_from, only,
    output_alias,
    lent_from, lent_slot, lent_slots, rewritten, rewritten_blocks, rewritten_in, seated,
    seated_from, slot_fields, slot_named, slot_of, slots_within,
    slot_with, slots_from, slots_ok, sort_keys_from, table_of, top_scope, SlotView,
};
use crate::routes::Step;
use crate::schema::{
    followed, resolved, resolved_from, resolved_steps_are_within, schema_ok, steps_within,
    RouteView, SchemaView,
};
use crate::text::{is_first, position};

verus! {

/// Whether an error tells of a fault of the model rather than of the query:
/// too little depth, or a condition that cannot be placed.
pub open spec fn blames_model(x: RewriteErrorView) -> bool {
    x matches RewriteErrorView::Expand(e) && (e is TooDeep || e is InvalidCondition)
}

/// Whether an outcome of rewriting is a result or blames the query.
pub open spec fn fair<T>(r: Result<T, RewriteErrorView>) -> bool {
    r matches Err(x) ==> !blames_model(x)
}

/// A position is a place of the sequence where the name stands.
pub proof fn position_is_a_place(names: Seq<Seq<char>>, name: Seq<char>)
    ensures
        position(names, name) matches Some(i) ==> 0 <= i < names.len() && names[i] == name,
{
    if let Some(i) = position(names, name) {
        assert(is_first(names, name, i));
    }
}

/// Following a path from an entity of the schema ends at an entity of the
/// schema.
pub proof fn followed_stays_within(
    s: SchemaView,
    cur: int,
    path: Seq<Seq<char>>,
    i: int,
    acc: Seq<Step>,
)
    requires
        schema_ok(s),
        0 <= cur < s.table_names.len(),
    ensures
        followed(s, cur, path, i, acc) matches Ok((_, t)) ==> 0 <= t < s.table_names.len(),
    decreases path.len() - i,
{
    if !(i + 1 >= path.len() || i < 0) {
        position_is_a_place(s.link_names, path[i]);
        position_is_a_place(s.table_names, path[i]);
        match position(s.link_names, path[i]) {
            Some(l) => {
                assert(s.edges[l].left < s.table_names.len());
                if s.edges[l].left == cur {
                    followed_stays_within(
                        s,
                        s.edges[l].right as int,
                        path,
                        i + 1,
                        acc.push(Step { edge: l as usize, forward: true }),
                    );
                } else if s.edges[l].right == cur {
                    followed_stays_within(
                        s,
                        s.edges[l].left as int,
                        path,
                        i + 1,
                        acc.push(Step { edge: l as usize, forward: false }),
                    );
                }
            },
            None => match position(s.table_names, path[i]) {
                Some(t) => match s.routes[cur][t] {
                    RouteView::Unique(steps) => {
                        followed_stays_within(s, t, path, i + 1, acc + steps);
                    },
                    _ => {},
                },
                None => {},
            },
        }
    }
}

/// A path that resolves ends at a column of an entity of the schema.
pub proof fn resolved_stays_within(s: SchemaView, base: int, path: Seq<Seq<char>>, start: int)
    requires
        schema_ok(s),
        0 <= base < s.table_names.len(),
    ensures
        resolved_from(s, base, path, start) matches Ok(t) ==> 0 <= t.table < s.table_names.len()
            && 0 <= t.field < s.field_names[t.table].len(),
{
    if path.len() > 0 {
        followed_stays_within(s, base, path, start, Seq::empty());
        if let Ok((steps, t)) = followed(s, base, path, start, Seq::empty()) {
            position_is_a_place(s.field_names[t], path.last());
        }
    }
}

/// Walking steps of the model fails only for a step to many rows.
pub proof fn walking_is_fair(
    a: AnalyzedView,
    alias: Seq<char>,
    steps: Seq<Step>,
    k: int,
    summed: bool,
    joins: Seq<JoinView>,
)
    requires
        well_formed(a),
        steps_within(a.schema, steps),
    ensures
        fair(walked(a, alias, steps, k, summed, joins)),
    decreases steps.len() - k,
{
    if 0 <= k < steps.len() {
        let link = a.schema.link_names[steps[k].edge as int];
        let next = joined_alias(alias, link);
        if !(!summed && to_many(a, steps[k])) {
            joining_succeeds(a, steps[k], alias, next);
            walking_is_fair(a, next, steps, k + 1, summed, joins);
            if let Ok(j) = join_for(a, steps[k], alias, next) {
                walking_is_fair(a, next, steps, k + 1, summed, joins.push(j));
            }
        }
    }
}

/// A condition that can be placed over one pair of aliases can be placed
/// over every pair.
pub proof fn placing_takes_any_alias(
    s: SchemaView,
    defs: Seq<Seq<DefinitionView>>,
    edge: int,
    l1: Seq<char>,
    r1: Seq<char>,
    l2: Seq<char>,
    r2: Seq<char>,
    c: ExprView,
)
    requires
        placed(s, defs, edge, l1, r1, c) is Ok,
    ensures
        placed(s, defs, edge, l2, r2, c) is Ok,
    decreases c,
{
    match c {
        ExprView::Not(x) => placing_takes_any_alias(s, defs, edge, l1, r1, l2, r2, *x),
        ExprView::Negate(x) => placing_takes_any_alias(s, defs, edge, l1, r1, l2, r2, *x),
        ExprView::IsNull(x, _) => placing_takes_any_alias(s, defs, edge, l1, r1, l2, r2, *x),
        ExprView::Binary(_, x, y) => {
            placing_takes_any_alias(s, defs, edge, l1, r1, l2, r2, *x);
            placing_takes_any_alias(s, defs, edge, l1, r1, l2, r2, *y);
        },
        _ => {},
    }
}

/// Building a join for a step of the model succeeds.
pub proof fn joining_succeeds(a: AnalyzedView, s: Step, from: Seq<char>, to: Seq<char>)
    requires
        well_formed(a),
        s.edge < a.schema.link_names.len(),
    ensures
        join_for(a, s, from, to) is Ok,
{
    let c = a.conditions[s.edge as int];
    assert(placed(a.schema, a.definitions, s.edge as int, left_mark(), right_mark(), c) is Ok);
    placing_takes_any_alias(
        a.schema,
        a.definitions,
        s.edge as int,
        left_mark(),
        right_mark(),
        if s.forward {
            from
        } else {
            to
        },
        if s.forward {
            to
        } else {
            from
        },
        c,
    );
}

/// The step that leads the paths of an expression stays within the
/// relationships.
pub proof fn leading_is_within(s: SchemaView, base: int, e: ExprView)
    requires
        schema_ok(s),
        0 <= base < s.table_names.len(),
    ensures
        leading(s, base, e) matches Some(x) ==> x.edge < s.link_names.len(),
    decreases e, 0int,
{
    match e {
        ExprView::Column(p) => {
            resolved_steps_are_within(s, base, p, 0);
        },
        ExprView::Not(a) => leading_is_within(s, base, *a),
        ExprView::Negate(a) => leading_is_within(s, base, *a),
        ExprView::IsNull(a, _) => leading_is_within(s, base, *a),
        ExprView::Binary(_, a, b) => {
            leading_is_within(s, base, *a);
            leading_is_within(s, base, *b);
        },
        ExprView::Call(_, _, args) => leading_from_is_within(s, base, args, 0),
        ExprView::Nary(_, args) => leading_from_is_within(s, base, args, 0),
        ExprView::Cast(a, _) => leading_is_within(s, base, *a),
        _ => {},
    }
}

/// The step that leads the paths of a list of expressions stays within the
/// relationships.
pub proof fn leading_from_is_within(s: SchemaView, base: int, list: Seq<ExprView>, i: int)
    requires
        schema_ok(s),
        0 <= base < s.table_names.len(),
    ensures
        leading_from(s, base, list, i) matches Some(x) ==> x.edge < s.link_names.len(),
    decreases list, list.len() - i,
{
    if 0 <= i < list.len() {
        leading_is_within(s, base, list[i]);
        leading_from_is_within(s, base, list, i + 1);
    }
}

/// Whether every column that a path of `e` ends at has a rank below
/// `bound`. Paths are read from the entity `base`, in a query that calls the
/// table of its `FROM` clause `aliased`.
pub open spec fn covered(
    a: AnalyzedView,
    rank: Seq<nat>,
    base: int,
    aliased: Option<Seq<char>>,
    e: ExprView,
    bound: nat,
) -> bool
    decreases e,
{
    match e {
        ExprView::Column(p) => match resolved_from(a.schema, base, p, qualifier_len(aliased, p)) {
            Ok(t) => rank[column_number(a.schema, t.table, t.field)] < bound,
            Err(_) => true,
        },
        ExprView::Not(x) => covered(a, rank, base, aliased, *x, bound),
        ExprView::Negate(x) => covered(a, rank, base, aliased, *x, bound),
        ExprView::IsNull(x, _) => covered(a, rank, base, aliased, *x, bound),
        ExprView::Binary(_, x, y) => covered(a, rank, base, aliased, *x, bound) && covered(
            a,
            rank,
            base,
            aliased,
            *y,
            bound,
        ),
        ExprView::Call(_, _, args) => forall|i: int|
            0 <= i < args.len() ==> covered(a, rank, base, aliased, #[trigger] args[i], bound),
        ExprView::Nary(_, args) => forall|i: int|
            0 <= i < args.len() ==> covered(a, rank, base, aliased, #[trigger] args[i], bound),
        ExprView::Cast(x, _) => covered(a, rank, base, aliased, *x, bound),
        _ => true,
    }
}

/// Whether `b` starts with `a`.
pub open spec fn starts_with(b: Seq<usize>, a: Seq<usize>) -> bool {
    a.len() <= b.len() && forall|k: int| 0 <= k < a.len() ==> b[k] == a[k]
}

/// Collecting references only adds to what was collected.
pub proof fn refs_only_grow(s: SchemaView, base: int, e: ExprView, acc: Seq<usize>)
    ensures
        starts_with(refs_in(s, base, e, acc), acc),
    decreases e, 0int,
{
    match e {
        ExprView::Not(x) => refs_only_grow(s, base, *x, acc),
        ExprView::Negate(x) => refs_only_grow(s, base, *x, acc),
        ExprView::IsNull(x, _) => refs_only_grow(s, base, *x, acc),
        ExprView::Binary(_, x, y) => {
            refs_only_grow(s, base, *x, acc);
            refs_only_grow(s, base, *y, refs_in(s, base, *x, acc));
        },
        ExprView::Call(_, _, args) => refs_from_only_grow(s, base, args, 0, acc),
        ExprView::Nary(_, args) => refs_from_only_grow(s, base, args, 0, acc),
        ExprView::Cast(x, _) => refs_only_grow(s, base, *x, acc),
        _ => {},
    }
}

/// Collecting references of a list only adds to what was collected.
pub proof fn refs_from_only_grow(
    s: SchemaView,
    base: int,
    list: Seq<ExprView>,
    i: int,
    acc: Seq<usize>,
)
    ensures
        starts_with(refs_from(s, base, list, i, acc), acc),
    decreases list, list.len() - i,
{
    if 0 <= i < list.len() {
        refs_only_grow(s, base, list[i], acc);
        refs_from_only_grow(s, base, list, i + 1, refs_in(s, base, list[i], acc));
    }
}

/// Where every reference that `e` adds has a rank below `bound`, `e` is
/// covered by `bound`.
pub proof fn refs_cover(
    a: AnalyzedView,
    rank: Seq<nat>,
    base: int,
    e: ExprView,
    acc: Seq<usize>,
    bound: nat,
)
    requires
        well_formed(a),
        0 <= base < a.schema.table_names.len(),
        columns_before(a.schema.field_names, a.schema.table_names.len() as int) <= usize::MAX,
        forall|k: int|
            acc.len() <= k < refs_in(a.schema, base, e, acc).len() ==> rank[refs_in(
                a.schema,
                base,
                e,
                acc,
            )[k] as int] < bound,
    ensures
        covered(a, rank, base, None, e, bound),
    decreases e, 0int,
{
    let s = a.schema;
    let all = refs_in(s, base, e, acc);
    match e {
        ExprView::Column(p) => {
            resolved_stays_within(s, base, p, 0);
            if let Ok(t) = resolved(s, base, p) {
                numbers_grow(s.field_names, t.table, s.table_names.len() as int);
                assert(all[acc.len() as int] == column_number(s, t.table, t.field) as usize);
            }
        },
        ExprView::Not(x) => refs_cover(a, rank, base, *x, acc, bound),
        ExprView::Negate(x) => refs_cover(a, rank, base, *x, acc, bound),
        ExprView::IsNull(x, _) => refs_cover(a, rank, base, *x, acc, bound),
        ExprView::Binary(_, x, y) => {
            let first = refs_in(s, base, *x, acc);
            refs_only_grow(s, base, *x, acc);
            refs_only_grow(s, base, *y, first);
            assert forall|k: int| acc.len() <= k < first.len() implies rank[first[k] as int]
                < bound by {
                assert(all[k] == first[k]);
            }
            refs_cover(a, rank, base, *x, acc, bound);
            refs_cover(a, rank, base, *y, first, bound);
        },
        ExprView::Call(_, _, args) => {
            refs_from_cover(a, rank, base, args, 0, acc, bound);
        },
        ExprView::Nary(_, args) => {
            refs_from_cover(a, rank, base, args, 0, acc, bound);
        },
        ExprView::Cast(x, _) => refs_cover(a, rank, base, *x, acc, bound),
        _ => {},
    }
}

/// Where every reference that the expressions of `list` from the `i`-th on
/// add has a rank below `bound`, each of them is covered by `bound`.
pub proof fn refs_from_cover(
    a: AnalyzedView,
    rank: Seq<nat>,
    base: int,
    list: Seq<ExprView>,
    i: int,
    acc: Seq<usize>,
    bound: nat,
)
    requires
        well_formed(a),
        0 <= base < a.schema.table_names.len(),
        columns_before(a.schema.field_names, a.schema.table_names.len() as int) <= usize::MAX,
        0 <= i,
        forall|k: int|
            acc.len() <= k < refs_from(a.schema, base, list, i, acc).len() ==> rank[refs_from(
                a.schema,
                base,
                list,
                i,
                acc,
            )[k] as int] < bound,
    ensures
        forall|j: int| i <= j < list.len() ==> covered(a, rank, base, None, #[trigger] list[j], bound),
    decreases list, list.len() - i,
{
    let s = a.schema;
    if i < list.len() {
        let first = refs_in(s, base, list[i], acc);
        let all = refs_from(s, base, list, i, acc);
        refs_only_grow(s, base, list[i], acc);
        refs_from_only_grow(s, base, list, i + 1, first);
        assert forall|k: int| acc.len() <= k < first.len() implies rank[first[k] as int] < bound by {
            assert(all[k] == first[k]);
        }
        refs_cover(a, rank, base, list[i], acc, bound);
        refs_from_cover(a, rank, base, list, i + 1, first, bound);
        assert forall|j: int| i <= j < list.len() implies covered(
            a,
            rank,
            base,
            None,
            #[trigger] list[j],
            bound,
        ) by {
            if j > i {
            }
        }
    }
}

/// The definition of a derived column is covered by the rank of the column.
pub proof fn definition_is_covered(a: AnalyzedView, rank: Seq<nat>, t: int, f: int)
    requires
        well_formed(a),
        ranked(dependencies(a), rank),
        dependencies(a).len() <= usize::MAX,
        0 <= t < a.schema.table_names.len(),
        0 <= f < a.schema.field_names[t].len(),
    ensures
        a.definitions[t][f] matches DefinitionView::Derived(d) ==> covered(
            a,
            rank,
            t,
            None,
            d,
            rank[column_number(a.schema, t, f)],
        ),
{
    graph_rows_are_column_refs(a.schema, a.definitions, t, f);
    if let DefinitionView::Derived(d) = a.definitions[t][f] {
        let u = column_number(a.schema, t, f);
        let row = dependencies(a)[u];
        assert(row == refs_in(a.schema, t, d, Seq::empty()));
        assert forall|k: int| 0 <= k < row.len() implies rank[row[k] as int] < rank[u] by {
            assert(dependencies(a)[u][k] == row[k]);
        }
        refs_cover(a, rank, t, d, Seq::empty(), rank[u]);
    }
}

/// Every expression is covered by the number of columns.
pub proof fn all_is_covered(
    a: AnalyzedView,
    rank: Seq<nat>,
    base: int,
    aliased: Option<Seq<char>>,
    e: ExprView,
)
    requires
        well_formed(a),
        ranked(dependencies(a), rank),
        0 <= base < a.schema.table_names.len(),
    ensures
        covered(a, rank, base, aliased, e, dependencies(a).len()),
    decreases e,
{
    match e {
        ExprView::Column(p) => {
            resolved_stays_within(a.schema, base, p, qualifier_len(aliased, p));
            if let Ok(t) = resolved_from(a.schema, base, p, qualifier_len(aliased, p)) {
                graph_rows_are_column_refs(a.schema, a.definitions, t.table, t.field);
            }
        },
        ExprView::Not(x) => all_is_covered(a, rank, base, aliased, *x),
        ExprView::Negate(x) => all_is_covered(a, rank, base, aliased, *x),
        ExprView::IsNull(x, _) => all_is_covered(a, rank, base, aliased, *x),
        ExprView::Binary(_, x, y) => {
            all_is_covered(a, rank, base, aliased, *x);
            all_is_covered(a, rank, base, aliased, *y);
        },
        ExprView::Call(_, _, args) => {
            assert forall|i: int| 0 <= i < args.len() implies covered(
                a,
                rank,
                base,
                aliased,
                #[trigger] args[i],
                dependencies(a).len(),
            ) by {
                all_is_covered(a, rank, base, aliased, args[i]);
            }
        },
        ExprView::Nary(_, args) => {
            assert forall|i: int| 0 <= i < args.len() implies covered(
                a,
                rank,
                base,
                aliased,
                #[trigger] args[i],
                dependencies(a).len(),
            ) by {
                all_is_covered(a, rank, base, aliased, args[i]);
            }
        },
        ExprView::Cast(x, _) => all_is_covered(a, rank, base, aliased, *x),
        _ => {},
    }
}

/// Expanding an expression that is covered by a bound within the fuel fails
/// only for a fault of the query.
pub proof fn expanding_is_fair(
    a: AnalyzedView,
    supplied: Seq<FunctionSignatureView>,
    sc: ScopeView,
    fuel: nat,
    joins: Seq<JoinView>,
    e: ExprView,
    rank: Seq<nat>,
    bound: nat,
)
    requires
        well_formed(a),
        ranked(dependencies(a), rank),
        dependencies(a).len() <= usize::MAX,
        0 <= sc.base < a.schema.table_names.len(),
        sc.inner ==> sc.aliased is None,
        bound <= fuel,
        covered(a, rank, sc.base, sc.aliased, e, bound),
    ensures
        fair(expanded(a, supplied, sc, fuel, joins, e)),
    decreases fuel, e, 0int,
{
    match e {
        ExprView::Column(p) => {
            let start = qualifier_len(sc.aliased, p);
            resolved_stays_within(a.schema, sc.base, p, start);
            resolved_steps_are_within(a.schema, sc.base, p, start);
            if let Ok(t) = resolved_from(a.schema, sc.base, p, start) {
                let from: int = match sc.skip {
                    None => 0,
                    Some(s) => if t.steps.len() > 0 && t.steps[0] == s {
                        1
                    } else {
                        -1
                    },
                };
                if from >= 0 {
                    walking_is_fair(a, sc.alias, t.steps, from, sc.summed, joins);
                    if let Ok((alias, joined)) = walked(
                        a,
                        sc.alias,
                        t.steps,
                        from,
                        sc.summed,
                        joins,
                    ) {
                        if let DefinitionView::Derived(d) = a.definitions[t.table][t.field] {
                            definition_is_covered(a, rank, t.table, t.field);
                            let inner = ScopeView {
                                base: t.table,
                                alias,
                                skip: None,
                                aliased: None,
                                inner: true,
                                summed: sc.summed,
                            };
                            expanding_is_fair(
                                a,
                                supplied,
                                inner,
                                (fuel - 1) as nat,
                                joined,
                                d,
                                rank,
                                rank[column_number(a.schema, t.table, t.field)],
                            );
                        }
                    }
                }
            }
        },
        ExprView::Not(x) => expanding_is_fair(a, supplied, sc, fuel, joins, *x, rank, bound),
        ExprView::Negate(x) => expanding_is_fair(
            a,
            supplied,
            sc,
            fuel,
            joins,
            *x,
            rank,
            bound,
        ),
        ExprView::IsNull(x, _) => expanding_is_fair(
            a,
            supplied,
            sc,
            fuel,
            joins,
            *x,
            rank,
            bound,
        ),
        ExprView::Binary(_, x, y) => {
            expanding_is_fair(a, supplied, sc, fuel, joins, *x, rank, bound);
            if let Ok((_, j)) = expanded(a, supplied, sc, fuel, joins, *x) {
                expanding_is_fair(a, supplied, sc, fuel, j, *y, rank, bound);
            }
        },
        ExprView::Nary(_, args) => {
            expanding_all_is_fair(a, supplied, sc, fuel, joins, args, 0, Seq::empty(), rank, bound);
        },
        ExprView::Cast(x, _) => expanding_is_fair(a, supplied, sc, fuel, joins, *x, rank, bound),
        ExprView::Call(name, _, args) => {
            if let Some(kind) = function_kind(supplied, name) {
                let lead = if kind == FunctionKind::Aggregate && sc.inner && sc.skip is None {
                    leading_from(a.schema, sc.base, args, 0)
                } else {
                    None
                };
                leading_from_is_within(a.schema, sc.base, args, 0);
                match lead {
                    Some(s) => {
                        let inner_alias = joined_alias(
                            sc.alias,
                            a.schema.link_names[s.edge as int],
                        );
                        let inner = ScopeView {
                            base: sc.base,
                            alias: inner_alias,
                            skip: Some(s),
                            aliased: None,
                            inner: true,
                            summed: true,
                        };
                        expanding_all_is_fair(
                            a,
                            supplied,
                            inner,
                            fuel,
                            Seq::empty(),
                            args,
                            0,
                            Seq::empty(),
                            rank,
                            bound,
                        );
                        joining_succeeds(a, s, sc.alias, inner_alias);
                    },
                    None => {
                        expanding_all_is_fair(
                            a,
                            supplied,
                            sc,
                            fuel,
                            joins,
                            args,
                            0,
                            Seq::empty(),
                            rank,
                            bound,
                        );
                    },
                }
            }
        },
        _ => {},
    }
}

/// Expanding a list of expressions that are covered by a bound within the
/// fuel fails only for a fault of the query.
pub proof fn expanding_all_is_fair(
    a: AnalyzedView,
    supplied: Seq<FunctionSignatureView>,
    sc: ScopeView,
    fuel: nat,
    joins: Seq<JoinView>,
    list: Seq<ExprView>,
    i: int,
    acc: Seq<ExprView>,
    rank: Seq<nat>,
    bound: nat,
)
    requires
        well_formed(a),
        ranked(dependencies(a), rank),
        dependencies(a).len() <= usize::MAX,
        0 <= sc.base < a.schema.table_names.len(),
        sc.inner ==> sc.aliased is None,
        bound <= fuel,
        0 <= i,
        forall|j: int|
            i <= j < list.len() ==> covered(a, rank, sc.base, sc.aliased, #[trigger] list[j], bound),
    ensures
        fair(expanded_from(a, supplied, sc, fuel, joins, list, i, acc)),
    decreases fuel, list, list.len() - i,
{
    if i < list.len() {
        expanding_is_fair(a, supplied, sc, fuel, joins, list[i], rank, bound);
        if let Ok((x, j)) = expanded(a, supplied, sc, fuel, joins, list[i]) {
            expanding_all_is_fair(
                a,
                supplied,
                sc,
                fuel,
                j,
                list,
                i + 1,
                acc.push(x),
                rank,
                bound,
            );
        }
    }
}

/// Whether a scope and a fuel suit a model with the ranking `rank`: the
/// scope is that of a query block, and the fuel is the number of columns.
pub open spec fn suits(a: AnalyzedView, rank: Seq<nat>, sc: ScopeView, fuel: nat) -> bool {
    &&& well_formed(a)
    &&& ranked(dependencies(a), rank)
    &&& dependencies(a).len() <= usize::MAX
    &&& 0 <= sc.base < a.schema.table_names.len()
    &&& !sc.inner
    &&& fuel == dependencies(a).len()
}

/// Expanding any expression of a query block fails only for a fault of the
/// query.
pub proof fn query_expression_is_fair(
    a: AnalyzedView,
    supplied: Seq<FunctionSignatureView>,
    sc: ScopeView,
    fuel: nat,
    joins: Seq<JoinView>,
    e: ExprView,
    rank: Seq<nat>,
)
    requires
        suits(a, rank, sc, fuel),
    ensures
        fair(expanded(a, supplied, sc, fuel, joins, e)),
{
    all_is_covered(a, rank, sc.base, sc.aliased, e);
    expanding_is_fair(a, supplied, sc, fuel, joins, e, rank, fuel);
}

/// What a lemma on the expressions of a query block needs: a model whose
/// parts fit together, a ranking of its dependencies, and slots over its
/// entities.
pub open spec fn seats(a: AnalyzedView, rank: Seq<nat>, slots: Seq<SlotView>, fuel: nat) -> bool {
    &&& well_formed(a)
    &&& ranked(dependencies(a), rank)
    &&& dependencies(a).len() <= usize::MAX
    &&& slots_ok(a, slots)
    &&& fuel == dependencies(a).len()
}

/// A slot that is found by its alias is one of the slots.
pub proof fn named_slot_is_within(slots: Seq<SlotView>, name: Seq<char>, i: int)
    requires
        0 <= i,
    ensures
        slot_named(slots, name, i) matches Some(k) ==> 0 <= k < slots.len(),
    decreases slots.len() - i,
{
    if i < slots.len() && slots[i].alias != name {
        named_slot_is_within(slots, name, i + 1);
    }
}

/// A slot that is found by a column is one of the slots.
pub proof fn slot_with_is_within(a: AnalyzedView, slots: Seq<SlotView>, column: Seq<char>, i: int)
    requires
        0 <= i,
    ensures
        slot_with(a, slots, column, i) matches Some(k) ==> 0 <= k < slots.len(),
    decreases slots.len() - i,
{
    if i < slots.len() && !(position(slot_fields(a, slots[i]), column) is Some) {
        slot_with_is_within(a, slots, column, i + 1);
    }
}

/// Rewriting an expression of a query block fails only for a fault of the
/// query.
pub proof fn seating_is_fair(
    a: AnalyzedView,
    supplied: Seq<FunctionSignatureView>,
    slots: Seq<SlotView>,
    fuel: nat,
    joins: Seq<JoinView>,
    e: ExprView,
    rank: Seq<nat>,
)
    requires
        seats(a, rank, slots, fuel),
    ensures
        fair(seated(a, supplied, slots, fuel, joins, e)),
    decreases e, 0int,
{
    match e {
        ExprView::Column(p) => {
            if p.len() >= 2 {
                named_slot_is_within(slots, p[0], 0);
            }
            if p.len() == 1 {
                slot_with_is_within(a, slots, p[0], 0);
            }
            let k = chosen(a, slots, p);
            let slot = slots[k];
            if let Some(b) = slot.entity {
                query_expression_is_fair(
                    a,
                    supplied,
                    top_scope(b as int, slot.alias),
                    fuel,
                    joins,
                    e,
                    rank,
                );
            }
        },
        ExprView::Not(x) => seating_is_fair(a, supplied, slots, fuel, joins, *x, rank),
        ExprView::Negate(x) => seating_is_fair(a, supplied, slots, fuel, joins, *x, rank),
        ExprView::IsNull(x, _) => seating_is_fair(a, supplied, slots, fuel, joins, *x, rank),
        ExprView::Cast(x, _) => seating_is_fair(a, supplied, slots, fuel, joins, *x, rank),
        ExprView::Binary(_, x, y) => {
            seating_is_fair(a, supplied, slots, fuel, joins, *x, rank);
            if let Ok((_, j)) = seated(a, supplied, slots, fuel, joins, *x) {
                seating_is_fair(a, supplied, slots, fuel, j, *y, rank);
            }
        },
        ExprView::Call(_, _, args) => {
            seating_all_is_fair(a, supplied, slots, fuel, joins, args, 0, Seq::empty(), rank);
        },
        ExprView::Nary(_, args) => {
            seating_all_is_fair(a, supplied, slots, fuel, joins, args, 0, Seq::empty(), rank);
        },
        _ => {},
    }
}

/// Rewriting a list of expressions of a query block fails only for a fault
/// of the query.
pub proof fn seating_all_is_fair(
    a: AnalyzedView,
    supplied: Seq<FunctionSignatureView>,
    slots: Seq<SlotView>,
    fuel: nat,
    joins: Seq<JoinView>,
    list: Seq<ExprView>,
    i: int,
    acc: Seq<ExprView>,
    rank: Seq<nat>,
)
    requires
        seats(a, rank, slots, fuel),
    ensures
        fair(seated_from(a, supplied, slots, fuel, joins, list, i, acc)),
    decreases list, list.len() - i,
{
    if 0 <= i < list.len() {
        seating_is_fair(a, supplied, slots, fuel, joins, list[i], rank);
        if let Ok((x, j)) = seated(a, supplied, slots, fuel, joins, list[i]) {
            seating_all_is_fair(a, supplied, slots, fuel, j, list, i + 1, acc.push(x), rank);
        }
    }
}

/// Rewriting the columns of the slots fails only for a fault of the query.
pub proof fn fields_are_fair(
    a: AnalyzedView,
    supplied: Seq<FunctionSignatureView>,
    slots: Seq<SlotView>,
    fuel: nat,
    joins: Seq<JoinView>,
    k: int,
    f: int,
    acc: Seq<SelectItemView>,
    rank: Seq<nat>,
)
    requires
        seats(a, rank, slots, fuel),
    ensures
        fair(fields_from(a, supplied, slots, fuel, joins, k, f, acc)),
    decreases slots.len() - k, slot_fields(a, slots[k]).len() - f,
{
    if 0 <= k < slots.len() {
        let names = slot_fields(a, slots[k]);
        if 0 <= f < names.len() {
            let e = ExprView::Column(seq![slots[k].alias, names[f]]);
            seating_is_fair(a, supplied, slots, fuel, joins, e, rank);
            if let Ok((x, j)) = seated(a, supplied, slots, fuel, joins, e) {
                fields_are_fair(
                    a,
                    supplied,
                    slots,
                    fuel,
                    j,
                    k,
                    f + 1,
                    acc.push(SelectItemView { expr: x, alias: Some(names[f]) }),
                    rank,
                );
            }
        } else {
            fields_are_fair(a, supplied, slots, fuel, joins, k + 1, 0, acc, rank);
        }
    }
}

/// Rewriting select items fails only for a fault of the query.
pub proof fn items_are_fair(
    a: AnalyzedView,
    supplied: Seq<FunctionSignatureView>,
    slots: Seq<SlotView>,
    fuel: nat,
    joins: Seq<JoinView>,
    items: Seq<SelectItemView>,
    i: int,
    acc: Seq<SelectItemView>,
    rank: Seq<nat>,
)
    requires
        seats(a, rank, slots, fuel),
    ensures
        fair(items_from(a, supplied, slots, fuel, joins, items, i, acc)),
    decreases items.len() - i,
{
    if 0 <= i < items.len() {
        if items[i].expr is Wildcard && items[i].alias is None {
            fields_are_fair(a, supplied, slots, fuel, joins, 0, 0, acc, rank);
            if let Ok((acc2, j)) = fields_from(a, supplied, slots, fuel, joins, 0, 0, acc) {
                items_are_fair(a, supplied, slots, fuel, j, items, i + 1, acc2, rank);
            }
        } else if items[i].expr is Wildcard {
            if let Some(k) = slot_named(slots, items[i].alias->0, 0) {
                let one = only(slots, k);
                assert(slots_ok(a, one)) by {
                    assert forall|x: int| 0 <= x < one.len() implies ((
                    #[trigger] one[x]).entity matches Some(b) ==> b
                        < a.schema.table_names.len()) by {
                        assert(one[x].entity == slots[x].entity);
                    }
                }
                fields_are_fair(a, supplied, one, fuel, joins, 0, 0, acc, rank);
                if let Ok((acc2, j)) = fields_from(a, supplied, one, fuel, joins, 0, 0, acc) {
                    items_are_fair(a, supplied, slots, fuel, j, items, i + 1, acc2, rank);
                }
            }
        } else {
            seating_is_fair(a, supplied, slots, fuel, joins, items[i].expr, rank);
            if let Ok((x, j)) = seated(a, supplied, slots, fuel, joins, items[i].expr) {
                items_are_fair(
                    a,
                    supplied,
                    slots,
                    fuel,
                    j,
                    items,
                    i + 1,
                    acc.push(SelectItemView { expr: x, alias: output_alias(items[i]) }),
                    rank,
                );
            }
        }
    }
}

/// Rewriting sort keys fails only for a fault of the query.
pub proof fn keys_are_fair(
    a: AnalyzedView,
    supplied: Seq<FunctionSignatureView>,
    slots: Seq<SlotView>,
    fuel: nat,
    joins: Seq<JoinView>,
    aliases: Seq<Seq<char>>,
    keys: Seq<OrderItemView>,
    i: int,
    acc: Seq<OrderItemView>,
    rank: Seq<nat>,
)
    requires
        seats(a, rank, slots, fuel),
    ensures
        fair(sort_keys_from(a, supplied, slots, fuel, joins, aliases, keys, i, acc)),
    decreases keys.len() - i,
{
    if 0 <= i < keys.len() {
        seating_is_fair(a, supplied, slots, fuel, joins, keys[i].expr, rank);
        if let Ok((x, j)) = expanded_key(a, supplied, slots, fuel, joins, aliases, keys[i].expr) {
            keys_are_fair(
                a,
                supplied,
                slots,
                fuel,
                j,
                aliases,
                keys,
                i + 1,
                acc.push(OrderItemView { expr: x, descending: keys[i].descending }),
                rank,
            );
        }
    }
}

/// Rewriting the joins that a query block brings fails only for a fault of
/// the query.
pub proof fn brought_joins_are_fair(
    a: AnalyzedView,
    supplied: Seq<FunctionSignatureView>,
    slots: Seq<SlotView>,
    joins: Seq<JoinView>,
    i: int,
    acc: Seq<JoinView>,
    rank: Seq<nat>,
)
    requires
        seats(a, rank, slots, a.depth),
    ensures
        fair(joined_from(a, supplied, slots, joins, i, acc)),
    decreases joins.len() - i,
{
    if 0 <= i < joins.len() {
        seating_is_fair(a, supplied, slots, a.depth, Seq::empty(), joins[i].on, rank);
        if let Ok((on, extra)) = seated(a, supplied, slots, a.depth, Seq::empty(), joins[i].on) {
            if extra.len() == 0 {
                brought_joins_are_fair(
                    a,
                    supplied,
                    slots,
                    joins,
                    i + 1,
                    acc.push(
                        JoinView {
                            kind: joins[i].kind,
                            table: table_of(a, joins[i].table, slots[i + 1]),
                            on,
                        },
                    ),
                    rank,
                );
            }
        }
    }
}

/// The slot of a table reference over an entity is over an entity of the
/// model.
pub proof fn slot_is_within(a: AnalyzedView, blocks: Seq<SelectView>, t: TableRefView)
    ensures
        fair(slot_of(a, blocks, t)),
        slot_of(a, blocks, t) matches Ok(x) ==> (x.entity matches Some(b) ==> b
            < a.schema.table_names.len()),
{
    if let TableSourceView::Named(path) = t.source {
        if path.len() > 0 {
            position_is_a_place(a.schema.table_names, path[0]);
        }
        if path.len() > 1 {
            position_is_a_place(a.schema.table_names, path[1]);
        }
        if path.len() > 2 {
            position_is_a_place(a.schema.table_names, path[2]);
        }
    }
}

/// The slots of the joined tables are over entities of the model.
pub proof fn slots_are_within(
    a: AnalyzedView,
    blocks: Seq<SelectView>,
    joins: Seq<JoinView>,
    i: int,
    acc: Seq<SlotView>,
)
    requires
        slots_ok(a, acc),
    ensures
        fair(slots_from(a, blocks, joins, i, acc)),
        slots_from(a, blocks, joins, i, acc) matches Ok(slots) ==> slots_ok(a, slots),
    decreases joins.len() - i,
{
    if 0 <= i < joins.len() {
        slot_is_within(a, blocks, joins[i].table);
        if let Ok(x) = slot_of(a, blocks, joins[i].table) {
            let more = acc.push(x);
            assert forall|k: int| 0 <= k < more.len() implies ((#[trigger] more[k]).entity matches Some(
                b,
            ) ==> b < a.schema.table_names.len()) by {
                if k < acc.len() {
                    assert(more[k] == acc[k]);
                }
            }
            slots_are_within(a, blocks, joins, i + 1, more);
        }
    }
}

/// Rewriting a query block over a model whose parts fit together fails only
/// for a fault of the query: the depth of the model suffices, and every
/// condition can be placed.
pub proof fn rewriting_is_fair(
    a: AnalyzedView,
    supplied: Seq<FunctionSignatureView>,
    q: SelectView,
)
    requires
        well_formed(a),
    ensures
        fair(rewritten(a, supplied, q)),
{
    rewriting_in_is_fair(a, supplied, Seq::empty(), q);
}

/// The slots that joined tables lend are over entities of the model.
pub proof fn lent_are_within(a: AnalyzedView, joins: Seq<JoinView>, i: int, acc: Seq<SlotView>)
    requires
        slots_within(a, acc),
    ensures
        slots_within(a, lent_from(a, joins, i, acc)),
    decreases joins.len() - i,
{
    if 0 <= i < joins.len() {
        slot_is_within(a, Seq::empty(), joins[i].table);
        match lent_slot(a, joins[i].table) {
            Some(x) => {
                let more = acc.push(x);
                assert forall|k: int| 0 <= k < more.len() implies ((
                #[trigger] more[k]).entity matches Some(b) ==> b < a.schema.table_names.len()) by {
                    if k < acc.len() {
                        assert(more[k] == acc[k]);
                    }
                }
                lent_are_within(a, joins, i + 1, more);
            },
            None => {
                lent_are_within(a, joins, i + 1, acc);
            },
        }
    }
}

/// Two rows of slots over entities of the model make one such row.
pub proof fn joined_are_within(a: AnalyzedView, x: Seq<SlotView>, y: Seq<SlotView>)
    requires
        slots_within(a, x),
        slots_within(a, y),
    ensures
        slots_within(a, x + y),
{
    let all = x + y;
    assert forall|k: int| 0 <= k < all.len() implies ((#[trigger] all[k]).entity matches Some(b)
        ==> b < a.schema.table_names.len()) by {
        if k < x.len() {
            assert(all[k] == x[k]);
        } else {
            assert(all[k] == y[k - x.len()]);
        }
    }
}

/// Rewriting a query block that stands in other blocks fails only for a
/// fault of the query.
pub proof fn rewriting_in_is_fair(
    a: AnalyzedView,
    supplied: Seq<FunctionSignatureView>,
    outer: Seq<SlotView>,
    q: SelectView,
)
    requires
        well_formed(a),
        slots_within(a, outer),
    ensures
        fair(rewritten_in(a, supplied, outer, q)),
    decreases q, 0int,
{
    let rank = choose|rank: Seq<nat>| ranked(dependencies(a), rank);
    let start = match lent_slot(a, q.from) {
        Some(x) => seq![x],
        None => Seq::empty(),
    };
    slot_is_within(a, Seq::empty(), q.from);
    assert(slots_within(a, start)) by {
        if let Some(x) = lent_slot(a, q.from) {
            assert(start[0] == x);
        }
    }
    lent_are_within(a, q.joins, 0, start);
    joined_are_within(a, lent_slots(a, q), outer);
    let lent = lent_slots(a, q) + outer;
    blocks_are_fair(a, supplied, lent, q.blocks, 0, Seq::empty());
    if let Ok(blocks) = rewritten_blocks(a, supplied, lent, q.blocks, 0, Seq::empty()) {
        slot_is_within(a, blocks, q.from);
        if let Ok(first) = slot_of(a, blocks, q.from) {
            let one = seq![first];
            assert(one[0] == first);
            slots_are_within(a, blocks, q.joins, 0, one);
            if let Ok(own) = slots_from(a, blocks, q.joins, 0, one) {
                joined_are_within(a, own, outer);
                let slots = own + outer;
                assert(slots_ok(a, slots));
                let fuel = a.depth;
                let none = Seq::<JoinView>::empty();
                brought_joins_are_fair(a, supplied, slots, q.joins, 0, Seq::empty(), rank);
                items_are_fair(a, supplied, slots, fuel, none, q.items, 0, Seq::empty(), rank);
                if let Ok((items, j1)) = items_from(
                    a,
                    supplied,
                    slots,
                    fuel,
                    none,
                    q.items,
                    0,
                    Seq::empty(),
                ) {
                    if let Some(x) = q.filter {
                        seating_is_fair(a, supplied, slots, fuel, j1, x, rank);
                    }
                    if let Ok((filter, j2)) = expanded_opt(a, supplied, slots, fuel, j1, q.filter) {
                        seating_all_is_fair(
                            a,
                            supplied,
                            slots,
                            fuel,
                            j2,
                            q.group_by,
                            0,
                            Seq::empty(),
                            rank,
                        );
                        if let Ok((group_by, j3)) = seated_from(
                            a,
                            supplied,
                            slots,
                            fuel,
                            j2,
                            q.group_by,
                            0,
                            Seq::empty(),
                        ) {
                            if let Some(x) = q.having {
                                seating_is_fair(a, supplied, slots, fuel, j3, x, rank);
                            }
                            if let Ok((having, j4)) = expanded_opt(
                                a,
                                supplied,
                                slots,
                                fuel,
                                j3,
                                q.having,
                            ) {
                                keys_are_fair(
                                    a,
                                    supplied,
                                    slots,
                                    fuel,
                                    j4,
                                    crate::rewrite::aliases_from(q.items, 0, Seq::empty()),
                                    q.order_by,
                                    0,
                                    Seq::empty(),
                                    rank,
                                );
                            }
                        }
                    }
                }
            }
        }
    }
}

/// Rewriting nested blocks fails only for a fault of the query.
pub proof fn blocks_are_fair(
    a: AnalyzedView,
    supplied: Seq<FunctionSignatureView>,
    outer: Seq<SlotView>,
    blocks: Seq<SelectView>,
    i: int,
    acc: Seq<SelectView>,
)
    requires
        well_formed(a),
        slots_within(a, outer),
    ensures
        fair(rewritten_blocks(a, supplied, outer, blocks, i, acc)),
    decreases blocks, blocks.len() - i,
{
    if 0 <= i < blocks.len() {
        rewriting_in_is_fair(a, supplied, outer, blocks[i]);
        if let Ok(x) = rewritten_in(a, supplied, outer, blocks[i]) {
            blocks_are_fair(a, supplied, outer, blocks, i + 1, acc.push(x));
        }
    }
}

} // verus!
