//! What holds of analysis and transformation as a whole.

use vstd::prelude::*;
use vstd::string::*;

use crate::analysis::{
    readings_of, resolved_parts, AnalysisErrorView, ColumnNameView, ResolvedView, SessionPropertyView,
};
use crate::analyze::{analysis_outcome, names_column, names_cycle, PhysicalTableView};
use crate::ast::{
    ExprView, JoinView, OrderItemView, SelectItemView, SelectView, TableRefView,
};
use crate::depth::{named_slot_is_within, slot_with_is_within};
use crate::rewrite::{
    aliases_from, chosen, items_from, joined_from, lent_slots, output_alias, rewritten,
    rewritten_blocks,
    seated, seated_from, slot_of, slots_from, sort_keys_from, table_of, top_scope, SlotView,
};
use crate::dialect::Dialect;
use crate::render::{form_of, rendered_expr, rendered_list, Form, RenderErrorView};
use crate::cycles::{acyclic, has_edge, is_cycle, ranked, ranked_has_no_cycle};
use crate::deps::dependencies_of;
use crate::expand::{expanded, expanded_from, leading, leading_from, qualifier_len, ScopeView};
use crate::functions::{function_kind, FunctionKind, FunctionSignatureView};
use crate::joins::{
    join_for, joined_alias, walked, BindErrorView, ExpandErrorView, RewriteErrorView,
};
use crate::manifest::ManifestView;
use crate::model::{well_formed, AnalyzedView, DefinitionView};
use crate::routes::{arrival, is_route, leaves, Edge, Step};
use crate::schema::{
    followed, joins_up, resolved, resolved_from, route_between, schema_ok, ReferenceErrorView,
    SchemaView,
    TargetView,
};
use crate::text::position;
use crate::transform::{transformed, TransformErrorView};

verus! {

/// Transformation is a function of its inputs: two transformations of the
/// same query under the same analyzed model, functions and session
/// properties give the same text, or the same error.
pub proof fn transformation_is_repeatable(
    a: AnalyzedView,
    supplied: Seq<FunctionSignatureView>,
    props: Seq<SessionPropertyView>,
    sql: Seq<char>,
    first: Result<Seq<char>, TransformErrorView>,
    second: Result<Seq<char>, TransformErrorView>,
)
    requires
        first == transformed(a, supplied, props, sql),
        second == transformed(a, supplied, props, sql),
    ensures
        first == second,
{
}

/// Analysis is repeatable: two analyses of the same manifest under the same
/// session properties that both succeed give the same analyzed model, and
/// so the same text for every query.
pub proof fn analysis_is_repeatable(
    m: ManifestView,
    props: Seq<SessionPropertyView>,
    catalog: Option<Seq<PhysicalTableView>>,
    first: AnalyzedView,
    second: AnalyzedView,
    supplied: Seq<FunctionSignatureView>,
    query_props: Seq<SessionPropertyView>,
    sql: Seq<char>,
)
    requires
        analysis_outcome(m, props, catalog, Ok(first)),
        analysis_outcome(m, props, catalog, Ok(second)),
    ensures
        first == second,
        well_formed(first),
        transformed(first, supplied, query_props, sql) == transformed(
            second,
            supplied,
            query_props,
            sql,
        ),
{
}

/// A manifest whose names, relationships and derived columns resolve, but
/// whose derived columns depend on each other in a cycle, fails analysis
/// with a cyclic-dependency error, and the error names the columns of a
/// cycle that exists.
pub proof fn cycle_fails_analysis(
    m: ManifestView,
    props: Seq<SessionPropertyView>,
    catalog: Option<Seq<PhysicalTableView>>,
    parts: ResolvedView,
    c: Seq<usize>,
    r: Result<AnalyzedView, AnalysisErrorView>,
)
    requires
        resolved_parts(m, props, readings_of(m)) == Ok::<ResolvedView, AnalysisErrorView>(parts),
        is_cycle(dependencies_of(parts.schema, parts.definitions), c),
        analysis_outcome(m, props, catalog, r),
    ensures
        r is Err,
        r->Err_0 is CyclicDependency,
        exists|found: Seq<usize>| #[trigger]
            names_cycle(
                parts.schema,
                dependencies_of(parts.schema, parts.definitions),
                found,
                r->Err_0->CyclicDependency_0,
            ),
{
    let g = dependencies_of(parts.schema, parts.definitions);
    if acyclic(g) {
        let rank = choose|rank: Seq<nat>| ranked(g, rank);
        ranked_has_no_cycle(g, rank, c);
    }
}

/// Two derived columns that refer to each other make analysis fail with a
/// cyclic-dependency error, where the names, relationships and derived
/// columns of the manifest resolve: the column `x` depends on `y`, and `y`
/// on `x`.
pub proof fn mutual_reference_fails_analysis(
    m: ManifestView,
    props: Seq<SessionPropertyView>,
    catalog: Option<Seq<PhysicalTableView>>,
    parts: ResolvedView,
    x: usize,
    y: usize,
    r: Result<AnalyzedView, AnalysisErrorView>,
)
    requires
        resolved_parts(m, props, readings_of(m)) == Ok::<ResolvedView, AnalysisErrorView>(parts),
        has_edge(dependencies_of(parts.schema, parts.definitions), x as int, y as int),
        has_edge(dependencies_of(parts.schema, parts.definitions), y as int, x as int),
        analysis_outcome(m, props, catalog, r),
    ensures
        r is Err,
        r->Err_0 is CyclicDependency,
        exists|found: Seq<usize>| #[trigger]
            names_cycle(
                parts.schema,
                dependencies_of(parts.schema, parts.definitions),
                found,
                r->Err_0->CyclicDependency_0,
            ),
{
    let g = dependencies_of(parts.schema, parts.definitions);
    let c = seq![x, y];
    assert(c[0] == x && c[1] == y && c.last() == y);
    assert(is_cycle(g, c));
    cycle_fails_analysis(m, props, catalog, parts, c, r);
}

/// Where every cycle of the dependencies passes through the columns `x` and
/// `y`, as it does where `x` and `y` refer to each other and nothing else
/// closes a cycle, the cyclic-dependency error names both.
pub proof fn cycle_error_names_both(
    s: SchemaView,
    g: Seq<Seq<usize>>,
    x: usize,
    y: usize,
    found: Seq<usize>,
    names: Seq<ColumnNameView>,
)
    requires
        forall|p: Seq<usize>| is_cycle(g, p) ==> p.contains(x) && p.contains(y),
        names_cycle(s, g, found, names),
    ensures
        exists|i: int| 0 <= i < names.len() && names_column(s, x as int, #[trigger] names[i]),
        exists|j: int| 0 <= j < names.len() && names_column(s, y as int, #[trigger] names[j]),
{
    assert(found.contains(x) && found.contains(y));
    let i = choose|i: int| 0 <= i < found.len() && found[i] == x;
    let j = choose|j: int| 0 <= j < found.len() && found[j] == y;
    assert(names_column(s, found[i] as int, names[i]));
    assert(names_column(s, found[j] as int, names[j]));
}

/// Where the only dependencies are that `x` depends on `y` and `y` on `x`,
/// every cycle passes through both.
pub proof fn mutual_reference_is_the_only_cycle(g: Seq<Seq<usize>>, x: usize, y: usize, p: Seq<usize>)
    requires
        x != y,
        forall|u: int, v: int|
            has_edge(g, u, v) ==> (u == x && v == y) || (u == y && v == x),
        is_cycle(g, p),
    ensures
        p.contains(x),
        p.contains(y),
{
    if p.len() == 1 {
        assert(has_edge(g, p.last() as int, p[0] as int));
        assert(false);
    } else {
        assert(has_edge(g, p[0] as int, p[1] as int));
        if p[0] == x {
            assert(p[1] == y);
        } else {
            assert(p[0] == y && p[1] == x);
        }
    }
}

/// Whether the edge joins the nodes `a` and `b`, in either direction.
pub open spec fn joins_pair(e: Edge, a: int, b: int) -> bool {
    (e.left == a && e.right == b) || (e.left == b && e.right == a)
}

/// Two entities that two different relationships join are connected
/// ambiguously.
pub proof fn two_relationships_are_ambiguous(edges: Seq<Edge>, a: int, b: int, r1: int, r2: int)
    requires
        a != b,
        r1 != r2,
        0 <= r1 < edges.len(),
        0 <= r2 < edges.len(),
        r1 <= usize::MAX,
        r2 <= usize::MAX,
        joins_pair(edges[r1], a, b),
        joins_pair(edges[r2], a, b),
    ensures
        route_between(edges, a, b) is Ambiguous,
{
    let s1 = Step { edge: r1 as usize, forward: edges[r1].left == a };
    let s2 = Step { edge: r2 as usize, forward: edges[r2].left == a };
    let p1 = seq![s1];
    let p2 = seq![s2];
    let gone = Set::<int>::empty().insert(a);
    assert(p1.drop_first().len() == 0);
    assert(p2.drop_first().len() == 0);
    assert(is_route(edges, b, b, gone, p1.drop_first()));
    assert(is_route(edges, b, b, gone, p2.drop_first()));
    assert(arrival(edges, p1[0]) == b && leaves(edges, a, p1[0]));
    assert(arrival(edges, p2[0]) == b && leaves(edges, a, p2[0]));
    assert(joins_up(edges, a, b, p1));
    assert(joins_up(edges, a, b, p2));
    assert(p1[0] != p2[0]);
    let p = choose|p: Seq<Step>| joins_up(edges, a, b, p);
    if forall|q: Seq<Step>| joins_up(edges, a, b, q) ==> q == p {
        assert(p1 == p);
        assert(p2 == p);
    }
}

/// A column path that reaches the entity `b` from the entity `a` by the
/// name of `b`, where two different relationships join `a` and `b`, is
/// rejected as ambiguous: neither relationship is picked. A query over `a`
/// that uses such a path fails to expand with that error.
pub proof fn undecided_path_is_rejected(
    model: AnalyzedView,
    supplied: Seq<FunctionSignatureView>,
    sc: ScopeView,
    fuel: nat,
    joins: Seq<JoinView>,
    b: int,
    r1: int,
    r2: int,
    column: Seq<char>,
)
    requires
        schema_ok(model.schema),
        0 <= sc.base < model.schema.table_names.len(),
        0 <= b < model.schema.table_names.len(),
        sc.base != b,
        r1 != r2,
        0 <= r1 < model.schema.edges.len(),
        0 <= r2 < model.schema.edges.len(),
        r1 <= usize::MAX,
        r2 <= usize::MAX,
        joins_pair(model.schema.edges[r1], sc.base, b),
        joins_pair(model.schema.edges[r2], sc.base, b),
        position(model.schema.link_names, model.schema.table_names[b]) is None,
        position(model.schema.table_names, model.schema.table_names[b]) == Some(b),
        sc.aliased != Some(model.schema.table_names[b]),
    ensures
        resolved(model.schema, sc.base, seq![model.schema.table_names[b], column]) == Err::<
            crate::schema::TargetView,
            ReferenceErrorView,
        >(
            ReferenceErrorView::AmbiguousPath {
                from: model.schema.table_names[sc.base],
                to: model.schema.table_names[b],
            },
        ),
        expanded(
            model,
            supplied,
            sc,
            fuel,
            joins,
            ExprView::Column(seq![model.schema.table_names[b], column]),
        ) == Err::<(ExprView, Seq<JoinView>), RewriteErrorView>(
            RewriteErrorView::Expand(
                ExpandErrorView::Path(
                    ReferenceErrorView::AmbiguousPath {
                        from: model.schema.table_names[sc.base],
                        to: model.schema.table_names[b],
                    },
                ),
            ),
        ),
{
    let s = model.schema;
    let path = seq![s.table_names[b], column];
    two_relationships_are_ambiguous(s.edges, sc.base, b, r1, r2);
    assert(s.routes[sc.base][b] == route_between(s.edges, sc.base, b));
    assert(path[0] == s.table_names[b]);
    assert(qualifier_len(sc.aliased, path) == 0);
}

/// A column path whose last segment names no column of the entity that the
/// path leads to is rejected with an error that names the entity and the
/// column, whatever the physical tables hold. A query that uses such a path
/// fails to bind with that error.
pub proof fn unknown_column_is_rejected(
    model: AnalyzedView,
    supplied: Seq<FunctionSignatureView>,
    sc: ScopeView,
    fuel: nat,
    joins: Seq<JoinView>,
    path: Seq<Seq<char>>,
    steps: Seq<Step>,
    t: int,
)
    requires
        path.len() > 0,
        followed(model.schema, sc.base, path, qualifier_len(sc.aliased, path), Seq::empty()) == Ok::<
            (Seq<Step>, int),
            ReferenceErrorView,
        >((steps, t)),
        position(model.schema.field_names[t], path.last()) is None,
    ensures
        expanded(model, supplied, sc, fuel, joins, ExprView::Column(path)) == Err::<
            (ExprView, Seq<JoinView>),
            RewriteErrorView,
        >(
            RewriteErrorView::Bind(
                BindErrorView::Reference(
                    ReferenceErrorView::UnknownColumn {
                        entity: model.schema.table_names[t],
                        column: path.last(),
                    },
                ),
            ),
        ),
{
}

/// An aggregate over a column of a directly related entity, in the
/// definition of a derived column, expands to a scalar subquery over the
/// table of that entity: the aggregate is computed over the rows that the
/// join condition of the relationship relates to the row it belongs to, and
/// the joins of the query around it stay as they are.
pub proof fn summary_is_scoped(
    model: AnalyzedView,
    supplied: Seq<FunctionSignatureView>,
    sc: ScopeView,
    fuel: nat,
    joins: Seq<JoinView>,
    name: Seq<char>,
    distinct: bool,
    path: Seq<Seq<char>>,
    step: Step,
    t: int,
    f: int,
    physical: Seq<char>,
    join: JoinView,
)
    requires
        sc.inner,
        sc.skip is None,
        sc.aliased is None,
        function_kind(supplied, name) == Some(FunctionKind::Aggregate),
        resolved(model.schema, sc.base, path) == Ok::<TargetView, ReferenceErrorView>(
            TargetView { steps: seq![step], table: t, field: f },
        ),
        model.definitions[t][f] == DefinitionView::Physical(physical),
        join_for(
            model,
            step,
            sc.alias,
            joined_alias(sc.alias, model.schema.link_names[step.edge as int]),
        ) == Ok::<JoinView, RewriteErrorView>(join),
    ensures
        join.table.source == model.sources[arrival(model.schema.edges, step)],
        expanded(
            model,
            supplied,
            sc,
            fuel,
            joins,
            ExprView::Call(name, distinct, seq![ExprView::Column(path)]),
        ) == Ok::<(ExprView, Seq<JoinView>), RewriteErrorView>(
            (
                ExprView::Summary {
                    call: Box::new(
                        ExprView::Call(
                            name,
                            distinct,
                            seq![
                                ExprView::Column(
                                    seq![
                                        joined_alias(
                                            sc.alias,
                                            model.schema.link_names[step.edge as int],
                                        ),
                                        physical,
                                    ],
                                ),
                            ],
                        ),
                    ),
                    table: join.table,
                    joins: Seq::empty(),
                    on: Box::new(join.on),
                },
                joins,
            ),
        ),
{
    let args = seq![ExprView::Column(path)];
    let inner_alias = joined_alias(sc.alias, model.schema.link_names[step.edge as int]);
    let inner = ScopeView {
        base: sc.base,
        alias: inner_alias,
        skip: Some(step),
        aliased: None,
        inner: true,
        summed: true,
    };
    let none = Seq::<JoinView>::empty();
    let steps = seq![step];
    assert(steps[0] == step);
    assert(leading(model.schema, sc.base, args[0]) == Some(step));
    assert(leading_from(model.schema, sc.base, args, 1) is None);
    assert(leading_from(model.schema, sc.base, args, 0) == Some(step));
    assert(qualifier_len(inner.aliased, path) == 0);
    assert(walked(model, inner_alias, steps, 1, true, none) == Ok::<
        (Seq<char>, Seq<JoinView>),
        RewriteErrorView,
    >((inner_alias, none)));
    let column = ExprView::Column(seq![inner_alias, physical]);
    assert(expanded(model, supplied, inner, fuel, none, args[0]) == Ok::<
        (ExprView, Seq<JoinView>),
        RewriteErrorView,
    >((column, none)));
    let one = Seq::<ExprView>::empty().push(column);
    assert(one == seq![column]);
    assert(expanded_from(model, supplied, inner, fuel, none, args, 1, one) == Ok::<
        (Seq<ExprView>, Seq<JoinView>),
        RewriteErrorView,
    >((one, none)));
    assert(expanded_from(model, supplied, inner, fuel, none, args, 0, Seq::empty()) == Ok::<
        (Seq<ExprView>, Seq<JoinView>),
        RewriteErrorView,
    >((one, none)));
}

/// Transformation under a model that analysis returned fails only for a
/// fault of the query: the depth of the model suffices for every query, and
/// every join condition can be placed.
pub proof fn analyzed_models_serve_every_query(
    m: ManifestView,
    props: Seq<SessionPropertyView>,
    catalog: Option<Seq<PhysicalTableView>>,
    a: AnalyzedView,
    supplied: Seq<FunctionSignatureView>,
    query_props: Seq<SessionPropertyView>,
    sql: Seq<char>,
)
    requires
        analysis_outcome(m, props, catalog, Ok(a)),
    ensures
        transformed(a, supplied, query_props, sql) matches Err(TransformErrorView::Expand(e))
            ==> !(e is TooDeep) && !(e is InvalidCondition),
{
    if let Ok(t) = crate::lexer::meaningful_lexemes(sql) {
        if let Ok(q) = crate::query::select_of(t) {
            crate::depth::rewriting_is_fair(a, supplied, q);
        }
    }
}

/// The text that a dialect writes for a call of a built-in function that
/// takes no argument: the dialect's keyword, or its name for the function
/// and a pair of parentheses.
pub open spec fn bare_call(d: Dialect, name: Seq<char>) -> Seq<char> {
    let (form, text) = form_of(d, name);
    if form == Form::Bare {
        text
    } else {
        text + "()"@
    }
}

/// Where two dialects write a function differently, and each of them can
/// write it, a call of the function without arguments is rendered in two
/// different texts: in each dialect under the name that the dialect has
/// for it.
pub proof fn dialects_differ_on_a_function(
    d1: Dialect,
    d2: Dialect,
    name: Seq<char>,
    subs: Seq<Seq<char>>,
)
    requires
        form_of(d1, name) != form_of(d2, name),
        form_of(d1, name).0 != Form::Missing,
        form_of(d2, name).0 != Form::Missing,
    ensures
        rendered_expr(d1, subs, ExprView::Call(name, false, Seq::empty()), Seq::empty()) == Ok::<
            Seq<char>,
            RenderErrorView,
        >(bare_call(d1, name)),
        rendered_expr(d2, subs, ExprView::Call(name, false, Seq::empty()), Seq::empty()) == Ok::<
            Seq<char>,
            RenderErrorView,
        >(bare_call(d2, name)),
        bare_call(d1, name) != bare_call(d2, name),
{
    let none = Seq::<ExprView>::empty();
    let e = ExprView::Call(name, false, none);
    let start1 = Seq::<char>::empty() + form_of(d1, name).1 + "("@;
    let start2 = Seq::<char>::empty() + form_of(d2, name).1 + "("@;
    assert(rendered_list(d1, subs, 0, none, 0, start1) == Ok::<Seq<char>, RenderErrorView>(start1));
    assert(rendered_list(d2, subs, 0, none, 0, start2) == Ok::<Seq<char>, RenderErrorView>(start2));
    assert(start1 + ")"@ =~= form_of(d1, name).1 + "()"@) by {
        reveal_strlit("(");
        reveal_strlit(")");
        reveal_strlit("()");
    }
    assert(start2 + ")"@ =~= form_of(d2, name).1 + "()"@) by {
        reveal_strlit("(");
        reveal_strlit(")");
        reveal_strlit("()");
    }
    assert(Seq::<char>::empty() + form_of(d1, name).1 =~= form_of(d1, name).1);
    assert(Seq::<char>::empty() + form_of(d2, name).1 =~= form_of(d2, name).1);
    reveal_strlit("()");
    reveal_strlit("CEILING");
    reveal_strlit("CEIL");
    reveal_strlit("LEN");
    reveal_strlit("LENGTH");
    reveal_strlit("SUBSTRING");
    reveal_strlit("SUBSTR");
    reveal_strlit("CURRENT_TIMESTAMP");
    reveal_strlit("SYSDATETIME");
    reveal_strlit("SYSTIMESTAMP");
    reveal_strlit("NOW");
    assert(bare_call(d1, name).len() != bare_call(d2, name).len());
}

/// The query block that selects the column `p` from the table reference
/// `from`, and nothing else.
pub open spec fn one_column_query(from: TableRefView, p: Seq<Seq<char>>) -> SelectView {
    SelectView {
        distinct: false,
        items: seq![SelectItemView { expr: ExprView::Column(p), alias: None }],
        from,
        joins: Seq::empty(),
        filter: None,
        group_by: Seq::empty(),
        having: None,
        order_by: Seq::empty(),
        limit: None,
        offset: None,
        blocks: Seq::empty(),
        union_with: None,
    }
}

/// A query block that selects one column from one entity is rewritten to a
/// block over the table of that entity whose one item is the expansion of
/// the column, and whose joins are those that this expansion needs and no
/// others. So where the column summarizes related rows in a subquery of its
/// own, which needs no join, the block has no join: it gives one row for
/// each row of the entity.
pub proof fn one_column_query_joins_what_its_column_needs(
    a: AnalyzedView,
    supplied: Seq<FunctionSignatureView>,
    from: TableRefView,
    slot: SlotView,
    b: usize,
    p: Seq<Seq<char>>,
    x: ExprView,
    j: Seq<JoinView>,
)
    requires
        slot_of(a, Seq::empty(), from) == Ok::<SlotView, RewriteErrorView>(slot),
        slot.entity == Some(b),
        expanded(
            a,
            supplied,
            top_scope(b as int, slot.alias),
            a.depth,
            Seq::empty(),
            ExprView::Column(p),
        ) == Ok::<(ExprView, Seq<JoinView>), RewriteErrorView>((x, j)),
    ensures
        rewritten(a, supplied, one_column_query(from, p)) == Ok::<SelectView, RewriteErrorView>(
            SelectView {
                items: seq![
                    SelectItemView {
                        expr: x,
                        alias: output_alias(
                            SelectItemView { expr: ExprView::Column(p), alias: None },
                        ),
                    },
                ],
                from: TableRefView { source: a.sources[b as int], alias: Some(slot.alias) },
                joins: j,
                ..one_column_query(from, p)
            },
        ),
{
    let q = one_column_query(from, p);
    let none = Seq::<JoinView>::empty();
    let slots = seq![slot];
    let item = SelectItemView { expr: ExprView::Column(p), alias: None };
    let lent = lent_slots(a, q) + Seq::<SlotView>::empty();
    assert(rewritten_blocks(a, supplied, lent, q.blocks, 0, Seq::empty()) == Ok::<
        Seq<SelectView>,
        RewriteErrorView,
    >(Seq::empty()));
    assert(slots + Seq::<SlotView>::empty() =~= slots);
    assert(slots_from(a, Seq::empty(), q.joins, 0, slots) == Ok::<Seq<SlotView>, RewriteErrorView>(
        slots,
    ));
    assert(joined_from(a, supplied, slots, q.joins, 0, Seq::empty()) == Ok::<
        Seq<JoinView>,
        RewriteErrorView,
    >(none));
    if p.len() > 0 {
        named_slot_is_within(slots, p[0], 0);
        slot_with_is_within(a, slots, p[0], 0);
    }
    assert(chosen(a, slots, p) == 0);
    assert(slots[0] == slot);
    assert(seated(a, supplied, slots, a.depth, none, ExprView::Column(p)) == Ok::<
        (ExprView, Seq<JoinView>),
        RewriteErrorView,
    >((x, j)));
    let out = SelectItemView { expr: x, alias: output_alias(item) };
    assert(q.items[0] == item);
    let one = Seq::<SelectItemView>::empty().push(out);
    assert(one == seq![out]);
    assert(items_from(a, supplied, slots, a.depth, j, q.items, 1, one) == Ok::<
        (Seq<SelectItemView>, Seq<JoinView>),
        RewriteErrorView,
    >((one, j)));
    assert(items_from(a, supplied, slots, a.depth, none, q.items, 0, Seq::empty()) == Ok::<
        (Seq<SelectItemView>, Seq<JoinView>),
        RewriteErrorView,
    >((one, j)));
    assert(seated_from(a, supplied, slots, a.depth, j, q.group_by, 0, Seq::empty()) == Ok::<
        (Seq<ExprView>, Seq<JoinView>),
        RewriteErrorView,
    >((Seq::empty(), j)));
    assert(sort_keys_from(
        a,
        supplied,
        slots,
        a.depth,
        j,
        aliases_from(q.items, 0, Seq::empty()),
        q.order_by,
        0,
        Seq::empty(),
    ) == Ok::<(Seq<OrderItemView>, Seq<JoinView>), RewriteErrorView>((Seq::empty(), j)));
    assert(none + j =~= j);
    assert(table_of(a, from, slot) == (TableRefView {
        source: a.sources[b as int],
        alias: Some(slot.alias),
    }));
}

/// The scope in which the definition of a column of the entity `b` is
/// expanded, where a query block calls the entity `alias`.
pub open spec fn definition_scope(b: int, alias: Seq<char>) -> ScopeView {
    ScopeView { base: b, alias, skip: None, aliased: None, inner: true, summed: false }
}

/// A query block that selects, from one entity, a derived column which
/// summarizes a column of a directly related entity is rewritten to a block
/// without a join. Its one item is a scalar subquery over the table of the
/// related entity, whose condition is the join condition of the
/// relationship between the row of the entity and the rows it summarizes.
/// So the block gives one row for each row of the entity, however many rows
/// are related to it.
pub proof fn summary_query_has_no_join(
    a: AnalyzedView,
    supplied: Seq<FunctionSignatureView>,
    from: TableRefView,
    slot: SlotView,
    b: usize,
    column: Seq<char>,
    f: int,
    name: Seq<char>,
    distinct: bool,
    path: Seq<Seq<char>>,
    step: Step,
    t: int,
    g: int,
    physical: Seq<char>,
    join: JoinView,
)
    requires
        a.depth > 0,
        slot_of(a, Seq::empty(), from) == Ok::<SlotView, RewriteErrorView>(slot),
        slot.entity == Some(b),
        resolved_from(a.schema, b as int, seq![column], 0) == Ok::<TargetView, ReferenceErrorView>(
            TargetView { steps: Seq::empty(), table: b as int, field: f },
        ),
        a.definitions[b as int][f] == DefinitionView::Derived(
            ExprView::Call(name, distinct, seq![ExprView::Column(path)]),
        ),
        function_kind(supplied, name) == Some(FunctionKind::Aggregate),
        resolved(a.schema, b as int, path) == Ok::<TargetView, ReferenceErrorView>(
            TargetView { steps: seq![step], table: t, field: g },
        ),
        a.definitions[t][g] == DefinitionView::Physical(physical),
        join_for(
            a,
            step,
            slot.alias,
            joined_alias(slot.alias, a.schema.link_names[step.edge as int]),
        ) == Ok::<JoinView, RewriteErrorView>(join),
    ensures
        join.table.source == a.sources[arrival(a.schema.edges, step)],
        rewritten(a, supplied, one_column_query(from, seq![column])) == Ok::<
            SelectView,
            RewriteErrorView,
        >(
            SelectView {
                items: seq![
                    SelectItemView {
                        expr: ExprView::Summary {
                            call: Box::new(
                                ExprView::Call(
                                    name,
                                    distinct,
                                    seq![
                                        ExprView::Column(
                                            seq![
                                                joined_alias(
                                                    slot.alias,
                                                    a.schema.link_names[step.edge as int],
                                                ),
                                                physical,
                                            ],
                                        ),
                                    ],
                                ),
                            ),
                            table: join.table,
                            joins: Seq::empty(),
                            on: Box::new(join.on),
                        },
                        alias: Some(column),
                    },
                ],
                from: TableRefView { source: a.sources[b as int], alias: Some(slot.alias) },
                joins: Seq::empty(),
                ..one_column_query(from, seq![column])
            },
        ),
{
    let none = Seq::<JoinView>::empty();
    let p = seq![column];
    let inner = definition_scope(b as int, slot.alias);
    let d = ExprView::Call(name, distinct, seq![ExprView::Column(path)]);
    let top = top_scope(b as int, slot.alias);
    summary_is_scoped(
        a,
        supplied,
        inner,
        (a.depth - 1) as nat,
        none,
        name,
        distinct,
        path,
        step,
        t,
        g,
        physical,
        join,
    );
    let x = ExprView::Summary {
        call: Box::new(
            ExprView::Call(
                name,
                distinct,
                seq![
                    ExprView::Column(
                        seq![
                            joined_alias(slot.alias, a.schema.link_names[step.edge as int]),
                            physical,
                        ],
                    ),
                ],
            ),
        ),
        table: join.table,
        joins: Seq::empty(),
        on: Box::new(join.on),
    };
    assert(p.len() == 1 && p[0] == column);
    assert(qualifier_len(top.aliased, p) == 0);
    let steps = Seq::<Step>::empty();
    assert(walked(a, slot.alias, steps, 0, false, none) == Ok::<
        (Seq<char>, Seq<JoinView>),
        RewriteErrorView,
    >((slot.alias, none)));
    assert(expanded(a, supplied, top, a.depth, none, ExprView::Column(p)) == expanded(
        a,
        supplied,
        inner,
        (a.depth - 1) as nat,
        none,
        d,
    ));
    one_column_query_joins_what_its_column_needs(a, supplied, from, slot, b, p, x, none);
    assert(p.last() == column);
}

} // verus!
