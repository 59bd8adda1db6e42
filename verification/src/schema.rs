//! The names of the virtual schema and its relationship graph: entities as
//! nodes, relationships as edges, and for every pair of entities how they
//! are connected. Column paths are resolved against it.

use vstd::prelude::*;

use crate::routes::{
    arrival, connects, edges_within, find_route, is_route, leaves, Edge, Route, Step,
};
use crate::text::{distinct, find_name, is_first, position, position_of_distinct, texts};

verus! {

/// The mathematical value of a [`Route`].
pub enum RouteView {
    Unconnected,
    Unique(Seq<Step>),
    Ambiguous,
}

impl View for Route {
    type V = RouteView;

    open spec fn view(&self) -> RouteView {
        match self {
            Route::Unconnected => RouteView::Unconnected,
            Route::Unique(v) => RouteView::Unique(v@),
            Route::Ambiguous => RouteView::Ambiguous,
        }
    }
}

/// Whether the steps `p` are a route from `a` to `b`.
pub open spec fn joins_up(edges: Seq<Edge>, a: int, b: int, p: Seq<Step>) -> bool {
    is_route(edges, a, b, Set::empty(), p)
}

/// How `a` and `b` are connected: by no route, by exactly one, or by more
/// than one.
pub open spec fn route_between(edges: Seq<Edge>, a: int, b: int) -> RouteView {
    if forall|p: Seq<Step>| !joins_up(edges, a, b, p) {
        RouteView::Unconnected
    } else {
        let p = choose|p: Seq<Step>| joins_up(edges, a, b, p);
        if forall|q: Seq<Step>| joins_up(edges, a, b, q) ==> q == p {
            RouteView::Unique(p)
        } else {
            RouteView::Ambiguous
        }
    }
}

/// What a search found is what `route_between` says.
pub proof fn found_route_is_the_route(edges: Seq<Edge>, a: int, b: int, r: Route)
    requires
        connects(edges, a, b, r),
    ensures
        r@ == route_between(edges, a, b),
{
    match r {
        Route::Unconnected => {},
        Route::Unique(v) => {
            assert(joins_up(edges, a, b, v@));
            let p = choose|p: Seq<Step>| joins_up(edges, a, b, p);
            assert(p == v@);
        },
        Route::Ambiguous => {
            let (x, y) = choose|x: Seq<Step>, y: Seq<Step>|
                x != y && is_route(edges, a, b, Set::empty(), x) && is_route(
                    edges,
                    a,
                    b,
                    Set::empty(),
                    y,
                );
            assert(joins_up(edges, a, b, x));
            assert(joins_up(edges, a, b, y));
            let p = choose|p: Seq<Step>| joins_up(edges, a, b, p);
            if forall|q: Seq<Step>| joins_up(edges, a, b, q) ==> q == p {
                assert(x == p);
                assert(y == p);
            }
        },
    }
}

/// The values of a table of routes.
pub open spec fn route_views(t: Seq<Vec<Route>>) -> Seq<Seq<RouteView>> {
    Seq::new(t.len(), |a: int| Seq::new(t[a]@.len(), |b: int| t[a]@[b]@))
}

/// The table that says for every pair of the first `n` nodes how they are
/// connected.
pub open spec fn all_routes(edges: Seq<Edge>, n: int) -> Seq<Seq<RouteView>> {
    Seq::new(n as nat, |a: int| Seq::new(n as nat, |b: int| route_between(edges, a, b)))
}

/// Computes for every pair of nodes how they are connected.
pub(crate) fn route_table(edges: &Vec<Edge>, n: usize) -> (r: Vec<Vec<Route>>)
    requires
        edges_within(edges@, n as int),
    ensures
        route_views(r@) == all_routes(edges@, n as int),
{
    let mut table: Vec<Vec<Route>> = Vec::new();
    let mut a: usize = 0;
    while a < n
        invariant
            a <= n,
            edges_within(edges@, n as int),
            table.len() == a,
            forall|x: int|
                0 <= x < a ==> (#[trigger] table@[x])@.len() == n && forall|y: int|
                    0 <= y < n ==> (#[trigger] table@[x]@[y])@ == route_between(edges@, x, y),
        decreases n - a,
    {
        let mut row: Vec<Route> = Vec::new();
        let mut b: usize = 0;
        while b < n
            invariant
                a < n,
                b <= n,
                edges_within(edges@, n as int),
                row.len() == b,
                forall|y: int|
                    0 <= y < b ==> (#[trigger] row@[y])@ == route_between(edges@, a as int, y),
            decreases n - b,
        {
            let r = find_route(edges, n, a, b);
            proof {
                found_route_is_the_route(edges@, a as int, b as int, r);
            }
            row.push(r);
            b += 1;
        }
        table.push(row);
        a += 1;
    }
    assert(route_views(table@) =~~= all_routes(edges@, n as int));
    table
}

/// The names of a virtual schema and its relationship graph.
#[derive(Debug, PartialEq, Eq)]
pub struct Schema {
    /// The name of each entity.
    pub table_names: Vec<String>,
    /// For each entity, the names of its columns.
    pub field_names: Vec<Vec<String>>,
    /// The name of each relationship.
    pub link_names: Vec<String>,
    /// For each relationship, the places of its left and right entities.
    pub edges: Vec<Edge>,
    /// For each pair of entities, how they are connected.
    pub routes: Vec<Vec<Route>>,
}

pub struct SchemaView {
    pub table_names: Seq<Seq<char>>,
    pub field_names: Seq<Seq<Seq<char>>>,
    pub link_names: Seq<Seq<char>>,
    pub edges: Seq<Edge>,
    pub routes: Seq<Seq<RouteView>>,
}

impl View for Schema {
    type V = SchemaView;

    open spec fn view(&self) -> SchemaView {
        SchemaView {
            table_names: texts(self.table_names@),
            field_names: Seq::new(self.field_names@.len(), |i: int| texts(self.field_names@[i]@)),
            link_names: texts(self.link_names@),
            edges: self.edges@,
            routes: route_views(self.routes@),
        }
    }
}

/// Whether the parts of a schema fit together: every entity has its list of
/// columns, every relationship its edge between two entities, the table of
/// routes is that of the edges, and entities and relationships can be
/// counted in a machine word.
pub open spec fn schema_ok(s: SchemaView) -> bool {
    &&& s.table_names.len() <= usize::MAX
    &&& s.link_names.len() <= usize::MAX
    &&& s.field_names.len() == s.table_names.len()
    &&& s.edges.len() == s.link_names.len()
    &&& edges_within(s.edges, s.table_names.len() as int)
    &&& s.routes == all_routes(s.edges, s.table_names.len() as int)
}

/// A column path that does not resolve.
#[derive(Debug, PartialEq, Eq)]
pub enum ReferenceError {
    /// `name` is neither a relationship nor an entity.
    UnknownReference { entity: String, name: String },
    /// `entity` declares no column `column`.
    UnknownColumn { entity: String, column: String },
    /// The relationship does not touch `entity`.
    Unrelated { entity: String, relationship: String },
    /// No route of relationships leads from `from` to `to`.
    NotConnected { from: String, to: String },
    /// More than one route leads from `from` to `to`, and the path names no
    /// relationship to tell them apart.
    AmbiguousPath { from: String, to: String },
}

pub enum ReferenceErrorView {
    UnknownReference { entity: Seq<char>, name: Seq<char> },
    UnknownColumn { entity: Seq<char>, column: Seq<char> },
    Unrelated { entity: Seq<char>, relationship: Seq<char> },
    NotConnected { from: Seq<char>, to: Seq<char> },
    AmbiguousPath { from: Seq<char>, to: Seq<char> },
}

impl View for ReferenceError {
    type V = ReferenceErrorView;

    open spec fn view(&self) -> ReferenceErrorView {
        match self {
            ReferenceError::UnknownReference { entity, name } => ReferenceErrorView::UnknownReference {
                entity: entity@,
                name: name@,
            },
            ReferenceError::UnknownColumn { entity, column } => ReferenceErrorView::UnknownColumn {
                entity: entity@,
                column: column@,
            },
            ReferenceError::Unrelated { entity, relationship } => ReferenceErrorView::Unrelated {
                entity: entity@,
                relationship: relationship@,
            },
            ReferenceError::NotConnected { from, to } => ReferenceErrorView::NotConnected {
                from: from@,
                to: to@,
            },
            ReferenceError::AmbiguousPath { from, to } => ReferenceErrorView::AmbiguousPath {
                from: from@,
                to: to@,
            },
        }
    }
}

/// What a column path resolves to: the column `field` of the entity `table`,
/// reached by `steps` from the entity where the path starts.
#[derive(Debug, PartialEq, Eq)]
pub struct Target {
    pub steps: Vec<Step>,
    pub table: usize,
    pub field: usize,
}

pub struct TargetView {
    pub steps: Seq<Step>,
    pub table: int,
    pub field: int,
}

impl View for Target {
    type V = TargetView;

    open spec fn view(&self) -> TargetView {
        TargetView { steps: self.steps@, table: self.table as int, field: self.field as int }
    }
}

/// The entities along a path: from `cur`, each segment of `path` from the
/// `i`-th up to the last but one is followed. A segment that names a
/// relationship traverses it from `cur` to its other end. A segment that
/// names an entity stands for the one route to that entity. `acc` holds the
/// steps made so far.
pub open spec fn followed(
    s: SchemaView,
    cur: int,
    path: Seq<Seq<char>>,
    i: int,
    acc: Seq<Step>,
) -> Result<(Seq<Step>, int), ReferenceErrorView>
    decreases path.len() - i,
{
    if i + 1 >= path.len() || i < 0 {
        Ok((acc, cur))
    } else {
        match position(s.link_names, path[i]) {
            Some(l) => if s.edges[l].left == cur {
                followed(
                    s,
                    s.edges[l].right as int,
                    path,
                    i + 1,
                    acc.push(Step { edge: l as usize, forward: true }),
                )
            } else if s.edges[l].right == cur {
                followed(
                    s,
                    s.edges[l].left as int,
                    path,
                    i + 1,
                    acc.push(Step { edge: l as usize, forward: false }),
                )
            } else {
                Err(
                    ReferenceErrorView::Unrelated {
                        entity: s.table_names[cur],
                        relationship: path[i],
                    },
                )
            },
            None => match position(s.table_names, path[i]) {
                Some(t) => match s.routes[cur][t] {
                    RouteView::Unique(steps) => followed(s, t, path, i + 1, acc + steps),
                    RouteView::Unconnected => Err(
                        ReferenceErrorView::NotConnected { from: s.table_names[cur], to: path[i] },
                    ),
                    RouteView::Ambiguous => Err(
                        ReferenceErrorView::AmbiguousPath { from: s.table_names[cur], to: path[i] },
                    ),
                },
                None => Err(
                    ReferenceErrorView::UnknownReference {
                        entity: s.table_names[cur],
                        name: path[i],
                    },
                ),
            },
        }
    }
}

/// What the column path `path` resolves to, read from the entity `base`: the
/// last segment names a column of the entity that the segments before it
/// lead to.
pub open spec fn resolved(s: SchemaView, base: int, path: Seq<Seq<char>>) -> Result<
    TargetView,
    ReferenceErrorView,
> {
    resolved_from(s, base, path, 0)
}

/// What the column path `path` without its first `start` segments resolves
/// to, read from the entity `base`.
pub open spec fn resolved_from(s: SchemaView, base: int, path: Seq<Seq<char>>, start: int) -> Result<
    TargetView,
    ReferenceErrorView,
> {
    if path.len() == 0 {
        Err(ReferenceErrorView::UnknownColumn { entity: s.table_names[base], column: Seq::empty() })
    } else {
        match followed(s, base, path, start, Seq::empty()) {
            Err(e) => Err(e),
            Ok((steps, t)) => match position(s.field_names[t], path.last()) {
                Some(f) => Ok(TargetView { steps, table: t, field: f }),
                None => Err(
                    ReferenceErrorView::UnknownColumn {
                        entity: s.table_names[t],
                        column: path.last(),
                    },
                ),
            },
        }
    }
}

/// Whether every step of `steps` traverses a relationship of the schema.
pub open spec fn steps_within(s: SchemaView, steps: Seq<Step>) -> bool {
    forall|k: int| 0 <= k < steps.len() ==> (#[trigger] steps[k]).edge < s.edges.len()
}

/// Every route of the table of routes stays within the edges.
pub proof fn routes_stay_within(s: SchemaView, a: int, b: int)
    requires
        schema_ok(s),
        0 <= a < s.table_names.len(),
        0 <= b < s.table_names.len(),
    ensures
        s.routes[a][b] matches RouteView::Unique(steps) ==> steps_within(s, steps),
{
    if let RouteView::Unique(steps) = s.routes[a][b] {
        assert(joins_up(s.edges, a, b, steps));
        route_stays_within(s.edges, a, b, Set::empty(), steps);
    }
}

proof fn route_stays_within(edges: Seq<Edge>, a: int, b: int, avoid: Set<int>, p: Seq<Step>)
    requires
        is_route(edges, a, b, avoid, p),
    ensures
        forall|k: int| 0 <= k < p.len() ==> (#[trigger] p[k]).edge < edges.len(),
    decreases p.len(),
{
    if p.len() > 0 {
        route_stays_within(
            edges,
            crate::routes::arrival(edges, p[0]),
            b,
            avoid.insert(a),
            p.drop_first(),
        );
        assert forall|k: int| 0 <= k < p.len() implies (#[trigger] p[k]).edge < edges.len() by {
            if k > 0 {
                assert(p[k] == p.drop_first()[k - 1]);
            }
        }
    }
}

/// Whether the relationships can be told apart: no two share a name, and
/// none joins an entity to itself.
pub open spec fn links_sound(s: SchemaView) -> bool {
    &&& distinct(s.link_names)
    &&& forall|l: int| 0 <= l < s.edges.len() ==> (#[trigger] s.edges[l]).left != s.edges[l].right
}

/// The entity that the first `k` steps of `steps` reach from `base`.
pub open spec fn reached(edges: Seq<Edge>, base: int, steps: Seq<Step>, k: int) -> int {
    if k <= 0 {
        base
    } else {
        arrival(edges, steps[k - 1])
    }
}

/// Whether each step of `steps` starts where the steps before it have led
/// from `base`.
pub open spec fn chained(edges: Seq<Edge>, base: int, steps: Seq<Step>) -> bool {
    forall|k: int|
        0 <= k < steps.len() ==> leaves(edges, reached(edges, base, steps, k), #[trigger] steps[k])
}

/// The names of the relationships that `steps` traverse.
pub open spec fn step_names(s: SchemaView, steps: Seq<Step>) -> Seq<Seq<char>> {
    Seq::new(steps.len(), |k: int| s.link_names[steps[k].edge as int])
}

/// The steps of a route are chained and lead to its end.
proof fn route_is_chained(edges: Seq<Edge>, a: int, b: int, avoid: Set<int>, p: Seq<Step>)
    requires
        is_route(edges, a, b, avoid, p),
    ensures
        chained(edges, a, p),
        reached(edges, a, p, p.len() as int) == b,
    decreases p.len(),
{
    if p.len() > 0 {
        let next = arrival(edges, p[0]);
        let rest = p.drop_first();
        route_is_chained(edges, next, b, avoid.insert(a), rest);
        assert forall|k: int| 0 <= k < p.len() implies leaves(
            edges,
            reached(edges, a, p, k),
            #[trigger] p[k],
        ) by {
            if k > 0 {
                assert(rest[k - 1] == p[k]);
                assert(leaves(edges, reached(edges, next, rest, k - 1), rest[k - 1]));
                if k > 1 {
                    assert(rest[k - 2] == p[k - 1]);
                }
            }
        }
        if p.len() > 1 {
            assert(rest[rest.len() - 1] == p[p.len() - 1]);
        }
    }
}

/// The steps that following a path makes are chained, stay within the
/// relationships, and lead to the entity where the path ends.
proof fn followed_is_chained(
    s: SchemaView,
    base: int,
    cur: int,
    path: Seq<Seq<char>>,
    i: int,
    acc: Seq<Step>,
)
    requires
        schema_ok(s),
        0 <= cur < s.table_names.len(),
        chained(s.edges, base, acc),
        steps_within(s, acc),
        reached(s.edges, base, acc, acc.len() as int) == cur,
    ensures
        followed(s, cur, path, i, acc) matches Ok((steps, t)) ==> chained(s.edges, base, steps)
            && steps_within(s, steps) && reached(s.edges, base, steps, steps.len() as int) == t,
    decreases path.len() - i,
{
    if !(i + 1 >= path.len() || i < 0) {
        match position(s.link_names, path[i]) {
            Some(l) => {
                assert(is_first(s.link_names, path[i], l));
                assert(s.edges[l].left < s.table_names.len());
                let forward = s.edges[l].left == cur;
                if forward || s.edges[l].right == cur {
                    let step = Step { edge: l as usize, forward };
                    let more = acc.push(step);
                    assert forall|k: int| 0 <= k < more.len() implies leaves(
                        s.edges,
                        reached(s.edges, base, more, k),
                        #[trigger] more[k],
                    ) by {
                        if k < acc.len() {
                            assert(more[k] == acc[k]);
                            assert(leaves(s.edges, reached(s.edges, base, acc, k), acc[k]));
                            if k > 0 {
                                assert(more[k - 1] == acc[k - 1]);
                            }
                        } else {
                            if k > 0 {
                                assert(more[k - 1] == acc[k - 1]);
                            }
                        }
                    }
                    assert forall|k: int| 0 <= k < more.len() implies (#[trigger] more[k]).edge
                        < s.edges.len() by {
                        if k < acc.len() {
                            assert(more[k] == acc[k]);
                        }
                    }
                    followed_is_chained(s, base, arrival(s.edges, step), path, i + 1, more);
                }
            },
            None => match position(s.table_names, path[i]) {
                Some(t) => {
                    assert(is_first(s.table_names, path[i], t));
                    match s.routes[cur][t] {
                        RouteView::Unique(steps) => {
                            assert(joins_up(s.edges, cur, t, steps));
                            route_is_chained(s.edges, cur, t, Set::empty(), steps);
                            routes_stay_within(s, cur, t);
                            let more = acc + steps;
                            assert forall|k: int| 0 <= k < more.len() implies leaves(
                                s.edges,
                                reached(s.edges, base, more, k),
                                #[trigger] more[k],
                            ) by {
                                if k < acc.len() {
                                    assert(more[k] == acc[k]);
                                    assert(leaves(s.edges, reached(s.edges, base, acc, k), acc[k]));
                                    if k > 0 {
                                        assert(more[k - 1] == acc[k - 1]);
                                    }
                                } else {
                                    let j = k - acc.len();
                                    assert(more[k] == steps[j]);
                                    assert(leaves(s.edges, reached(s.edges, cur, steps, j), steps[j]));
                                    if j > 0 {
                                        assert(more[k - 1] == steps[j - 1]);
                                    } else if k > 0 {
                                        assert(more[k - 1] == acc[k - 1]);
                                    }
                                }
                            }
                            assert forall|k: int| 0 <= k < more.len() implies (
                            #[trigger] more[k]).edge < s.edges.len() by {
                                if k < acc.len() {
                                    assert(more[k] == acc[k]);
                                } else {
                                    assert(more[k] == steps[k - acc.len()]);
                                }
                            }
                            assert(reached(s.edges, base, more, more.len() as int) == t) by {
                                if steps.len() > 0 {
                                    assert(more[more.len() - 1] == steps[steps.len() - 1]);
                                }
                            }
                            followed_is_chained(s, base, t, path, i + 1, more);
                        },
                        _ => {},
                    }
                },
                None => {},
            },
        }
    }
}

/// The steps of a path that resolves stay within the relationships.
pub proof fn resolved_steps_are_within(s: SchemaView, base: int, path: Seq<Seq<char>>, start: int)
    requires
        schema_ok(s),
        0 <= base < s.table_names.len(),
    ensures
        resolved_from(s, base, path, start) matches Ok(t) ==> steps_within(s, t.steps),
{
    if path.len() > 0 {
        followed_is_chained(s, base, base, path, start, Seq::empty());
    }
}

/// Following the names of chained steps makes those steps again.
proof fn names_are_followed(
    s: SchemaView,
    base: int,
    steps: Seq<Step>,
    column: Seq<char>,
    i: int,
)
    requires
        schema_ok(s),
        links_sound(s),
        chained(s.edges, base, steps),
        steps_within(s, steps),
        0 <= i <= steps.len(),
    ensures
        followed(
            s,
            reached(s.edges, base, steps, i),
            step_names(s, steps).push(column),
            i,
            steps.take(i),
        ) == Ok::<(Seq<Step>, int), ReferenceErrorView>(
            (steps, reached(s.edges, base, steps, steps.len() as int)),
        ),
    decreases steps.len() - i,
{
    let path = step_names(s, steps).push(column);
    let cur = reached(s.edges, base, steps, i);
    if i < steps.len() {
        let l = steps[i].edge as int;
        assert(path[i] == s.link_names[l]);
        position_of_distinct(s.link_names, l);
        assert(leaves(s.edges, cur, steps[i]));
        assert(s.edges[l].left != s.edges[l].right);
        assert(steps.take(i).push(steps[i]) == steps.take(i + 1));
        names_are_followed(s, base, steps, column, i + 1);
    } else {
        assert(steps.take(i) == steps);
    }
}

/// The explicit form of a path that resolves resolves to the same column by
/// the same steps.
pub proof fn explicit_path_resolves(s: SchemaView, base: int, path: Seq<Seq<char>>)
    requires
        schema_ok(s),
        links_sound(s),
        0 <= base < s.table_names.len(),
    ensures
        resolved(s, base, path) matches Ok(t) ==> resolved(
            s,
            base,
            step_names(s, t.steps).push(path.last()),
        ) == Ok::<TargetView, ReferenceErrorView>(t),
{
    if let Ok(t) = resolved(s, base, path) {
        followed_is_chained(s, base, base, path, 0, Seq::empty());
        names_are_followed(s, base, t.steps, path.last(), 0);
        assert(t.steps.take(0) == Seq::<Step>::empty());
        let explicit = step_names(s, t.steps).push(path.last());
        assert(explicit.last() == path.last());
    }
}

/// Resolves a column path, read from the entity `base`.
pub fn resolve(schema: &Schema, base: usize, path: &Vec<String>) -> (r: Result<
    Target,
    ReferenceError,
>)
    requires
        schema_ok(schema@),
        base < schema.table_names.len(),
    ensures
        match r {
            Ok(t) => resolved(schema@, base as int, texts(path@)) == Ok::<
                TargetView,
                ReferenceErrorView,
            >(t@) && t.table < schema.table_names.len() && t.field
                < schema.field_names[t.table as int].len() && steps_within(schema@, t.steps@),
            Err(e) => resolved(schema@, base as int, texts(path@)) == Err::<
                TargetView,
                ReferenceErrorView,
            >(e@),
        },
{
    resolve_from(schema, base, path, 0)
}

/// Resolves a column path without its first `start` segments, read from the
/// entity `base`.
pub fn resolve_from(schema: &Schema, base: usize, path: &Vec<String>, start: usize) -> (r: Result<
    Target,
    ReferenceError,
>)
    requires
        schema_ok(schema@),
        base < schema.table_names.len(),
    ensures
        match r {
            Ok(t) => resolved_from(schema@, base as int, texts(path@), start as int) == Ok::<
                TargetView,
                ReferenceErrorView,
            >(t@) && t.table < schema.table_names.len() && t.field
                < schema.field_names[t.table as int].len() && steps_within(schema@, t.steps@),
            Err(e) => resolved_from(schema@, base as int, texts(path@), start as int) == Err::<
                TargetView,
                ReferenceErrorView,
            >(e@),
        },
{
    let ghost s = schema@;
    let ghost p = texts(path@);
    if path.len() == 0 {
        return Err(
            ReferenceError::UnknownColumn {
                entity: schema.table_names[base].clone(),
                column: String::new(),
            },
        );
    }
    let mut cur = base;
    let mut steps: Vec<Step> = Vec::new();
    let mut i: usize = start;
    while i < path.len() - 1
        invariant
            s == schema@,
            p == texts(path@),
            schema_ok(s),
            path.len() > 0,
            cur < schema.table_names.len(),
            steps_within(s, steps@),
            followed(s, base as int, p, start as int, Seq::empty()) == followed(
                s,
                cur as int,
                p,
                i as int,
                steps@,
            ),
        decreases path.len() - i,
    {
        match find_name(&schema.link_names, path[i].as_str()) {
            Some(l) => {
                let e = schema.edges[l];
                if e.left == cur {
                    steps.push(Step { edge: l, forward: true });
                    cur = e.right;
                } else if e.right == cur {
                    steps.push(Step { edge: l, forward: false });
                    cur = e.left;
                } else {
                    return Err(
                        ReferenceError::Unrelated {
                            entity: schema.table_names[cur].clone(),
                            relationship: path[i].clone(),
                        },
                    );
                }
            },
            None => match find_name(&schema.table_names, path[i].as_str()) {
                Some(t) => {
                    proof {
                        routes_stay_within(s, cur as int, t as int);
                    }
                    proof {
                        let n = s.table_names.len() as int;
                        assert(s.routes.len() == n);
                        assert(route_views(schema.routes@).len() == schema.routes@.len());
                        assert(s.routes[cur as int].len() == n);
                        assert(route_views(schema.routes@)[cur as int].len()
                            == schema.routes@[cur as int]@.len());
                        assert(schema.routes@[cur as int]@[t as int]@
                            == s.routes[cur as int][t as int]);
                    }
                    match &schema.routes[cur][t] {
                        Route::Unique(more) => {
                            let ghost before = steps@;
                            let mut k: usize = 0;
                            while k < more.len()
                                invariant
                                    k <= more.len(),
                                    steps@ == before + more@.take(k as int),
                                decreases more.len() - k,
                            {
                                steps.push(more[k]);
                                k += 1;
                            }
                            assert(more@.take(more.len() as int) == more@);
                            cur = t;
                        },
                        Route::Unconnected => {
                            return Err(
                                ReferenceError::NotConnected {
                                    from: schema.table_names[cur].clone(),
                                    to: path[i].clone(),
                                },
                            );
                        },
                        Route::Ambiguous => {
                            return Err(
                                ReferenceError::AmbiguousPath {
                                    from: schema.table_names[cur].clone(),
                                    to: path[i].clone(),
                                },
                            );
                        },
                    }
                },
                None => {
                    return Err(
                        ReferenceError::UnknownReference {
                            entity: schema.table_names[cur].clone(),
                            name: path[i].clone(),
                        },
                    );
                },
            },
        }
        i += 1;
    }
    let last = path.len() - 1;
    assert(p.last() == path@[last as int]@);
    match find_name(&schema.field_names[cur], path[last].as_str()) {
        Some(f) => Ok(Target { steps, table: cur, field: f }),
        None => Err(
            ReferenceError::UnknownColumn {
                entity: schema.table_names[cur].clone(),
                column: path[last].clone(),
            },
        ),
    }
}

} // verus!
