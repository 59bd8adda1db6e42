//! Routes in an undirected multigraph: between two nodes there is no route,
//! exactly one, or more than one. A route never visits a node twice.

use vstd::prelude::*;

verus! {

/// An edge, as its two end nodes.
#[derive(Clone, Copy, Debug, PartialEq, Eq, Structural)]
pub struct Edge {
    pub left: usize,
    pub right: usize,
}

/// One traversal of an edge, from its left end to its right end if `forward`.
#[derive(Clone, Copy, Debug, PartialEq, Eq, Structural)]
pub struct Step {
    pub edge: usize,
    pub forward: bool,
}

/// How two nodes are connected.
#[derive(Debug, PartialEq, Eq)]
pub enum Route {
    /// No route connects them.
    Unconnected,
    /// Exactly one route connects them: these steps, in order.
    Unique(Vec<Step>),
    /// More than one route connects them.
    Ambiguous,
}

/// Whether `s` traverses an edge of `edges` and starts at `cur`.
pub open spec fn leaves(edges: Seq<Edge>, cur: int, s: Step) -> bool {
    &&& 0 <= s.edge < edges.len()
    &&& if s.forward {
        edges[s.edge as int].left == cur
    } else {
        edges[s.edge as int].right == cur
    }
}

/// The node at which `s` arrives.
pub open spec fn arrival(edges: Seq<Edge>, s: Step) -> int {
    if s.forward {
        edges[s.edge as int].right as int
    } else {
        edges[s.edge as int].left as int
    }
}

/// Whether the steps `p` lead from `cur` to `to`, never come back to a node
/// they have left, and stay away from the nodes in `avoid`.
pub open spec fn is_route(edges: Seq<Edge>, cur: int, to: int, avoid: Set<int>, p: Seq<Step>) -> bool
    decreases p.len(),
{
    if p.len() == 0 {
        cur == to
    } else {
        let next = arrival(edges, p[0]);
        &&& cur != to
        &&& leaves(edges, cur, p[0])
        &&& next != cur
        &&& !avoid.contains(next)
        &&& is_route(edges, next, to, avoid.insert(cur), p.drop_first())
    }
}

/// Whether `r` says how `cur` and `to` are connected by routes that stay away
/// from `avoid`.
pub open spec fn describes(edges: Seq<Edge>, cur: int, to: int, avoid: Set<int>, r: Route) -> bool {
    match r {
        Route::Unconnected => forall|p: Seq<Step>| !is_route(edges, cur, to, avoid, p),
        Route::Unique(v) => {
            &&& is_route(edges, cur, to, avoid, v@)
            &&& forall|q: Seq<Step>| is_route(edges, cur, to, avoid, q) ==> q == v@
        },
        Route::Ambiguous => exists|p: Seq<Step>, q: Seq<Step>|
            p != q && is_route(edges, cur, to, avoid, p) && is_route(edges, cur, to, avoid, q),
    }
}

/// Whether every edge joins two of the first `nodes` nodes.
pub open spec fn edges_within(edges: Seq<Edge>, nodes: int) -> bool {
    forall|i: int|
        0 <= i < edges.len() ==> (#[trigger] edges[i]).left < nodes && edges[i].right < nodes
}

/// The nodes that `marks` marks.
pub open spec fn marked(marks: Seq<bool>) -> Set<int> {
    Set::new(|i: int| 0 <= i < marks.len() && marks[i])
}

/// The number of nodes that `marks` leaves unmarked.
pub open spec fn unmarked(marks: Seq<bool>) -> nat
    decreases marks.len(),
{
    if marks.len() == 0 {
        0
    } else {
        unmarked(marks.drop_last()) + if marks.last() {
            0nat
        } else {
            1nat
        }
    }
}

proof fn marking_uses_one(marks: Seq<bool>, i: int)
    requires
        0 <= i < marks.len(),
        !marks[i],
    ensures
        unmarked(marks.update(i, true)) + 1 == unmarked(marks),
    decreases marks.len(),
{
    if i == marks.len() - 1 {
        assert(marks.update(i, true).drop_last() == marks.drop_last());
    } else {
        assert(marks.update(i, true).drop_last() == marks.drop_last().update(i, true));
        marking_uses_one(marks.drop_last(), i);
    }
}

/// A route that starts with `s` is `s` followed by a route from where `s`
/// arrives, and the other way round.
proof fn route_by_first_step(
    edges: Seq<Edge>,
    cur: int,
    to: int,
    avoid: Set<int>,
    s: Step,
    rest: Seq<Step>,
)
    ensures
        is_route(edges, cur, to, avoid, seq![s] + rest) <==> {
            &&& cur != to
            &&& leaves(edges, cur, s)
            &&& arrival(edges, s) != cur
            &&& !avoid.contains(arrival(edges, s))
            &&& is_route(edges, arrival(edges, s), to, avoid.insert(cur), rest)
        },
{
    let p = seq![s] + rest;
    assert(p.drop_first() == rest);
    assert(p[0] == s);
}

/// Searches the routes from `cur` to `to` that stay away from the marked
/// nodes.
fn search(edges: &Vec<Edge>, cur: usize, to: usize, marks: &mut Vec<bool>) -> (r: Route)
    requires
        edges_within(edges@, old(marks).len() as int),
        cur < old(marks).len(),
        to < old(marks).len(),
        !old(marks)[cur as int],
    ensures
        final(marks)@ == old(marks)@,
        describes(edges@, cur as int, to as int, marked(old(marks)@), r),
    decreases unmarked(old(marks)@),
{
    let ghost avoid = marked(marks@);
    let ghost before = marks@;
    if cur == to {
        let none: Vec<Step> = Vec::new();
        assert(is_route(edges@, cur as int, to as int, avoid, none@));
        assert forall|q: Seq<Step>| is_route(edges@, cur as int, to as int, avoid, q) implies q
            == none@ by {
            assert(q.len() == 0);
        }
        return Route::Unique(none);
    }
    marks.set(cur, true);
    proof {
        marking_uses_one(before, cur as int);
        assert(marked(marks@) == avoid.insert(cur as int));
    }
    let ghost inner = avoid.insert(cur as int);
    let mut found: Option<Vec<Step>> = None;
    let mut i: usize = 0;
    while i < edges.len()
        invariant
            i <= edges.len(),
            marks@ == before.update(cur as int, true),
            before == old(marks)@,
            before.len() == marks.len(),
            cur < marks.len(),
            to < marks.len(),
            cur != to,
            !before[cur as int],
            avoid == marked(before),
            inner == avoid.insert(cur as int),
            marked(marks@) == inner,
            unmarked(marks@) + 1 == unmarked(before),
            edges_within(edges@, marks.len() as int),
            found is None ==> forall|p: Seq<Step>|
                is_route(edges@, cur as int, to as int, avoid, p) ==> p[0].edge >= i,
            found matches Some(v) ==> {
                &&& is_route(edges@, cur as int, to as int, avoid, v@)
                &&& v@[0].edge < i
                &&& forall|q: Seq<Step>|
                    is_route(edges@, cur as int, to as int, avoid, q) && q[0].edge < i ==> q == v@
            },
        decreases edges.len() - i,
    {
        let e = edges[i];
        let hop: Option<(usize, bool)> = if e.left == cur && e.right != cur {
            Some((e.right, true))
        } else if e.right == cur && e.left != cur {
            Some((e.left, false))
        } else {
            None
        };
        let mut sub = Route::Unconnected;
        let mut first = Step { edge: i, forward: true };
        let mut tried = false;
        match hop {
            Some((next, forward)) => {
                if !marks[next] {
                    first = Step { edge: i, forward };
                    tried = true;
                    sub = search(edges, next, to, marks);
                }
            },
            None => {},
        }
        // every route whose first step uses edge `i` is `first` followed by a
        // route from where `first` arrives
        assert forall|q: Seq<Step>|
            is_route(edges@, cur as int, to as int, avoid, q) && q[0].edge == i implies tried
            && q[0] == first && is_route(
            edges@,
            arrival(edges@, first),
            to as int,
            inner,
            q.drop_first(),
        ) by {
            assert(q.len() > 0);
            assert(leaves(edges@, cur as int, q[0]));
        }
        if tried {
            let ghost next = arrival(edges@, first);
            match sub {
                Route::Unconnected => {},
                Route::Ambiguous => {
                    proof {
                        let (p, q) = choose|p: Seq<Step>, q: Seq<Step>|
                            p != q && is_route(edges@, next, to as int, inner, p) && is_route(
                                edges@,
                                next,
                                to as int,
                                inner,
                                q,
                            );
                        route_by_first_step(edges@, cur as int, to as int, avoid, first, p);
                        route_by_first_step(edges@, cur as int, to as int, avoid, first, q);
                        let pp = seq![first] + p;
                        let qq = seq![first] + q;
                        assert(pp.drop_first() == p);
                        assert(qq.drop_first() == q);
                        assert(pp != qq);
                    }
                    marks.set(cur, false);
                    assert(marks@ == before);
                    return Route::Ambiguous;
                },
                Route::Unique(mut path) => {
                    let ghost rest = path@;
                    path.insert(0, first);
                    proof {
                        assert(path@ == seq![first] + rest);
                        route_by_first_step(edges@, cur as int, to as int, avoid, first, rest);
                        assert forall|q: Seq<Step>|
                            is_route(edges@, cur as int, to as int, avoid, q) && q[0].edge
                                == i implies q == path@ by {
                            assert(q.drop_first() == rest);
                            assert(q == seq![q[0]] + q.drop_first());
                        }
                    }
                    match found {
                        Some(earlier) => {
                            assert(earlier@ != path@);
                            marks.set(cur, false);
                            assert(marks@ == before);
                            return Route::Ambiguous;
                        },
                        None => {
                            found = Some(path);
                        },
                    }
                },
            }
        }
        i += 1;
    }
    marks.set(cur, false);
    assert(marks@ == before);
    assert forall|p: Seq<Step>| is_route(edges@, cur as int, to as int, avoid, p) implies p[0].edge
        < edges.len() by {
        assert(leaves(edges@, cur as int, p[0]));
    }
    match found {
        Some(v) => Route::Unique(v),
        None => Route::Unconnected,
    }
}

/// Whether `r` says how `from` and `to` are connected in the graph.
pub open spec fn connects(edges: Seq<Edge>, from: int, to: int, r: Route) -> bool {
    describes(edges, from, to, Set::empty(), r)
}

/// Finds how `from` and `to` are connected in the graph with nodes
/// `0..nodes` and the given edges.
pub fn find_route(edges: &Vec<Edge>, nodes: usize, from: usize, to: usize) -> (r: Route)
    requires
        edges_within(edges@, nodes as int),
        from < nodes,
        to < nodes,
    ensures
        connects(edges@, from as int, to as int, r),
{
    let mut marks: Vec<bool> = Vec::new();
    let mut i: usize = 0;
    while i < nodes
        invariant
            i <= nodes,
            marks.len() == i,
            forall|j: int| 0 <= j < i ==> !marks[j],
        decreases nodes - i,
    {
        marks.push(false);
        i += 1;
    }
    assert(marked(marks@) == Set::<int>::empty());
    search(edges, from, to, &mut marks)
}

} // verus!
