//! Cycles in a directed graph, found by depth-first traversal. A graph
//! without a cycle gets a rank for every node that falls along every edge.

use vstd::prelude::*;

verus! {

/// The successor lists of a graph given as a vector of vectors.
pub open spec fn lists(adj: Seq<Vec<usize>>) -> Seq<Seq<usize>> {
    Seq::new(adj.len(), |i: int| adj[i]@)
}

/// Whether every successor is a node of the graph.
pub open spec fn closed(g: Seq<Seq<usize>>) -> bool {
    forall|u: int, k: int|
        0 <= u < g.len() && 0 <= k < g[u].len() ==> (#[trigger] g[u][k]) < g.len()
}

/// Whether the graph has an edge from `u` to `v`.
pub open spec fn has_edge(g: Seq<Seq<usize>>, u: int, v: int) -> bool {
    0 <= u < g.len() && exists|k: int| 0 <= k < g[u].len() && #[trigger] g[u][k] == v
}

/// Whether each node of `p` has an edge to the next one.
pub open spec fn is_walk(g: Seq<Seq<usize>>, p: Seq<usize>) -> bool {
    forall|i: int| 0 <= i < p.len() - 1 ==> has_edge(g, #[trigger] p[i] as int, p[i + 1] as int)
}

/// Whether `p` is a cycle: a walk whose last node has an edge to its first.
pub open spec fn is_cycle(g: Seq<Seq<usize>>, p: Seq<usize>) -> bool {
    &&& p.len() > 0
    &&& is_walk(g, p)
    &&& has_edge(g, p.last() as int, p[0] as int)
}

/// Whether `rank` gives every node a rank below the number of nodes, and
/// every successor of a node a smaller rank than the node.
pub open spec fn ranked(g: Seq<Seq<usize>>, rank: Seq<nat>) -> bool {
    &&& rank.len() == g.len()
    &&& forall|u: int| 0 <= u < g.len() ==> #[trigger] rank[u] < g.len()
    &&& forall|u: int, k: int|
        0 <= u < g.len() && 0 <= k < g[u].len() ==> (#[trigger] g[u][k]) < g.len() && rank[g[u][k] as int]
            < rank[u]
}

/// Whether the graph has no cycle, witnessed by a ranking.
pub open spec fn acyclic(g: Seq<Seq<usize>>) -> bool {
    exists|rank: Seq<nat>| ranked(g, rank)
}

/// Along a walk the rank falls by at least one with every edge.
proof fn rank_falls_along_walk(g: Seq<Seq<usize>>, rank: Seq<nat>, p: Seq<usize>, i: int)
    requires
        ranked(g, rank),
        is_walk(g, p),
        0 <= i < p.len(),
        0 <= p[0] < g.len(),
    ensures
        0 <= p[i] < g.len(),
        rank[p[i] as int] + i <= rank[p[0] as int],
    decreases i,
{
    if i > 0 {
        rank_falls_along_walk(g, rank, p, i - 1);
        assert(has_edge(g, p[i - 1] as int, p[i] as int));
    }
}

/// A graph with a ranking has no cycle.
pub proof fn ranked_has_no_cycle(g: Seq<Seq<usize>>, rank: Seq<nat>, p: Seq<usize>)
    requires
        ranked(g, rank),
    ensures
        !is_cycle(g, p),
{
    if is_cycle(g, p) {
        let last = p.len() - 1;
        assert(has_edge(g, p[last] as int, p[0] as int));
        rank_falls_along_walk(g, rank, p, 0);
        if p.len() > 1 {
            assert(has_edge(g, p[0] as int, p[1] as int));
        }
        assert(0 <= p[0] < g.len()) by {
            let k = choose|k: int| 0 <= k < g[p[last] as int].len() && #[trigger] g[p[last] as int][k] == p[0];
            assert(g[p[last] as int][k] < g.len());
        }
        rank_falls_along_walk(g, rank, p, last);
    }
}

/// The colour of a node that the traversal has not reached.
pub open spec fn white() -> u8 {
    0
}

/// The colour of a node that the traversal is visiting.
pub open spec fn gray() -> u8 {
    1
}

/// The colour of a node that the traversal has left.
pub open spec fn black() -> u8 {
    2
}

/// The number of nodes of colour `c`.
pub open spec fn count(colors: Seq<u8>, c: u8) -> nat
    decreases colors.len(),
{
    if colors.len() == 0 {
        0
    } else {
        count(colors.drop_last(), c) + if colors.last() == c {
            1nat
        } else {
            0nat
        }
    }
}

proof fn count_is_bounded(colors: Seq<u8>, c: u8)
    ensures
        count(colors, c) <= colors.len(),
    decreases colors.len(),
{
    if colors.len() > 0 {
        count_is_bounded(colors.drop_last(), c);
    }
}

proof fn count_after_update(colors: Seq<u8>, u: int, x: u8, c: u8)
    requires
        0 <= u < colors.len(),
    ensures
        count(colors.update(u, x), c) + (if colors[u] == c {
            1nat
        } else {
            0nat
        }) == count(colors, c) + (if x == c {
            1nat
        } else {
            0nat
        }),
    decreases colors.len(),
{
    if u == colors.len() - 1 {
        assert(colors.update(u, x).drop_last() == colors.drop_last());
    } else {
        assert(colors.update(u, x).drop_last() == colors.drop_last().update(u, x));
        count_after_update(colors.drop_last(), u, x, c);
    }
}

proof fn no_new_whites(a: Seq<u8>, b: Seq<u8>)
    requires
        a.len() == b.len(),
        forall|v: int| 0 <= v < a.len() && b[v] == white() ==> a[v] == white(),
    ensures
        count(b, white()) <= count(a, white()),
    decreases a.len(),
{
    if a.len() > 0 {
        no_new_whites(a.drop_last(), b.drop_last());
    }
}

/// Whether `new` came from `old` by turning white nodes black.
pub open spec fn advanced(old: Seq<u8>, new: Seq<u8>) -> bool {
    &&& old.len() == new.len()
    &&& forall|v: int|
        0 <= v < old.len() ==> #[trigger] new[v] == old[v] || (old[v] == white() && new[v]
            == black())
}

/// What the traversal keeps true: a black node has a rank below the number
/// of black nodes, and its successors are black and of smaller rank.
pub open spec fn settled(g: Seq<Seq<usize>>, colors: Seq<u8>, rank: Seq<nat>) -> bool {
    &&& colors.len() == g.len()
    &&& rank.len() == g.len()
    &&& forall|u: int| 0 <= u < g.len() ==> #[trigger] colors[u] <= black()
    &&& forall|u: int|
        0 <= u < g.len() && #[trigger] colors[u] == black() ==> rank[u] < count(colors, black())
    &&& forall|u: int, k: int|
        0 <= u < g.len() && colors[u] == black() && 0 <= k < g[u].len() ==> colors[(
        #[trigger] g[u][k]) as int] == black() && rank[g[u][k] as int] < rank[u]
}

/// The part of `path` from the first occurrence of `v` on.
fn tail_from(path: &Vec<usize>, v: usize) -> (r: Vec<usize>)
    requires
        path@.contains(v),
    ensures
        r@.len() > 0,
        r@[0] == v,
        exists|j: int| 0 <= j < path.len() && r@ == path@.subrange(j, path.len() as int),
{
    let mut j: usize = 0;
    while path[j] != v
        invariant
            0 <= j < path.len(),
            path@.contains(v),
            forall|i: int| 0 <= i < j ==> path@[i] != v,
        decreases path.len() - j,
    {
        j += 1;
        if j == path.len() {
            proof {
                let w = choose|w: int| 0 <= w < path.len() && path@[w] == v;
                assert(false);
            }
        }
    }
    let mut out: Vec<usize> = Vec::new();
    let mut i: usize = j;
    while i < path.len()
        invariant
            j <= i <= path.len(),
            out@ == path@.subrange(j as int, i as int),
        decreases path.len() - i,
    {
        out.push(path[i]);
        i += 1;
    }
    out
}

/// Visits the white node `u` and all that it reaches. Returns a cycle if
/// one closes on a node that is being visited.
fn visit(
    adj: &Vec<Vec<usize>>,
    u: usize,
    colors: &mut Vec<u8>,
    path: &mut Vec<usize>,
    rank: Ghost<Seq<nat>>,
) -> (r: (Option<Vec<usize>>, Ghost<Seq<nat>>))
    requires
        closed(lists(adj@)),
        u < adj.len(),
        old(colors).len() == adj.len(),
        old(colors)[u as int] == white(),
        settled(lists(adj@), old(colors)@, rank@),
        is_walk(lists(adj@), old(path)@),
        old(path).len() > 0 ==> has_edge(lists(adj@), old(path)@.last() as int, u as int),
        forall|v: int|
            0 <= v < adj.len() && old(colors)[v] == gray() ==> old(path)@.contains(v as usize),
    ensures
        match r.0 {
            Some(c) => is_cycle(lists(adj@), c@),
            None => {
                &&& final(path)@ == old(path)@
                &&& advanced(old(colors)@, final(colors)@)
                &&& final(colors)[u as int] == black()
                &&& settled(lists(adj@), final(colors)@, r.1@)
            },
        },
    decreases count(old(colors)@, white()),
{
    let ghost g = lists(adj@);
    let ghost entry = colors@;
    let ghost stack = path@;
    let ghost mut ranks = rank@;
    colors.set(u, 1);
    path.push(u);
    proof {
        count_after_update(entry, u as int, gray(), white());
        count_after_update(entry, u as int, gray(), black());
        assert forall|i: int| 0 <= i < path@.len() - 1 implies has_edge(
            g,
            #[trigger] path@[i] as int,
            path@[i + 1] as int,
        ) by {
            if i < stack.len() - 1 {
                assert(has_edge(g, stack[i] as int, stack[i + 1] as int));
            }
        }
        assert forall|v: int| 0 <= v < adj.len() && colors[v] == gray() implies path@.contains(
            v as usize,
        ) by {
            if v == u {
                assert(path@[stack.len() as int] == u);
            } else {
                assert(stack.contains(v as usize));
                let w = choose|w: int| 0 <= w < stack.len() && stack[w] == v as usize;
                assert(path@[w] == v as usize);
            }
        }
    }
    let mut k: usize = 0;
    while k < adj[u].len()
        invariant
            g == lists(adj@),
            closed(g),
            u < adj.len(),
            k <= adj[u as int].len(),
            entry == old(colors)@,
            entry[u as int] == white(),
            colors.len() == entry.len(),
            colors[u as int] == gray(),
            forall|v: int|
                0 <= v < entry.len() && v != u ==> #[trigger] colors[v] == entry[v] || (entry[v]
                    == white() && colors[v] == black()),
            settled(g, colors@, ranks),
            path@ == stack.push(u),
            stack == old(path)@,
            is_walk(g, path@),
            forall|v: int| 0 <= v < adj.len() && colors[v] == gray() ==> path@.contains(v as usize),
            forall|j: int| 0 <= j < k ==> colors[(#[trigger] g[u as int][j]) as int] == black(),
        decreases adj[u as int].len() - k,
    {
        let v = adj[u][k];
        assert(v == g[u as int][k as int]);
        assert(v < adj.len());
        if colors[v] == 1 {
            let cycle = tail_from(path, v);
            proof {
                let j = choose|j: int|
                    0 <= j < path.len() && cycle@ == path@.subrange(j, path.len() as int);
                assert forall|i: int| 0 <= i < cycle@.len() - 1 implies has_edge(
                    g,
                    #[trigger] cycle@[i] as int,
                    cycle@[i + 1] as int,
                ) by {
                    assert(has_edge(g, path@[j + i] as int, path@[j + i + 1] as int));
                }
                assert(cycle@.last() == u);
                assert(has_edge(g, u as int, v as int));
            }
            return (Some(cycle), Ghost(ranks));
        }
        if colors[v] == 0 {
            proof {
                count_after_update(entry, u as int, gray(), white());
                no_new_whites(entry.update(u as int, gray()), colors@);
                assert(has_edge(g, u as int, v as int));
            }
            let ghost mid = colors@;
            let (found, deeper) = visit(adj, v, colors, path, Ghost(ranks));
            match found {
                Some(c) => {
                    return (Some(c), deeper);
                },
                None => {
                    proof {
                        ranks = deeper@;
                        assert forall|j: int| 0 <= j < k implies colors[(
                        #[trigger] g[u as int][j]) as int] == black() by {
                            assert(mid[g[u as int][j] as int] == black());
                        }
                    }
                },
            }
        }
        assert(colors[v as int] == black());
        k += 1;
    }
    let ghost mid = colors@;
    let ghost done = count(mid, black());
    colors.set(u, 2);
    path.pop();
    proof {
        count_after_update(mid, u as int, black(), black());
        count_is_bounded(colors@, black());
        ranks = ranks.update(u as int, done);
        assert(path@ == stack);
        assert forall|x: int, j: int|
            0 <= x < g.len() && colors[x] == black() && 0 <= j < g[x].len() implies colors[(
        #[trigger] g[x][j]) as int] == black() && ranks[g[x][j] as int] < ranks[x] by {
            let y = g[x][j] as int;
            if x == u {
                assert(mid[y] == black());
                assert(y != u);
            } else {
                assert(mid[x] == black());
                assert(mid[y] == black());
            }
        }
    }
    (None, Ghost(ranks))
}

/// Looks for a cycle in the graph whose node `u` has the successors
/// `adj[u]`. Without a cycle every node can be ranked; otherwise one cycle
/// is returned, each node followed by a successor of it.
pub fn find_cycle(adj: &Vec<Vec<usize>>) -> (r: Option<Vec<usize>>)
    requires
        closed(lists(adj@)),
    ensures
        match r {
            Some(c) => is_cycle(lists(adj@), c@),
            None => acyclic(lists(adj@)),
        },
{
    let ghost g = lists(adj@);
    let n = adj.len();
    let mut colors: Vec<u8> = Vec::new();
    let mut i: usize = 0;
    while i < n
        invariant
            i <= n,
            colors.len() == i,
            forall|j: int| 0 <= j < i ==> colors[j] == white(),
        decreases n - i,
    {
        colors.push(0);
        i += 1;
    }
    let mut path: Vec<usize> = Vec::new();
    let ghost mut ranks: Seq<nat> = Seq::new(n as nat, |i: int| 0nat);
    let mut u: usize = 0;
    while u < n
        invariant
            n == adj.len(),
            g == lists(adj@),
            closed(g),
            u <= n,
            path@.len() == 0,
            settled(g, colors@, ranks),
            forall|v: int| 0 <= v < n ==> colors[v] != gray(),
            forall|v: int| 0 <= v < u ==> colors[v] == black(),
        decreases n - u,
    {
        if colors[u] == 0 {
            let ghost before = colors@;
            let (found, deeper) = visit(adj, u, &mut colors, &mut path, Ghost(ranks));
            match found {
                Some(c) => {
                    return Some(c);
                },
                None => {
                    proof {
                        ranks = deeper@;
                        assert forall|v: int| 0 <= v < u implies colors[v] == black() by {
                            assert(before[v] == black());
                        }
                    }
                },
            }
        }
        u += 1;
    }
    proof {
        count_is_bounded(colors@, black());
        assert forall|x: int| 0 <= x < g.len() implies #[trigger] ranks[x] < g.len() by {
            assert(colors[x] == black());
        }
        assert forall|x: int, k: int| 0 <= x < g.len() && 0 <= k < g[x].len() implies (
        #[trigger] g[x][k]) < g.len() && ranks[g[x][k] as int] < ranks[x] by {
            assert(colors[x] == black());
        }
        assert(ranked(g, ranks));
    }
    None
}

} // verus!
