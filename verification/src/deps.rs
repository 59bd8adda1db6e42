//! The dependencies among columns: a derived column depends on every column
//! that a path of its definition ends at. Columns are numbered in the order
//! of their entities and, within an entity, of their declaration.

use vstd::prelude::*;

use crate::analysis::columns_before;
use crate::ast::{expr_views, Expr, ExprView};
use crate::cycles::{closed, lists};
use crate::model::{definition_table, AnalyzedView, Definition, DefinitionView};
use crate::schema::{resolve, resolved, schema_ok, Schema, SchemaView};

verus! {

/// The number of the column `field` of the entity `table`.
pub open spec fn column_number(s: SchemaView, table: int, field: int) -> int {
    columns_before(s.field_names, table) + field
}

/// The numbers of the columns that the paths of `e` end at, read from the
/// entity `base`, in order, after those in `acc`.
pub open spec fn refs_in(s: SchemaView, base: int, e: ExprView, acc: Seq<usize>) -> Seq<usize>
    decreases e, 0int,
{
    match e {
        ExprView::Column(p) => match resolved(s, base, p) {
            Ok(t) => acc.push(column_number(s, t.table, t.field) as usize),
            Err(_) => acc,
        },
        ExprView::Not(a) => refs_in(s, base, *a, acc),
        ExprView::Negate(a) => refs_in(s, base, *a, acc),
        ExprView::IsNull(a, _) => refs_in(s, base, *a, acc),
        ExprView::Binary(_, a, b) => refs_in(s, base, *b, refs_in(s, base, *a, acc)),
        ExprView::Call(_, _, args) => refs_from(s, base, args, 0, acc),
        ExprView::Nary(_, args) => refs_from(s, base, args, 0, acc),
        ExprView::Cast(a, _) => refs_in(s, base, *a, acc),
        _ => acc,
    }
}

/// The numbers of the columns that the paths of the expressions of `list`
/// from the `i`-th on end at, after those in `acc`.
pub open spec fn refs_from(
    s: SchemaView,
    base: int,
    list: Seq<ExprView>,
    i: int,
    acc: Seq<usize>,
) -> Seq<usize>
    decreases list, list.len() - i,
{
    if 0 <= i < list.len() {
        refs_from(s, base, list, i + 1, refs_in(s, base, list[i], acc))
    } else {
        acc
    }
}

/// The numbers of the columns that the column `f` of the entity `t` depends
/// on.
pub open spec fn column_refs(
    s: SchemaView,
    defs: Seq<Seq<DefinitionView>>,
    t: int,
    f: int,
) -> Seq<usize> {
    match defs[t][f] {
        DefinitionView::Derived(e) => refs_in(s, t, e, Seq::empty()),
        DefinitionView::Physical(_) => Seq::empty(),
    }
}

/// The dependencies of the columns of the entity `t` from the `f`-th on,
/// after the rows in `acc`.
pub open spec fn graph_row(
    s: SchemaView,
    defs: Seq<Seq<DefinitionView>>,
    t: int,
    f: int,
    acc: Seq<Seq<usize>>,
) -> Seq<Seq<usize>>
    decreases s.field_names[t].len() - f,
{
    if 0 <= f < s.field_names[t].len() {
        graph_row(s, defs, t, f + 1, acc.push(column_refs(s, defs, t, f)))
    } else {
        acc
    }
}

/// The dependencies of the columns of the entities from the `t`-th on, after
/// the rows in `acc`.
pub open spec fn graph_from(
    s: SchemaView,
    defs: Seq<Seq<DefinitionView>>,
    t: int,
    acc: Seq<Seq<usize>>,
) -> Seq<Seq<usize>>
    decreases s.table_names.len() - t,
{
    if 0 <= t < s.table_names.len() {
        graph_from(s, defs, t + 1, graph_row(s, defs, t, 0, acc))
    } else {
        acc
    }
}

/// The graph of dependencies of the definitions `defs`: for each column, by
/// its number, the numbers of the columns that it depends on.
pub open spec fn dependencies_of(s: SchemaView, defs: Seq<Seq<DefinitionView>>) -> Seq<Seq<usize>> {
    graph_from(s, defs, 0, Seq::empty())
}

/// The graph of dependencies of an analyzed model.
pub open spec fn dependencies(a: AnalyzedView) -> Seq<Seq<usize>> {
    dependencies_of(a.schema, a.definitions)
}

/// Whether every entity has as many definitions as it has columns.
pub open spec fn rows_fit(s: SchemaView, defs: Seq<Seq<DefinitionView>>) -> bool {
    &&& s.field_names.len() == s.table_names.len()
    &&& defs.len() == s.table_names.len()
}

/// What the rows of columns of one entity add to the graph: one row for
/// each column from the `f`-th on, and nothing else changes.
proof fn graph_row_adds(
    s: SchemaView,
    defs: Seq<Seq<DefinitionView>>,
    t: int,
    f: int,
    acc: Seq<Seq<usize>>,
)
    requires
        0 <= f <= s.field_names[t].len(),
    ensures
        graph_row(s, defs, t, f, acc).len() == acc.len() + s.field_names[t].len() - f,
        forall|i: int| 0 <= i < acc.len() ==> graph_row(s, defs, t, f, acc)[i] == acc[i],
        forall|k: int|
            f <= k < s.field_names[t].len() ==> graph_row(s, defs, t, f, acc)[acc.len() + k - f]
                == column_refs(s, defs, t, k),
    decreases s.field_names[t].len() - f,
{
    if f < s.field_names[t].len() {
        graph_row_adds(s, defs, t, f + 1, acc.push(column_refs(s, defs, t, f)));
        let next = acc.push(column_refs(s, defs, t, f));
        assert forall|i: int| 0 <= i < acc.len() implies graph_row(s, defs, t, f, acc)[i] == acc[i] by {
            assert(next[i] == acc[i]);
        }
        assert forall|k: int| f <= k < s.field_names[t].len() implies graph_row(s, defs,
            t,
            f,
            acc,
        )[acc.len() + k - f] == column_refs(s, defs, t, k) by {
            if k == f {
                assert(next[acc.len() as int] == column_refs(s, defs, t, f));
            }
        }
    }
}

/// What the entities from the `t`-th on add to the graph.
proof fn graph_from_adds(s: SchemaView, defs: Seq<Seq<DefinitionView>>, t: int, acc: Seq<Seq<usize>>)
    requires
        rows_fit(s, defs),
        0 <= t <= s.table_names.len(),
        acc.len() == columns_before(s.field_names, t),
    ensures
        graph_from(s, defs, t, acc).len() == columns_before(
            s.field_names,
            s.table_names.len() as int,
        ),
        forall|i: int| 0 <= i < acc.len() ==> graph_from(s, defs, t, acc)[i] == acc[i],
        forall|x: int, k: int|
            t <= x < s.table_names.len() && 0 <= k < s.field_names[x].len()
                ==> graph_from(s, defs, t, acc)[#[trigger] column_number(s, x, k)] == column_refs(s, defs,
                x,
                k,
            ),
    decreases s.table_names.len() - t,
{
    let n = s.table_names.len() as int;
    if t < n {
        let row = graph_row(s, defs, t, 0, acc);
        graph_row_adds(s, defs, t, 0, acc);
        assert(columns_before(s.field_names, t + 1) == columns_before(
            s.field_names,
            t,
        ) + s.field_names[t].len());
        graph_from_adds(s, defs, t + 1, row);
        assert forall|i: int| 0 <= i < acc.len() implies graph_from(s, defs, t, acc)[i] == acc[i] by {
            assert(row[i] == acc[i]);
        }
        assert forall|x: int, k: int|
            t <= x < n && 0 <= k < s.field_names[x].len() implies graph_from(s, defs, t, acc)[
        #[trigger] column_number(s, x, k)] == column_refs(s, defs, x, k) by {
            if x == t {
                assert(row[acc.len() + k - 0] == column_refs(s, defs, t, k));
                assert(graph_from(s, defs, t + 1, row)[acc.len() + k] == row[acc.len() + k]);
            }
        }
    }
}

/// The graph has one row for each column, and the row of a column holds the
/// numbers of the columns that it depends on.
pub proof fn graph_rows_are_column_refs(
    s: SchemaView,
    defs: Seq<Seq<DefinitionView>>,
    t: int,
    f: int,
)
    requires
        rows_fit(s, defs),
        0 <= t < s.table_names.len(),
        0 <= f < s.field_names[t].len(),
    ensures
        dependencies_of(s, defs).len() == columns_before(
            s.field_names,
            s.table_names.len() as int,
        ),
        0 <= column_number(s, t, f) < dependencies_of(s, defs).len(),
        dependencies_of(s, defs)[column_number(s, t, f)] == column_refs(s, defs, t, f),
{
    graph_from_adds(s, defs, 0, Seq::empty());
    numbers_grow(s.field_names, t, s.table_names.len() as int);
}

/// The columns of an entity are numbered before those of a later entity.
pub proof fn numbers_grow(fields: Seq<Seq<Seq<char>>>, t: int, n: int)
    requires
        0 <= t < n,
    ensures
        columns_before(fields, t) + fields[t].len() <= columns_before(fields, n),
    decreases n - t,
{
    if t + 1 < n {
        numbers_grow(fields, t + 1, n);
    }
}

/// The number of the first column of every entity, and for every number the
/// entity and the place of the column that bears it.
pub(crate) fn number_columns(fields: &Vec<Vec<String>>) -> (r: (Vec<usize>, Vec<(usize, usize)>))
    ensures
        r.0.len() == fields.len(),
        forall|t: int|
            0 <= t < fields.len() ==> (#[trigger] r.0@[t]) == columns_before(
                crate::analysis::name_table(fields@),
                t,
            ),
        r.1.len() == columns_before(crate::analysis::name_table(fields@), fields.len() as int),
        forall|id: int|
            0 <= id < r.1.len() ==> {
                let (t, f) = #[trigger] r.1@[id];
                &&& t < fields.len()
                &&& f < fields@[t as int].len()
                &&& columns_before(crate::analysis::name_table(fields@), t as int) + f == id
            },
{
    let ghost names = crate::analysis::name_table(fields@);
    let mut firsts: Vec<usize> = Vec::new();
    let mut nodes: Vec<(usize, usize)> = Vec::new();
    let mut t: usize = 0;
    while t < fields.len()
        invariant
            t <= fields.len(),
            names == crate::analysis::name_table(fields@),
            firsts.len() == t,
            nodes.len() == columns_before(names, t as int),
            forall|k: int| 0 <= k < t ==> (#[trigger] firsts@[k]) == columns_before(names, k),
            forall|id: int|
                0 <= id < nodes.len() ==> {
                    let (x, f) = #[trigger] nodes@[id];
                    &&& x < fields.len()
                    &&& f < fields@[x as int].len()
                    &&& columns_before(names, x as int) + f == id
                },
        decreases fields.len() - t,
    {
        firsts.push(nodes.len());
        let count = fields[t].len();
        assert(names[t as int].len() == count);
        let mut f: usize = 0;
        while f < count
            invariant
                f <= count,
                t < fields.len(),
                count == fields@[t as int].len(),
                names == crate::analysis::name_table(fields@),
                nodes.len() == columns_before(names, t as int) + f,
                forall|id: int|
                    0 <= id < nodes.len() ==> {
                        let (x, g) = #[trigger] nodes@[id];
                        &&& x < fields.len()
                        &&& g < fields@[x as int].len()
                        &&& columns_before(names, x as int) + g == id
                    },
            decreases count - f,
        {
            nodes.push((t, f));
            f += 1;
        }
        t += 1;
    }
    (firsts, nodes)
}

/// Adds to `out` the numbers of the columns that the paths of `e` end at.
pub(crate) fn collect_refs(
    schema: &Schema,
    firsts: &Vec<usize>,
    base: usize,
    e: &Expr,
    out: &mut Vec<usize>,
)
    requires
        schema_ok(schema@),
        base < schema.table_names.len(),
        firsts.len() == schema.table_names.len(),
        forall|t: int|
            0 <= t < firsts.len() ==> (#[trigger] firsts@[t]) == columns_before(
                schema@.field_names,
                t,
            ),
        columns_before(schema@.field_names, firsts.len() as int) <= usize::MAX,
        forall|k: int|
            0 <= k < old(out).len() ==> (#[trigger] old(out)@[k]) < columns_before(
                schema@.field_names,
                firsts.len() as int,
            ),
    ensures
        final(out)@ == refs_in(schema@, base as int, e@, old(out)@),
        forall|k: int|
            0 <= k < final(out).len() ==> (#[trigger] final(out)@[k]) < columns_before(
                schema@.field_names,
                firsts.len() as int,
            ),
    decreases e, 0int,
{
    match e {
        Expr::Column(p) => match resolve(schema, base, p) {
            Ok(t) => {
                proof {
                    numbers_grow(schema@.field_names, t.table as int, firsts.len() as int);
                }
                out.push(firsts[t.table] + t.field);
            },
            Err(_) => {},
        },
        Expr::Not(a) => collect_refs(schema, firsts, base, a, out),
        Expr::Negate(a) => collect_refs(schema, firsts, base, a, out),
        Expr::IsNull(a, _) => collect_refs(schema, firsts, base, a, out),
        Expr::Binary(_, a, b) => {
            collect_refs(schema, firsts, base, a, out);
            collect_refs(schema, firsts, base, b, out);
        },
        Expr::Call(_, _, args) => {
            assert(decreases_to!(*e => (*e)->Call_2));
            collect_refs_list(schema, firsts, base, args, out);
        },
        Expr::Nary(_, args) => {
            assert(decreases_to!(*e => (*e)->Nary_1));
            collect_refs_list(schema, firsts, base, args, out);
        },
        Expr::Cast(a, _) => collect_refs(schema, firsts, base, a, out),
        _ => {},
    }
}

/// Adds to `out` the numbers of the columns that the paths of the
/// expressions of `list` end at.
pub(crate) fn collect_refs_list(
    schema: &Schema,
    firsts: &Vec<usize>,
    base: usize,
    list: &Vec<Expr>,
    out: &mut Vec<usize>,
)
    requires
        schema_ok(schema@),
        base < schema.table_names.len(),
        firsts.len() == schema.table_names.len(),
        forall|t: int|
            0 <= t < firsts.len() ==> (#[trigger] firsts@[t]) == columns_before(
                schema@.field_names,
                t,
            ),
        columns_before(schema@.field_names, firsts.len() as int) <= usize::MAX,
        forall|k: int|
            0 <= k < old(out).len() ==> (#[trigger] old(out)@[k]) < columns_before(
                schema@.field_names,
                firsts.len() as int,
            ),
    ensures
        final(out)@ == refs_from(schema@, base as int, expr_views(list@), 0, old(out)@),
        forall|k: int|
            0 <= k < final(out).len() ==> (#[trigger] final(out)@[k]) < columns_before(
                schema@.field_names,
                firsts.len() as int,
            ),
    decreases list, 1int,
{
    let ghost v = expr_views(list@);
    let ghost start = out@;
    let mut i: usize = 0;
    while i < list.len()
        invariant
            i <= list.len(),
            schema_ok(schema@),
            base < schema.table_names.len(),
            firsts.len() == schema.table_names.len(),
            forall|t: int|
                0 <= t < firsts.len() ==> (#[trigger] firsts@[t]) == columns_before(
                    schema@.field_names,
                    t,
                ),
            columns_before(schema@.field_names, firsts.len() as int) <= usize::MAX,
            forall|k: int|
                0 <= k < out.len() ==> (#[trigger] out@[k]) < columns_before(
                    schema@.field_names,
                    firsts.len() as int,
                ),
            v == expr_views(list@),
            start == old(out)@,
            refs_from(schema@, base as int, v, 0, start) == refs_from(
                schema@,
                base as int,
                v,
                i as int,
                out@,
            ),
        decreases list.len() - i,
    {
        assert(decreases_to!(*list => list@) && decreases_to!(list@ => list@[i as int]));
        collect_refs(schema, firsts, base, &list[i], out);
        i += 1;
    }
}

/// Builds the graph of dependencies of the definitions of a schema.
pub(crate) fn dependency_graph(schema: &Schema, definitions: &Vec<Vec<Definition>>, firsts: &Vec<usize>) -> (r:
    Vec<Vec<usize>>)
    requires
        schema_ok(schema@),
        definitions.len() == schema.table_names.len(),
        forall|t: int|
            0 <= t < definitions.len() ==> (#[trigger] definitions@[t]).len()
                == schema@.field_names[t].len(),
        firsts.len() == schema.table_names.len(),
        forall|t: int|
            0 <= t < firsts.len() ==> (#[trigger] firsts@[t]) == columns_before(
                schema@.field_names,
                t,
            ),
        columns_before(schema@.field_names, firsts.len() as int) <= usize::MAX,
    ensures
        lists(r@) == dependencies_of(schema@, definition_table(definitions@)),
        r.len() == columns_before(schema@.field_names, firsts.len() as int),
        closed(lists(r@)),
{
    let ghost s = schema@;
    let ghost defs = definition_table(definitions@);
    let ghost total = columns_before(s.field_names, firsts.len() as int);
    let n = schema.table_names.len();
    let mut adj: Vec<Vec<usize>> = Vec::new();
    let mut t: usize = 0;
    assert(lists(adj@) == Seq::<Seq<usize>>::empty());
    while t < n
        invariant
            t <= n,
            s == schema@,
            schema_ok(s),
            defs == definition_table(definitions@),
            definitions.len() == n,
            forall|x: int|
                0 <= x < definitions.len() ==> (#[trigger] definitions@[x]).len()
                    == s.field_names[x].len(),
            n == schema.table_names.len(),
            n == s.table_names.len(),
            firsts.len() == n,
            total == columns_before(s.field_names, n as int),
            total <= usize::MAX,
            forall|x: int|
                0 <= x < firsts.len() ==> (#[trigger] firsts@[x]) == columns_before(
                    s.field_names,
                    x,
                ),
            adj.len() == columns_before(s.field_names, t as int),
            forall|x: int, k: int|
                0 <= x < adj.len() && 0 <= k < adj@[x].len() ==> (#[trigger] adj@[x]@[k]) < total,
            dependencies_of(s, defs) == graph_from(s, defs, t as int, lists(adj@)),
        decreases n - t,
    {
        let count = definitions[t].len();
        let mut f: usize = 0;
        let ghost mark = lists(adj@);
        while f < count
            invariant
                f <= count,
                t < n,
                s == schema@,
                schema_ok(s),
                defs == definition_table(definitions@),
                definitions.len() == n,
                n == schema.table_names.len(),
                n == s.table_names.len(),
                firsts.len() == n,
                count == definitions@[t as int].len(),
                count == s.field_names[t as int].len(),
                total == columns_before(s.field_names, n as int),
                total <= usize::MAX,
                forall|x: int|
                    0 <= x < firsts.len() ==> (#[trigger] firsts@[x]) == columns_before(
                        s.field_names,
                        x,
                    ),
                adj.len() == columns_before(s.field_names, t as int) + f,
                forall|x: int, k: int|
                    0 <= x < adj.len() && 0 <= k < adj@[x].len() ==> (#[trigger] adj@[x]@[k])
                        < total,
                graph_row(s, defs, t as int, 0, mark) == graph_row(
                    s,
                    defs,
                    t as int,
                    f as int,
                    lists(adj@),
                ),
            decreases count - f,
        {
            let mut row: Vec<usize> = Vec::new();
            assert(defs[t as int][f as int] == definitions@[t as int]@[f as int]@);
            match &definitions[t][f] {
                Definition::Derived(e) => {
                    collect_refs(schema, firsts, t, e, &mut row);
                },
                Definition::Physical(_) => {},
            }
            let ghost before = lists(adj@);
            let ghost rv = row@;
            adj.push(row);
            assert(lists(adj@) == before.push(rv));
            f += 1;
        }
        t += 1;
    }
    proof {
        assert forall|u: int, k: int|
            0 <= u < lists(adj@).len() && 0 <= k < lists(adj@)[u].len() implies (
        #[trigger] lists(adj@)[u][k]) < lists(adj@).len() by {
            assert(adj@[u]@[k] < total);
        }
    }
    adj
}

} // verus!
