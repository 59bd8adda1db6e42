//! The analysis entry point: a manifest and session properties become an
//! analyzed model, or the first fault found.

use vstd::prelude::*;
use vstd::string::*;

use crate::analysis::{
    choose_dialect, collect_conditions, column_name_views, columns_before, conditions_from,
    name_table, property_views, read, readings_of, resolve_expressions, resolve_graph,
    resolved_parts, Readings, ReadingsView,
    AnalysisError, AnalysisErrorView, ColumnName, ColumnNameView, ResolvedView, SessionProperty,
    SessionPropertyView,
};
use crate::ast::{expr_views, Expr, ExprView, TableSource, TableSourceView};
use crate::cycles::{
    acyclic, find_cycle, has_edge, is_cycle, lists, ranked, ranked_has_no_cycle,
};
use crate::deps::{column_number, dependencies_of, dependency_graph, number_columns};
use crate::joins::{
    conditions_sound, left_mark, place, placed, right_mark, rows_match,
};
use crate::manifest::{
    Cardinality, ColumnSource, ColumnSourceView, EntityView, Manifest, ManifestView,
};
use crate::model::{
    definition_table, source_views, well_formed, AnalyzedManifest, AnalyzedView, Definition,
    DefinitionView,
};
use crate::qualify::copy_source;
use crate::schema::{schema_ok, Schema, SchemaView};
use crate::text::{find_name, position, texts};

verus! {

/// A table of the physical catalog: its dotted name and its columns.
#[derive(Debug, PartialEq, Eq)]
pub struct PhysicalTable {
    pub name: Vec<String>,
    pub columns: Vec<String>,
}

pub struct PhysicalTableView {
    pub name: Seq<Seq<char>>,
    pub columns: Seq<Seq<char>>,
}

impl View for PhysicalTable {
    type V = PhysicalTableView;

    open spec fn view(&self) -> PhysicalTableView {
        PhysicalTableView { name: texts(self.name@), columns: texts(self.columns@) }
    }
}

/// The values of a sequence of catalog tables.
pub open spec fn catalog_views(s: Seq<PhysicalTable>) -> Seq<PhysicalTableView> {
    Seq::new(s.len(), |i: int| s[i]@)
}

/// How strict analysis is.
#[derive(Debug, PartialEq, Eq)]
pub enum Mode {
    /// For rewriting only: the physical tables are taken as declared.
    Unparse,
    /// Every entity over a named table is held against this snapshot of the
    /// physical catalog.
    Full(Vec<PhysicalTable>),
}

/// The snapshot of the physical catalog that a mode brings, if any.
pub open spec fn catalog_of(mode: Mode) -> Option<Seq<PhysicalTableView>> {
    match mode {
        Mode::Unparse => None,
        Mode::Full(c) => Some(catalog_views(c@)),
    }
}

/// The first relationship from the `k`-th on whose condition is not made of
/// physical columns of its two entities.
pub open spec fn first_bad_condition(
    s: SchemaView,
    defs: Seq<Seq<DefinitionView>>,
    conditions: Seq<ExprView>,
    k: int,
) -> Option<int>
    decreases conditions.len() - k,
{
    if 0 <= k < conditions.len() {
        if placed(s, defs, k, left_mark(), right_mark(), conditions[k]) is Err {
            Some(k)
        } else {
            first_bad_condition(s, defs, conditions, k + 1)
        }
    } else {
        None
    }
}

/// The first table of the catalog from the `i`-th on with the name `path`.
pub open spec fn table_in(catalog: Seq<PhysicalTableView>, path: Seq<Seq<char>>, i: int) -> Option<
    int,
>
    decreases catalog.len() - i,
{
    if 0 <= i < catalog.len() {
        if catalog[i].name == path {
            Some(i)
        } else {
            table_in(catalog, path, i + 1)
        }
    } else {
        None
    }
}

/// The first physical column of `e` from the `j`-th on that is not among
/// `columns`.
pub open spec fn missing_column(e: EntityView, columns: Seq<Seq<char>>, j: int) -> Option<
    Seq<char>,
>
    decreases e.columns.len() - j,
{
    if 0 <= j < e.columns.len() {
        match e.columns[j].source {
            ColumnSourceView::Physical(p) => if position(columns, p) is None {
                Some(p)
            } else {
                missing_column(e, columns, j + 1)
            },
            ColumnSourceView::Derived(_) => missing_column(e, columns, j + 1),
        }
    } else {
        None
    }
}

/// The first fault of the entities from the `i`-th on against the catalog:
/// an entity over a named table that the catalog lacks, or a physical column
/// that the table lacks.
pub open spec fn physical_fault(m: ManifestView, catalog: Seq<PhysicalTableView>, i: int) -> Option<
    AnalysisErrorView,
>
    decreases m.entities.len() - i,
{
    if 0 <= i < m.entities.len() {
        let e = m.entities[i];
        match e.source {
            TableSourceView::Raw(_) | TableSourceView::Block(_) => physical_fault(
                m,
                catalog,
                i + 1,
            ),
            TableSourceView::Named(path) => match table_in(catalog, path, 0) {
                None => Some(AnalysisErrorView::UnknownTable { entity: e.name }),
                Some(t) => match missing_column(e, catalog[t].columns, 0) {
                    Some(c) => Some(
                        AnalysisErrorView::UnknownPhysicalColumn { entity: e.name, column: c },
                    ),
                    None => physical_fault(m, catalog, i + 1),
                },
            },
        }
    } else {
        None
    }
}

/// The analyzed model that the resolved parts of a manifest make, or the
/// first fault, in this order: the conditions of the relationships, and in
/// full mode the physical catalog.
pub open spec fn completed(
    m: ManifestView,
    rd: ReadingsView,
    catalog: Option<Seq<PhysicalTableView>>,
    parts: ResolvedView,
) -> Result<AnalyzedView, AnalysisErrorView> {
    match conditions_from(m, rd, 0, Seq::empty()) {
        Err(e) => Err(e),
        Ok(conditions) => {
            let a = AnalyzedView {
                catalog: m.catalog,
                namespace: m.schema,
                dialect: parts.dialect,
                schema: parts.schema,
                sources: Seq::new(m.entities.len(), |i: int| m.entities[i].source),
                definitions: parts.definitions,
                cardinalities: Seq::new(
                    m.relationships.len(),
                    |k: int| m.relationships[k].cardinality,
                ),
                conditions,
                depth: columns_before(
                    parts.schema.field_names,
                    parts.schema.table_names.len() as int,
                ),
            };
            match first_bad_condition(a.schema, a.definitions, a.conditions, 0) {
                Some(k) => Err(AnalysisErrorView::InvalidRelationship(a.schema.link_names[k])),
                None => match catalog {
                    None => Ok(a),
                    Some(c) => match physical_fault(m, c, 0) {
                        Some(e) => Err(e),
                        None => Ok(a),
                    },
                },
            }
        },
    }
}

/// Whether `name` names the column with the number `id`.
pub open spec fn names_column(s: SchemaView, id: int, name: ColumnNameView) -> bool {
    exists|t: int, f: int|
        0 <= t < s.table_names.len() && 0 <= f < s.field_names[t].len() && #[trigger] column_number(
            s,
            t,
            f,
        ) == id && name == (ColumnNameView {
            entity: s.table_names[t],
            column: s.field_names[t][f],
        })
}

/// Whether `names` names, column by column, the cycle `c` of the graph `g`.
pub open spec fn names_cycle(
    s: SchemaView,
    g: Seq<Seq<usize>>,
    c: Seq<usize>,
    names: Seq<ColumnNameView>,
) -> bool {
    &&& is_cycle(g, c)
    &&& names.len() == c.len()
    &&& forall|k: int| 0 <= k < c.len() ==> names_column(s, c[k] as int, #[trigger] names[k])
}

/// What analysis owes to a manifest whose texts were read as `rd`. Where the
/// resolvers find a fault, it is that fault.
/// Where the dependencies among the derived columns have a cycle, it is a
/// cyclic-dependency error that names the columns of one such cycle.
/// Otherwise it is the completed model, whose parts fit together, or the
/// first fault of completing it.
pub open spec fn outcome_of(
    m: ManifestView,
    rd: ReadingsView,
    props: Seq<SessionPropertyView>,
    catalog: Option<Seq<PhysicalTableView>>,
    r: Result<AnalyzedView, AnalysisErrorView>,
) -> bool {
    match resolved_parts(m, props, rd) {
        Err(e) => r == Err::<AnalyzedView, AnalysisErrorView>(e),
        Ok(parts) => {
            let g = dependencies_of(parts.schema, parts.definitions);
            if acyclic(g) {
                r == completed(m, rd, catalog, parts) && (r matches Ok(a) ==> well_formed(a))
            } else {
                r is Err && r->Err_0 is CyclicDependency && exists|c: Seq<usize>| #[trigger]
                    names_cycle(parts.schema, g, c, r->Err_0->CyclicDependency_0)
            }
        },
    }
}

/// What analysis owes to a manifest: what it owes once the texts of the
/// manifest are parsed.
pub open spec fn analysis_outcome(
    m: ManifestView,
    props: Seq<SessionPropertyView>,
    catalog: Option<Seq<PhysicalTableView>>,
    r: Result<AnalyzedView, AnalysisErrorView>,
) -> bool {
    outcome_of(m, readings_of(m), props, catalog, r)
}

/// The value of the outcome of an analysis.
pub open spec fn analysis_view(r: Result<AnalyzedManifest, AnalysisError>) -> Result<
    AnalyzedView,
    AnalysisErrorView,
> {
    match r {
        Ok(a) => Ok(a@),
        Err(e) => Err(e@),
    }
}

/// The table or subquery behind every entity.
pub(crate) fn collect_sources(m: &Manifest) -> (r: Vec<TableSource>)
    ensures
        source_views(r@) == Seq::new(m@.entities.len(), |i: int| m@.entities[i].source),
{
    let mut out: Vec<TableSource> = Vec::new();
    let mut i: usize = 0;
    while i < m.entities.len()
        invariant
            i <= m.entities.len(),
            out.len() == i,
            forall|k: int| 0 <= k < i ==> (#[trigger] out@[k])@ == m.entities@[k].source@,
        decreases m.entities.len() - i,
    {
        out.push(copy_source(&m.entities[i].source));
        i += 1;
    }
    assert(source_views(out@) =~= Seq::new(m@.entities.len(), |i: int| m@.entities[i].source));
    out
}

/// The cardinality of every relationship.
pub(crate) fn collect_cardinalities(m: &Manifest) -> (r: Vec<Cardinality>)
    ensures
        r@ == Seq::new(m@.relationships.len(), |k: int| m@.relationships[k].cardinality),
{
    let mut out: Vec<Cardinality> = Vec::new();
    let mut i: usize = 0;
    while i < m.relationships.len()
        invariant
            i <= m.relationships.len(),
            out.len() == i,
            forall|k: int| 0 <= k < i ==> (#[trigger] out@[k]) == m.relationships@[k].cardinality,
        decreases m.relationships.len() - i,
    {
        out.push(m.relationships[i].cardinality);
        i += 1;
    }
    assert(out@ =~= Seq::new(m@.relationships.len(), |k: int| m@.relationships[k].cardinality));
    out
}

/// Finds the first relationship whose condition is not made of physical
/// columns of its two entities.
pub(crate) fn find_bad_condition(
    schema: &Schema,
    definitions: &Vec<Vec<Definition>>,
    conditions: &Vec<Expr>,
) -> (r: Option<usize>)
    requires
        schema_ok(schema@),
        rows_match(schema@, definition_table(definitions@)),
        conditions.len() == schema.link_names.len(),
    ensures
        match r {
            Some(k) => first_bad_condition(
                schema@,
                definition_table(definitions@),
                expr_views(conditions@),
                0,
            ) == Some(k as int) && k < schema.link_names.len(),
            None => first_bad_condition(
                schema@,
                definition_table(definitions@),
                expr_views(conditions@),
                0,
            ) is None && conditions_sound(
                schema@,
                definition_table(definitions@),
                expr_views(conditions@),
            ),
        },
{
    let ghost s = schema@;
    let ghost defs = definition_table(definitions@);
    let ghost all = expr_views(conditions@);
    let l = String::from_str("l");
    let r = String::from_str("r");
    let mut k: usize = 0;
    while k < conditions.len()
        invariant
            k <= conditions.len(),
            l@ == left_mark(),
            r@ == right_mark(),
            s == schema@,
            defs == definition_table(definitions@),
            all == expr_views(conditions@),
            schema_ok(s),
            rows_match(s, defs),
            conditions.len() == schema.link_names.len(),
            first_bad_condition(s, defs, all, 0) == first_bad_condition(s, defs, all, k as int),
            forall|j: int|
                0 <= j < k ==> placed(s, defs, j, left_mark(), right_mark(), #[trigger] all[j]) is Ok,
        decreases conditions.len() - k,
    {
        assert(all[k as int] == conditions@[k as int]@);
        match place(schema, definitions, k, &l, &r, &conditions[k]) {
            Ok(_) => {},
            Err(_) => {
                return Some(k);
            },
        }
        k += 1;
    }
    None
}

/// Whether two dotted names are the same.
pub(crate) fn same_names(a: &Vec<String>, b: &Vec<String>) -> (r: bool)
    ensures
        r == (texts(a@) == texts(b@)),
{
    if a.len() != b.len() {
        assert(texts(a@).len() != texts(b@).len());
        return false;
    }
    let mut i: usize = 0;
    while i < a.len()
        invariant
            i <= a.len(),
            a.len() == b.len(),
            forall|k: int| 0 <= k < i ==> texts(a@)[k] == texts(b@)[k],
        decreases a.len() - i,
    {
        if a[i] != b[i] {
            assert(texts(a@)[i as int] != texts(b@)[i as int]);
            return false;
        }
        i += 1;
    }
    assert(texts(a@) =~= texts(b@));
    true
}

/// Finds the first table of the catalog with the name `path`.
pub(crate) fn find_table(catalog: &Vec<PhysicalTable>, path: &Vec<String>) -> (r: Option<usize>)
    ensures
        match r {
            Some(x) => table_in(catalog_views(catalog@), texts(path@), 0) == Some(x as int) && x
                < catalog.len(),
            None => table_in(catalog_views(catalog@), texts(path@), 0) is None,
        },
{
    let ghost c = catalog_views(catalog@);
    let mut t: usize = 0;
    while t < catalog.len()
        invariant
            t <= catalog.len(),
            c == catalog_views(catalog@),
            table_in(c, texts(path@), 0) == table_in(c, texts(path@), t as int),
        decreases catalog.len() - t,
    {
        assert(c[t as int] == catalog@[t as int]@);
        if same_names(&catalog[t].name, path) {
            return Some(t);
        }
        t += 1;
    }
    None
}

/// Finds the first fault of the entities against the catalog.
pub(crate) fn find_physical_fault(m: &Manifest, catalog: &Vec<PhysicalTable>) -> (r: Option<
    AnalysisError,
>)
    ensures
        match r {
            Some(e) => physical_fault(m@, catalog_views(catalog@), 0) == Some(e@),
            None => physical_fault(m@, catalog_views(catalog@), 0) is None,
        },
{
    let ghost c = catalog_views(catalog@);
    let mut i: usize = 0;
    while i < m.entities.len()
        invariant
            i <= m.entities.len(),
            c == catalog_views(catalog@),
            physical_fault(m@, c, 0) == physical_fault(m@, c, i as int),
        decreases m.entities.len() - i,
    {
        let e = &m.entities[i];
        assert(m@.entities[i as int] == e@);
        match &e.source {
            TableSource::Raw(_) | TableSource::Block(_) => {},
            TableSource::Named(path) => {
                let found = find_table(catalog, path);
                match found {
                    None => {
                        return Some(AnalysisError::UnknownTable { entity: e.name.clone() });
                    },
                    Some(x) => {
                        assert(c[x as int] == catalog@[x as int]@);
                        let columns = &catalog[x].columns;
                        let mut j: usize = 0;
                        while j < e.columns.len()
                            invariant
                                j <= e.columns.len(),
                                missing_column(e@, texts(columns@), 0) == missing_column(
                                    e@,
                                    texts(columns@),
                                    j as int,
                                ),
                                physical_fault(m@, c, 0) == physical_fault(m@, c, i as int),
                                c == catalog_views(catalog@),
                                table_in(c, texts(path@), 0) == Some(x as int),
                                x < c.len(),
                                c[x as int].columns == texts(columns@),
                                i < m.entities.len(),
                                m@.entities[i as int] == e@,
                                e@.source == TableSourceView::Named(texts(path@)),
                            decreases e.columns.len() - j,
                        {
                            assert(e@.columns[j as int] == e.columns@[j as int]@);
                            match &e.columns[j].source {
                                ColumnSource::Physical(p) => {
                                    if find_name(columns, p.as_str()).is_none() {
                                        return Some(
                                            AnalysisError::UnknownPhysicalColumn {
                                                entity: e.name.clone(),
                                                column: p.clone(),
                                            },
                                        );
                                    }
                                },
                                ColumnSource::Derived(_) => {},
                            }
                            j += 1;
                        }
                    },
                }
            },
        }
        i += 1;
    }
    None
}

/// Names the columns of a cycle of dependencies.
pub(crate) fn name_cycle(
    schema: &Schema,
    adj: &Vec<Vec<usize>>,
    nodes: &Vec<(usize, usize)>,
    c: &Vec<usize>,
) -> (r: Vec<ColumnName>)
    requires
        is_cycle(lists(adj@), c@),
        nodes.len() == adj.len(),
        schema@.field_names.len() == schema@.table_names.len(),
        forall|id: int|
            0 <= id < nodes.len() ==> {
                let (t, f) = #[trigger] nodes@[id];
                &&& t < schema@.table_names.len()
                &&& f < schema@.field_names[t as int].len()
                &&& column_number(schema@, t as int, f as int) == id
            },
    ensures
        names_cycle(schema@, lists(adj@), c@, column_name_views(r@)),
{
    let ghost g = lists(adj@);
    let mut out: Vec<ColumnName> = Vec::new();
    let mut k: usize = 0;
    while k < c.len()
        invariant
            k <= c.len(),
            out.len() == k,
            g == lists(adj@),
            is_cycle(g, c@),
            nodes.len() == g.len(),
            schema@.field_names.len() == schema@.table_names.len(),
            forall|id: int|
                0 <= id < nodes.len() ==> {
                    let (t, f) = #[trigger] nodes@[id];
                    &&& t < schema@.table_names.len()
                    &&& f < schema@.field_names[t as int].len()
                    &&& column_number(schema@, t as int, f as int) == id
                },
            forall|i: int|
                0 <= i < k ==> names_column(schema@, c@[i] as int, (#[trigger] out@[i])@),
        decreases c.len() - k,
    {
        proof {
            if k + 1 < c.len() {
                assert(has_edge(g, c@[k as int] as int, c@[k + 1] as int));
            } else {
                assert(has_edge(g, c@.last() as int, c@[0] as int));
            }
        }
        let (t, f) = nodes[c[k]];
        assert(schema@.field_names[t as int] == texts(schema.field_names@[t as int]@));
        let name = ColumnName {
            entity: schema.table_names[t].clone(),
            column: schema.field_names[t][f].clone(),
        };
        proof {
            assert(column_number(schema@, t as int, f as int) == c@[k as int]);
            assert(names_column(schema@, c@[k as int] as int, name@));
        }
        out.push(name);
        k += 1;
    }
    proof {
        let names = column_name_views(out@);
        assert forall|i: int| 0 <= i < c@.len() implies names_column(
            schema@,
            c@[i] as int,
            #[trigger] names[i],
        ) by {
            assert(names[i] == out@[i]@);
        }
    }
    out
}

/// Where the parts resolve and their dependencies have a cycle, the columns
/// of that cycle are what analysis owes.
proof fn cycle_is_the_outcome(
    m: ManifestView,
    rd: ReadingsView,
    props: Seq<SessionPropertyView>,
    catalog: Option<Seq<PhysicalTableView>>,
    parts: ResolvedView,
    c: Seq<usize>,
    names: Seq<ColumnNameView>,
)
    requires
        resolved_parts(m, props, rd) == Ok::<ResolvedView, AnalysisErrorView>(parts),
        names_cycle(parts.schema, dependencies_of(parts.schema, parts.definitions), c, names),
    ensures
        outcome_of(
            m,
            rd,
            props,
            catalog,
            Err::<AnalyzedView, AnalysisErrorView>(AnalysisErrorView::CyclicDependency(names)),
        ),
{
    let g = dependencies_of(parts.schema, parts.definitions);
    if acyclic(g) {
        let rank = choose|rank: Seq<nat>| ranked(g, rank);
        ranked_has_no_cycle(g, rank, c);
    }
    let e = AnalysisErrorView::CyclicDependency(names);
    assert(e->CyclicDependency_0 == names);
    assert(exists|x: Seq<usize>| #[trigger] names_cycle(parts.schema, g, x, e->CyclicDependency_0));
}

/// Analyzes a manifest under the given session properties.
///
/// The session property `dialect`, where it has a value, names the dialect
/// to render for in place of the one that the manifest declares.
pub fn analyze(m: &Manifest, props: &Vec<SessionProperty>, mode: &Mode) -> (r: Result<
    AnalyzedManifest,
    AnalysisError,
>)
    ensures
        analysis_outcome(m@, property_views(props@), catalog_of(*mode), analysis_view(r)),
{
    let rd = read(m);
    analyze_parsed(m, &rd, props, mode)
}

/// Analyzes a manifest whose texts are read already: `rd` holds, for each
/// derived column and each condition, the expression or why there is none.
/// Nothing is parsed here.
pub fn analyze_parsed(
    m: &Manifest,
    rd: &Readings,
    props: &Vec<SessionProperty>,
    mode: &Mode,
) -> (r: Result<AnalyzedManifest, AnalysisError>)
    ensures
        outcome_of(m@, rd@, property_views(props@), catalog_of(*mode), analysis_view(r)),
{
    let ghost mv = m@;
    let ghost pv = property_views(props@);
    let dialect = match choose_dialect(m.dialect, props) {
        Ok(d) => d,
        Err(v) => {
            return Err(AnalysisError::UnsupportedDialect(v));
        },
    };
    let schema = match resolve_graph(m) {
        Ok(s) => s,
        Err(e) => {
            return Err(e);
        },
    };
    let definitions = match resolve_expressions(m, &schema, rd) {
        Ok(d) => d,
        Err(e) => {
            return Err(e);
        },
    };
    let ghost parts = ResolvedView {
        dialect,
        schema: schema@,
        definitions: definition_table(definitions@),
    };
    assert(resolved_parts(mv, pv, rd@) == Ok::<ResolvedView, AnalysisErrorView>(parts));
    let ghost g = dependencies_of(parts.schema, parts.definitions);
    proof {
        assert(name_table(schema.field_names@) == schema@.field_names);
        assert(schema@.field_names == crate::analysis::all_column_names(mv));
        assert forall|i: int| 0 <= i < definitions.len() implies (#[trigger] definitions@[i]).len()
            == schema@.field_names[i].len() by {
            assert(mv.entities[i] == m.entities@[i]@);
        }
    }
    let (firsts, nodes) = number_columns(&schema.field_names);
    let adj = dependency_graph(&schema, &definitions, &firsts);
    match find_cycle(&adj) {
        Some(c) => {
            let named = name_cycle(&schema, &adj, &nodes, &c);
            proof {
                cycle_is_the_outcome(
                    mv,
                    rd@,
                    pv,
                    catalog_of(*mode),
                    parts,
                    c@,
                    column_name_views(named@),
                );
            }
            return Err(AnalysisError::CyclicDependency(named));
        },
        None => {},
    }
    let conditions = match collect_conditions(m, rd) {
        Ok(c) => c,
        Err(e) => {
            return Err(e);
        },
    };
    proof {
        let table = definition_table(definitions@);
        assert forall|i: int| 0 <= i < table.len() implies (#[trigger] table[i]).len()
            == schema@.field_names[i].len() by {
            assert(table[i].len() == definitions@[i].len());
        }
    }
    match find_bad_condition(&schema, &definitions, &conditions) {
        Some(k) => {
            return Err(AnalysisError::InvalidRelationship(schema.link_names[k].clone()));
        },
        None => {},
    }
    let sources = collect_sources(m);
    let cardinalities = collect_cardinalities(m);
    let a = AnalyzedManifest::assemble(
        m.catalog.clone(),
        m.schema.clone(),
        dialect,
        schema,
        sources,
        definitions,
        cardinalities,
        conditions,
        nodes.len(),
    );
    match mode {
        Mode::Unparse => {},
        Mode::Full(catalog) => match find_physical_fault(m, catalog) {
            Some(e) => {
                return Err(e);
            },
            None => {},
        },
    }
    proof {
        use_type_invariant(&a);
    }
    Ok(a)
}

} // verus!
