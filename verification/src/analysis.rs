//! Analysis of a manifest: names are checked, relationships become the edges
//! of a graph, and every derived column is parsed and resolved against it.

use vstd::prelude::*;
use vstd::string::*;

use crate::ast::{expr_views, Expr, ExprView};
use crate::dialect::{dialect_named, lowercase, parse_dialect, Dialect};
use crate::manifest::{ColumnSource, ColumnSourceView, Entity, EntityView, Manifest, ManifestView};
use crate::model::{definition_table, definition_views, AnalyzedView, Definition, DefinitionView};
use crate::model::{definitions_resolve, sound_definition};
use crate::qualify::{qualified, qualify};
use crate::lexer::LexError;
use crate::parser::{missing, Expected, SyntaxError};
use crate::qualify::copy_expr;
use crate::query::{expression_of_text, parse_expression_text, ParseError, ParseErrorView};
use crate::routes::{edges_within, Edge};
use crate::schema::{links_sound, route_table, all_routes, schema_ok, ReferenceError, ReferenceErrorView, Schema, SchemaView};
use crate::text::{find_name, find_repeat, first_repeat, position, same_text, texts};

verus! {

/// A column, by the names of its entity and of itself.
#[derive(Debug, PartialEq, Eq)]
pub struct ColumnName {
    pub entity: String,
    pub column: String,
}

pub struct ColumnNameView {
    pub entity: Seq<char>,
    pub column: Seq<char>,
}

impl View for ColumnName {
    type V = ColumnNameView;

    open spec fn view(&self) -> ColumnNameView {
        ColumnNameView { entity: self.entity@, column: self.column@ }
    }
}

/// The values of a sequence of column names.
pub open spec fn column_name_views(s: Seq<ColumnName>) -> Seq<ColumnNameView> {
    Seq::new(s.len(), |i: int| s[i]@)
}

/// Why a manifest cannot be analyzed.
#[derive(Debug, PartialEq, Eq)]
pub enum AnalysisError {
    /// Two entities, two columns of one entity, or two relationships share
    /// this name.
    DuplicateName(String),
    /// A relationship names an entity that the manifest does not declare.
    UnknownEntity { relationship: String, entity: String },
    /// A relationship joins an entity to itself, or its condition is not
    /// made of physical columns of its two entities.
    InvalidRelationship(String),
    /// The expression of a derived column, or the condition of a
    /// relationship (then `column` is empty), is no expression.
    InvalidExpression { owner: String, column: String, error: ParseError },
    /// A column path of a derived column does not resolve.
    Reference { entity: String, column: String, cause: ReferenceError },
    /// Derived columns depend on each other in a cycle: each of these
    /// columns refers to the next, and the last to the first.
    CyclicDependency(Vec<ColumnName>),
    /// A session property asks for a dialect that is not supported.
    UnsupportedDialect(String),
    /// In full mode: the physical catalog lacks the table behind the entity.
    UnknownTable { entity: String },
    /// In full mode: the table behind the entity lacks a physical column
    /// that the entity declares.
    UnknownPhysicalColumn { entity: String, column: String },
}

pub enum AnalysisErrorView {
    DuplicateName(Seq<char>),
    UnknownEntity { relationship: Seq<char>, entity: Seq<char> },
    InvalidRelationship(Seq<char>),
    InvalidExpression { owner: Seq<char>, column: Seq<char>, error: ParseErrorView },
    Reference { entity: Seq<char>, column: Seq<char>, cause: ReferenceErrorView },
    CyclicDependency(Seq<ColumnNameView>),
    UnsupportedDialect(Seq<char>),
    UnknownTable { entity: Seq<char> },
    UnknownPhysicalColumn { entity: Seq<char>, column: Seq<char> },
}

impl View for AnalysisError {
    type V = AnalysisErrorView;

    open spec fn view(&self) -> AnalysisErrorView {
        match self {
            AnalysisError::DuplicateName(n) => AnalysisErrorView::DuplicateName(n@),
            AnalysisError::UnknownEntity { relationship, entity } => AnalysisErrorView::UnknownEntity {
                relationship: relationship@,
                entity: entity@,
            },
            AnalysisError::InvalidRelationship(n) => AnalysisErrorView::InvalidRelationship(n@),
            AnalysisError::InvalidExpression { owner, column, error } => {
                AnalysisErrorView::InvalidExpression {
                    owner: owner@,
                    column: column@,
                    error: error@,
                }
            },
            AnalysisError::Reference { entity, column, cause } => AnalysisErrorView::Reference {
                entity: entity@,
                column: column@,
                cause: cause@,
            },
            AnalysisError::CyclicDependency(c) => AnalysisErrorView::CyclicDependency(
                column_name_views(c@),
            ),
            AnalysisError::UnsupportedDialect(n) => AnalysisErrorView::UnsupportedDialect(n@),
            AnalysisError::UnknownTable { entity } => AnalysisErrorView::UnknownTable {
                entity: entity@,
            },
            AnalysisError::UnknownPhysicalColumn { entity, column } => {
                AnalysisErrorView::UnknownPhysicalColumn { entity: entity@, column: column@ }
            },
        }
    }
}

/// One session property: a name and an optional value.
#[derive(Debug, PartialEq, Eq)]
pub struct SessionProperty {
    pub name: String,
    pub value: Option<String>,
}

pub struct SessionPropertyView {
    pub name: Seq<char>,
    pub value: Option<Seq<char>>,
}

impl View for SessionProperty {
    type V = SessionPropertyView;

    open spec fn view(&self) -> SessionPropertyView {
        SessionPropertyView { name: self.name@, value: crate::ast::opt_text(self.value) }
    }
}

/// The values of a sequence of session properties.
pub open spec fn property_views(s: Seq<SessionProperty>) -> Seq<SessionPropertyView> {
    Seq::new(s.len(), |i: int| s[i]@)
}

/// What the session properties say of `name`: the value of the last
/// property of that name.
pub open spec fn setting(props: Seq<SessionPropertyView>, name: Seq<char>) -> Option<
    Option<Seq<char>>,
>
    decreases props.len(),
{
    if props.len() == 0 {
        None
    } else if props.last().name == name {
        Some(props.last().value)
    } else {
        setting(props.drop_last(), name)
    }
}

/// The dialect to render for: the one that the session property `dialect`
/// names, or else the one that `declared` says.
pub open spec fn dialect_of(declared: Dialect, props: Seq<SessionPropertyView>) -> Result<
    Dialect,
    Seq<char>,
> {
    match setting(props, "dialect"@) {
        Some(Some(v)) => match dialect_named(lowercase(v)) {
            Some(d) => Ok(d),
            None => Err(v),
        },
        _ => Ok(declared),
    }
}

/// The names of the entities.
pub open spec fn entity_names(m: ManifestView) -> Seq<Seq<char>> {
    Seq::new(m.entities.len(), |i: int| m.entities[i].name)
}

/// The names of the columns of an entity.
pub open spec fn column_names(e: EntityView) -> Seq<Seq<char>> {
    Seq::new(e.columns.len(), |j: int| e.columns[j].name)
}

/// For each entity, the names of its columns.
pub open spec fn all_column_names(m: ManifestView) -> Seq<Seq<Seq<char>>> {
    Seq::new(m.entities.len(), |i: int| column_names(m.entities[i]))
}

/// The names of the relationships.
pub open spec fn relationship_names(m: ManifestView) -> Seq<Seq<char>> {
    Seq::new(m.relationships.len(), |i: int| m.relationships[i].name)
}

/// The first column name that an entity from the `i`-th on declares twice.
pub open spec fn repeated_column(m: ManifestView, i: int) -> Option<Seq<char>>
    decreases m.entities.len() - i,
{
    if 0 <= i < m.entities.len() {
        match first_repeat(column_names(m.entities[i])) {
            Some(j) => Some(column_names(m.entities[i])[j]),
            None => repeated_column(m, i + 1),
        }
    } else {
        None
    }
}

/// The first name that the manifest declares twice: among the entities,
/// then among the columns of each entity, then among the relationships.
pub open spec fn repeated_name(m: ManifestView) -> Option<Seq<char>> {
    match first_repeat(entity_names(m)) {
        Some(j) => Some(entity_names(m)[j]),
        None => match repeated_column(m, 0) {
            Some(n) => Some(n),
            None => match first_repeat(relationship_names(m)) {
                Some(j) => Some(relationship_names(m)[j]),
                None => None,
            },
        },
    }
}

/// The edge of the `k`-th relationship: the places of its two entities,
/// which must be declared and must differ.
pub open spec fn edge_of(m: ManifestView, k: int) -> Result<Edge, AnalysisErrorView> {
    let r = m.relationships[k];
    match position(entity_names(m), r.left) {
        None => Err(AnalysisErrorView::UnknownEntity { relationship: r.name, entity: r.left }),
        Some(a) => match position(entity_names(m), r.right) {
            None => Err(AnalysisErrorView::UnknownEntity { relationship: r.name, entity: r.right }),
            Some(b) => if a == b {
                Err(AnalysisErrorView::InvalidRelationship(r.name))
            } else {
                Ok(Edge { left: a as usize, right: b as usize })
            },
        },
    }
}

/// The edges of the relationships from the `k`-th on, after those in `acc`.
pub open spec fn edges_from(m: ManifestView, k: int, acc: Seq<Edge>) -> Result<
    Seq<Edge>,
    AnalysisErrorView,
>
    decreases m.relationships.len() - k,
{
    if 0 <= k < m.relationships.len() {
        match edge_of(m, k) {
            Ok(e) => edges_from(m, k + 1, acc.push(e)),
            Err(e) => Err(e),
        }
    } else {
        Ok(acc)
    }
}

/// The schema of a manifest with the given edges.
pub open spec fn schema_of(m: ManifestView, edges: Seq<Edge>) -> SchemaView {
    SchemaView {
        table_names: entity_names(m),
        field_names: all_column_names(m),
        link_names: relationship_names(m),
        edges,
        routes: all_routes(edges, m.entities.len() as int),
    }
}

/// The relationship graph of a manifest: its names, the edges of its
/// relationships, and how every two entities are connected; or the first
/// fault among repeated names and the entities of the relationships.
pub open spec fn graph_of(m: ManifestView) -> Result<SchemaView, AnalysisErrorView> {
    match repeated_name(m) {
        Some(n) => Err(AnalysisErrorView::DuplicateName(n)),
        None => match edges_from(m, 0, Seq::empty()) {
            Err(e) => Err(e),
            Ok(edges) => Ok(schema_of(m, edges)),
        },
    }
}

/// The expressions of a manifest as they were read: for each column of
/// each entity the expression of a derived column or why its text is none
/// (what stands at the place of a physical column is not looked at), and
/// the same for the condition of each relationship.
#[derive(Debug, PartialEq, Eq)]
pub struct Readings {
    pub columns: Vec<Vec<Result<Expr, ParseError>>>,
    pub conditions: Vec<Result<Expr, ParseError>>,
}

/// The mathematical value of [`Readings`].
pub struct ReadingsView {
    pub columns: Seq<Seq<Result<ExprView, ParseErrorView>>>,
    pub conditions: Seq<Result<ExprView, ParseErrorView>>,
}

/// The value of one reading.
pub open spec fn reading_view(r: Result<Expr, ParseError>) -> Result<ExprView, ParseErrorView> {
    match r {
        Ok(e) => Ok(e@),
        Err(e) => Err(e@),
    }
}

/// The values of a sequence of readings.
pub open spec fn reading_views(s: Seq<Result<Expr, ParseError>>) -> Seq<
    Result<ExprView, ParseErrorView>,
> {
    Seq::new(s.len(), |i: int| reading_view(s[i]))
}

impl View for Readings {
    type V = ReadingsView;

    open spec fn view(&self) -> ReadingsView {
        ReadingsView {
            columns: Seq::new(
                self.columns@.len(),
                |i: int| reading_views(self.columns@[i]@),
            ),
            conditions: reading_views(self.conditions@),
        }
    }
}

/// The reading of a text that was not read: the one of the empty text.
pub open spec fn unread() -> Result<ExprView, ParseErrorView> {
    Err(ParseErrorView::Syntax(missing(Seq::empty(), 0, Expected::Expression)))
}

/// The reading of the `j`-th column of the `i`-th entity.
pub open spec fn column_reading(rd: ReadingsView, i: int, j: int) -> Result<
    ExprView,
    ParseErrorView,
> {
    if 0 <= i < rd.columns.len() && 0 <= j < rd.columns[i].len() {
        rd.columns[i][j]
    } else {
        unread()
    }
}

/// The reading of the condition of the `k`-th relationship.
pub open spec fn condition_reading(rd: ReadingsView, k: int) -> Result<ExprView, ParseErrorView> {
    if 0 <= k < rd.conditions.len() {
        rd.conditions[k]
    } else {
        unread()
    }
}

/// The readings that parsing makes of the texts of a manifest.
pub open spec fn readings_of(m: ManifestView) -> ReadingsView {
    ReadingsView {
        columns: Seq::new(
            m.entities.len(),
            |i: int|
                Seq::new(
                    m.entities[i].columns.len(),
                    |j: int|
                        match m.entities[i].columns[j].source {
                            ColumnSourceView::Physical(_) => unread(),
                            ColumnSourceView::Derived(text) => expression_of_text(text),
                        },
                ),
        ),
        conditions: Seq::new(
            m.relationships.len(),
            |k: int| expression_of_text(m.relationships[k].condition),
        ),
    }
}

/// What the `j`-th column of the `i`-th entity stands for: the column paths
/// of what a derived column was read as are made explicit.
pub open spec fn definition_of(
    m: ManifestView,
    s: SchemaView,
    rd: ReadingsView,
    i: int,
    j: int,
) -> Result<
    DefinitionView,
    AnalysisErrorView,
> {
    let e = m.entities[i];
    let c = e.columns[j];
    match c.source {
        ColumnSourceView::Physical(p) => Ok(DefinitionView::Physical(p)),
        ColumnSourceView::Derived(text) => match column_reading(rd, i, j) {
            Err(x) => Err(
                AnalysisErrorView::InvalidExpression { owner: e.name, column: c.name, error: x },
            ),
            Ok(x) => match qualified(s, i, x) {
                Err(x) => Err(
                    AnalysisErrorView::Reference { entity: e.name, column: c.name, cause: x },
                ),
                Ok(q) => Ok(DefinitionView::Derived(q)),
            },
        },
    }
}

/// The definitions of the columns of the `i`-th entity from the `j`-th on,
/// after those in `acc`.
pub open spec fn row_from(
    m: ManifestView,
    s: SchemaView,
    rd: ReadingsView,
    i: int,
    j: int,
    acc: Seq<DefinitionView>,
) -> Result<Seq<DefinitionView>, AnalysisErrorView>
    decreases m.entities[i].columns.len() - j,
{
    if 0 <= j < m.entities[i].columns.len() {
        match definition_of(m, s, rd, i, j) {
            Ok(d) => row_from(m, s, rd, i, j + 1, acc.push(d)),
            Err(e) => Err(e),
        }
    } else {
        Ok(acc)
    }
}

/// The definitions of the columns of the entities from the `i`-th on, after
/// those in `acc`.
pub open spec fn table_from(
    m: ManifestView,
    s: SchemaView,
    rd: ReadingsView,
    i: int,
    acc: Seq<Seq<DefinitionView>>,
) -> Result<Seq<Seq<DefinitionView>>, AnalysisErrorView>
    decreases m.entities.len() - i,
{
    if 0 <= i < m.entities.len() {
        match row_from(m, s, rd, i, 0, Seq::empty()) {
            Ok(row) => table_from(m, s, rd, i + 1, acc.push(row)),
            Err(e) => Err(e),
        }
    } else {
        Ok(acc)
    }
}

/// The conditions of the relationships from the `k`-th on as they were
/// read, after those in `acc`.
pub open spec fn conditions_from(
    m: ManifestView,
    rd: ReadingsView,
    k: int,
    acc: Seq<ExprView>,
) -> Result<Seq<ExprView>, AnalysisErrorView>
    decreases m.relationships.len() - k,
{
    if 0 <= k < m.relationships.len() {
        match condition_reading(rd, k) {
            Ok(c) => conditions_from(m, rd, k + 1, acc.push(c)),
            Err(x) => Err(
                AnalysisErrorView::InvalidExpression {
                    owner: m.relationships[k].name,
                    column: Seq::empty(),
                    error: x,
                },
            ),
        }
    } else {
        Ok(acc)
    }
}

/// The number of columns of the entities before the `t`-th.
pub open spec fn columns_before(fields: Seq<Seq<Seq<char>>>, t: int) -> nat
    decreases t,
{
    if t <= 0 {
        0
    } else {
        columns_before(fields, t - 1) + fields[t - 1].len()
    }
}

/// What the resolvers make of a manifest: the dialect to render for, the
/// relationship graph, and the definitions of all columns.
pub struct ResolvedView {
    pub dialect: Dialect,
    pub schema: SchemaView,
    pub definitions: Seq<Seq<DefinitionView>>,
}

/// What the resolvers make of a manifest, or the first fault, in this order:
/// the dialect asked for, repeated names, the entities of the relationships,
/// the derived columns.
pub open spec fn resolved_parts(
    m: ManifestView,
    props: Seq<SessionPropertyView>,
    rd: ReadingsView,
) -> Result<ResolvedView, AnalysisErrorView> {
    match dialect_of(m.dialect, props) {
        Err(v) => Err(AnalysisErrorView::UnsupportedDialect(v)),
        Ok(dialect) => match graph_of(m) {
            Err(e) => Err(e),
            Ok(schema) => match table_from(m, schema, rd, 0, Seq::empty()) {
                Err(e) => Err(e),
                Ok(definitions) => Ok(ResolvedView { dialect, schema, definitions }),
            },
        },
    }
}

/// Looks up what the session properties say of `name`.
pub(crate) fn find_setting<'a>(props: &'a Vec<SessionProperty>, name: &str) -> (r: Option<
    &'a Option<String>,
>)
    ensures
        match r {
            Some(v) => setting(property_views(props@), name@) == Some(crate::ast::opt_text(*v)),
            None => setting(property_views(props@), name@) is None,
        },
{
    let ghost all = property_views(props@);
    let mut i: usize = props.len();
    assert(all.take(i as int) == all);
    while i > 0
        invariant
            i <= props.len(),
            all == property_views(props@),
            setting(all, name@) == setting(all.take(i as int), name@),
        decreases i,
    {
        i -= 1;
        assert(all.take(i + 1).last() == props@[i as int]@);
        assert(all.take(i + 1).drop_last() == all.take(i as int));
        if same_text(props[i].name.as_str(), name) {
            return Some(&props[i].value);
        }
    }
    None
}

/// Chooses the dialect to render for; an unsupported name is handed back.
pub(crate) fn choose_dialect(declared: Dialect, props: &Vec<SessionProperty>) -> (r: Result<
    Dialect,
    String,
>)
    ensures
        match r {
            Ok(d) => dialect_of(declared, property_views(props@)) == Ok::<Dialect, Seq<char>>(d),
            Err(v) => dialect_of(declared, property_views(props@)) == Err::<Dialect, Seq<char>>(
                v@,
            ),
        },
{
    match find_setting(props, "dialect") {
        Some(Some(v)) => match parse_dialect(v.as_str()) {
            Ok(d) => Ok(d),
            Err(_) => Err(v.clone()),
        },
        _ => Ok(declared),
    }
}

/// The names of the entities.
pub(crate) fn collect_entity_names(m: &Manifest) -> (r: Vec<String>)
    ensures
        texts(r@) == entity_names(m@),
{
    let mut out: Vec<String> = Vec::new();
    let mut i: usize = 0;
    while i < m.entities.len()
        invariant
            i <= m.entities.len(),
            out.len() == i,
            forall|k: int| 0 <= k < i ==> (#[trigger] out@[k])@ == m.entities@[k].name@,
        decreases m.entities.len() - i,
    {
        out.push(m.entities[i].name.clone());
        i += 1;
    }
    assert(texts(out@) =~= entity_names(m@));
    out
}

/// The names of the columns of an entity.
pub(crate) fn collect_column_names(e: &Entity) -> (r: Vec<String>)
    ensures
        texts(r@) == column_names(e@),
{
    let mut out: Vec<String> = Vec::new();
    let mut i: usize = 0;
    while i < e.columns.len()
        invariant
            i <= e.columns.len(),
            out.len() == i,
            forall|k: int| 0 <= k < i ==> (#[trigger] out@[k])@ == e.columns@[k].name@,
        decreases e.columns.len() - i,
    {
        out.push(e.columns[i].name.clone());
        i += 1;
    }
    assert(texts(out@) =~= column_names(e@));
    out
}

/// The names of the relationships.
pub(crate) fn collect_relationship_names(m: &Manifest) -> (r: Vec<String>)
    ensures
        texts(r@) == relationship_names(m@),
{
    let mut out: Vec<String> = Vec::new();
    let mut i: usize = 0;
    while i < m.relationships.len()
        invariant
            i <= m.relationships.len(),
            out.len() == i,
            forall|k: int| 0 <= k < i ==> (#[trigger] out@[k])@ == m.relationships@[k].name@,
        decreases m.relationships.len() - i,
    {
        out.push(m.relationships[i].name.clone());
        i += 1;
    }
    assert(texts(out@) =~= relationship_names(m@));
    out
}

/// The values of a table of names.
pub open spec fn name_table(s: Seq<Vec<String>>) -> Seq<Seq<Seq<char>>> {
    Seq::new(s.len(), |i: int| texts(s[i]@))
}

/// Collects the names of the columns of every entity, and refuses a name
/// that an entity declares twice.
pub(crate) fn collect_all_column_names(m: &Manifest) -> (r: Result<Vec<Vec<String>>, AnalysisError>)
    ensures
        match r {
            Ok(v) => repeated_column(m@, 0) is None && name_table(v@) == all_column_names(m@),
            Err(e) => e is DuplicateName && repeated_column(m@, 0) == Some(e->DuplicateName_0@),
        },
{
    let mut out: Vec<Vec<String>> = Vec::new();
    let mut i: usize = 0;
    while i < m.entities.len()
        invariant
            i <= m.entities.len(),
            out.len() == i,
            repeated_column(m@, 0) == repeated_column(m@, i as int),
            forall|k: int|
                0 <= k < i ==> texts((#[trigger] out@[k])@) == column_names(m@.entities[k]),
        decreases m.entities.len() - i,
    {
        let names = collect_column_names(&m.entities[i]);
        assert(m@.entities[i as int] == m.entities@[i as int]@);
        match find_repeat(&names) {
            Some(j) => {
                return Err(AnalysisError::DuplicateName(names[j].clone()));
            },
            None => {},
        }
        out.push(names);
        i += 1;
    }
    assert(name_table(out@) =~= all_column_names(m@));
    Ok(out)
}

/// Finds the edge of every relationship.
pub(crate) fn collect_edges(m: &Manifest, names: &Vec<String>) -> (r: Result<Vec<Edge>, AnalysisError>)
    requires
        texts(names@) == entity_names(m@),
    ensures
        match r {
            Ok(v) => edges_from(m@, 0, Seq::empty()) == Ok::<Seq<Edge>, AnalysisErrorView>(v@)
                && v.len() == m.relationships.len() && edges_within(v@, names.len() as int)
                && forall|l: int| 0 <= l < v.len() ==> (#[trigger] v@[l]).left != v@[l].right,
            Err(e) => edges_from(m@, 0, Seq::empty()) == Err::<Seq<Edge>, AnalysisErrorView>(e@),
        },
{
    let mut out: Vec<Edge> = Vec::new();
    let mut k: usize = 0;
    while k < m.relationships.len()
        invariant
            k <= m.relationships.len(),
            out.len() == k,
            texts(names@) == entity_names(m@),
            edges_within(out@, names.len() as int),
            forall|l: int| 0 <= l < out.len() ==> (#[trigger] out@[l]).left != out@[l].right,
            edges_from(m@, 0, Seq::empty()) == edges_from(m@, k as int, out@),
        decreases m.relationships.len() - k,
    {
        let r = &m.relationships[k];
        assert(m@.relationships[k as int] == r@);
        let a = match find_name(names, r.left.as_str()) {
            Some(a) => a,
            None => {
                return Err(
                    AnalysisError::UnknownEntity {
                        relationship: r.name.clone(),
                        entity: r.left.clone(),
                    },
                );
            },
        };
        let b = match find_name(names, r.right.as_str()) {
            Some(b) => b,
            None => {
                return Err(
                    AnalysisError::UnknownEntity {
                        relationship: r.name.clone(),
                        entity: r.right.clone(),
                    },
                );
            },
        };
        if a == b {
            return Err(AnalysisError::InvalidRelationship(r.name.clone()));
        }
        out.push(Edge { left: a, right: b });
        k += 1;
    }
    Ok(out)
}

/// The expression resolver: makes the column paths of every derived column
/// explicit against the relationship graph.
pub fn resolve_expressions(m: &Manifest, schema: &Schema, rd: &Readings) -> (r: Result<
    Vec<Vec<Definition>>,
    AnalysisError,
>)
    requires
        schema_ok(schema@),
        links_sound(schema@),
        schema@.table_names.len() == m.entities.len(),
    ensures
        match r {
            Ok(v) => {
                &&& table_from(m@, schema@, rd@, 0, Seq::empty()) == Ok::<
                    Seq<Seq<DefinitionView>>,
                    AnalysisErrorView,
                >(definition_table(v@))
                &&& v.len() == m.entities.len()
                &&& forall|i: int|
                    0 <= i < v.len() ==> (#[trigger] v@[i]).len() == m.entities@[i].columns.len()
                &&& definitions_resolve(schema@, definition_table(v@))
            },
            Err(e) => table_from(m@, schema@, rd@, 0, Seq::empty()) == Err::<
                Seq<Seq<DefinitionView>>,
                AnalysisErrorView,
            >(e@),
        },
{
    let mut out: Vec<Vec<Definition>> = Vec::new();
    let mut i: usize = 0;
    assert(definition_table(out@) == Seq::<Seq<DefinitionView>>::empty());
    while i < m.entities.len()
        invariant
            i <= m.entities.len(),
            out.len() == i,
            schema_ok(schema@),
            links_sound(schema@),
            schema@.table_names.len() == m.entities.len(),
            forall|k: int| 0 <= k < i ==> (#[trigger] out@[k]).len() == m.entities@[k].columns.len(),
            forall|k: int, j: int|
                0 <= k < i && 0 <= j < out@[k].len() ==> sound_definition(
                    schema@,
                    k,
                    #[trigger] out@[k]@[j]@,
                ),
            table_from(m@, schema@, rd@, 0, Seq::empty()) == table_from(
                m@,
                schema@,
                rd@,
                i as int,
                definition_table(out@),
            ),
        decreases m.entities.len() - i,
    {
        let e = &m.entities[i];
        assert(m@.entities[i as int] == e@);
        let mut row: Vec<Definition> = Vec::new();
        let mut j: usize = 0;
        assert(definition_views(row@) == Seq::<DefinitionView>::empty());
        while j < e.columns.len()
            invariant
                j <= e.columns.len(),
                row.len() == j,
                i < m.entities.len(),
                schema_ok(schema@),
                links_sound(schema@),
                schema@.table_names.len() == m.entities.len(),
                forall|x: int|
                    0 <= x < row.len() ==> sound_definition(schema@, i as int, #[trigger] row@[x]@),
                m@.entities[i as int] == e@,
                table_from(m@, schema@, rd@, 0, Seq::empty()) == table_from(
                    m@,
                    schema@,
                    rd@,
                    i as int,
                    definition_table(out@),
                ),
                row_from(m@, schema@, rd@, i as int, 0, Seq::empty()) == row_from(
                    m@,
                    schema@,
                    rd@,
                    i as int,
                    j as int,
                    definition_views(row@),
                ),
            decreases e.columns.len() - j,
        {
            let c = &e.columns[j];
            assert(e@.columns[j as int] == c@);
            let d = match &c.source {
                ColumnSource::Physical(p) => Definition::Physical(p.clone()),
                ColumnSource::Derived(text) => match column_read(rd, i, j) {
                    Err(x) => {
                        return Err(
                            AnalysisError::InvalidExpression {
                                owner: e.name.clone(),
                                column: c.name.clone(),
                                error: x,
                            },
                        );
                    },
                    Ok(x) => match qualify(schema, i, &x) {
                        Err(x) => {
                            return Err(
                                AnalysisError::Reference {
                                    entity: e.name.clone(),
                                    column: c.name.clone(),
                                    cause: x,
                                },
                            );
                        },
                        Ok(q) => Definition::Derived(q),
                    },
                },
            };
            let ghost before = definition_views(row@);
            let ghost dv = d@;
            row.push(d);
            assert(definition_views(row@) == before.push(dv));
            j += 1;
        }
        let ghost before = definition_table(out@);
        let ghost rv = definition_views(row@);
        out.push(row);
        assert(definition_table(out@) == before.push(rv));
        i += 1;
    }
    proof {
        let table = definition_table(out@);
        assert forall|t: int, f: int|
            0 <= t < table.len() && 0 <= f < table[t].len() implies sound_definition(
            schema@,
            t,
            #[trigger] table[t][f],
        ) by {
            assert(table[t][f] == out@[t]@[f]@);
        }
    }
    Ok(out)
}

/// The relationship graph resolver: checks the names of a manifest, finds
/// the entities of every relationship, and computes how every two entities
/// are connected.
pub fn resolve_graph(m: &Manifest) -> (r: Result<Schema, AnalysisError>)
    ensures
        match r {
            Ok(s) => graph_of(m@) == Ok::<SchemaView, AnalysisErrorView>(s@) && schema_ok(s@)
                && links_sound(s@) && s.table_names.len() == m.entities.len(),
            Err(e) => graph_of(m@) == Err::<SchemaView, AnalysisErrorView>(e@),
        },
{
    let names = collect_entity_names(m);
    match find_repeat(&names) {
        Some(j) => {
            return Err(AnalysisError::DuplicateName(names[j].clone()));
        },
        None => {},
    }
    let fields = match collect_all_column_names(m) {
        Ok(f) => f,
        Err(e) => {
            return Err(e);
        },
    };
    let links = collect_relationship_names(m);
    match find_repeat(&links) {
        Some(j) => {
            return Err(AnalysisError::DuplicateName(links[j].clone()));
        },
        None => {},
    }
    let edges = match collect_edges(m, &names) {
        Ok(e) => e,
        Err(e) => {
            return Err(e);
        },
    };
    let routes = route_table(&edges, names.len());
    let schema = Schema { table_names: names, field_names: fields, link_names: links, edges, routes };
    assert(schema@ == schema_of(m@, schema.edges@));
    Ok(schema)
}

/// Collects the condition of every relationship.
pub(crate) fn collect_conditions(m: &Manifest, rd: &Readings) -> (r: Result<
    Vec<Expr>,
    AnalysisError,
>)
    ensures
        match r {
            Ok(v) => conditions_from(m@, rd@, 0, Seq::empty()) == Ok::<Seq<ExprView>, AnalysisErrorView>(
                expr_views(v@),
            ) && v.len() == m.relationships.len(),
            Err(e) => conditions_from(m@, rd@, 0, Seq::empty()) == Err::<
                Seq<ExprView>,
                AnalysisErrorView,
            >(e@),
        },
{
    let mut out: Vec<Expr> = Vec::new();
    let mut k: usize = 0;
    assert(expr_views(out@) == Seq::<ExprView>::empty());
    while k < m.relationships.len()
        invariant
            k <= m.relationships.len(),
            out.len() == k,
            conditions_from(m@, rd@, 0, Seq::empty()) == conditions_from(
                m@,
                rd@,
                k as int,
                expr_views(out@),
            ),
        decreases m.relationships.len() - k,
    {
        let r = &m.relationships[k];
        assert(m@.relationships[k as int] == r@);
        match condition_read(rd, k) {
            Ok(c) => {
                let ghost before = expr_views(out@);
                let ghost cv = c@;
                out.push(c);
                assert(expr_views(out@) == before.push(cv));
            },
            Err(x) => {
                return Err(
                    AnalysisError::InvalidExpression {
                        owner: r.name.clone(),
                        column: String::new(),
                        error: x,
                    },
                );
            },
        }
        k += 1;
    }
    Ok(out)
}

/// A copy of a reading.
pub(crate) fn copy_reading(r: &Result<Expr, ParseError>) -> (c: Result<Expr, ParseError>)
    ensures
        reading_view(c) == reading_view(*r),
{
    match r {
        Ok(e) => Ok(copy_expr(e)),
        Err(ParseError::Lex(l)) => Err(ParseError::Lex(LexError { message: l.message.clone() })),
        Err(ParseError::Syntax(x)) => Err(ParseError::Syntax(*x)),
    }
}

/// The reading of a text that was not read.
pub(crate) fn not_read() -> (c: Result<Expr, ParseError>)
    ensures
        reading_view(c) == unread(),
{
    Err(
        ParseError::Syntax(
            SyntaxError {
                position: 0,
                line: 0,
                column: 0,
                ended: true,
                expected: Expected::Expression,
            },
        ),
    )
}

/// The reading of the `j`-th column of the `i`-th entity.
pub(crate) fn column_read(rd: &Readings, i: usize, j: usize) -> (c: Result<Expr, ParseError>)
    ensures
        reading_view(c) == column_reading(rd@, i as int, j as int),
{
    if i < rd.columns.len() && j < rd.columns[i].len() {
        copy_reading(&rd.columns[i][j])
    } else {
        not_read()
    }
}

/// The reading of the condition of the `k`-th relationship.
pub(crate) fn condition_read(rd: &Readings, k: usize) -> (c: Result<Expr, ParseError>)
    ensures
        reading_view(c) == condition_reading(rd@, k as int),
{
    if k < rd.conditions.len() {
        copy_reading(&rd.conditions[k])
    } else {
        not_read()
    }
}

/// Parses the texts of a manifest: the expression of every derived column
/// and the condition of every relationship.
pub fn read(m: &Manifest) -> (rd: Readings)
    ensures
        rd@ == readings_of(m@),
{
    let mut columns: Vec<Vec<Result<Expr, ParseError>>> = Vec::new();
    let mut i: usize = 0;
    while i < m.entities.len()
        invariant
            i <= m.entities.len(),
            columns.len() == i,
            forall|x: int|
                0 <= x < i ==> reading_views(#[trigger] columns@[x]@) == readings_of(
                    m@,
                ).columns[x],
        decreases m.entities.len() - i,
    {
        let e = &m.entities[i];
        assert(m@.entities[i as int] == e@);
        let mut row: Vec<Result<Expr, ParseError>> = Vec::new();
        let mut j: usize = 0;
        while j < e.columns.len()
            invariant
                j <= e.columns.len(),
                row.len() == j,
                i < m.entities.len(),
                m@.entities[i as int] == e@,
                forall|y: int|
                    0 <= y < j ==> reading_view(#[trigger] row@[y]) == readings_of(
                        m@,
                    ).columns[i as int][y],
            decreases e.columns.len() - j,
        {
            let c = &e.columns[j];
            assert(e@.columns[j as int] == c@);
            let r = match &c.source {
                ColumnSource::Physical(_) => not_read(),
                ColumnSource::Derived(text) => parse_expression_text(text.as_str()),
            };
            row.push(r);
            j += 1;
        }
        assert(reading_views(row@) =~= readings_of(m@).columns[i as int]);
        columns.push(row);
        i += 1;
    }
    let mut conditions: Vec<Result<Expr, ParseError>> = Vec::new();
    let mut k: usize = 0;
    while k < m.relationships.len()
        invariant
            k <= m.relationships.len(),
            conditions.len() == k,
            forall|y: int|
                0 <= y < k ==> reading_view(#[trigger] conditions@[y]) == readings_of(
                    m@,
                ).conditions[y],
        decreases m.relationships.len() - k,
    {
        let r = &m.relationships[k];
        assert(m@.relationships[k as int] == r@);
        conditions.push(parse_expression_text(r.condition.as_str()));
        k += 1;
    }
    let rd = Readings { columns, conditions };
    assert(rd@.columns =~= readings_of(m@).columns);
    assert(rd@.conditions =~= readings_of(m@).conditions);
    rd
}

} // verus!
