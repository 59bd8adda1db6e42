//! The analyzed model: the validated, resolved form of a manifest. It is
//! built once and only read afterwards.

use vstd::prelude::*;

use crate::ast::{expr_views, Expr, ExprView, TableSource, TableSourceView};
use crate::cycles::acyclic;
use crate::deps::dependencies;
use crate::dialect::Dialect;
use crate::joins::conditions_sound;
use crate::manifest::Cardinality;
use crate::qualify::all_resolve;
use crate::schema::{links_sound, schema_ok, Schema, SchemaView};

verus! {

/// What a column stands for.
#[derive(Debug, PartialEq, Eq)]
pub enum Definition {
    /// A column of the entity's physical table, by name.
    Physical(String),
    /// An expression whose column paths are explicit.
    Derived(Expr),
}

pub enum DefinitionView {
    Physical(Seq<char>),
    Derived(ExprView),
}

impl View for Definition {
    type V = DefinitionView;

    open spec fn view(&self) -> DefinitionView {
        match self {
            Definition::Physical(t) => DefinitionView::Physical(t@),
            Definition::Derived(e) => DefinitionView::Derived(e@),
        }
    }
}

/// The values of a row of definitions.
pub open spec fn definition_views(s: Seq<Definition>) -> Seq<DefinitionView> {
    Seq::new(s.len(), |i: int| s[i]@)
}

/// The values of a table of definitions.
pub open spec fn definition_table(s: Seq<Vec<Definition>>) -> Seq<Seq<DefinitionView>> {
    Seq::new(s.len(), |i: int| definition_views(s[i]@))
}

/// The values of a sequence of table sources.
pub open spec fn source_views(s: Seq<TableSource>) -> Seq<TableSourceView> {
    Seq::new(s.len(), |i: int| s[i]@)
}

/// The mathematical value of an analyzed model.
pub struct AnalyzedView {
    pub catalog: Seq<char>,
    pub namespace: Seq<char>,
    pub dialect: Dialect,
    pub schema: SchemaView,
    /// For each entity, the table or subquery behind it.
    pub sources: Seq<TableSourceView>,
    /// For each entity, what each of its columns stands for.
    pub definitions: Seq<Seq<DefinitionView>>,
    /// For each relationship, its cardinality read from left to right.
    pub cardinalities: Seq<Cardinality>,
    /// For each relationship, its join condition.
    pub conditions: Seq<ExprView>,
    /// A bound on how deep derived columns nest.
    pub depth: nat,
}

/// Whether every column path of a definition resolves, read from the entity
/// `t` that the definition belongs to.
pub open spec fn sound_definition(s: SchemaView, t: int, d: DefinitionView) -> bool {
    d matches DefinitionView::Derived(e) ==> all_resolve(s, t, e)
}

/// Whether every column path of every definition resolves.
pub open spec fn definitions_resolve(s: SchemaView, definitions: Seq<Seq<DefinitionView>>) -> bool {
    forall|t: int, f: int|
        0 <= t < definitions.len() && 0 <= f < definitions[t].len() ==> sound_definition(
            s,
            t,
            #[trigger] definitions[t][f],
        )
}

/// Whether the parts of an analyzed model fit together: the schema is
/// sound, every entity has its source and a definition for each of its
/// columns, every relationship has its cardinality and its condition, and
/// every column path of a derived column resolves to a chain of
/// relationships and a column of the last entity, every condition is made
/// of physical columns of its two entities, the dependencies among the
/// columns have no cycle, and the depth is the number of columns.
pub open spec fn well_formed(a: AnalyzedView) -> bool {
    &&& schema_ok(a.schema)
    &&& links_sound(a.schema)
    &&& definitions_resolve(a.schema, a.definitions)
    &&& conditions_sound(a.schema, a.definitions, a.conditions)
    &&& acyclic(dependencies(a))
    &&& a.depth == dependencies(a).len()
    &&& a.depth <= usize::MAX
    &&& a.sources.len() == a.schema.table_names.len()
    &&& a.definitions.len() == a.schema.table_names.len()
    &&& forall|i: int|
        0 <= i < a.definitions.len() ==> (#[trigger] a.definitions[i]).len()
            == a.schema.field_names[i].len()
    &&& a.cardinalities.len() == a.schema.link_names.len()
    &&& a.conditions.len() == a.schema.link_names.len()
}

/// The analyzed model.
#[derive(Debug)]
pub struct AnalyzedManifest {
    pub(crate) catalog: String,
    pub(crate) namespace: String,
    pub(crate) dialect: Dialect,
    pub(crate) schema: Schema,
    pub(crate) sources: Vec<TableSource>,
    pub(crate) definitions: Vec<Vec<Definition>>,
    pub(crate) cardinalities: Vec<Cardinality>,
    pub(crate) conditions: Vec<Expr>,
    pub(crate) depth: usize,
}

impl View for AnalyzedManifest {
    type V = AnalyzedView;

    closed spec fn view(&self) -> AnalyzedView {
        AnalyzedView {
            catalog: self.catalog@,
            namespace: self.namespace@,
            dialect: self.dialect,
            schema: self.schema@,
            sources: source_views(self.sources@),
            definitions: definition_table(self.definitions@),
            cardinalities: self.cardinalities@,
            conditions: expr_views(self.conditions@),
            depth: self.depth as nat,
        }
    }
}

impl AnalyzedManifest {
    /// What holds of every analyzed model.
    #[verifier::type_invariant]
    pub open spec fn valid(&self) -> bool {
        well_formed(self@)
    }

    /// Puts an analyzed model together from its parts.
    pub(crate) fn assemble(
        catalog: String,
        namespace: String,
        dialect: Dialect,
        schema: Schema,
        sources: Vec<TableSource>,
        definitions: Vec<Vec<Definition>>,
        cardinalities: Vec<Cardinality>,
        conditions: Vec<Expr>,
        depth: usize,
    ) -> (r: AnalyzedManifest)
        requires
            well_formed(
                AnalyzedView {
                    catalog: catalog@,
                    namespace: namespace@,
                    dialect,
                    schema: schema@,
                    sources: source_views(sources@),
                    definitions: definition_table(definitions@),
                    cardinalities: cardinalities@,
                    conditions: expr_views(conditions@),
                    depth: depth as nat,
                },
            ),
        ensures
            r@ == (AnalyzedView {
                catalog: catalog@,
                namespace: namespace@,
                dialect,
                schema: schema@,
                sources: source_views(sources@),
                definitions: definition_table(definitions@),
                cardinalities: cardinalities@,
                conditions: expr_views(conditions@),
                depth: depth as nat,
            }),
    {
        AnalyzedManifest {
            catalog,
            namespace,
            dialect,
            schema,
            sources,
            definitions,
            cardinalities,
            conditions,
            depth,
        }
    }

    /// The value of an analyzed model, by its parts.
    pub(crate) proof fn shape(&self)
        ensures
            self@ == (AnalyzedView {
                catalog: self.catalog@,
                namespace: self.namespace@,
                dialect: self.dialect,
                schema: self.schema@,
                sources: source_views(self.sources@),
                definitions: definition_table(self.definitions@),
                cardinalities: self.cardinalities@,
                conditions: expr_views(self.conditions@),
                depth: self.depth as nat,
            }),
    {
    }

    /// The dialect that queries are rendered for.
    pub fn dialect(&self) -> (r: Dialect)
        ensures
            r == self@.dialect,
    {
        self.dialect
    }

    /// The number of entities.
    pub fn entity_count(&self) -> (r: usize)
        ensures
            r == self@.schema.table_names.len(),
    {
        self.schema.table_names.len()
    }
}

} // verus!
