//! The virtual schema as it is declared: entities, their columns, and the
//! relationships between entities.

use vstd::prelude::*;

use crate::ast::{TableSource, TableSourceView};
use crate::text::texts;
use crate::dialect::Dialect;

verus! {

/// How many rows of the right entity belong to a row of the left one, and
/// the other way round.
#[derive(Clone, Copy, Debug, PartialEq, Eq, Structural)]
pub enum Cardinality {
    OneToOne,
    OneToMany,
    ManyToMany,
}

/// Where the values of a column come from. A column is never both.
#[derive(Debug, PartialEq, Eq)]
pub enum ColumnSource {
    /// A column of the entity's physical table, by name.
    Physical(String),
    /// The text of an expression over sibling columns and, through dotted
    /// paths, over columns of related entities.
    Derived(String),
}

#[derive(Debug, PartialEq, Eq)]
pub struct Column {
    pub name: String,
    pub data_type: String,
    pub not_null: bool,
    pub source: ColumnSource,
}

/// One virtual table.
#[derive(Debug, PartialEq, Eq)]
pub struct Entity {
    pub name: String,
    /// The physical table, or the subquery, behind the entity.
    pub source: TableSource,
    pub primary_key: Vec<String>,
    pub columns: Vec<Column>,
}

/// A declared join between two entities.
#[derive(Debug, PartialEq, Eq)]
pub struct Relationship {
    pub name: String,
    /// The name of the left entity.
    pub left: String,
    /// The name of the right entity.
    pub right: String,
    /// The text of the join condition; its columns are written
    /// `entity.column`.
    pub condition: String,
    /// Read from left to right.
    pub cardinality: Cardinality,
}

/// The virtual schema.
#[derive(Debug, PartialEq, Eq)]
pub struct Manifest {
    pub catalog: String,
    pub schema: String,
    pub entities: Vec<Entity>,
    pub relationships: Vec<Relationship>,
    pub dialect: Dialect,
}

pub enum ColumnSourceView {
    Physical(Seq<char>),
    Derived(Seq<char>),
}

pub struct ColumnView {
    pub name: Seq<char>,
    pub data_type: Seq<char>,
    pub not_null: bool,
    pub source: ColumnSourceView,
}

pub struct EntityView {
    pub name: Seq<char>,
    pub source: TableSourceView,
    pub primary_key: Seq<Seq<char>>,
    pub columns: Seq<ColumnView>,
}

pub struct RelationshipView {
    pub name: Seq<char>,
    pub left: Seq<char>,
    pub right: Seq<char>,
    pub condition: Seq<char>,
    pub cardinality: Cardinality,
}

pub struct ManifestView {
    pub catalog: Seq<char>,
    pub schema: Seq<char>,
    pub entities: Seq<EntityView>,
    pub relationships: Seq<RelationshipView>,
    pub dialect: Dialect,
}

impl View for ColumnSource {
    type V = ColumnSourceView;

    open spec fn view(&self) -> ColumnSourceView {
        match self {
            ColumnSource::Physical(t) => ColumnSourceView::Physical(t@),
            ColumnSource::Derived(t) => ColumnSourceView::Derived(t@),
        }
    }
}

impl View for Column {
    type V = ColumnView;

    open spec fn view(&self) -> ColumnView {
        ColumnView {
            name: self.name@,
            data_type: self.data_type@,
            not_null: self.not_null,
            source: self.source@,
        }
    }
}

impl View for Entity {
    type V = EntityView;

    open spec fn view(&self) -> EntityView {
        EntityView {
            name: self.name@,
            source: self.source@,
            primary_key: texts(self.primary_key@),
            columns: Seq::new(self.columns@.len(), |i: int| self.columns@[i]@),
        }
    }
}

impl View for Relationship {
    type V = RelationshipView;

    open spec fn view(&self) -> RelationshipView {
        RelationshipView {
            name: self.name@,
            left: self.left@,
            right: self.right@,
            condition: self.condition@,
            cardinality: self.cardinality,
        }
    }
}

impl View for Manifest {
    type V = ManifestView;

    open spec fn view(&self) -> ManifestView {
        ManifestView {
            catalog: self.catalog@,
            schema: self.schema@,
            entities: Seq::new(self.entities@.len(), |i: int| self.entities@[i]@),
            relationships: Seq::new(self.relationships@.len(), |i: int| self.relationships@[i]@),
            dialect: self.dialect,
        }
    }
}

} // verus!
