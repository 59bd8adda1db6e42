//! A semantic SQL layer: queries written against a virtual schema are rewritten
//! into SQL for a physical backend dialect.
//!
//! A [`manifest::Manifest`] declares entities, their columns (physical or
//! derived), and the relationships between entities. [`analyze::analyze`]
//! checks it and resolves it into an [`model::AnalyzedManifest`], which is
//! built once and then only read. [`transform::transform`] takes a query over
//! the entities, replaces every derived column by its definition and every
//! relationship traversal by a join, and renders the result for one
//! [`dialect::Dialect`].
//!
//! # Queries
//!
//! A query is a block `SELECT .. FROM ..` with the clauses `WHERE`,
//! `GROUP BY`, `HAVING`, `ORDER BY`, `LIMIT` and `OFFSET`, over one entity
//! or several that are joined with `[INNER | LEFT | RIGHT | FULL] JOIN .. ON`,
//! with `CROSS JOIN` or with a comma. A block in parentheses can stand for
//! a table or for a value, after `IN` and after `EXISTS`; `WITH` gives
//! blocks a name; `UNION`, `INTERSECT` and `EXCEPT`, with or without `ALL`,
//! combine blocks. Expressions have the arithmetic and logical operators,
//! `||`, `IS NULL`, `LIKE`, `IN`, `BETWEEN`, `CASE`, `CAST` and calls. In
//! the select list `*` stands for the columns of every table of the block,
//! and `name.*` for those of one.
//!
//! Every block is rewritten by itself. A column without a table before it
//! is read from the first table of its block that has it. A path that
//! starts with the name of a table is read from the table of that name in
//! its block, or else in the nearest block around it that has an entity
//! under that name. A name that `WITH` gives is known in the `FROM` and
//! `JOIN` clauses of the block that follows the `WITH` clause, not in the
//! blocks nested in it.
//!
//! # Column paths
//!
//! A column is written as a dotted path. Every segment before the column
//! names a relationship to traverse, or an entity to reach by the one route
//! of relationships that leads there. Where no route leads there the path is
//! refused; where more than one does, it is refused as ambiguous and has to
//! name the relationships instead. A route never visits an entity twice.
//!
//! # Rows of many
//!
//! A step from one row to possibly many would multiply the rows of the query
//! around it. Such a step is accepted in one place only: inside an aggregate
//! in the definition of a derived column. There the aggregate is computed in
//! a scalar subquery that is correlated with the row it belongs to, so the
//! rows of the query stay as they are. Anywhere else the step is refused with
//! [`joins::ExpandError::FanOut`]. All other steps become left outer joins,
//! one for each chain of relationships in a query block.
//!
//! # Session properties
//!
//! The property `dialect` names the dialect to render for, in place of the
//! one that the manifest declares; given to a transformation, it holds for
//! that call only. Other properties are passed over.
//!
//! # What is proved
//!
//! Every function has a contract over mathematical values, and the contracts
//! of parsing, analysis, rewriting and rendering say exactly what is
//! returned. The tokenizer and the lowercase form of a name come from
//! outside and are taken on trust; see [`lexer`] and [`dialect`]. The module
//! [`laws`] states what holds of the library as a whole, and [`messages`]
//! gives every error its diagnostic.

pub mod analysis;
pub mod analyze;
pub mod ast;
pub mod cycles;
pub mod deps;
pub mod depth;
pub mod dialect;
pub mod expand;
pub mod functions;
pub mod joins;
pub mod laws;
pub mod lexer;
pub mod manifest;
pub mod messages;
pub mod model;
pub mod parser;
pub mod qualify;
pub mod query;
pub mod render;
pub mod rewrite;
pub mod routes;
pub mod schema;
pub mod statement;
pub mod text;
pub mod transform;
