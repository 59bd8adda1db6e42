use wren_core::analysis::{AnalysisError, ColumnName, SessionProperty};
use wren_core::analyze::{analyze, Mode, PhysicalTable};
use wren_core::ast::TableSource;
use wren_core::dialect::Dialect;
use wren_core::manifest::{Cardinality, Column, ColumnSource, Entity, Manifest, Relationship};
use wren_core::parser::{Expected, SyntaxError};
use wren_core::query::ParseError;
use wren_core::schema::ReferenceError;
use wren_core::transform::transform;

fn physical(name: &str) -> Column {
    Column {
        name: name.to_string(),
        data_type: "int".to_string(),
        not_null: true,
        source: ColumnSource::Physical(name.to_string()),
    }
}

fn derived(name: &str, expression: &str) -> Column {
    Column {
        name: name.to_string(),
        data_type: "int".to_string(),
        not_null: false,
        source: ColumnSource::Derived(expression.to_string()),
    }
}

fn entity(name: &str, columns: Vec<Column>) -> Entity {
    Entity {
        name: name.to_string(),
        source: TableSource::Named(vec![name.to_string()]),
        primary_key: Vec::new(),
        columns,
    }
}

fn relationship(name: &str, left: &str, right: &str, condition: &str) -> Relationship {
    Relationship {
        name: name.to_string(),
        left: left.to_string(),
        right: right.to_string(),
        condition: condition.to_string(),
        cardinality: Cardinality::OneToOne,
    }
}

fn manifest(entities: Vec<Entity>, relationships: Vec<Relationship>) -> Manifest {
    Manifest {
        catalog: "c".to_string(),
        schema: "s".to_string(),
        entities,
        relationships,
        dialect: Dialect::Datafusion,
    }
}

fn fault(m: &Manifest) -> AnalysisError {
    analyze(m, &Vec::new(), &Mode::Unparse).expect_err("the manifest is faulty")
}

#[test]
fn an_empty_manifest_is_sound() {
    assert!(analyze(&manifest(Vec::new(), Vec::new()), &Vec::new(), &Mode::Unparse).is_ok());
}

#[test]
fn rejects_two_entities_of_one_name() {
    let m = manifest(vec![entity("a", vec![]), entity("b", vec![]), entity("a", vec![])], vec![]);
    assert_eq!(fault(&m), AnalysisError::DuplicateName("a".to_string()));
}

#[test]
fn rejects_two_columns_of_one_name() {
    let m = manifest(
        vec![entity("a", vec![physical("x")]), entity("b", vec![physical("y"), physical("y")])],
        vec![],
    );
    assert_eq!(fault(&m), AnalysisError::DuplicateName("y".to_string()));
}

#[test]
fn the_same_column_name_in_two_entities_is_sound() {
    let m = manifest(
        vec![entity("a", vec![physical("x")]), entity("b", vec![physical("x")])],
        vec![],
    );
    assert!(analyze(&m, &Vec::new(), &Mode::Unparse).is_ok());
}

#[test]
fn rejects_two_relationships_of_one_name() {
    let m = manifest(
        vec![entity("a", vec![physical("x")]), entity("b", vec![physical("x")])],
        vec![relationship("r", "a", "b", "a.x = b.x"), relationship("r", "b", "a", "a.x = b.x")],
    );
    assert_eq!(fault(&m), AnalysisError::DuplicateName("r".to_string()));
}

#[test]
fn rejects_a_relationship_to_an_undeclared_entity() {
    let m = manifest(
        vec![entity("a", vec![physical("x")])],
        vec![relationship("r", "a", "ghost", "a.x = ghost.x")],
    );
    assert_eq!(
        fault(&m),
        AnalysisError::UnknownEntity { relationship: "r".to_string(), entity: "ghost".to_string() }
    );
}

#[test]
fn rejects_a_relationship_of_an_entity_with_itself() {
    let m = manifest(vec![entity("a", vec![physical("x")])], vec![relationship("r", "a", "a", "a.x = a.x")]);
    assert_eq!(fault(&m), AnalysisError::InvalidRelationship("r".to_string()));
}

#[test]
fn rejects_a_condition_over_other_than_physical_columns() {
    let entities = || {
        vec![
            entity("a", vec![physical("x"), derived("twice", "x * 2")]),
            entity("b", vec![physical("x")]),
            entity("c", vec![physical("x")]),
        ]
    };
    for condition in ["a.twice = b.x", "a.x = c.x", "a.x = b.nope", "x = b.x", "abs(a.x) = b.x"] {
        let m = manifest(entities(), vec![relationship("r", "a", "b", condition)]);
        assert_eq!(fault(&m), AnalysisError::InvalidRelationship("r".to_string()), "{}", condition);
    }
}

#[test]
fn rejects_a_condition_that_is_no_expression() {
    let m = manifest(
        vec![entity("a", vec![physical("x")]), entity("b", vec![physical("x")])],
        vec![relationship("r", "a", "b", "a.x =")],
    );
    assert_eq!(
        fault(&m),
        AnalysisError::InvalidExpression {
            owner: "r".to_string(),
            column: String::new(),
            error: ParseError::Syntax(SyntaxError {
                position: 4,
                line: 1,
                column: 5,
                ended: true,
                expected: Expected::Expression
            }),
        }
    );
}

#[test]
fn rejects_a_derived_column_that_is_no_expression() {
    let m = manifest(vec![entity("a", vec![physical("x"), derived("y", "(x + 1")])], vec![]);
    assert_eq!(
        fault(&m),
        AnalysisError::InvalidExpression {
            owner: "a".to_string(),
            column: "y".to_string(),
            error: ParseError::Syntax(SyntaxError {
                position: 4,
                line: 1,
                column: 6,
                ended: true,
                expected: Expected::ClosingParen
            }),
        }
    );
}

#[test]
fn rejects_a_derived_column_over_an_unknown_column() {
    let m = manifest(vec![entity("a", vec![physical("x"), derived("y", "z + 1")])], vec![]);
    assert_eq!(
        fault(&m),
        AnalysisError::Reference {
            entity: "a".to_string(),
            column: "y".to_string(),
            cause: ReferenceError::UnknownColumn { entity: "a".to_string(), column: "z".to_string() },
        }
    );
}

#[test]
fn rejects_a_derived_column_over_an_ambiguous_path() {
    let m = manifest(
        vec![entity("a", vec![physical("x"), derived("y", "b.x")]), entity("b", vec![physical("x")])],
        vec![relationship("r1", "a", "b", "a.x = b.x"), relationship("r2", "b", "a", "a.x = b.x")],
    );
    assert_eq!(
        fault(&m),
        AnalysisError::Reference {
            entity: "a".to_string(),
            column: "y".to_string(),
            cause: ReferenceError::AmbiguousPath { from: "a".to_string(), to: "b".to_string() },
        }
    );
}

#[test]
fn rejects_two_columns_that_refer_to_each_other() {
    let m = manifest(
        vec![entity("a", vec![physical("p"), derived("x", "y + 1"), derived("y", "x * p")])],
        vec![],
    );
    match fault(&m) {
        AnalysisError::CyclicDependency(names) => {
            assert_eq!(names.len(), 2);
            assert!(names.contains(&ColumnName { entity: "a".to_string(), column: "x".to_string() }));
            assert!(names.contains(&ColumnName { entity: "a".to_string(), column: "y".to_string() }));
        },
        other => panic!("{:?}", other),
    }
}

#[test]
fn rejects_a_cycle_across_entities() {
    let m = manifest(
        vec![
            entity("a", vec![physical("k"), derived("x", "r.y")]),
            entity("b", vec![physical("k"), derived("y", "r.x")]),
        ],
        vec![relationship("r", "a", "b", "a.k = b.k")],
    );
    assert_eq!(
        fault(&m),
        AnalysisError::CyclicDependency(vec![
            ColumnName { entity: "a".to_string(), column: "x".to_string() },
            ColumnName { entity: "b".to_string(), column: "y".to_string() },
        ])
    );
}

#[test]
fn rejects_a_column_that_refers_to_itself() {
    let m = manifest(vec![entity("a", vec![derived("x", "x + 1")])], vec![]);
    assert_eq!(
        fault(&m),
        AnalysisError::CyclicDependency(vec![ColumnName {
            entity: "a".to_string(),
            column: "x".to_string()
        }])
    );
}

#[test]
fn the_dialect_property_overrides_the_manifest() {
    let m = manifest(vec![entity("a", vec![physical("x")])], vec![]);
    let props = vec![
        SessionProperty { name: "dialect".to_string(), value: Some("oracle".to_string()) },
        SessionProperty { name: "other".to_string(), value: None },
        SessionProperty { name: "dialect".to_string(), value: Some("MSSQL".to_string()) },
    ];
    let a = analyze(&m, &props, &Mode::Unparse).expect("sound");
    assert_eq!(a.dialect(), Dialect::MSSQL);
    assert_eq!(
        transform(&a, &Vec::new(), &Vec::new(), "SELECT x FROM a"),
        Ok("SELECT [a].[x] AS [x] FROM [a] AS [a]".to_string())
    );
}

#[test]
fn a_dialect_property_without_value_changes_nothing() {
    let m = manifest(vec![entity("a", vec![physical("x")])], vec![]);
    let props = vec![SessionProperty { name: "dialect".to_string(), value: None }];
    assert_eq!(analyze(&m, &props, &Mode::Unparse).expect("sound").dialect(), Dialect::Datafusion);
}

#[test]
fn rejects_an_unsupported_dialect_property() {
    let m = manifest(vec![entity("a", vec![physical("x")])], vec![]);
    let props = vec![SessionProperty { name: "dialect".to_string(), value: Some("db2".to_string()) }];
    assert_eq!(
        analyze(&m, &props, &Mode::Unparse).expect_err("unsupported"),
        AnalysisError::UnsupportedDialect("db2".to_string())
    );
}

fn table(name: &[&str], columns: &[&str]) -> PhysicalTable {
    PhysicalTable {
        name: name.iter().map(|s| s.to_string()).collect(),
        columns: columns.iter().map(|s| s.to_string()).collect(),
    }
}

#[test]
fn full_mode_holds_entities_against_the_catalog() {
    let m = manifest(
        vec![entity("a", vec![physical("x"), derived("y", "x + 1")]), entity("b", vec![physical("z")])],
        vec![],
    );
    let good = Mode::Full(vec![table(&["b"], &["z", "more"]), table(&["a"], &["x"])]);
    assert!(analyze(&m, &Vec::new(), &good).is_ok());
    let no_table = Mode::Full(vec![table(&["a"], &["x"]), table(&["s", "b"], &["z"])]);
    assert_eq!(
        analyze(&m, &Vec::new(), &no_table).expect_err("b is missing"),
        AnalysisError::UnknownTable { entity: "b".to_string() }
    );
    let no_column = Mode::Full(vec![table(&["a"], &["y"]), table(&["b"], &["z"])]);
    assert_eq!(
        analyze(&m, &Vec::new(), &no_column).expect_err("x is missing"),
        AnalysisError::UnknownPhysicalColumn { entity: "a".to_string(), column: "x".to_string() }
    );
    assert!(analyze(&m, &Vec::new(), &Mode::Unparse).is_ok());
}

#[test]
fn full_mode_takes_a_subquery_as_it_is() {
    let mut m = manifest(vec![entity("a", vec![physical("x")])], vec![]);
    m.entities[0].source = TableSource::Raw("SELECT 1 AS x".to_string());
    let a = analyze(&m, &Vec::new(), &Mode::Full(Vec::new())).expect("sound");
    assert_eq!(
        transform(&a, &Vec::new(), &Vec::new(), "SELECT x FROM a"),
        Ok("SELECT \"a\".\"x\" AS \"x\" FROM (SELECT 1 AS x) AS \"a\"".to_string())
    );
}

#[test]
fn a_cycle_is_found_before_the_conditions_are_checked() {
    let m = manifest(
        vec![entity("a", vec![physical("k"), derived("x", "x")]), entity("b", vec![physical("k")])],
        vec![relationship("r", "a", "b", "a.k = b.nope")],
    );
    assert_eq!(
        fault(&m),
        AnalysisError::CyclicDependency(vec![ColumnName {
            entity: "a".to_string(),
            column: "x".to_string()
        }])
    );
}

#[test]
fn names_are_checked_before_relationships_and_columns() {
    let m = manifest(
        vec![entity("a", vec![derived("x", "(")]), entity("a", vec![])],
        vec![relationship("r", "a", "ghost", "")],
    );
    assert_eq!(fault(&m), AnalysisError::DuplicateName("a".to_string()));
    let m = manifest(
        vec![entity("a", vec![derived("x", "(")])],
        vec![relationship("r", "a", "ghost", "")],
    );
    assert_eq!(
        fault(&m),
        AnalysisError::UnknownEntity { relationship: "r".to_string(), entity: "ghost".to_string() }
    );
}
