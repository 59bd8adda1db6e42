use wren_core::analysis::{read, AnalysisError, ColumnName, Readings};
use wren_core::analyze::{analyze, analyze_parsed, Mode};
use wren_core::ast::{BinaryOp, Expr, TableSource};
use wren_core::dialect::Dialect;
use wren_core::lexer::LexError;
use wren_core::manifest::{Cardinality, Column, ColumnSource, Entity, Manifest, Relationship};
use wren_core::parser::{Expected, SyntaxError};
use wren_core::query::ParseError;
use wren_core::schema::ReferenceError;
use wren_core::transform::transform;

fn stored(name: &str) -> Column {
    Column {
        name: name.to_string(),
        data_type: "int".to_string(),
        not_null: true,
        source: ColumnSource::Physical(name.to_string()),
    }
}

fn computed(name: &str, expression: &str) -> Column {
    Column {
        name: name.to_string(),
        data_type: "int".to_string(),
        not_null: false,
        source: ColumnSource::Derived(expression.to_string()),
    }
}

fn pair(second: &str) -> Manifest {
    Manifest {
        catalog: "c".to_string(),
        schema: "s".to_string(),
        entities: vec![
            Entity {
                name: "a".to_string(),
                source: TableSource::Named(vec!["a".to_string()]),
                primary_key: Vec::new(),
                columns: vec![stored("x"), computed("y", "these words are not looked at")],
            },
            Entity {
                name: "b".to_string(),
                source: TableSource::Named(vec!["b".to_string()]),
                primary_key: Vec::new(),
                columns: vec![stored("x"), computed("z", second)],
            },
        ],
        relationships: vec![Relationship {
            name: "r".to_string(),
            left: "a".to_string(),
            right: "b".to_string(),
            condition: "nor are these".to_string(),
            cardinality: Cardinality::OneToOne,
        }],
        dialect: Dialect::Postgres,
    }
}

fn column(path: &[&str]) -> Expr {
    Expr::Column(path.iter().map(|s| s.to_string()).collect())
}

fn ignored() -> Result<Expr, ParseError> {
    Err(ParseError::Lex(LexError { message: "a physical column has no text".to_string() }))
}

fn condition() -> Result<Expr, ParseError> {
    Ok(Expr::Binary(
        BinaryOp::Eq,
        Box::new(column(&["a", "x"])),
        Box::new(column(&["b", "x"])),
    ))
}

fn readings(y: Result<Expr, ParseError>, z: Result<Expr, ParseError>) -> Readings {
    Readings {
        columns: vec![vec![ignored(), y], vec![ignored(), z]],
        conditions: vec![condition()],
    }
}

fn plus_one(path: &[&str]) -> Result<Expr, ParseError> {
    Ok(Expr::Binary(
        BinaryOp::Plus,
        Box::new(column(path)),
        Box::new(Expr::Number("1".to_string())),
    ))
}

#[test]
fn analysis_works_on_what_was_read_not_on_the_texts() {
    let m = pair("nothing");
    let rd = readings(plus_one(&["x"]), plus_one(&["a", "y"]));
    let a = analyze_parsed(&m, &rd, &Vec::new(), &Mode::Unparse).expect("the readings are sound");
    assert_eq!(
        transform(&a, &Vec::new(), &Vec::new(), "SELECT y, b.z FROM a"),
        Ok([
            "SELECT (\"a\".\"x\" + 1) AS \"y\", ((\"a__r__r\".\"x\" + 1) + 1) AS \"z\" ",
            "FROM \"a\" AS \"a\" LEFT JOIN \"b\" AS \"a__r\" ON (\"a\".\"x\" = \"a__r\".\"x\") ",
            "LEFT JOIN \"a\" AS \"a__r__r\" ON (\"a__r__r\".\"x\" = \"a__r\".\"x\")",
        ]
        .concat())
    );
}

#[test]
fn a_reading_that_failed_is_the_fault_of_its_column() {
    let m = pair("nothing");
    let broken = || {
        ParseError::Syntax(SyntaxError {
            position: 2,
            line: 1,
            column: 3,
            ended: true,
            expected: Expected::Expression,
        })
    };
    let rd = readings(plus_one(&["x"]), Err(broken()));
    assert_eq!(
        analyze_parsed(&m, &rd, &Vec::new(), &Mode::Unparse).err(),
        Some(AnalysisError::InvalidExpression {
            owner: "b".to_string(),
            column: "z".to_string(),
            error: broken(),
        })
    );
    let mut rd = readings(plus_one(&["x"]), plus_one(&["x"]));
    rd.conditions = vec![Err(broken())];
    assert_eq!(
        analyze_parsed(&m, &rd, &Vec::new(), &Mode::Unparse).err(),
        Some(AnalysisError::InvalidExpression {
            owner: "r".to_string(),
            column: String::new(),
            error: broken(),
        })
    );
}

#[test]
fn readings_are_resolved_against_the_graph() {
    let m = pair("nothing");
    let rd = readings(plus_one(&["x"]), plus_one(&["a", "w"]));
    assert_eq!(
        analyze_parsed(&m, &rd, &Vec::new(), &Mode::Unparse).err(),
        Some(AnalysisError::Reference {
            entity: "b".to_string(),
            column: "z".to_string(),
            cause: ReferenceError::UnknownColumn {
                entity: "a".to_string(),
                column: "w".to_string(),
            },
        })
    );
}

#[test]
fn readings_that_refer_to_each_other_are_a_cycle() {
    let m = pair("nothing");
    let rd = readings(plus_one(&["b", "z"]), plus_one(&["a", "y"]));
    let fault = analyze_parsed(&m, &rd, &Vec::new(), &Mode::Unparse).err();
    let one = ColumnName { entity: "a".to_string(), column: "y".to_string() };
    let other = ColumnName { entity: "b".to_string(), column: "z".to_string() };
    match fault {
        Some(AnalysisError::CyclicDependency(names)) => {
            assert_eq!(names.len(), 2);
            assert!(names.contains(&one));
            assert!(names.contains(&other));
        }
        other => panic!("no cycle was reported: {:?}", other),
    }
}

#[test]
fn a_reading_that_is_missing_counts_as_an_empty_text() {
    let m = pair("nothing");
    let rd = Readings { columns: Vec::new(), conditions: Vec::new() };
    assert_eq!(
        analyze_parsed(&m, &rd, &Vec::new(), &Mode::Unparse).err(),
        Some(AnalysisError::InvalidExpression {
            owner: "a".to_string(),
            column: "y".to_string(),
            error: ParseError::Syntax(SyntaxError {
                position: 0,
                line: 0,
                column: 0,
                ended: true,
                expected: Expected::Expression,
            }),
        })
    );
}

#[test]
fn reading_parses_every_text_of_a_manifest() {
    let mut m = pair("a.x + 1");
    m.entities[0].columns[1].source = ColumnSource::Derived("x +".to_string());
    m.relationships[0].condition = "a.x = b.x".to_string();
    let rd = read(&m);
    assert_eq!(rd.columns.len(), 2);
    assert_eq!(
        rd.columns[0][1],
        Err(ParseError::Syntax(SyntaxError {
            position: 2,
            line: 1,
            column: 3,
            ended: true,
            expected: Expected::Expression,
        }))
    );
    assert_eq!(rd.columns[1][1], plus_one(&["a", "x"]));
    assert_eq!(rd.conditions, vec![condition()]);
    assert_eq!(
        analyze(&m, &Vec::new(), &Mode::Unparse).err(),
        analyze_parsed(&m, &rd, &Vec::new(), &Mode::Unparse).err()
    );
}
