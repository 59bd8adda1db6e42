use wren_core::analysis::{AnalysisError, ColumnName};
use wren_core::dialect::Dialect;
use wren_core::joins::{BindError, ExpandError, RewriteError};
use wren_core::lexer::LexError;
use wren_core::messages::{cycle_message, dialect_name, expected_word, put_decimal};
use wren_core::parser::{Expected, SyntaxError};
use wren_core::query::{parse_expression_text, parse_query, ParseError};
use wren_core::render::RenderError;
use wren_core::schema::ReferenceError;
use wren_core::transform::TransformError;

fn name(entity: &str, column: &str) -> ColumnName {
    ColumnName { entity: entity.to_string(), column: column.to_string() }
}

const SUPPORTED: &str = ". Supported dialects: bigquery, mysql, postgres, snowflake, mssql, trino, clickhouse, canner, datafusion, duckdb, oracle";

#[test]
fn writes_numbers_in_decimal() {
    let decimal = |n: u64| {
        let mut s = String::from("n=");
        put_decimal(&mut s, n);
        s
    };
    assert_eq!(decimal(0), "n=0");
    assert_eq!(decimal(7), "n=7");
    assert_eq!(decimal(10), "n=10");
    assert_eq!(decimal(4096), "n=4096");
    assert_eq!(decimal(18446744073709551615), "n=18446744073709551615");
}

#[test]
fn a_syntax_error_says_what_was_needed_and_where() {
    let e = SyntaxError { position: 5, line: 3, column: 14, ended: false, expected: Expected::By };
    assert_eq!(e.message(), "syntax error: expected BY at line 3, column 14");
    let e = SyntaxError { position: 2, line: 1, column: 8, ended: true, expected: Expected::From };
    assert_eq!(e.message(), "syntax error: expected FROM after the lexeme at line 1, column 8");
    let e = SyntaxError { position: 0, line: 0, column: 0, ended: true, expected: Expected::Select };
    assert_eq!(e.message(), "syntax error: expected SELECT in an empty text");
}

#[test]
fn a_parse_error_of_a_text_names_the_place_in_the_text() {
    let e = parse_query("SELECT a\nFROM t\nWHERE a IS 1").expect_err("no query");
    assert_eq!(e.message(), "syntax error: expected NULL at line 3, column 12");
    let e = parse_expression_text("a +").expect_err("no expression");
    assert_eq!(
        e.message(),
        "syntax error: expected an expression after the lexeme at line 1, column 3"
    );
    let e = parse_expression_text("'open").expect_err("no lexemes");
    assert_eq!(e.message(), "Unterminated string literal at Line: 1, Column: 1");
    assert_eq!(
        ParseError::Lex(LexError { message: "as it came".to_string() }).message(),
        "as it came"
    );
}

#[test]
fn every_expectation_has_its_words() {
    assert_eq!(expected_word(Expected::Expression), "an expression");
    assert_eq!(expected_word(Expected::Name), "a name");
    assert_eq!(expected_word(Expected::ClosingParen), "a closing parenthesis");
    assert_eq!(expected_word(Expected::OpeningParen), "an opening parenthesis");
    assert_eq!(expected_word(Expected::Number), "a number");
    assert_eq!(expected_word(Expected::End), "the end of the query");
    assert_eq!(expected_word(Expected::Subquery), "a nested query");
    assert_eq!(expected_word(Expected::EndOfCase), "END");
    assert_eq!(expected_word(Expected::When), "WHEN");
    assert_eq!(expected_word(Expected::Then), "THEN");
    assert_eq!(expected_word(Expected::And), "AND");
    assert_eq!(expected_word(Expected::As), "AS");
    assert_eq!(expected_word(Expected::Join), "JOIN");
    assert_eq!(expected_word(Expected::On), "ON");
    assert_eq!(expected_word(Expected::Null), "NULL");
}

#[test]
fn a_reference_error_names_both_ends() {
    let e = ReferenceError::UnknownColumn { entity: "orders".to_string(), column: "x".to_string() };
    assert_eq!(e.message(), "entity 'orders' has no column 'x'");
    let e = ReferenceError::UnknownReference { entity: "orders".to_string(), name: "y".to_string() };
    assert_eq!(e.message(), "entity 'orders' has no relationship or entity 'y' to follow");
    let e = ReferenceError::Unrelated { entity: "a".to_string(), relationship: "r".to_string() };
    assert_eq!(e.message(), "entity 'a' is no side of relationship 'r'");
    let e = ReferenceError::NotConnected { from: "a".to_string(), to: "b".to_string() };
    assert_eq!(e.message(), "no relationship path leads from 'a' to 'b'");
    let e = ReferenceError::AmbiguousPath { from: "a".to_string(), to: "b".to_string() };
    assert_eq!(e.message(), "more than one relationship path leads from 'a' to 'b'");
}

#[test]
fn a_transform_error_names_its_stage() {
    let e = TransformError::Bind(BindError::UnknownEntity("nobody".to_string()));
    assert_eq!(e.message(), "bind error: unknown entity 'nobody'");
    let e = TransformError::Bind(BindError::UnknownFunction("f".to_string()));
    assert_eq!(e.message(), "bind error: unknown function 'f'");
    let e = TransformError::Bind(BindError::Reference(ReferenceError::UnknownColumn {
        entity: "a".to_string(),
        column: "b".to_string(),
    }));
    assert_eq!(e.message(), "bind error: entity 'a' has no column 'b'");
    let e = TransformError::Expand(ExpandError::FanOut { relationship: "r".to_string() });
    assert_eq!(
        e.message(),
        "expansion error: relationship 'r' leads to many rows outside an aggregate"
    );
    let e = TransformError::Expand(ExpandError::MixedSummary);
    assert_eq!(
        e.message(),
        "expansion error: an aggregate mixes columns that are not reached through one relationship"
    );
    let e = TransformError::Expand(ExpandError::Unsupported);
    assert_eq!(
        e.message(),
        "expansion error: the query uses a construct that cannot be rewritten"
    );
    let e = TransformError::Expand(ExpandError::TooDeep);
    assert_eq!(e.message(), "expansion error: derived columns nest too deep");
    let e = TransformError::Expand(ExpandError::InvalidCondition { relationship: "r".to_string() });
    assert_eq!(
        e.message(),
        "expansion error: the condition of relationship 'r' is not over physical columns of its entities"
    );
    let e = TransformError::Expand(ExpandError::Path(ReferenceError::AmbiguousPath {
        from: "a".to_string(),
        to: "b".to_string(),
    }));
    assert_eq!(
        e.message(),
        "expansion error: more than one relationship path leads from 'a' to 'b'"
    );
    let e = TransformError::Render(RenderError {
        construct: "median".to_string(),
        dialect: Dialect::MySQL,
    });
    assert_eq!(e.message(), "render error: dialect mysql cannot express median");
    let e = TransformError::Parse(ParseError::Syntax(SyntaxError {
        position: 1,
        line: 1,
        column: 8,
        ended: false,
        expected: Expected::Expression,
    }));
    assert_eq!(
        e.message(),
        "parse error: syntax error: expected an expression at line 1, column 8"
    );
    let e = TransformError::UnsupportedDialect("dbase".to_string());
    assert_eq!(e.message(), format!("Unsupported dialect: dbase{}", SUPPORTED));
}

#[test]
fn every_dialect_has_its_name() {
    assert_eq!(dialect_name(Dialect::BigQuery), "bigquery");
    assert_eq!(dialect_name(Dialect::MySQL), "mysql");
    assert_eq!(dialect_name(Dialect::Postgres), "postgres");
    assert_eq!(dialect_name(Dialect::Snowflake), "snowflake");
    assert_eq!(dialect_name(Dialect::MSSQL), "mssql");
    assert_eq!(dialect_name(Dialect::Trino), "trino");
    assert_eq!(dialect_name(Dialect::Clickhouse), "clickhouse");
    assert_eq!(dialect_name(Dialect::Canner), "canner");
    assert_eq!(dialect_name(Dialect::Datafusion), "datafusion");
    assert_eq!(dialect_name(Dialect::DuckDB), "duckdb");
    assert_eq!(dialect_name(Dialect::Oracle), "oracle");
}

#[test]
fn an_analysis_error_says_what_is_wrong_with_the_manifest() {
    assert_eq!(
        AnalysisError::DuplicateName("orders".to_string()).message(),
        "the name 'orders' is declared twice"
    );
    assert_eq!(
        AnalysisError::UnknownEntity { relationship: "r".to_string(), entity: "e".to_string() }
            .message(),
        "relationship 'r' names the undeclared entity 'e'"
    );
    assert_eq!(
        AnalysisError::InvalidRelationship("r".to_string()).message(),
        "relationship 'r' joins an entity to itself, or its condition is not over physical columns of its entities"
    );
    let broken = || {
        ParseError::Syntax(SyntaxError {
            position: 1,
            line: 1,
            column: 3,
            ended: false,
            expected: Expected::End,
        })
    };
    assert_eq!(
        AnalysisError::InvalidExpression {
            owner: "orders".to_string(),
            column: "size".to_string(),
            error: broken(),
        }
        .message(),
        "column 'orders.size' is no expression: syntax error: expected the end of the query at line 1, column 3"
    );
    assert_eq!(
        AnalysisError::InvalidExpression {
            owner: "r".to_string(),
            column: String::new(),
            error: broken(),
        }
        .message(),
        "the condition of relationship 'r' is no expression: syntax error: expected the end of the query at line 1, column 3"
    );
    assert_eq!(
        AnalysisError::Reference {
            entity: "orders".to_string(),
            column: "size".to_string(),
            cause: ReferenceError::UnknownColumn {
                entity: "orders".to_string(),
                column: "weight".to_string(),
            },
        }
        .message(),
        "column 'orders.size': entity 'orders' has no column 'weight'"
    );
    assert_eq!(
        AnalysisError::UnsupportedDialect("dbase".to_string()).message(),
        format!("Unsupported dialect: dbase{}", SUPPORTED)
    );
    assert_eq!(
        AnalysisError::UnknownTable { entity: "orders".to_string() }.message(),
        "the catalog has no table for entity 'orders'"
    );
    assert_eq!(
        AnalysisError::UnknownPhysicalColumn {
            entity: "orders".to_string(),
            column: "amount".to_string(),
        }
        .message(),
        "the table of entity 'orders' has no column 'amount'"
    );
}

#[test]
fn a_cycle_is_written_as_a_chain_that_closes() {
    assert_eq!(
        cycle_message(&vec![name("a", "x"), name("b", "y")]),
        "derived columns depend on each other in a cycle: a.x -> b.y -> a.x"
    );
    assert_eq!(
        AnalysisError::CyclicDependency(vec![name("a", "x")]).message(),
        "derived columns depend on each other in a cycle: a.x -> a.x"
    );
    assert_eq!(
        AnalysisError::CyclicDependency(Vec::new()).message(),
        "derived columns depend on each other in a cycle"
    );
}

#[test]
fn a_rewrite_error_has_the_words_of_its_cause() {
    assert_eq!(
        RewriteError::Bind(BindError::UnknownEntity("x".to_string())).message(),
        "unknown entity 'x'"
    );
    assert_eq!(
        RewriteError::Expand(ExpandError::TooDeep).message(),
        "derived columns nest too deep"
    );
}
