use wren_core::analysis::SessionProperty;
use wren_core::analyze::{analyze, Mode};
use wren_core::ast::{Expr, TableRef, TableSource};
use wren_core::expand::{expand, Scope};
use wren_core::query::parse_query;
use wren_core::rewrite::rewrite;
use wren_core::joins::RewriteError;
use wren_core::dialect::Dialect;
use wren_core::functions::{FunctionKind, FunctionSignature};
use wren_core::joins::{BindError, ExpandError};
use wren_core::lexer::LexError;
use wren_core::manifest::{Cardinality, Column, ColumnSource, Entity, Manifest, Relationship};
use wren_core::model::AnalyzedManifest;
use wren_core::parser::{Expected, SyntaxError};
use wren_core::query::ParseError;
use wren_core::schema::ReferenceError;
use wren_core::transform::{transform, TransformError};

fn physical(name: &str, column: &str) -> Column {
    Column {
        name: name.to_string(),
        data_type: "varchar".to_string(),
        not_null: false,
        source: ColumnSource::Physical(column.to_string()),
    }
}

fn derived(name: &str, expression: &str) -> Column {
    Column {
        name: name.to_string(),
        data_type: "varchar".to_string(),
        not_null: false,
        source: ColumnSource::Derived(expression.to_string()),
    }
}

fn entity(name: &str, table: &[&str], columns: Vec<Column>) -> Entity {
    Entity {
        name: name.to_string(),
        source: TableSource::Named(table.iter().map(|s| s.to_string()).collect()),
        primary_key: vec!["id".to_string()],
        columns,
    }
}

fn relationship(name: &str, left: &str, right: &str, condition: &str, c: Cardinality) -> Relationship {
    Relationship {
        name: name.to_string(),
        left: left.to_string(),
        right: right.to_string(),
        condition: condition.to_string(),
        cardinality: c,
    }
}

fn shop(dialect: Dialect) -> Manifest {
    Manifest {
        catalog: "wren".to_string(),
        schema: "shop".to_string(),
        entities: vec![
            entity(
                "customer",
                &["customers"],
                vec![
                    physical("id", "id"),
                    physical("name", "full_name"),
                    derived("total_spent", "sum(orders.amount)"),
                    derived("order_count", "count(customer_orders.id)"),
                ],
            ),
            entity(
                "orders",
                &["public", "orders"],
                vec![
                    physical("id", "id"),
                    physical("customer_id", "customer_id"),
                    physical("amount", "amount"),
                    derived("customer_name", "customer.name"),
                    derived("double_amount", "amount * 2"),
                    derived("quadruple_amount", "double_amount * 2"),
                ],
            ),
        ],
        relationships: vec![relationship(
            "customer_orders",
            "customer",
            "orders",
            "customer.id = orders.customer_id",
            Cardinality::OneToMany,
        )],
        dialect,
    }
}

fn analyzed(dialect: Dialect) -> AnalyzedManifest {
    analyze(&shop(dialect), &Vec::new(), &Mode::Unparse).expect("the shop manifest is sound")
}

fn run(dialect: Dialect, sql: &str) -> Result<String, TransformError> {
    transform(&analyzed(dialect), &Vec::new(), &Vec::new(), sql)
}

#[test]
fn selects_a_physical_column_under_its_virtual_name() {
    assert_eq!(
        run(Dialect::Postgres, "SELECT name FROM customer"),
        Ok("SELECT \"customer\".\"full_name\" AS \"name\" FROM \"customers\" AS \"customer\"".to_string())
    );
}

#[test]
fn keywords_are_read_in_any_case() {
    assert_eq!(
        run(Dialect::Postgres, "select name from customer"),
        run(Dialect::Postgres, "SELECT name FROM customer")
    );
}

#[test]
fn expands_a_wildcard_to_the_declared_columns() {
    assert_eq!(
        run(Dialect::Postgres, "SELECT * FROM orders o"),
        Ok(concat(&[
            "SELECT \"o\".\"id\" AS \"id\", \"o\".\"customer_id\" AS \"customer_id\", ",
            "\"o\".\"amount\" AS \"amount\", \"o__customer_orders\".\"full_name\" AS \"customer_name\", ",
            "(\"o\".\"amount\" * 2) AS \"double_amount\", ",
            "((\"o\".\"amount\" * 2) * 2) AS \"quadruple_amount\" ",
            "FROM \"public\".\"orders\" AS \"o\" ",
            "LEFT JOIN \"customers\" AS \"o__customer_orders\" ",
            "ON (\"o__customer_orders\".\"id\" = \"o\".\"customer_id\")",
        ]))
    );
}

fn concat(parts: &[&str]) -> String {
    parts.concat()
}

#[test]
fn joins_a_relationship_once_per_query_block() {
    assert_eq!(
        run(
            Dialect::Postgres,
            "SELECT customer_name, amount FROM orders WHERE amount > 10 AND customer.name = 'O''Brien'"
        ),
        Ok(concat(&[
            "SELECT \"orders__customer_orders\".\"full_name\" AS \"customer_name\", ",
            "\"orders\".\"amount\" AS \"amount\" ",
            "FROM \"public\".\"orders\" AS \"orders\" ",
            "LEFT JOIN \"customers\" AS \"orders__customer_orders\" ",
            "ON (\"orders__customer_orders\".\"id\" = \"orders\".\"customer_id\") ",
            "WHERE ((\"orders\".\"amount\" > 10) AND (\"orders__customer_orders\".\"full_name\" = 'O''Brien'))",
        ]))
    );
}

#[test]
fn summarizes_related_rows_in_a_scalar_subquery() {
    assert_eq!(
        run(Dialect::Postgres, "SELECT name, total_spent FROM customer"),
        Ok(concat(&[
            "SELECT \"customer\".\"full_name\" AS \"name\", ",
            "(SELECT SUM(\"customer__customer_orders\".\"amount\") ",
            "FROM \"public\".\"orders\" AS \"customer__customer_orders\" ",
            "WHERE (\"customer\".\"id\" = \"customer__customer_orders\".\"customer_id\")) AS \"total_spent\" ",
            "FROM \"customers\" AS \"customer\"",
        ]))
    );
}

#[test]
fn summary_by_relationship_name_matches_summary_by_entity_name() {
    assert_eq!(
        run(Dialect::Postgres, "SELECT order_count FROM customer"),
        Ok(concat(&[
            "SELECT (SELECT COUNT(\"customer__customer_orders\".\"id\") ",
            "FROM \"public\".\"orders\" AS \"customer__customer_orders\" ",
            "WHERE (\"customer\".\"id\" = \"customer__customer_orders\".\"customer_id\")) AS \"order_count\" ",
            "FROM \"customers\" AS \"customer\"",
        ]))
    );
}

#[test]
fn summary_of_a_joined_entity_is_correlated_with_the_join() {
    assert_eq!(
        run(Dialect::Postgres, "SELECT customer.total_spent FROM orders"),
        Ok(concat(&[
            "SELECT (SELECT SUM(\"orders__customer_orders__customer_orders\".\"amount\") ",
            "FROM \"public\".\"orders\" AS \"orders__customer_orders__customer_orders\" ",
            "WHERE (\"orders__customer_orders\".\"id\" = \"orders__customer_orders__customer_orders\".\"customer_id\")) ",
            "AS \"total_spent\" ",
            "FROM \"public\".\"orders\" AS \"orders\" ",
            "LEFT JOIN \"customers\" AS \"orders__customer_orders\" ",
            "ON (\"orders__customer_orders\".\"id\" = \"orders\".\"customer_id\")",
        ]))
    );
}

#[test]
fn nested_derived_columns_are_replaced_by_their_definitions() {
    assert_eq!(
        run(Dialect::Postgres, "SELECT quadruple_amount FROM orders"),
        Ok(concat(&[
            "SELECT ((\"orders\".\"amount\" * 2) * 2) AS \"quadruple_amount\" ",
            "FROM \"public\".\"orders\" AS \"orders\"",
        ]))
    );
}

#[test]
fn rejects_a_traversal_to_many_rows_outside_an_aggregate() {
    assert_eq!(
        run(Dialect::Postgres, "SELECT orders.amount FROM customer"),
        Err(TransformError::Expand(ExpandError::FanOut {
            relationship: "customer_orders".to_string()
        }))
    );
    assert_eq!(
        run(Dialect::Postgres, "SELECT sum(orders.amount) FROM customer"),
        Err(TransformError::Expand(ExpandError::FanOut {
            relationship: "customer_orders".to_string()
        }))
    );
}

#[test]
fn rejects_an_unknown_column_by_name() {
    assert_eq!(
        run(Dialect::Postgres, "SELECT nope FROM customer"),
        Err(TransformError::Bind(BindError::Reference(ReferenceError::UnknownColumn {
            entity: "customer".to_string(),
            column: "nope".to_string(),
        })))
    );
}

#[test]
fn an_undeclared_physical_column_is_out_of_reach() {
    // `full_name` is the physical column behind `name`; the entity does not
    // declare it.
    assert_eq!(
        run(Dialect::Postgres, "SELECT full_name FROM customer"),
        Err(TransformError::Bind(BindError::Reference(ReferenceError::UnknownColumn {
            entity: "customer".to_string(),
            column: "full_name".to_string(),
        })))
    );
}

#[test]
fn rejects_an_unknown_path_segment() {
    assert_eq!(
        run(Dialect::Postgres, "SELECT supplier.name FROM orders"),
        Err(TransformError::Bind(BindError::Reference(ReferenceError::UnknownReference {
            entity: "orders".to_string(),
            name: "supplier".to_string(),
        })))
    );
}

#[test]
fn rejects_an_unknown_entity() {
    assert_eq!(
        run(Dialect::Postgres, "SELECT id FROM supplier"),
        Err(TransformError::Bind(BindError::UnknownEntity("supplier".to_string())))
    );
    assert_eq!(
        run(Dialect::Postgres, "SELECT id FROM other.customer"),
        Err(TransformError::Bind(BindError::UnknownEntity("customer".to_string())))
    );
}

#[test]
fn accepts_an_entity_qualified_by_schema_and_catalog() {
    let plain = run(Dialect::Postgres, "SELECT id FROM customer");
    assert!(plain.is_ok());
    assert_eq!(run(Dialect::Postgres, "SELECT id FROM shop.customer"), plain);
    assert_eq!(run(Dialect::Postgres, "SELECT id FROM wren.shop.customer"), plain);
}

#[test]
fn rejects_an_unknown_function_and_accepts_a_supplied_one() {
    assert_eq!(
        run(Dialect::Postgres, "SELECT shout(name) FROM customer"),
        Err(TransformError::Bind(BindError::UnknownFunction("shout".to_string())))
    );
    let supplied = vec![FunctionSignature { name: "Shout".to_string(), kind: FunctionKind::Scalar }];
    assert_eq!(
        transform(
            &analyzed(Dialect::Postgres),
            &supplied,
            &Vec::new(),
            "SELECT shout(name) FROM customer"
        ),
        Ok("SELECT shout(\"customer\".\"full_name\") FROM \"customers\" AS \"customer\"".to_string())
    );
}

#[test]
fn reports_where_the_syntax_breaks() {
    assert_eq!(
        run(Dialect::Postgres, "SELECT FROM"),
        Err(TransformError::Parse(ParseError::Syntax(SyntaxError {
            position: 1,
            line: 1,
            column: 8,
            ended: false,
            expected: Expected::Expression
        })))
    );
    assert_eq!(
        run(Dialect::Postgres, "SELECT name customer"),
        Err(TransformError::Parse(ParseError::Syntax(SyntaxError {
            position: 3,
            line: 1,
            column: 13,
            ended: true,
            expected: Expected::From
        })))
    );
    assert_eq!(
        run(Dialect::Postgres, "SELECT name FROM customer LIMIT many"),
        Err(TransformError::Parse(ParseError::Syntax(SyntaxError {
            position: 5,
            line: 1,
            column: 33,
            ended: false,
            expected: Expected::Number
        })))
    );
    assert_eq!(
        run(Dialect::Postgres, "SELECT name FROM customer JOIN orders"),
        Err(TransformError::Parse(ParseError::Syntax(SyntaxError {
            position: 6,
            line: 1,
            column: 32,
            ended: true,
            expected: Expected::On
        })))
    );
    assert_eq!(
        run(Dialect::Postgres, "SELECT name FROM customer LEFT orders ON 1 = 1"),
        Err(TransformError::Parse(ParseError::Syntax(SyntaxError {
            position: 5,
            line: 1,
            column: 32,
            ended: false,
            expected: Expected::Join
        })))
    );
    assert_eq!(
        run(Dialect::Postgres, "SELECT name FROM customer WHERE id IN (SELECT id FROM orders"),
        Err(TransformError::Parse(ParseError::Syntax(SyntaxError {
            position: 12,
            line: 1,
            column: 55,
            ended: true,
            expected: Expected::ClosingParen
        })))
    );
}

#[test]
fn reports_where_the_tokenizer_stops() {
    assert_eq!(
        run(Dialect::Postgres, "SELECT 'open FROM customer"),
        Err(TransformError::Parse(ParseError::Lex(LexError {
            message: "Unterminated string literal at Line: 1, Column: 8".to_string(),
        })))
    );
}

#[test]
fn sorts_by_an_alias_of_the_select_list() {
    assert_eq!(
        run(
            Dialect::Postgres,
            "SELECT customer_id, count(*) AS n FROM orders GROUP BY customer_id ORDER BY n DESC, customer_id"
        ),
        Ok(concat(&[
            "SELECT \"orders\".\"customer_id\" AS \"customer_id\", COUNT(*) AS \"n\" ",
            "FROM \"public\".\"orders\" AS \"orders\" ",
            "GROUP BY \"orders\".\"customer_id\" ",
            "ORDER BY \"n\" DESC, \"orders\".\"customer_id\"",
        ]))
    );
}

#[test]
fn transforming_twice_gives_the_same_text() {
    let a = analyzed(Dialect::Snowflake);
    let sql = "SELECT name, total_spent FROM customer WHERE id IS NOT NULL ORDER BY name";
    let first = transform(&a, &Vec::new(), &Vec::new(), sql);
    let second = transform(&a, &Vec::new(), &Vec::new(), sql);
    assert!(first.is_ok());
    assert_eq!(first, second);
}

#[test]
fn analyzing_twice_gives_the_same_text() {
    let sql = "SELECT customer_name, quadruple_amount FROM orders";
    let first = transform(&analyzed(Dialect::Trino), &Vec::new(), &Vec::new(), sql);
    let second = transform(&analyzed(Dialect::Trino), &Vec::new(), &Vec::new(), sql);
    assert!(first.is_ok());
    assert_eq!(first, second);
}

#[test]
fn a_session_property_names_the_dialect_of_one_call() {
    let a = analyzed(Dialect::Postgres);
    let props = vec![SessionProperty { name: "dialect".to_string(), value: Some("MySQL".to_string()) }];
    assert_eq!(
        transform(&a, &Vec::new(), &props, "SELECT id FROM customer"),
        Ok("SELECT `customer`.`id` AS `id` FROM `customers` AS `customer`".to_string())
    );
    let bad = vec![SessionProperty { name: "dialect".to_string(), value: Some("db2".to_string()) }];
    assert_eq!(
        transform(&a, &Vec::new(), &bad, "SELECT id FROM customer"),
        Err(TransformError::UnsupportedDialect("db2".to_string()))
    );
}

fn two_way() -> Manifest {
    Manifest {
        catalog: String::new(),
        schema: String::new(),
        entities: vec![
            entity(
                "flight",
                &["flights"],
                vec![physical("id", "id"), physical("origin", "origin"), physical("target", "target")],
            ),
            entity("airport", &["airports"], vec![physical("code", "code"), physical("city", "city")]),
            entity("island", &["islands"], vec![physical("id", "id")]),
        ],
        relationships: vec![
            relationship(
                "departure",
                "airport",
                "flight",
                "airport.code = flight.origin",
                Cardinality::OneToMany,
            ),
            relationship(
                "arrival",
                "airport",
                "flight",
                "airport.code = flight.target",
                Cardinality::OneToMany,
            ),
        ],
        dialect: Dialect::DuckDB,
    }
}

#[test]
fn rejects_a_path_that_two_relationships_could_serve() {
    let a = analyze(&two_way(), &Vec::new(), &Mode::Unparse).expect("sound");
    assert_eq!(
        transform(&a, &Vec::new(), &Vec::new(), "SELECT airport.city FROM flight"),
        Err(TransformError::Expand(ExpandError::Path(ReferenceError::AmbiguousPath {
            from: "flight".to_string(),
            to: "airport".to_string(),
        })))
    );
}

#[test]
fn a_named_relationship_decides_between_two() {
    let a = analyze(&two_way(), &Vec::new(), &Mode::Unparse).expect("sound");
    assert_eq!(
        transform(&a, &Vec::new(), &Vec::new(), "SELECT departure.city, arrival.city FROM flight"),
        Ok(concat(&[
            "SELECT \"flight__departure\".\"city\" AS \"city\", \"flight__arrival\".\"city\" AS \"city\" ",
            "FROM \"flights\" AS \"flight\" ",
            "LEFT JOIN \"airports\" AS \"flight__departure\" ",
            "ON (\"flight__departure\".\"code\" = \"flight\".\"origin\") ",
            "LEFT JOIN \"airports\" AS \"flight__arrival\" ",
            "ON (\"flight__arrival\".\"code\" = \"flight\".\"target\")",
        ]))
    );
}

#[test]
fn rejects_a_path_between_entities_that_nothing_connects() {
    let a = analyze(&two_way(), &Vec::new(), &Mode::Unparse).expect("sound");
    assert_eq!(
        transform(&a, &Vec::new(), &Vec::new(), "SELECT island.id FROM flight"),
        Err(TransformError::Expand(ExpandError::Path(ReferenceError::NotConnected {
            from: "flight".to_string(),
            to: "island".to_string(),
        })))
    );
    assert_eq!(
        transform(&a, &Vec::new(), &Vec::new(), "SELECT departure.id FROM island"),
        Err(TransformError::Expand(ExpandError::Path(ReferenceError::Unrelated {
            entity: "island".to_string(),
            relationship: "departure".to_string(),
        })))
    );
}

#[test]
fn rejects_an_aggregate_that_mixes_origins() {
    let mut m = shop(Dialect::Postgres);
    m.entities[0].columns.push(derived("odd", "sum(orders.amount * id)"));
    let a = analyze(&m, &Vec::new(), &Mode::Unparse).expect("sound");
    assert_eq!(
        transform(&a, &Vec::new(), &Vec::new(), "SELECT odd FROM customer"),
        Err(TransformError::Expand(ExpandError::MixedSummary))
    );
}

#[test]
fn a_summary_joins_what_its_argument_needs_inside_the_subquery() {
    let mut m = shop(Dialect::Postgres);
    m.entities[0].columns.push(derived("named_orders", "count(orders.customer_name)"));
    let a = analyze(&m, &Vec::new(), &Mode::Unparse).expect("sound");
    assert_eq!(
        transform(&a, &Vec::new(), &Vec::new(), "SELECT named_orders FROM customer"),
        Ok(concat(&[
            "SELECT (SELECT COUNT(\"customer__customer_orders__customer_orders\".\"full_name\") ",
            "FROM \"public\".\"orders\" AS \"customer__customer_orders\" ",
            "LEFT JOIN \"customers\" AS \"customer__customer_orders__customer_orders\" ",
            "ON (\"customer__customer_orders__customer_orders\".\"id\" = \"customer__customer_orders\".\"customer_id\") ",
            "WHERE (\"customer\".\"id\" = \"customer__customer_orders\".\"customer_id\")) AS \"named_orders\" ",
            "FROM \"customers\" AS \"customer\"",
        ]))
    );
}

#[test]
fn a_many_to_many_relationship_fans_out_both_ways() {
    let m = Manifest {
        catalog: String::new(),
        schema: String::new(),
        entities: vec![
            entity("student", &["students"], vec![physical("id", "id"), physical("course", "course")]),
            entity("course", &["courses"], vec![physical("id", "id"), physical("title", "title")]),
        ],
        relationships: vec![relationship(
            "enrolment",
            "student",
            "course",
            "student.course = course.id",
            Cardinality::ManyToMany,
        )],
        dialect: Dialect::Postgres,
    };
    let a = analyze(&m, &Vec::new(), &Mode::Unparse).expect("sound");
    let fan_out = Err(TransformError::Expand(ExpandError::FanOut { relationship: "enrolment".to_string() }));
    assert_eq!(transform(&a, &Vec::new(), &Vec::new(), "SELECT course.title FROM student"), fan_out);
    assert_eq!(transform(&a, &Vec::new(), &Vec::new(), "SELECT student.id FROM course"), fan_out);
}

#[test]
fn a_one_to_one_relationship_joins_both_ways() {
    let m = Manifest {
        catalog: String::new(),
        schema: String::new(),
        entities: vec![
            entity("person", &["people"], vec![physical("id", "id")]),
            entity("passport", &["passports"], vec![physical("holder", "holder_id"), physical("no", "no")]),
        ],
        relationships: vec![relationship(
            "holds",
            "person",
            "passport",
            "person.id = passport.holder",
            Cardinality::OneToOne,
        )],
        dialect: Dialect::Postgres,
    };
    let a = analyze(&m, &Vec::new(), &Mode::Unparse).expect("sound");
    assert_eq!(
        transform(&a, &Vec::new(), &Vec::new(), "SELECT passport.no FROM person"),
        Ok(concat(&[
            "SELECT \"person__holds\".\"no\" AS \"no\" FROM \"people\" AS \"person\" ",
            "LEFT JOIN \"passports\" AS \"person__holds\" ",
            "ON (\"person\".\"id\" = \"person__holds\".\"holder_id\")",
        ]))
    );
    assert_eq!(
        transform(&a, &Vec::new(), &Vec::new(), "SELECT holds.id FROM passport"),
        Ok(concat(&[
            "SELECT \"passport__holds\".\"id\" AS \"id\" FROM \"passports\" AS \"passport\" ",
            "LEFT JOIN \"people\" AS \"passport__holds\" ",
            "ON (\"passport__holds\".\"id\" = \"passport\".\"holder_id\")",
        ]))
    );
}

#[test]
fn expansion_without_fuel_stops_at_a_derived_column() {
    let a = analyzed(Dialect::Postgres);
    let scope = Scope {
        base: 1,
        alias: "o".to_string(),
        skip: None,
        aliased: None,
        inner: false,
        summed: false,
    };
    let column = |name: &str| Expr::Column(vec![name.to_string()]);
    let mut joins = Vec::new();
    assert_eq!(
        expand(&a, &Vec::new(), &scope, 0, &mut joins, &column("double_amount")),
        Err(RewriteError::Expand(ExpandError::TooDeep))
    );
    assert_eq!(
        expand(&a, &Vec::new(), &scope, 1, &mut joins, &column("quadruple_amount")),
        Err(RewriteError::Expand(ExpandError::TooDeep))
    );
    assert!(expand(&a, &Vec::new(), &scope, 2, &mut joins, &column("quadruple_amount")).is_ok());
    assert_eq!(
        expand(&a, &Vec::new(), &scope, 0, &mut joins, &column("amount")),
        Ok(Expr::Column(vec!["o".to_string(), "amount".to_string()]))
    );
    assert!(joins.is_empty());
}

#[test]
fn a_block_that_names_no_entity_and_no_nested_block_is_not_rewritten() {
    let a = analyzed(Dialect::Postgres);
    let unsupported = Err(RewriteError::Expand(ExpandError::Unsupported));
    let mut with_summary = parse_query("SELECT id FROM orders").expect("a query");
    with_summary.filter = Some(Expr::Summary {
        call: Box::new(Expr::Null),
        table: TableRef { source: TableSource::Raw("t".to_string()), alias: None },
        joins: Vec::new(),
        on: Box::new(Expr::Null),
    });
    assert_eq!(rewrite(&a, &Vec::new(), &with_summary), unsupported);
    let mut over_text = parse_query("SELECT id FROM orders").expect("a query");
    over_text.from.source = TableSource::Raw("SELECT 1".to_string());
    assert_eq!(
        rewrite(&a, &Vec::new(), &over_text),
        Err(RewriteError::Bind(BindError::UnknownEntity(String::new())))
    );
    let mut over_nothing = parse_query("SELECT id FROM orders").expect("a query");
    over_nothing.from = TableRef { source: TableSource::Block(3), alias: Some("t".to_string()) };
    assert_eq!(rewrite(&a, &Vec::new(), &over_nothing), unsupported);
}
