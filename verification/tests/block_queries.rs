use wren_core::analyze::{analyze, Mode};
use wren_core::ast::TableSource;
use wren_core::dialect::Dialect;
use wren_core::manifest::{Cardinality, Column, ColumnSource, Entity, Manifest, Relationship};
use wren_core::transform::{transform, TransformError};

fn physical(name: &str, column: &str) -> Column {
    Column {
        name: name.to_string(),
        data_type: "varchar".to_string(),
        not_null: false,
        source: ColumnSource::Physical(column.to_string()),
    }
}

fn derived(name: &str, expression: &str) -> Column {
    Column {
        name: name.to_string(),
        data_type: "varchar".to_string(),
        not_null: false,
        source: ColumnSource::Derived(expression.to_string()),
    }
}

fn entity(name: &str, table: &[&str], columns: Vec<Column>) -> Entity {
    Entity {
        name: name.to_string(),
        source: TableSource::Named(table.iter().map(|s| s.to_string()).collect()),
        primary_key: vec!["id".to_string()],
        columns,
    }
}

fn relationship(name: &str, left: &str, right: &str, condition: &str, c: Cardinality) -> Relationship {
    Relationship {
        name: name.to_string(),
        left: left.to_string(),
        right: right.to_string(),
        condition: condition.to_string(),
        cardinality: c,
    }
}


fn store() -> Manifest {
    Manifest {
        catalog: "wren".to_string(),
        schema: "shop".to_string(),
        entities: vec![
            entity(
                "customer",
                &["customers"],
                vec![
                    physical("id", "id"),
                    physical("name", "full_name"),
                    derived("total_spent", "sum(orders.amount)"),
                ],
            ),
            entity(
                "orders",
                &["public", "orders"],
                vec![
                    physical("id", "id"),
                    physical("customer_id", "customer_id"),
                    physical("amount", "amount"),
                    derived("customer_name", "customer.name"),
                    derived("size", "CASE WHEN amount > 100 THEN 'large' ELSE 'small' END"),
                ],
            ),
        ],
        relationships: vec![relationship(
            "customer_orders",
            "customer",
            "orders",
            "customer.id = orders.customer_id",
            Cardinality::OneToMany,
        )],
        dialect: Dialect::Postgres,
    }
}

fn go(sql: &str) -> Result<String, TransformError> {
    let a = analyze(&store(), &Vec::new(), &Mode::Unparse).expect("the manifest is sound");
    transform(&a, &Vec::new(), &Vec::new(), sql)
}

fn text(parts: &[&str]) -> Result<String, TransformError> {
    Ok(parts.concat())
}

#[test]
fn joins_two_entities_on_a_condition() {
    assert_eq!(
        go("SELECT c.name, o.amount FROM customer c JOIN orders AS o ON c.id = o.customer_id"),
        text(&[
            "SELECT \"c\".\"full_name\" AS \"name\", \"o\".\"amount\" AS \"amount\" ",
            "FROM \"customers\" AS \"c\" ",
            "INNER JOIN \"public\".\"orders\" AS \"o\" ON (\"c\".\"id\" = \"o\".\"customer_id\")",
        ])
    );
}

#[test]
fn keeps_the_kind_of_each_join() {
    assert_eq!(
        go("SELECT c.name FROM customer c LEFT OUTER JOIN orders o ON c.id = o.customer_id \
            FULL JOIN orders p ON p.id = o.id RIGHT JOIN customer d ON d.id = c.id"),
        text(&[
            "SELECT \"c\".\"full_name\" AS \"name\" FROM \"customers\" AS \"c\" ",
            "LEFT JOIN \"public\".\"orders\" AS \"o\" ON (\"c\".\"id\" = \"o\".\"customer_id\") ",
            "FULL JOIN \"public\".\"orders\" AS \"p\" ON (\"p\".\"id\" = \"o\".\"id\") ",
            "RIGHT JOIN \"customers\" AS \"d\" ON (\"d\".\"id\" = \"c\".\"id\")",
        ])
    );
}

#[test]
fn a_joined_entity_brings_its_derived_columns() {
    assert_eq!(
        go("SELECT c.name, o.customer_name, o.size FROM customer c \
            INNER JOIN orders o ON c.id = o.customer_id WHERE c.total_spent > 10"),
        text(&[
            "SELECT \"c\".\"full_name\" AS \"name\", \"o__customer_orders\".\"full_name\" AS \"customer_name\", ",
            "CASE WHEN (\"o\".\"amount\" > 100) THEN 'large' ELSE 'small' END AS \"size\" ",
            "FROM \"customers\" AS \"c\" ",
            "INNER JOIN \"public\".\"orders\" AS \"o\" ON (\"c\".\"id\" = \"o\".\"customer_id\") ",
            "LEFT JOIN \"customers\" AS \"o__customer_orders\" ",
            "ON (\"o__customer_orders\".\"id\" = \"o\".\"customer_id\") ",
            "WHERE ((SELECT SUM(\"c__customer_orders\".\"amount\") FROM \"public\".\"orders\" AS \"c__customer_orders\" ",
            "WHERE (\"c\".\"id\" = \"c__customer_orders\".\"customer_id\")) > 10)",
        ])
    );
}

#[test]
fn an_unqualified_column_is_found_in_the_joined_entity() {
    assert_eq!(
        go("SELECT name, amount FROM customer JOIN orders ON customer.id = customer_id"),
        text(&[
            "SELECT \"customer\".\"full_name\" AS \"name\", \"orders\".\"amount\" AS \"amount\" ",
            "FROM \"customers\" AS \"customer\" ",
            "INNER JOIN \"public\".\"orders\" AS \"orders\" ON (\"customer\".\"id\" = \"orders\".\"customer_id\")",
        ])
    );
}

#[test]
fn reads_a_nested_block_in_the_from_clause() {
    assert_eq!(
        go("SELECT t.name, t.spent FROM (SELECT name, total_spent AS spent FROM customer) AS t \
            WHERE t.spent > 100"),
        text(&[
            "SELECT \"t\".\"name\" AS \"name\", \"t\".\"spent\" AS \"spent\" FROM (",
            "SELECT \"customer\".\"full_name\" AS \"name\", ",
            "(SELECT SUM(\"customer__customer_orders\".\"amount\") ",
            "FROM \"public\".\"orders\" AS \"customer__customer_orders\" ",
            "WHERE (\"customer\".\"id\" = \"customer__customer_orders\".\"customer_id\")) AS \"spent\" ",
            "FROM \"customers\" AS \"customer\") AS \"t\" WHERE (\"t\".\"spent\" > 100)",
        ])
    );
}

#[test]
fn reads_a_nested_block_as_a_value_and_in_a_test() {
    assert_eq!(
        go("SELECT name, (SELECT count(*) FROM orders) FROM customer \
            WHERE id IN (SELECT customer_id FROM orders WHERE amount > 5) \
            AND NOT EXISTS (SELECT id FROM orders WHERE amount < 0)"),
        text(&[
            "SELECT \"customer\".\"full_name\" AS \"name\", (SELECT COUNT(*) FROM \"public\".\"orders\" AS \"orders\") ",
            "FROM \"customers\" AS \"customer\" WHERE ((\"customer\".\"id\" IN (",
            "SELECT \"orders\".\"customer_id\" AS \"customer_id\" FROM \"public\".\"orders\" AS \"orders\" ",
            "WHERE (\"orders\".\"amount\" > 5))) AND NOT (EXISTS (",
            "SELECT \"orders\".\"id\" AS \"id\" FROM \"public\".\"orders\" AS \"orders\" WHERE (\"orders\".\"amount\" < 0))))",
        ])
    );
}

#[test]
fn reads_a_named_block() {
    assert_eq!(
        go("WITH big AS (SELECT customer_id, amount FROM orders WHERE amount > 100) \
            SELECT c.name, b.amount FROM customer c JOIN big b ON b.customer_id = c.id"),
        text(&[
            "SELECT \"c\".\"full_name\" AS \"name\", \"b\".\"amount\" AS \"amount\" FROM \"customers\" AS \"c\" ",
            "INNER JOIN (SELECT \"orders\".\"customer_id\" AS \"customer_id\", \"orders\".\"amount\" AS \"amount\" ",
            "FROM \"public\".\"orders\" AS \"orders\" WHERE (\"orders\".\"amount\" > 100)) AS \"b\" ",
            "ON (\"b\".\"customer_id\" = \"c\".\"id\")",
        ])
    );
    assert_eq!(
        go("WITH big AS (SELECT id FROM orders), few AS (SELECT id FROM customer) \
            SELECT id FROM few"),
        text(&[
            "SELECT \"few\".\"id\" AS \"id\" FROM (SELECT \"customer\".\"id\" AS \"id\" ",
            "FROM \"customers\" AS \"customer\") AS \"few\"",
        ])
    );
}

#[test]
fn reads_tests_of_membership_range_and_pattern() {
    assert_eq!(
        go("SELECT id FROM orders WHERE amount IN (1, 2, 3) AND amount NOT IN (4) \
            AND amount BETWEEN 1 AND 10 AND amount NOT BETWEEN 2 AND 3 \
            AND customer_name LIKE 'A%' AND customer_name NOT LIKE '%z' OR id = 1"),
        text(&[
            "SELECT \"orders\".\"id\" AS \"id\" FROM \"public\".\"orders\" AS \"orders\" ",
            "LEFT JOIN \"customers\" AS \"orders__customer_orders\" ",
            "ON (\"orders__customer_orders\".\"id\" = \"orders\".\"customer_id\") ",
            "WHERE (((((((\"orders\".\"amount\" IN (1, 2, 3)) AND (\"orders\".\"amount\" NOT IN (4))) ",
            "AND (\"orders\".\"amount\" BETWEEN 1 AND 10)) AND (\"orders\".\"amount\" NOT BETWEEN 2 AND 3)) ",
            "AND (\"orders__customer_orders\".\"full_name\" LIKE 'A%')) ",
            "AND NOT ((\"orders__customer_orders\".\"full_name\" LIKE '%z'))) OR (\"orders\".\"id\" = 1))",
        ])
    );
}

#[test]
fn reads_case_and_cast() {
    assert_eq!(
        go("SELECT CASE WHEN amount > 10 THEN 1 WHEN amount > 5 THEN 2 ELSE 3 END AS band, \
            CASE id WHEN 1 THEN 'one' END, CAST(amount AS DECIMAL(10, 2)), \
            CAST(id AS VARCHAR(20)), cast(id as bigint), size FROM orders"),
        text(&[
            "SELECT CASE WHEN (\"orders\".\"amount\" > 10) THEN 1 WHEN (\"orders\".\"amount\" > 5) THEN 2 ",
            "ELSE 3 END AS \"band\", CASE \"orders\".\"id\" WHEN 1 THEN 'one' END, ",
            "CAST(\"orders\".\"amount\" AS DECIMAL(10, 2)), CAST(\"orders\".\"id\" AS VARCHAR(20)), ",
            "CAST(\"orders\".\"id\" AS bigint), ",
            "CASE WHEN (\"orders\".\"amount\" > 100) THEN 'large' ELSE 'small' END AS \"size\" ",
            "FROM \"public\".\"orders\" AS \"orders\"",
        ])
    );
}

#[test]
fn a_nested_block_is_rewritten_like_any_query() {
    assert_eq!(
        go("SELECT name FROM customer c WHERE id IN (SELECT customer.id FROM orders)"),
        text(&[
            "SELECT \"c\".\"full_name\" AS \"name\" FROM \"customers\" AS \"c\" ",
            "WHERE (\"c\".\"id\" IN (SELECT \"orders__customer_orders\".\"id\" AS \"id\" ",
            "FROM \"public\".\"orders\" AS \"orders\" LEFT JOIN \"customers\" AS \"orders__customer_orders\" ",
            "ON (\"orders__customer_orders\".\"id\" = \"orders\".\"customer_id\")))",
        ])
    );
    assert_eq!(
        go("SELECT name FROM customer WHERE id IN (SELECT nothing FROM orders)").is_err(),
        true
    );
}

#[test]
fn expands_a_wildcard_over_every_joined_table() {
    assert_eq!(
        go("SELECT * FROM customer c JOIN (SELECT id AS k FROM orders) AS o ON o.k = c.id"),
        text(&[
            "SELECT \"c\".\"id\" AS \"id\", \"c\".\"full_name\" AS \"name\", ",
            "(SELECT SUM(\"c__customer_orders\".\"amount\") FROM \"public\".\"orders\" AS \"c__customer_orders\" ",
            "WHERE (\"c\".\"id\" = \"c__customer_orders\".\"customer_id\")) AS \"total_spent\", \"o\".\"k\" AS \"k\" ",
            "FROM \"customers\" AS \"c\" INNER JOIN (SELECT \"orders\".\"id\" AS \"k\" ",
            "FROM \"public\".\"orders\" AS \"orders\") AS \"o\" ON (\"o\".\"k\" = \"c\".\"id\")",
        ])
    );
}

#[test]
fn unites_query_blocks() {
    assert_eq!(
        go("SELECT name FROM customer UNION ALL SELECT customer_name FROM orders \
            union SELECT name AS name FROM customer ORDER BY name LIMIT 3"),
        text(&[
            "SELECT \"customer\".\"full_name\" AS \"name\" FROM \"customers\" AS \"customer\" ",
            "UNION ALL SELECT \"orders__customer_orders\".\"full_name\" AS \"customer_name\" ",
            "FROM \"public\".\"orders\" AS \"orders\" LEFT JOIN \"customers\" AS \"orders__customer_orders\" ",
            "ON (\"orders__customer_orders\".\"id\" = \"orders\".\"customer_id\") ",
            "UNION SELECT \"customer\".\"full_name\" AS \"name\" FROM \"customers\" AS \"customer\" ",
            "ORDER BY \"name\" LIMIT 3",
        ])
    );
    assert_eq!(
        go("SELECT id FROM (SELECT id FROM orders UNION SELECT id FROM customer) AS t"),
        text(&[
            "SELECT \"t\".\"id\" AS \"id\" FROM (SELECT \"orders\".\"id\" AS \"id\" FROM \"public\".\"orders\" AS \"orders\" ",
            "UNION SELECT \"customer\".\"id\" AS \"id\" FROM \"customers\" AS \"customer\") AS \"t\"",
        ])
    );
}

#[test]
fn a_join_condition_that_needs_a_relationship_is_not_rewritten() {
    assert_eq!(
        go("SELECT c.name FROM customer c JOIN orders o ON o.customer_name = c.name"),
        Err(TransformError::Expand(wren_core::joins::ExpandError::Unsupported))
    );
}

#[test]
fn a_nested_block_reads_a_table_of_the_block_around_it_by_its_name() {
    assert_eq!(
        go("SELECT name FROM customer c WHERE EXISTS (SELECT id FROM orders WHERE customer_id = c.id)"),
        text(&[
            "SELECT \"c\".\"full_name\" AS \"name\" FROM \"customers\" AS \"c\" WHERE EXISTS (",
            "SELECT \"orders\".\"id\" AS \"id\" FROM \"public\".\"orders\" AS \"orders\" ",
            "WHERE (\"orders\".\"customer_id\" = \"c\".\"id\"))",
        ])
    );
    assert_eq!(
        go("SELECT name FROM customer WHERE id IN (SELECT customer.id FROM orders)"),
        text(&[
            "SELECT \"customer\".\"full_name\" AS \"name\" FROM \"customers\" AS \"customer\" ",
            "WHERE (\"customer\".\"id\" IN (SELECT \"customer\".\"id\" AS \"id\" ",
            "FROM \"public\".\"orders\" AS \"orders\"))",
        ])
    );
}

#[test]
fn a_table_of_the_block_hides_one_of_that_name_around_it() {
    assert_eq!(
        go("SELECT name FROM customer t WHERE EXISTS (SELECT t.id FROM orders t WHERE t.amount > 1)"),
        text(&[
            "SELECT \"t\".\"full_name\" AS \"name\" FROM \"customers\" AS \"t\" WHERE EXISTS (",
            "SELECT \"t\".\"id\" AS \"id\" FROM \"public\".\"orders\" AS \"t\" WHERE (\"t\".\"amount\" > 1))",
        ])
    );
}

#[test]
fn a_table_around_a_block_gives_nothing_to_a_bare_column_or_a_wildcard() {
    assert_eq!(
        go("SELECT id FROM customer c WHERE EXISTS (SELECT id FROM orders WHERE name = 'x')"),
        Err(TransformError::Bind(wren_core::joins::BindError::Reference(
            wren_core::schema::ReferenceError::UnknownColumn {
                entity: "orders".to_string(),
                column: "name".to_string(),
            }
        )))
    );
    assert_eq!(
        go("SELECT id FROM customer c WHERE EXISTS (SELECT * FROM (SELECT id FROM orders) o WHERE o.id = c.id)"),
        text(&[
            "SELECT \"c\".\"id\" AS \"id\" FROM \"customers\" AS \"c\" WHERE EXISTS (",
            "SELECT \"o\".\"id\" AS \"id\" FROM (SELECT \"orders\".\"id\" AS \"id\" ",
            "FROM \"public\".\"orders\" AS \"orders\") AS \"o\" WHERE (\"o\".\"id\" = \"c\".\"id\"))",
        ])
    );
}

#[test]
fn a_block_two_levels_down_reads_the_outermost_table() {
    assert_eq!(
        go("SELECT id FROM customer c WHERE id IN (SELECT customer_id FROM orders o \
            WHERE EXISTS (SELECT id FROM orders WHERE amount > o.amount AND customer_id = c.id))"),
        text(&[
            "SELECT \"c\".\"id\" AS \"id\" FROM \"customers\" AS \"c\" WHERE (\"c\".\"id\" IN (",
            "SELECT \"o\".\"customer_id\" AS \"customer_id\" FROM \"public\".\"orders\" AS \"o\" WHERE EXISTS (",
            "SELECT \"orders\".\"id\" AS \"id\" FROM \"public\".\"orders\" AS \"orders\" ",
            "WHERE ((\"orders\".\"amount\" > \"o\".\"amount\") AND (\"orders\".\"customer_id\" = \"c\".\"id\")))))",
        ])
    );
}

#[test]
fn a_nested_block_in_the_from_clause_needs_a_name() {
    assert_eq!(
        go("SELECT id FROM (SELECT id FROM orders)"),
        Err(TransformError::Expand(wren_core::joins::ExpandError::Unsupported))
    );
}

#[test]
fn a_column_of_a_nested_block_is_known_by_its_output_name() {
    assert_eq!(
        go("SELECT t.amount FROM (SELECT id FROM orders) AS t"),
        Err(TransformError::Bind(wren_core::joins::BindError::Reference(
            wren_core::schema::ReferenceError::UnknownColumn {
                entity: "t".to_string(),
                column: "amount".to_string(),
            }
        )))
    );
}

#[test]
fn writes_every_set_operation() {
    assert_eq!(
        go("SELECT id FROM customer EXCEPT SELECT customer_id FROM orders INTERSECT ALL SELECT id FROM orders"),
        text(&[
            "SELECT \"customer\".\"id\" AS \"id\" FROM \"customers\" AS \"customer\" ",
            "EXCEPT SELECT \"orders\".\"customer_id\" AS \"customer_id\" ",
            "FROM \"public\".\"orders\" AS \"orders\" ",
            "INTERSECT ALL SELECT \"orders\".\"id\" AS \"id\" FROM \"public\".\"orders\" AS \"orders\"",
        ])
    );
}

#[test]
fn a_comma_joins_every_row_with_every_row() {
    assert_eq!(
        go("SELECT c.name, o.amount FROM customer c, orders o WHERE c.id = o.customer_id"),
        text(&[
            "SELECT \"c\".\"full_name\" AS \"name\", \"o\".\"amount\" AS \"amount\" ",
            "FROM \"customers\" AS \"c\" CROSS JOIN \"public\".\"orders\" AS \"o\" ",
            "WHERE (\"c\".\"id\" = \"o\".\"customer_id\")",
        ])
    );
    assert_eq!(
        go("SELECT c.name FROM customer c CROSS JOIN orders o JOIN customer d ON d.id = c.id"),
        text(&[
            "SELECT \"c\".\"full_name\" AS \"name\" FROM \"customers\" AS \"c\" ",
            "CROSS JOIN \"public\".\"orders\" AS \"o\" ",
            "INNER JOIN \"customers\" AS \"d\" ON (\"d\".\"id\" = \"c\".\"id\")",
        ])
    );
}

#[test]
fn concatenation_is_an_operator_or_a_function() {
    let a = analyze(&store(), &Vec::new(), &Mode::Unparse).expect("the manifest is sound");
    let under = |d: &str| {
        let props = vec![wren_core::analysis::SessionProperty {
            name: "dialect".to_string(),
            value: Some(d.to_string()),
        }];
        transform(&a, &Vec::new(), &props, "SELECT name || '-' || id AS tag FROM customer")
    };
    assert_eq!(
        under("postgres"),
        text(&[
            "SELECT ((\"customer\".\"full_name\" || '-') || \"customer\".\"id\") AS \"tag\" ",
            "FROM \"customers\" AS \"customer\"",
        ])
    );
    assert_eq!(
        under("mysql"),
        text(&[
            "SELECT CONCAT(CONCAT(`customer`.`full_name`, '-'), `customer`.`id`) AS `tag` ",
            "FROM `customers` AS `customer`",
        ])
    );
}

#[test]
fn a_wildcard_after_a_name_gives_the_columns_of_that_table() {
    assert_eq!(
        go("SELECT o.*, c.name FROM customer c JOIN orders o ON o.customer_id = c.id"),
        text(&[
            "SELECT \"o\".\"id\" AS \"id\", \"o\".\"customer_id\" AS \"customer_id\", ",
            "\"o\".\"amount\" AS \"amount\", \"o__customer_orders\".\"full_name\" AS \"customer_name\", ",
            "CASE WHEN (\"o\".\"amount\" > 100) THEN 'large' ELSE 'small' END AS \"size\", ",
            "\"c\".\"full_name\" AS \"name\" FROM \"customers\" AS \"c\" ",
            "INNER JOIN \"public\".\"orders\" AS \"o\" ON (\"o\".\"customer_id\" = \"c\".\"id\") ",
            "LEFT JOIN \"customers\" AS \"o__customer_orders\" ",
            "ON (\"o__customer_orders\".\"id\" = \"o\".\"customer_id\")",
        ])
    );
    assert_eq!(
        go("SELECT x.* FROM customer c"),
        Err(TransformError::Bind(wren_core::joins::BindError::UnknownEntity("x".to_string())))
    );
    assert_eq!(
        go("SELECT id FROM customer c WHERE EXISTS (SELECT c.* FROM orders)"),
        Err(TransformError::Bind(wren_core::joins::BindError::UnknownEntity("c".to_string())))
    );
}
