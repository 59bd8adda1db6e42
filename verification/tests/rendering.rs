use wren_core::analyze::{analyze, Mode};
use wren_core::ast::TableSource;
use wren_core::dialect::Dialect;
use wren_core::manifest::{Column, ColumnSource, Entity, Manifest};
use wren_core::render::RenderError;
use wren_core::transform::{transform, TransformError};

fn sheet(dialect: Dialect) -> Manifest {
    let column = |name: &str| Column {
        name: name.to_string(),
        data_type: "int".to_string(),
        not_null: false,
        source: ColumnSource::Physical(name.to_string()),
    };
    Manifest {
        catalog: String::new(),
        schema: String::new(),
        entities: vec![Entity {
            name: "t".to_string(),
            source: TableSource::Named(vec!["db".to_string(), "t".to_string()]),
            primary_key: Vec::new(),
            columns: vec![column("a"), column("b")],
        }],
        relationships: Vec::new(),
        dialect,
    }
}

fn run(dialect: Dialect, sql: &str) -> Result<String, TransformError> {
    let a = analyze(&sheet(dialect), &Vec::new(), &Mode::Unparse).expect("sound");
    transform(&a, &Vec::new(), &Vec::new(), sql)
}

fn text(s: &str) -> Result<String, TransformError> {
    Ok(s.to_string())
}

fn cannot(construct: &str, dialect: Dialect) -> Result<String, TransformError> {
    Err(TransformError::Render(RenderError { construct: construct.to_string(), dialect }))
}

#[test]
fn quotes_identifiers_by_the_rule_of_the_dialect() {
    let sql = "SELECT a FROM t";
    assert_eq!(run(Dialect::Postgres, sql), text("SELECT \"t\".\"a\" AS \"a\" FROM \"db\".\"t\" AS \"t\""));
    assert_eq!(run(Dialect::Trino, sql), text("SELECT \"t\".\"a\" AS \"a\" FROM \"db\".\"t\" AS \"t\""));
    assert_eq!(run(Dialect::MySQL, sql), text("SELECT `t`.`a` AS `a` FROM `db`.`t` AS `t`"));
    assert_eq!(run(Dialect::BigQuery, sql), text("SELECT `t`.`a` AS `a` FROM `db`.`t` AS `t`"));
    assert_eq!(run(Dialect::MSSQL, sql), text("SELECT [t].[a] AS [a] FROM [db].[t] AS [t]"));
    assert_eq!(run(Dialect::Oracle, sql), text("SELECT \"t\".\"a\" AS \"a\" FROM \"db\".\"t\" \"t\""));
}

#[test]
fn escapes_the_closing_quote_inside_an_identifier() {
    let sql = "SELECT a AS \"x\"\"]`y\" FROM t";
    assert_eq!(
        run(Dialect::Postgres, sql),
        text("SELECT \"t\".\"a\" AS \"x\"\"]`y\" FROM \"db\".\"t\" AS \"t\"")
    );
    assert_eq!(run(Dialect::MSSQL, sql), text("SELECT [t].[a] AS [x\"]]`y] FROM [db].[t] AS [t]"));
    assert_eq!(run(Dialect::MySQL, sql), text("SELECT `t`.`a` AS `x\"]``y` FROM `db`.`t` AS `t`"));
    assert_eq!(run(Dialect::BigQuery, sql), text("SELECT `t`.`a` AS `x\"]\\`y` FROM `db`.`t` AS `t`"));
}

#[test]
fn doubles_the_quote_inside_a_string_literal() {
    assert_eq!(
        run(Dialect::DuckDB, "SELECT a FROM t WHERE b = 'it''s' OR b = ''"),
        text("SELECT \"t\".\"a\" AS \"a\" FROM \"db\".\"t\" AS \"t\" WHERE ((\"t\".\"b\" = 'it''s') OR (\"t\".\"b\" = ''))")
    );
}

#[test]
fn names_the_current_time_as_the_dialect_does() {
    let sql = "SELECT now() FROM t";
    let postgres = run(Dialect::Postgres, sql);
    let bigquery = run(Dialect::BigQuery, sql);
    let mssql = run(Dialect::MSSQL, sql);
    let oracle = run(Dialect::Oracle, sql);
    assert_eq!(postgres, text("SELECT NOW() FROM \"db\".\"t\" AS \"t\""));
    assert_eq!(bigquery, text("SELECT CURRENT_TIMESTAMP() FROM `db`.`t` AS `t`"));
    assert_eq!(run(Dialect::Snowflake, sql), text("SELECT CURRENT_TIMESTAMP() FROM \"db\".\"t\" AS \"t\""));
    assert_eq!(mssql, text("SELECT SYSDATETIME() FROM [db].[t] AS [t]"));
    assert_eq!(oracle, text("SELECT SYSTIMESTAMP FROM \"db\".\"t\" \"t\""));
    assert_ne!(postgres, bigquery);
    assert_ne!(postgres, oracle);
    assert_ne!(mssql, oracle);
}

#[test]
fn translates_function_names() {
    let sql = "SELECT Length(a), CEIL(b), substr(a, 1, 2), Count(DISTINCT a) FROM t";
    assert_eq!(
        run(Dialect::Clickhouse, sql),
        text("SELECT LENGTH(\"t\".\"a\"), CEIL(\"t\".\"b\"), SUBSTR(\"t\".\"a\", 1, 2), COUNT(DISTINCT \"t\".\"a\") FROM \"db\".\"t\" AS \"t\"")
    );
    assert_eq!(
        run(Dialect::MSSQL, sql),
        text("SELECT LEN([t].[a]), CEILING([t].[b]), SUBSTRING([t].[a], 1, 2), COUNT(DISTINCT [t].[a]) FROM [db].[t] AS [t]")
    );
}

#[test]
fn refuses_a_function_without_equivalent() {
    assert_eq!(
        run(Dialect::Canner, "SELECT md5(a) FROM t"),
        text("SELECT MD5(\"t\".\"a\") FROM \"db\".\"t\" AS \"t\"")
    );
    assert_eq!(run(Dialect::MSSQL, "SELECT md5(a) FROM t"), cannot("md5", Dialect::MSSQL));
    assert_eq!(run(Dialect::Oracle, "SELECT MD5(a) FROM t"), cannot("MD5", Dialect::Oracle));
    assert_eq!(run(Dialect::Oracle, "SELECT now(a) FROM t"), cannot("now", Dialect::Oracle));
}

#[test]
fn refuses_a_boolean_literal_where_there_is_none() {
    assert_eq!(
        run(Dialect::Postgres, "SELECT a FROM t WHERE b = TRUE OR false"),
        text("SELECT \"t\".\"a\" AS \"a\" FROM \"db\".\"t\" AS \"t\" WHERE ((\"t\".\"b\" = TRUE) OR FALSE)")
    );
    assert_eq!(run(Dialect::MSSQL, "SELECT a FROM t WHERE true"), cannot("boolean literal", Dialect::MSSQL));
    assert_eq!(run(Dialect::Oracle, "SELECT a FROM t WHERE true"), cannot("boolean literal", Dialect::Oracle));
}

#[test]
fn writes_the_remainder_as_the_dialect_does() {
    assert_eq!(
        run(Dialect::MySQL, "SELECT a % 2 FROM t"),
        text("SELECT (`t`.`a` % 2) FROM `db`.`t` AS `t`")
    );
    assert_eq!(
        run(Dialect::BigQuery, "SELECT a % 2 FROM t"),
        text("SELECT MOD(`t`.`a`, 2) FROM `db`.`t` AS `t`")
    );
    assert_eq!(
        run(Dialect::Oracle, "SELECT a % 2 FROM t"),
        text("SELECT MOD(\"t\".\"a\", 2) FROM \"db\".\"t\" \"t\"")
    );
}

#[test]
fn writes_every_kind_of_expression() {
    assert_eq!(
        run(
            Dialect::Postgres,
            "SELECT -a, NOT a = 1, a IS NULL, b IS NOT NULL, NULL, 1.5, a / b - 2 FROM t"
        ),
        Ok([
            "SELECT -(\"t\".\"a\"), NOT ((\"t\".\"a\" = 1)), (\"t\".\"a\") IS NULL, ",
            "(\"t\".\"b\") IS NOT NULL, NULL, 1.5, ((\"t\".\"a\" / \"t\".\"b\") - 2) ",
            "FROM \"db\".\"t\" AS \"t\"",
        ]
        .concat())
    );
}

#[test]
fn paginates_in_the_form_of_the_dialect() {
    let sql = "SELECT a FROM t ORDER BY a LIMIT 10 OFFSET 20";
    assert_eq!(
        run(Dialect::Postgres, sql),
        text("SELECT \"t\".\"a\" AS \"a\" FROM \"db\".\"t\" AS \"t\" ORDER BY \"t\".\"a\" LIMIT 10 OFFSET 20")
    );
    assert_eq!(
        run(Dialect::MSSQL, sql),
        text("SELECT [t].[a] AS [a] FROM [db].[t] AS [t] ORDER BY [t].[a] OFFSET 20 ROWS FETCH NEXT 10 ROWS ONLY")
    );
    assert_eq!(
        run(Dialect::Oracle, sql),
        text("SELECT \"t\".\"a\" AS \"a\" FROM \"db\".\"t\" \"t\" ORDER BY \"t\".\"a\" OFFSET 20 ROWS FETCH NEXT 10 ROWS ONLY")
    );
}

#[test]
fn a_limit_alone_is_top_in_sql_server() {
    assert_eq!(
        run(Dialect::MSSQL, "SELECT DISTINCT a FROM t LIMIT 3"),
        text("SELECT DISTINCT TOP 3 [t].[a] AS [a] FROM [db].[t] AS [t]")
    );
    assert_eq!(
        run(Dialect::Oracle, "SELECT a FROM t LIMIT 3"),
        text("SELECT \"t\".\"a\" AS \"a\" FROM \"db\".\"t\" \"t\" FETCH NEXT 3 ROWS ONLY")
    );
    assert_eq!(
        run(Dialect::Snowflake, "SELECT a FROM t LIMIT 3"),
        text("SELECT \"t\".\"a\" AS \"a\" FROM \"db\".\"t\" AS \"t\" LIMIT 3")
    );
}

#[test]
fn refuses_an_offset_that_the_dialect_cannot_write() {
    let sql = "SELECT a FROM t OFFSET 5";
    assert_eq!(run(Dialect::MSSQL, sql), cannot("OFFSET without ORDER BY", Dialect::MSSQL));
    assert_eq!(run(Dialect::MySQL, sql), cannot("OFFSET without LIMIT", Dialect::MySQL));
    assert_eq!(run(Dialect::BigQuery, sql), cannot("OFFSET without LIMIT", Dialect::BigQuery));
    assert_eq!(
        run(Dialect::Postgres, sql),
        text("SELECT \"t\".\"a\" AS \"a\" FROM \"db\".\"t\" AS \"t\" OFFSET 5")
    );
    assert_eq!(
        run(Dialect::Oracle, sql),
        text("SELECT \"t\".\"a\" AS \"a\" FROM \"db\".\"t\" \"t\" OFFSET 5 ROWS")
    );
    assert_eq!(
        run(Dialect::MSSQL, "SELECT a FROM t ORDER BY b DESC OFFSET 5"),
        text("SELECT [t].[a] AS [a] FROM [db].[t] AS [t] ORDER BY [t].[b] DESC OFFSET 5 ROWS")
    );
}

#[test]
fn keeps_letters_of_any_script() {
    assert_eq!(
        run(Dialect::Postgres, "SELECT a AS \"gr\u{f6}\u{df}e\" FROM t WHERE b = '\u{65e5}\u{672c}'"),
        text("SELECT \"t\".\"a\" AS \"gr\u{f6}\u{df}e\" FROM \"db\".\"t\" AS \"t\" WHERE (\"t\".\"b\" = '\u{65e5}\u{672c}')")
    );
}
