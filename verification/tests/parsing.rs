use wren_core::ast::{BinaryOp, Expr, OrderItem, Select, SelectItem, TableRef, TableSource};
use wren_core::dialect::{dialect_from_lowercase, parse_dialect, Dialect};
use wren_core::lexer::{tokenize, LexKind, Lexeme};
use wren_core::parser::{Expected, SyntaxError};
use wren_core::query::{parse_expression_text, parse_query, ParseError};
use wren_core::text::{folded_match, same_text};

fn column(path: &[&str]) -> Expr {
    Expr::Column(path.iter().map(|s| s.to_string()).collect())
}

fn number(n: &str) -> Expr {
    Expr::Number(n.to_string())
}

fn binary(op: BinaryOp, a: Expr, b: Expr) -> Expr {
    Expr::Binary(op, Box::new(a), Box::new(b))
}

fn expression(text: &str) -> Expr {
    parse_expression_text(text).expect("an expression")
}

#[test]
fn parse_dialect_knows_every_supported_name() {
    let cases = [
        ("bigquery", Dialect::BigQuery),
        ("mysql", Dialect::MySQL),
        ("postgres", Dialect::Postgres),
        ("postgresql", Dialect::Postgres),
        ("snowflake", Dialect::Snowflake),
        ("mssql", Dialect::MSSQL),
        ("sqlserver", Dialect::MSSQL),
        ("trino", Dialect::Trino),
        ("clickhouse", Dialect::Clickhouse),
        ("canner", Dialect::Canner),
        ("datafusion", Dialect::Datafusion),
        ("duckdb", Dialect::DuckDB),
        ("oracle", Dialect::Oracle),
    ];
    for (name, dialect) in cases {
        assert_eq!(parse_dialect(name).ok(), Some(dialect), "{}", name);
        assert_eq!(dialect_from_lowercase(name), Some(dialect), "{}", name);
    }
}

#[test]
fn parse_dialect_ignores_case() {
    assert_eq!(parse_dialect("BigQuery").ok(), Some(Dialect::BigQuery));
    assert_eq!(parse_dialect("POSTGRESQL").ok(), Some(Dialect::Postgres));
    assert_eq!(parse_dialect("SqlServer").ok(), Some(Dialect::MSSQL));
    // a name that is already in lowercase is required where no case is folded
    assert_eq!(dialect_from_lowercase("BigQuery"), None);
}

#[test]
fn parse_dialect_folds_case_as_str_does() {
    // the Kelvin sign is a capital letter whose lowercase form is `k`
    assert_eq!(parse_dialect("clic\u{212A}house").ok(), Some(Dialect::Clickhouse));
    assert!(parse_dialect("clic\u{212B}house").is_err());
}

#[test]
fn parse_dialect_rejects_other_names() {
    let e = parse_dialect("DB2").expect_err("unsupported");
    assert_eq!(e.name, "DB2");
    assert_eq!(
        e.message(),
        "Unsupported dialect: DB2. Supported dialects: bigquery, mysql, postgres, snowflake, mssql, trino, clickhouse, canner, datafusion, duckdb, oracle"
    );
    assert!(parse_dialect("").is_err());
    assert!(parse_dialect("postgres ").is_err());
}

#[test]
fn compares_text_exactly_and_folded() {
    assert!(same_text("abc", "abc"));
    assert!(!same_text("abc", "abC"));
    assert!(!same_text("abc", "abcd"));
    assert!(folded_match("SeLeCt", "select"));
    assert!(folded_match("", ""));
    assert!(!folded_match("select", "selec"));
    assert!(!folded_match("a_b", "a-b"));
    // only the letters a to z are folded
    assert!(!folded_match("é", "É"));
    assert!(!folded_match("@", "`"));
}

#[test]
fn tokenize_cuts_text_and_drops_white_space() {
    let lexeme = |kind: LexKind, quote: Option<char>, text: &str, line: u64, column: u64| Lexeme {
        kind,
        quote,
        text: text.to_string(),
        line,
        column,
        block: 0,
    };
    assert_eq!(
        tokenize("SELECT a.\"b c\" ,\n 'x''y' <= 1.5 -- done").ok(),
        Some(vec![
            lexeme(LexKind::Word, None, "SELECT", 1, 1),
            lexeme(LexKind::Word, None, "a", 1, 8),
            lexeme(LexKind::Symbol, None, ".", 1, 9),
            lexeme(LexKind::Word, Some('"'), "b c", 1, 10),
            lexeme(LexKind::Symbol, None, ",", 1, 16),
            lexeme(LexKind::Text, None, "x'y", 2, 2),
            lexeme(LexKind::Symbol, None, "<=", 2, 9),
            lexeme(LexKind::Number, None, "1.5", 2, 12),
        ])
    );
    assert_eq!(tokenize("  \n\t ").ok(), Some(Vec::new()));
    assert_eq!(
        tokenize("a != b").ok(),
        Some(vec![
            lexeme(LexKind::Word, None, "a", 1, 1),
            lexeme(LexKind::Symbol, None, "<>", 1, 3),
            lexeme(LexKind::Word, None, "b", 1, 6),
        ])
    );
}

#[test]
fn operators_bind_by_strength_and_group_to_the_left() {
    assert_eq!(
        expression("a + b * 2 - c"),
        binary(
            BinaryOp::Minus,
            binary(BinaryOp::Plus, column(&["a"]), binary(BinaryOp::Multiply, column(&["b"]), number("2"))),
            column(&["c"])
        )
    );
    assert_eq!(
        expression("a = 1 OR b < 2 AND NOT c >= 3"),
        binary(
            BinaryOp::Or,
            binary(BinaryOp::Eq, column(&["a"]), number("1")),
            binary(
                BinaryOp::And,
                binary(BinaryOp::Lt, column(&["b"]), number("2")),
                Expr::Not(Box::new(binary(BinaryOp::GtEq, column(&["c"]), number("3"))))
            )
        )
    );
    assert_eq!(
        expression("-(a + 1) % 2"),
        binary(
            BinaryOp::Modulo,
            Expr::Negate(Box::new(binary(BinaryOp::Plus, column(&["a"]), number("1")))),
            number("2")
        )
    );
}

#[test]
fn parses_literals_paths_calls_and_null_tests() {
    assert_eq!(expression("NULL"), Expr::Null);
    assert_eq!(expression("true"), Expr::Bool(true));
    assert_eq!(expression("False"), Expr::Bool(false));
    assert_eq!(expression("'it''s'"), Expr::Text("it's".to_string()));
    assert_eq!(expression("a.b.c"), column(&["a", "b", "c"]));
    assert_eq!(expression("\"select\".\"from\""), column(&["select", "from"]));
    assert_eq!(expression("now()"), Expr::Call("now".to_string(), false, Vec::new()));
    assert_eq!(expression("count(*)"), Expr::Call("count".to_string(), false, vec![Expr::Wildcard]));
    assert_eq!(
        expression("count(DISTINCT a.b, 1)"),
        Expr::Call("count".to_string(), true, vec![column(&["a", "b"]), number("1")])
    );
    assert_eq!(expression("a IS NULL"), Expr::IsNull(Box::new(column(&["a"])), false));
    assert_eq!(
        expression("a + 1 IS NOT NULL AND b"),
        binary(
            BinaryOp::And,
            Expr::IsNull(Box::new(binary(BinaryOp::Plus, column(&["a"]), number("1"))), true),
            column(&["b"])
        )
    );
}

#[test]
fn rejects_what_is_no_expression() {
    let at = |position: usize, line: u64, column: u64, expected: Expected| {
        Err(ParseError::Syntax(SyntaxError { position, line, column, ended: false, expected }))
    };
    let after = |position: usize, line: u64, column: u64, expected: Expected| {
        Err(ParseError::Syntax(SyntaxError { position, line, column, ended: true, expected }))
    };
    assert_eq!(parse_expression_text(""), after(0, 0, 0, Expected::Expression));
    assert_eq!(parse_expression_text("a +"), after(2, 1, 3, Expected::Expression));
    assert_eq!(parse_expression_text("(a"), after(2, 1, 2, Expected::ClosingParen));
    assert_eq!(parse_expression_text("f(a, b"), after(5, 1, 6, Expected::ClosingParen));
    assert_eq!(parse_expression_text("a IS 1"), at(2, 1, 6, Expected::Null));
    assert_eq!(parse_expression_text("a b"), at(1, 1, 3, Expected::End));
    assert_eq!(parse_expression_text("select"), at(0, 1, 1, Expected::Expression));
}

#[test]
fn parses_every_clause_of_a_query_block() {
    let parsed = parse_query(
        "SELECT DISTINCT a AS x, t.b y, count(*) FROM s.t AS t WHERE a > 1 GROUP BY a, t.b \
         HAVING count(*) > 2 ORDER BY x DESC, y ASC, a LIMIT 10 OFFSET 5;",
    );
    let count = || Expr::Call("count".to_string(), false, vec![Expr::Wildcard]);
    assert_eq!(
        parsed,
        Ok(Select {
            distinct: true,
            items: vec![
                SelectItem { expr: column(&["a"]), alias: Some("x".to_string()) },
                SelectItem { expr: column(&["t", "b"]), alias: Some("y".to_string()) },
                SelectItem { expr: count(), alias: None },
            ],
            from: TableRef {
                source: TableSource::Named(vec!["s".to_string(), "t".to_string()]),
                alias: Some("t".to_string()),
            },
            joins: Vec::new(),
            filter: Some(binary(BinaryOp::Gt, column(&["a"]), number("1"))),
            group_by: vec![column(&["a"]), column(&["t", "b"])],
            having: Some(binary(BinaryOp::Gt, count(), number("2"))),
            order_by: vec![
                OrderItem { expr: column(&["x"]), descending: true },
                OrderItem { expr: column(&["y"]), descending: false },
                OrderItem { expr: column(&["a"]), descending: false },
            ],
            limit: Some("10".to_string()),
            offset: Some("5".to_string()),
            blocks: Vec::new(),
            union_with: None,
        })
    );
}

#[test]
fn parses_the_smallest_query_block() {
    assert_eq!(
        parse_query("select * from t"),
        Ok(Select {
            distinct: false,
            items: vec![SelectItem { expr: Expr::Wildcard, alias: None }],
            from: TableRef { source: TableSource::Named(vec!["t".to_string()]), alias: None },
            joins: Vec::new(),
            filter: None,
            group_by: Vec::new(),
            having: None,
            order_by: Vec::new(),
            limit: None,
            offset: None,
            blocks: Vec::new(),
            union_with: None,
        })
    );
}

#[test]
fn rejects_what_is_no_query_block() {
    let at = |position: usize, line: u64, column: u64, expected: Expected| {
        Err(ParseError::Syntax(SyntaxError { position, line, column, ended: false, expected }))
    };
    let after = |position: usize, line: u64, column: u64, expected: Expected| {
        Err(ParseError::Syntax(SyntaxError { position, line, column, ended: true, expected }))
    };
    assert_eq!(parse_query(""), after(0, 0, 0, Expected::Select));
    assert_eq!(parse_query("UPDATE t"), at(0, 1, 1, Expected::Select));
    assert_eq!(parse_query("SELECT a"), after(2, 1, 8, Expected::From));
    assert_eq!(parse_query("SELECT a FROM"), after(3, 1, 10, Expected::Name));
    assert_eq!(parse_query("SELECT a FROM t GROUP a"), at(5, 1, 23, Expected::By));
    assert_eq!(parse_query("SELECT a FROM t ORDER a"), at(5, 1, 23, Expected::By));
    assert_eq!(parse_query("SELECT a FROM t OFFSET x"), at(5, 1, 24, Expected::Number));
    assert_eq!(parse_query("SELECT a FROM t WHERE"), after(5, 1, 17, Expected::Expression));
    assert_eq!(parse_query("SELECT a FROM t ; SELECT"), at(5, 1, 19, Expected::End));
}
