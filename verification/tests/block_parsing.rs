use wren_core::ast::{
    BinaryOp, Expr, Join, JoinKind, NaryOp, Select, SelectItem, SetOp, SetStep, TableRef,
    TableSource,
};
use wren_core::lexer::{tokenize, LexKind, Lexeme};
use wren_core::parser::{Expected, SyntaxError};
use wren_core::query::{parse_expression_text, parse_query, parse_select, ParseError};

fn col(path: &[&str]) -> Expr {
    Expr::Column(path.iter().map(|s| s.to_string()).collect())
}

fn num(n: &str) -> Expr {
    Expr::Number(n.to_string())
}

fn read(text: &str) -> Expr {
    parse_expression_text(text).expect("an expression")
}

fn at(position: usize, column: u64, expected: Expected) -> Result<Expr, ParseError> {
    Err(ParseError::Syntax(SyntaxError { position, line: 1, column, ended: false, expected }))
}

fn after(position: usize, column: u64, expected: Expected) -> Result<Expr, ParseError> {
    Err(ParseError::Syntax(SyntaxError { position, line: 1, column, ended: true, expected }))
}

fn block(item: &str, table: &str) -> Select {
    Select {
        distinct: false,
        items: vec![SelectItem { expr: col(&[item]), alias: None }],
        from: TableRef { source: TableSource::Named(vec![table.to_string()]), alias: None },
        joins: Vec::new(),
        filter: None,
        group_by: Vec::new(),
        having: None,
        order_by: Vec::new(),
        limit: None,
        offset: None,
        blocks: Vec::new(),
        union_with: None,
    }
}

#[test]
fn reads_like_in_and_between_as_comparisons() {
    assert_eq!(
        read("a LIKE 'x%' AND b"),
        Expr::Binary(
            BinaryOp::And,
            Box::new(Expr::Binary(
                BinaryOp::Like,
                Box::new(col(&["a"])),
                Box::new(Expr::Text("x%".to_string()))
            )),
            Box::new(col(&["b"]))
        )
    );
    assert_eq!(
        read("a not like b"),
        Expr::Not(Box::new(Expr::Binary(
            BinaryOp::Like,
            Box::new(col(&["a"])),
            Box::new(col(&["b"]))
        )))
    );
    assert_eq!(
        read("a + 1 IN (1, b)"),
        Expr::Nary(
            NaryOp::In,
            vec![
                Expr::Binary(BinaryOp::Plus, Box::new(col(&["a"])), Box::new(num("1"))),
                num("1"),
                col(&["b"])
            ]
        )
    );
    assert_eq!(read("a NOT IN (1)"), Expr::Nary(NaryOp::NotIn, vec![col(&["a"]), num("1")]));
    assert_eq!(
        read("a BETWEEN 1 AND 2 + 3 AND c"),
        Expr::Binary(
            BinaryOp::And,
            Box::new(Expr::Nary(
                NaryOp::Between,
                vec![
                    col(&["a"]),
                    num("1"),
                    Expr::Binary(BinaryOp::Plus, Box::new(num("2")), Box::new(num("3")))
                ]
            )),
            Box::new(col(&["c"]))
        )
    );
    assert_eq!(
        read("a NOT BETWEEN 1 AND 2"),
        Expr::Nary(NaryOp::NotBetween, vec![col(&["a"]), num("1"), num("2")])
    );
}

#[test]
fn reads_case_with_and_without_an_operand() {
    assert_eq!(
        read("CASE WHEN a THEN 1 WHEN b THEN 2 ELSE 3 END"),
        Expr::Nary(
            NaryOp::Case,
            vec![col(&["a"]), num("1"), col(&["b"]), num("2"), num("3")]
        )
    );
    assert_eq!(
        read("case a when 1 then 'x' end"),
        Expr::Nary(NaryOp::CaseOf, vec![col(&["a"]), num("1"), Expr::Text("x".to_string())])
    );
}

#[test]
fn reads_cast_with_the_type_as_written() {
    assert_eq!(read("CAST(a AS int)"), Expr::Cast(Box::new(col(&["a"])), "int".to_string()));
    assert_eq!(
        read("CAST(a AS varchar(10))"),
        Expr::Cast(Box::new(col(&["a"])), "varchar(10)".to_string())
    );
    assert_eq!(
        read("CAST(a + 1 AS numeric(10,2))"),
        Expr::Cast(
            Box::new(Expr::Binary(BinaryOp::Plus, Box::new(col(&["a"])), Box::new(num("1")))),
            "numeric(10, 2)".to_string()
        )
    );
}

#[test]
fn says_what_a_test_a_case_or_a_cast_lacks() {
    assert_eq!(parse_expression_text("a BETWEEN 1 OR 2"), at(3, 13, Expected::And));
    assert_eq!(parse_expression_text("a IN 1"), at(2, 6, Expected::OpeningParen));
    assert_eq!(parse_expression_text("a IN (1, 2"), after(6, 10, Expected::ClosingParen));
    assert_eq!(parse_expression_text("a NOT 1"), at(1, 3, Expected::End));
    assert_eq!(parse_expression_text("CASE a THEN 1 END"), at(2, 8, Expected::When));
    assert_eq!(parse_expression_text("CASE WHEN a ELSE 1 END"), at(3, 13, Expected::Then));
    assert_eq!(parse_expression_text("CASE WHEN a THEN 1"), after(5, 18, Expected::EndOfCase));
    assert_eq!(parse_expression_text("CASE WHEN a THEN 1 ELSE 2"), after(7, 25, Expected::EndOfCase));
    assert_eq!(parse_expression_text("CAST a AS int)"), at(1, 6, Expected::OpeningParen));
    assert_eq!(parse_expression_text("CAST(a int)"), at(3, 8, Expected::As));
    assert_eq!(parse_expression_text("CAST(a AS 1)"), at(4, 11, Expected::Name));
    assert_eq!(parse_expression_text("CAST(a AS int(x))"), at(4, 11, Expected::Name));
    assert_eq!(parse_expression_text("CAST(a AS int"), after(5, 11, Expected::ClosingParen));
    assert_eq!(parse_expression_text("EXISTS (1)"), at(1, 8, Expected::Subquery));
}

#[test]
fn a_nested_block_stands_in_an_expression_by_its_place() {
    let parsed = parse_query(
        "SELECT (SELECT a FROM t) FROM u WHERE x IN (SELECT b FROM v) AND EXISTS (SELECT c FROM w)",
    )
    .expect("a query");
    assert_eq!(parsed.items, vec![SelectItem { expr: Expr::Subquery(0), alias: None }]);
    assert_eq!(
        parsed.filter,
        Some(Expr::Binary(
            BinaryOp::And,
            Box::new(Expr::Nary(NaryOp::In, vec![col(&["x"]), Expr::Subquery(1)])),
            Box::new(Expr::Nary(NaryOp::Exists, vec![Expr::Subquery(2)]))
        ))
    );
    assert_eq!(parsed.blocks, vec![block("a", "t"), block("b", "v"), block("c", "w")]);
}

#[test]
fn nested_blocks_nest() {
    let parsed = parse_query("SELECT a FROM (SELECT a FROM (SELECT a FROM t) AS x) y").expect("a query");
    assert_eq!(parsed.from, TableRef { source: TableSource::Block(0), alias: Some("y".to_string()) });
    assert_eq!(parsed.blocks.len(), 1);
    let inner = &parsed.blocks[0];
    assert_eq!(inner.from, TableRef { source: TableSource::Block(0), alias: Some("x".to_string()) });
    assert_eq!(inner.blocks, vec![block("a", "t")]);
}

#[test]
fn reads_joins_with_their_kinds() {
    let parsed = parse_query(
        "SELECT a FROM t JOIN u ON 1 INNER JOIN v AS w ON 2 LEFT JOIN x ON 3 \
         RIGHT OUTER JOIN y ON 4 FULL OUTER JOIN (SELECT a FROM z) q ON 5 WHERE b",
    )
    .expect("a query");
    let named = |name: &str, alias: Option<&str>| TableRef {
        source: TableSource::Named(vec![name.to_string()]),
        alias: alias.map(|s| s.to_string()),
    };
    assert_eq!(
        parsed.joins,
        vec![
            Join { kind: JoinKind::Inner, table: named("u", None), on: num("1") },
            Join { kind: JoinKind::Inner, table: named("v", Some("w")), on: num("2") },
            Join { kind: JoinKind::Left, table: named("x", None), on: num("3") },
            Join { kind: JoinKind::Right, table: named("y", None), on: num("4") },
            Join {
                kind: JoinKind::Full,
                table: TableRef { source: TableSource::Block(0), alias: Some("q".to_string()) },
                on: num("5")
            },
        ]
    );
    assert_eq!(parsed.filter, Some(col(&["b"])));
    assert_eq!(parsed.blocks, vec![block("a", "z")]);
}

#[test]
fn a_name_of_a_with_clause_stands_for_its_block() {
    let parsed = parse_query(
        "WITH one AS (SELECT a FROM t), two AS (SELECT b FROM u) \
         SELECT * FROM two JOIN one o ON 1 JOIN s.one ON 2 JOIN three ON 3",
    )
    .expect("a query");
    assert_eq!(parsed.blocks, vec![block("a", "t"), block("b", "u")]);
    assert_eq!(
        parsed.from,
        TableRef { source: TableSource::Block(1), alias: Some("two".to_string()) }
    );
    let tables: Vec<TableRef> = parsed.joins.into_iter().map(|j| j.table).collect();
    assert_eq!(
        tables,
        vec![
            TableRef { source: TableSource::Block(0), alias: Some("o".to_string()) },
            TableRef {
                source: TableSource::Named(vec!["s".to_string(), "one".to_string()]),
                alias: None
            },
            TableRef { source: TableSource::Named(vec!["three".to_string()]), alias: None },
        ]
    );
}

#[test]
fn what_follows_a_union_is_one_more_nested_block() {
    let parsed =
        parse_query("SELECT a FROM t WHERE a IN (SELECT b FROM u) UNION ALL SELECT c FROM v UNION SELECT d FROM w;")
            .expect("a query");
    assert_eq!(parsed.union_with, Some(SetStep { op: SetOp::Union, all: true, block: 1 }));
    assert_eq!(parsed.blocks.len(), 2);
    assert_eq!(parsed.blocks[0], block("b", "u"));
    let second = &parsed.blocks[1];
    assert_eq!(second.items, vec![SelectItem { expr: col(&["c"]), alias: None }]);
    assert_eq!(second.union_with, Some(SetStep { op: SetOp::Union, all: false, block: 1 }));
    let mut third = block("d", "w");
    third.blocks = vec![block("b", "u")];
    assert_eq!(second.blocks, vec![block("b", "u"), third]);
}

#[test]
fn says_what_a_join_a_with_clause_or_a_block_lacks() {
    let fault = |sql: &str| match parse_query(sql) {
        Err(ParseError::Syntax(e)) => (e.position, e.column, e.ended, e.expected),
        other => panic!("no syntax error: {:?}", other),
    };
    assert_eq!(fault("SELECT a FROM t JOIN u"), (6, 22, true, Expected::On));
    assert_eq!(fault("SELECT a FROM t JOIN ON 1"), (5, 22, false, Expected::Name));
    assert_eq!(fault("SELECT a FROM t INNER u ON 1"), (5, 23, false, Expected::Join));
    assert_eq!(fault("SELECT a FROM t LEFT OUTER u ON 1"), (6, 28, false, Expected::Join));
    assert_eq!(fault("SELECT a FROM t JOIN u ON"), (7, 24, true, Expected::Expression));
    assert_eq!(fault("WITH AS (SELECT a FROM t) SELECT a FROM t"), (1, 6, false, Expected::Name));
    assert_eq!(fault("WITH x (SELECT a FROM t) SELECT a FROM t"), (2, 8, false, Expected::As));
    assert_eq!(fault("WITH x AS t SELECT a FROM t"), (3, 11, false, Expected::Subquery));
    assert_eq!(fault("WITH x AS (SELECT a FROM t) UPDATE"), (4, 29, false, Expected::Select));
    assert_eq!(fault("SELECT a FROM (SELECT a FROM t"), (8, 30, true, Expected::ClosingParen));
    assert_eq!(fault("SELECT a FROM (SELECT a t) x"), (3, 25, true, Expected::From));
    assert_eq!(fault("SELECT a FROM t UNION"), (0, 0, true, Expected::Select));
    assert_eq!(fault("SELECT a FROM t UNION ALL UPDATE"), (0, 27, false, Expected::Select));
}

#[test]
fn a_block_lexeme_is_read_as_the_nested_block_it_names() {
    let mut tokens = tokenize("SELECT a FROM t WHERE a IN").expect("lexemes");
    tokens.push(Lexeme {
        kind: LexKind::Block,
        quote: None,
        text: String::new(),
        line: 1,
        column: 28,
        block: 7,
    });
    let parsed = parse_select(&tokens).expect("a query");
    assert_eq!(parsed.filter, Some(Expr::Nary(NaryOp::In, vec![col(&["a"]), Expr::Subquery(7)])));
    assert!(parsed.blocks.is_empty());
}

#[test]
fn a_number_keeps_its_spelling() {
    let kinds_and_texts = |sql: &str| -> Vec<(LexKind, String)> {
        tokenize(sql).expect("lexemes").into_iter().map(|l| (l.kind, l.text)).collect()
    };
    assert_eq!(
        kinds_and_texts("10L 1.5 007"),
        vec![
            (LexKind::Number, "10L".to_string()),
            (LexKind::Number, "1.5".to_string()),
            (LexKind::Number, "007".to_string()),
        ]
    );
    assert_eq!(read("10L + 1"), Expr::Binary(BinaryOp::Plus, Box::new(num("10L")), Box::new(num("1"))));
}

#[test]
fn reads_every_set_operation() {
    let steps = |sql: &str| {
        let q = parse_query(sql).expect("a query");
        (q.union_with, q.blocks.len())
    };
    assert_eq!(
        steps("SELECT a FROM t INTERSECT SELECT a FROM u"),
        (Some(SetStep { op: SetOp::Intersect, all: false, block: 0 }), 1)
    );
    assert_eq!(
        steps("SELECT a FROM t except all SELECT a FROM u"),
        (Some(SetStep { op: SetOp::Except, all: true, block: 0 }), 1)
    );
    assert_eq!(steps("SELECT a FROM t"), (None, 0));
}

#[test]
fn a_cross_join_has_no_condition() {
    let parsed = parse_query("SELECT a FROM t, u CROSS JOIN v x").expect("a query");
    let named = |name: &str, alias: Option<&str>| TableRef {
        source: TableSource::Named(vec![name.to_string()]),
        alias: alias.map(|s| s.to_string()),
    };
    assert_eq!(
        parsed.joins,
        vec![
            Join { kind: JoinKind::Cross, table: named("u", None), on: Expr::Bool(true) },
            Join { kind: JoinKind::Cross, table: named("v", Some("x")), on: Expr::Bool(true) },
        ]
    );
    assert_eq!(
        parse_query("SELECT a FROM t CROSS u").err(),
        Some(ParseError::Syntax(SyntaxError {
            position: 5,
            line: 1,
            column: 23,
            ended: false,
            expected: Expected::Join,
        }))
    );
    assert_eq!(
        parse_query("SELECT a FROM t,").err(),
        Some(ParseError::Syntax(SyntaxError {
            position: 5,
            line: 1,
            column: 16,
            ended: true,
            expected: Expected::Name,
        }))
    );
}

#[test]
fn a_wildcard_after_a_name_is_held_under_that_name() {
    let parsed = parse_query("SELECT t.*, *, a FROM t").expect("a query");
    assert_eq!(
        parsed.items,
        vec![
            SelectItem { expr: Expr::Wildcard, alias: Some("t".to_string()) },
            SelectItem { expr: Expr::Wildcard, alias: None },
            SelectItem { expr: col(&["a"]), alias: None },
        ]
    );
}
