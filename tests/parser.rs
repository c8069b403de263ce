use sqlparser::ast::{
    BinaryOperator, Expr, Ident, JoinConstraint, JoinOperator, ObjectName, SelectItem, SetExpr,
    Statement, TableAlias, TableFactor, TableWithJoins, Value,
};
use sqlparser::dialect::{GenericDialect, MsSqlDialect, MySqlDialect, SnowflakeDialect};
use sqlparser::parser::{apply_outer_alias, parse_sql_statements, ParserError};

fn from_of(sql: &str) -> Vec<TableWithJoins> {
    let mut statements = parse_sql_statements(&GenericDialect {}, sql).unwrap();
    assert_eq!(statements.len(), 1);
    match statements.remove(0) {
        Statement::Query(query) => match query.body {
            SetExpr::Select(select) => select.from,
        },
        _ => panic!("not a query"),
    }
}

fn relation_of(sql: &str) -> TableFactor {
    let mut from = from_of(sql);
    assert_eq!(from.len(), 1);
    let t = from.remove(0);
    assert!(t.joins.is_empty());
    t.relation
}

fn alias(name: &str) -> TableAlias {
    TableAlias { name: Ident::new(name), columns: vec![] }
}

fn table(name: &str, a: Option<TableAlias>) -> TableFactor {
    TableFactor::Table { name: ObjectName(vec![Ident::new(name)]), alias: a }
}

fn parser_error(sql: &str) -> String {
    match parse_sql_statements(&GenericDialect {}, sql) {
        Err(ParserError::ParserError(m)) => m,
        other => panic!("unexpected result {:?}", other),
    }
}

#[test]
fn parentheses_around_a_table_are_dropped() {
    assert_eq!(relation_of("SELECT * FROM a"), table("a", None));
    assert_eq!(relation_of("SELECT * FROM (a)"), table("a", None));
    assert_eq!(relation_of("SELECT * FROM (((a)))"), table("a", None));
}

#[test]
fn one_alias_anywhere_in_the_layers_attaches_to_the_table() {
    let expected = table("a", Some(alias("x")));
    assert_eq!(relation_of("SELECT * FROM a x"), expected);
    assert_eq!(relation_of("SELECT * FROM (a x)"), expected);
    assert_eq!(relation_of("SELECT * FROM ((a)) x"), expected);
    assert_eq!(relation_of("SELECT * FROM ((a) AS x)"), expected);
    assert_eq!(relation_of("SELECT * FROM (((a x)))"), expected);
}

#[test]
fn derived_table_in_one_or_three_pairs_of_parentheses() {
    assert_eq!(
        relation_of("SELECT * FROM ((SELECT 1) AS t)"),
        relation_of("SELECT * FROM (((SELECT 1) AS t))")
    );
    assert_eq!(
        relation_of("SELECT * FROM (SELECT 1) t"),
        relation_of("SELECT * FROM (((SELECT 1)) t)")
    );
    match relation_of("SELECT * FROM (SELECT 1) t") {
        TableFactor::Derived { lateral, alias: a, .. } => {
            assert!(!lateral);
            assert_eq!(a, Some(alias("t")));
        }
        other => panic!("unexpected {:?}", other),
    }
}

#[test]
fn extra_parentheses_around_a_join_tree_are_dropped() {
    assert_eq!(
        relation_of("SELECT * FROM ((a NATURAL JOIN b))"),
        relation_of("SELECT * FROM (a NATURAL JOIN b)")
    );
}

#[test]
fn duplicate_alias_names_the_first_alias() {
    assert_eq!(parser_error("SELECT * FROM (a b) c"), "duplicate alias b");
    assert_eq!(parser_error("SELECT * FROM ((a b)) c"), "duplicate alias b");
    assert_eq!(parser_error("SELECT * FROM ((a) b) c"), "duplicate alias b");
    assert_eq!(parser_error("SELECT * FROM (a AS b (x, y)) c"), "duplicate alias b (x, y)");
    assert_eq!(parser_error("SELECT * FROM ((SELECT 1) s) t"), "duplicate alias s");
}

#[test]
fn join_tree_takes_no_alias() {
    assert_eq!(
        parser_error("SELECT * FROM (a NATURAL JOIN b) c"),
        "Expected end of statement, found: c"
    );
    assert_eq!(
        parser_error("SELECT * FROM (a NATURAL JOIN b) AS c"),
        "Expected end of statement, found: AS"
    );
}

#[test]
fn join_kinds_and_conditions() {
    let from = from_of(
        "SELECT * FROM a JOIN b ON a.id = b.id LEFT OUTER JOIN c USING (id) CROSS JOIN d \
         RIGHT JOIN e ON TRUE FULL JOIN f ON x <> 1 NATURAL LEFT JOIN g",
    );
    assert_eq!(from.len(), 1);
    let joins = &from[0].joins;
    assert_eq!(joins.len(), 6);
    assert_eq!(joins[0].relation, table("b", None));
    assert_eq!(
        joins[0].join_operator,
        JoinOperator::Inner(JoinConstraint::On(Expr::BinaryOp {
            left: Box::new(Expr::CompoundIdentifier(vec![Ident::new("a"), Ident::new("id")])),
            op: BinaryOperator::Eq,
            right: Box::new(Expr::CompoundIdentifier(vec![Ident::new("b"), Ident::new("id")])),
        }))
    );
    assert_eq!(
        joins[1].join_operator,
        JoinOperator::LeftOuter(JoinConstraint::Using(vec![Ident::new("id")]))
    );
    assert_eq!(joins[2].join_operator, JoinOperator::CrossJoin);
    assert_eq!(
        joins[3].join_operator,
        JoinOperator::RightOuter(JoinConstraint::On(Expr::Value(Value::Boolean(true))))
    );
    assert!(matches!(joins[4].join_operator, JoinOperator::FullOuter(JoinConstraint::On(_))));
    assert_eq!(joins[5].join_operator, JoinOperator::LeftOuter(JoinConstraint::Natural));
    assert_eq!(joins[5].relation, table("g", None));
}

#[test]
fn from_list_keeps_its_order() {
    let from = from_of("SELECT * FROM c, a, b");
    let names: Vec<TableFactor> = from.into_iter().map(|t| t.relation).collect();
    assert_eq!(names, vec![table("c", None), table("a", None), table("b", None)]);
}

#[test]
fn join_needs_a_condition() {
    assert_eq!(
        parser_error("SELECT * FROM a JOIN b"),
        "Expected ON, or USING after JOIN, found: EOF"
    );
    assert_eq!(
        parser_error("SELECT * FROM a NATURAL b"),
        "Expected a join type after NATURAL, found: b"
    );
}

#[test]
fn grammar_errors() {
    assert_eq!(parser_error("SELECT * FROM"), "Expected identifier, found: EOF");
    assert_eq!(parser_error("SELECT * FROM (a"), "Expected ), found: EOF");
    assert_eq!(parser_error("DROP TABLE a"), "Expected an SQL statement, found: DROP");
    assert_eq!(parser_error("SELECT * FROM a AS"), "Expected an identifier after AS, found: EOF");
    assert_eq!(parser_error("SELECT 1 2"), "Expected end of statement, found: 2");
    assert_eq!(parser_error("SELECT"), "Expected an expression:, found: EOF");
}

#[test]
fn lexical_errors() {
    assert_eq!(
        parse_sql_statements(&GenericDialect {}, "SELECT 'abc"),
        Err(ParserError::TokenizerError("Unterminated string literal".to_string()))
    );
    assert_eq!(
        parse_sql_statements(&GenericDialect {}, "SELECT \"abc"),
        Err(ParserError::TokenizerError("Expected close delimiter '\"' before EOF.".to_string()))
    );
    assert_eq!(
        parse_sql_statements(&GenericDialect {}, "SELECT ?"),
        Err(ParserError::TokenizerError("Unexpected character '?'".to_string()))
    );
}

#[test]
fn empty_and_separated_input() {
    assert_eq!(parse_sql_statements(&GenericDialect {}, ""), Ok(vec![]));
    assert_eq!(parse_sql_statements(&GenericDialect {}, " ;; "), Ok(vec![]));
    let statements = parse_sql_statements(&GenericDialect {}, "SELECT 1; SELECT 2;").unwrap();
    assert_eq!(statements.len(), 2);
}

#[test]
fn keywords_in_any_case() {
    assert_eq!(
        relation_of("select * from (a natural join (b))"),
        relation_of("SELECT * FROM (a NATURAL JOIN (b))")
    );
}

#[test]
fn select_items_and_where() {
    let mut statements =
        parse_sql_statements(&GenericDialect {}, "SELECT a AS x, b y, 1 + 2 * 3 FROM t WHERE a > 1 AND b = 'q'")
            .unwrap();
    let query = match statements.remove(0) {
        Statement::Query(q) => q,
        _ => panic!("not a query"),
    };
    let SetExpr::Select(select) = query.body;
    assert_eq!(select.projection.len(), 3);
    assert_eq!(
        select.projection[0],
        SelectItem::ExprWithAlias { expr: Expr::Identifier(Ident::new("a")), alias: Ident::new("x") }
    );
    assert_eq!(
        select.projection[1],
        SelectItem::ExprWithAlias { expr: Expr::Identifier(Ident::new("b")), alias: Ident::new("y") }
    );
    let one = Expr::Value(Value::Number("1".to_string()));
    let product = Expr::BinaryOp {
        left: Box::new(Expr::Value(Value::Number("2".to_string()))),
        op: BinaryOperator::Multiply,
        right: Box::new(Expr::Value(Value::Number("3".to_string()))),
    };
    assert_eq!(
        select.projection[2],
        SelectItem::UnnamedExpr(Expr::BinaryOp {
            left: Box::new(one),
            op: BinaryOperator::Plus,
            right: Box::new(product),
        })
    );
    match select.selection {
        Some(Expr::BinaryOp { op, .. }) => assert_eq!(op, BinaryOperator::And),
        other => panic!("unexpected {:?}", other),
    }
}

#[test]
fn quoted_identifiers_follow_the_dialect() {
    let from = from_of("SELECT * FROM \"my table\"");
    assert_eq!(
        from[0].relation,
        TableFactor::Table {
            name: ObjectName(vec![Ident::with_quote('"', "my table")]),
            alias: None,
        }
    );
    let statements = parse_sql_statements(&MySqlDialect {}, "SELECT * FROM `t`").unwrap();
    assert_eq!(statements.len(), 1);
    let statements = parse_sql_statements(&MsSqlDialect {}, "SELECT * FROM [t x]").unwrap();
    match &statements[0] {
        Statement::Query(q) => {
            let SetExpr::Select(s) = &q.body;
            match &s.from[0].relation {
                TableFactor::Table { name, .. } => assert_eq!(name.to_string(), "[t x]"),
                other => panic!("unexpected {:?}", other),
            }
        }
        _ => panic!("not a query"),
    }
}

#[test]
fn snowflake_identifier_is_rejected_by_other_rules() {
    assert!(parse_sql_statements(&SnowflakeDialect {}, "SELECT * FROM a$b").is_ok());
    assert!(parse_sql_statements(&sqlparser::dialect::AnsiDialect {}, "SELECT * FROM a$b").is_err());
}

#[test]
fn outer_alias_is_attached_or_rejected() {
    assert_eq!(apply_outer_alias(table("a", None), None), Ok(table("a", None)));
    assert_eq!(
        apply_outer_alias(table("a", None), Some(alias("c"))),
        Ok(table("a", Some(alias("c"))))
    );
    assert_eq!(
        apply_outer_alias(table("a", Some(alias("b"))), None),
        Ok(table("a", Some(alias("b"))))
    );
    assert_eq!(
        apply_outer_alias(table("a", Some(alias("b"))), Some(alias("c"))),
        Err(ParserError::ParserError("duplicate alias b".to_string()))
    );
}

#[test]
fn names_render_with_their_quotes() {
    let name = ObjectName(vec![Ident::with_quote('"', "s"), Ident::new("t"), Ident::with_quote('[', "u")]);
    assert_eq!(name.to_string(), "\"s\".t.[u]");
    assert_eq!(Ident::with_quote('`', "x").to_string(), "`x`");
}

#[test]
fn lateral_derived_table() {
    match relation_of("SELECT * FROM LATERAL (SELECT 1) AS s") {
        TableFactor::Derived { lateral, alias: a, .. } => {
            assert!(lateral);
            assert_eq!(a, Some(alias("s")));
        }
        other => panic!("unexpected {:?}", other),
    }
    assert_eq!(
        parser_error("SELECT * FROM LATERAL a"),
        "Expected subquery after LATERAL, found: a"
    );
}

#[test]
fn with_opens_a_subquery() {
    assert_eq!(
        parser_error("SELECT * FROM (WITH x AS (SELECT 1) SELECT * FROM x)"),
        "Expected SELECT, found: WITH"
    );
}

#[test]
fn join_tree_followed_by_a_word_is_an_end_of_statement_error() {
    assert_eq!(
        parser_error("SELECT * FROM ((a x) NATURAL JOIN b) c"),
        "Expected end of statement, found: c"
    );
    assert_eq!(
        parser_error("SELECT * FROM (a NATURAL JOIN b) WHERE"),
        "Expected an expression:, found: EOF"
    );
}
