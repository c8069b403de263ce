use sqlparser::ast::{
    Ident, Join, JoinConstraint, JoinOperator, ObjectName, Query, SetExpr, Statement, TableAlias,
    TableFactor, TableWithJoins,
};
use sqlparser::dialect::{GenericDialect, SnowflakeDialect};
use sqlparser::parser::{parse_sql_statements, ParserError};

fn table_alias(alias: &str) -> TableAlias {
    TableAlias {
        name: Ident {
            value: alias.to_owned(),
            quote_style: None,
        },
        columns: Vec::new(),
    }
}

fn table(name: &str, alias: Option<TableAlias>) -> TableFactor {
    TableFactor::Table {
        name: ObjectName(vec![Ident::new(name)]),
        alias,
    }
}

fn nest(base: TableFactor, joined: Vec<TableFactor>) -> TableFactor {
    TableFactor::NestedJoin(Box::new(TableWithJoins {
        relation: base,
        joins: joined
            .into_iter()
            .map(|relation| Join {
                relation,
                join_operator: JoinOperator::Inner(JoinConstraint::Natural),
            })
            .collect(),
    }))
}

fn snowflake_query(sql: &str) -> Box<Query> {
    let mut statements = parse_sql_statements(&SnowflakeDialect {}, sql).unwrap();
    assert_eq!(statements.len(), 1);
    match statements.remove(0) {
        Statement::Query(query) => query,
        _ => panic!("Not a query"),
    }
}

fn get_from_section_from_select_query(query: &str) -> Vec<TableWithJoins> {
    let query = snowflake_query(query);
    match query.body {
        SetExpr::Select(select) => select.from,
    }
}

#[test]
fn test_snowflake_create_table() {
    let sql = "CREATE TABLE _my_$table (am00unt number)";
    let snowflake = parse_sql_statements(&SnowflakeDialect {}, sql).unwrap();
    let generic = parse_sql_statements(&GenericDialect {}, sql).unwrap();
    assert_eq!(snowflake, generic);
    match &snowflake[0] {
        Statement::CreateTable { name, .. } => {
            assert_eq!("_my_$table", name.to_string());
        }
        _ => unreachable!(),
    }
}

#[test]
fn test_sf_derives_single_table_in_parenthesis() {
    let from = get_from_section_from_select_query("SELECT * FROM (((SELECT 1) AS t))");

    assert_eq!(
        from[0].relation,
        TableFactor::Derived {
            lateral: false,
            subquery: snowflake_query("SELECT 1"),
            alias: Some(TableAlias {
                name: Ident::new("t"),
                columns: vec![],
            })
        }
    );
}

#[test]
fn test_single_table_in_parenthesis() {
    let from = get_from_section_from_select_query("SELECT * FROM (a NATURAL JOIN (b))");

    assert_eq!(from[0].relation, nest(table("a", None), vec![table("b", None)]));

    let from = get_from_section_from_select_query("SELECT * FROM (a NATURAL JOIN ((b)))");
    assert_eq!(from[0].relation, nest(table("a", None), vec![table("b", None)]));
}

#[test]
fn test_single_table_in_parenthesis_with_alias() {
    let expected = || nest(table("a", None), vec![table("b", Some(table_alias("c")))]);

    let sql = "SELECT * FROM (a NATURAL JOIN (b) c )";
    let table_with_joins = get_from_section_from_select_query(sql).remove(0);
    assert_eq!(table_with_joins.relation, expected());

    let sql = "SELECT * FROM (a NATURAL JOIN ((b)) c )";
    let table_with_joins = get_from_section_from_select_query(sql).remove(0);
    assert_eq!(table_with_joins.relation, expected());

    let sql = "SELECT * FROM (a NATURAL JOIN ( (b) c ) )";
    let table_with_joins = get_from_section_from_select_query(sql).remove(0);
    assert_eq!(table_with_joins.relation, expected());

    let sql = "SELECT * FROM (a NATURAL JOIN ( (b) as c ) )";
    let table_with_joins = get_from_section_from_select_query(sql).remove(0);
    assert_eq!(table_with_joins.relation, expected());

    let sql = "SELECT * FROM (a alias1 NATURAL JOIN ( (b) c ) )";
    let table_with_joins = get_from_section_from_select_query(sql).remove(0);
    assert_eq!(
        table_with_joins.relation,
        nest(
            table("a", Some(table_alias("alias1"))),
            vec![table("b", Some(table_alias("c")))]
        )
    );

    let sql = "SELECT * FROM (a as alias1 NATURAL JOIN ( (b) as c ) )";
    let table_with_joins = get_from_section_from_select_query(sql).remove(0);
    assert_eq!(
        table_with_joins.relation,
        nest(
            table("a", Some(table_alias("alias1"))),
            vec![table("b", Some(table_alias("c")))]
        )
    );

    let res = parse_sql_statements(&SnowflakeDialect {}, "SELECT * FROM (a NATURAL JOIN b) c");
    assert_eq!(
        ParserError::ParserError("Expected end of statement, found: c".to_string()),
        res.unwrap_err()
    );

    let res = parse_sql_statements(&SnowflakeDialect {}, "SELECT * FROM (a b) c");
    assert_eq!(
        ParserError::ParserError("duplicate alias b".to_string()),
        res.unwrap_err()
    );
}
