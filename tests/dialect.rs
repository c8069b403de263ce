use sqlparser::dialect::{
    AnsiDialect, Dialect, GenericDialect, MsSqlDialect, MySqlDialect, PostgreSqlDialect,
    SQLiteDialect, SnowflakeDialect,
};

#[test]
fn test_is_diaclect() {
    let generic_dailect = GenericDialect {};

    assert_eq!(generic_dailect.is_dialect(vec!["generic"]), true);
    assert_eq!(generic_dailect.is_dialect(vec!["generic", "mssql"]), true);
    assert_eq!(generic_dailect.is_dialect(vec!["mssql"]), false);
    assert_eq!(generic_dailect.is_dialect(vec!["mssql", "mysql"]), false);
}

#[test]
fn is_dialect_on_empty_list_is_false() {
    assert!(!GenericDialect {}.is_dialect(vec![]));
}

#[test]
fn is_dialect_needs_exact_name() {
    assert!(!GenericDialect {}.is_dialect(vec!["gener", "generics", "GENERIC"]));
    assert!(SnowflakeDialect {}.is_dialect(vec!["mysql", "snowflake"]));
}

#[test]
fn dialect_names() {
    assert_eq!(GenericDialect {}.dialect_name(), "generic");
    assert_eq!(AnsiDialect {}.dialect_name(), "ansi");
    assert_eq!(MsSqlDialect {}.dialect_name(), "mssql");
    assert_eq!(MySqlDialect {}.dialect_name(), "mysql");
    assert_eq!(PostgreSqlDialect {}.dialect_name(), "postgresql");
    assert_eq!(SnowflakeDialect {}.dialect_name(), "snowflake");
    assert_eq!(SQLiteDialect {}.dialect_name(), "sqlite");
}

#[test]
fn delimited_identifier_starts() {
    assert!(GenericDialect {}.is_delimited_identifier_start('"'));
    assert!(!GenericDialect {}.is_delimited_identifier_start('`'));
    assert!(MySqlDialect {}.is_delimited_identifier_start('`'));
    assert!(!MySqlDialect {}.is_delimited_identifier_start('"'));
    assert!(MsSqlDialect {}.is_delimited_identifier_start('['));
    assert!(SQLiteDialect {}.is_delimited_identifier_start('`'));
    assert!(SQLiteDialect {}.is_delimited_identifier_start('"'));
}

#[test]
fn snowflake_identifier_characters() {
    let d = SnowflakeDialect {};
    assert!(d.is_identifier_start('_'));
    assert!(!d.is_identifier_start('$'));
    assert!(d.is_identifier_part('$'));
    assert!(!d.is_identifier_start('1'));
    assert!(d.is_identifier_part('1'));
    let a = AnsiDialect {};
    assert!(!a.is_identifier_start('_'));
    assert!(!a.is_identifier_part('$'));
}
