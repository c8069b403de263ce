use vstd::prelude::*;

verus! {

/// Whether `ch` is an ASCII letter.
pub open spec fn is_ascii_letter(ch: char) -> bool {
    ('a' <= ch && ch <= 'z') || ('A' <= ch && ch <= 'Z')
}

/// Whether `ch` is an ASCII decimal digit.
pub open spec fn is_ascii_digit(ch: char) -> bool {
    '0' <= ch && ch <= '9'
}

/// Whether some name in `names` is `name`.
pub open spec fn names_contain(names: Seq<&str>, name: Seq<char>) -> bool {
    exists|i: int| 0 <= i < names.len() && (#[trigger] names[i])@ == name
}

/// Compares two strings character by character.
pub fn str_eq(a: &str, b: &str) -> (r: bool)
    ensures
        r == (a@ == b@),
{
    let n = a.unicode_len();
    if n != b.unicode_len() {
        return false;
    }
    let mut i: usize = 0;
    while i < n
        invariant
            n == a@.len(),
            n == b@.len(),
            i <= n,
            a@.subrange(0, i as int) == b@.subrange(0, i as int),
        decreases n - i,
    {
        if a.get_char(i) != b.get_char(i) {
            return false;
        }
        assert(a@.subrange(0, i + 1) == a@.subrange(0, i as int).push(a@[i as int]));
        assert(b@.subrange(0, i + 1) == b@.subrange(0, i as int).push(b@[i as int]));
        i = i + 1;
    }
    assert(a@ == a@.subrange(0, n as int));
    assert(b@ == b@.subrange(0, n as int));
    true
}

/// Character classification and naming rules of one SQL dialect. A dialect
/// is immutable: every method is a pure function of its arguments.
pub trait Dialect {
    /// The dialect's name, as `dialect_name` returns it.
    spec fn spec_name(&self) -> Seq<char>;

    /// Whether `ch` may start an unquoted identifier.
    spec fn spec_identifier_start(&self, ch: char) -> bool;

    /// Whether `ch` may continue an unquoted identifier.
    spec fn spec_identifier_part(&self, ch: char) -> bool;

    /// Whether `ch` opens a quoted identifier.
    spec fn spec_delimited_start(&self, ch: char) -> bool;

    /// Determine if a character starts a quoted identifier. Most dialects
    /// accept "double quoted" identifiers, as ANSI SQL does.
    fn is_delimited_identifier_start(&self, ch: char) -> (r: bool)
        ensures
            r == self.spec_delimited_start(ch),
    ;

    /// Determine if a character is a valid start character for an unquoted identifier.
    fn is_identifier_start(&self, ch: char) -> (r: bool)
        ensures
            r == self.spec_identifier_start(ch),
    ;

    /// Determine if a character is a valid unquoted identifier character.
    fn is_identifier_part(&self, ch: char) -> (r: bool)
        ensures
            r == self.spec_identifier_part(ch),
    ;

    /// The name of the dialect.
    fn dialect_name(&self) -> (r: &'static str)
        ensures
            r@ == self.spec_name(),
    ;

    /// Lets the parser implement dialect specific behaviour: true exactly
    /// when this dialect's name is one of `dialects`.
    fn is_dialect(&self, dialects: Vec<&str>) -> (r: bool)
        ensures
            r == names_contain(dialects@, self.spec_name()),
    {
        let name = self.dialect_name();
        let mut i: usize = 0;
        while i < dialects.len()
            invariant
                i <= dialects@.len(),
                name@ == self.spec_name(),
                forall|j: int| 0 <= j < i ==> (#[trigger] dialects@[j])@ != name@,
            decreases dialects.len() - i,
        {
            if str_eq(dialects[i], name) {
                return true;
            }
            i = i + 1;
        }
        false
    }
}

/// A dialect with the most permissive identifier rules.
#[derive(Debug, Clone, Copy, PartialEq, Eq)]
pub struct GenericDialect {}

impl Dialect for GenericDialect {
    open spec fn spec_name(&self) -> Seq<char> {
        "generic"@
    }

    open spec fn spec_identifier_start(&self, ch: char) -> bool {
        is_ascii_letter(ch) || ch == '_' || ch == '#' || ch == '@'
    }

    open spec fn spec_identifier_part(&self, ch: char) -> bool {
        is_ascii_letter(ch) || is_ascii_digit(ch) || ch == '@' || ch == '$' || ch == '#' || ch == '_'
    }

    open spec fn spec_delimited_start(&self, ch: char) -> bool {
        ch == '"'
    }

    fn is_delimited_identifier_start(&self, ch: char) -> (r: bool) {
        ch == '"'
    }

    fn is_identifier_start(&self, ch: char) -> (r: bool) {
        (('a' <= ch && ch <= 'z') || ('A' <= ch && ch <= 'Z')) || ch == '_' || ch == '#' || ch == '@'
    }

    fn is_identifier_part(&self, ch: char) -> (r: bool) {
        (('a' <= ch && ch <= 'z') || ('A' <= ch && ch <= 'Z')) || ('0' <= ch && ch <= '9') || ch == '@' || ch == '$' || ch == '#' || ch == '_'
    }

    fn dialect_name(&self) -> (r: &'static str) {
        "generic"
    }
}

/// The ANSI SQL dialect.
#[derive(Debug, Clone, Copy, PartialEq, Eq)]
pub struct AnsiDialect {}

impl Dialect for AnsiDialect {
    open spec fn spec_name(&self) -> Seq<char> {
        "ansi"@
    }

    open spec fn spec_identifier_start(&self, ch: char) -> bool {
        is_ascii_letter(ch)
    }

    open spec fn spec_identifier_part(&self, ch: char) -> bool {
        is_ascii_letter(ch) || is_ascii_digit(ch) || ch == '_'
    }

    open spec fn spec_delimited_start(&self, ch: char) -> bool {
        ch == '"'
    }

    fn is_delimited_identifier_start(&self, ch: char) -> (r: bool) {
        ch == '"'
    }

    fn is_identifier_start(&self, ch: char) -> (r: bool) {
        (('a' <= ch && ch <= 'z') || ('A' <= ch && ch <= 'Z'))
    }

    fn is_identifier_part(&self, ch: char) -> (r: bool) {
        (('a' <= ch && ch <= 'z') || ('A' <= ch && ch <= 'Z')) || ('0' <= ch && ch <= '9') || ch == '_'
    }

    fn dialect_name(&self) -> (r: &'static str) {
        "ansi"
    }
}

/// The Microsoft SQL Server dialect.
#[derive(Debug, Clone, Copy, PartialEq, Eq)]
pub struct MsSqlDialect {}

impl Dialect for MsSqlDialect {
    open spec fn spec_name(&self) -> Seq<char> {
        "mssql"@
    }

    open spec fn spec_identifier_start(&self, ch: char) -> bool {
        is_ascii_letter(ch) || ch == '_' || ch == '#' || ch == '@'
    }

    open spec fn spec_identifier_part(&self, ch: char) -> bool {
        is_ascii_letter(ch) || is_ascii_digit(ch) || ch == '@' || ch == '$' || ch == '#' || ch == '_'
    }

    open spec fn spec_delimited_start(&self, ch: char) -> bool {
        ch == '"' || ch == '['
    }

    fn is_delimited_identifier_start(&self, ch: char) -> (r: bool) {
        ch == '"' || ch == '['
    }

    fn is_identifier_start(&self, ch: char) -> (r: bool) {
        (('a' <= ch && ch <= 'z') || ('A' <= ch && ch <= 'Z')) || ch == '_' || ch == '#' || ch == '@'
    }

    fn is_identifier_part(&self, ch: char) -> (r: bool) {
        (('a' <= ch && ch <= 'z') || ('A' <= ch && ch <= 'Z')) || ('0' <= ch && ch <= '9') || ch == '@' || ch == '$' || ch == '#' || ch == '_'
    }

    fn dialect_name(&self) -> (r: &'static str) {
        "mssql"
    }
}

/// The MySQL dialect.
#[derive(Debug, Clone, Copy, PartialEq, Eq)]
pub struct MySqlDialect {}

impl Dialect for MySqlDialect {
    open spec fn spec_name(&self) -> Seq<char> {
        "mysql"@
    }

    open spec fn spec_identifier_start(&self, ch: char) -> bool {
        is_ascii_letter(ch) || ch == '_' || ch == '$' || ch == '@' || ('\u{0080}' <= ch && ch <= '\u{ffff}')
    }

    open spec fn spec_identifier_part(&self, ch: char) -> bool {
        is_ascii_letter(ch) || ch == '_' || ch == '$' || ch == '@' || ('\u{0080}' <= ch && ch <= '\u{ffff}') || is_ascii_digit(ch)
    }

    open spec fn spec_delimited_start(&self, ch: char) -> bool {
        ch == '`'
    }

    fn is_delimited_identifier_start(&self, ch: char) -> (r: bool) {
        ch == '`'
    }

    fn is_identifier_start(&self, ch: char) -> (r: bool) {
        (('a' <= ch && ch <= 'z') || ('A' <= ch && ch <= 'Z')) || ch == '_' || ch == '$' || ch == '@' || ('\u{0080}' <= ch && ch <= '\u{ffff}')
    }

    fn is_identifier_part(&self, ch: char) -> (r: bool) {
        (('a' <= ch && ch <= 'z') || ('A' <= ch && ch <= 'Z')) || ch == '_' || ch == '$' || ch == '@' || ('\u{0080}' <= ch && ch <= '\u{ffff}') || ('0' <= ch && ch <= '9')
    }

    fn dialect_name(&self) -> (r: &'static str) {
        "mysql"
    }
}

/// The PostgreSQL dialect.
#[derive(Debug, Clone, Copy, PartialEq, Eq)]
pub struct PostgreSqlDialect {}

impl Dialect for PostgreSqlDialect {
    open spec fn spec_name(&self) -> Seq<char> {
        "postgresql"@
    }

    open spec fn spec_identifier_start(&self, ch: char) -> bool {
        is_ascii_letter(ch) || ch == '_'
    }

    open spec fn spec_identifier_part(&self, ch: char) -> bool {
        is_ascii_letter(ch) || is_ascii_digit(ch) || ch == '$' || ch == '_'
    }

    open spec fn spec_delimited_start(&self, ch: char) -> bool {
        ch == '"'
    }

    fn is_delimited_identifier_start(&self, ch: char) -> (r: bool) {
        ch == '"'
    }

    fn is_identifier_start(&self, ch: char) -> (r: bool) {
        (('a' <= ch && ch <= 'z') || ('A' <= ch && ch <= 'Z')) || ch == '_'
    }

    fn is_identifier_part(&self, ch: char) -> (r: bool) {
        (('a' <= ch && ch <= 'z') || ('A' <= ch && ch <= 'Z')) || ('0' <= ch && ch <= '9') || ch == '$' || ch == '_'
    }

    fn dialect_name(&self) -> (r: &'static str) {
        "postgresql"
    }
}

/// The Snowflake dialect: `$` may continue an identifier, and `_` may start one.
#[derive(Debug, Clone, Copy, PartialEq, Eq)]
pub struct SnowflakeDialect {}

impl Dialect for SnowflakeDialect {
    open spec fn spec_name(&self) -> Seq<char> {
        "snowflake"@
    }

    open spec fn spec_identifier_start(&self, ch: char) -> bool {
        is_ascii_letter(ch) || ch == '_'
    }

    open spec fn spec_identifier_part(&self, ch: char) -> bool {
        is_ascii_letter(ch) || is_ascii_digit(ch) || ch == '$' || ch == '_'
    }

    open spec fn spec_delimited_start(&self, ch: char) -> bool {
        ch == '"'
    }

    fn is_delimited_identifier_start(&self, ch: char) -> (r: bool) {
        ch == '"'
    }

    fn is_identifier_start(&self, ch: char) -> (r: bool) {
        (('a' <= ch && ch <= 'z') || ('A' <= ch && ch <= 'Z')) || ch == '_'
    }

    fn is_identifier_part(&self, ch: char) -> (r: bool) {
        (('a' <= ch && ch <= 'z') || ('A' <= ch && ch <= 'Z')) || ('0' <= ch && ch <= '9') || ch == '$' || ch == '_'
    }

    fn dialect_name(&self) -> (r: &'static str) {
        "snowflake"
    }
}

/// The SQLite dialect.
#[derive(Debug, Clone, Copy, PartialEq, Eq)]
pub struct SQLiteDialect {}

impl Dialect for SQLiteDialect {
    open spec fn spec_name(&self) -> Seq<char> {
        "sqlite"@
    }

    open spec fn spec_identifier_start(&self, ch: char) -> bool {
        is_ascii_letter(ch) || ch == '_' || ch == '$' || ('\u{007f}' <= ch && ch <= '\u{ffff}')
    }

    open spec fn spec_identifier_part(&self, ch: char) -> bool {
        is_ascii_letter(ch) || ch == '_' || ch == '$' || ('\u{007f}' <= ch && ch <= '\u{ffff}') || is_ascii_digit(ch)
    }

    open spec fn spec_delimited_start(&self, ch: char) -> bool {
        ch == '`' || ch == '"'
    }

    fn is_delimited_identifier_start(&self, ch: char) -> (r: bool) {
        ch == '`' || ch == '"'
    }

    fn is_identifier_start(&self, ch: char) -> (r: bool) {
        (('a' <= ch && ch <= 'z') || ('A' <= ch && ch <= 'Z')) || ch == '_' || ch == '$' || ('\u{007f}' <= ch && ch <= '\u{ffff}')
    }

    fn is_identifier_part(&self, ch: char) -> (r: bool) {
        (('a' <= ch && ch <= 'z') || ('A' <= ch && ch <= 'Z')) || ch == '_' || ch == '$' || ('\u{007f}' <= ch && ch <= '\u{ffff}') || ('0' <= ch && ch <= '9')
    }

    fn dialect_name(&self) -> (r: &'static str) {
        "sqlite"
    }
}

} // verus!
