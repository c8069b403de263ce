use vstd::prelude::*;
use crate::text::{push_str_chars, string_from_chars};

verus! {

/// The character that closes an identifier opened by `q`.
pub open spec fn closing_quote(q: char) -> char {
    if q == '[' {
        ']'
    } else {
        q
    }
}

/// An identifier, with the quote character that delimited it, if any.
#[derive(Debug, Clone, PartialEq, Eq)]
pub struct Ident {
    pub value: String,
    pub quote_style: Option<char>,
}

/// How an identifier is written back: its value, inside its quotes if it had any.
pub open spec fn ident_text(id: Ident) -> Seq<char> {
    match id.quote_style {
        None => id.value@,
        Some(q) => seq![q] + id.value@ + seq![closing_quote(q)],
    }
}

/// The texts of `ids`, with `sep` between each two of them.
pub open spec fn joined_text(ids: Seq<Ident>, sep: Seq<char>) -> Seq<char>
    decreases ids.len(),
{
    if ids.len() == 0 {
        seq![]
    } else if ids.len() == 1 {
        ident_text(ids[0])
    } else {
        joined_text(ids.drop_last(), sep) + sep + ident_text(ids.last())
    }
}

impl Ident {
    /// An unquoted identifier.
    pub fn new(value: &str) -> (r: Ident)
        ensures
            r.value@ == value@,
            r.quote_style is None,
    {
        Ident { value: String::from_str(value), quote_style: None }
    }

    /// An identifier delimited by `quote`.
    pub fn with_quote(quote: char, value: &str) -> (r: Ident)
        ensures
            r.value@ == value@,
            r.quote_style == Some(quote),
    {
        Ident { value: String::from_str(value), quote_style: Some(quote) }
    }

    /// Appends this identifier's text to `out`.
    pub fn write_to(&self, out: &mut Vec<char>)
        ensures
            final(out)@ == old(out)@ + ident_text(*self),
    {
        match self.quote_style {
            None => {
                push_str_chars(out, self.value.as_str());
            },
            Some(q) => {
                out.push(q);
                push_str_chars(out, self.value.as_str());
                let c = if q == '[' {
                    ']'
                } else {
                    q
                };
                out.push(c);
                assert(out@ =~= old(out)@ + ident_text(*self));
            },
        }
    }

    /// The identifier as written in SQL, quotes included.
    pub fn to_string(&self) -> (r: String)
        ensures
            r@ == ident_text(*self),
    {
        let mut out: Vec<char> = Vec::new();
        self.write_to(&mut out);
        assert(out@ =~= ident_text(*self));
        string_from_chars(&out)
    }
}

/// Appends the texts of `ids` to `out`, with `sep` between each two.
pub fn write_joined(out: &mut Vec<char>, ids: &Vec<Ident>, sep: &str)
    ensures
        final(out)@ == old(out)@ + joined_text(ids@, sep@),
{
    let mut i: usize = 0;
    while i < ids.len()
        invariant
            i <= ids@.len(),
            out@ == old(out)@ + joined_text(ids@.subrange(0, i as int), sep@),
        decreases ids.len() - i,
    {
        let ghost before = out@;
        if i > 0 {
            push_str_chars(out, sep);
        }
        ids[i].write_to(out);
        proof {
            let s = ids@.subrange(0, i + 1);
            assert(s.drop_last() == ids@.subrange(0, i as int));
            assert(s.last() == ids@[i as int]);
            if i == 0 {
                assert(joined_text(ids@.subrange(0, 0), sep@) == Seq::<char>::empty());
                assert(out@ =~= old(out)@ + joined_text(s, sep@));
            } else {
                assert(out@ =~= old(out)@ + joined_text(s, sep@));
            }
        }
        i = i + 1;
    }
    assert(ids@.subrange(0, ids@.len() as int) == ids@);
}

/// A name made of one or more identifiers separated by periods.
#[derive(Debug, Clone, PartialEq, Eq)]
pub struct ObjectName(pub Vec<Ident>);

impl ObjectName {
    /// The name as written in SQL: its parts separated by periods.
    pub fn to_string(&self) -> (r: String)
        ensures
            r@ == joined_text(self.0@, seq!['.']),
    {
        let mut out: Vec<char> = Vec::new();
        write_joined(&mut out, &self.0, ".");
        proof {
            reveal_strlit(".");
            assert("."@ =~= seq!['.']);
        }
        assert(out@ =~= joined_text(self.0@, seq!['.']));
        string_from_chars(&out)
    }
}

/// An alias given to a relation, with optional column aliases.
#[derive(Debug, Clone, PartialEq, Eq)]
pub struct TableAlias {
    pub name: Ident,
    pub columns: Vec<Ident>,
}

/// How an alias is written back: its name, then its column list in
/// parentheses when there is one.
pub open spec fn alias_text(a: TableAlias) -> Seq<char> {
    if a.columns@.len() == 0 {
        ident_text(a.name)
    } else {
        ident_text(a.name) + seq![' ', '('] + joined_text(a.columns@, seq![',', ' ']) + seq![')']
    }
}

impl TableAlias {
    /// Appends this alias's text to `out`.
    pub fn write_to(&self, out: &mut Vec<char>)
        ensures
            final(out)@ == old(out)@ + alias_text(*self),
    {
        self.name.write_to(out);
        if self.columns.len() > 0 {
            out.push(' ');
            out.push('(');
            write_joined(out, &self.columns, ", ");
            out.push(')');
            proof {
                reveal_strlit(", ");
                assert(", "@ =~= seq![',', ' ']);
            }
            assert(out@ =~= old(out)@ + alias_text(*self));
        }
    }
}

/// A literal value.
#[derive(Debug, Clone, PartialEq, Eq)]
pub enum Value {
    Number(String),
    SingleQuotedString(String),
    Boolean(bool),
    Null,
}

/// A binary operator of the expression grammar.
#[derive(Debug, Clone, Copy, PartialEq, Eq)]
pub enum BinaryOperator {
    Plus,
    Minus,
    Multiply,
    Divide,
    Eq,
    NotEq,
    Lt,
    LtEq,
    Gt,
    GtEq,
    And,
    Or,
}

/// A scalar expression.
#[derive(Debug, PartialEq, Eq)]
pub enum Expr {
    Identifier(Ident),
    CompoundIdentifier(Vec<Ident>),
    Value(Value),
    BinaryOp { left: Box<Expr>, op: BinaryOperator, right: Box<Expr> },
    Nested(Box<Expr>),
}

/// One item of a select list.
#[derive(Debug, PartialEq, Eq)]
pub enum SelectItem {
    UnnamedExpr(Expr),
    ExprWithAlias { expr: Expr, alias: Ident },
    Wildcard,
}

/// A `SELECT` block.
#[derive(Debug, PartialEq, Eq)]
pub struct Select {
    pub projection: Vec<SelectItem>,
    pub from: Vec<TableWithJoins>,
    pub selection: Option<Expr>,
}

/// The body of a query.
#[derive(Debug, PartialEq, Eq)]
pub enum SetExpr {
    Select(Box<Select>),
}

/// A query.
#[derive(Debug, PartialEq, Eq)]
pub struct Query {
    pub body: SetExpr,
}

/// One relation of a `FROM` clause.
#[derive(Debug, PartialEq, Eq)]
pub enum TableFactor {
    Table { name: ObjectName, alias: Option<TableAlias> },
    Derived { lateral: bool, subquery: Box<Query>, alias: Option<TableAlias> },
    /// A parenthesized join tree: it always holds at least one join.
    NestedJoin(Box<TableWithJoins>),
}

/// A base relation and the joins attached to it, in order.
#[derive(Debug, PartialEq, Eq)]
pub struct TableWithJoins {
    pub relation: TableFactor,
    pub joins: Vec<Join>,
}

/// A join against `relation`.
#[derive(Debug, PartialEq, Eq)]
pub struct Join {
    pub relation: TableFactor,
    pub join_operator: JoinOperator,
}

/// The kind of a join, with its condition.
#[derive(Debug, PartialEq, Eq)]
pub enum JoinOperator {
    Inner(JoinConstraint),
    LeftOuter(JoinConstraint),
    RightOuter(JoinConstraint),
    FullOuter(JoinConstraint),
    CrossJoin,
}

/// The condition of a join.
#[derive(Debug, PartialEq, Eq)]
pub enum JoinConstraint {
    On(Expr),
    Using(Vec<Ident>),
    Natural,
    NoConstraint,
}

/// A column of a `CREATE TABLE` statement.
#[derive(Debug, Clone, PartialEq, Eq)]
pub struct ColumnDef {
    pub name: Ident,
    pub data_type: Ident,
}

/// A parsed statement.
#[derive(Debug, PartialEq, Eq)]
pub enum Statement {
    Query(Box<Query>),
    CreateTable { name: ObjectName, columns: Vec<ColumnDef> },
}

/// The alias a relation carries; a nested join carries none.
pub open spec fn alias_of(f: TableFactor) -> Option<TableAlias> {
    match f {
        TableFactor::Table { alias, .. } => alias,
        TableFactor::Derived { alias, .. } => alias,
        TableFactor::NestedJoin(_) => None,
    }
}

/// The relation `f` with its alias set to `a`; a nested join is left as it is.
pub open spec fn with_alias(f: TableFactor, a: TableAlias) -> TableFactor {
    match f {
        TableFactor::Table { name, .. } => TableFactor::Table { name, alias: Some(a) },
        TableFactor::Derived { lateral, subquery, .. } => TableFactor::Derived {
            lateral,
            subquery,
            alias: Some(a),
        },
        TableFactor::NestedJoin(j) => TableFactor::NestedJoin(j),
    }
}

impl TableFactor {
    /// The alias this relation carries, if any.
    pub fn alias(&self) -> (r: Option<&TableAlias>)
        ensures
            r matches Some(a) ==> alias_of(*self) == Some(*a),
            r is None ==> alias_of(*self) is None,
    {
        match self {
            TableFactor::Table { alias, .. } => alias.as_ref(),
            TableFactor::Derived { alias, .. } => alias.as_ref(),
            TableFactor::NestedJoin(_) => None,
        }
    }

    /// This relation with its alias set to `a`.
    pub fn set_alias(self, a: TableAlias) -> (r: TableFactor)
        ensures
            r == with_alias(self, a),
    {
        match self {
            TableFactor::Table { name, .. } => TableFactor::Table { name, alias: Some(a) },
            TableFactor::Derived { lateral, subquery, .. } => TableFactor::Derived {
                lateral,
                subquery,
                alias: Some(a),
            },
            TableFactor::NestedJoin(j) => TableFactor::NestedJoin(j),
        }
    }
}

} // verus!
