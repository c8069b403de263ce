use vstd::prelude::*;
use crate::ast::{
    alias_of, alias_text, with_alias, BinaryOperator, ColumnDef, Expr, Ident, Join, JoinConstraint,
    JoinOperator, ObjectName, Query, Select, SelectItem, SetExpr, Statement, TableAlias,
    TableFactor, TableWithJoins, Value,
};
use crate::text::{push_str_chars, string_from_chars};
use crate::dialect::Dialect;
use crate::tokenizer::{lex, lexeme_of, lexemes_of, token_text, tokenize, Lexeme, Token};

verus! {

/// A failure to parse: a lexical error, or a grammar error with its message.
#[derive(Debug, Clone, PartialEq, Eq)]
pub enum ParserError {
    TokenizerError(String),
    ParserError(String),
}

/// The text that names what stands at `pos`: the token there, or `EOF`.
pub open spec fn found_text(toks: Seq<Token>, pos: int) -> Seq<char> {
    if 0 <= pos < toks.len() {
        token_text(toks[pos])
    } else {
        seq!['E', 'O', 'F']
    }
}

/// The message `Expected {what}, found: {token}`.
pub open spec fn expected_text(what: Seq<char>, toks: Seq<Token>, pos: int) -> Seq<char> {
    seq!['E', 'x', 'p', 'e', 'c', 't', 'e', 'd', ' '] + what + seq![',', ' ', 'f', 'o', 'u', 'n', 'd', ':', ' ']
        + found_text(toks, pos)
}

/// Builds the error `Expected {what}, found: {token at pos}`.
pub fn expected(what: &str, toks: &Vec<Token>, pos: usize) -> (e: ParserError)
    ensures
        e matches ParserError::ParserError(m) && m@ == expected_text(what@, toks@, pos as int),
{
    let mut out: Vec<char> = Vec::new();
    push_str_chars(&mut out, "Expected ");
    push_str_chars(&mut out, what);
    push_str_chars(&mut out, ", found: ");
    if pos < toks.len() {
        toks[pos].write_to(&mut out);
    } else {
        push_str_chars(&mut out, "EOF");
    }
    proof {
        reveal_strlit("Expected ");
        reveal_strlit(", found: ");
        reveal_strlit("EOF");
        assert("Expected "@ =~= seq!['E', 'x', 'p', 'e', 'c', 't', 'e', 'd', ' ']);
        assert(", found: "@ =~= seq![',', ' ', 'f', 'o', 'u', 'n', 'd', ':', ' ']);
        assert("EOF"@ =~= seq!['E', 'O', 'F']);
    }
    assert(out@ =~= expected_text(what@, toks@, pos as int));
    ParserError::ParserError(string_from_chars(&out))
}

/// Whether `s` spells the upper-case keyword `kw`, in any letter case.
pub open spec fn spells_keyword(s: Seq<char>, kw: Seq<char>) -> bool {
    &&& s.len() == kw.len()
    &&& forall|i: int|
        0 <= i < s.len() ==> (#[trigger] s[i] == kw[i] || ('A' <= kw[i] <= 'Z' && s[i] as u32 as int
            == kw[i] as u32 as int + 32))
}

/// Whether `t` is the unquoted keyword `kw`.
pub open spec fn is_keyword(t: Token, kw: Seq<char>) -> bool {
    &&& t is Word
    &&& t->Word_0.quote_style is None
    &&& spells_keyword(t->Word_0.value@, kw)
}

/// Whether the token at `pos` is the keyword `kw`.
pub open spec fn keyword_at(toks: Seq<Token>, pos: int, kw: Seq<char>) -> bool {
    0 <= pos < toks.len() && is_keyword(toks[pos], kw)
}

/// Whether the token at `pos` is the keyword `kw` (written in upper case).
pub fn peek_keyword(toks: &Vec<Token>, pos: usize, kw: &str) -> (r: bool)
    ensures
        r == keyword_at(toks@, pos as int, kw@),
{
    if pos >= toks.len() {
        return false;
    }
    match &toks[pos] {
        Token::Word(w) => {
            if w.quote_style.is_some() {
                return false;
            }
            let s = w.value.as_str();
            let n = s.unicode_len();
            if n != kw.unicode_len() {
                return false;
            }
            let mut i: usize = 0;
            while i < n
                invariant
                    n == s@.len(),
                    n == kw@.len(),
                    s@ == w.value@,
                    pos < toks@.len(),
                    toks@[pos as int] == Token::Word(*w),
                    w.quote_style is None,
                    i <= n,
                    forall|k: int|
                        0 <= k < i ==> (#[trigger] w.value@[k] == kw@[k] || ('A' <= kw@[k] <= 'Z'
                            && w.value@[k] as u32 as int == kw@[k] as u32 as int + 32)),
                decreases n - i,
            {
                let a = s.get_char(i);
                let b = kw.get_char(i);
                if !(a == b || ('A' <= b && b <= 'Z' && a as u32 == b as u32 + 32)) {
                    assert(w.value@[i as int] == a && kw@[i as int] == b);
                    return false;
                }
                i = i + 1;
            }
            true
        },
        _ => false,
    }
}

/// Whether the token at `pos` is `t`, for a token that carries no text.
pub open spec fn punct_at(toks: Seq<Token>, pos: int, t: Token) -> bool {
    0 <= pos < toks.len() && toks[pos] == t
}

/// Whether the token at `pos` is an opening parenthesis.
pub fn peek_lparen(toks: &Vec<Token>, pos: usize) -> (r: bool)
    ensures
        r == punct_at(toks@, pos as int, Token::LParen),
{
    pos < toks.len() && matches!(toks[pos], Token::LParen)
}

/// Whether the token at `pos` is a closing parenthesis.
pub fn peek_rparen(toks: &Vec<Token>, pos: usize) -> (r: bool)
    ensures
        r == punct_at(toks@, pos as int, Token::RParen),
{
    pos < toks.len() && matches!(toks[pos], Token::RParen)
}

/// Whether the token at `pos` is a comma.
pub fn peek_comma(toks: &Vec<Token>, pos: usize) -> (r: bool)
    ensures
        r == punct_at(toks@, pos as int, Token::Comma),
{
    pos < toks.len() && matches!(toks[pos], Token::Comma)
}

/// Whether the token at `pos` is a period.
pub fn peek_period(toks: &Vec<Token>, pos: usize) -> (r: bool)
    ensures
        r == punct_at(toks@, pos as int, Token::Period),
{
    pos < toks.len() && matches!(toks[pos], Token::Period)
}

/// Whether the token at `pos` is a semicolon.
pub fn peek_semicolon(toks: &Vec<Token>, pos: usize) -> (r: bool)
    ensures
        r == punct_at(toks@, pos as int, Token::SemiColon),
{
    pos < toks.len() && matches!(toks[pos], Token::SemiColon)
}

/// Whether `e` is a grammar error with message `m`.
pub open spec fn error_is(e: ParserError, m: Seq<char>) -> bool {
    e matches ParserError::ParserError(s) && s@ == m
}

/// Whether `id` is the identifier that the word token `t` spells.
pub open spec fn ident_of_word(id: Ident, t: Token) -> bool {
    &&& t is Word
    &&& id.value@ == t->Word_0.value@
    &&& id.quote_style == t->Word_0.quote_style
}

/// Parses one identifier: any word, quoted or not.
pub fn parse_identifier(toks: &Vec<Token>, pos: usize) -> (r: Result<(Ident, usize), ParserError>)
    ensures
        r matches Err(e) ==> e is ParserError,
        r matches Ok((id, q)) ==> q == pos + 1 && pos < toks@.len() && ident_of_word(
            id,
            toks@[pos as int],
        ),
        r is Err <==> !(pos < toks@.len() && toks@[pos as int] is Word),
        r matches Err(e) ==> error_is(e, expected_text("identifier"@, toks@, pos as int)),
{
    if pos < toks.len() {
        if let Token::Word(w) = &toks[pos] {
            return Ok((Ident { value: w.value.clone(), quote_style: w.quote_style }, pos + 1));
        }
    }
    Err(expected("identifier", toks, pos))
}

/// The message `duplicate alias {alias}`.
pub open spec fn duplicate_alias_text(a: TableAlias) -> Seq<char> {
    seq!['d', 'u', 'p', 'l', 'i', 'c', 'a', 't', 'e', ' ', 'a', 'l', 'i', 'a', 's', ' '] + alias_text(a)
}

/// What a trailing alias after a closing parenthesis does to the single
/// relation found inside: none leaves it as it is; one is attached to it,
/// unless it already has an alias, which is then reported as a duplicate.
pub open spec fn outer_alias_outcome(f: TableFactor, outer: Option<TableAlias>) -> Result<
    TableFactor,
    Seq<char>,
> {
    match outer {
        None => Ok(f),
        Some(a) => match alias_of(f) {
            Some(b) => Err(duplicate_alias_text(b)),
            None => Ok(with_alias(f, a)),
        },
    }
}

/// A parse result with its error reduced to the message.
pub open spec fn outcome_of<T>(r: Result<T, ParserError>) -> Result<T, Seq<char>> {
    match r {
        Ok(v) => Ok(v),
        Err(ParserError::ParserError(m)) => Err(m@),
        Err(ParserError::TokenizerError(m)) => Err(m@),
    }
}

/// Attaches the alias that followed a closing parenthesis to the single
/// relation that the parentheses held. An alias is bound once: a relation
/// that already has one is an error that names the alias it has.
pub fn apply_outer_alias(relation: TableFactor, outer: Option<TableAlias>) -> (r: Result<
    TableFactor,
    ParserError,
>)
    requires
        !(relation is NestedJoin),
    ensures
        outcome_of(r) == outer_alias_outcome(relation, outer),
        r matches Err(e) ==> e is ParserError,
        r matches Ok(f) ==> !(f is NestedJoin),
{
    match outer {
        None => Ok(relation),
        Some(a) => {
            let existing = match relation.alias() {
                Some(b) => {
                    let mut out: Vec<char> = Vec::new();
                    push_str_chars(&mut out, "duplicate alias ");
                    b.write_to(&mut out);
                    proof {
                        reveal_strlit("duplicate alias ");
                        assert("duplicate alias "@ =~= seq![
                            'd', 'u', 'p', 'l', 'i', 'c', 'a', 't', 'e', ' ', 'a', 'l', 'i', 'a', 's', ' '
                        ]);
                    }
                    assert(out@ =~= duplicate_alias_text(*b));
                    Some(string_from_chars(&out))
                },
                None => None,
            };
            match existing {
                Some(m) => Err(ParserError::ParserError(m)),
                None => Ok(relation.set_alias(a)),
            }
        },
    }
}

/// Parsing `k` nested pairs of parentheses around a single relation `f`,
/// where `outers[i]` is the alias (if any) after the `i`-th closing
/// parenthesis, innermost first.
pub open spec fn unwrap_layers(f: TableFactor, outers: Seq<Option<TableAlias>>) -> Result<
    TableFactor,
    Seq<char>,
>
    decreases outers.len(),
{
    if outers.len() == 0 {
        Ok(f)
    } else {
        match unwrap_layers(f, outers.drop_last()) {
            Ok(g) => outer_alias_outcome(g, outers.last()),
            Err(m) => Err(m),
        }
    }
}

/// How many of `outers` are aliases.
pub open spec fn alias_count(outers: Seq<Option<TableAlias>>) -> nat
    decreases outers.len(),
{
    if outers.len() == 0 {
        0
    } else {
        alias_count(outers.drop_last()) + if outers.last() is Some {
            1nat
        } else {
            0nat
        }
    }
}

/// The outermost alias among `outers`, if any.
pub open spec fn outermost_alias(outers: Seq<Option<TableAlias>>) -> Option<TableAlias>
    decreases outers.len(),
{
    if outers.len() == 0 {
        None
    } else if outers.last() is Some {
        outers.last()
    } else {
        outermost_alias(outers.drop_last())
    }
}

/// `f` with the alias `a`, if there is one.
pub open spec fn aliased(f: TableFactor, a: Option<TableAlias>) -> TableFactor {
    match a {
        Some(x) => with_alias(f, x),
        None => f,
    }
}

proof fn lemma_no_alias_counted(outers: Seq<Option<TableAlias>>)
    ensures
        alias_count(outers) == 0 <==> outermost_alias(outers) is None,
    decreases outers.len(),
{
    if outers.len() > 0 {
        lemma_no_alias_counted(outers.drop_last());
    }
}

/// In the model `unwrap_layers` of applying `outer_alias_outcome` (what
/// `apply_outer_alias` computes) once per pair of parentheses, parentheses
/// are transparent around a single relation: however deeply a table or
/// derived table is nested, with at most one alias in all (its own or one
/// after a closing parenthesis), the result is the relation itself with
/// that alias attached. The parser's own statement of this for table names
/// is the `aliased_table_in_parens` clause of `parse_table_factor`.
pub proof fn lemma_paren_transparency(f: TableFactor, outers: Seq<Option<TableAlias>>)
    requires
        !(f is NestedJoin),
        alias_count(outers) + (if alias_of(f) is Some {
            1nat
        } else {
            0nat
        }) <= 1,
    ensures
        unwrap_layers(f, outers) == Ok::<TableFactor, Seq<char>>(aliased(f, outermost_alias(outers))),
    decreases outers.len(),
{
    if outers.len() > 0 {
        let init = outers.drop_last();
        lemma_paren_transparency(f, init);
        lemma_no_alias_counted(init);
        lemma_no_alias_counted(outers);
    }
}

/// In the model `unwrap_layers`, the alias bound first wins: a relation
/// that already has the alias `b`, wrapped in parentheses of which at least
/// one is followed by an alias, is rejected with a message that names `b`.
/// The parser's own statement of this for table names is the
/// `second_alias_in_parens` clause of `parse_table_factor`.
pub proof fn lemma_first_alias_wins(
    f: TableFactor,
    b: TableAlias,
    outers: Seq<Option<TableAlias>>,
)
    requires
        !(f is NestedJoin),
        alias_of(f) == Some(b),
        alias_count(outers) >= 1,
    ensures
        unwrap_layers(f, outers) == Err::<TableFactor, Seq<char>>(duplicate_alias_text(b)),
    decreases outers.len(),
{
    let init = outers.drop_last();
    if alias_count(init) >= 1 {
        lemma_first_alias_wins(f, b, init);
    } else {
        lemma_paren_transparency(f, init);
        lemma_no_alias_counted(init);
    }
}

/// Whether a parse that started at `pos` and stopped before `q` consumed
/// at least one token and stayed inside the token list.
pub open spec fn advanced(toks: Seq<Token>, pos: int, q: int) -> bool {
    pos < q <= toks.len()
}

/// Parses a name of one or more identifiers separated by periods.
pub fn parse_object_name(toks: &Vec<Token>, pos: usize) -> (r: Result<(ObjectName, usize), ParserError>)
    ensures
        r matches Err(e) ==> e is ParserError,
        r matches Ok((name, q)) ==> advanced(toks@, pos as int, q as int) && name.0@.len() >= 1
            && ident_of_word(name.0@[0], toks@[pos as int]),
        r is Err <==> !(pos < toks@.len() && toks@[pos as int] is Word),
        r matches Err(e) ==> error_is(e, expected_text("identifier"@, toks@, pos as int)),
        !punct_at(toks@, pos + 1, Token::Period) ==> (r matches Ok((name, q)) ==> name.0@.len() == 1
            && q == pos + 1),
{
    let n = toks.len();
    let (first, p0) = parse_identifier(toks, pos)?;
    let mut parts: Vec<Ident> = Vec::new();
    parts.push(first);
    let mut p = p0;
    while peek_period(toks, p) && p + 1 < n && matches!(toks[p + 1], Token::Word(_))
        invariant
            n == toks@.len(),
            pos < p <= toks@.len(),
            parts@.len() >= 1,
            ident_of_word(parts@[0], toks@[pos as int]),
            !punct_at(toks@, pos + 1, Token::Period) ==> p == pos + 1 && parts@.len() == 1,
        decreases toks@.len() - p,
    {
        let (id, q) = parse_identifier(toks, p + 1)?;
        parts.push(id);
        p = q;
    }
    Ok((ObjectName(parts), p))
}

/// Parses `( ident, ... )`.
pub fn parse_parenthesized_idents(toks: &Vec<Token>, pos: usize) -> (r: Result<
    (Vec<Ident>, usize),
    ParserError,
>)
    ensures
        r matches Err(e) ==> e is ParserError,
        r matches Ok((ids, q)) ==> advanced(toks@, pos as int, q as int) && ids@.len() >= 1,
        !punct_at(toks@, pos as int, Token::LParen) ==> (r matches Err(e) && error_is(
            e,
            expected_text("("@, toks@, pos as int),
        )),
{
    let n = toks.len();
    if !peek_lparen(toks, pos) {
        return Err(expected("(", toks, pos));
    }
    let mut ids: Vec<Ident> = Vec::new();
    let (first, p0) = parse_identifier(toks, pos + 1)?;
    ids.push(first);
    let mut p = p0;
    while peek_comma(toks, p)
        invariant
            n == toks@.len(),
            punct_at(toks@, pos as int, Token::LParen),
            pos < p <= toks@.len(),
            ids@.len() >= 1,
        decreases toks@.len() - p,
    {
        let (id, q) = parse_identifier(toks, p + 1)?;
        ids.push(id);
        p = q;
    }
    if !peek_rparen(toks, p) {
        return Err(expected(")", toks, p));
    }
    Ok((ids, p + 1))
}

/// The keywords that end a relation rather than name its alias: those that
/// start a clause or a join.
pub open spec fn reserved_at(toks: Seq<Token>, pos: int) -> bool {
    ||| keyword_at(toks, pos, "SELECT"@)
    ||| keyword_at(toks, pos, "WITH"@)
    ||| keyword_at(toks, pos, "WHERE"@)
    ||| keyword_at(toks, pos, "GROUP"@)
    ||| keyword_at(toks, pos, "HAVING"@)
    ||| keyword_at(toks, pos, "ORDER"@)
    ||| keyword_at(toks, pos, "LIMIT"@)
    ||| keyword_at(toks, pos, "OFFSET"@)
    ||| keyword_at(toks, pos, "FETCH"@)
    ||| keyword_at(toks, pos, "UNION"@)
    ||| keyword_at(toks, pos, "EXCEPT"@)
    ||| keyword_at(toks, pos, "INTERSECT"@)
    ||| keyword_at(toks, pos, "ON"@)
    ||| keyword_at(toks, pos, "JOIN"@)
    ||| keyword_at(toks, pos, "INNER"@)
    ||| keyword_at(toks, pos, "CROSS"@)
    ||| keyword_at(toks, pos, "FULL"@)
    ||| keyword_at(toks, pos, "LEFT"@)
    ||| keyword_at(toks, pos, "RIGHT"@)
    ||| keyword_at(toks, pos, "NATURAL"@)
    ||| keyword_at(toks, pos, "USING"@)
    ||| keyword_at(toks, pos, "OUTER"@)
    ||| keyword_at(toks, pos, "LATERAL"@)
    ||| keyword_at(toks, pos, "QUALIFY"@)
    ||| keyword_at(toks, pos, "SET"@)
    ||| keyword_at(toks, pos, "FROM"@)
}

/// Whether the token at `pos` is a keyword that ends a relation rather
/// than naming its alias.
pub fn reserved_for_table_alias(toks: &Vec<Token>, pos: usize) -> (r: bool)
    ensures
        r == reserved_at(toks@, pos as int),
{
    peek_keyword(toks, pos, "SELECT")
        || peek_keyword(toks, pos, "WITH")
        || peek_keyword(toks, pos, "WHERE")
        || peek_keyword(toks, pos, "GROUP")
        || peek_keyword(toks, pos, "HAVING")
        || peek_keyword(toks, pos, "ORDER")
        || peek_keyword(toks, pos, "LIMIT")
        || peek_keyword(toks, pos, "OFFSET")
        || peek_keyword(toks, pos, "FETCH")
        || peek_keyword(toks, pos, "UNION")
        || peek_keyword(toks, pos, "EXCEPT")
        || peek_keyword(toks, pos, "INTERSECT")
        || peek_keyword(toks, pos, "ON")
        || peek_keyword(toks, pos, "JOIN")
        || peek_keyword(toks, pos, "INNER")
        || peek_keyword(toks, pos, "CROSS")
        || peek_keyword(toks, pos, "FULL")
        || peek_keyword(toks, pos, "LEFT")
        || peek_keyword(toks, pos, "RIGHT")
        || peek_keyword(toks, pos, "NATURAL")
        || peek_keyword(toks, pos, "USING")
        || peek_keyword(toks, pos, "OUTER")
        || peek_keyword(toks, pos, "LATERAL")
        || peek_keyword(toks, pos, "QUALIFY")
        || peek_keyword(toks, pos, "SET")
        || peek_keyword(toks, pos, "FROM")
}

/// Where the name of an alias that starts at `pos` stands, if one starts
/// there: after `AS`, or at `pos` for a word that is not reserved.
pub open spec fn alias_name_at(toks: Seq<Token>, pos: int) -> Option<int> {
    if keyword_at(toks, pos, "AS"@) {
        Some(pos + 1)
    } else if 0 <= pos < toks.len() && toks[pos] is Word && !reserved_at(toks, pos) {
        Some(pos)
    } else {
        None
    }
}

/// Parses an optional alias: `AS name`, or a bare name that is not a
/// reserved keyword, then an optional column list. Consumes nothing when
/// no alias follows.
pub fn parse_optional_table_alias(toks: &Vec<Token>, pos: usize) -> (r: Result<
    (Option<TableAlias>, usize),
    ParserError,
>)
    requires
        pos <= toks@.len(),
    ensures
        r matches Err(e) ==> e is ParserError,
        r matches Ok((a, q)) ==> pos <= q <= toks@.len() && (a is None <==> q == pos),
        alias_name_at(toks@, pos as int) is None ==> (r matches Ok((a, q)) && a is None),
        ({
            let j = alias_name_at(toks@, pos as int)->0;
            alias_name_at(toks@, pos as int) is Some && !(j < toks@.len() && toks@[j] is Word) ==> (
            r matches Err(e) && error_is(e, expected_text("an identifier after AS"@, toks@, j)))
        }),
        ({
            let j = alias_name_at(toks@, pos as int)->0;
            alias_name_at(toks@, pos as int) is Some && j < toks@.len() && toks@[j] is Word
                && !punct_at(toks@, j + 1, Token::LParen) ==> (r matches Ok((Some(a), q))
                && ident_of_word(a.name, toks@[j]) && a.columns@.len() == 0 && q == j + 1)
        }),
{
    let n = toks.len();
    let name_pos = if peek_keyword(toks, pos, "AS") {
        pos + 1
    } else if pos < toks.len() && matches!(toks[pos], Token::Word(_))
        && !reserved_for_table_alias(toks, pos) {
        pos
    } else {
        return Ok((None, pos));
    };
    let (name, p) = match parse_identifier(toks, name_pos) {
        Ok(v) => v,
        Err(_) => {
            return Err(expected("an identifier after AS", toks, name_pos));
        },
    };
    let (columns, q) = if peek_lparen(toks, p) {
        parse_parenthesized_idents(toks, p)?
    } else {
        (Vec::new(), p)
    };
    Ok((Some(TableAlias { name, columns }), q))
}

/// The operator at `pos`, if the token there is a binary operator, with its
/// binding strength.
pub fn binary_operator_at(toks: &Vec<Token>, pos: usize) -> (r: Option<(BinaryOperator, u8)>)
    ensures
        r is Some ==> pos < toks@.len(),
        r matches Some((_, p)) ==> p > 0,
{
    if pos >= toks.len() {
        return None;
    }
    match &toks[pos] {
        Token::Plus => Some((BinaryOperator::Plus, 30)),
        Token::Minus => Some((BinaryOperator::Minus, 30)),
        Token::Mul => Some((BinaryOperator::Multiply, 40)),
        Token::Div => Some((BinaryOperator::Divide, 40)),
        Token::Eq => Some((BinaryOperator::Eq, 20)),
        Token::Neq => Some((BinaryOperator::NotEq, 20)),
        Token::Lt => Some((BinaryOperator::Lt, 20)),
        Token::LtEq => Some((BinaryOperator::LtEq, 20)),
        Token::Gt => Some((BinaryOperator::Gt, 20)),
        Token::GtEq => Some((BinaryOperator::GtEq, 20)),
        Token::Word(_) => {
            if peek_keyword(toks, pos, "AND") {
                Some((BinaryOperator::And, 10))
            } else if peek_keyword(toks, pos, "OR") {
                Some((BinaryOperator::Or, 5))
            } else {
                None
            }
        },
        _ => None,
    }
}

/// Parses a scalar expression.
pub fn parse_expr(toks: &Vec<Token>, pos: usize) -> (r: Result<(Expr, usize), ParserError>)
    ensures
        r matches Err(e) ==> e is ParserError,
        r matches Ok((_, q)) ==> advanced(toks@, pos as int, q as int),
    decreases toks@.len() - pos, 2int,
{
    parse_subexpr(toks, pos, 0)
}

/// Parses an expression whose operators bind more strongly than `precedence`.
pub fn parse_subexpr(toks: &Vec<Token>, pos: usize, precedence: u8) -> (r: Result<
    (Expr, usize),
    ParserError,
>)
    ensures
        r matches Err(e) ==> e is ParserError,
        r matches Ok((_, q)) ==> advanced(toks@, pos as int, q as int),
    decreases toks@.len() - pos, 1int,
{
    let n = toks.len();
    let (first, p0) = parse_prefix(toks, pos)?;
    let mut left = first;
    let mut p = p0;
    loop
        invariant
            n == toks@.len(),
            pos < p <= toks@.len(),
        decreases toks@.len() - p,
    {
        match binary_operator_at(toks, p) {
            Some((op, prec)) => {
                if prec <= precedence {
                    break;
                }
                let (right, q) = parse_subexpr(toks, p + 1, prec)?;
                left = Expr::BinaryOp { left: Box::new(left), op, right: Box::new(right) };
                p = q;
            },
            None => {
                break;
            },
        }
    }
    Ok((left, p))
}

/// Parses a literal, an identifier or a parenthesized expression.
pub fn parse_prefix(toks: &Vec<Token>, pos: usize) -> (r: Result<(Expr, usize), ParserError>)
    ensures
        r matches Err(e) ==> e is ParserError,
        r matches Ok((_, q)) ==> advanced(toks@, pos as int, q as int),
    decreases toks@.len() - pos, 0int,
{
    if pos >= toks.len() {
        return Err(expected("an expression:", toks, pos));
    }
    match &toks[pos] {
        Token::Number(n) => Ok((Expr::Value(Value::Number(n.clone())), pos + 1)),
        Token::SingleQuotedString(s) => Ok(
            (Expr::Value(Value::SingleQuotedString(s.clone())), pos + 1),
        ),
        Token::LParen => {
            let (inner, p) = parse_expr(toks, pos + 1)?;
            if !peek_rparen(toks, p) {
                return Err(expected(")", toks, p));
            }
            Ok((Expr::Nested(Box::new(inner)), p + 1))
        },
        Token::Word(w) => {
            if peek_keyword(toks, pos, "TRUE") {
                Ok((Expr::Value(Value::Boolean(true)), pos + 1))
            } else if peek_keyword(toks, pos, "FALSE") {
                Ok((Expr::Value(Value::Boolean(false)), pos + 1))
            } else if peek_keyword(toks, pos, "NULL") {
                Ok((Expr::Value(Value::Null), pos + 1))
            } else {
                let (name, p) = parse_object_name(toks, pos)?;
                if name.0.len() == 1 {
                    let ObjectName(mut parts) = name;
                    let id = parts.pop().unwrap();
                    Ok((Expr::Identifier(id), p))
                } else {
                    Ok((Expr::CompoundIdentifier(name.0), p))
                }
            }
        },
        _ => Err(expected("an expression:", toks, pos)),
    }
}

/// How many opening parentheses stand in a row from `pos`.
pub open spec fn paren_depth(toks: Seq<Token>, pos: int) -> nat
    decreases toks.len() - pos,
{
    if 0 <= pos < toks.len() && toks[pos] is LParen {
        1 + paren_depth(toks, pos + 1)
    } else {
        0
    }
}

/// Whether the token at `pos` (if any) can neither continue a relation
/// nor give it an alias: it is no period, no opening parenthesis, and
/// starts no alias (a reserved keyword or a symbol is fine).
pub open spec fn ends_relation(toks: Seq<Token>, pos: int) -> bool {
    &&& !punct_at(toks, pos, Token::Period)
    &&& !punct_at(toks, pos, Token::LParen)
    &&& alias_name_at(toks, pos) is None
}

/// Whether no join starts at `pos`: the token there is none of the join keywords.
pub open spec fn no_join_at(toks: Seq<Token>, pos: int) -> bool {
    &&& !keyword_at(toks, pos, "NATURAL"@)
    &&& !keyword_at(toks, pos, "CROSS"@)
    &&& !keyword_at(toks, pos, "JOIN"@)
    &&& !keyword_at(toks, pos, "INNER"@)
    &&& !keyword_at(toks, pos, "LEFT"@)
    &&& !keyword_at(toks, pos, "RIGHT"@)
    &&& !keyword_at(toks, pos, "FULL"@)
}

/// Whether the tokens from `pos` are a plain table name inside `k >= 0`
/// pairs of parentheses, with no alias anywhere: `k` opening parentheses,
/// a word that starts no sub-query, `k` closing parentheses, and then
/// nothing that could continue the name or give it an alias.
pub open spec fn bare_table_in_parens(toks: Seq<Token>, pos: int) -> bool {
    let k = paren_depth(toks, pos);
    &&& 0 <= pos
    &&& pos + 2 * k + 1 <= toks.len()
    &&& toks[pos + k] is Word
    &&& !keyword_at(toks, pos + k, "SELECT"@)
    &&& !keyword_at(toks, pos + k, "WITH"@)
    &&& !keyword_at(toks, pos + k, "LATERAL"@)
    &&& forall|i: int| pos + k < i <= pos + 2 * k ==> #[trigger] toks[i] == Token::RParen
    &&& ends_relation(toks, pos + 2 * k + 1)
}

/// How many closing parentheses stand in a row from `pos`.
pub open spec fn rparen_run(toks: Seq<Token>, pos: int) -> nat
    decreases toks.len() - pos,
{
    if 0 <= pos < toks.len() && toks[pos] is RParen {
        1 + rparen_run(toks, pos + 1)
    } else {
        0
    }
}

/// Whether the tokens from `pos` are a plain table name inside `k >= 0`
/// pairs of parentheses with exactly one alias, after any one of the
/// closing parentheses or inside the innermost pair: `k` opening
/// parentheses, a word that starts no sub-query, `m <= k` closing
/// parentheses, an alias (`AS name` or a name that is not reserved), the
/// other `k - m` closing parentheses, and then nothing that could continue
/// the relation.
pub open spec fn aliased_table_in_parens(toks: Seq<Token>, pos: int) -> bool {
    let k = paren_depth(toks, pos);
    let w = pos + k;
    let m = rparen_run(toks, w + 1);
    let j = alias_name_at(toks, w + 1 + m)->0;
    &&& 0 <= pos
    &&& m <= k
    &&& w < toks.len()
    &&& toks[w] is Word
    &&& !keyword_at(toks, w, "SELECT"@)
    &&& !keyword_at(toks, w, "WITH"@)
    &&& !keyword_at(toks, w, "LATERAL"@)
    &&& alias_name_at(toks, w + 1 + m) is Some
    &&& j + (k - m) < toks.len()
    &&& toks[j] is Word
    &&& forall|i: int| j < i <= j + (k - m) ==> #[trigger] toks[i] == Token::RParen
    &&& ends_relation(toks, j + (k - m) + 1)
}

/// Where the alias name of `aliased_table_in_parens` stands.
pub open spec fn alias_name_pos(toks: Seq<Token>, pos: int) -> int {
    let w = pos + paren_depth(toks, pos);
    alias_name_at(toks, w + 1 + rparen_run(toks, w + 1))->0
}

/// Where the relation of `aliased_table_in_parens` ends.
pub open spec fn aliased_end(toks: Seq<Token>, pos: int) -> int {
    let k = paren_depth(toks, pos);
    let m = rparen_run(toks, pos + k + 1);
    alias_name_pos(toks, pos) + (k - m) + 1
}

/// Whether `f` is the table named by the word at `at`, with the alias
/// named by the word at `alias_at` and no column aliases.
pub open spec fn is_aliased_table(f: TableFactor, toks: Seq<Token>, at: int, alias_at: int) -> bool {
    &&& f is Table
    &&& f->name.0@.len() == 1
    &&& ident_of_word(f->name.0@[0], toks[at])
    &&& alias_of(f) is Some
    &&& ident_of_word(alias_of(f)->0.name, toks[alias_at])
    &&& alias_of(f)->0.columns@.len() == 0
}

proof fn lemma_rparen_run(toks: Seq<Token>, pos: int)
    requires
        0 <= pos,
    ensures
        pos + rparen_run(toks, pos) <= toks.len() || rparen_run(toks, pos) == 0,
        forall|i: int| pos <= i < pos + rparen_run(toks, pos) ==> #[trigger] toks[i] == Token::RParen,
        pos + rparen_run(toks, pos) < toks.len() ==> !(toks[pos + rparen_run(toks, pos)] is RParen),
    decreases toks.len() - pos,
{
    if 0 <= pos < toks.len() && toks[pos] is RParen {
        lemma_rparen_run(toks, pos + 1);
    }
}

/// Peeling one pair of parentheses off a table in parentheses with one
/// alias leaves either a bare table in parentheses, when the alias follows
/// this pair, or again a table in parentheses with one alias.
proof fn lemma_aliased_inner_layer(toks: Seq<Token>, pos: int)
    requires
        aliased_table_in_parens(toks, pos),
        paren_depth(toks, pos) >= 1,
    ensures
        paren_depth(toks, pos + 1) + 1 == paren_depth(toks, pos),
        toks[pos] is LParen,
        paren_depth(toks, pos + 1) >= 1 ==> toks[pos + 1] is LParen,
        ({
            let k = paren_depth(toks, pos);
            let m = rparen_run(toks, pos + k + 1);
            if m == k {
                &&& bare_table_in_parens(toks, pos + 1)
                &&& toks[pos + 2 * k] == Token::RParen
                &&& pos + 2 * k + 1 == pos + k + 1 + m
            } else {
                &&& aliased_table_in_parens(toks, pos + 1)
                &&& alias_name_pos(toks, pos + 1) == alias_name_pos(toks, pos)
                &&& aliased_end(toks, pos + 1) + 1 == aliased_end(toks, pos)
                &&& toks[aliased_end(toks, pos + 1)] == Token::RParen
            }
        }),
{
    let k = paren_depth(toks, pos);
    let w = pos + k;
    assert(toks[pos] is LParen);
    assert(paren_depth(toks, pos + 1) == k - 1);
    if k - 1 >= 1 {
        assert(toks[pos + 1] is LParen);
    }
    lemma_rparen_run(toks, w + 1);
    let m = rparen_run(toks, w + 1);
    if m == k {
        assert(toks[pos + 2 * k] == Token::RParen);
        assert forall|i: int| (pos + 1) + (k - 1) < i <= (pos + 1) + 2 * (k - 1) implies #[trigger] toks[i]
            == Token::RParen by {
            assert(w + 1 <= i < w + 1 + m);
        }
    } else {
        let j = alias_name_pos(toks, pos);
        assert(toks[j + (k - m)] == Token::RParen);
    }
}

/// Whether a second alias follows the alias of a table in parentheses: the
/// tokens from `pos` open one or more pairs of parentheses; inside one of
/// them stands a table with one alias as `aliased_table_in_parens` says,
/// and right after that pair's closing parenthesis stands another alias.
pub open spec fn second_alias_in_parens(toks: Seq<Token>, pos: int) -> bool
    decreases toks.len() - pos,
{
    if 0 <= pos < toks.len() && toks[pos] is LParen {
        second_alias_here(toks, pos) || second_alias_in_parens(toks, pos + 1)
    } else {
        false
    }
}

/// Whether the pair of parentheses opened at `pos` holds a table with one
/// alias and is followed by a second alias.
pub open spec fn second_alias_here(toks: Seq<Token>, pos: int) -> bool {
    let e = aliased_end(toks, pos + 1);
    let j = alias_name_at(toks, e + 1)->0;
    &&& aliased_table_in_parens(toks, pos + 1)
    &&& punct_at(toks, e, Token::RParen)
    &&& alias_name_at(toks, e + 1) is Some
    &&& j < toks.len()
    &&& toks[j] is Word
    &&& !punct_at(toks, j + 1, Token::LParen)
}

/// Where the first alias of `second_alias_in_parens` stands.
pub open spec fn first_alias_pos(toks: Seq<Token>, pos: int) -> int
    decreases toks.len() - pos,
{
    if 0 <= pos < toks.len() && toks[pos] is LParen {
        if second_alias_here(toks, pos) {
            alias_name_pos(toks, pos + 1)
        } else {
            first_alias_pos(toks, pos + 1)
        }
    } else {
        0
    }
}

/// The message `duplicate alias {word}`.
pub open spec fn duplicate_word_text(t: Token) -> Seq<char> {
    seq!['d', 'u', 'p', 'l', 'i', 'c', 'a', 't', 'e', ' ', 'a', 'l', 'i', 'a', 's', ' '] + token_text(t)
}

/// Whether `f` is the table named by the word at `at`, without an alias.
pub open spec fn is_bare_table(f: TableFactor, toks: Seq<Token>, at: int) -> bool {
    &&& f is Table
    &&& alias_of(f) is None
    &&& f->name.0@.len() == 1
    &&& ident_of_word(f->name.0@[0], toks[at])
}

/// Peeling one pair of parentheses off a bare table in parentheses leaves
/// a bare table in parentheses.
proof fn lemma_inner_layer(toks: Seq<Token>, pos: int)
    requires
        bare_table_in_parens(toks, pos),
        paren_depth(toks, pos) >= 1,
    ensures
        bare_table_in_parens(toks, pos + 1),
        paren_depth(toks, pos + 1) + 1 == paren_depth(toks, pos),
        toks[pos] is LParen,
        paren_depth(toks, pos + 1) >= 1 ==> toks[pos + 1] is LParen,
{
    let k = paren_depth(toks, pos);
    assert(toks[pos] is LParen);
    assert(paren_depth(toks, pos + 1) == k - 1);
    if k - 1 >= 1 {
        assert(toks[pos + 1] is LParen);
    }
    assert(toks[pos + 2 * k] == Token::RParen);
}

/// Whether `f` is in the form the parser produces: a nested join always
/// holds at least one join, since parentheses around a single relation are
/// dropped.
pub open spec fn nest_ok(f: TableFactor) -> bool {
    f is NestedJoin ==> f->NestedJoin_0.joins@.len() > 0
}

/// Whether the base relation and every joined relation of `t` are in the
/// form the parser produces.
pub open spec fn joins_ok(t: TableWithJoins) -> bool {
    &&& nest_ok(t.relation)
    &&& forall|i: int| 0 <= i < t.joins@.len() ==> nest_ok(#[trigger] t.joins@[i].relation)
}

/// The kinds of join that the join keywords can name.
enum JoinKind {
    Inner,
    Left,
    Right,
    Full,
    Cross,
}

/// Parses the keywords that introduce a join, if the token at `pos` starts
/// one: `[NATURAL] [INNER] JOIN`, `[NATURAL] {LEFT|RIGHT|FULL} [OUTER] JOIN`,
/// or `CROSS JOIN`. Returns the kind, whether it is natural, and where the
/// joined relation starts.
fn parse_join_keywords(toks: &Vec<Token>, pos: usize) -> (r: Result<
    Option<(JoinKind, bool, usize)>,
    ParserError,
>)
    requires
        pos <= toks@.len(),
    ensures
        r matches Err(e) ==> e is ParserError,
        r matches Ok(Some((_, _, q))) ==> advanced(toks@, pos as int, q as int),
        keyword_at(toks@, pos as int, "JOIN"@) ==> (r matches Ok(Some((k, natural, q))) && k is Inner
            && !natural && q == pos + 1),
        keyword_at(toks@, pos as int, "CROSS"@) && keyword_at(toks@, pos + 1, "JOIN"@) ==> (
        r matches Ok(Some((k, natural, q))) && k is Cross && !natural && q == pos + 2),
        keyword_at(toks@, pos as int, "NATURAL"@) && keyword_at(toks@, pos + 1, "JOIN"@) ==> (
        r matches Ok(Some((k, natural, q))) && k is Inner && natural && q == pos + 2),
        !keyword_at(toks@, pos as int, "NATURAL"@) && !keyword_at(toks@, pos as int, "CROSS"@)
            && !keyword_at(toks@, pos as int, "JOIN"@) && !keyword_at(toks@, pos as int, "INNER"@)
            && !keyword_at(toks@, pos as int, "LEFT"@) && !keyword_at(toks@, pos as int, "RIGHT"@)
            && !keyword_at(toks@, pos as int, "FULL"@) ==> (r matches Ok(None)),
{
    proof {
        reveal_strlit("NATURAL");
        reveal_strlit("CROSS");
        reveal_strlit("JOIN");
    }
    let n = toks.len();
    let natural = peek_keyword(toks, pos, "NATURAL");
    let k = if natural {
        pos + 1
    } else {
        pos
    };
    if peek_keyword(toks, k, "CROSS") {
        if natural {
            return Err(expected("a join type after NATURAL", toks, k));
        }
        if !peek_keyword(toks, k + 1, "JOIN") {
            return Err(expected("JOIN", toks, k + 1));
        }
        return Ok(Some((JoinKind::Cross, false, k + 2)));
    }
    let (kind, after) = if peek_keyword(toks, k, "JOIN") {
        return Ok(Some((JoinKind::Inner, natural, k + 1)));
    } else if peek_keyword(toks, k, "INNER") {
        (JoinKind::Inner, k + 1)
    } else if peek_keyword(toks, k, "LEFT") {
        (JoinKind::Left, k + 1)
    } else if peek_keyword(toks, k, "RIGHT") {
        (JoinKind::Right, k + 1)
    } else if peek_keyword(toks, k, "FULL") {
        (JoinKind::Full, k + 1)
    } else if natural {
        return Err(expected("a join type after NATURAL", toks, k));
    } else {
        return Ok(None);
    };
    let j = if !matches!(kind, JoinKind::Inner) && peek_keyword(toks, after, "OUTER") {
        after + 1
    } else {
        after
    };
    if !peek_keyword(toks, j, "JOIN") {
        return Err(expected("JOIN", toks, j));
    }
    Ok(Some((kind, natural, j + 1)))
}

/// Parses the condition of a non-cross join that starts at `pos`: `ON expr`
/// or `USING (columns)`; a natural join takes none.
fn parse_join_constraint(toks: &Vec<Token>, pos: usize, natural: bool) -> (r: Result<
    (JoinConstraint, usize),
    ParserError,
>)
    requires
        pos <= toks@.len(),
    ensures
        r matches Err(e) ==> e is ParserError,
        r matches Ok((_, q)) ==> pos <= q <= toks@.len(),
        natural ==> (r matches Ok((c, q)) && c is Natural && q == pos),
{
    let n = toks.len();
    if natural {
        Ok((JoinConstraint::Natural, pos))
    } else if peek_keyword(toks, pos, "ON") {
        let (e, q) = parse_expr(toks, pos + 1)?;
        Ok((JoinConstraint::On(e), q))
    } else if peek_keyword(toks, pos, "USING") {
        let (cols, q) = parse_parenthesized_idents(toks, pos + 1)?;
        Ok((JoinConstraint::Using(cols), q))
    } else {
        Err(expected("ON, or USING after JOIN", toks, pos))
    }
}

/// Parses one relation of a `FROM` clause: a table name, a sub-query in
/// parentheses (opened by `SELECT` or `WITH`; only `SELECT` queries are
/// parsed), or a parenthesized join tree, each with its alias.
///
/// Parentheses around a single relation carry no meaning and are dropped;
/// an alias after the closing parenthesis goes to that relation through
/// `apply_outer_alias`, so a relation that already has an alias is an error
/// naming that alias. A join tree in parentheses is kept as a nested join
/// and takes no alias: a name that follows it is left for the caller.
///
/// So a table name in any number of parentheses, with no alias or with
/// one alias inside or after any of them, parses to that table with that
/// alias; and a second alias after a parenthesized aliased table is an
/// error that names the first.
#[verifier::rlimit(100)]
pub fn parse_table_factor(toks: &Vec<Token>, pos: usize) -> (r: Result<
    (TableFactor, usize),
    ParserError,
>)
    ensures
        r matches Err(e) ==> e is ParserError,
        r matches Ok((f, q)) ==> advanced(toks@, pos as int, q as int) && nest_ok(f),
        pos < toks@.len() && toks@[pos as int] is Word && !keyword_at(toks@, pos as int, "LATERAL"@)
            ==> (r matches Ok((f, _)) ==> f is Table && ident_of_word(
            f->name.0@[0],
            toks@[pos as int],
        )),
        keyword_at(toks@, pos as int, "LATERAL"@) ==> (r matches Ok((f, _)) ==> f matches TableFactor::Derived {
            lateral: true,
            ..
        }),
        r matches Ok((f, q)) ==> (f is NestedJoin ==> punct_at(toks@, q - 1, Token::RParen)),
        bare_table_in_parens(toks@, pos as int) ==> (r matches Ok((f, q)) && is_bare_table(
            f,
            toks@,
            pos + paren_depth(toks@, pos as int),
        ) && q == pos + 2 * paren_depth(toks@, pos as int) + 1),
        aliased_table_in_parens(toks@, pos as int) ==> (r matches Ok((f, q)) && is_aliased_table(
            f,
            toks@,
            pos + paren_depth(toks@, pos as int),
            alias_name_pos(toks@, pos as int),
        ) && q == aliased_end(toks@, pos as int)),
        second_alias_in_parens(toks@, pos as int) ==> (r matches Err(e) && error_is(
            e,
            duplicate_word_text(toks@[first_alias_pos(toks@, pos as int)]),
        )),
        !(pos < toks@.len() && (toks@[pos as int] is Word || toks@[pos as int] is LParen)) ==> (
        r matches Err(e) && error_is(e, expected_text("identifier"@, toks@, pos as int))),
        punct_at(toks@, pos as int, Token::LParen) && natural_join_at(toks@, pos + 1) && punct_at(
            toks@,
            natural_join_end(toks@, pos + 1),
            Token::RParen,
        ) ==> (r matches Ok((f, q)) && f is NestedJoin && is_natural_join_of(
            *f->NestedJoin_0,
            toks@,
            pos + 1,
        ) && q == natural_join_end(toks@, pos + 1) + 1),
        ({
            let e = plain_relation_end(toks@, pos + 4);
            let j = alias_name_at(toks@, e + 1)->0;
            punct_at(toks@, pos as int, Token::LParen) && select_star_from_plain(toks@, pos + 1)
                && punct_at(toks@, e, Token::RParen) ==> (alias_name_at(toks@, e + 1) is None ==> (
            r matches Ok((f, q)) && f matches TableFactor::Derived { lateral: false, .. }
                && is_select_star_from_plain(*f->subquery, toks@, pos + 1) && alias_of(f) is None
                && q == e + 1)) && (alias_name_at(toks@, e + 1) is Some && j < toks@.len()
                && toks@[j] is Word && !punct_at(toks@, j + 1, Token::LParen) ==> (r matches Ok((f, q))
                && f matches TableFactor::Derived { lateral: false, .. } && is_select_star_from_plain(
                *f->subquery,
                toks@,
                pos + 1,
            ) && alias_of(f) is Some && ident_of_word(alias_of(f)->0.name, toks@[j])
                && alias_of(f)->0.columns@.len() == 0 && q == j + 1))
        }),
    decreases toks@.len() - pos, 3int,
{
    let n = toks.len();
    if peek_keyword(toks, pos, "LATERAL") {
        if !(peek_lparen(toks, pos + 1) && peek_keyword(toks, pos + 2, "SELECT")) {
            return Err(expected("subquery after LATERAL", toks, pos + 1));
        }
        return parse_derived(toks, pos + 2, true);
    }
    if peek_lparen(toks, pos) {
        proof {
            if bare_table_in_parens(toks@, pos as int) {
                lemma_inner_layer(toks@, pos as int);
            }
            if aliased_table_in_parens(toks@, pos as int) {
                lemma_aliased_inner_layer(toks@, pos as int);
            }
            if natural_join_at(toks@, pos + 1) && paren_depth(toks@, pos + 1) >= 1 {
                assert(toks@[pos + 1] is LParen);
            }
            if second_alias_in_parens(toks@, pos as int) {
                if paren_depth(toks@, pos + 1) >= 1 {
                    assert(toks@[pos + 1] is LParen);
                }
                if !second_alias_here(toks@, pos as int) {
                    reveal_with_fuel(second_alias_in_parens, 2);
                    assert(toks@[pos + 1] is LParen);
                }
            }
        }
        if peek_keyword(toks, pos + 1, "SELECT") || peek_keyword(toks, pos + 1, "WITH") {
            return parse_derived(toks, pos + 1, false);
        }
        let (interior, p) = parse_table_with_joins(toks, pos + 1)?;
        if !peek_rparen(toks, p) {
            return Err(expected(")", toks, p));
        }
        if interior.joins.len() > 0 {
            return Ok((TableFactor::NestedJoin(Box::new(interior)), p + 1));
        }
        let TableWithJoins { relation, joins: _ } = interior;
        if matches!(relation, TableFactor::NestedJoin(_)) {
            return Ok((relation, p + 1));
        }
        let (outer, p2) = parse_optional_table_alias(toks, p + 1)?;
        let f = apply_outer_alias(relation, outer)?;
        Ok((f, p2))
    } else {
        let (name, p) = parse_object_name(toks, pos)?;
        let (alias, q) = parse_optional_table_alias(toks, p)?;
        Ok((TableFactor::Table { name, alias }, q))
    }
}

/// Parses the rest of a derived table, from the `SELECT` after its opening
/// parenthesis: the query, the closing parenthesis and an optional alias.
pub fn parse_derived(toks: &Vec<Token>, pos: usize, lateral: bool) -> (r: Result<
    (TableFactor, usize),
    ParserError,
>)
    ensures
        r matches Err(e) ==> e is ParserError,
        r matches Ok((f, q)) ==> advanced(toks@, pos as int, q as int) && (f matches TableFactor::Derived {
            lateral: l,
            ..
        } && l == lateral),
        ({
            let e = plain_relation_end(toks@, pos + 3);
            select_star_from_plain(toks@, pos as int) && punct_at(toks@, e, Token::RParen)
                && alias_name_at(toks@, e + 1) is None ==> (r matches Ok((f, q)) && f is Derived
                && is_select_star_from_plain(*f->subquery, toks@, pos as int) && alias_of(f) is None
                && q == e + 1)
        }),
        ({
            let e = plain_relation_end(toks@, pos + 3);
            let j = alias_name_at(toks@, e + 1)->0;
            select_star_from_plain(toks@, pos as int) && punct_at(toks@, e, Token::RParen)
                && alias_name_at(toks@, e + 1) is Some && j < toks@.len() && toks@[j] is Word
                && !punct_at(toks@, j + 1, Token::LParen) ==> (r matches Ok((f, q)) && f is Derived
                && is_select_star_from_plain(*f->subquery, toks@, pos as int) && alias_of(f) is Some
                && ident_of_word(alias_of(f)->0.name, toks@[j]) && alias_of(f)->0.columns@.len() == 0
                && q == j + 1)
        }),
    decreases toks@.len() - pos, 7int,
{
    let n = toks.len();
    let (q, p) = parse_query(toks, pos)?;
    if !peek_rparen(toks, p) {
        return Err(expected(")", toks, p));
    }
    let (alias, p2) = parse_optional_table_alias(toks, p + 1)?;
    Ok((TableFactor::Derived { lateral, subquery: Box::new(q), alias }, p2))
}

/// Parses a relation followed by any number of joins.
#[verifier::rlimit(60)]
pub fn parse_table_with_joins(toks: &Vec<Token>, pos: usize) -> (r: Result<
    (TableWithJoins, usize),
    ParserError,
>)
    ensures
        r matches Err(e) ==> e is ParserError,
        r matches Ok((t, q)) ==> advanced(toks@, pos as int, q as int) && joins_ok(t),
        bare_table_in_parens(toks@, pos as int) && no_join_at(
            toks@,
            pos + 2 * paren_depth(toks@, pos as int) + 1,
        ) ==> (r matches Ok((t, q)) && t.joins@.len() == 0
            && is_bare_table(t.relation, toks@, pos + paren_depth(toks@, pos as int)) && q == pos + 2
            * paren_depth(toks@, pos as int) + 1),
        aliased_table_in_parens(toks@, pos as int) && no_join_at(toks@, aliased_end(toks@, pos as int))
            ==> (r matches Ok((t, q)) && t.joins@.len() == 0
            && is_aliased_table(
            t.relation,
            toks@,
            pos + paren_depth(toks@, pos as int),
            alias_name_pos(toks@, pos as int),
        ) && q == aliased_end(toks@, pos as int)),
        second_alias_in_parens(toks@, pos as int) ==> (r matches Err(e) && error_is(
            e,
            duplicate_word_text(toks@[first_alias_pos(toks@, pos as int)]),
        )),
        natural_join_at(toks@, pos as int) ==> (r matches Ok((t, q)) && is_natural_join_of(
            t,
            toks@,
            pos as int,
        ) && q == natural_join_end(toks@, pos as int)),
        nested_natural_at(toks@, pos as int) && no_join_at(toks@, nested_natural_end(toks@, pos as int))
            ==> (r matches Ok((t, q)) && t.joins@.len() == 0 && is_nested_natural(
            t.relation,
            toks@,
            pos as int,
        ) && q == nested_natural_end(toks@, pos as int)),
    decreases toks@.len() - pos, 4int,
{
    let n = toks.len();
    let ghost nj = natural_join_at(toks@, pos as int);
    let (relation, p0) = parse_table_factor(toks, pos)?;
    let mut joins: Vec<Join> = Vec::new();
    let mut p = p0;
    loop
        invariant
            n == toks@.len(),
            pos < p <= toks@.len(),
            forall|i: int| 0 <= i < joins@.len() ==> nest_ok(#[trigger] joins@[i].relation),
            nest_ok(relation),
            bare_table_in_parens(toks@, pos as int) && no_join_at(
                toks@,
                pos + 2 * paren_depth(toks@, pos as int) + 1,
            ) ==> joins@.len() == 0 && is_bare_table(
                relation,
                toks@,
                pos + paren_depth(toks@, pos as int),
            ) && p == pos + 2 * paren_depth(toks@, pos as int) + 1,
            aliased_table_in_parens(toks@, pos as int) && no_join_at(
                toks@,
                aliased_end(toks@, pos as int),
            ) ==> joins@.len() == 0 && is_aliased_table(
                relation,
                toks@,
                pos + paren_depth(toks@, pos as int),
                alias_name_pos(toks@, pos as int),
            ) && p == aliased_end(toks@, pos as int),
            !second_alias_in_parens(toks@, pos as int),
            nj == natural_join_at(toks@, pos as int),
            nested_natural_at(toks@, pos as int) && no_join_at(
                toks@,
                nested_natural_end(toks@, pos as int),
            ) ==> joins@.len() == 0 && is_nested_natural(relation, toks@, pos as int) && p
                == nested_natural_end(toks@, pos as int),
            nj ==> is_plain_relation(relation, toks@, pos as int),
            nj ==> (joins@.len() == 0 && p == plain_relation_end(toks@, pos as int)) || (
            joins@.len() == 1 && is_plain_relation(
                joins@[0].relation,
                toks@,
                plain_relation_end(toks@, pos as int) + 2,
            ) && joins@[0].join_operator == JoinOperator::Inner(JoinConstraint::Natural) && p
                == natural_join_end(toks@, pos as int)),
        ensures
            n == toks@.len(),
            pos < p <= toks@.len(),
            forall|i: int| 0 <= i < joins@.len() ==> nest_ok(#[trigger] joins@[i].relation),
            nest_ok(relation),
            bare_table_in_parens(toks@, pos as int) && no_join_at(
                toks@,
                pos + 2 * paren_depth(toks@, pos as int) + 1,
            ) ==> joins@.len() == 0 && is_bare_table(
                relation,
                toks@,
                pos + paren_depth(toks@, pos as int),
            ) && p == pos + 2 * paren_depth(toks@, pos as int) + 1,
            aliased_table_in_parens(toks@, pos as int) && no_join_at(
                toks@,
                aliased_end(toks@, pos as int),
            ) ==> joins@.len() == 0 && is_aliased_table(
                relation,
                toks@,
                pos + paren_depth(toks@, pos as int),
                alias_name_pos(toks@, pos as int),
            ) && p == aliased_end(toks@, pos as int),
            !second_alias_in_parens(toks@, pos as int),
            nj == natural_join_at(toks@, pos as int),
            nested_natural_at(toks@, pos as int) && no_join_at(
                toks@,
                nested_natural_end(toks@, pos as int),
            ) ==> joins@.len() == 0 && is_nested_natural(relation, toks@, pos as int) && p
                == nested_natural_end(toks@, pos as int),
            nj ==> is_plain_relation(relation, toks@, pos as int),
            nj ==> joins@.len() == 1 && is_plain_relation(
                joins@[0].relation,
                toks@,
                plain_relation_end(toks@, pos as int) + 2,
            ) && joins@[0].join_operator == JoinOperator::Inner(JoinConstraint::Natural) && p
                == natural_join_end(toks@, pos as int),
        decreases toks@.len() - p,
    {
        let found = parse_join_keywords(toks, p)?;
        proof {
            if nj && joins@.len() == 0 {
                assert(keyword_at(toks@, p as int, "NATURAL"@));
                assert(found is Some);
            }
        }
        match found {
            None => {
                break;
            },
            Some((kind, natural, q)) => {
                let (right, q2) = parse_table_factor(toks, q)?;
                let (join_operator, q3) = match kind {
                    JoinKind::Cross => (JoinOperator::CrossJoin, q2),
                    JoinKind::Inner => {
                        let (c, q3) = parse_join_constraint(toks, q2, natural)?;
                        (JoinOperator::Inner(c), q3)
                    },
                    JoinKind::Left => {
                        let (c, q3) = parse_join_constraint(toks, q2, natural)?;
                        (JoinOperator::LeftOuter(c), q3)
                    },
                    JoinKind::Right => {
                        let (c, q3) = parse_join_constraint(toks, q2, natural)?;
                        (JoinOperator::RightOuter(c), q3)
                    },
                    JoinKind::Full => {
                        let (c, q3) = parse_join_constraint(toks, q2, natural)?;
                        (JoinOperator::FullOuter(c), q3)
                    },
                };
                joins.push(Join { relation: right, join_operator });
                p = q3;
            },
        }
    }
    Ok((TableWithJoins { relation, joins }, p))
}

/// Whether the tokens from `pos` are a plain table in parentheses, with no
/// alias or with one (see `bare_table_in_parens`, `aliased_table_in_parens`),
/// and no join follows it.
pub open spec fn plain_relation_at(toks: Seq<Token>, pos: int) -> bool {
    &&& bare_table_in_parens(toks, pos) || aliased_table_in_parens(toks, pos)
    &&& no_join_at(toks, plain_relation_end(toks, pos))
}

/// Where the plain relation at `pos` ends.
pub open spec fn plain_relation_end(toks: Seq<Token>, pos: int) -> int {
    if bare_table_in_parens(toks, pos) {
        pos + 2 * paren_depth(toks, pos) + 1
    } else {
        aliased_end(toks, pos)
    }
}

/// Whether `f` is the table that the plain relation at `pos` names, with
/// its alias if it has one.
pub open spec fn is_plain_relation(f: TableFactor, toks: Seq<Token>, pos: int) -> bool {
    &&& bare_table_in_parens(toks, pos) ==> is_bare_table(f, toks, pos + paren_depth(toks, pos))
    &&& aliased_table_in_parens(toks, pos) ==> is_aliased_table(
        f,
        toks,
        pos + paren_depth(toks, pos),
        alias_name_pos(toks, pos),
    )
}

/// Whether the tokens from `pos` are `R1 NATURAL JOIN R2`: a table in
/// parentheses (no alias or one), the keywords, then a plain relation after
/// which no join follows.
pub open spec fn natural_join_at(toks: Seq<Token>, pos: int) -> bool {
    let e1 = plain_relation_end(toks, pos);
    &&& bare_table_in_parens(toks, pos) || aliased_table_in_parens(toks, pos)
    &&& keyword_at(toks, e1, "NATURAL"@)
    &&& keyword_at(toks, e1 + 1, "JOIN"@)
    &&& plain_relation_at(toks, e1 + 2)
}

/// Where the natural join at `pos` ends.
pub open spec fn natural_join_end(toks: Seq<Token>, pos: int) -> int {
    plain_relation_end(toks, plain_relation_end(toks, pos) + 2)
}

/// Whether `t` is the natural join that `natural_join_at(toks, pos)` spells:
/// its base is the first relation, and its one join is a natural inner
/// join against the second.
pub open spec fn is_natural_join_of(t: TableWithJoins, toks: Seq<Token>, pos: int) -> bool {
    &&& t.joins@.len() == 1
    &&& is_plain_relation(t.relation, toks, pos)
    &&& is_plain_relation(t.joins@[0].relation, toks, plain_relation_end(toks, pos) + 2)
    &&& t.joins@[0].join_operator == JoinOperator::Inner(JoinConstraint::Natural)
}

/// Whether the tokens from `pos` are a natural join in parentheses.
pub open spec fn nested_natural_at(toks: Seq<Token>, pos: int) -> bool {
    &&& punct_at(toks, pos, Token::LParen)
    &&& natural_join_at(toks, pos + 1)
    &&& punct_at(toks, natural_join_end(toks, pos + 1), Token::RParen)
}

/// Where the natural join in parentheses at `pos` ends.
pub open spec fn nested_natural_end(toks: Seq<Token>, pos: int) -> int {
    natural_join_end(toks, pos + 1) + 1
}

/// Whether `f` is the nested join that `nested_natural_at(toks, pos)` spells.
pub open spec fn is_nested_natural(f: TableFactor, toks: Seq<Token>, pos: int) -> bool {
    f is NestedJoin && is_natural_join_of(*f->NestedJoin_0, toks, pos + 1)
}

/// Whether the tokens from `pos` are `SELECT * FROM` a natural join in
/// parentheses, and the query ends there.
pub open spec fn select_star_from_nested(toks: Seq<Token>, pos: int) -> bool {
    let e = nested_natural_end(toks, pos + 3);
    &&& select_star_from(toks, pos)
    &&& nested_natural_at(toks, pos + 3)
    &&& no_join_at(toks, e)
    &&& !punct_at(toks, e, Token::Comma)
    &&& !keyword_at(toks, e, "WHERE"@)
}

/// Whether `query` is `SELECT *` from the natural join in parentheses at `pos + 3`.
pub open spec fn is_select_star_from_nested(query: Query, toks: Seq<Token>, pos: int) -> bool {
    let s = query.body->Select_0;
    &&& s.projection@.len() == 1
    &&& s.projection@[0] is Wildcard
    &&& s.from@.len() == 1
    &&& s.from@[0].joins@.len() == 0
    &&& is_nested_natural(s.from@[0].relation, toks, pos + 3)
    &&& s.selection is None
}

/// Whether `v` is the `FROM` list made of the single plain relation at `pos`.
pub open spec fn is_plain_from(v: Seq<TableWithJoins>, toks: Seq<Token>, pos: int) -> bool {
    &&& v.len() == 1
    &&& v[0].joins@.len() == 0
    &&& is_plain_relation(v[0].relation, toks, pos)
}

/// Whether the tokens from `pos` start `SELECT * FROM`.
pub open spec fn select_star_from(toks: Seq<Token>, pos: int) -> bool {
    &&& keyword_at(toks, pos, "SELECT"@)
    &&& punct_at(toks, pos + 1, Token::Mul)
    &&& keyword_at(toks, pos + 2, "FROM"@)
}

/// Whether the tokens from `pos` are `SELECT * FROM` and one plain relation
/// that ends the query.
pub open spec fn select_star_from_plain(toks: Seq<Token>, pos: int) -> bool {
    let e = plain_relation_end(toks, pos + 3);
    &&& select_star_from(toks, pos)
    &&& plain_relation_at(toks, pos + 3)
    &&& !punct_at(toks, e, Token::Comma)
    &&& !keyword_at(toks, e, "WHERE"@)
}

/// Whether `query` is `SELECT *` from the single plain relation at `pos + 3`.
pub open spec fn is_select_star_from_plain(query: Query, toks: Seq<Token>, pos: int) -> bool {
    let s = query.body->Select_0;
    &&& s.projection@.len() == 1
    &&& s.projection@[0] is Wildcard
    &&& is_plain_from(s.from@, toks, pos + 3)
    &&& s.selection is None
}

/// Parses a comma-separated list of relations with their joins, in order.
pub fn parse_from_list(toks: &Vec<Token>, pos: usize) -> (r: Result<
    (Vec<TableWithJoins>, usize),
    ParserError,
>)
    ensures
        r matches Err(e) ==> e is ParserError,
        r matches Ok((v, q)) ==> advanced(toks@, pos as int, q as int) && v@.len() >= 1 && (
        forall|i: int| 0 <= i < v@.len() ==> joins_ok(#[trigger] v@[i])),
        plain_relation_at(toks@, pos as int) && !punct_at(
            toks@,
            plain_relation_end(toks@, pos as int),
            Token::Comma,
        ) ==> (r matches Ok((v, q)) && is_plain_from(v@, toks@, pos as int) && q
            == plain_relation_end(toks@, pos as int)),
        second_alias_in_parens(toks@, pos as int) ==> (r matches Err(e) && error_is(
            e,
            duplicate_word_text(toks@[first_alias_pos(toks@, pos as int)]),
        )),
        nested_natural_at(toks@, pos as int) && no_join_at(toks@, nested_natural_end(toks@, pos as int))
            && !punct_at(toks@, nested_natural_end(toks@, pos as int), Token::Comma) ==> (
        r matches Ok((v, q)) && v@.len() == 1 && v@[0].joins@.len() == 0 && is_nested_natural(
            v@[0].relation,
            toks@,
            pos as int,
        ) && q == nested_natural_end(toks@, pos as int)),
    decreases toks@.len() - pos, 5int,
{
    let n = toks.len();
    let (first, p0) = parse_table_with_joins(toks, pos)?;
    let mut list: Vec<TableWithJoins> = Vec::new();
    list.push(first);
    let mut p = p0;
    while peek_comma(toks, p)
        invariant
            n == toks@.len(),
            pos < p <= toks@.len(),
            list@.len() >= 1,
            forall|i: int| 0 <= i < list@.len() ==> joins_ok(#[trigger] list@[i]),
            plain_relation_at(toks@, pos as int) && !punct_at(
                toks@,
                plain_relation_end(toks@, pos as int),
                Token::Comma,
            ) ==> list@.len() == 1 && list@[0].joins@.len() == 0 && is_plain_relation(
                list@[0].relation,
                toks@,
                pos as int,
            ) && p == plain_relation_end(toks@, pos as int),
            !second_alias_in_parens(toks@, pos as int),
            nested_natural_at(toks@, pos as int) && no_join_at(
                toks@,
                nested_natural_end(toks@, pos as int),
            ) && !punct_at(toks@, nested_natural_end(toks@, pos as int), Token::Comma) ==> list@.len()
                == 1 && list@[0].joins@.len() == 0 && is_nested_natural(
                list@[0].relation,
                toks@,
                pos as int,
            ) && p == nested_natural_end(toks@, pos as int),
        decreases toks@.len() - p,
    {
        let (t, q) = parse_table_with_joins(toks, p + 1)?;
        list.push(t);
        p = q;
    }
    Ok((list, p))
}

/// Parses one item of a select list: `*`, or an expression with an
/// optional alias.
pub fn parse_select_item(toks: &Vec<Token>, pos: usize) -> (r: Result<
    (SelectItem, usize),
    ParserError,
>)
    ensures
        r matches Err(e) ==> e is ParserError,
        r matches Ok((_, q)) ==> advanced(toks@, pos as int, q as int),
        punct_at(toks@, pos as int, Token::Mul) ==> (r matches Ok((item, q)) && item is Wildcard
            && q == pos + 1),
    decreases toks@.len() - pos, 3int,
{
    let n = toks.len();
    if pos < n && matches!(toks[pos], Token::Mul) {
        return Ok((SelectItem::Wildcard, pos + 1));
    }
    let (expr, p) = parse_expr(toks, pos)?;
    let alias_pos = if peek_keyword(toks, p, "AS") {
        p + 1
    } else if p < n && matches!(toks[p], Token::Word(_)) && !reserved_for_table_alias(toks, p) {
        p
    } else {
        return Ok((SelectItem::UnnamedExpr(expr), p));
    };
    match parse_identifier(toks, alias_pos) {
        Ok((alias, q)) => Ok((SelectItem::ExprWithAlias { expr, alias }, q)),
        Err(_) => Err(expected("an identifier after AS", toks, alias_pos)),
    }
}

/// Parses a comma-separated select list.
pub fn parse_projection(toks: &Vec<Token>, pos: usize) -> (r: Result<
    (Vec<SelectItem>, usize),
    ParserError,
>)
    ensures
        r matches Err(e) ==> e is ParserError,
        r matches Ok((v, q)) ==> advanced(toks@, pos as int, q as int) && v@.len() >= 1,
        punct_at(toks@, pos as int, Token::Mul) && !punct_at(toks@, pos + 1, Token::Comma) ==> (
        r matches Ok((v, q)) && v@.len() == 1 && v@[0] is Wildcard && q == pos + 1),
    decreases toks@.len() - pos, 4int,
{
    let n = toks.len();
    let (first, p0) = parse_select_item(toks, pos)?;
    let mut items: Vec<SelectItem> = Vec::new();
    items.push(first);
    let mut p = p0;
    while peek_comma(toks, p)
        invariant
            n == toks@.len(),
            pos < p <= toks@.len(),
            items@.len() >= 1,
            punct_at(toks@, pos as int, Token::Mul) && !punct_at(toks@, pos + 1, Token::Comma) ==> p
                == pos + 1 && items@.len() == 1 && items@[0] is Wildcard,
        decreases toks@.len() - p,
    {
        let (item, q) = parse_select_item(toks, p + 1)?;
        items.push(item);
        p = q;
    }
    Ok((items, p))
}

/// Parses `SELECT items [FROM relations] [WHERE condition]`.
pub fn parse_query(toks: &Vec<Token>, pos: usize) -> (r: Result<(Query, usize), ParserError>)
    ensures
        r matches Err(e) ==> e is ParserError,
        r matches Ok((query, q)) ==> advanced(toks@, pos as int, q as int) && (forall|i: int|
            0 <= i < query.body->Select_0.from@.len() ==> joins_ok(
                #[trigger] query.body->Select_0.from@[i],
            )),
        !keyword_at(toks@, pos as int, "SELECT"@) ==> (r matches Err(e) && error_is(
            e,
            expected_text("SELECT"@, toks@, pos as int),
        )),
        select_star_from_plain(toks@, pos as int) ==> (r matches Ok((query, q))
            && is_select_star_from_plain(query, toks@, pos as int) && q == plain_relation_end(
            toks@,
            pos + 3,
        )),
        select_star_from(toks@, pos as int) && second_alias_in_parens(toks@, pos + 3) ==> (
        r matches Err(e) && error_is(e, duplicate_word_text(toks@[first_alias_pos(toks@, pos + 3)]))),
        select_star_from_nested(toks@, pos as int) ==> (r matches Ok((query, q))
            && is_select_star_from_nested(query, toks@, pos as int) && q == nested_natural_end(
            toks@,
            pos + 3,
        )),
    decreases toks@.len() - pos, 6int,
{
    let n = toks.len();
    if !peek_keyword(toks, pos, "SELECT") {
        return Err(expected("SELECT", toks, pos));
    }
    let (projection, p) = parse_projection(toks, pos + 1)?;
    let (from, p2) = if peek_keyword(toks, p, "FROM") {
        parse_from_list(toks, p + 1)?
    } else {
        (Vec::new(), p)
    };
    let (selection, p3) = if peek_keyword(toks, p2, "WHERE") {
        let (e, q) = parse_expr(toks, p2 + 1)?;
        (Some(e), q)
    } else {
        (None, p2)
    };
    Ok((Query { body: SetExpr::Select(Box::new(Select { projection, from, selection })) }, p3))
}

/// Whether the tokens from `pos` are `CREATE TABLE name ( c1 t1, ..., cn tn )`
/// with a one-word name and `n >= 1` columns, each a word for its name and
/// a word for its type.
pub open spec fn create_table_shape(toks: Seq<Token>, pos: int, n: int) -> bool {
    &&& 0 <= pos
    &&& n >= 1
    &&& keyword_at(toks, pos, "CREATE"@)
    &&& keyword_at(toks, pos + 1, "TABLE"@)
    &&& toks[pos + 2] is Word
    &&& punct_at(toks, pos + 3, Token::LParen)
    &&& pos + 3 + 3 * n < toks.len()
    &&& forall|i: int| 0 <= i < n ==> (#[trigger] toks[pos + 4 + 3 * i]) is Word && toks[pos + 5 + 3 * i] is Word
    &&& forall|i: int| 0 <= i < n - 1 ==> #[trigger] toks[pos + 6 + 3 * i] == Token::Comma
    &&& toks[pos + 3 + 3 * n] == Token::RParen
}

/// Whether `cols` are the columns of `create_table_shape` at `pos`, in order.
pub open spec fn columns_of(cols: Seq<ColumnDef>, toks: Seq<Token>, pos: int) -> bool {
    forall|i: int|
        0 <= i < cols.len() ==> ident_of_word((#[trigger] cols[i]).name, toks[pos + 4 + 3 * i])
            && ident_of_word(cols[i].data_type, toks[pos + 5 + 3 * i])
}

proof fn lemma_create_table_shape_unique(toks: Seq<Token>, pos: int, a: int, b: int)
    requires
        create_table_shape(toks, pos, a),
    ensures
        create_table_shape(toks, pos, b) ==> a == b,
{
    if create_table_shape(toks, pos, b) && a != b {
        if a < b {
            assert(toks[pos + 6 + 3 * (a - 1)] == Token::Comma);
        } else {
            assert(toks[pos + 6 + 3 * (b - 1)] == Token::Comma);
        }
    }
}

/// Whether `st` is the statement that `create_table_shape(toks, pos, n)`
/// describes.
pub open spec fn is_create_table_of(st: Statement, toks: Seq<Token>, pos: int, n: int) -> bool {
    &&& st is CreateTable
    &&& st->name.0@.len() == 1
    &&& ident_of_word(st->name.0@[0], toks[pos + 2])
    &&& st->columns@.len() == n
    &&& columns_of(st->columns@, toks, pos)
}

/// Parses `CREATE TABLE name (column type, ...)`.
pub fn parse_create_table(toks: &Vec<Token>, pos: usize) -> (r: Result<
    (Statement, usize),
    ParserError,
>)
    ensures
        r matches Err(e) ==> e is ParserError,
        r matches Ok((st, q)) ==> advanced(toks@, pos as int, q as int) && st is CreateTable,
        r matches Ok((st, _)) ==> pos + 2 < toks@.len() && ident_of_word(
            st->name.0@[0],
            toks@[pos + 2],
        ),
        forall|n: int|
            #[trigger] create_table_shape(toks@, pos as int, n) ==> (r matches Ok((st, q))
                && is_create_table_of(st, toks@, pos as int, n) && q == pos + 4 + 3 * n),
{
    let n = toks.len();
    let ghost cols: int = choose|k: int| create_table_shape(toks@, pos as int, k);
    let ghost shaped = create_table_shape(toks@, pos as int, cols);
    proof {
        assert forall|m: int| create_table_shape(toks@, pos as int, m) implies m == cols by {
            lemma_create_table_shape_unique(toks@, pos as int, m, cols);
        }
    }
    if !peek_keyword(toks, pos, "CREATE") {
        return Err(expected("CREATE", toks, pos));
    }
    if !peek_keyword(toks, pos + 1, "TABLE") {
        return Err(expected("TABLE", toks, pos + 1));
    }
    let (name, p) = parse_object_name(toks, pos + 2)?;
    if !peek_lparen(toks, p) {
        return Err(expected("(", toks, p));
    }
    let mut columns: Vec<ColumnDef> = Vec::new();
    let mut q = p + 1;
    let mut done = false;
    while !done
        invariant
            n == toks@.len(),
            pos + 2 < p < q <= toks@.len(),
            shaped == create_table_shape(toks@, pos as int, cols),
            forall|m: int| #[trigger] create_table_shape(toks@, pos as int, m) ==> m == cols,
            shaped ==> p == pos + 3 && name.0@.len() == 1,
            shaped ==> q == pos + 4 + 3 * columns@.len(),
            shaped ==> columns_of(columns@, toks@, pos as int),
            shaped ==> (if done {
                columns@.len() == cols
            } else {
                columns@.len() < cols
            }),
        decreases toks@.len() - q, if done {
            0int
        } else {
            1int
        },
    {
        let ghost k = columns@.len() as int;
        let ghost earlier = columns@;
        let (col, q1) = parse_identifier(toks, q)?;
        let (data_type, q2) = parse_identifier(toks, q1)?;
        columns.push(ColumnDef { name: col, data_type });
        assert(shaped ==> columns_of(columns@, toks@, pos as int)) by {
            if shaped {
                assert forall|i: int| 0 <= i < columns@.len() implies ident_of_word(
                    (#[trigger] columns@[i]).name,
                    toks@[pos + 4 + 3 * i],
                ) && ident_of_word(columns@[i].data_type, toks@[pos + 5 + 3 * i]) by {
                    if i < k {
                        assert(columns@[i] == earlier[i]);
                    }
                }
            }
        }
        if peek_comma(toks, q2) {
            proof {
                if shaped && k == cols - 1 {
                    assert(toks@[pos + 3 + 3 * cols] == Token::RParen);
                }
            }
            q = q2 + 1;
        } else if peek_rparen(toks, q2) {
            proof {
                if shaped && k < cols - 1 {
                    assert(toks@[pos + 6 + 3 * k] == Token::Comma);
                }
            }
            q = q2 + 1;
            done = true;
        } else {
            proof {
                if shaped {
                    if k < cols - 1 {
                        assert(toks@[pos + 6 + 3 * k] == Token::Comma);
                    }
                }
            }
            return Err(expected(",", toks, q2));
        }
    }
    Ok((Statement::CreateTable { name, columns }, q))
}

proof fn lemma_select_is_not_create(toks: Seq<Token>, pos: int)
    ensures
        !(keyword_at(toks, pos, "SELECT"@) && keyword_at(toks, pos, "CREATE"@)),
{
    reveal_strlit("SELECT");
    reveal_strlit("CREATE");
    if keyword_at(toks, pos, "SELECT"@) && keyword_at(toks, pos, "CREATE"@) {
        let v = toks[pos]->Word_0.value@;
        assert(v[0] == "SELECT"@[0] || v[0] as u32 as int == "SELECT"@[0] as u32 as int + 32);
        assert(v[0] == "CREATE"@[0] || v[0] as u32 as int == "CREATE"@[0] as u32 as int + 32);
    }
}

/// Parses one statement: a query or a `CREATE TABLE`.
pub fn parse_statement(toks: &Vec<Token>, pos: usize) -> (r: Result<
    (Statement, usize),
    ParserError,
>)
    ensures
        r matches Err(e) ==> e is ParserError,
        r matches Ok((_, q)) ==> advanced(toks@, pos as int, q as int),
        !keyword_at(toks@, pos as int, "SELECT"@) && !keyword_at(toks@, pos as int, "CREATE"@) ==> (
        r matches Err(e) && error_is(e, expected_text("an SQL statement"@, toks@, pos as int))),
        forall|n: int|
            #[trigger] create_table_shape(toks@, pos as int, n) ==> (r matches Ok((st, q))
                && is_create_table_of(st, toks@, pos as int, n) && q == pos + 4 + 3 * n),
        select_star_from_plain(toks@, pos as int) ==> (r matches Ok((st, q)) && st is Query
            && is_select_star_from_plain(*st->Query_0, toks@, pos as int) && q == plain_relation_end(
            toks@,
            pos + 3,
        )),
        select_star_from(toks@, pos as int) && second_alias_in_parens(toks@, pos + 3) ==> (
        r matches Err(e) && error_is(e, duplicate_word_text(toks@[first_alias_pos(toks@, pos + 3)]))),
        select_star_from_nested(toks@, pos as int) ==> (r matches Ok((st, q)) && st is Query
            && is_select_star_from_nested(*st->Query_0, toks@, pos as int) && q == nested_natural_end(
            toks@,
            pos + 3,
        )),
{
    proof {
        lemma_select_is_not_create(toks@, pos as int);
    }
    if peek_keyword(toks, pos, "SELECT") {
        let (q, p) = parse_query(toks, pos)?;
        Ok((Statement::Query(Box::new(q)), p))
    } else if peek_keyword(toks, pos, "CREATE") {
        parse_create_table(toks, pos)
    } else {
        Err(expected("an SQL statement", toks, pos))
    }
}

/// Parses the statements of `toks`, separated by semicolons. A statement
/// followed by anything but a semicolon or the end is an error
/// `Expected end of statement, found: {token}`.
pub fn parse_statements(toks: &Vec<Token>) -> (r: Result<Vec<Statement>, ParserError>)
    ensures
        r matches Err(e) ==> e is ParserError,
        (forall|i: int| 0 <= i < toks@.len() ==> #[trigger] toks@[i] == Token::SemiColon) ==> (
        r matches Ok(v) && v@.len() == 0),
        r matches Ok(v) ==> v@.len() <= toks@.len(),
        forall|c: int|
            #[trigger] create_table_shape(toks@, 0, c) && toks@.len() == 4 + 3 * c ==> (r matches Ok(
                v,
            ) && v@.len() == 1 && is_create_table_of(v@[0], toks@, 0, c)),
        select_star_from_plain(toks@, 0) && plain_relation_end(toks@, 3) == toks@.len() ==> (
        r matches Ok(v) && v@.len() == 1 && v@[0] is Query && is_select_star_from_plain(
            *v@[0]->Query_0,
            toks@,
            0,
        )),
        select_star_from(toks@, 0) && second_alias_in_parens(toks@, 3) ==> (r matches Err(e)
            && error_is(e, duplicate_word_text(toks@[first_alias_pos(toks@, 3)]))),
        select_star_from_nested(toks@, 0) && nested_natural_end(toks@, 3) == toks@.len() ==> (
        r matches Ok(v) && v@.len() == 1 && v@[0] is Query && is_select_star_from_nested(
            *v@[0]->Query_0,
            toks@,
            0,
        )),
        ({
            let e = nested_natural_end(toks@, 3);
            select_star_from_nested(toks@, 0) && e < toks@.len() && !punct_at(
                toks@,
                e,
                Token::SemiColon,
            ) ==> (r matches Err(x) && error_is(x, expected_text("end of statement"@, toks@, e)))
        }),
{
    let ghost ne = nested_natural_end(toks@, 3);
    let ghost nsel = select_star_from_nested(toks@, 0) && !punct_at(toks@, ne, Token::SemiColon);
    let ghost sel = select_star_from_plain(toks@, 0) && plain_relation_end(toks@, 3) == toks@.len();
    let ghost dup = select_star_from(toks@, 0) && second_alias_in_parens(toks@, 3);
    let n = toks.len();
    let ghost cols: int = choose|k: int| create_table_shape(toks@, 0, k) && toks@.len() == 4 + 3 * k;
    let ghost shaped = create_table_shape(toks@, 0, cols) && toks@.len() == 4 + 3 * cols;
    proof {
        assert forall|m: int| #[trigger]
            create_table_shape(toks@, 0, m) && toks@.len() == 4 + 3 * m implies shaped && m == cols by {
            lemma_create_table_shape_unique(toks@, 0, m, cols);
        }
    }
    let mut stmts: Vec<Statement> = Vec::new();
    let mut p: usize = 0;
    let mut expecting_delimiter = false;
    loop
        invariant
            n == toks@.len(),
            p <= n,
            stmts@.len() <= p,
            shaped == (create_table_shape(toks@, 0, cols) && toks@.len() == 4 + 3 * cols),
            forall|m: int|
                #[trigger] create_table_shape(toks@, 0, m) && toks@.len() == 4 + 3 * m ==> shaped
                    && m == cols,
            shaped ==> (p == 0 && stmts@.len() == 0 && !expecting_delimiter) || (p == n
                && stmts@.len() == 1 && is_create_table_of(stmts@[0], toks@, 0, cols)),
            (forall|i: int| 0 <= i < toks@.len() ==> #[trigger] toks@[i] == Token::SemiColon) ==> (
            stmts@.len() == 0 && !expecting_delimiter),
            sel == (select_star_from_plain(toks@, 0) && plain_relation_end(toks@, 3) == toks@.len()),
            dup == (select_star_from(toks@, 0) && second_alias_in_parens(toks@, 3)),
            sel ==> (p == 0 && stmts@.len() == 0 && !expecting_delimiter) || (p == n && stmts@.len()
                == 1 && stmts@[0] is Query && is_select_star_from_plain(*stmts@[0]->Query_0, toks@, 0)),
            dup ==> p == 0 && stmts@.len() == 0 && !expecting_delimiter,
            ne == nested_natural_end(toks@, 3),
            nsel == (select_star_from_nested(toks@, 0) && !punct_at(toks@, ne, Token::SemiColon)),
            nsel ==> (p == 0 && stmts@.len() == 0 && !expecting_delimiter) || (p == ne && stmts@.len()
                == 1 && expecting_delimiter && stmts@[0] is Query && is_select_star_from_nested(
                *stmts@[0]->Query_0,
                toks@,
                0,
            )),
        ensures
            nsel ==> ne == toks@.len() && stmts@.len() == 1 && stmts@[0] is Query
                && is_select_star_from_nested(*stmts@[0]->Query_0, toks@, 0),
            sel ==> stmts@.len() == 1 && stmts@[0] is Query && is_select_star_from_plain(
                *stmts@[0]->Query_0,
                toks@,
                0,
            ),
            !dup,
            p >= n,
            stmts@.len() <= p,
            (forall|i: int| 0 <= i < toks@.len() ==> #[trigger] toks@[i] == Token::SemiColon) ==> (
            stmts@.len() == 0),
            shaped ==> stmts@.len() == 1 && is_create_table_of(stmts@[0], toks@, 0, cols),
            forall|m: int|
                #[trigger] create_table_shape(toks@, 0, m) && toks@.len() == 4 + 3 * m ==> shaped
                    && m == cols,
        decreases n - p,
    {
        let ghost start = p;
        while peek_semicolon(toks, p)
            invariant
                n == toks@.len(),
                start <= p <= n,
                stmts@.len() <= p,
                shaped == (create_table_shape(toks@, 0, cols) && toks@.len() == 4 + 3 * cols),
                shaped ==> p == start,
                sel == (select_star_from_plain(toks@, 0) && plain_relation_end(toks@, 3)
                    == toks@.len()),
                dup == (select_star_from(toks@, 0) && second_alias_in_parens(toks@, 3)),
                sel || dup ==> p == start,
                sel ==> (p == 0 && stmts@.len() == 0 && !expecting_delimiter) || (p == n
                    && stmts@.len() == 1 && stmts@[0] is Query && is_select_star_from_plain(
                    *stmts@[0]->Query_0,
                    toks@,
                    0,
                )),
                dup ==> p == 0 && stmts@.len() == 0 && !expecting_delimiter,
                ne == nested_natural_end(toks@, 3),
                nsel == (select_star_from_nested(toks@, 0) && !punct_at(toks@, ne, Token::SemiColon)),
                nsel ==> p == start,
                nsel ==> (p == 0 && stmts@.len() == 0 && !expecting_delimiter) || (p == ne
                    && stmts@.len() == 1 && expecting_delimiter && stmts@[0] is Query
                    && is_select_star_from_nested(*stmts@[0]->Query_0, toks@, 0)),
                shaped ==> (p == 0 && stmts@.len() == 0 && !expecting_delimiter) || (p == n
                    && stmts@.len() == 1 && is_create_table_of(stmts@[0], toks@, 0, cols)),
                (forall|i: int| 0 <= i < toks@.len() ==> #[trigger] toks@[i] == Token::SemiColon)
                    ==> (stmts@.len() == 0 && !expecting_delimiter),
            decreases n - p,
        {
            p = p + 1;
            expecting_delimiter = false;
        }
        if p >= n {
            break;
        }
        if expecting_delimiter {
            return Err(expected("end of statement", toks, p));
        }
        proof {
            if shaped {
                assert(create_table_shape(toks@, p as int, cols));
            }
        }
        let (st, q) = parse_statement(toks, p)?;
        stmts.push(st);
        p = q;
        expecting_delimiter = true;
    }
    Ok(stmts)
}

/// What `parse_statements` promises of its result `r` on the tokens `toks`:
/// all-semicolon input gives no statements; `SELECT * FROM` a table in
/// parentheses (no alias or one) gives that one query; a second alias after
/// a parenthesized aliased table gives `duplicate alias {first}`;
/// `SELECT * FROM (R1 NATURAL JOIN R2)` gives that nested join, and any
/// token after its closing parenthesis but a semicolon is reported as
/// `Expected end of statement, found: {token}`.
pub open spec fn statements_outcome(toks: Seq<Token>, r: Result<Vec<Statement>, ParserError>) -> bool {
    &&& r matches Err(e) ==> e is ParserError
    &&& (forall|i: int| 0 <= i < toks.len() ==> #[trigger] toks[i] == Token::SemiColon) ==> (
    r matches Ok(v) && v@.len() == 0)
    &&& select_star_from_plain(toks, 0) && plain_relation_end(toks, 3) == toks.len() ==> (
    r matches Ok(v) && v@.len() == 1 && v@[0] is Query && is_select_star_from_plain(
        *v@[0]->Query_0,
        toks,
        0,
    ))
    &&& select_star_from(toks, 0) && second_alias_in_parens(toks, 3) ==> (r matches Err(e)
        && error_is(e, duplicate_word_text(toks[first_alias_pos(toks, 3)])))
    &&& select_star_from_nested(toks, 0) && nested_natural_end(toks, 3) == toks.len() ==> (
    r matches Ok(v) && v@.len() == 1 && v@[0] is Query && is_select_star_from_nested(
        *v@[0]->Query_0,
        toks,
        0,
    ))
    &&& ({
        let e = nested_natural_end(toks, 3);
        select_star_from_nested(toks, 0) && e < toks.len() && !punct_at(toks, e, Token::SemiColon)
            ==> (r matches Err(x) && error_is(x, expected_text("end of statement"@, toks, e)))
    })
}

/// Whether `l` is the unquoted keyword `kw`.
pub open spec fn is_keyword_lexeme(l: Lexeme, kw: Seq<char>) -> bool {
    l matches Lexeme::Word { value, quote } && quote is None && spells_keyword(value, kw)
}

/// Whether `l` is a word.
pub open spec fn is_word_lexeme(l: Lexeme) -> bool {
    l is Word
}

/// Whether `id` is the identifier that the word lexeme `l` spells.
pub open spec fn ident_of_lexeme(id: Ident, l: Lexeme) -> bool {
    l matches Lexeme::Word { value, quote } && id.value@ == value && id.quote_style == quote
}

/// Whether the lexemes `ls` are exactly `CREATE TABLE name ( c1 t1, ..., cn tn )`
/// with a one-word name and `n >= 1` columns.
pub open spec fn create_table_lexemes(ls: Seq<Lexeme>, n: int) -> bool {
    &&& n >= 1
    &&& ls.len() == 4 + 3 * n
    &&& is_keyword_lexeme(ls[0], "CREATE"@)
    &&& is_keyword_lexeme(ls[1], "TABLE"@)
    &&& is_word_lexeme(ls[2])
    &&& ls[3] == Lexeme::Symbol(Token::LParen)
    &&& forall|i: int| 0 <= i < n ==> is_word_lexeme(#[trigger] ls[4 + 3 * i]) && is_word_lexeme(ls[5 + 3 * i])
    &&& forall|i: int| 0 <= i < n - 1 ==> #[trigger] ls[6 + 3 * i] == Lexeme::Symbol(Token::Comma)
    &&& ls[3 + 3 * n] == Lexeme::Symbol(Token::RParen)
}

/// Whether `st` is the `CREATE TABLE` statement that `create_table_lexemes(ls, n)` spells.
pub open spec fn create_table_from_lexemes(st: Statement, ls: Seq<Lexeme>, n: int) -> bool {
    &&& st is CreateTable
    &&& st->name.0@.len() == 1
    &&& ident_of_lexeme(st->name.0@[0], ls[2])
    &&& st->columns@.len() == n
    &&& forall|i: int|
        0 <= i < n ==> ident_of_lexeme((#[trigger] st->columns@[i]).name, ls[4 + 3 * i])
            && ident_of_lexeme(st->columns@[i].data_type, ls[5 + 3 * i])
}

proof fn lemma_create_table_tokens(toks: Seq<Token>, n: int)
    requires
        create_table_lexemes(lexemes_of(toks), n),
    ensures
        create_table_shape(toks, 0, n) && toks.len() == 4 + 3 * n,
        forall|st: Statement|
            #[trigger] is_create_table_of(st, toks, 0, n) ==> create_table_from_lexemes(
                st,
                lexemes_of(toks),
                n,
            ),
{
    let ls = lexemes_of(toks);
    assert(ls.len() == toks.len());
    assert forall|i: int| 0 <= i < toks.len() implies #[trigger] ls[i] == lexeme_of(toks[i]) by {}
    assert(toks[3] == Token::LParen);
    assert(toks[3 + 3 * n] == Token::RParen);
    assert forall|i: int| 0 <= i < n implies (#[trigger] toks[0 + 4 + 3 * i]) is Word && toks[0 + 5
        + 3 * i] is Word by {
        assert(is_word_lexeme(ls[4 + 3 * i]));
    }
    assert forall|i: int| 0 <= i < n - 1 implies #[trigger] toks[0 + 6 + 3 * i] == Token::Comma by {
        assert(ls[6 + 3 * i] == Lexeme::Symbol(Token::Comma));
    }
    assert forall|st: Statement| #[trigger]
        is_create_table_of(st, toks, 0, n) implies create_table_from_lexemes(st, ls, n) by {
        assert forall|i: int| 0 <= i < n implies ident_of_lexeme(
            (#[trigger] st->columns@[i]).name,
            ls[4 + 3 * i],
        ) && ident_of_lexeme(st->columns@[i].data_type, ls[5 + 3 * i]) by {
            assert(ident_of_word(st->columns@[i].name, toks[0 + 4 + 3 * i]));
        }
    }
}

/// Splits `sql` into tokens under `dialect`'s rules and parses its
/// statements. A lexical error comes back as `TokenizerError` with the
/// tokenizer's message; grammar errors as `ParserError`.
pub fn parse_sql_statements<D: Dialect>(dialect: &D, sql: &str) -> (r: Result<
    Vec<Statement>,
    ParserError,
>)
    ensures
        sql@.len() == 0 ==> (r matches Ok(v) && v@.len() == 0),
        lex(dialect, sql@) is Err <==> r matches Err(ParserError::TokenizerError(_)),
        r matches Err(ParserError::TokenizerError(m)) ==> lex(dialect, sql@) == Err::<
            Seq<Lexeme>,
            Seq<char>,
        >(m@),
        forall|n: int|
            lex(dialect, sql@) is Ok && #[trigger] create_table_lexemes(lex(dialect, sql@)->Ok_0, n)
                ==> (r matches Ok(v) && v@.len() == 1 && create_table_from_lexemes(
                v@[0],
                lex(dialect, sql@)->Ok_0,
                n,
            )),
        lex(dialect, sql@) is Ok ==> exists|toks: Seq<Token>|
            lexemes_of(toks) == lex(dialect, sql@)->Ok_0 && #[trigger] statements_outcome(toks, r),
{
    match tokenize(dialect, sql) {
        Err(e) => Err(ParserError::TokenizerError(e.message)),
        Ok(toks) => {
            let r = parse_statements(&toks);
            assert(statements_outcome(toks@, r));
            assert forall|n: int|
                lex(dialect, sql@) is Ok && #[trigger] create_table_lexemes(
                    lex(dialect, sql@)->Ok_0,
                    n,
                ) implies (r matches Ok(v) && v@.len() == 1 && create_table_from_lexemes(
                v@[0],
                lex(dialect, sql@)->Ok_0,
                n,
            )) by {
                lemma_create_table_tokens(toks@, n);
            }
            r
        },
    }
}

} // verus!
