use vstd::prelude::*;
use crate::ast::closing_quote;
use crate::dialect::Dialect;
use crate::text::{chars_of, push_str_chars, string_from_chars, string_of_range};

verus! {

/// An identifier or keyword, with the quote character that delimited it.
#[derive(Debug, Clone, PartialEq, Eq)]
pub struct Word {
    pub value: String,
    pub quote_style: Option<char>,
}

/// A lexical unit of SQL text.
#[derive(Debug, Clone, PartialEq, Eq)]
pub enum Token {
    Word(Word),
    Number(String),
    SingleQuotedString(String),
    Comma,
    LParen,
    RParen,
    Period,
    SemiColon,
    Mul,
    Plus,
    Minus,
    Div,
    Eq,
    Neq,
    Lt,
    Gt,
    LtEq,
    GtEq,
}

/// A lexical error: the text cannot be split into tokens.
#[derive(Debug, Clone, PartialEq, Eq)]
pub struct TokenizerError {
    pub message: String,
}

/// How a token is written back in messages.
pub open spec fn token_text(t: Token) -> Seq<char> {
    match t {
        Token::Word(w) => match w.quote_style {
            None => w.value@,
            Some(q) => seq![q] + w.value@ + seq![closing_quote(q)],
        },
        Token::Number(n) => n@,
        Token::SingleQuotedString(s) => seq!['\''] + s@ + seq!['\''],
        Token::Comma => seq![','],
        Token::LParen => seq!['('],
        Token::RParen => seq![')'],
        Token::Period => seq!['.'],
        Token::SemiColon => seq![';'],
        Token::Mul => seq!['*'],
        Token::Plus => seq!['+'],
        Token::Minus => seq!['-'],
        Token::Div => seq!['/'],
        Token::Eq => seq!['='],
        Token::Neq => seq!['<', '>'],
        Token::Lt => seq!['<'],
        Token::Gt => seq!['>'],
        Token::LtEq => seq!['<', '='],
        Token::GtEq => seq!['>', '='],
    }
}

impl Token {
    /// Appends this token's text to `out`.
    pub fn write_to(&self, out: &mut Vec<char>)
        ensures
            final(out)@ == old(out)@ + token_text(*self),
    {
        match self {
            Token::Word(w) => {
                match w.quote_style {
                    None => push_str_chars(out, w.value.as_str()),
                    Some(q) => {
                        out.push(q);
                        push_str_chars(out, w.value.as_str());
                        let c = if q == '[' {
                            ']'
                        } else {
                            q
                        };
                        out.push(c);
                    },
                }
            },
            Token::Number(n) => push_str_chars(out, n.as_str()),
            Token::SingleQuotedString(s) => {
                out.push('\'');
                push_str_chars(out, s.as_str());
                out.push('\'');
            },
            Token::Comma => out.push(','),
            Token::LParen => out.push('('),
            Token::RParen => out.push(')'),
            Token::Period => out.push('.'),
            Token::SemiColon => out.push(';'),
            Token::Mul => out.push('*'),
            Token::Plus => out.push('+'),
            Token::Minus => out.push('-'),
            Token::Div => out.push('/'),
            Token::Eq => out.push('='),
            Token::Neq => {
                out.push('<');
                out.push('>');
            },
            Token::Lt => out.push('<'),
            Token::Gt => out.push('>'),
            Token::LtEq => {
                out.push('<');
                out.push('=');
            },
            Token::GtEq => {
                out.push('>');
                out.push('=');
            },
        }
        assert(out@ =~= old(out)@ + token_text(*self));
    }

    /// The token as written in SQL.
    pub fn to_string(&self) -> (r: String)
        ensures
            r@ == token_text(*self),
    {
        let mut out: Vec<char> = Vec::new();
        self.write_to(&mut out);
        assert(out@ =~= token_text(*self));
        string_from_chars(&out)
    }
}

/// Whether `w` is a word that `d` can produce: an unquoted word starts
/// with an identifier-start character and goes on with identifier-part
/// characters; a quoted one is opened by a delimiter of `d` and holds no
/// closing quote.
pub open spec fn word_fits<D: Dialect>(d: &D, w: Word) -> bool {
    match w.quote_style {
        None => {
            &&& w.value@.len() > 0
            &&& d.spec_identifier_start(w.value@[0])
            &&& forall|i: int| 1 <= i < w.value@.len() ==> d.spec_identifier_part(#[trigger] w.value@[i])
        },
        Some(q) => {
            &&& d.spec_delimited_start(q)
            &&& forall|i: int| 0 <= i < w.value@.len() ==> #[trigger] w.value@[i] != closing_quote(q)
        },
    }
}

/// Whether `t` is a token that `d` can produce: a word as `word_fits` says,
/// a number made of a digit then digits and periods, a string that holds
/// no single quote.
pub open spec fn token_fits<D: Dialect>(d: &D, t: Token) -> bool {
    match t {
        Token::Word(w) => word_fits(d, w),
        Token::Number(n) => {
            &&& n@.len() > 0
            &&& '0' <= n@[0] <= '9'
            &&& forall|i: int| 0 <= i < n@.len() ==> ('0' <= #[trigger] n@[i] <= '9' || n@[i] == '.')
        },
        Token::SingleQuotedString(s) => forall|i: int| 0 <= i < s@.len() ==> #[trigger] s@[i] != '\'',
        _ => true,
    }
}

/// Whether every token of `toks` is one that `d` can produce.
pub open spec fn tokens_fit<D: Dialect>(d: &D, toks: Seq<Token>) -> bool {
    forall|i: int| 0 <= i < toks.len() ==> token_fits(d, #[trigger] toks[i])
}

/// Whether `c` is white space between tokens.
pub open spec fn is_space(c: char) -> bool {
    c == ' ' || c == '\t' || c == '\n' || c == '\r'
}

/// A token as the lexical rules describe it, with its text as characters.
pub enum Lexeme {
    Word { value: Seq<char>, quote: Option<char> },
    Number(Seq<char>),
    Str(Seq<char>),
    Symbol(Token),
}

/// What a token stands for as a lexeme.
pub open spec fn lexeme_of(t: Token) -> Lexeme {
    match t {
        Token::Word(w) => Lexeme::Word { value: w.value@, quote: w.quote_style },
        Token::Number(n) => Lexeme::Number(n@),
        Token::SingleQuotedString(s) => Lexeme::Str(s@),
        _ => Lexeme::Symbol(t),
    }
}

/// The lexemes of a token list.
pub open spec fn lexemes_of(toks: Seq<Token>) -> Seq<Lexeme> {
    toks.map_values(|t: Token| lexeme_of(t))
}

/// The first position at or after `i` that holds `c`, if any.
pub open spec fn find_from(s: Seq<char>, i: int, c: char) -> Option<int>
    decreases s.len() - i,
{
    if i < 0 || i >= s.len() {
        None
    } else if s[i] == c {
        Some(i)
    } else {
        find_from(s, i + 1, c)
    }
}

/// The end of the longest run of identifier-part characters from `i`.
pub open spec fn identifier_end<D: Dialect>(d: &D, s: Seq<char>, i: int) -> int
    decreases s.len() - i,
{
    if 0 <= i < s.len() && d.spec_identifier_part(s[i]) {
        identifier_end(d, s, i + 1)
    } else {
        i
    }
}

/// The end of the longest run of digits and periods from `i`.
pub open spec fn number_end(s: Seq<char>, i: int) -> int
    decreases s.len() - i,
{
    if 0 <= i < s.len() && ('0' <= s[i] <= '9' || s[i] == '.') {
        number_end(s, i + 1)
    } else {
        i
    }
}

/// The punctuation token that starts at `i`, with its length: the
/// two-character `<=`, `<>`, `>=` and `!=` are taken whole.
pub open spec fn symbol_at(s: Seq<char>, i: int) -> Option<(Token, int)> {
    let c = s[i];
    let next_is = |x: char| i + 1 < s.len() && s[i + 1] == x;
    if c == ',' {
        Some((Token::Comma, 1))
    } else if c == '(' {
        Some((Token::LParen, 1))
    } else if c == ')' {
        Some((Token::RParen, 1))
    } else if c == '.' {
        Some((Token::Period, 1))
    } else if c == ';' {
        Some((Token::SemiColon, 1))
    } else if c == '*' {
        Some((Token::Mul, 1))
    } else if c == '+' {
        Some((Token::Plus, 1))
    } else if c == '-' {
        Some((Token::Minus, 1))
    } else if c == '/' {
        Some((Token::Div, 1))
    } else if c == '=' {
        Some((Token::Eq, 1))
    } else if c == '<' {
        if next_is('=') {
            Some((Token::LtEq, 2))
        } else if next_is('>') {
            Some((Token::Neq, 2))
        } else {
            Some((Token::Lt, 1))
        }
    } else if c == '>' {
        if next_is('=') {
            Some((Token::GtEq, 2))
        } else {
            Some((Token::Gt, 1))
        }
    } else if c == '!' && next_is('=') {
        Some((Token::Neq, 2))
    } else {
        None
    }
}

/// `x` in front of the lexemes of `r`, or the error of `r`.
pub open spec fn prepend(x: Seq<Lexeme>, r: Result<Seq<Lexeme>, Seq<char>>) -> Result<
    Seq<Lexeme>,
    Seq<char>,
> {
    match r {
        Ok(t) => Ok(x + t),
        Err(m) => Err(m),
    }
}

/// The lexemes of `s` from position `i` under the rules of `d`, or the
/// message of the first lexical error. White space is skipped; `'` and a
/// quote of the dialect run to their closing quote; an identifier-start
/// character takes the longest run of identifier-part characters; a digit
/// takes the longest run of digits and periods; punctuation is taken as
/// `symbol_at` says; any other character is an error.
pub open spec fn lex_from<D: Dialect>(d: &D, s: Seq<char>, i: int) -> Result<Seq<Lexeme>, Seq<char>>
    decreases s.len() - i,
    via lex_from_decreases::<D>
{
    if i < 0 || i >= s.len() {
        Ok(seq![])
    } else {
        let c = s[i];
        if is_space(c) {
            lex_from(d, s, i + 1)
        } else if c == '\'' {
            match find_from(s, i + 1, '\'') {
                Some(e) => prepend(seq![Lexeme::Str(s.subrange(i + 1, e))], lex_from(d, s, e + 1)),
                None => Err("Unterminated string literal"@),
            }
        } else if d.spec_delimited_start(c) {
            match find_from(s, i + 1, closing_quote(c)) {
                Some(e) => prepend(
                    seq![Lexeme::Word { value: s.subrange(i + 1, e), quote: Some(c) }],
                    lex_from(d, s, e + 1),
                ),
                None => Err(
                    "Expected close delimiter '"@ + seq![closing_quote(c)] + "' before EOF."@,
                ),
            }
        } else if d.spec_identifier_start(c) {
            let e = identifier_end(d, s, i + 1);
            prepend(seq![Lexeme::Word { value: s.subrange(i, e), quote: None }], lex_from(d, s, e))
        } else if '0' <= c <= '9' {
            let e = number_end(s, i + 1);
            prepend(seq![Lexeme::Number(s.subrange(i, e))], lex_from(d, s, e))
        } else {
            match symbol_at(s, i) {
                Some((t, len)) => prepend(seq![Lexeme::Symbol(t)], lex_from(d, s, i + len)),
                None => Err("Unexpected character '"@ + seq![c] + "'"@),
            }
        }
    }
}

proof fn lemma_find_from_bounds(s: Seq<char>, i: int, c: char)
    ensures
        find_from(s, i, c) matches Some(e) ==> i <= e < s.len() && s[e] == c,
        find_from(s, i, c) is None ==> forall|k: int| 0 <= i <= k < s.len() ==> s[k] != c,
        find_from(s, i, c) matches Some(e) ==> forall|k: int| i <= k < e ==> s[k] != c,
    decreases s.len() - i,
{
    if 0 <= i < s.len() && s[i] != c {
        lemma_find_from_bounds(s, i + 1, c);
    }
}

proof fn lemma_identifier_end<D: Dialect>(d: &D, s: Seq<char>, i: int)
    ensures
        identifier_end(d, s, i) >= i,
        0 <= i ==> identifier_end(d, s, i) <= s.len() || identifier_end(d, s, i) == i,
    decreases s.len() - i,
{
    if 0 <= i < s.len() && d.spec_identifier_part(s[i]) {
        lemma_identifier_end(d, s, i + 1);
    }
}

proof fn lemma_number_end(s: Seq<char>, i: int)
    ensures
        number_end(s, i) >= i,
        0 <= i ==> number_end(s, i) <= s.len() || number_end(s, i) == i,
    decreases s.len() - i,
{
    if 0 <= i < s.len() && ('0' <= s[i] <= '9' || s[i] == '.') {
        lemma_number_end(s, i + 1);
    }
}

#[via_fn]
proof fn lex_from_decreases<D: Dialect>(d: &D, s: Seq<char>, i: int) {
    lemma_find_from_bounds(s, i + 1, '\'');
    if 0 <= i < s.len() {
        lemma_find_from_bounds(s, i + 1, closing_quote(s[i]));
    }
    lemma_identifier_end(d, s, i + 1);
    lemma_number_end(s, i + 1);
    assert(number_end(s, i + 1) >= i + 1);
    assert(identifier_end(d, s, i + 1) >= i + 1);
}

/// The lexemes of `s` under the rules of `d`, or the first lexical error.
pub open spec fn lex<D: Dialect>(d: &D, s: Seq<char>) -> Result<Seq<Lexeme>, Seq<char>> {
    lex_from(d, s, 0)
}

/// A tokenizer result with its tokens reduced to lexemes and its error to
/// the message.
pub open spec fn lex_outcome(r: Result<Vec<Token>, TokenizerError>) -> Result<Seq<Lexeme>, Seq<char>> {
    match r {
        Ok(toks) => Ok(lexemes_of(toks@)),
        Err(e) => Err(e.message@),
    }
}

/// The end of the run of identifier-part characters that starts at `start`.
pub fn scan_identifier_part<D: Dialect>(dialect: &D, chars: &Vec<char>, start: usize) -> (end: usize)
    requires
        start <= chars@.len(),
    ensures
        start <= end <= chars@.len(),
        end == identifier_end(dialect, chars@, start as int),
        forall|i: int| start <= i < end ==> dialect.spec_identifier_part(#[trigger] chars@[i]),
{
    let mut i = start;
    while i < chars.len() && dialect.is_identifier_part(chars[i])
        invariant
            start <= i <= chars@.len(),
            identifier_end(dialect, chars@, start as int) == identifier_end(dialect, chars@, i as int),
            forall|k: int| start <= k < i ==> dialect.spec_identifier_part(#[trigger] chars@[k]),
        decreases chars.len() - i,
    {
        i = i + 1;
    }
    i
}

/// The position of the first `close` at or after `start`, if there is one.
pub fn find_char(chars: &Vec<char>, start: usize, close: char) -> (r: Option<usize>)
    requires
        start <= chars@.len(),
    ensures
        r matches Some(e) ==> find_from(chars@, start as int, close) == Some(e as int),
        r is None ==> find_from(chars@, start as int, close) is None,
        r matches Some(e) ==> start <= e < chars@.len() && chars@[e as int] == close,
        r matches Some(e) ==> forall|i: int| start <= i < e ==> #[trigger] chars@[i] != close,
{
    let mut i = start;
    while i < chars.len()
        invariant
            start <= i <= chars@.len(),
            find_from(chars@, start as int, close) == find_from(chars@, i as int, close),
            forall|k: int| start <= k < i ==> #[trigger] chars@[k] != close,
        decreases chars.len() - i,
    {
        if chars[i] == close {
            return Some(i);
        }
        i = i + 1;
    }
    None
}

/// The end of the run of digits and periods that starts at `start`.
pub fn scan_number(chars: &Vec<char>, start: usize) -> (end: usize)
    requires
        start <= chars@.len(),
    ensures
        start <= end <= chars@.len(),
        end == number_end(chars@, start as int),
        forall|i: int| start <= i < end ==> ('0' <= #[trigger] chars@[i] <= '9' || chars@[i] == '.'),
{
    let mut i = start;
    while i < chars.len() && (('0' <= chars[i] && chars[i] <= '9') || chars[i] == '.')
        invariant
            start <= i <= chars@.len(),
            number_end(chars@, start as int) == number_end(chars@, i as int),
            forall|k: int| start <= k < i ==> ('0' <= #[trigger] chars@[k] <= '9' || chars@[k] == '.'),
        decreases chars.len() - i,
    {
        i = i + 1;
    }
    i
}

proof fn lemma_prepend_push(p: Seq<Lexeme>, x: Lexeme, r: Result<Seq<Lexeme>, Seq<char>>)
    ensures
        prepend(p, prepend(seq![x], r)) == prepend(p.push(x), r),
{
    if let Ok(t) = r {
        assert(p + (seq![x] + t) =~= p.push(x) + t);
    }
}

fn lexical_error(prefix: &str, c: char, suffix: &str) -> (e: TokenizerError)
    ensures
        e.message@ == prefix@ + seq![c] + suffix@,
{
    let mut out: Vec<char> = Vec::new();
    push_str_chars(&mut out, prefix);
    out.push(c);
    push_str_chars(&mut out, suffix);
    assert(out@ =~= prefix@ + seq![c] + suffix@);
    TokenizerError { message: string_from_chars(&out) }
}

/// Splits `sql` into tokens under the rules of `dialect`, as `lex` says:
/// white space separates tokens and is dropped; the result fails on an
/// unterminated quoted identifier or string, and on a character that starts
/// no token.
pub fn tokenize<D: Dialect>(dialect: &D, sql: &str) -> (r: Result<Vec<Token>, TokenizerError>)
    ensures
        lex_outcome(r) == lex(dialect, sql@),
        r matches Ok(toks) ==> tokens_fit(dialect, toks@),
        sql@.len() == 0 ==> (r matches Ok(toks) && toks@.len() == 0),
{
    let chars = chars_of(sql);
    let n = chars.len();
    let mut toks: Vec<Token> = Vec::new();
    let mut i: usize = 0;
    assert(lexemes_of(toks@) =~= Seq::<Lexeme>::empty());
    assert(prepend(Seq::<Lexeme>::empty(), lex_from(dialect, sql@, 0)) =~= lex_from(dialect, sql@, 0)) by {
        if let Ok(t) = lex_from(dialect, sql@, 0) {
            assert(Seq::<Lexeme>::empty() + t =~= t);
        }
    }
    while i < n
        invariant
            n == chars@.len(),
            chars@ == sql@,
            i <= n,
            n == 0 ==> toks@.len() == 0,
            tokens_fit(dialect, toks@),
            lex(dialect, sql@) == prepend(lexemes_of(toks@), lex_from(dialect, sql@, i as int)),
        decreases n - i,
    {
        let c = chars[i];
        let ghost before = toks@;
        if c == ' ' || c == '\t' || c == '\n' || c == '\r' {
            i = i + 1;
        } else {
            let (tok, next): (Token, usize) = if c == '\'' {
                match find_char(&chars, i + 1, '\'') {
                    Some(e) => {
                        let s = string_of_range(&chars, i + 1, e);
                        assert(forall|k: int| 0 <= k < s@.len() ==> s@[k] == chars@[i + 1 + k]);
                        (Token::SingleQuotedString(s), e + 1)
                    },
                    None => {
                        return Err(
                            TokenizerError { message: String::from_str("Unterminated string literal") },
                        );
                    },
                }
            } else if dialect.is_delimited_identifier_start(c) {
                let close = if c == '[' {
                    ']'
                } else {
                    c
                };
                match find_char(&chars, i + 1, close) {
                    Some(e) => {
                        let value = string_of_range(&chars, i + 1, e);
                        let w = Word { value, quote_style: Some(c) };
                        assert(word_fits(dialect, w));
                        (Token::Word(w), e + 1)
                    },
                    None => {
                        return Err(lexical_error("Expected close delimiter '", close, "' before EOF."));
                    },
                }
            } else if dialect.is_identifier_start(c) {
                let e = scan_identifier_part(dialect, &chars, i + 1);
                let value = string_of_range(&chars, i, e);
                let w = Word { value, quote_style: None };
                assert(word_fits(dialect, w)) by {
                    assert(w.value@[0] == c);
                    assert forall|k: int| 1 <= k < w.value@.len() implies dialect.spec_identifier_part(
                        #[trigger] w.value@[k],
                    ) by {
                        assert(w.value@[k] == chars@[i + k]);
                    }
                }
                (Token::Word(w), e)
            } else if '0' <= c && c <= '9' {
                let e = scan_number(&chars, i + 1);
                let digits = string_of_range(&chars, i, e);
                assert(forall|k: int| 0 <= k < digits@.len() ==> digits@[k] == chars@[i + k]);
                (Token::Number(digits), e)
            } else {
                let next: Option<char> = if i + 1 < n {
                    Some(chars[i + 1])
                } else {
                    None
                };
                let (t, len): (Token, usize) = if c == ',' {
                    (Token::Comma, 1)
                } else if c == '(' {
                    (Token::LParen, 1)
                } else if c == ')' {
                    (Token::RParen, 1)
                } else if c == '.' {
                    (Token::Period, 1)
                } else if c == ';' {
                    (Token::SemiColon, 1)
                } else if c == '*' {
                    (Token::Mul, 1)
                } else if c == '+' {
                    (Token::Plus, 1)
                } else if c == '-' {
                    (Token::Minus, 1)
                } else if c == '/' {
                    (Token::Div, 1)
                } else if c == '=' {
                    (Token::Eq, 1)
                } else if c == '<' {
                    if next == Some('=') {
                        (Token::LtEq, 2)
                    } else if next == Some('>') {
                        (Token::Neq, 2)
                    } else {
                        (Token::Lt, 1)
                    }
                } else if c == '>' {
                    if next == Some('=') {
                        (Token::GtEq, 2)
                    } else {
                        (Token::Gt, 1)
                    }
                } else if c == '!' && next == Some('=') {
                    (Token::Neq, 2)
                } else {
                    return Err(lexical_error("Unexpected character '", c, "'"));
                };
                assert(symbol_at(sql@, i as int) == Some((t, len as int)));
                (t, i + len)
            };
            assert(lex_from(dialect, sql@, i as int) == prepend(
                seq![lexeme_of(tok)],
                lex_from(dialect, sql@, next as int),
            ));
            proof {
                lemma_prepend_push(lexemes_of(before), lexeme_of(tok), lex_from(dialect, sql@, next as int));
            }
            toks.push(tok);
            assert(lexemes_of(toks@) =~= lexemes_of(before).push(lexeme_of(tok)));
            i = next;
        }
        assert forall|k: int| 0 <= k < toks@.len() implies token_fits(dialect, #[trigger] toks@[k]) by {
            if k < before.len() {
                assert(toks@[k] == before[k]);
            }
        }
    }
    assert(lexemes_of(toks@) + Seq::<Lexeme>::empty() =~= lexemes_of(toks@));
    Ok(toks)
}

} // verus!
