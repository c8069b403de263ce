use sqlparser::dialect::{GenericDialect, SnowflakeDialect};
use sqlparser::tokenizer::{tokenize, Token, Word};

fn word(value: &str) -> Token {
    Token::Word(Word { value: value.to_string(), quote_style: None })
}

#[test]
fn splits_words_numbers_and_symbols() {
    let toks = tokenize(&GenericDialect {}, "SELECT a1, 2.5 FROM t WHERE x<=3 AND y<>'z'").unwrap();
    assert_eq!(
        toks,
        vec![
            word("SELECT"),
            word("a1"),
            Token::Comma,
            Token::Number("2.5".to_string()),
            word("FROM"),
            word("t"),
            word("WHERE"),
            word("x"),
            Token::LtEq,
            Token::Number("3".to_string()),
            word("AND"),
            word("y"),
            Token::Neq,
            Token::SingleQuotedString("z".to_string()),
        ]
    );
}

#[test]
fn snowflake_words_take_dollar_and_underscore() {
    let toks = tokenize(&SnowflakeDialect {}, "_my_$table (am00unt)").unwrap();
    assert_eq!(toks, vec![word("_my_$table"), Token::LParen, word("am00unt"), Token::RParen]);
}

#[test]
fn quoted_word_keeps_its_quote() {
    let toks = tokenize(&GenericDialect {}, "\"a b\"").unwrap();
    assert_eq!(toks, vec![Token::Word(Word { value: "a b".to_string(), quote_style: Some('"') })]);
    assert_eq!(toks[0].to_string(), "\"a b\"");
}

#[test]
fn empty_text_has_no_tokens() {
    assert_eq!(tokenize(&GenericDialect {}, ""), Ok(vec![]));
    assert_eq!(tokenize(&GenericDialect {}, " \n\t"), Ok(vec![]));
}

#[test]
fn unterminated_quote_is_an_error() {
    let e = tokenize(&GenericDialect {}, "'abc").unwrap_err();
    assert_eq!(e.message, "Unterminated string literal");
}
