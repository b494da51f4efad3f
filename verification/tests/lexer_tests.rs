use lisp::lexer::LexerError;
use lisp::lexer::Token;
use lisp::lexer::tokenize;

#[test]
fn tokenizer_fails_on_missing_quote() {
    let code = vec![String::from("\"invalid string")];
    let result = tokenize(&code);
    assert_eq!(
        result,
        Err(LexerError {
            message: String::from("error lexing string: missing closing \""),
            line: 0,
            column: 14,
        }),
    )
}

#[test]
fn tokenizer_returns_simple_sequence() {
    let code = vec![String::from("(+ 1 2 3)")];
    let result = tokenize(&code);
    assert_eq!(
        result,
        Ok(vec![
            Token::LParen,
            Token::Symbol("+".to_string()),
            Token::Symbol("1".to_string()),
            Token::Symbol("2".to_string()),
            Token::Symbol("3".to_string()),
            Token::RParen,
        ])
    )
}

#[test]
fn tokenizer_skips_comments_and_whitespace() {
    let code = vec![
        String::from("  # a comment line"),
        String::from("a b # trailing comment"),
        String::from(""),
    ];
    let result = tokenize(&code);
    assert_eq!(
        result,
        Ok(vec![
            Token::Symbol("a".to_string()),
            Token::Symbol("b".to_string()),
        ])
    )
}

#[test]
fn tokenizer_reads_string_literal_verbatim() {
    let code = vec![String::from("(\"hi there\")")];
    let result = tokenize(&code);
    assert_eq!(
        result,
        Ok(vec![
            Token::LParen,
            Token::Str("hi there".to_string()),
            Token::RParen,
        ])
    )
}

#[test]
fn tokenizer_emits_symbol_before_adjacent_paren() {
    let code = vec![String::from("foo(bar)")];
    let result = tokenize(&code);
    assert_eq!(
        result,
        Ok(vec![
            Token::Symbol("foo".to_string()),
            Token::LParen,
            Token::Symbol("bar".to_string()),
            Token::RParen,
        ])
    )
}

#[test]
fn tokenizer_fails_on_forbidden_character_in_symbol() {
    let code = vec![String::from("ab'c")];
    let result = tokenize(&code);
    assert_eq!(
        result,
        Err(LexerError {
            message: String::from("error lexing symbol: forbidden character"),
            line: 0,
            column: 2,
        }),
    )
}

#[test]
fn tokenizer_reports_line_of_error() {
    let code = vec![String::from("(a b)"), String::from("\"open")];
    let result = tokenize(&code);
    assert_eq!(
        result,
        Err(LexerError {
            message: String::from("error lexing string: missing closing \""),
            line: 1,
            column: 4,
        }),
    )
}

#[test]
fn tokenizer_treats_unicode_whitespace_as_separator() {
    let code = vec![String::from("a\u{00A0}b\u{3000}c")];
    let result = tokenize(&code);
    assert_eq!(
        result,
        Ok(vec![
            Token::Symbol("a".to_string()),
            Token::Symbol("b".to_string()),
            Token::Symbol("c".to_string()),
        ])
    )
}

#[test]
fn tokenizer_quote_marker_is_its_own_symbol_before_paren() {
    let code = vec![String::from("'(a)")];
    let result = tokenize(&code);
    assert_eq!(
        result,
        Ok(vec![
            Token::Symbol("'".to_string()),
            Token::LParen,
            Token::Symbol("a".to_string()),
            Token::RParen,
        ])
    )
}
