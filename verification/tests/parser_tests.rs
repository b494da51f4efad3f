use lisp::lexer::Token;
use lisp::parser::ParserError;
use lisp::parser::parse;
use lisp::parser::read_from_tokens;
use lisp::parser::rewrite_quotes;
use lisp::sexp::Atom;
use lisp::sexp::Sexp;

#[test]
fn parser_fails_on_unexpected_rparen() {
    let tokens = vec![Token::RParen];
    let result = read_from_tokens(tokens);
    assert_eq!(
        result,
        Err(ParserError { message: String::from("unexpected closing paren") })
    )
}

#[test]
fn parser_parses_atom() {
    let tokens = vec![
        // an empty list, the nil spellings and false all read as nil
        Token::LParen,
        Token::RParen,
        Token::Symbol(String::from("nil")),
        Token::Symbol(String::from("NIL")),
        Token::Symbol(String::from("false")),
        Token::Symbol(String::from("t")),
        Token::Symbol(String::from("true")),
        Token::Symbol(String::from("cons")),
        Token::Str(String::from("text")),
        Token::Symbol(String::from("1")),
    ];
    let result = read_from_tokens(tokens);
    assert_eq!(
        result,
        Ok(vec![
            Sexp::Atom(Atom::Nil),
            Sexp::Atom(Atom::Nil),
            Sexp::Atom(Atom::Nil),
            Sexp::Atom(Atom::Nil),
            Sexp::Atom(Atom::T),
            Sexp::Atom(Atom::T),
            Sexp::Atom(Atom::Symbol(String::from("cons"))),
            Sexp::Atom(Atom::Str(String::from("text"))),
            Sexp::Atom(Atom::Number(1)),
        ])
    )
}

#[test]
fn parser_parses_list() {
    let tokens = vec![
        Token::LParen,
        Token::Symbol(String::from("nil")),
        Token::Symbol(String::from("nil")),
        Token::Symbol(String::from("nil")),
        Token::RParen,
    ];
    let result = read_from_tokens(tokens);
    assert_eq!(
        result,
        Ok(vec![Sexp::List(vec![
            Sexp::Atom(Atom::Nil),
            Sexp::Atom(Atom::Nil),
            Sexp::Atom(Atom::Nil),
        ])])
    )
}

#[test]
fn parser_fails_on_missing_closing_paren() {
    let tokens = vec![Token::LParen, Token::Symbol(String::from("a"))];
    let result = read_from_tokens(tokens);
    assert_eq!(
        result,
        Err(ParserError { message: String::from("missing closing parenthesis") })
    )
}

#[test]
fn parse_recognizes_nil_spellings() {
    assert_eq!(parse(String::from("nil")), Sexp::Atom(Atom::Nil));
    assert_eq!(parse(String::from("NIL")), Sexp::Atom(Atom::Nil));
    assert_eq!(parse(String::from("false")), Sexp::Atom(Atom::Nil));
    // Other casings are ordinary symbols, and so is the text "()", which
    // the lexer can never produce as a single token anyway.
    assert_eq!(parse(String::from("Nil")), Sexp::Atom(Atom::Symbol(String::from("Nil"))));
    assert_eq!(parse(String::from("()")), Sexp::Atom(Atom::Symbol(String::from("()"))));
}

#[test]
fn parse_recognizes_integer_literals() {
    assert_eq!(parse(String::from("42")), Sexp::Atom(Atom::Number(42)));
    assert_eq!(parse(String::from("-17")), Sexp::Atom(Atom::Number(-17)));
    assert_eq!(parse(String::from("+5")), Sexp::Atom(Atom::Number(5)));
    assert_eq!(
        parse(String::from("9223372036854775807")),
        Sexp::Atom(Atom::Number(i64::MAX))
    );
    assert_eq!(
        parse(String::from("-9223372036854775808")),
        Sexp::Atom(Atom::Number(i64::MIN))
    );
}

#[test]
fn parse_leaves_non_literals_as_symbols() {
    assert_eq!(
        parse(String::from("9223372036854775808")),
        Sexp::Atom(Atom::Symbol(String::from("9223372036854775808")))
    );
    assert_eq!(parse(String::from("-")), Sexp::Atom(Atom::Symbol(String::from("-"))));
    assert_eq!(
        parse(String::from("1.0")),
        Sexp::Atom(Atom::Symbol(String::from("1.0")))
    );
    assert_eq!(
        parse(String::from("12a")),
        Sexp::Atom(Atom::Symbol(String::from("12a")))
    );
}

#[test]
fn rewrite_turns_marker_into_quote_form() {
    let ast = vec![
        Sexp::Atom(Atom::Symbol(String::from("'"))),
        Sexp::Atom(Atom::Symbol(String::from("a"))),
    ];
    assert_eq!(
        rewrite_quotes(ast),
        vec![Sexp::List(vec![
            Sexp::Atom(Atom::Symbol(String::from("quote"))),
            Sexp::Atom(Atom::Symbol(String::from("a"))),
        ])]
    )
}

#[test]
fn rewrite_recurses_into_quoted_list() {
    // '('(a)) keeps expanding markers inside the quoted list
    let ast = vec![
        Sexp::Atom(Atom::Symbol(String::from("'"))),
        Sexp::List(vec![
            Sexp::Atom(Atom::Symbol(String::from("'"))),
            Sexp::Atom(Atom::Symbol(String::from("a"))),
        ]),
    ];
    assert_eq!(
        rewrite_quotes(ast),
        vec![Sexp::List(vec![
            Sexp::Atom(Atom::Symbol(String::from("quote"))),
            Sexp::List(vec![Sexp::List(vec![
                Sexp::Atom(Atom::Symbol(String::from("quote"))),
                Sexp::Atom(Atom::Symbol(String::from("a"))),
            ])]),
        ])]
    )
}

#[test]
fn rewrite_trailing_marker_becomes_bare_quote_form() {
    let ast = vec![Sexp::Atom(Atom::Symbol(String::from("'")))];
    assert_eq!(
        rewrite_quotes(ast),
        vec![Sexp::List(vec![Sexp::Atom(Atom::Symbol(String::from("quote")))])]
    )
}

#[test]
fn reader_applies_quote_rewrite() {
    let tokens = vec![
        Token::Symbol(String::from("'")),
        Token::LParen,
        Token::Symbol(String::from("a")),
        Token::Symbol(String::from("b")),
        Token::RParen,
    ];
    let result = read_from_tokens(tokens);
    assert_eq!(
        result,
        Ok(vec![Sexp::List(vec![
            Sexp::Atom(Atom::Symbol(String::from("quote"))),
            Sexp::List(vec![
                Sexp::Atom(Atom::Symbol(String::from("a"))),
                Sexp::Atom(Atom::Symbol(String::from("b"))),
            ]),
        ])])
    )
}
