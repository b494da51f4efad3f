//! Lexical tokenization.
//!
//! Input lines are scanned left to right into a flat token list.  `#`
//! starts a line comment; whitespace separates; `"` opens a string literal
//! copied verbatim until the closing `"`; `(` and `)` are single-character
//! tokens; any other character starts a bare symbol that ends at
//! whitespace, a parenthesis or the end of the line.  A quote or double
//! quote inside a symbol is a fatal error, as is an unterminated string;
//! any error aborts tokenization of the whole input.

use vstd::prelude::*;
use vstd::string::StrSliceExecFns;
use vstd::string::StringExecFns;

verus! {

/// One lexical token.
#[derive(Debug, PartialEq)]
pub enum Token {
    Symbol(String),
    Str(String),
    LParen,
    RParen,
}

/// A fatal tokenization error with its position (both zero-based).
#[derive(Debug, PartialEq)]
pub struct LexerError {
    pub message: String,
    pub line: usize,
    pub column: usize,
}

/// Model of a `Token`.
#[verifier::ext_equal]
pub enum TokenView {
    Symbol(Seq<char>),
    Str(Seq<char>),
    LParen,
    RParen,
}

/// Model of a `LexerError`.
#[verifier::ext_equal]
pub struct LexerErrorView {
    pub message: Seq<char>,
    pub line: usize,
    pub column: usize,
}

pub open spec fn token_view(t: Token) -> TokenView {
    match t {
        Token::Symbol(s) => TokenView::Symbol(s@),
        Token::Str(s) => TokenView::Str(s@),
        Token::LParen => TokenView::LParen,
        Token::RParen => TokenView::RParen,
    }
}

impl View for Token {
    type V = TokenView;

    open spec fn view(&self) -> TokenView {
        token_view(*self)
    }
}

impl View for LexerError {
    type V = LexerErrorView;

    open spec fn view(&self) -> LexerErrorView {
        LexerErrorView { message: self.message@, line: self.line, column: self.column }
    }
}

pub open spec fn tokens_view(s: Seq<Token>) -> Seq<TokenView>
    decreases s,
{
    if s.len() == 0 {
        Seq::empty()
    } else {
        tokens_view(s.drop_last()).push(token_view(s.last()))
    }
}

/// The elements of `tokens_view(s)` are the views of the elements of `s`.
pub broadcast proof fn lemma_tokens_view(s: Seq<Token>)
    ensures
        #[trigger] tokens_view(s).len() == s.len(),
        forall|i: int| 0 <= i < s.len() ==> tokens_view(s)[i] == token_view(s[i]),
    decreases s.len(),
{
    if s.len() > 0 {
        lemma_tokens_view(s.drop_last());
    }
}

pub open spec fn tok_result_view(r: Result<Vec<Token>, LexerError>) -> Result<
    Seq<TokenView>,
    LexerErrorView,
> {
    match r {
        Result::Ok(v) => Result::Ok(tokens_view(v@)),
        Result::Err(e) => Result::Err(e@),
    }
}

/// The characters that separate tokens: the Unicode white-space
/// characters (the `White_Space` property, as `char::is_whitespace`
/// accepts them).
pub open spec fn sp_is_ws(c: char) -> bool {
    ||| c == '\u{0009}'
    ||| c == '\u{000A}'
    ||| c == '\u{000B}'
    ||| c == '\u{000C}'
    ||| c == '\u{000D}'
    ||| c == ' '
    ||| c == '\u{0085}'
    ||| c == '\u{00A0}'
    ||| c == '\u{1680}'
    ||| ('\u{2000}' <= c && c <= '\u{200A}')
    ||| c == '\u{2028}'
    ||| c == '\u{2029}'
    ||| c == '\u{202F}'
    ||| c == '\u{205F}'
    ||| c == '\u{3000}'
}

/// Decides whether a character separates tokens.
fn is_separator(c: char) -> (r: bool)
    ensures
        r == sp_is_ws(c),
{
    c == '\u{0009}' || c == '\u{000A}' || c == '\u{000B}' || c == '\u{000C}' || c
        == '\u{000D}' || c == ' ' || c == '\u{0085}' || c == '\u{00A0}' || c == '\u{1680}' || (
    '\u{2000}' <= c && c <= '\u{200A}') || c == '\u{2028}' || c == '\u{2029}' || c
        == '\u{202F}' || c == '\u{205F}' || c == '\u{3000}'
}

/// The characters that may not occur inside a bare symbol.
pub open spec fn sp_is_forbidden(c: char) -> bool {
    c == '"' || c == '\''
}

/// Scanning a line from position `i` onward.
pub open spec fn sp_lex_line(s: Seq<char>, i: int, ln: usize) -> Result<
    Seq<TokenView>,
    LexerErrorView,
>
    decreases s.len() - i, 0int,
{
    if i < 0 || i >= s.len() {
        Result::Ok(Seq::empty())
    } else if s[i] == '#' {
        Result::Ok(Seq::empty())
    } else if sp_is_ws(s[i]) {
        sp_lex_line(s, i + 1, ln)
    } else if s[i] == '"' {
        sp_lex_string(s, i + 1, i + 1, ln)
    } else if s[i] == '(' {
        match sp_lex_line(s, i + 1, ln) {
            Result::Ok(rest) => Result::Ok(seq![TokenView::LParen] + rest),
            Result::Err(e) => Result::Err(e),
        }
    } else if s[i] == ')' {
        match sp_lex_line(s, i + 1, ln) {
            Result::Ok(rest) => Result::Ok(seq![TokenView::RParen] + rest),
            Result::Err(e) => Result::Err(e),
        }
    } else {
        sp_lex_symbol(s, i, i + 1, ln)
    }
}

/// Scanning the inside of a string literal that began before `start`; the
/// content so far is `s[start..j]`.
pub open spec fn sp_lex_string(s: Seq<char>, start: int, j: int, ln: usize) -> Result<
    Seq<TokenView>,
    LexerErrorView,
>
    decreases s.len() - j, 1int,
{
    if j < 0 || start < 0 || start > j {
        Result::Ok(Seq::empty())
    } else if j >= s.len() {
        Result::Err(
            LexerErrorView {
                message: "error lexing string: missing closing \""@,
                line: ln,
                column: if s.len() > start {
                    (s.len() - 1) as usize
                } else {
                    0
                },
            },
        )
    } else if s[j] == '"' {
        match sp_lex_line(s, j + 1, ln) {
            Result::Ok(rest) => Result::Ok(seq![TokenView::Str(s.subrange(start, j))] + rest),
            Result::Err(e) => Result::Err(e),
        }
    } else {
        sp_lex_string(s, start, j + 1, ln)
    }
}

/// Scanning a bare symbol that began at `start`; the text so far is
/// `s[start..j]`.
pub open spec fn sp_lex_symbol(s: Seq<char>, start: int, j: int, ln: usize) -> Result<
    Seq<TokenView>,
    LexerErrorView,
>
    decreases s.len() - j, 1int,
{
    if j < 0 || start < 0 || start > j {
        Result::Ok(Seq::empty())
    } else if j >= s.len() {
        Result::Ok(seq![TokenView::Symbol(s.subrange(start, j))])
    } else if sp_is_forbidden(s[j]) {
        Result::Err(
            LexerErrorView {
                message: "error lexing symbol: forbidden character"@,
                line: ln,
                column: j as usize,
            },
        )
    } else if s[j] == '(' {
        match sp_lex_line(s, j + 1, ln) {
            Result::Ok(rest) => Result::Ok(
                seq![TokenView::Symbol(s.subrange(start, j)), TokenView::LParen] + rest,
            ),
            Result::Err(e) => Result::Err(e),
        }
    } else if s[j] == ')' {
        match sp_lex_line(s, j + 1, ln) {
            Result::Ok(rest) => Result::Ok(
                seq![TokenView::Symbol(s.subrange(start, j)), TokenView::RParen] + rest,
            ),
            Result::Err(e) => Result::Err(e),
        }
    } else if sp_is_ws(s[j]) {
        match sp_lex_line(s, j + 1, ln) {
            Result::Ok(rest) => Result::Ok(seq![TokenView::Symbol(s.subrange(start, j))] + rest),
            Result::Err(e) => Result::Err(e),
        }
    } else {
        sp_lex_symbol(s, start, j + 1, ln)
    }
}

/// Tokenizing the lines from index `ln` onward.
pub open spec fn sp_tokenize_lines(lines: Seq<Seq<char>>, ln: int) -> Result<
    Seq<TokenView>,
    LexerErrorView,
>
    decreases lines.len() - ln,
{
    if ln < 0 || ln >= lines.len() {
        Result::Ok(Seq::empty())
    } else {
        match sp_lex_line(lines[ln], 0, #[verifier::truncate] (ln as usize)) {
            Result::Ok(toks) => match sp_tokenize_lines(lines, ln + 1) {
                Result::Ok(rest) => Result::Ok(toks + rest),
                Result::Err(e) => Result::Err(e),
            },
            Result::Err(e) => Result::Err(e),
        }
    }
}

/// What tokenizing a whole source yields.
pub open spec fn sp_tokenize(lines: Seq<Seq<char>>) -> Result<Seq<TokenView>, LexerErrorView> {
    sp_tokenize_lines(lines, 0)
}

pub open spec fn lines_view(lines: Seq<String>) -> Seq<Seq<char>> {
    lines.map_values(|l: String| l@)
}

fn lex_line(s: &str, i: usize, ln: usize, out: &mut Vec<Token>) -> (r: Option<LexerError>)
    requires
        i <= s@.len(),
    ensures
        match sp_lex_line(s@, i as int, ln) {
            Result::Ok(toks) => r is None && tokens_view(final(out)@) == tokens_view(old(out)@)
                + toks,
            Result::Err(e) => r matches Option::Some(err) && err@ == e,
        },
    decreases s@.len() - i, 0int,
{
    let n = s.unicode_len();
    if i >= n {
        proof {
            assert(tokens_view(out@) =~= tokens_view(out@) + Seq::<TokenView>::empty());
        }
        return Option::None;
    }
    let c = s.get_char(i);
    if c == '#' {
        proof {
            assert(tokens_view(out@) =~= tokens_view(out@) + Seq::<TokenView>::empty());
        }
        Option::None
    } else if is_separator(c) {
        lex_line(s, i + 1, ln, out)
    } else if c == '"' {
        lex_string(s, i + 1, i + 1, ln, out)
    } else if c == '(' {
        let ghost pre = out@;
        out.push(Token::LParen);
        proof {
            assert(out@.drop_last() =~= pre);
        }
        let r = lex_line(s, i + 1, ln, out);
        proof {
            if sp_lex_line(s@, i + 1, ln) is Ok {
                let rest = sp_lex_line(s@, i + 1, ln)->Ok_0;
                assert(tokens_view(pre).push(TokenView::LParen) + rest =~= tokens_view(pre) + (
                seq![TokenView::LParen] + rest));
            }
        }
        r
    } else if c == ')' {
        let ghost pre = out@;
        out.push(Token::RParen);
        proof {
            assert(out@.drop_last() =~= pre);
        }
        let r = lex_line(s, i + 1, ln, out);
        proof {
            if sp_lex_line(s@, i + 1, ln) is Ok {
                let rest = sp_lex_line(s@, i + 1, ln)->Ok_0;
                assert(tokens_view(pre).push(TokenView::RParen) + rest =~= tokens_view(pre) + (
                seq![TokenView::RParen] + rest));
            }
        }
        r
    } else {
        lex_symbol(s, i, i + 1, ln, out)
    }
}

fn lex_string(s: &str, start: usize, j: usize, ln: usize, out: &mut Vec<Token>) -> (r: Option<
    LexerError,
>)
    requires
        start <= j <= s@.len(),
    ensures
        match sp_lex_string(s@, start as int, j as int, ln) {
            Result::Ok(toks) => r is None && tokens_view(final(out)@) == tokens_view(old(out)@)
                + toks,
            Result::Err(e) => r matches Option::Some(err) && err@ == e,
        },
    decreases s@.len() - j, 1int,
{
    let n = s.unicode_len();
    if j >= n {
        let column: usize = if n > start {
            n - 1
        } else {
            0
        };
        return Option::Some(
            LexerError {
                message: String::from_str("error lexing string: missing closing \""),
                line: ln,
                column,
            },
        );
    }
    let c = s.get_char(j);
    if c == '"' {
        let text = s.substring_char(start, j).to_owned();
        let ghost pre = out@;
        out.push(Token::Str(text));
        proof {
            assert(out@.drop_last() =~= pre);
        }
        let r = lex_line(s, j + 1, ln, out);
        proof {
            if sp_lex_line(s@, j + 1, ln) is Ok {
                let rest = sp_lex_line(s@, j + 1, ln)->Ok_0;
                assert(tokens_view(pre).push(TokenView::Str(s@.subrange(start as int, j as int)))
                    + rest =~= tokens_view(pre) + (seq![
                    TokenView::Str(s@.subrange(start as int, j as int)),
                ] + rest));
            }
        }
        r
    } else {
        lex_string(s, start, j + 1, ln, out)
    }
}

fn lex_symbol(s: &str, start: usize, j: usize, ln: usize, out: &mut Vec<Token>) -> (r: Option<
    LexerError,
>)
    requires
        start <= j <= s@.len(),
    ensures
        match sp_lex_symbol(s@, start as int, j as int, ln) {
            Result::Ok(toks) => r is None && tokens_view(final(out)@) == tokens_view(old(out)@)
                + toks,
            Result::Err(e) => r matches Option::Some(err) && err@ == e,
        },
    decreases s@.len() - j, 1int,
{
    let n = s.unicode_len();
    if j >= n {
        let text = s.substring_char(start, j).to_owned();
        let ghost pre = out@;
        out.push(Token::Symbol(text));
        proof {
            assert(out@.drop_last() =~= pre);
            assert(tokens_view(out@) =~= tokens_view(pre) + seq![
                TokenView::Symbol(s@.subrange(start as int, j as int)),
            ]);
        }
        return Option::None;
    }
    let c = s.get_char(j);
    if c == '"' || c == '\'' {
        Option::Some(
            LexerError {
                message: String::from_str("error lexing symbol: forbidden character"),
                line: ln,
                column: j,
            },
        )
    } else if c == '(' || c == ')' {
        let text = s.substring_char(start, j).to_owned();
        let ghost pre = out@;
        let ghost symv = TokenView::Symbol(s@.subrange(start as int, j as int));
        out.push(Token::Symbol(text));
        proof {
            assert(out@.drop_last() =~= pre);
            assert(tokens_view(out@) == tokens_view(pre).push(symv));
        }
        let ghost mid = out@;
        if c == '(' {
            out.push(Token::LParen);
        } else {
            out.push(Token::RParen);
        }
        proof {
            let ptok = if c == '(' {
                TokenView::LParen
            } else {
                TokenView::RParen
            };
            assert(out@.drop_last() =~= mid);
            assert(tokens_view(out@) == tokens_view(pre).push(symv).push(ptok));
        }
        let r = lex_line(s, j + 1, ln, out);
        proof {
            let ptok = if c == '(' {
                TokenView::LParen
            } else {
                TokenView::RParen
            };
            if sp_lex_line(s@, j + 1, ln) is Ok {
                let rest = sp_lex_line(s@, j + 1, ln)->Ok_0;
                assert(tokens_view(pre).push(
                    TokenView::Symbol(s@.subrange(start as int, j as int)),
                ).push(ptok) + rest =~= tokens_view(pre) + (seq![
                    TokenView::Symbol(s@.subrange(start as int, j as int)),
                    ptok,
                ] + rest));
            }
        }
        r
    } else if is_separator(c) {
        let text = s.substring_char(start, j).to_owned();
        let ghost pre = out@;
        out.push(Token::Symbol(text));
        proof {
            assert(out@.drop_last() =~= pre);
        }
        let r = lex_line(s, j + 1, ln, out);
        proof {
            if sp_lex_line(s@, j + 1, ln) is Ok {
                let rest = sp_lex_line(s@, j + 1, ln)->Ok_0;
                assert(tokens_view(pre).push(
                    TokenView::Symbol(s@.subrange(start as int, j as int)),
                ) + rest =~= tokens_view(pre) + (seq![
                    TokenView::Symbol(s@.subrange(start as int, j as int)),
                ] + rest));
            }
        }
        r
    } else {
        lex_symbol(s, start, j + 1, ln, out)
    }
}

/// Turns source lines into a flat token list, or fails with the first
/// lexical error; on error no partial token list is returned.
pub fn tokenize(source: &Vec<String>) -> (r: Result<Vec<Token>, LexerError>)
    ensures
        tok_result_view(r) == sp_tokenize(lines_view(source@)),
{
    let ghost lv = lines_view(source@);
    let mut out: Vec<Token> = Vec::new();
    let n = source.len();
    let mut ln: usize = 0;
    proof {
        assert(tokens_view(out@) =~= Seq::<TokenView>::empty());
    }
    while ln < n
        invariant
            n == source.len(),
            lv == lines_view(source@),
            lv.len() == n,
            ln <= n,
            sp_tokenize(lv) == match sp_tokenize_lines(lv, ln as int) {
                Result::Ok(rest) => Result::Ok(tokens_view(out@) + rest),
                Result::Err(e) => Result::<Seq<TokenView>, LexerErrorView>::Err(e),
            },
        decreases n - ln,
    {
        let line = &source[ln];
        let ghost pre = tokens_view(out@);
        let r = lex_line(line.as_str(), 0, ln, &mut out);
        match r {
            Option::Some(err) => {
                return Result::Err(err);
            },
            Option::None => {
                proof {
                    let toks = sp_lex_line(lv[ln as int], 0, ln)->Ok_0;
                    if sp_tokenize_lines(lv, ln + 1) is Ok {
                        let rest = sp_tokenize_lines(lv, ln + 1)->Ok_0;
                        assert((pre + toks) + rest =~= pre + (toks + rest));
                    }
                }
            },
        }
        ln += 1;
    }
    proof {
        assert(tokens_view(out@) + Seq::<TokenView>::empty() =~= tokens_view(out@));
    }
    Result::Ok(out)
}

} // verus!
