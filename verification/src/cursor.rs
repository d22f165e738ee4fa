//! Reading the token stream of a lexer one token at a time, with the tokens
//! read so far counted against the stream that the reading started from.
use vstd::prelude::*;
use vstd::utf8::encode_utf8;
use esparse::lex::Lexer;
use crate::error::Error;
use crate::lexer::{
    lexable, lexer_advance, lexer_here, lexer_recover_span, lexer_source, lexer_tokens,
    stream_wf, token_in_input, str_lit_value, plain_str_lit, TokKind, Token, TokenView,
};
use crate::error::ErrorKind;
use crate::syntax::{binding_name, expected, id_is, is_str_lit, kw, module_value};
use crate::text::text_eq;

verus! {

/// The lexer stands at index `i` of `toks`, a well-formed stream over `input`.
pub open spec fn at(lex: Lexer, toks: Seq<TokenView>, input: Seq<char>, i: int) -> bool {
    &&& lexer_source(lex) == input
    &&& lexable(input)
    &&& stream_wf(toks, input)
    &&& 0 <= i < toks.len()
    &&& lexer_tokens(lex) == toks.skip(i)
}

/// The current token.
pub(crate) fn here<'f, 's>(
    lex: &Lexer<'f, 's>,
    Ghost(toks): Ghost<Seq<TokenView>>,
    Ghost(input): Ghost<Seq<char>>,
    Ghost(i): Ghost<int>,
) -> (t: Token<'f, 's>)
    requires
        at(*lex, toks, input, i),
    ensures
        t@ == toks[i],
        token_in_input(t@, encode_utf8(input)),
{
    let t = lexer_here(lex);
    proof {
        assert(toks.skip(i)[0] == toks[i]);
        assert(token_in_input(toks[i], encode_utf8(input)));
    }
    t
}

/// Moves past the current token, which is not the end of the input.
pub(crate) fn advance(
    lex: &mut Lexer,
    Ghost(toks): Ghost<Seq<TokenView>>,
    Ghost(input): Ghost<Seq<char>>,
    Ghost(i): Ghost<int>,
)
    requires
        at(*old(lex), toks, input, i),
        toks[i].kind != TokKind::Eof,
    ensures
        at(*final(lex), toks, input, i + 1),
{
    proof {
        assert(i < toks.len() - 1);
    }
    lexer_advance(lex);
    proof {
        assert(toks.skip(i).drop_first() =~= toks.skip(i + 1));
    }
}

/// Whether `t` is the keyword or punctuator written `s`.
pub(crate) fn is_kw(t: &Token, s: &str) -> (r: bool)
    ensures
        r == kw(t@, s@),
{
    t.kind == TokKind::Other && text_eq(t.text, s)
}

/// Whether `t` is the identifier `s`.
pub(crate) fn is_id(t: &Token, s: &str) -> (r: bool)
    ensures
        r == id_is(t@, s@),
{
    t.kind == TokKind::Id && text_eq(t.text, s)
}

/// Whether `t` is a string literal.
pub(crate) fn is_lit(t: &Token) -> (r: bool)
    ensures
        r == is_str_lit(t@),
{
    t.kind == TokKind::StrLitSgl || t.kind == TokKind::StrLitDbl
}

/// Whether `t` is an identifier or `default`.
pub(crate) fn is_binding_name(t: &Token) -> (r: bool)
    ensures
        r == binding_name(t@),
{
    t.kind == TokKind::Id || is_kw(t, "default")
}

/// The error that `msg` was expected at the current token.
pub(crate) fn expected_here(
    lex: &Lexer,
    msg: &'static str,
    Ghost(toks): Ghost<Seq<TokenView>>,
    Ghost(input): Ghost<Seq<char>>,
    Ghost(i): Ghost<int>,
) -> (e: Error)
    requires
        at(*lex, toks, input, i),
    ensures
        e@ == expected(msg@, toks[i], input),
{
    let t = here(lex, Ghost(toks), Ghost(input), Ghost(i));
    let span = lexer_recover_span(lex, &t);
    Error { kind: ErrorKind::Expected(msg), span }
}

/// The value of the string literal `t`, with the error at `t`.
pub(crate) fn literal_value(
    lex: &Lexer,
    t: &Token,
    Ghost(toks): Ghost<Seq<TokenView>>,
    Ghost(input): Ghost<Seq<char>>,
    Ghost(i): Ghost<int>,
) -> (r: Result<String, Error>)
    requires
        at(*lex, toks, input, i),
        token_in_input(t@, encode_utf8(input)),
        plain_str_lit(t@.text),
    ensures
        value_result_view(r) == module_value(t@, input),
{
    match str_lit_value(t.text) {
        Ok(v) => Ok(v),
        Err(e) => {
            let span = lexer_recover_span(lex, t);
            Err(Error { kind: ErrorKind::ParseStrLitError(e), span })
        },
    }
}

/// A string value or an error, by views.
pub open spec fn value_result_view(r: Result<String, Error>) -> Result<Seq<char>, crate::error::ErrorView> {
    match r {
        Ok(v) => Ok(v@),
        Err(e) => Err(e@),
    }
}

} // verus!
