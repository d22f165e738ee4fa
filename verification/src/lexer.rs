//! The lexer of `esparse`, seen as the stream of tokens it has still to hand
//! out, and the few calls into `esparse` that the rewriting makes.
use vstd::prelude::*;
use vstd::utf8::*;
use esparse::lex::{self, Lexer, Tt};
use esparse::skip::{self, Prec};
use crate::error::{Error, ErrorKind, ErrorView, Loc, Span, StrLitError};
use crate::text::byte_slice;

verus! {

#[verifier::external_type_specification]
#[verifier::external_body]
pub struct ExLexer<'f, 's>(Lexer<'f, 's>);

/// What a token is, as far as the rewriting tells tokens apart.
#[derive(Debug, Clone, Copy, PartialEq, Eq, Structural)]
pub enum TokKind {
    /// An identifier (`let`, `as`, `from` and `require` among them).
    Id,
    /// A single-quoted string literal.
    StrLitSgl,
    /// A double-quoted string literal.
    StrLitDbl,
    /// The end of the input.
    Eof,
    /// The token handed out where the lexer meets input it cannot read (its text
    /// is empty); only the end of the input comes after it.
    Error,
    /// Any other token: keywords and punctuators, which are told apart by their
    /// source text, and numeric, regular expression and template literals.
    Other,
}

/// A token handed out by the lexer.
#[derive(Debug, Clone, Copy)]
pub struct Token<'f, 's> {
    pub kind: TokKind,
    /// The source text of the token (empty for the end of the input).
    pub text: &'s str,
    /// The whitespace and comments right before the token.
    pub ws_before: &'s str,
    pub file_name: &'f str,
    /// Byte offset of the token's first byte.
    pub start: usize,
    /// Byte offset just past the token.
    pub end: usize,
}

pub struct TokenView {
    pub kind: TokKind,
    pub text: Seq<char>,
    pub ws_before: Seq<char>,
    pub file_name: Seq<char>,
    pub start: usize,
    pub end: usize,
}

impl<'f, 's> View for Token<'f, 's> {
    type V = TokenView;

    open spec fn view(&self) -> TokenView {
        TokenView {
            kind: self.kind,
            text: self.text@,
            ws_before: self.ws_before@,
            file_name: self.file_name@,
            start: self.start,
            end: self.end,
        }
    }
}

/// The tokens that the lexer has still to hand out, from the current one up to
/// and including the first end-of-input token.
pub uninterp spec fn lexer_tokens(lex: Lexer) -> Seq<TokenView>;

/// The source code that the lexer was made with.
pub uninterp spec fn lexer_source(lex: Lexer) -> Seq<char>;

/// The outcome of skipping an assignment expression at the front of `toks`:
/// the number of tokens skipped, or the error.
pub uninterp spec fn skip_expr_outcome(toks: Seq<TokenView>, input: Seq<char>) -> Result<nat, ErrorView>;

/// `a` is `b`, but for the whitespace before it.
pub open spec fn same_but_ws(a: TokenView, b: TokenView) -> bool {
    &&& a.kind == b.kind
    &&& a.text == b.text
    &&& a.file_name == b.file_name
    &&& a.start == b.start
    &&& a.end == b.end
}

/// `rest` is `toks` from index `n` on, save that the whitespace before the end
/// of the input (the last token) may differ.
pub open spec fn tail_from(rest: Seq<TokenView>, toks: Seq<TokenView>, n: int) -> bool {
    &&& 0 <= n < toks.len()
    &&& rest.len() == toks.len() - n
    &&& forall|j: int| 0 <= j < rest.len() - 1 ==> #[trigger] rest[j] == toks[n + j]
    &&& same_but_ws(rest[rest.len() - 1], toks[toks.len() - 1])
}

/// The tokens from index `n` on are such a tail.
pub proof fn lemma_tail_from_skip(toks: Seq<TokenView>, n: int)
    requires
        0 <= n < toks.len(),
    ensures
        tail_from(toks.skip(n), toks, n),
{
    let rest = toks.skip(n);
    assert forall|j: int| 0 <= j < rest.len() - 1 implies #[trigger] rest[j] == toks[n + j] by {}
    assert(rest[rest.len() - 1] == toks[toks.len() - 1]);
}

/// A tail of the tokens from index `k` on is a tail of the whole stream.
pub proof fn lemma_tail_from_shift(rest: Seq<TokenView>, toks: Seq<TokenView>, k: int, n: int)
    requires
        0 <= k <= toks.len(),
        tail_from(rest, toks.skip(k), n),
    ensures
        tail_from(rest, toks, k + n),
{
    let s = toks.skip(k);
    assert forall|j: int| 0 <= j < rest.len() - 1 implies #[trigger] rest[j] == toks[k + n + j] by {
        assert(s[n + j] == toks[k + n + j]);
    }
    assert(s[s.len() - 1] == toks[toks.len() - 1]);
}

/// The number of tokens that skipping an assignment expression at the front of
/// `toks` has passed when it fails.
pub uninterp spec fn skip_expr_stop(toks: Seq<TokenView>, input: Seq<char>) -> nat;

/// The value of a string literal given by its source text.
pub uninterp spec fn str_lit_value_of(source: Seq<char>) -> Result<Seq<char>, StrLitError>;

/// A character after which a new line starts, as locations count lines: line
/// feed, line separator and paragraph separator (carriage return is not one).
pub open spec fn starts_line(c: char) -> bool {
    c == '\n' || c == '\u{2028}' || c == '\u{2029}'
}

/// The line and the character on that line (both from 0) just after the
/// characters `before`.
pub open spec fn line_col(before: Seq<char>) -> (nat, nat)
    decreases before.len(),
{
    if before.len() == 0 {
        (0, 0)
    } else {
        let (row, col) = line_col(before.drop_last());
        if starts_line(before.last()) {
            (row + 1, 0)
        } else {
            (row, col + 1)
        }
    }
}

/// The location of the character boundary at byte offset `pos` of `input`: the
/// offset, with the line and character on it of the text before it.
pub open spec fn recovered_loc(input: Seq<char>, pos: usize) -> Loc {
    let (row, col) = line_col(byte_slice(input, 0, pos as int));
    Loc { pos, row: row as usize, col: col as usize }
}

/// Number of bytes of the UTF-8 encoding of `s`.
pub open spec fn byte_len(s: Seq<char>) -> int {
    encode_utf8(s).len() as int
}

/// The lexer reads the input one character at a time and cannot decode the
/// characters whose UTF-8 encoding starts with the byte `0xF1` or `0xF3`.
pub open spec fn lexable(input: Seq<char>) -> bool {
    forall|i: int| 0 <= i < input.len() ==> #[trigger] lexable_char(input[i])
}

/// A character whose UTF-8 encoding does not start with `0xF1` or `0xF3`.
pub open spec fn lexable_char(c: char) -> bool {
    let u = c as u32;
    !(0x40000 <= u < 0x80000) && !(0xC0000 <= u < 0x100000)
}

/// The characters of `s`, in order.
fn chars_of(s: &str) -> (v: Vec<char>)
    ensures
        v@ == s@,
{
    let mut seen: Vec<char> = Vec::new();
    for c in it: s.chars()
        invariant
            seen@ == it.seq().take(it.index() as int),
    {
        seen.push(c);
        proof {
            assert(seen@ =~= it.seq().take(it.index() as int + 1));
        }
    }
    proof {
        broadcast use vstd::string::axiom_spec_iter;
        assert(seen@ =~= s@);
    }
    seen
}

/// Whether `c` is not one of the characters that the lexer cannot decode.
fn is_lexable_char(c: char) -> (r: bool)
    ensures
        r == lexable_char(c),
{
    let u = c as u32;
    !((0x40000 <= u && u < 0x80000) || (0xC0000 <= u && u < 0x100000))
}

/// Whether the lexer can decode every character of `s`.
pub fn is_lexable(s: &str) -> (r: bool)
    ensures
        r == lexable(s@),
{
    let v = chars_of(s);
    let mut k: usize = 0;
    while k < v.len()
        invariant
            k <= v@.len(),
            v@ == s@,
            forall|j: int| 0 <= j < k ==> #[trigger] lexable_char(v@[j]),
        decreases v@.len() - k,
    {
        if !is_lexable_char(v[k]) {
            return false;
        }
        k = k + 1;
    }
    true
}

/// Whether `s` is a string literal whose value `str_lit_value` computes
/// without panicking (`plain_str_lit`).
pub fn is_plain_literal(s: &str) -> (r: bool)
    ensures
        r == plain_str_lit(s@),
{
    let v = chars_of(s);
    let n = v.len();
    if n < 2 || (v[0] as u32) >= 128 || (v[n - 1] as u32) >= 128 {
        return false;
    }
    let mut b: usize = 0;
    while b < n && v[b] != '\\'
        invariant
            b <= n == v@.len(),
            v@ == s@,
            forall|k: int| 0 <= k < b ==> v@[k] != '\\',
        decreases n - b,
    {
        b = b + 1;
    }
    if b == n {
        return true;
    }
    let mut k: usize = b + 1;
    while k < n
        invariant
            b < n == v@.len(),
            v@ == s@,
            v@[b as int] == '\\',
            forall|q: int| 0 <= q < b ==> v@[q] != '\\',
            b + 1 <= k <= n,
            forall|j: int| b + 1 < j < k ==> v@[j] != '\\',
        decreases n - k,
    {
        if v[k] == '\\' && k != b + 1 {
            proof {
                assert(v@[b as int] == '\\' && v@[k as int] == '\\');
            }
            return false;
        }
        k = k + 1;
    }
    if b == n - 1 {
        return true;
    }
    let e = v[b + 1];
    if e == 'u' && b + 2 < n && v[b + 2] == '{' {
        proof {
            assert(s@[b as int] == '\\');
            assert(!ascii_escape(s@, b as int));
        }
        return false;
    }
    let m: usize = if e == 'x' {
        3
    } else if e == 'u' {
        5
    } else {
        1
    };
    let mut j: usize = b + 1;
    while j - b <= m && j < n
        invariant
            b + 1 < n == v@.len(),
            v@ == s@,
            v@[b as int] == '\\',
            forall|q: int| 0 <= q < b ==> v@[q] != '\\',
            forall|q: int| b + 1 < q < n ==> v@[q] != '\\',
            e == v@[b + 1],
            m == (if e == 'x' { 3usize } else if e == 'u' { 5usize } else { 1usize }),
            !(e == 'u' && b + 2 < n && v@[b + 2] == '{'),
            b + 1 <= j,
            m <= 5,
            forall|q: int| b < q < j ==> (#[trigger] v@[q] as u32) < 128,
        decreases n - j,
    {
        if (v[j] as u32) >= 128 {
            proof {
                assert(s@[b as int] == '\\');
                assert(!ascii_escape(s@, b as int));
            }
            return false;
        }
        j = j + 1;
    }
    proof {
        assert forall|p: int|
            0 <= p < s@.len() - 1 && #[trigger] s@[p] == '\\' && !(p > 0 && s@[p - 1] == '\\')
            implies ascii_escape(s@, p) by {
            assert(p == b);
        }
    }
    true
}

/// Byte offset where the whitespace before `t` starts.
pub open spec fn ws_start(t: TokenView) -> int {
    t.start - byte_len(t.ws_before)
}

/// The tokens that a lexer made on `input` hands out, from the first one up
/// to and including the first end-of-input token.
pub uninterp spec fn source_tokens(input: Seq<char>) -> Seq<TokenView>;

/// A lexer over `input`, named `<input>`, from
/// `esparse::lex::Lexer::new_unnamed`. Claimed of it: its source is `input`, its
/// tokens are `source_tokens` of the input, and its first token, unless it is
/// an error token, comes right after the whitespace at the start of the input
/// (the lexer reads it from byte 0).
#[verifier::external_body]
pub(crate) fn lexer_new<'s>(input: &'s str) -> (lex: Lexer<'static, 's>)
    requires
        lexable(input@),
    ensures
        lexer_source(lex) == input@,
        lexer_tokens(lex) == source_tokens(input@),
        lexer_tokens(lex).len() > 0,
        lexer_tokens(lex)[0].kind != TokKind::Error ==> ws_start(lexer_tokens(lex)[0]) == 0,
{
    Lexer::new_unnamed(input)
}

/// `s` starts and ends with the quotation mark `q`.
pub open spec fn quoted(s: Seq<char>, q: char) -> bool {
    s.len() >= 2 && s[0] == q && s[s.len() - 1] == q
}

/// Where a token stands in the UTF-8 bytes `b` of the input.
pub open spec fn token_in_input(t: TokenView, b: Seq<u8>) -> bool {
    &&& byte_len(t.ws_before) <= t.start <= t.end <= b.len()
    &&& is_char_boundary(b, t.start as int)
    &&& is_char_boundary(b, t.end as int)
    &&& is_char_boundary(b, t.start - byte_len(t.ws_before))
    &&& t.kind == TokKind::StrLitSgl ==> quoted(t.text, '\'')
    &&& t.kind == TokKind::StrLitDbl ==> quoted(t.text, '"')
}

/// The token stream ends with a single end-of-input token, and its tokens
/// (with the whitespace before each) follow each other through the input.
pub open spec fn stream_wf(toks: Seq<TokenView>, input: Seq<char>) -> bool {
    &&& toks.len() > 0
    &&& toks[toks.len() - 1].kind == TokKind::Eof
    &&& forall|i: int| 0 <= i < toks.len() - 1 ==> (#[trigger] toks[i]).kind != TokKind::Eof
    &&& forall|i: int| 0 <= i < toks.len() ==> token_in_input(#[trigger] toks[i], encode_utf8(input))
    &&& forall|i: int, j: int|
        0 <= i < j < toks.len() ==> (#[trigger] toks[i]).start <= (#[trigger] toks[j]).start
            - byte_len(toks[j].ws_before)
}

/// The token at index `i` stands in the input as its whitespace followed by
/// its text, and the whitespace of the next token (unless that is an error
/// token) starts where it ends; the end of the input stands at the end of the
/// input.
pub open spec fn tiles_at(toks: Seq<TokenView>, input: Seq<char>, i: int) -> bool {
    let t = toks[i];
    let b = encode_utf8(input);
    &&& is_char_boundary(b, t.end as int)
    &&& byte_slice(input, t.start - byte_len(t.ws_before), t.start as int) == t.ws_before
    &&& byte_slice(input, t.start as int, t.end as int) == t.text
    &&& (i + 1 < toks.len() && toks[i + 1].kind != TokKind::Error) ==> toks[i + 1].start
        - byte_len(toks[i + 1].ws_before) == t.end
    &&& t.kind == TokKind::Eof ==> t.start == b.len() && t.end == b.len()
}

/// Every token but an error token stands in the input as `tiles_at` says: the
/// tokens and the whitespace before them follow each other through the input.
pub open spec fn stream_tiles(toks: Seq<TokenView>, input: Seq<char>) -> bool {
    forall|i: int|
        0 <= i < toks.len() && toks[i].kind != TokKind::Error ==> #[trigger] tiles_at(toks, input, i)
}

/// The escape sequence at index `b` of the literal `s` (at its `\`) is read
/// by whole ASCII characters: the character after the `\` and, for `\x` and
/// `\u` without `{`, the hexadecimal digits after it are ASCII, and it is not
/// a `\u{…}` escape.
pub open spec fn ascii_escape(s: Seq<char>, b: int) -> bool {
    let n: int = if s[b + 1] == 'x' {
        3
    } else if s[b + 1] == 'u' {
        5
    } else {
        1
    };
    &&& !(s[b + 1] == 'u' && b + 2 < s.len() && s[b + 2] == '{')
    &&& forall|j: int| b < j <= b + n && j < s.len() ==> (#[trigger] s[j] as u32) < 128
}

/// A string literal whose value `esparse::lex::str_lit_value` computes without
/// panicking: quoted by ASCII characters, and holding at most one escape
/// sequence, read by whole ASCII characters (`ascii_escape`). Its `\` may be
/// followed by a second `\`, the escaped character. Any other `\` is left out:
/// `str_lit_value` takes the offset of each `\` after the first escape as if it
/// were counted from the start of the literal, and panics on many such literals.
pub open spec fn plain_str_lit(s: Seq<char>) -> bool {
    &&& s.len() >= 2
    &&& (s[0] as u32) < 128
    &&& (s[s.len() - 1] as u32) < 128
    &&& forall|i: int, j: int|
        0 <= i < j < s.len() && #[trigger] s[i] == '\\' && #[trigger] s[j] == '\\' ==> j == i + 1
    &&& forall|b: int|
        0 <= b < s.len() - 1 && #[trigger] s[b] == '\\' && !(b > 0 && s[b - 1] == '\\')
            ==> ascii_escape(s, b)
}

/// The current token, from `esparse::lex::Lexer::here`. The body converts the
/// token type to a `TokKind` and its source slice (`Tt::as_str`), and moves the
/// whitespace and the span across unchanged.
#[verifier::external_body]
pub(crate) fn lexer_here<'f, 's>(lex: &Lexer<'f, 's>) -> (tok: Token<'f, 's>)
    ensures
        tok@ == lexer_tokens(*lex)[0],
{
    let t = lex.here();
    let kind = match t.tt {
        Tt::Id(_) => TokKind::Id,
        Tt::StrLitSgl(_) => TokKind::StrLitSgl,
        Tt::StrLitDbl(_) => TokKind::StrLitDbl,
        Tt::Eof => TokKind::Eof,
        Tt::Err => TokKind::Error,
        _ => TokKind::Other,
    };
    let (file_name, start, end) = (t.span.file_name, t.span.start, t.span.end);
    Token { kind, text: t.tt.as_str(), ws_before: t.ws_before, file_name, start, end }
}

/// The input of the lexer, from `esparse::lex::Lexer::input`. Claimed of it: it
/// is the source the lexer was made with, and the tokens still to come lie in
/// it one after another as `stream_wf` says (the lexer reads them from it in
/// order, each after the whitespace before it), and every token but an error
/// token is the slice of the input between its span's ends, right after its
/// whitespace, as `stream_tiles` says (`Tt::as_str` gives the source text of
/// each token but the error token, whose text is empty).
#[verifier::external_body]
pub(crate) fn lexer_input<'f, 's>(lex: &Lexer<'f, 's>) -> (input: &'s str)
    requires
        lexable(lexer_source(*lex)),
    ensures
        input@ == lexer_source(*lex),
        stream_wf(lexer_tokens(*lex), input@),
        stream_tiles(lexer_tokens(*lex), input@),
{
    lex.input()
}

/// Moves to the next token, with `esparse::lex::Lexer::advance`. Claimed of it:
/// the current token is dropped from the stream; at the end of the input the
/// stream stays a single end-of-input token.
#[verifier::external_body]
pub(crate) fn lexer_advance(lex: &mut Lexer)
    requires
        lexable(lexer_source(*old(lex))),
    ensures
        lexer_source(*final(lex)) == lexer_source(*old(lex)),
        lexer_tokens(*old(lex)).len() > 1 ==> lexer_tokens(*final(lex)) == lexer_tokens(
            *old(lex),
        ).drop_first(),
        lexer_tokens(*old(lex)).len() <= 1 ==> lexer_tokens(*final(lex)).len() == 1
            && lexer_tokens(*final(lex))[0].kind == TokKind::Eof,
{
    lex.advance();
}

/// Skips an assignment expression with `esparse::skip::expr` at `Prec::NoComma`,
/// converting its error as the kind and span stand. Claimed of it: the outcome
/// is `skip_expr_outcome` of the tokens still to come and the input; on success
/// it has skipped that many tokens, never the end of the input; on failure it
/// has passed `skip_expr_stop` of them. On failure the end of the input may
/// have been read a second time (`skip::balanced` advances past it before it
/// sees it), and that end-of-input token comes with no whitespace before it:
/// so only the tokens up to the end of the input are claimed as they were, and
/// the end of the input but for its whitespace.
#[verifier::external_body]
pub(crate) fn skip_assignment_expr(lex: &mut Lexer) -> (r: Result<(), Error>)
    requires
        lexable(lexer_source(*old(lex))),
    ensures
        lexer_source(*final(lex)) == lexer_source(*old(lex)),
        match skip_expr_outcome(lexer_tokens(*old(lex)), lexer_source(*old(lex))) {
            Ok(n) => r is Ok && n < lexer_tokens(*old(lex)).len() && lexer_tokens(*final(lex))
                == lexer_tokens(*old(lex)).skip(n as int),
            Err(e) => r matches Err(err) && err@ == e && tail_from(
                lexer_tokens(*final(lex)),
                lexer_tokens(*old(lex)),
                skip_expr_stop(lexer_tokens(*old(lex)), lexer_source(*old(lex))) as int,
            ),
        },
{
    match skip::expr(lex, Prec::NoComma) {
        Ok(()) => Ok(()),
        Err(e) => match e.kind {
            skip::ErrorKind::Expected(s) => Err(Error {
                kind: ErrorKind::Expected(s),
                span: Span {
                    file_name: e.span.file_name,
                    start: Loc { pos: e.span.start.pos, row: e.span.start.row, col: e.span.start.col },
                    end: Loc { pos: e.span.end.pos, row: e.span.end.row, col: e.span.end.col },
                },
            }),
        },
    }
}

/// `s` holds a `\`.
pub open spec fn has_escape(s: Seq<char>) -> bool {
    s.contains('\\')
}

/// The value of a literal without escapes: the text between its quotation marks.
pub open spec fn unescaped_value(s: Seq<char>) -> Result<Seq<char>, StrLitError> {
    Ok(s.subrange(1, s.len() - 1))
}

/// A string value or its error, by views.
pub open spec fn value_view(r: Result<String, StrLitError>) -> Result<Seq<char>, StrLitError> {
    match r {
        Ok(v) => Ok(v@),
        Err(e) => Err(e),
    }
}

/// The value of a string literal, from `esparse::lex::str_lit_value`. Claimed of
/// it: the outcome is `str_lit_value_of` of the literal, and a literal without
/// `\` has for value the text between its quotation marks (as its documentation
/// says: a subslice). The body turns the value into a `String` and the error
/// into the `StrLitError` of the same name.
#[verifier::external_body]
pub(crate) fn str_lit_value(source: &str) -> (r: Result<String, StrLitError>)
    requires
        plain_str_lit(source@),
    ensures
        value_view(r) == str_lit_value_of(source@),
        !has_escape(source@) ==> value_view(r) == unescaped_value(source@),
{
    match lex::str_lit_value(source) {
        Ok(v) => Ok(v.into_owned()),
        Err(e) => Err(match e {
            lex::ParseStrLitError::ExpectedEscape => StrLitError::ExpectedEscape,
            lex::ParseStrLitError::ExpectedHex2 => StrLitError::ExpectedHex2,
            lex::ParseStrLitError::NotHex2 => StrLitError::NotHex2,
            lex::ParseStrLitError::ExpectedRbrace => StrLitError::ExpectedRbrace,
            lex::ParseStrLitError::NotHex => StrLitError::NotHex,
            lex::ParseStrLitError::NotChar => StrLitError::NotChar,
            lex::ParseStrLitError::ExpectedHex4 => StrLitError::ExpectedHex4,
            lex::ParseStrLitError::NotHex4 => StrLitError::NotHex4,
        }),
    }
}

/// The region of a token with line and character numbers, from
/// `esparse::lex::Lexer::recover_span`. Claimed of it: the file name is the
/// token's, and each end is `recovered_loc` of the input at that byte offset
/// (its `LocStream` counts lines at line feeds and line and paragraph
/// separators, and characters since the last of them, up to the offset).
#[verifier::external_body]
pub(crate) fn lexer_recover_span<'f, 's>(lex: &Lexer<'f, 's>, tok: &Token<'f, 's>) -> (span: Span)
    requires
        lexable(lexer_source(*lex)),
        tok.start <= tok.end <= byte_len(lexer_source(*lex)),
        is_char_boundary(encode_utf8(lexer_source(*lex)), tok.start as int),
        is_char_boundary(encode_utf8(lexer_source(*lex)), tok.end as int),
    ensures
        span.file_name@ == tok.file_name@,
        span.start == recovered_loc(lexer_source(*lex), tok.start),
        span.end == recovered_loc(lexer_source(*lex), tok.end),
{
    let s = lex.recover_span(esparse::Span::new(tok.file_name, tok.start, tok.end));
    Span {
        file_name: s.file_name.to_owned(),
        start: Loc { pos: s.start.pos, row: s.start.row, col: s.start.col },
        end: Loc { pos: s.end.pos, row: s.end.row, col: s.end.col },
    }
}

} // verus!
