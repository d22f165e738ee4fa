//! Errors of the rewriting, with the source region where they arose.
use vstd::prelude::*;
use crate::text::{decimal, push_decimal};

verus! {

/// A location in the source code: byte offset, 0-based line and 0-based character on the line.
#[derive(Debug, Clone, Copy, PartialEq, Eq)]
pub struct Loc {
    pub pos: usize,
    pub row: usize,
    pub col: usize,
}

/// A region of the source code in a named file.
#[derive(Debug, PartialEq, Eq)]
pub struct Span {
    pub file_name: String,
    pub start: Loc,
    pub end: Loc,
}

pub struct SpanView {
    pub file_name: Seq<char>,
    pub start: Loc,
    pub end: Loc,
}

impl View for Span {
    type V = SpanView;

    open spec fn view(&self) -> SpanView {
        SpanView { file_name: self.file_name@, start: self.start, end: self.end }
    }
}

/// Why a string literal has no value.
#[derive(Debug, Clone, Copy, PartialEq, Eq)]
pub enum StrLitError {
    /// The literal has a `\` at the end of its content.
    ExpectedEscape,
    /// A `\x__` escape has fewer than two characters after the `x`.
    ExpectedHex2,
    /// A `\x__` escape is not followed by a hexadecimal number.
    NotHex2,
    /// A `\u{…}` escape has no closing `}`.
    ExpectedRbrace,
    /// A `\u{…}` escape holds no hexadecimal number.
    NotHex,
    /// A Unicode escape names no Unicode scalar value.
    NotChar,
    /// A `\u____` escape has fewer than four characters after the `u`.
    ExpectedHex4,
    /// A `\u____` escape is not followed by a hexadecimal number.
    NotHex4,
}

/// The kind of an error.
#[derive(Debug, Clone, Copy, PartialEq, Eq)]
pub enum ErrorKind {
    /// A construct was expected and not found; the text names the construct.
    Expected(&'static str),
    /// A string literal naming a module has no value.
    ParseStrLitError(StrLitError),
}

pub enum ErrorKindView {
    Expected(Seq<char>),
    ParseStrLitError(StrLitError),
}

impl View for ErrorKind {
    type V = ErrorKindView;

    open spec fn view(&self) -> ErrorKindView {
        match *self {
            ErrorKind::Expected(s) => ErrorKindView::Expected(s@),
            ErrorKind::ParseStrLitError(e) => ErrorKindView::ParseStrLitError(e),
        }
    }
}

/// An error of the rewriting.
#[derive(Debug, PartialEq, Eq)]
pub struct Error {
    pub kind: ErrorKind,
    pub span: Span,
}

pub struct ErrorView {
    pub kind: ErrorKindView,
    pub span: SpanView,
}

impl View for Error {
    type V = ErrorView;

    open spec fn view(&self) -> ErrorView {
        ErrorView { kind: self.kind@, span: self.span@ }
    }
}

/// The description of why a string literal has no value.
pub open spec fn str_lit_description(e: StrLitError) -> Seq<char> {
    match e {
        StrLitError::ExpectedEscape => "expected escape sequence, but got end of string"@,
        StrLitError::ExpectedHex2 => "expected two hexadecimal characters after '\\x'"@,
        StrLitError::NotHex2 => "expected two hexadecimal characters after '\\x'"@,
        StrLitError::ExpectedRbrace => "expected `}` after `\\u{`"@,
        StrLitError::NotHex => "expected hexadecimal number in `\\u{…}` escape"@,
        StrLitError::NotChar => "hexadecimal number in `\\u{…}` escape is not a Unicode Scalar Value"@,
        StrLitError::ExpectedHex4 => "expected four hexadecimal characters or '{…}' after '\\u'"@,
        StrLitError::NotHex4 => "expected four hexadecimal characters or '{…}' after '\\u'"@,
    }
}

impl StrLitError {
    /// Why the string literal has no value, in words.
    pub fn description(&self) -> (s: &'static str)
        ensures
            s@ == str_lit_description(*self),
    {
        match self {
            StrLitError::ExpectedEscape => "expected escape sequence, but got end of string",
            StrLitError::ExpectedHex2 => "expected two hexadecimal characters after '\\x'",
            StrLitError::NotHex2 => "expected two hexadecimal characters after '\\x'",
            StrLitError::ExpectedRbrace => "expected `}` after `\\u{`",
            StrLitError::NotHex => "expected hexadecimal number in `\\u{…}` escape",
            StrLitError::NotChar => "hexadecimal number in `\\u{…}` escape is not a Unicode Scalar Value",
            StrLitError::ExpectedHex4 => "expected four hexadecimal characters or '{…}' after '\\u'",
            StrLitError::NotHex4 => "expected four hexadecimal characters or '{…}' after '\\u'",
        }
    }
}

/// The text of an error kind.
pub open spec fn kind_text(k: ErrorKindView) -> Seq<char> {
    match k {
        ErrorKindView::Expected(s) => "expected "@ + s,
        ErrorKindView::ParseStrLitError(e) => "invalid string literal: "@ + str_lit_description(e),
    }
}

/// The 1-based numeral of a 0-based line or character number.
pub open spec fn ordinal(n: usize) -> Seq<char> {
    decimal((n + 1) as nat)
}

/// The text of a region: `file:line,char`, then `-char` or `-line,char` for its
/// end when it differs from its start.
pub open spec fn span_text(s: SpanView) -> Seq<char> {
    let head = s.file_name + ":"@ + ordinal(s.start.row) + ","@ + ordinal(s.start.col);
    if s.start.row == s.end.row {
        if s.start.col == s.end.col {
            head
        } else {
            head + "-"@ + ordinal(s.end.col)
        }
    } else {
        head + "-"@ + ordinal(s.end.row) + ","@ + ordinal(s.end.col)
    }
}

/// The text of an error: its kind, where, and a line break.
pub open spec fn error_text(e: ErrorView) -> Seq<char> {
    kind_text(e.kind) + " at "@ + span_text(e.span) + "\n"@
}

fn push_ordinal(out: &mut String, n: usize)
    ensures
        final(out)@ == old(out)@ + ordinal(n),
{
    push_decimal(out, n as u128 + 1);
}

impl ErrorKind {
    /// The text of the error kind.
    pub fn to_string(&self) -> (s: String)
        ensures
            s@ == kind_text(self@),
    {
        let mut s = String::new();
        match self {
            ErrorKind::Expected(what) => {
                s.append("expected ");
                s.append(what);
            },
            ErrorKind::ParseStrLitError(e) => {
                s.append("invalid string literal: ");
                s.append(e.description());
            },
        }
        proof {
            assert(s@ =~= kind_text(self@));
        }
        s
    }
}

impl Span {
    /// The text of the region.
    pub fn to_string(&self) -> (s: String)
        ensures
            s@ == span_text(self@),
    {
        let mut s = String::new();
        s.append(self.file_name.as_str());
        s.append(":");
        push_ordinal(&mut s, self.start.row);
        s.append(",");
        push_ordinal(&mut s, self.start.col);
        if self.start.row == self.end.row {
            if self.start.col != self.end.col {
                s.append("-");
                push_ordinal(&mut s, self.end.col);
            }
        } else {
            s.append("-");
            push_ordinal(&mut s, self.end.row);
            s.append(",");
            push_ordinal(&mut s, self.end.col);
        }
        proof {
            assert(s@ =~= span_text(self@));
        }
        s
    }
}

impl Error {
    /// The text of the error.
    pub fn to_string(&self) -> (s: String)
        ensures
            s@ == error_text(self@),
    {
        let mut s = self.kind.to_string();
        s.append(" at ");
        let place = self.span.to_string();
        s.append(place.as_str());
        s.append("\n");
        proof {
            assert(s@ =~= error_text(self@));
        }
        s
    }
}

} // verus!
