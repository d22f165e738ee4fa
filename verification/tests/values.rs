use parcel::lexer::{is_lexable, is_plain_literal};
use esparse::lex::{self, Tt};
use parcel::decl::{Bindings, Export, ExportSpec, Import, ImportSpec};
use parcel::error::{ErrorKind, StrLitError};
use parcel::es6::{after_initializer, parse_export, parse_import};

fn import_of(source: &str) -> (Result<Import<'_>, parcel::error::Error>, String) {
    let mut lexer = lex::Lexer::new_unnamed(source);
    assert_eq!(lexer.advance().tt, Tt::Import);
    let mut output = String::new();
    let r = parse_import(&mut lexer, &mut output);
    (r, output)
}

fn export_of(source: &str) -> (Result<Export<'_>, parcel::error::Error>, String) {
    let mut lexer = lex::Lexer::new_unnamed(source);
    assert_eq!(lexer.advance().tt, Tt::Export);
    let mut output = String::new();
    let r = parse_export(&mut lexer, &mut output);
    (r, output)
}

#[test]
fn spec_constructors() {
    let e = ExportSpec::same("a");
    assert_eq!(e, ExportSpec::new("a", "a"));
    assert_eq!(e.bind, "a");
    let i = ImportSpec::new("x", "y");
    assert_eq!((i.name, i.bind), ("x", "y"));
    assert_eq!(ImportSpec::same("z"), ImportSpec::new("z", "z"));
    let imp = Import::new("'m'", "m".to_string());
    assert_eq!(imp.default_bind, None);
    assert_eq!(imp.binds, Bindings::Nothing);
}

#[test]
fn module_name_escapes_are_decoded() {
    let (r, _) = import_of("import 'a\\x41b' _next");
    assert_eq!(r.unwrap().module, "aAb");
    let (r, _) = import_of("import x from \"a\\nb\" _next");
    assert_eq!(r.unwrap().module, "a\nb");
}

#[test]
fn bad_module_name_is_a_string_literal_error() {
    let (r, out) = import_of("import '\\x4' _next");
    let e = r.unwrap_err();
    assert_eq!(e.kind, ErrorKind::ParseStrLitError(StrLitError::ExpectedHex2));
    assert_eq!(out, " ");
    assert_eq!(
        e.to_string(),
        "invalid string literal: expected two hexadecimal characters after '\\x' at <input>:1,8-13\n"
    );
}

#[test]
fn import_errors_name_what_was_expected() {
    let (r, out) = import_of("import * test from 'a' _next");
    assert_eq!(r.unwrap_err().kind, ErrorKind::Expected("keyword 'as'"));
    assert_eq!(out, " ");
    let (r, _) = import_of("import * as 1 from 'a'");
    assert_eq!(r.unwrap_err().kind, ErrorKind::Expected("name space binding name"));
    let (r, _) = import_of("import a 'x'");
    assert_eq!(r.unwrap_err().kind, ErrorKind::Expected("keyword 'from'"));
    let (r, _) = import_of("import a from x");
    assert_eq!(r.unwrap_err().kind, ErrorKind::Expected("module name (string literal)"));
    let (r, _) = import_of("import 1");
    assert_eq!(r.unwrap_err().kind, ErrorKind::Expected("module name (string literal) or bindings"));
    let (r, _) = import_of("import a, 1 from 'x'");
    assert_eq!(r.unwrap_err().kind, ErrorKind::Expected("bindings"));
    let (r, _) = import_of("import {a as default} from 'x'");
    assert_eq!(r.unwrap_err().kind, ErrorKind::Expected("binding name after keyword 'as'"));
    let (r, _) = import_of("import {a as b c} from 'x'");
    assert_eq!(r.unwrap_err().kind, ErrorKind::Expected("',' or '}'"));
    let (r, _) = import_of("import {1} from 'x'");
    assert_eq!(r.unwrap_err().kind, ErrorKind::Expected("import specifier or '}'"));
}

#[test]
fn export_errors_name_what_was_expected() {
    let (r, _) = export_of("export 1");
    assert_eq!(
        r.unwrap_err().kind,
        ErrorKind::Expected("keyword 'default' or '*' or '{' or declaration")
    );
    let (r, _) = export_of("export * as x from 'a'");
    assert_eq!(r.unwrap_err().kind, ErrorKind::Expected("keyword 'from'"));
    let (r, _) = export_of("export * from a");
    assert_eq!(r.unwrap_err().kind, ErrorKind::Expected("module name (string literal)"));
    let (r, _) = export_of("export {a as 1}");
    assert_eq!(r.unwrap_err().kind, ErrorKind::Expected("export name after keyword 'as'"));
    let (r, _) = export_of("export {1}");
    assert_eq!(r.unwrap_err().kind, ErrorKind::Expected("binding name or '}'"));
    let (r, _) = export_of("export var 1");
    assert_eq!(r.unwrap_err().kind, ErrorKind::Expected("binding name"));
    let (r, _) = export_of("export class 1");
    assert_eq!(r.unwrap_err().kind, ErrorKind::Expected("class name"));
    let (r, _) = export_of("export function 1");
    assert_eq!(r.unwrap_err().kind, ErrorKind::Expected("function name"));
}

#[test]
fn skipped_initialiser_error_comes_through() {
    let (r, out) = export_of("export var a = ;");
    let e = r.unwrap_err();
    assert_eq!(e.kind, ErrorKind::Expected("primary expression"));
    assert_eq!(out, " ");
}

#[test]
fn export_list_keeps_only_whitespace() {
    let (r, out) = export_of("export {\n  a,\n  b as c,\n} from 'm';");
    assert_eq!(
        r.unwrap(),
        Export::NamedFrom(vec![ExportSpec::same("a"), ExportSpec::new("b", "c")], "m".to_string())
    );
    assert_eq!(out, " \n  \n    \n  ");
}

#[test]
fn error_kind_texts() {
    assert_eq!(ErrorKind::Expected("class name").to_string(), "expected class name");
    assert_eq!(
        ErrorKind::ParseStrLitError(StrLitError::NotChar).to_string(),
        "invalid string literal: hexadecimal number in `\\u{…}` escape is not a Unicode Scalar Value"
    );
    assert_eq!(StrLitError::ExpectedEscape.description(), "expected escape sequence, but got end of string");
}

#[test]
fn error_span_on_several_lines() {
    let span = parcel::error::Span {
        file_name: "f.js".to_string(),
        start: parcel::error::Loc { pos: 3, row: 0, col: 3 },
        end: parcel::error::Loc { pos: 12, row: 2, col: 1 },
    };
    assert_eq!(span.to_string(), "f.js:1,4-3,2");
    let point = parcel::error::Span {
        file_name: "g".to_string(),
        start: parcel::error::Loc { pos: 9, row: 9, col: 0 },
        end: parcel::error::Loc { pos: 9, row: 9, col: 0 },
    };
    assert_eq!(point.to_string(), "g:10,1");
}

#[test]
fn comma_after_initializer_is_passed() {
    let mut lexer = lex::Lexer::new_unnamed(", b = 2");
    assert!(after_initializer(&mut lexer));
    assert_eq!(lexer.here().tt, Tt::Id("b"));
    let mut lexer = lex::Lexer::new_unnamed("; x");
    assert!(!after_initializer(&mut lexer));
    assert_eq!(lexer.here().tt, Tt::Semi);
}

#[test]
fn unknown_export_consumes_nothing() {
    let mut lexer = lex::Lexer::new_unnamed("export 1 + 2");
    assert_eq!(lexer.advance().tt, Tt::Export);
    let mut output = String::new();
    let e = parse_export(&mut lexer, &mut output).unwrap_err();
    assert_eq!(e.kind, ErrorKind::Expected("keyword 'default' or '*' or '{' or declaration"));
    assert_eq!(output, "");
    assert_eq!(lexer.here().tt, Tt::NumLitDec("1"));
}

#[test]
fn lexable_and_plain_literal_checks() {
    assert!(is_lexable("let é = '\u{10000}';"));
    assert!(!is_lexable("x\u{40000}"));
    assert!(!is_lexable("x\u{C0000}"));
    assert!(is_plain_literal("'abc'"));
    assert!(is_plain_literal("'é\\n'"));
    assert!(is_plain_literal("'x\\\\y'"));
    assert!(is_plain_literal("'\\x41é'"));
    assert!(!is_plain_literal("'\\xé1'"));
    assert!(!is_plain_literal("'\\u{41}'"));
    assert!(!is_plain_literal("'a\\nb\\nc'"));
    assert!(!is_plain_literal("'"));
}
