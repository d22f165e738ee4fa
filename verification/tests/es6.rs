use esparse::lex::{self, Tt};
use parcel::decl::{Bindings, Export, ExportSpec, Import, ImportSpec};
use parcel::es6::{parse_export, parse_import};

fn assert_export_form(source: &str, result: Export, out: &str) {
    let mut lexer = lex::Lexer::new_unnamed(source);
    assert_eq!(lexer.advance().tt, Tt::Export);
    let mut output = String::new();
    assert_eq!(parse_export(&mut lexer, &mut output).unwrap(), result);
    assert_eq!(output, out);
}

fn assert_export_form_err(source: &str) {
    let mut lexer = lex::Lexer::new_unnamed(source);
    assert_eq!(lexer.advance().tt, Tt::Export);
    let mut output = String::new();
    parse_export(&mut lexer, &mut output).unwrap_err();
}

fn assert_import_form(source: &str, result: Import, out: &str) {
    let mut lexer = lex::Lexer::new_unnamed(source);
    assert_eq!(lexer.advance().tt, Tt::Import);
    let mut output = String::new();
    assert_eq!(parse_import(&mut lexer, &mut output).unwrap(), result);
    assert_eq!(output, out);
}

#[test]
fn test_export_default() {
    assert_export_form(
        "export //\ndefault /* comment */ 0 _next",
        Export::Default("__default"),
        " //\nconst __default = ",
    );
    assert_export_form("export default class Test {} _next", Export::Default("Test"), "  class Test");
    assert_export_form(
        "export default function test() {} _next",
        Export::Default("test"),
        "  function test",
    );
    assert_export_form(
        "export default function* testGen() {} _next",
        Export::Default("testGen"),
        "  function* testGen",
    );
}

#[test]
fn test_export_default_exprs_panic() {
    assert_export_form_err("export default class {} _next");
    assert_export_form_err("export default function() {} _next");
    assert_export_form_err("export default function*() {} _next");
}

#[test]
fn test_export_binding() {
    assert_export_form("export var asdf _next", Export::Named(vec![ExportSpec::same("asdf")]), " var asdf");
    assert_export_form(
        "export let a = 1, b = (1, 2), c = 3, d = (za, zb) => b, e _next",
        Export::Named(vec![
            ExportSpec::same("a"),
            ExportSpec::same("b"),
            ExportSpec::same("c"),
            ExportSpec::same("d"),
            ExportSpec::same("e"),
        ]),
        " let a = 1, b = (1, 2), c = 3, d = (za, zb) => b, e",
    );
    assert_export_form(
        "export const j = class A extends B(c, d) {}, k = 1 _next",
        Export::Named(vec![ExportSpec::same("j"), ExportSpec::same("k")]),
        " const j = class A extends B(c, d) {}, k = 1",
    );
}

#[test]
fn test_export_hoistable_declaration() {
    assert_export_form("export class Test2 {} _next", Export::Named(vec![ExportSpec::same("Test2")]), " class Test2");
    assert_export_form(
        "export function test2() {} _next",
        Export::Named(vec![ExportSpec::same("test2")]),
        " function test2",
    );
    assert_export_form(
        "export function* testGen2() {} _next",
        Export::Named(vec![ExportSpec::same("testGen2")]),
        " function* testGen2",
    );
}

#[test]
fn test_export_list() {
    assert_export_form(
        "export {va as vaz, vb, something as default} _next",
        Export::Named(vec![
            ExportSpec::new("va", "vaz"),
            ExportSpec::same("vb"),
            ExportSpec::new("something", "default"),
        ]),
        "       ",
    );
}

#[test]
fn test_export_ns_from() {
    assert_export_form("export * from 'a_module' _next", Export::AllFrom("a_module".to_string()), "   ");
}

#[test]
fn test_export_list_from() {
    assert_export_form(
        "export {va as vaz, vb, something as default, default as something_else, default, default as default} from 'a_module' _next",
        Export::NamedFrom(
            vec![
                ExportSpec::new("va", "vaz"),
                ExportSpec::same("vb"),
                ExportSpec::new("something", "default"),
                ExportSpec::new("default", "something_else"),
                ExportSpec::same("default"),
                ExportSpec::same("default"),
            ],
            "a_module".to_string(),
        ),
        "                ",
    );
}

fn import(module_source: &'static str, default_bind: Option<&'static str>, binds: Bindings<'static>) -> Import<'static> {
    Import { module_source, module: "a_module".to_string(), default_bind, binds }
}

#[test]
fn test_import_bare() {
    assert_import_form("import 'a_module' _next", import("'a_module'", None, Bindings::Nothing), " ");
    assert_import_form("import \"a_module\" _next", import("\"a_module\"", None, Bindings::Nothing), " ");
}

#[test]
fn test_import_default() {
    assert_import_form("import test from 'a_module' _next", import("'a_module'", Some("test"), Bindings::Nothing), "   ");
    assert_import_form(
        "import test from \"a_module\" _next",
        import("\"a_module\"", Some("test"), Bindings::Nothing),
        "   ",
    );
}

#[test]
fn test_import_name_space() {
    assert_import_form(
        "import * as test from 'a_module' _next",
        import("'a_module'", None, Bindings::NameSpace("test")),
        "     ",
    );
    assert_import_form(
        "import * as test from \"a_module\" _next",
        import("\"a_module\"", None, Bindings::NameSpace("test")),
        "     ",
    );
}

#[test]
fn test_import_named() {
    assert_import_form("import { } from 'a_module' _next", import("'a_module'", None, Bindings::Named(vec![])), "    ");
    assert_import_form(
        "import { } from \"a_module\" _next",
        import("\"a_module\"", None, Bindings::Named(vec![])),
        "    ",
    );
    assert_import_form(
        "import { name } from 'a_module' _next",
        import("'a_module'", None, Bindings::Named(vec![ImportSpec::same("name")])),
        "     ",
    );
    assert_import_form(
        "import { name , } from 'a_module' _next",
        import("'a_module'", None, Bindings::Named(vec![ImportSpec::same("name")])),
        "      ",
    );
    assert_import_form(
        "import { name , another } from 'a_module' _next",
        import("'a_module'", None, Bindings::Named(vec![ImportSpec::same("name"), ImportSpec::same("another")])),
        "       ",
    );
    assert_import_form(
        "import { name as thing } from 'a_module' _next",
        import("'a_module'", None, Bindings::Named(vec![ImportSpec::new("name", "thing")])),
        "       ",
    );
    assert_import_form(
        "import { name as thing , } from 'a_module' _next",
        import("'a_module'", None, Bindings::Named(vec![ImportSpec::new("name", "thing")])),
        "        ",
    );
    assert_import_form(
        "import { name as thing , another , third as one } from 'a_module' _next",
        import(
            "'a_module'",
            None,
            Bindings::Named(vec![
                ImportSpec::new("name", "thing"),
                ImportSpec::same("another"),
                ImportSpec::new("third", "one"),
            ]),
        ),
        "             ",
    );
}

#[test]
fn test_import_default_named() {
    assert_import_form(
        "import test , { } from 'a_module' _next",
        import("'a_module'", Some("test"), Bindings::Named(vec![])),
        "      ",
    );
    assert_import_form(
        "import test , { name as thing , another , third as one } from 'a_module' _next",
        import(
            "'a_module'",
            Some("test"),
            Bindings::Named(vec![
                ImportSpec::new("name", "thing"),
                ImportSpec::same("another"),
                ImportSpec::new("third", "one"),
            ]),
        ),
        "               ",
    );
}

#[test]
fn test_import_default_name_space() {
    assert_import_form(
        "import def , * as test from 'a_module' _next",
        import("'a_module'", Some("def"), Bindings::NameSpace("test")),
        "       ",
    );
    assert_import_form(
        "import def , * as test from \"a_module\" _next",
        import("\"a_module\"", Some("def"), Bindings::NameSpace("test")),
        "       ",
    );
}
