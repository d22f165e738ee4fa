use esparse::lex::Lexer;
use parcel::cjs::module_to_cjs;

#[test]
fn module_with_import_and_default_export() {
    let mut lexer = Lexer::new_unnamed("import a from 'x';\nexport default 1;\n");
    let m = module_to_cjs(&mut lexer, false).unwrap();
    assert_eq!(m.source, "   ;\n const __default =  1;\n");
    assert_eq!(
        m.source_prefix,
        "Object.defineProperty(exports, '__esModule', {value: true})\n\
         with (function() {\n  const __module0 = require._esModule('x')\
         \n  return Object.freeze(Object.create(null, {\n    [Symbol.toStringTag]: {value: 'ModuleImports'},\
         \n    a: {get() {return __module0.default}, enumerable: true},\
         \n  }))\n}()) ~function() {\n'use strict';\nObject.defineProperties(exports, {\
         \n  default: {get() {return __default}, enumerable: true},\n});\n"
    );
    assert_eq!(m.source_suffix, "}()");
    assert_eq!(m.deps, vec!["x".to_string()]);
}

#[test]
fn script_with_requires_stays_a_script() {
    let src = "var a = require('b'); require('b'); require(\"c\"); foo()";
    let mut lexer = Lexer::new_unnamed(src);
    let m = module_to_cjs(&mut lexer, true).unwrap();
    assert_eq!(m.source, src);
    assert_eq!(m.source_prefix, "~function() {");
    assert_eq!(m.source_suffix, "}()");
    assert_eq!(m.deps, vec!["b".to_string(), "c".to_string()]);
}

#[test]
fn require_is_plain_code_when_not_allowed() {
    let src = "var a = require('b');";
    let mut lexer = Lexer::new_unnamed(src);
    let m = module_to_cjs(&mut lexer, false).unwrap();
    assert_eq!(m.source, src);
    assert!(m.deps.is_empty());
    assert_eq!(
        m.source_prefix,
        "Object.defineProperty(exports, '__esModule', {value: true})\n~function() {\n'use strict';\n"
    );
}

#[test]
fn named_imports_and_exports() {
    let src = "import d, * as ns from './a';\nimport {x as y, z} from './b';\nexport {y as w};\nexport function f() {}\n";
    let mut lexer = Lexer::new_unnamed(src);
    let m = module_to_cjs(&mut lexer, true).unwrap();
    assert_eq!(m.source, "      ;\n      ;\n   ;\n function f() {}\n");
    assert_eq!(
        m.source_prefix,
        "Object.defineProperty(exports, '__esModule', {value: true})\n\
         with (function() {\n  const __module0 = require._esModule('./a')\
         \n  const __module1 = require._esModule('./b')\
         \n  return Object.freeze(Object.create(null, {\n    [Symbol.toStringTag]: {value: 'ModuleImports'},\
         \n    d: {get() {return __module0.default}, enumerable: true},\
         \n    ns: {value: __module0, enumerable: true},\
         \n    y: {get() {return __module1.x}, enumerable: true},\
         \n    z: {get() {return __module1.z}, enumerable: true},\
         \n  }))\n}()) ~function() {\n'use strict';\nObject.defineProperties(exports, {\
         \n  w: {get() {return y}, enumerable: true},\
         \n  f: {get() {return f}, enumerable: true},\n});\n"
    );
    assert_eq!(m.deps, vec!["./a".to_string(), "./b".to_string()]);
}

#[test]
fn same_module_imported_twice_is_one_dependency() {
    let mut lexer = Lexer::new_unnamed("import 'm'; import {a} from 'm'; require('m')");
    let m = module_to_cjs(&mut lexer, true).unwrap();
    assert_eq!(m.deps, vec!["m".to_string()]);
}

#[test]
fn error_in_import_stops_the_rewriting() {
    let mut lexer = Lexer::new_unnamed("import {a b} from 'm'");
    let e = module_to_cjs(&mut lexer, true).unwrap_err();
    assert_eq!(e.kind, parcel::error::ErrorKind::Expected("',' or '}' or keyword 'as'"));
    assert_eq!(e.to_string(), "expected ',' or '}' or keyword 'as' at <input>:1,11-12\n");
}

#[test]
fn script_text_is_kept_unchanged() {
    let src = "/* c */ let x = `a${b}c` / 2; // end\n var r = /re/g;\t require ( 'q' ) \n";
    let mut lexer = Lexer::new_unnamed(src);
    let m = module_to_cjs(&mut lexer, true).unwrap();
    assert_eq!(m.source, src);
    assert_eq!(m.source_prefix, "~function() {");
    assert_eq!(m.deps, vec!["q".to_string()]);
}

#[test]
fn escaped_require_is_not_read_in_module_mode() {
    let src = "require('a\\nb\\nc');";
    let mut lexer = Lexer::new_unnamed(src);
    let m = module_to_cjs(&mut lexer, false).unwrap();
    assert_eq!(m.source, src);
    assert!(m.deps.is_empty());
}

#[test]
fn non_ascii_module_name_with_escape() {
    let mut lexer = Lexer::new_unnamed("import 'é\\n';");
    let m = module_to_cjs(&mut lexer, false).unwrap();
    assert_eq!(m.deps, vec!["é\n".to_string()]);
}

#[test]
fn lexer_stands_at_the_error() {
    let mut lexer = Lexer::new_unnamed("a; import {a b} from 'm'");
    assert!(module_to_cjs(&mut lexer, true).is_err());
    assert_eq!(lexer.here().tt, esparse::lex::Tt::Id("b"));
}

#[test]
fn error_location_counts_lines_at_line_feeds() {
    let mut lexer = Lexer::new_unnamed("import {a\r\n b c} from 'm'");
    let e = module_to_cjs(&mut lexer, true).unwrap_err();
    assert_eq!(e.to_string(), "expected ',' or '}' or keyword 'as' at <input>:2,2-3\n");
}

#[test]
fn declaration_exports_lose_only_the_keyword() {
    let src = "export function f() {}\nexport  var a = [1, 2], b;\nexport class C {}";
    let mut lexer = Lexer::new_unnamed(src);
    let m = module_to_cjs(&mut lexer, true).unwrap();
    assert_eq!(m.source, " function f() {}\n  var a = [1, 2], b;\n class C {}");
}

#[test]
fn escaped_backslash_module_names_are_read() {
    let mut lexer = Lexer::new_unnamed("import a from 'x\\\\y'; require('p\\\\q')");
    let m = module_to_cjs(&mut lexer, true).unwrap();
    assert_eq!(m.deps, vec!["p\\q".to_string(), "x\\y".to_string()]);
}

#[test]
fn checked_rewrite_of_a_script() {
    let src = "var a = require('b'); // done\n";
    let m = parcel::cjs::rewrite_module(src, true).unwrap().unwrap();
    assert_eq!(m.source, src);
    assert_eq!(m.source_prefix, "~function() {");
    assert_eq!(m.deps, vec!["b".to_string()]);
}

#[test]
fn checked_rewrite_refuses_what_has_no_rewriting() {
    assert!(parcel::cjs::rewrite_module("export * from 'm';", false).is_none());
    assert!(parcel::cjs::rewrite_module("export { a } from 'm';", false).is_none());
    assert!(parcel::cjs::rewrite_module("import a from 'x\\u{41}';", false).is_none());
    assert!(parcel::cjs::rewrite_module("var s = '\u{40000}';", false).is_none());
}

#[test]
fn checked_rewrite_reports_errors() {
    let r = parcel::cjs::rewrite_module("import {a b} from 'm'", true).unwrap();
    assert_eq!(r.unwrap_err().kind, parcel::error::ErrorKind::Expected("',' or '}' or keyword 'as'"));
}

#[test]
fn failed_skip_leaves_the_lexer_at_the_end() {
    let mut lexer = Lexer::new_unnamed("export const x = (1 ");
    assert!(module_to_cjs(&mut lexer, true).is_err());
    assert_eq!(lexer.here().tt, esparse::lex::Tt::Eof);
}
