//! Rewriting a whole module: its source with the `import` and `export`
//! declarations replaced, the prefix that binds the imports and defines the
//! exports, and the modules it depends on.
use vstd::prelude::*;
use esparse::lex::Lexer;
use crate::cursor::{advance, at, here, is_id, is_kw, is_lit};
use crate::decl::{
    Bindings, BindingsView, CjsModule, Export, ExportSpecView, ExportView, Import, ImportSpecView,
    ImportView,
};
use crate::error::{Error, ErrorKind, ErrorView};
use crate::es6::{parse_export, parse_import, push_source_between};
use crate::lexer::{
    lexable, lexer_advance, lexer_input, lexer_recover_span, lexer_source, lexer_tokens,
    plain_str_lit, str_lit_value, is_plain_literal, is_lexable, lexer_new, source_tokens, ws_start, stream_tiles, stream_wf,
    tail_from, lemma_tail_from_shift, lemma_tail_from_skip, TokKind,
    TokenView,
};
use crate::syntax::{
    export_names_plain, export_outcome, id_is, import_head, list_from, literal_value_of, import_names_plain, import_outcome, is_str_lit, kw,
    source_between,
    str_lit_error, ws_text, Status,
};
use crate::text::{decimal, push_decimal, text_eq};

verus! {

/// A module being read: the index of the next token, the text written so far,
/// the modules required so far (each once, in the order first met), and the
/// import and export declarations read so far.
pub struct ModState {
    pub i: int,
    pub out: Seq<char>,
    pub deps: Seq<Seq<char>>,
    pub imports: Seq<ImportView>,
    pub exports: Seq<ExportView>,
    pub status: Status,
}

/// `deps` with `d` added at the end unless it is there already.
pub open spec fn insert_dep(deps: Seq<Seq<char>>, d: Seq<char>) -> Seq<Seq<char>> {
    if deps.contains(d) {
        deps
    } else {
        deps.push(d)
    }
}

/// The index after `require`, `require (`, `require ('module'` or
/// `require ('module')`, whichever the tokens from `i` hold.
pub open spec fn require_end(toks: Seq<TokenView>, i: int) -> int {
    if !kw(toks[i + 1], "("@) {
        i + 1
    } else if !is_str_lit(toks[i + 2]) {
        i + 2
    } else if !kw(toks[i + 3], ")"@) {
        i + 3
    } else {
        i + 4
    }
}

/// An export declaration in a module, after the keyword `export` at `st.i`.
#[verifier::opaque]
pub open spec fn export_step(toks: Seq<TokenView>, st: ModState, input: Seq<char>) -> ModState {
    let i = st.i;
    let e = export_outcome(toks.skip(i + 1), input);
    let out = st.out + toks[i].ws_before + e.out;
    match e.res {
        Ok(x) => ModState {
            i: i + 1 + e.next,
            out,
            deps: st.deps,
            imports: st.imports,
            exports: st.exports.push(x),
            status: Status::Going,
        },
        Err(err) => ModState {
            i: i + 1 + e.next,
            out,
            deps: st.deps,
            imports: st.imports,
            exports: st.exports,
            status: Status::Failed(err),
        },
    }
}

/// An import declaration in a module, after the keyword `import` at `st.i`.
#[verifier::opaque]
pub open spec fn import_step(toks: Seq<TokenView>, st: ModState, input: Seq<char>) -> ModState {
    let i = st.i;
    let m = import_outcome(toks.skip(i + 1), input);
    let out = st.out + toks[i].ws_before + m.out;
    match m.res {
        Ok(x) => ModState {
            i: i + 1 + m.next,
            out,
            deps: st.deps,
            imports: st.imports.push(x),
            exports: st.exports,
            status: Status::Going,
        },
        Err(err) => ModState {
            i: i + 1 + m.next,
            out,
            deps: st.deps,
            imports: st.imports,
            exports: st.exports,
            status: Status::Failed(err),
        },
    }
}

/// `require`, at `st.i`, perhaps with `('module')` after it: the module is
/// required when the call is complete, and the text of the call is written out.
#[verifier::opaque]
pub open spec fn require_step(toks: Seq<TokenView>, st: ModState, input: Seq<char>) -> ModState {
    let i = st.i;
    let t = toks[i];
    let j = require_end(toks, i);
    let out = st.out + t.ws_before;
    if j == i + 4 {
        match literal_value_of(toks[i + 2].text) {
            Ok(dep) => ModState {
                i: j,
                out: out + source_between(input, t, toks[j]),
                deps: insert_dep(st.deps, dep),
                imports: st.imports,
                exports: st.exports,
                status: Status::Going,
            },
            Err(e) => ModState {
                i: j,
                out,
                deps: st.deps,
                imports: st.imports,
                exports: st.exports,
                status: Status::Failed(str_lit_error(e, t, input)),
            },
        }
    } else {
        ModState {
            i: j,
            out: out + source_between(input, t, toks[j]),
            deps: st.deps,
            imports: st.imports,
            exports: st.exports,
            status: Status::Going,
        }
    }
}

/// One step through a module: an export or import declaration, a call
/// `require('module')` (when `allow_require`), the end of the input, or any
/// other token, which is written out as it stands.
pub open spec fn module_step(
    toks: Seq<TokenView>,
    st: ModState,
    allow_require: bool,
    input: Seq<char>,
) -> ModState {
    let t = toks[st.i];
    if kw(t, "export"@) {
        export_step(toks, st, input)
    } else if kw(t, "import"@) {
        import_step(toks, st, input)
    } else if id_is(t, "require"@) && allow_require {
        require_step(toks, st, input)
    } else if t.kind == TokKind::Eof {
        ModState {
            i: st.i + 1,
            out: st.out + t.ws_before,
            deps: st.deps,
            imports: st.imports,
            exports: st.exports,
            status: Status::Done,
        }
    } else {
        ModState {
            i: st.i + 1,
            out: st.out + ws_text(t),
            deps: st.deps,
            imports: st.imports,
            exports: st.exports,
            status: Status::Going,
        }
    }
}

/// A module read to its end or to its first error.
pub open spec fn module_run(
    toks: Seq<TokenView>,
    st: ModState,
    allow_require: bool,
    input: Seq<char>,
) -> ModState
    decreases toks.len() - st.i,
{
    if st.status is Going && 0 <= st.i < toks.len() {
        let next = module_step(toks, st, allow_require, input);
        if st.i < next.i <= toks.len() {
            module_run(toks, next, allow_require, input)
        } else {
            next
        }
    } else {
        st
    }
}

/// The state before the first token.
pub open spec fn module_start() -> ModState {
    ModState {
        i: 0,
        out: seq![],
        deps: seq![],
        imports: seq![],
        exports: seq![],
        status: Status::Going,
    }
}

/// The module read from `toks` to its end.
pub open spec fn module_scan(toks: Seq<TokenView>, allow_require: bool, input: Seq<char>) -> ModState {
    module_run(toks, module_start(), allow_require, input)
}

/// Every export that the module declares is `export default …` or names its
/// own bindings (`export * from …` and `export { … } from …` have no rewriting).
pub open spec fn exports_supported(exports: Seq<ExportView>) -> bool {
    forall|k: int|
        0 <= k < exports.len() ==> (#[trigger] exports[k] is Default || exports[k] is Named)
}

/// The module either fails, or declares only exports that can be rewritten.
pub open spec fn module_rewritable(toks: Seq<TokenView>, allow_require: bool, input: Seq<char>) -> bool {
    let st = module_scan(toks, allow_require, input);
    st.status is Failed || exports_supported(st.exports)
}

/// The module name that the step at `st.i` reads is one whose value
/// `str_lit_value` computes: that of an export or import declaration, or that of
/// a complete `require('module')` when `allow_require` holds.
pub open spec fn step_names_plain(
    toks: Seq<TokenView>,
    st: ModState,
    allow_require: bool,
    input: Seq<char>,
) -> bool {
    let i = st.i;
    let t = toks[i];
    &&& kw(t, "export"@) ==> export_names_plain(toks.skip(i + 1), input)
    &&& kw(t, "import"@) ==> import_names_plain(toks.skip(i + 1), input)
    &&& (id_is(t, "require"@) && allow_require && i + 3 < toks.len() && require_end(toks, i)
        == i + 4) ==> plain_str_lit(toks[i + 2].text)
}

/// Each module name that reading the module from `st` on reads is one whose
/// value `str_lit_value` computes.
pub open spec fn run_names_plain(
    toks: Seq<TokenView>,
    st: ModState,
    allow_require: bool,
    input: Seq<char>,
) -> bool
    decreases toks.len() - st.i,
{
    if st.status is Going && 0 <= st.i < toks.len() {
        let next = module_step(toks, st, allow_require, input);
        &&& step_names_plain(toks, st, allow_require, input)
        &&& (st.i < next.i <= toks.len()) ==> run_names_plain(toks, next, allow_require, input)
    } else {
        true
    }
}

/// Every string literal of the stream that follows `from`, `import` or
/// `require (` is one whose value `str_lit_value` computes.
pub open spec fn all_names_plain(toks: Seq<TokenView>) -> bool {
    forall|k: int|
        1 <= k < toks.len() && #[trigger] is_str_lit(toks[k]) && (id_is(toks[k - 1], "from"@) || kw(
            toks[k - 1],
            "import"@,
        ) || (k >= 2 && kw(toks[k - 1], "("@) && id_is(toks[k - 2], "require"@)))
            ==> plain_str_lit(toks[k].text)
}

/// Each module name that a step reads follows `from`, `import` or `require (`.
proof fn lemma_all_names_plain_step(
    toks: Seq<TokenView>,
    st: ModState,
    allow_require: bool,
    input: Seq<char>,
)
    requires
        all_names_plain(toks),
        0 <= st.i < toks.len(),
    ensures
        step_names_plain(toks, st, allow_require, input),
{
    let i = st.i;
    let rest = toks.skip(i + 1);
    if kw(toks[i], "export"@) {
        if 2 < rest.len() {
            assert(rest[1] == toks[i + 2] && rest[2] == toks[i + 3]);
            if is_str_lit(rest[2]) {
                assert(is_str_lit(toks[i + 3]));
            }
        }
        if 0 < rest.len() {
            let l = list_from(rest, 1, true, input);
            if 0 <= l.i && l.i + 1 < rest.len() {
                let k = i + 1 + l.i + 1;
                assert(rest[l.i] == toks[k - 1] && rest[l.i + 1] == toks[k]);
                if is_str_lit(rest[l.i + 1]) {
                    assert(is_str_lit(toks[k]));
                }
            }
        }
    }
    if kw(toks[i], "import"@) && rest.len() > 0 {
        assert(rest[0] == toks[i + 1]);
        if is_str_lit(rest[0]) {
            assert(is_str_lit(toks[i + 1]));
            assert(toks[i + 1 - 1] == toks[i]);
        } else {
            let h = import_head(rest, input).1;
            if 0 <= h.next && h.next + 1 < rest.len() {
                let k = i + 1 + h.next + 1;
                assert(rest[h.next] == toks[k - 1] && rest[h.next + 1] == toks[k]);
                if is_str_lit(rest[h.next + 1]) {
                    assert(is_str_lit(toks[k]));
                }
            }
        }
    }
    if id_is(toks[i], "require"@) && i + 3 < toks.len() && require_end(toks, i) == i + 4 {
        assert(is_str_lit(toks[i + 2]));
        assert(toks[i + 2 - 1] == toks[i + 1] && toks[i + 2 - 2] == toks[i]);
    }
}

/// Each module name that reading a module reads follows `from`, `import` or
/// `require (`.
proof fn lemma_all_names_plain_run(
    toks: Seq<TokenView>,
    st: ModState,
    allow_require: bool,
    input: Seq<char>,
)
    requires
        all_names_plain(toks),
    ensures
        run_names_plain(toks, st, allow_require, input),
    decreases toks.len() - st.i,
{
    if st.status is Going && 0 <= st.i < toks.len() {
        lemma_all_names_plain_step(toks, st, allow_require, input);
        let next = module_step(toks, st, allow_require, input);
        if st.i < next.i <= toks.len() {
            lemma_all_names_plain_run(toks, next, allow_require, input);
        }
    }
}

/// `deps` with the module of each import added in turn.
pub open spec fn insert_modules(deps: Seq<Seq<char>>, imports: Seq<ImportView>) -> Seq<Seq<char>>
    decreases imports.len(),
{
    if imports.len() == 0 {
        deps
    } else {
        insert_dep(insert_modules(deps, imports.drop_last()), imports.last().module)
    }
}

/// `const __moduleN = require._esModule('…')` for each import.
pub open spec fn import_require_lines(imports: Seq<ImportView>) -> Seq<char>
    decreases imports.len(),
{
    if imports.len() == 0 {
        seq![]
    } else {
        import_require_lines(imports.drop_last()) + "\n  const __module"@ + decimal(
            (imports.len() - 1) as nat,
        ) + " = require._esModule("@ + imports.last().module_source + ")"@
    }
}

/// The getters of the names listed in an import, from the module object `n`.
pub open spec fn named_import_lines(specs: Seq<ImportSpecView>, n: Seq<char>) -> Seq<char>
    decreases specs.len(),
{
    if specs.len() == 0 {
        seq![]
    } else {
        named_import_lines(specs.drop_last(), n) + "\n    "@ + specs.last().bind
            + ": {get() {return __module"@ + n + "."@ + specs.last().name
            + "}, enumerable: true},"@
    }
}

/// The getter of the default binding of an import, from the module object `n`.
pub open spec fn default_binding_line(default_bind: Option<Seq<char>>, n: Seq<char>) -> Seq<char> {
    match default_bind {
        Some(b) => "\n    "@ + b + ": {get() {return __module"@ + n + ".default}, enumerable: true},"@,
        None => seq![],
    }
}

/// The properties of the other bindings of an import, from the module object `n`.
pub open spec fn other_binding_lines(binds: BindingsView, n: Seq<char>) -> Seq<char> {
    match binds {
        BindingsView::Nothing => seq![],
        BindingsView::NameSpace(b) => "\n    "@ + b + ": {value: __module"@ + n
            + ", enumerable: true},"@,
        BindingsView::Named(specs) => named_import_lines(specs, n),
    }
}

/// The properties that one import (the `i`-th) binds.
pub open spec fn binding_lines(imp: ImportView, i: nat) -> Seq<char> {
    default_binding_line(imp.default_bind, decimal(i)) + other_binding_lines(imp.binds, decimal(i))
}

/// The properties that all the imports bind.
pub open spec fn import_binding_lines(imports: Seq<ImportView>) -> Seq<char>
    decreases imports.len(),
{
    if imports.len() == 0 {
        seq![]
    } else {
        import_binding_lines(imports.drop_last()) + binding_lines(
            imports.last(),
            (imports.len() - 1) as nat,
        )
    }
}

/// The getters of the names that an export list exports.
pub open spec fn named_export_lines(specs: Seq<ExportSpecView>) -> Seq<char>
    decreases specs.len(),
{
    if specs.len() == 0 {
        seq![]
    } else {
        named_export_lines(specs.drop_last()) + "\n  "@ + specs.last().name + ": {get() {return "@
            + specs.last().bind + "}, enumerable: true},"@
    }
}

/// The getters that one export defines.
pub open spec fn export_lines_of(e: ExportView) -> Seq<char> {
    match e {
        ExportView::Default(b) => "\n  default: {get() {return "@ + b + "}, enumerable: true},"@,
        ExportView::Named(specs) => named_export_lines(specs),
        _ => seq![],
    }
}

/// The getters that all the exports define.
pub open spec fn export_lines(exports: Seq<ExportView>) -> Seq<char>
    decreases exports.len(),
{
    if exports.len() == 0 {
        seq![]
    } else {
        export_lines(exports.drop_last()) + export_lines_of(exports.last())
    }
}

/// The text before the rewritten source: the module marker, the `with` block
/// that binds the imports, the opening of the function that wraps the source,
/// and the definitions of the exports.
pub open spec fn cjs_prefix(imports: Seq<ImportView>, exports: Seq<ExportView>, is_module: bool) -> Seq<char> {
    (if is_module {
        "Object.defineProperty(exports, '__esModule', {value: true})\n"@
    } else {
        seq![]
    }) + (if imports.len() > 0 {
        "with (function() {"@ + import_require_lines(imports)
            + "\n  return Object.freeze(Object.create(null, {\n    [Symbol.toStringTag]: {value: 'ModuleImports'},"@
            + import_binding_lines(imports) + "\n  }))\n}()) "@
    } else {
        seq![]
    }) + "~function() {"@ + (if is_module {
        "\n'use strict';\n"@
    } else {
        seq![]
    }) + (if exports.len() > 0 {
        "Object.defineProperties(exports, {"@ + export_lines(exports) + "\n});\n"@
    } else {
        seq![]
    })
}

pub struct CjsView {
    pub source_prefix: Seq<char>,
    pub source: Seq<char>,
    pub source_suffix: Seq<char>,
    pub deps: Seq<Seq<char>>,
}

/// The rewritten module, or the first error met.
pub open spec fn cjs_outcome(toks: Seq<TokenView>, allow_require: bool, input: Seq<char>) -> Result<CjsView, ErrorView> {
    let st = module_scan(toks, allow_require, input);
    match st.status {
        Status::Failed(e) => Err(e),
        _ => {
            let is_module = !allow_require || st.exports.len() > 0 || st.imports.len() > 0;
            Ok(
                CjsView {
                    source_prefix: cjs_prefix(st.imports, st.exports, is_module),
                    source: st.out,
                    source_suffix: "}()"@,
                    deps: insert_modules(st.deps, st.imports),
                },
            )
        },
    }
}

/// The views of a list of strings.
pub open spec fn strings_view(v: Seq<String>) -> Seq<Seq<char>> {
    v.map_values(|s: String| s@)
}

/// The views of a list of import declarations.
pub open spec fn imports_view<'s>(v: Seq<Import<'s>>) -> Seq<ImportView> {
    v.map_values(|x: Import<'s>| x@)
}

/// The views of a list of export declarations.
pub open spec fn exports_view<'s>(v: Seq<Export<'s>>) -> Seq<ExportView> {
    v.map_values(|x: Export<'s>| x@)
}

/// The names that a module requires hold no name twice.
pub open spec fn no_repeats(deps: Seq<Seq<char>>) -> bool {
    forall|a: int, b: int| 0 <= a < b < deps.len() ==> deps[a] != deps[b]
}

/// Adds `d` to the required modules unless it is there already.
fn add_dep(deps: &mut Vec<String>, d: String)
    ensures
        strings_view(final(deps)@) == insert_dep(strings_view(old(deps)@), d@),
{
    let mut k: usize = 0;
    while k < deps.len()
        invariant
            k <= deps@.len(),
            forall|m: int| 0 <= m < k ==> strings_view(deps@)[m] != d@,
        decreases deps@.len() - k,
    {
        if text_eq(deps[k].as_str(), d.as_str()) {
            proof {
                assert(strings_view(deps@)[k as int] == d@);
            }
            return;
        }
        k = k + 1;
    }
    proof {
        assert(!strings_view(deps@).contains(d@));
    }
    deps.push(d);
    proof {
        assert(strings_view(deps@) =~= strings_view(old(deps)@).push(d@));
    }
}

/// An export declaration inside a module.
fn step_export<'f, 's>(
    lex: &mut Lexer<'f, 's>,
    source: &mut String,
    exports: &mut Vec<Export<'s>>,
    Ghost(toks): Ghost<Seq<TokenView>>,
    Ghost(input): Ghost<Seq<char>>,
    Ghost(st): Ghost<ModState>,
) -> (r: Result<(), Error>)
    requires
        at(*old(lex), toks, input, st.i),
        kw(toks[st.i], "export"@),
        export_names_plain(toks.skip(st.i + 1), input),
        old(source)@ == st.out,
        exports_view(old(exports)@) == st.exports,
    ensures
        ({
            let next = export_step(toks, st, input);
            &&& final(source)@ == next.out
            &&& match next.status {
                Status::Failed(e) => r matches Err(err) && err@ == e && lexer_source(*final(lex))
                    == input && tail_from(lexer_tokens(*final(lex)), toks, next.i),
                _ => r is Ok && next.status is Going && at(*final(lex), toks, input, next.i)
                    && exports_view(final(exports)@) == next.exports && st.i < next.i,
            }
            &&& next.deps == st.deps
            &&& next.imports == st.imports
        }),
{
    reveal(export_step);
    let ghost i = st.i;
    let t = here(lex, Ghost(toks), Ghost(input), Ghost(i));
    advance(lex, Ghost(toks), Ghost(input), Ghost(i));
    source.append(t.ws_before);
    let ghost rest = toks.skip(i + 1);
    match parse_export(lex, source) {
        Ok(x) => {
            exports.push(x);
            proof {
                let n = export_outcome(rest, input).next;
                assert(rest.skip(n) =~= toks.skip(i + 1 + n));
                assert(exports_view(exports@) =~= st.exports.push(x@));
                assert(source@ =~= export_step(toks, st, input).out);
            }
            Ok(())
        },
        Err(e) => {
            proof {
                let n = export_outcome(rest, input).next;
                lemma_tail_from_shift(lexer_tokens(*lex), toks, i + 1, n);
                assert(source@ =~= export_step(toks, st, input).out);
            }
            Err(e)
        },
    }
}

/// An import declaration inside a module.
fn step_import<'f, 's>(
    lex: &mut Lexer<'f, 's>,
    source: &mut String,
    imports: &mut Vec<Import<'s>>,
    Ghost(toks): Ghost<Seq<TokenView>>,
    Ghost(input): Ghost<Seq<char>>,
    Ghost(st): Ghost<ModState>,
) -> (r: Result<(), Error>)
    requires
        at(*old(lex), toks, input, st.i),
        kw(toks[st.i], "import"@),
        import_names_plain(toks.skip(st.i + 1), input),
        old(source)@ == st.out,
        imports_view(old(imports)@) == st.imports,
    ensures
        ({
            let next = import_step(toks, st, input);
            &&& final(source)@ == next.out
            &&& match next.status {
                Status::Failed(e) => r matches Err(err) && err@ == e && at(*final(lex), toks, input, next.i),
                _ => r is Ok && next.status is Going && at(*final(lex), toks, input, next.i)
                    && imports_view(final(imports)@) == next.imports && st.i < next.i,
            }
            &&& next.deps == st.deps
            &&& next.exports == st.exports
        }),
{
    reveal(import_step);
    let ghost i = st.i;
    let t = here(lex, Ghost(toks), Ghost(input), Ghost(i));
    advance(lex, Ghost(toks), Ghost(input), Ghost(i));
    source.append(t.ws_before);
    proof {
        assert(toks.skip(i + 1)[0] == toks[i + 1]);
    }
    let ghost rest = toks.skip(i + 1);
    match parse_import(lex, source) {
        Ok(x) => {
            imports.push(x);
            proof {
                let n = import_outcome(rest, input).next;
                assert(rest.skip(n) =~= toks.skip(i + 1 + n));
                assert(imports_view(imports@) =~= st.imports.push(x@));
                assert(source@ =~= import_step(toks, st, input).out);
            }
            Ok(())
        },
        Err(e) => {
            proof {
                let n = import_outcome(rest, input).next;
                assert(rest.skip(n) =~= toks.skip(i + 1 + n));
                assert(source@ =~= import_step(toks, st, input).out);
            }
            Err(e)
        },
    }
}

/// `require`, possibly followed by `('module')`, inside a module.
fn step_require<'f, 's>(
    lex: &mut Lexer<'f, 's>,
    source: &mut String,
    deps: &mut Vec<String>,
    inp: &'s str,
    Ghost(toks): Ghost<Seq<TokenView>>,
    Ghost(input): Ghost<Seq<char>>,
    Ghost(st): Ghost<ModState>,
) -> (r: Result<(), Error>)
    requires
        at(*old(lex), toks, input, st.i),
        inp@ == input,
        id_is(toks[st.i], "require"@),
        (st.i + 3 < toks.len() && require_end(toks, st.i) == st.i + 4) ==> plain_str_lit(
            toks[st.i + 2].text,
        ),
        old(source)@ == st.out,
        strings_view(old(deps)@) == st.deps,
    ensures
        ({
            let next = require_step(toks, st, input);
            &&& final(source)@ == next.out
            &&& match next.status {
                Status::Failed(e) => r matches Err(err) && err@ == e && at(*final(lex), toks, input, next.i),
                _ => r is Ok && next.status is Going && at(*final(lex), toks, input, next.i)
                    && strings_view(final(deps)@) == next.deps && st.i < next.i,
            }
            &&& next.imports == st.imports
            &&& next.exports == st.exports
        }),
{
    reveal(require_step);
    let ghost i = st.i;
    let t = here(lex, Ghost(toks), Ghost(input), Ghost(i));
    advance(lex, Ghost(toks), Ghost(input), Ghost(i));
    source.append(t.ws_before);
    let ghost mut j: int = i + 1;
    let t1 = here(lex, Ghost(toks), Ghost(input), Ghost(i + 1));
    if is_kw(&t1, "(") {
        advance(lex, Ghost(toks), Ghost(input), Ghost(i + 1));
        proof {
            j = i + 2;
        }
        let t2 = here(lex, Ghost(toks), Ghost(input), Ghost(i + 2));
        if is_lit(&t2) {
            advance(lex, Ghost(toks), Ghost(input), Ghost(i + 2));
            proof {
                j = i + 3;
            }
            let t3 = here(lex, Ghost(toks), Ghost(input), Ghost(i + 3));
            if is_kw(&t3, ")") {
                advance(lex, Ghost(toks), Ghost(input), Ghost(i + 3));
                proof {
                    j = i + 4;
                    assert(is_str_lit(toks[i + 2]) && kw(toks[i + 2 - 1], "("@) && id_is(
                        toks[i + 2 - 2],
                        "require"@,
                    ));
                }
                match str_lit_value(t2.text) {
                    Ok(dep) => add_dep(deps, dep),
                    Err(e) => {
                        let span = lexer_recover_span(lex, &t);
                        return Err(Error { kind: ErrorKind::ParseStrLitError(e), span });
                    },
                }
            }
        }
    }
    push_source_between(lex, source, inp, &t, Ghost(toks), Ghost(input), Ghost(i), Ghost(j));
    proof {
        assert(source@ =~= require_step(toks, st, input).out);
    }
    Ok(())
}

/// One step through a module.
fn step_module<'f, 's>(
    lex: &mut Lexer<'f, 's>,
    source: &mut String,
    deps: &mut Vec<String>,
    imports: &mut Vec<Import<'s>>,
    exports: &mut Vec<Export<'s>>,
    inp: &'s str,
    allow_require: bool,
    Ghost(toks): Ghost<Seq<TokenView>>,
    Ghost(input): Ghost<Seq<char>>,
    Ghost(st): Ghost<ModState>,
) -> (r: Result<bool, Error>)
    requires
        at(*old(lex), toks, input, st.i),
        inp@ == input,
        step_names_plain(toks, st, allow_require, input),
        old(source)@ == st.out,
        strings_view(old(deps)@) == st.deps,
        imports_view(old(imports)@) == st.imports,
        exports_view(old(exports)@) == st.exports,
    ensures
        ({
            let next = module_step(toks, st, allow_require, input);
            &&& final(source)@ == next.out
            &&& match next.status {
                Status::Going => r == Ok::<bool, Error>(true) && at(*final(lex), toks, input, next.i)
                    && st.i < next.i && strings_view(final(deps)@) == next.deps && imports_view(
                    final(imports)@,
                ) == next.imports && exports_view(final(exports)@) == next.exports,
                Status::Done => r == Ok::<bool, Error>(false) && strings_view(final(deps)@)
                    == next.deps && imports_view(final(imports)@) == next.imports && exports_view(
                    final(exports)@,
                ) == next.exports && lexer_tokens(*final(lex)).len() == 1 && lexer_tokens(
                    *final(lex),
                )[0].kind == TokKind::Eof,
                Status::Failed(e) => r matches Err(err) && err@ == e && tail_from(
                    lexer_tokens(*final(lex)),
                    toks,
                    next.i,
                ),
            }
        }),
{
    let ghost i = st.i;
    let t = here(lex, Ghost(toks), Ghost(input), Ghost(i));
    if is_kw(&t, "export") {
        match step_export(lex, source, exports, Ghost(toks), Ghost(input), Ghost(st)) {
            Ok(()) => Ok(true),
            Err(e) => Err(e),
        }
    } else if is_kw(&t, "import") {
        match step_import(lex, source, imports, Ghost(toks), Ghost(input), Ghost(st)) {
            Ok(()) => Ok(true),
            Err(e) => {
                proof {
                    lemma_tail_from_skip(toks, module_step(toks, st, allow_require, input).i);
                }
                Err(e)
            },
        }
    } else if allow_require && is_id(&t, "require") {
        match step_require(lex, source, deps, inp, Ghost(toks), Ghost(input), Ghost(st)) {
            Ok(()) => Ok(true),
            Err(e) => {
                proof {
                    lemma_tail_from_skip(toks, module_step(toks, st, allow_require, input).i);
                }
                Err(e)
            },
        }
    } else if t.kind == TokKind::Eof {
        proof {
            assert(i == toks.len() - 1);
            assert(toks.skip(i).len() == 1);
        }
        lexer_advance(lex);
        source.append(t.ws_before);
        Ok(false)
    } else {
        advance(lex, Ghost(toks), Ghost(input), Ghost(i));
        source.append(t.ws_before);
        source.append(t.text);
        proof {
            assert(source@ =~= module_step(toks, st, allow_require, input).out);
        }
        Ok(true)
    }
}

/// The lines `const __moduleN = require._esModule(…)`.
fn push_import_requires<'s>(out: &mut String, imports: &Vec<Import<'s>>)
    ensures
        final(out)@ == old(out)@ + import_require_lines(imports_view(imports@)),
{
    let ghost v = imports_view(imports@);
    let mut k: usize = 0;
    proof {
        assert(v.take(0) =~= Seq::<ImportView>::empty());
        assert(out@ =~= old(out)@ + import_require_lines(v.take(0)));
    }
    while k < imports.len()
        invariant
            v == imports_view(imports@),
            k <= imports@.len(),
            out@ == old(out)@ + import_require_lines(v.take(k as int)),
        decreases imports@.len() - k,
    {
        out.append("\n  const __module");
        push_decimal(out, k as u128);
        out.append(" = require._esModule(");
        out.append(imports[k].module_source);
        out.append(")");
        proof {
            let w = v.take(k + 1);
            assert(w.drop_last() =~= v.take(k as int));
            assert(w.last() == imports@[k as int]@);
            assert(out@ =~= old(out)@ + import_require_lines(w));
        }
        k = k + 1;
    }
    proof {
        assert(v.take(k as int) =~= v);
    }
}

/// The getters of the names listed in an import, from the module object `n`.
fn push_named_import_lines<'s>(out: &mut String, specs: &Vec<crate::decl::ImportSpec<'s>>, k: usize)
    ensures
        final(out)@ == old(out)@ + named_import_lines(
            crate::decl::import_specs_view(specs@),
            decimal(k as nat),
        ),
{
    let ghost v = crate::decl::import_specs_view(specs@);
    let ghost n = decimal(k as nat);
    let mut m: usize = 0;
    proof {
        assert(v.take(0) =~= Seq::<ImportSpecView>::empty());
        assert(out@ =~= old(out)@ + named_import_lines(v.take(0), n));
    }
    while m < specs.len()
        invariant
            v == crate::decl::import_specs_view(specs@),
            n == decimal(k as nat),
            m <= specs@.len(),
            out@ == old(out)@ + named_import_lines(v.take(m as int), n),
        decreases specs@.len() - m,
    {
        out.append("\n    ");
        out.append(specs[m].bind);
        out.append(": {get() {return __module");
        push_decimal(out, k as u128);
        out.append(".");
        out.append(specs[m].name);
        out.append("}, enumerable: true},");
        proof {
            let w = v.take(m + 1);
            assert(w.drop_last() =~= v.take(m as int));
            assert(w.last() == specs@[m as int]@);
            assert(out@ =~= old(out)@ + named_import_lines(w, n));
        }
        m = m + 1;
    }
    proof {
        assert(v.take(m as int) =~= v);
    }
}

/// The getter of the default binding of the `k`-th import.
fn push_default_binding<'s>(out: &mut String, default_bind: Option<&'s str>, k: usize)
    ensures
        final(out)@ == old(out)@ + default_binding_line(crate::decl::opt_view(default_bind), decimal(k as nat)),
{
    match default_bind {
        Some(b) => {
            out.append("\n    ");
            out.append(b);
            out.append(": {get() {return __module");
            push_decimal(out, k as u128);
            out.append(".default}, enumerable: true},");
            proof {
                assert(out@ =~= old(out)@ + default_binding_line(crate::decl::opt_view(default_bind), decimal(k as nat)));
            }
        },
        None => {
            proof {
                assert(out@ =~= old(out)@ + default_binding_line(crate::decl::opt_view(default_bind), decimal(k as nat)));
            }
        },
    }
}

/// The properties of the other bindings of the `k`-th import.
fn push_other_bindings<'s>(out: &mut String, binds: &Bindings<'s>, k: usize)
    ensures
        final(out)@ == old(out)@ + other_binding_lines(binds@, decimal(k as nat)),
{
    match binds {
        Bindings::Nothing => {
            proof {
                assert(out@ =~= old(out)@ + other_binding_lines(binds@, decimal(k as nat)));
            }
        },
        Bindings::NameSpace(b) => {
            out.append("\n    ");
            out.append(b);
            out.append(": {value: __module");
            push_decimal(out, k as u128);
            out.append(", enumerable: true},");
            proof {
                assert(out@ =~= old(out)@ + other_binding_lines(binds@, decimal(k as nat)));
            }
        },
        Bindings::Named(specs) => {
            push_named_import_lines(out, specs, k);
        },
    }
}

/// The properties that the `k`-th import binds.
fn push_binding_lines<'s>(out: &mut String, imp: &Import<'s>, k: usize)
    ensures
        final(out)@ == old(out)@ + binding_lines(imp@, k as nat),
{
    push_default_binding(out, imp.default_bind, k);
    push_other_bindings(out, &imp.binds, k);
    proof {
        assert(out@ =~= old(out)@ + binding_lines(imp@, k as nat));
    }
}

/// The properties that all the imports bind.
fn push_import_bindings<'s>(out: &mut String, imports: &Vec<Import<'s>>)
    ensures
        final(out)@ == old(out)@ + import_binding_lines(imports_view(imports@)),
{
    let ghost v = imports_view(imports@);
    let mut k: usize = 0;
    proof {
        assert(v.take(0) =~= Seq::<ImportView>::empty());
        assert(out@ =~= old(out)@ + import_binding_lines(v.take(0)));
    }
    while k < imports.len()
        invariant
            v == imports_view(imports@),
            k <= imports@.len(),
            out@ == old(out)@ + import_binding_lines(v.take(k as int)),
        decreases imports@.len() - k,
    {
        push_binding_lines(out, &imports[k], k);
        proof {
            let w = v.take(k + 1);
            assert(w.drop_last() =~= v.take(k as int));
            assert(w.last() == imports@[k as int]@);
            assert(out@ =~= old(out)@ + import_binding_lines(w));
        }
        k = k + 1;
    }
    proof {
        assert(v.take(k as int) =~= v);
    }
}

/// The getters of the names that an export list exports.
fn push_named_export_lines<'s>(out: &mut String, specs: &Vec<crate::decl::ExportSpec<'s>>)
    ensures
        final(out)@ == old(out)@ + named_export_lines(crate::decl::export_specs_view(specs@)),
{
    let ghost v = crate::decl::export_specs_view(specs@);
    let mut m: usize = 0;
    proof {
        assert(v.take(0) =~= Seq::<ExportSpecView>::empty());
        assert(out@ =~= old(out)@ + named_export_lines(v.take(0)));
    }
    while m < specs.len()
        invariant
            v == crate::decl::export_specs_view(specs@),
            m <= specs@.len(),
            out@ == old(out)@ + named_export_lines(v.take(m as int)),
        decreases specs@.len() - m,
    {
        out.append("\n  ");
        out.append(specs[m].name);
        out.append(": {get() {return ");
        out.append(specs[m].bind);
        out.append("}, enumerable: true},");
        proof {
            let w = v.take(m + 1);
            assert(w.drop_last() =~= v.take(m as int));
            assert(w.last() == specs@[m as int]@);
            assert(out@ =~= old(out)@ + named_export_lines(w));
        }
        m = m + 1;
    }
    proof {
        assert(v.take(m as int) =~= v);
    }
}

/// The getters that all the exports define.
fn push_export_lines<'s>(out: &mut String, exports: &Vec<Export<'s>>)
    ensures
        final(out)@ == old(out)@ + export_lines(exports_view(exports@)),
{
    let ghost v = exports_view(exports@);
    let mut k: usize = 0;
    proof {
        assert(v.take(0) =~= Seq::<ExportView>::empty());
        assert(out@ =~= old(out)@ + export_lines(v.take(0)));
    }
    while k < exports.len()
        invariant
            v == exports_view(exports@),
            k <= exports@.len(),
            out@ == old(out)@ + export_lines(v.take(k as int)),
        decreases exports@.len() - k,
    {
        match &exports[k] {
            Export::Default(b) => {
                out.append("\n  default: {get() {return ");
                out.append(b);
                out.append("}, enumerable: true},");
            },
            Export::Named(specs) => {
                push_named_export_lines(out, specs);
            },
            _ => {},
        }
        proof {
            let w = v.take(k + 1);
            assert(w.drop_last() =~= v.take(k as int));
            assert(w.last() == exports@[k as int]@);
            assert(out@ =~= old(out)@ + export_lines(w));
        }
        k = k + 1;
    }
    proof {
        assert(v.take(k as int) =~= v);
    }
}

/// The text before the rewritten source.
fn make_prefix<'s>(imports: &Vec<Import<'s>>, exports: &Vec<Export<'s>>, is_module: bool) -> (p: String)
    ensures
        p@ == cjs_prefix(imports_view(imports@), exports_view(exports@), is_module),
{
    let mut p = String::new();
    if is_module {
        p.append("Object.defineProperty(exports, '__esModule', {value: true})\n");
    }
    let ghost a = p@;
    if imports.len() > 0 {
        p.append("with (function() {");
        push_import_requires(&mut p, imports);
        p.append(
            "\n  return Object.freeze(Object.create(null, {\n    [Symbol.toStringTag]: {value: 'ModuleImports'},",
        );
        push_import_bindings(&mut p, imports);
        p.append("\n  }))\n}()) ");
    }
    let ghost b = p@;
    p.append("~function() {");
    if is_module {
        p.append("\n'use strict';\n");
    }
    let ghost c = p@;
    if exports.len() > 0 {
        p.append("Object.defineProperties(exports, {");
        push_export_lines(&mut p, exports);
        p.append("\n});\n");
    }
    proof {
        assert(p@ =~= cjs_prefix(imports_view(imports@), exports_view(exports@), is_module));
    }
    p
}

/// The required modules with the module of each import added in turn.
fn add_import_modules<'s>(deps: &mut Vec<String>, imports: &Vec<Import<'s>>)
    ensures
        strings_view(final(deps)@) == insert_modules(strings_view(old(deps)@), imports_view(imports@)),
{
    let ghost v = imports_view(imports@);
    let mut k: usize = 0;
    proof {
        assert(v.take(0) =~= Seq::<ImportView>::empty());
    }
    while k < imports.len()
        invariant
            v == imports_view(imports@),
            k <= imports@.len(),
            strings_view(deps@) == insert_modules(strings_view(old(deps)@), v.take(k as int)),
        decreases imports@.len() - k,
    {
        let m = imports[k].module.clone();
        add_dep(deps, m);
        proof {
            let w = v.take(k + 1);
            assert(w.drop_last() =~= v.take(k as int));
            assert(w.last() == imports@[k as int]@);
        }
        k = k + 1;
    }
    proof {
        assert(v.take(k as int) =~= v);
    }
}

/// A rewritten module, by views.
pub open spec fn cjs_view(m: CjsModule) -> CjsView {
    CjsView {
        source_prefix: m.source_prefix@,
        source: m.source@,
        source_suffix: m.source_suffix@,
        deps: strings_view(m.deps@),
    }
}

/// A rewritten module or its error, by views.
pub open spec fn cjs_result_view(r: Result<CjsModule, Error>) -> Result<CjsView, ErrorView> {
    match r {
        Ok(m) => Ok(cjs_view(m)),
        Err(e) => Err(e@),
    }
}

/// A rewritten module (with whether its exports can be rewritten) or its
/// error, by views.
pub open spec fn rewrite_result_view(r: Result<(CjsModule, bool), Error>) -> Result<CjsView, ErrorView> {
    match r {
        Ok(p) => Ok(cjs_view(p.0)),
        Err(e) => Err(e@),
    }
}

/// Rewrites the module that the lexer reads, as `module_to_cjs` does, and says
/// whether each of its export declarations is one that the prefix can define
/// (`export default …` or named bindings).
fn rewrite_tokens<'f, 's>(lex: &mut Lexer<'f, 's>, allow_require: bool) -> (r: Result<(CjsModule, bool), Error>)
    requires
        lexable(lexer_source(*old(lex))),
        run_names_plain(lexer_tokens(*old(lex)), module_start(), allow_require, lexer_source(*old(lex))),
    ensures
        rewrite_result_view(r) == cjs_outcome(lexer_tokens(*old(lex)), allow_require, lexer_source(*old(lex))),
        r matches Ok(p) ==> p.1 == exports_supported(
            module_scan(lexer_tokens(*old(lex)), allow_require, lexer_source(*old(lex))).exports,
        ),
        r is Ok ==> lexer_tokens(*final(lex)).len() == 1 && lexer_tokens(*final(lex))[0].kind
            == TokKind::Eof,
        stream_wf(lexer_tokens(*old(lex)), lexer_source(*old(lex))),
        stream_tiles(lexer_tokens(*old(lex)), lexer_source(*old(lex))),
        r is Err ==> tail_from(
            lexer_tokens(*final(lex)),
            lexer_tokens(*old(lex)),
            module_scan(lexer_tokens(*old(lex)), allow_require, lexer_source(*old(lex))).i,
        ),
{
    let ghost toks = lexer_tokens(*lex);
    let ghost input = lexer_source(*lex);
    let inp = lexer_input(lex);
    let mut source = String::new();
    let mut deps: Vec<String> = Vec::new();
    let mut imports: Vec<Import<'s>> = Vec::new();
    let mut exports: Vec<Export<'s>> = Vec::new();
    let ghost mut st = module_start();
    proof {
        assert(toks.skip(0) =~= toks);
        assert(strings_view(deps@) =~= st.deps);
        assert(imports_view(imports@) =~= st.imports);
        assert(exports_view(exports@) =~= st.exports);
        assert(source@ =~= st.out);
    }
    loop
        invariant_except_break
            at(*lex, toks, input, st.i),
            st.status is Going,
        invariant
            toks == lexer_tokens(*old(lex)),
            input == lexer_source(*old(lex)),
            inp@ == input,
            run_names_plain(toks, st, allow_require, input),
            stream_wf(toks, input),
            stream_tiles(toks, input),
            module_run(toks, st, allow_require, input) == module_scan(toks, allow_require, input),
            source@ == st.out,
            strings_view(deps@) == st.deps,
            imports_view(imports@) == st.imports,
            exports_view(exports@) == st.exports,
        ensures
            st.status is Done,
            lexer_tokens(*lex).len() == 1,
            lexer_tokens(*lex)[0].kind == TokKind::Eof,
        decreases toks.len() - st.i,
    {
        let ghost next = module_step(toks, st, allow_require, input);
        let stepped = step_module(
            lex,
            &mut source,
            &mut deps,
            &mut imports,
            &mut exports,
            inp,
            allow_require,
            Ghost(toks),
            Ghost(input),
            Ghost(st),
        );
        match stepped {
            Ok(true) => {},
            Ok(false) => {
                proof {
                    assert(module_run(toks, next, allow_require, input) == next);
                    st = next;
                }
                break ;
            },
            Err(e) => {
                proof {
                    assert(module_run(toks, next, allow_require, input) == next);
                    assert(module_run(toks, st, allow_require, input) == next);
                }
                return Err(e);
            },
        }
        proof {
            st = next;
        }
    }
    let supported = exports_are_supported(&exports);
    let is_module = !allow_require || exports.len() > 0 || imports.len() > 0;
    let source_prefix = make_prefix(&imports, &exports, is_module);
    add_import_modules(&mut deps, &imports);
    Ok((CjsModule { source_prefix, source, source_suffix: "}()".to_owned(), deps }, supported))
}

/// Rewrites the module that the lexer reads (from its current token to the end
/// of the input) into a CommonJS-style function. Import declarations are
/// replaced by the whitespace around their tokens and bound, through a `with`
/// block in the prefix, to getters on the required modules; export
/// declarations keep their declarations and are defined as getters on
/// `exports`. When `allow_require` holds, a module without import or export
/// declarations is left a script, and each `require('module')` adds the module
/// to the dependencies.
pub fn module_to_cjs<'f, 's>(lex: &mut Lexer<'f, 's>, allow_require: bool) -> (r: Result<CjsModule, Error>)
    requires
        lexable(lexer_source(*old(lex))),
        run_names_plain(lexer_tokens(*old(lex)), module_start(), allow_require, lexer_source(*old(lex))),
        module_rewritable(lexer_tokens(*old(lex)), allow_require, lexer_source(*old(lex))),
    ensures
        cjs_result_view(r) == cjs_outcome(lexer_tokens(*old(lex)), allow_require, lexer_source(*old(lex))),
        r is Ok ==> lexer_tokens(*final(lex)).len() == 1 && lexer_tokens(*final(lex))[0].kind
            == TokKind::Eof,
        stream_wf(lexer_tokens(*old(lex)), lexer_source(*old(lex))),
        stream_tiles(lexer_tokens(*old(lex)), lexer_source(*old(lex))),
        r is Err ==> tail_from(
            lexer_tokens(*final(lex)),
            lexer_tokens(*old(lex)),
            module_scan(lexer_tokens(*old(lex)), allow_require, lexer_source(*old(lex))).i,
        ),
{
    match rewrite_tokens(lex, allow_require) {
        Ok((m, _)) => Ok(m),
        Err(e) => Err(e),
    }
}

/// Whether each export declaration is one that the prefix can define.
fn exports_are_supported<'s>(exports: &Vec<Export<'s>>) -> (r: bool)
    ensures
        r == exports_supported(exports_view(exports@)),
{
    let mut k: usize = 0;
    while k < exports.len()
        invariant
            k <= exports@.len(),
            forall|j: int| 0 <= j < k ==> (#[trigger] exports_view(exports@)[j] is Default
                || exports_view(exports@)[j] is Named),
        decreases exports@.len() - k,
    {
        match &exports[k] {
            Export::Default(_) => {},
            Export::Named(_) => {},
            _ => {
                proof {
                    assert(!(exports_view(exports@)[k as int] is Default || exports_view(exports@)[k as int] is Named));
                }
                return false;
            },
        }
        k = k + 1;
    }
    true
}

/// Whether the token at index `k` stands right after `from`, `import` or
/// `require (`.
pub open spec fn after_name_keyword(toks: Seq<TokenView>, k: int) -> bool {
    k >= 1 && (id_is(toks[k - 1], "from"@) || kw(toks[k - 1], "import"@) || (k >= 2 && kw(
        toks[k - 1],
        "("@,
    ) && id_is(toks[k - 2], "require"@)))
}

/// Reads the lexer to the end of the input and says whether every string
/// literal after `from`, `import` or `require (` is one whose value
/// `str_lit_value` computes.
fn check_names_plain<'f, 's>(
    lex: &mut Lexer<'f, 's>,
    Ghost(toks): Ghost<Seq<TokenView>>,
    Ghost(input): Ghost<Seq<char>>,
) -> (r: bool)
    requires
        at(*old(lex), toks, input, 0),
    ensures
        r == all_names_plain(toks),
{
    let ghost mut i: int = 0;
    let mut prev_from_import = false;
    let mut prev_require = false;
    let mut prev_paren_require = false;
    loop
        invariant
            at(*lex, toks, input, i),
            prev_from_import == (i >= 1 && (id_is(toks[i - 1], "from"@) || kw(toks[i - 1], "import"@))),
            prev_require == (i >= 1 && id_is(toks[i - 1], "require"@)),
            prev_paren_require == (i >= 2 && kw(toks[i - 1], "("@) && id_is(toks[i - 2], "require"@)),
            forall|k: int|
                1 <= k < i && #[trigger] is_str_lit(toks[k]) && after_name_keyword(toks, k)
                    ==> plain_str_lit(toks[k].text),
        decreases toks.len() - i,
    {
        let t = here(lex, Ghost(toks), Ghost(input), Ghost(i));
        proof {
            assert(after_name_keyword(toks, i) == (prev_from_import || prev_paren_require));
        }
        if is_lit(&t) && (prev_from_import || prev_paren_require) {
            if !is_plain_literal(t.text) {
                return false;
            }
        }
        if t.kind == TokKind::Eof {
            proof {
                assert(i == toks.len() - 1);
            }
            return true;
        }
        let open = is_kw(&t, "(");
        prev_paren_require = open && prev_require;
        prev_from_import = is_id(&t, "from") || is_kw(&t, "import");
        prev_require = is_id(&t, "require");
        advance(lex, Ghost(toks), Ghost(input), Ghost(i));
        proof {
            i = i + 1;
        }
    }
}

/// Rewrites the module `source`, read with a lexer of its own, as
/// `module_to_cjs` does, where that is defined: `None` when the lexer cannot
/// decode a character of the source, when a string literal after `from`,
/// `import` or `require (` is one whose value `str_lit_value` cannot compute
/// (tested of every such literal, also of those the rewriting does not read),
/// or when the module holds an `export * from …` or `export { … } from …`
/// declaration, for which the prefix has no rewriting.
pub fn rewrite_module(source: &str, allow_require: bool) -> (r: Option<Result<CjsModule, Error>>)
    ensures
        ({
            let toks = source_tokens(source@);
            &&& r is None <==> !(lexable(source@) && all_names_plain(toks) && module_rewritable(
                toks,
                allow_require,
                source@,
            ))
            &&& r matches Some(m) ==> cjs_result_view(m) == cjs_outcome(toks, allow_require, source@)
            &&& lexable(source@) ==> stream_wf(toks, source@) && stream_tiles(toks, source@) && (
            toks[0].kind != TokKind::Error ==> ws_start(toks[0]) == 0)
        }),
{
    if !is_lexable(source) {
        return None;
    }
    let mut probe = lexer_new(source);
    let ghost toks = lexer_tokens(probe);
    let ghost input = source@;
    let _ = lexer_input(&probe);
    proof {
        assert(toks.skip(0) =~= toks);
    }
    if !check_names_plain(&mut probe, Ghost(toks), Ghost(input)) {
        return None;
    }
    let mut lex = lexer_new(source);
    proof {
        lemma_all_names_plain_run(toks, module_start(), allow_require, input);
    }
    match rewrite_tokens(&mut lex, allow_require) {
        Ok((m, supported)) => {
            if supported {
                Some(Ok(m))
            } else {
                None
            }
        },
        Err(e) => Some(Err(e)),
    }
}

} // verus!
