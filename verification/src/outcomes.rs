//! What the rewriting gives, stated over the shape of its input: the names an
//! exported declaration exports, the items of an import list, the marks of an
//! ES module, which modules can be rewritten, and the getters of the exports.
use vstd::prelude::*;
use crate::cjs::{cjs_outcome, module_rewritable, module_scan, ModState};
use crate::decl::{BindingsView, ExportSpecView, ExportView, ImportSpecView, ImportView};
use crate::lexer::{TokKind, TokenView};
use crate::text::decimal;
use crate::syntax::{
    binds_outcome, bindings_outcome, decl_run, export_outcome, id_is, import_from_outcome,
    import_head, import_outcome, is_str_lit, kw, list_from, list_run, list_step,
    literal_value_of, DeclState, ListState, Status,
};

verus! {

/// `piece` stands in `s` from index `k` on.
pub open spec fn occurs_at(s: Seq<char>, piece: Seq<char>, k: int) -> bool {
    0 <= k && k + piece.len() <= s.len() && s.subrange(k, k + piece.len()) == piece
}

/// `piece` stands somewhere in `s`.
pub open spec fn contains_text(s: Seq<char>, piece: Seq<char>) -> bool {
    exists|k: int| #[trigger] occurs_at(s, piece, k)
}

/// A piece of text stays where it is when text is added after it.
proof fn lemma_occurs_before(s: Seq<char>, t: Seq<char>, piece: Seq<char>, k: int)
    requires
        occurs_at(s, piece, k),
    ensures
        occurs_at(s + t, piece, k),
{
    assert((s + t).subrange(k, k + piece.len()) =~= s.subrange(k, k + piece.len()));
}

/// A piece of text moves by the length of the text added before it.
proof fn lemma_occurs_after(s: Seq<char>, t: Seq<char>, piece: Seq<char>, k: int)
    requires
        occurs_at(t, piece, k),
    ensures
        occurs_at(s + t, piece, s.len() + k),
{
    assert((s + t).subrange(s.len() + k, s.len() + k + piece.len()) =~= t.subrange(
        k,
        k + piece.len(),
    ));
}

/// The marker that the prefix of an ES module starts with.
pub open spec fn module_marker() -> Seq<char> {
    "Object.defineProperty(exports, '__esModule', {value: true})\n"@
}

/// The opening of the wrapping function of an ES module, in strict mode.
pub open spec fn strict_opening() -> Seq<char> {
    "~function() {\n'use strict';\n"@
}

/// A rewritten module is marked as an ES module, and its function runs in
/// strict mode, when `require` is not allowed or when the module holds an
/// import or an export declaration: its prefix starts with the marker that
/// defines `__esModule` on `exports`, and holds the opening of the function
/// followed by `'use strict'`.
pub proof fn es_modules_are_marked(toks: Seq<TokenView>, allow_require: bool, input: Seq<char>)
    ensures
        ({
            let st = module_scan(toks, allow_require, input);
            (cjs_outcome(toks, allow_require, input) is Ok && (!allow_require || st.imports.len()
                > 0 || st.exports.len() > 0)) ==> {
                let p = cjs_outcome(toks, allow_require, input)->Ok_0.source_prefix;
                &&& p.len() >= module_marker().len()
                &&& p.subrange(0, module_marker().len() as int) == module_marker()
                &&& contains_text(p, strict_opening())
            }
        }),
{
    let st = module_scan(toks, allow_require, input);
    if cjs_outcome(toks, allow_require, input) is Ok && (!allow_require || st.imports.len() > 0
        || st.exports.len() > 0) {
        let p = cjs_outcome(toks, allow_require, input)->Ok_0.source_prefix;
        let m = module_marker();
        let i = p.subrange(m.len() as int, p.len() as int);
        assert(p.subrange(0, m.len() as int) =~= m);
        let f = "~function() {"@;
        let u = "\n'use strict';\n"@;
        reveal_strlit("~function() {");
        reveal_strlit("\n'use strict';\n");
        reveal_strlit("~function() {\n'use strict';\n");
        assert(f + u =~= strict_opening());
        let imports_part = if st.imports.len() > 0 {
            "with (function() {"@ + crate::cjs::import_require_lines(st.imports)
                + "\n  return Object.freeze(Object.create(null, {\n    [Symbol.toStringTag]: {value: 'ModuleImports'},"@
                + crate::cjs::import_binding_lines(st.imports) + "\n  }))\n}()) "@
        } else {
            seq![]
        };
        let exports_part = if st.exports.len() > 0 {
            "Object.defineProperties(exports, {"@ + crate::cjs::export_lines(st.exports)
                + "\n});\n"@
        } else {
            seq![]
        };
        let head = m + imports_part;
        assert(p =~= head + (f + u) + exports_part);
        assert((f + u).subrange(0, (f + u).len() as int) =~= f + u);
        lemma_occurs_after(head, f + u, f + u, 0);
        lemma_occurs_before(head + (f + u), exports_part, f + u, head.len() as int);
        assert(occurs_at(p, strict_opening(), head.len() as int));
    }
}

/// A module can be rewritten (reading it failed, or the prefix can define each
/// of its exports) exactly when it holds no `export * from …` and no
/// `export { … } from …` declaration: `export default …`, export lists and
/// exported declarations are all rewritten.
pub proof fn only_reexports_have_no_rewriting(toks: Seq<TokenView>, allow_require: bool, input: Seq<char>)
    ensures
        ({
            let st = module_scan(toks, allow_require, input);
            module_rewritable(toks, allow_require, input) <==> (st.status is Failed || forall|k: int|
                0 <= k < st.exports.len() ==> !(#[trigger] st.exports[k] is AllFrom)
                    && !(st.exports[k] is NamedFrom))
        }),
{
}

/// The getter that defines the export `name` as the binding `bind`.
pub open spec fn getter(name: Seq<char>, bind: Seq<char>) -> Seq<char> {
    "\n  "@ + name + ": {get() {return "@ + bind + "}, enumerable: true},"@
}

/// Where the getter of the specifier at `j` stands in the getters of a list.
proof fn lemma_named_getter(specs: Seq<ExportSpecView>, j: int) -> (k: int)
    requires
        0 <= j < specs.len(),
    ensures
        occurs_at(crate::cjs::named_export_lines(specs), getter(specs[j].name, specs[j].bind), k),
    decreases specs.len(),
{
    let front = specs.drop_last();
    let prev = crate::cjs::named_export_lines(front);
    if j == specs.len() - 1 {
        let g = getter(specs[j].name, specs[j].bind);
        assert(crate::cjs::named_export_lines(specs) =~= prev + g);
        assert(g.subrange(0, g.len() as int) =~= g);
        lemma_occurs_after(prev, g, g, 0);
        prev.len() as int
    } else {
        let k = lemma_named_getter(front, j);
        assert(front[j] == specs[j]);
        let rest = "\n  "@ + specs.last().name + ": {get() {return "@ + specs.last().bind
            + "}, enumerable: true},"@;
        assert(crate::cjs::named_export_lines(specs) =~= prev + rest);
        lemma_occurs_before(prev, rest, getter(specs[j].name, specs[j].bind), k);
        k
    }
}

/// Where the getter of `piece` that the export at `e` defines stands in the
/// getters of all the exports.
proof fn lemma_export_getter(exports: Seq<ExportView>, e: int, piece: Seq<char>, k0: int) -> (k: int)
    requires
        0 <= e < exports.len(),
        occurs_at(crate::cjs::export_lines_of(exports[e]), piece, k0),
    ensures
        occurs_at(crate::cjs::export_lines(exports), piece, k),
    decreases exports.len(),
{
    let front = exports.drop_last();
    let prev = crate::cjs::export_lines(front);
    let last = crate::cjs::export_lines_of(exports.last());
    assert(crate::cjs::export_lines(exports) == prev + last);
    if e == exports.len() - 1 {
        lemma_occurs_after(prev, last, piece, k0);
        prev.len() + k0
    } else {
        assert(front[e] == exports[e]);
        let k = lemma_export_getter(front, e, piece, k0);
        lemma_occurs_before(prev, last, piece, k);
        k
    }
}

/// Where a piece of the getters of all the exports stands in the prefix.
proof fn lemma_prefix_getter(toks: Seq<TokenView>, allow_require: bool, input: Seq<char>, piece: Seq<char>, k0: int) -> (k: int)
    requires
        cjs_outcome(toks, allow_require, input) is Ok,
        module_scan(toks, allow_require, input).exports.len() > 0,
        occurs_at(crate::cjs::export_lines(module_scan(toks, allow_require, input).exports), piece, k0),
    ensures
        occurs_at(cjs_outcome(toks, allow_require, input)->Ok_0.source_prefix, piece, k),
{
    let st = module_scan(toks, allow_require, input);
    let p = cjs_outcome(toks, allow_require, input)->Ok_0.source_prefix;
    let is_module = !allow_require || st.exports.len() > 0 || st.imports.len() > 0;
    let lines = crate::cjs::export_lines(st.exports);
    let open = "Object.defineProperties(exports, {"@;
    let close = "\n});\n"@;
    let head = (if is_module { module_marker() } else { seq![] }) + (if st.imports.len() > 0 {
        "with (function() {"@ + crate::cjs::import_require_lines(st.imports)
            + "\n  return Object.freeze(Object.create(null, {\n    [Symbol.toStringTag]: {value: 'ModuleImports'},"@
            + crate::cjs::import_binding_lines(st.imports) + "\n  }))\n}()) "@
    } else {
        seq![]
    }) + "~function() {"@ + (if is_module {
        "\n'use strict';\n"@
    } else {
        seq![]
    });
    assert(p =~= head + open + lines + close);
    lemma_occurs_after(open, lines, piece, k0);
    lemma_occurs_before(open + lines, close, piece, open.len() + k0);
    assert(open + lines + close =~= (open + lines) + close);
    lemma_occurs_after(head, open + lines + close, piece, open.len() + k0);
    assert(head + (open + lines + close) =~= p);
    head.len() + open.len() + k0
}

/// Each export is defined in the prefix of a rewritten module: for every
/// specifier of a named export (an export list or an exported declaration),
/// whatever its exported name (`default` too), the prefix holds the getter
/// that returns its binding under that name; for `export default …` it holds
/// the `default` getter that returns the binding of the default export.
pub proof fn each_export_has_its_getter(
    toks: Seq<TokenView>,
    allow_require: bool,
    input: Seq<char>,
    e: int,
    j: int,
)
    ensures
        ({
            let st = module_scan(toks, allow_require, input);
            (cjs_outcome(toks, allow_require, input) is Ok && 0 <= e < st.exports.len()) ==> {
                let p = cjs_outcome(toks, allow_require, input)->Ok_0.source_prefix;
                &&& st.exports[e] matches ExportView::Named(specs) ==> (0 <= j < specs.len()
                    ==> contains_text(p, getter(specs[j].name, specs[j].bind)))
                &&& st.exports[e] matches ExportView::Default(b) ==> contains_text(
                    p,
                    getter("default"@, b),
                )
            }
        }),
{
    let st = module_scan(toks, allow_require, input);
    if cjs_outcome(toks, allow_require, input) is Ok && 0 <= e < st.exports.len() {
        match st.exports[e] {
            ExportView::Named(specs) => {
                if 0 <= j < specs.len() {
                    let piece = getter(specs[j].name, specs[j].bind);
                    let k1 = lemma_named_getter(specs, j);
                    let k2 = lemma_export_getter(st.exports, e, piece, k1);
                    let k3 = lemma_prefix_getter(toks, allow_require, input, piece, k2);
                    assert(occurs_at(cjs_outcome(toks, allow_require, input)->Ok_0.source_prefix, piece, k3));
                }
            },
            ExportView::Default(b) => {
                let piece = getter("default"@, b);
                let line = crate::cjs::export_lines_of(st.exports[e]);
                reveal_strlit("\n  default: {get() {return ");
                reveal_strlit("\n  ");
                reveal_strlit("default");
                reveal_strlit(": {get() {return ");
                assert("\n  default: {get() {return "@ =~= "\n  "@ + "default"@ + ": {get() {return "@);
                assert(line =~= piece);
                assert(line.subrange(0, piece.len() as int) =~= piece);
                let k2 = lemma_export_getter(st.exports, e, piece, 0);
                let k3 = lemma_prefix_getter(toks, allow_require, input, piece, k2);
                assert(occurs_at(cjs_outcome(toks, allow_require, input)->Ok_0.source_prefix, piece, k3));
            },
            _ => {},
        }
    }
}

/// The `k`-th name of a declaration list (after the keyword at index 0).
pub open spec fn name_at(toks: Seq<TokenView>, k: int) -> TokenView {
    toks[1 + 2 * k]
}

/// The token after the `k`-th name of a declaration list.
pub open spec fn after_name(toks: Seq<TokenView>, k: int) -> TokenView {
    toks[2 + 2 * k]
}

/// After the keyword at index 0, `toks` holds `n` identifiers separated by
/// commas, with no initialiser, and then a token that is neither `=` nor `,`.
pub open spec fn names_without_initialisers(toks: Seq<TokenView>, n: int) -> bool {
    &&& 1 <= n
    &&& 2 * n < toks.len()
    &&& forall|k: int| 0 <= k < n ==> (#[trigger] name_at(toks, k)).kind == TokKind::Id
    &&& forall|k: int| 0 <= k < n - 1 ==> kw(#[trigger] after_name(toks, k), ","@)
    &&& !kw(after_name(toks, n - 1), "="@)
    &&& !kw(after_name(toks, n - 1), ","@)
}

/// The first `m` names of a declaration list.
pub open spec fn first_names(toks: Seq<TokenView>, m: int) -> Seq<Seq<char>> {
    Seq::new(m as nat, |k: int| name_at(toks, k).text)
}

/// Reading a declaration list from its `m`-th name reads every name up to the
/// `n`-th, and stops after it.
proof fn lemma_names_read(toks: Seq<TokenView>, input: Seq<char>, n: int, m: int)
    requires
        names_without_initialisers(toks, n),
        0 <= m < n,
    ensures
        decl_run(toks, DeclState { i: 1 + 2 * m, names: first_names(toks, m), status: Status::Going }, input)
            == (DeclState { i: 2 * n, names: first_names(toks, n), status: Status::Done }),
    decreases n - m,
{
    reveal_strlit(",");
    reveal_strlit("=");
    let st = DeclState { i: 1 + 2 * m, names: first_names(toks, m), status: Status::Going };
    let t = name_at(toks, m);
    let u = after_name(toks, m);
    assert(toks[1 + 2 * m] == t);
    assert(toks[1 + 2 * m + 1] == u);
    assert(t.kind == TokKind::Id);
    assert(first_names(toks, m).push(t.text) =~= first_names(toks, m + 1));
    let next = crate::syntax::decl_step(toks, st, input);
    if m < n - 1 {
        assert(kw(u, ","@));
        assert(","@[0] == ',' && "="@[0] == '=');
        assert(","@ != "="@);
        assert(!kw(u, "="@));
        assert(next == DeclState { i: 1 + 2 * (m + 1), names: first_names(toks, m + 1), status: Status::Going });
        assert(decl_run(toks, st, input) == decl_run(toks, next, input));
        lemma_names_read(toks, input, n, m + 1);
    } else {
        assert(first_names(toks, m + 1) =~= first_names(toks, n));
        assert(next == DeclState { i: 2 * n, names: first_names(toks, n), status: Status::Done });
        assert(decl_run(toks, next, input) == next);
        assert(decl_run(toks, st, input) == next);
    }
}

/// An exported `var`, `let` or `const` declaration whose names have no
/// initialisers (`export var a, b, c`) exports every name it declares, in
/// order, each under its own name, and reading it ends right after the last
/// name.
pub proof fn exported_declaration_exports_every_name(toks: Seq<TokenView>, input: Seq<char>, n: int)
    requires
        kw(toks[0], "var"@) || kw(toks[0], "const"@) || id_is(toks[0], "let"@),
        names_without_initialisers(toks, n),
    ensures
        export_outcome(toks, input).res == Ok::<ExportView, crate::error::ErrorView>(
            ExportView::Named(
                Seq::new(
                    n as nat,
                    |k: int| ExportSpecView { bind: name_at(toks, k).text, name: name_at(toks, k).text },
                ),
            ),
        ),
        export_outcome(toks, input).next == 2 * n,
{
    reveal(bindings_outcome);
    reveal_strlit("default");
    reveal_strlit("*");
    reveal_strlit("{");
    reveal_strlit("var");
    reveal_strlit("const");
    reveal_strlit("let");
    assert("default"@.len() == 7 && "*"@.len() == 1 && "{"@.len() == 1);
    assert("var"@.len() == 3 && "const"@.len() == 5 && "let"@.len() == 3);
    assert(!kw(toks[0], "default"@) && !kw(toks[0], "*"@) && !kw(toks[0], "{"@));
    assert(first_names(toks, 0) =~= Seq::<Seq<char>>::empty());
    lemma_names_read(toks, input, n, 0);
    assert(crate::syntax::same_names(first_names(toks, n)) =~= Seq::new(
        n as nat,
        |k: int| ExportSpecView { bind: name_at(toks, k).text, name: name_at(toks, k).text },
    ));
}

/// In a `{ … }` list, an item that starts with the keyword `default`, `as` and
/// an identifier is read as the pair of `default` and that identifier, in an
/// import list as in an export list: `default` may be the name imported, as
/// any identifier may.
pub proof fn default_is_read_as_a_list_name(
    toks: Seq<TokenView>,
    st: ListState,
    exporting: bool,
    input: Seq<char>,
)
    requires
        st.status is Going,
        0 <= st.i,
        st.i + 3 < toks.len(),
        kw(toks[st.i], "default"@),
        id_is(toks[st.i + 1], "as"@),
        toks[st.i + 2].kind == TokKind::Id,
        kw(toks[st.i + 3], ","@) || kw(toks[st.i + 3], "}"@),
    ensures
        list_step(toks, st, exporting, input).items == st.items.push(("default"@, toks[st.i + 2].text)),
        !(list_step(toks, st, exporting, input).status is Failed),
        list_step(toks, st, exporting, input).i == st.i + 4,
{
}

/// `import { default as x } from 'module'` imports the default export of the
/// module under the name `x`: the one import specifier is `default` bound to
/// `x`, with the module's source text and value, and no default binding.
pub proof fn default_can_be_imported_by_name(toks: Seq<TokenView>, input: Seq<char>)
    requires
        7 < toks.len(),
        kw(toks[0], "{"@),
        kw(toks[1], "default"@),
        id_is(toks[2], "as"@),
        toks[3].kind == TokKind::Id,
        kw(toks[4], "}"@),
        id_is(toks[5], "from"@),
        is_str_lit(toks[6]),
        literal_value_of(toks[6].text) is Ok,
    ensures
        import_outcome(toks, input).res == Ok::<ImportView, crate::error::ErrorView>(
            ImportView {
                module_source: toks[6].text,
                module: literal_value_of(toks[6].text)->Ok_0,
                default_bind: None,
                binds: BindingsView::Named(seq![ImportSpecView { name: "default"@, bind: toks[3].text }]),
            },
        ),
        import_outcome(toks, input).next == 7,
{
    reveal(import_head);
    reveal(binds_outcome);
    reveal(import_from_outcome);
    reveal_strlit("*");
    reveal_strlit("{");
    reveal_strlit("}");
    reveal_strlit(",");
    assert("*"@[0] == '*' && "{"@[0] == '{' && "}"@[0] == '}' && ","@[0] == ',');
    assert("*"@ != "{"@);
    assert("}"@ != ","@);
    let st = ListState { i: 1, items: seq![], out: seq![], status: Status::Going };
    let next = list_step(toks, st, false, input);
    assert(next.status is Done && next.i == 5);
    assert(list_run(toks, next, false, input) == next);
    assert(list_from(toks, 1, false, input) == next);
    assert(crate::syntax::import_items(next.items) =~= seq![
        ImportSpecView { name: "default"@, bind: toks[3].text },
    ]);
}

/// The line that requires the module of the `i`-th import.
pub open spec fn require_line(source: Seq<char>, i: nat) -> Seq<char> {
    "\n  const __module"@ + decimal(i) + " = require._esModule("@ + source + ")"@
}

/// The getter of a default binding `b` of the `i`-th import.
pub open spec fn default_import_line(b: Seq<char>, i: nat) -> Seq<char> {
    "\n    "@ + b + ": {get() {return __module"@ + decimal(i) + ".default}, enumerable: true},"@
}

/// The property that binds the name space `b` of the `i`-th import.
pub open spec fn name_space_line(b: Seq<char>, i: nat) -> Seq<char> {
    "\n    "@ + b + ": {value: __module"@ + decimal(i) + ", enumerable: true},"@
}

/// The getter that binds `bind` to the export `name` of the `i`-th import.
pub open spec fn named_import_line(bind: Seq<char>, name: Seq<char>, i: nat) -> Seq<char> {
    "\n    "@ + bind + ": {get() {return __module"@ + decimal(i) + "."@ + name + "}, enumerable: true},"@
}

/// A piece of text stands at its start.
proof fn lemma_occurs_whole(piece: Seq<char>)
    ensures
        occurs_at(piece, piece, 0),
{
    assert(piece.subrange(0, piece.len() as int) =~= piece);
}

/// Where the line that requires the module of the `i`-th import stands.
proof fn lemma_require_line(imports: Seq<ImportView>, i: int) -> (k: int)
    requires
        0 <= i < imports.len(),
    ensures
        occurs_at(crate::cjs::import_require_lines(imports), require_line(imports[i].module_source, i as nat), k),
    decreases imports.len(),
{
    let front = imports.drop_last();
    let prev = crate::cjs::import_require_lines(front);
    let line = require_line(imports.last().module_source, (imports.len() - 1) as nat);
    assert(crate::cjs::import_require_lines(imports) =~= prev + line);
    if i == imports.len() - 1 {
        lemma_occurs_whole(line);
        lemma_occurs_after(prev, line, line, 0);
        prev.len() as int
    } else {
        assert(front[i] == imports[i]);
        let k = lemma_require_line(front, i);
        lemma_occurs_before(prev, line, require_line(imports[i].module_source, i as nat), k);
        k
    }
}

/// Where the getter of the `j`-th listed name stands among the getters of a list.
proof fn lemma_named_import_line(specs: Seq<ImportSpecView>, n: Seq<char>, i: nat, j: int) -> (k: int)
    requires
        0 <= j < specs.len(),
        n == decimal(i),
    ensures
        occurs_at(crate::cjs::named_import_lines(specs, n), named_import_line(specs[j].bind, specs[j].name, i), k),
    decreases specs.len(),
{
    let front = specs.drop_last();
    let prev = crate::cjs::named_import_lines(front, n);
    let line = named_import_line(specs.last().bind, specs.last().name, i);
    assert(crate::cjs::named_import_lines(specs, n) =~= prev + line);
    if j == specs.len() - 1 {
        lemma_occurs_whole(line);
        lemma_occurs_after(prev, line, line, 0);
        prev.len() as int
    } else {
        assert(front[j] == specs[j]);
        let k = lemma_named_import_line(front, n, i, j);
        lemma_occurs_before(prev, line, named_import_line(specs[j].bind, specs[j].name, i), k);
        k
    }
}

/// Where a piece of the bindings of the `i`-th import stands among those of all.
proof fn lemma_binding_line(imports: Seq<ImportView>, i: int, piece: Seq<char>, k0: int) -> (k: int)
    requires
        0 <= i < imports.len(),
        occurs_at(crate::cjs::binding_lines(imports[i], i as nat), piece, k0),
    ensures
        occurs_at(crate::cjs::import_binding_lines(imports), piece, k),
    decreases imports.len(),
{
    let front = imports.drop_last();
    let prev = crate::cjs::import_binding_lines(front);
    let last = crate::cjs::binding_lines(imports.last(), (imports.len() - 1) as nat);
    assert(crate::cjs::import_binding_lines(imports) == prev + last);
    if i == imports.len() - 1 {
        lemma_occurs_after(prev, last, piece, k0);
        prev.len() + k0
    } else {
        assert(front[i] == imports[i]);
        let k = lemma_binding_line(front, i, piece, k0);
        lemma_occurs_before(prev, last, piece, k);
        k
    }
}

/// Where a piece of the require lines, or of the binding lines, stands in the prefix.
proof fn lemma_prefix_import(
    toks: Seq<TokenView>,
    allow_require: bool,
    input: Seq<char>,
    piece: Seq<char>,
    k0: int,
    in_requires: bool,
) -> (k: int)
    requires
        cjs_outcome(toks, allow_require, input) is Ok,
        module_scan(toks, allow_require, input).imports.len() > 0,
        in_requires ==> occurs_at(crate::cjs::import_require_lines(module_scan(toks, allow_require, input).imports), piece, k0),
        !in_requires ==> occurs_at(crate::cjs::import_binding_lines(module_scan(toks, allow_require, input).imports), piece, k0),
    ensures
        occurs_at(cjs_outcome(toks, allow_require, input)->Ok_0.source_prefix, piece, k),
{
    let st = module_scan(toks, allow_require, input);
    let p = cjs_outcome(toks, allow_require, input)->Ok_0.source_prefix;
    let is_module = !allow_require || st.exports.len() > 0 || st.imports.len() > 0;
    let m = if is_module { module_marker() } else { seq![] };
    let a = "with (function() {"@;
    let r = crate::cjs::import_require_lines(st.imports);
    let b = "\n  return Object.freeze(Object.create(null, {\n    [Symbol.toStringTag]: {value: 'ModuleImports'},"@;
    let l = crate::cjs::import_binding_lines(st.imports);
    let c = "\n  }))\n}()) "@;
    let tail = "~function() {"@ + (if is_module { "\n'use strict';\n"@ } else { seq![] }) + (if st.exports.len() > 0 {
        "Object.defineProperties(exports, {"@ + crate::cjs::export_lines(st.exports) + "\n});\n"@
    } else {
        seq![]
    });
    if in_requires {
        assert(p =~= (m + a) + r + (b + l + c + tail));
        lemma_occurs_after(m + a, r, piece, k0);
        lemma_occurs_before((m + a) + r, b + l + c + tail, piece, (m + a).len() + k0);
        (m + a).len() + k0
    } else {
        assert(p =~= (m + a + r + b) + l + (c + tail));
        lemma_occurs_after(m + a + r + b, l, piece, k0);
        lemma_occurs_before((m + a + r + b) + l, c + tail, piece, (m + a + r + b).len() + k0);
        (m + a + r + b).len() + k0
    }
}

/// Each import is bound in the prefix of a rewritten module: the `i`-th import
/// (in source order) requires its module, by its source text, as
/// `__module{i}`; its default binding gets the module's default export, its
/// name space binding the module object, and each listed name the export of
/// the module it names.
pub proof fn each_import_is_bound(toks: Seq<TokenView>, allow_require: bool, input: Seq<char>, i: int, j: int)
    ensures
        ({
            let st = module_scan(toks, allow_require, input);
            (cjs_outcome(toks, allow_require, input) is Ok && 0 <= i < st.imports.len()) ==> {
                let p = cjs_outcome(toks, allow_require, input)->Ok_0.source_prefix;
                let imp = st.imports[i];
                &&& contains_text(p, require_line(imp.module_source, i as nat))
                &&& imp.default_bind matches Some(b) ==> contains_text(p, default_import_line(b, i as nat))
                &&& imp.binds matches BindingsView::NameSpace(b) ==> contains_text(p, name_space_line(b, i as nat))
                &&& imp.binds matches BindingsView::Named(specs) ==> (0 <= j < specs.len() ==> contains_text(
                    p,
                    named_import_line(specs[j].bind, specs[j].name, i as nat),
                ))
            }
        }),
{
    let st = module_scan(toks, allow_require, input);
    if cjs_outcome(toks, allow_require, input) is Ok && 0 <= i < st.imports.len() {
        let imp = st.imports[i];
        let n = decimal(i as nat);
        let piece = require_line(imp.module_source, i as nat);
        let k1 = lemma_require_line(st.imports, i);
        let k2 = lemma_prefix_import(toks, allow_require, input, piece, k1, true);
        assert(occurs_at(cjs_outcome(toks, allow_require, input)->Ok_0.source_prefix, piece, k2));
        let d = crate::cjs::default_binding_line(imp.default_bind, n);
        let o = crate::cjs::other_binding_lines(imp.binds, n);
        assert(crate::cjs::binding_lines(imp, i as nat) == d + o);
        if let Some(b) = imp.default_bind {
            let piece = default_import_line(b, i as nat);
            assert(d =~= piece);
            lemma_occurs_whole(piece);
            lemma_occurs_before(d, o, piece, 0);
            let k3 = lemma_binding_line(st.imports, i, piece, 0);
            let k4 = lemma_prefix_import(toks, allow_require, input, piece, k3, false);
            assert(occurs_at(cjs_outcome(toks, allow_require, input)->Ok_0.source_prefix, piece, k4));
        }
        match imp.binds {
            BindingsView::NameSpace(b) => {
                let piece = name_space_line(b, i as nat);
                assert(o =~= piece);
                lemma_occurs_whole(piece);
                lemma_occurs_after(d, o, piece, 0);
                let k3 = lemma_binding_line(st.imports, i, piece, d.len() as int);
                let k4 = lemma_prefix_import(toks, allow_require, input, piece, k3, false);
                assert(occurs_at(cjs_outcome(toks, allow_require, input)->Ok_0.source_prefix, piece, k4));
            },
            BindingsView::Named(specs) => {
                if 0 <= j < specs.len() {
                    let piece = named_import_line(specs[j].bind, specs[j].name, i as nat);
                    let k0 = lemma_named_import_line(specs, n, i as nat, j);
                    lemma_occurs_after(d, o, piece, k0);
                    let k3 = lemma_binding_line(st.imports, i, piece, d.len() + k0);
                    let k4 = lemma_prefix_import(toks, allow_require, input, piece, k3, false);
                    assert(occurs_at(cjs_outcome(toks, allow_require, input)->Ok_0.source_prefix, piece, k4));
                }
            },
            _ => {},
        }
    }
}

/// Adding a dependency keeps those there before, and the one added is there.
proof fn lemma_insert_dep_keeps(deps: Seq<Seq<char>>, d: Seq<char>, x: Seq<char>)
    ensures
        crate::cjs::insert_dep(deps, d).contains(d),
        deps.contains(x) ==> crate::cjs::insert_dep(deps, d).contains(x),
{
    if !deps.contains(d) {
        let r = deps.push(d);
        assert(r[deps.len() as int] == d);
        if deps.contains(x) {
            let k = choose|k: int| 0 <= k < deps.len() && deps[k] == x;
            assert(r[k] == x);
        }
    }
}

/// Adding the modules of imports keeps the dependencies there before.
proof fn lemma_insert_modules_keeps(deps: Seq<Seq<char>>, imports: Seq<ImportView>, x: Seq<char>)
    requires
        deps.contains(x),
    ensures
        crate::cjs::insert_modules(deps, imports).contains(x),
    decreases imports.len(),
{
    if imports.len() > 0 {
        lemma_insert_modules_keeps(deps, imports.drop_last(), x);
        lemma_insert_dep_keeps(
            crate::cjs::insert_modules(deps, imports.drop_last()),
            imports.last().module,
            x,
        );
    }
}

/// Reading on through a module keeps the dependencies found so far.
proof fn lemma_run_keeps_deps(toks: Seq<TokenView>, st: ModState, allow_require: bool, input: Seq<char>, x: Seq<char>)
    requires
        st.deps.contains(x),
    ensures
        crate::cjs::module_run(toks, st, allow_require, input).deps.contains(x),
    decreases toks.len() - st.i,
{
    if st.status is Going && 0 <= st.i < toks.len() {
        reveal(crate::cjs::export_step);
        reveal(crate::cjs::import_step);
        reveal(crate::cjs::require_step);
        let next = crate::cjs::module_step(toks, st, allow_require, input);
        if id_is(toks[st.i], "require"@) && allow_require && crate::cjs::require_end(toks, st.i) == st.i + 4 {
            if literal_value_of(toks[st.i + 2].text) is Ok {
                lemma_insert_dep_keeps(st.deps, literal_value_of(toks[st.i + 2].text)->Ok_0, x);
            }
        }
        assert(next.deps.contains(x));
        if st.i < next.i <= toks.len() {
            lemma_run_keeps_deps(toks, next, allow_require, input, x);
        }
    }
}

/// Each complete call `require('module')` that reading a module (with
/// `require` allowed) passes makes the value of the module name a dependency
/// of the rewritten module. The call is the one at `st.i`, for a state `st` of
/// the reading (reading on from it gives the reading of the whole module).
pub proof fn required_modules_are_dependencies(toks: Seq<TokenView>, input: Seq<char>, st: ModState)
    requires
        crate::cjs::module_run(toks, st, true, input) == module_scan(toks, true, input),
        st.status is Going,
        0 <= st.i,
        st.i + 3 < toks.len(),
        id_is(toks[st.i], "require"@),
        kw(toks[st.i + 1], "("@),
        is_str_lit(toks[st.i + 2]),
        kw(toks[st.i + 3], ")"@),
        literal_value_of(toks[st.i + 2].text) is Ok,
    ensures
        cjs_outcome(toks, true, input) is Ok ==> cjs_outcome(toks, true, input)->Ok_0.deps.contains(
            literal_value_of(toks[st.i + 2].text)->Ok_0,
        ),
{
    reveal(crate::cjs::require_step);
    let v = literal_value_of(toks[st.i + 2].text)->Ok_0;
    let next = crate::cjs::module_step(toks, st, true, input);
    assert(next.deps == crate::cjs::insert_dep(st.deps, v));
    lemma_insert_dep_keeps(st.deps, v, v);
    lemma_run_keeps_deps(toks, next, true, input, v);
    let fin = module_scan(toks, true, input);
    assert(fin == crate::cjs::module_run(toks, next, true, input));
    if cjs_outcome(toks, true, input) is Ok {
        lemma_insert_modules_keeps(fin.deps, fin.imports, v);
    }
}

/// `import { a as b } from 'module'` binds `b` to the export `a` of the module
/// (`a` an identifier or `default`): the one import specifier has the name `a`
/// and the binding `b`.
pub proof fn listed_import_binds_its_name(toks: Seq<TokenView>, input: Seq<char>)
    requires
        7 < toks.len(),
        kw(toks[0], "{"@),
        toks[1].kind == TokKind::Id || kw(toks[1], "default"@),
        id_is(toks[2], "as"@),
        toks[3].kind == TokKind::Id,
        kw(toks[4], "}"@),
        id_is(toks[5], "from"@),
        is_str_lit(toks[6]),
        literal_value_of(toks[6].text) is Ok,
    ensures
        import_outcome(toks, input).res == Ok::<ImportView, crate::error::ErrorView>(
            ImportView {
                module_source: toks[6].text,
                module: literal_value_of(toks[6].text)->Ok_0,
                default_bind: None,
                binds: BindingsView::Named(seq![ImportSpecView { name: toks[1].text, bind: toks[3].text }]),
            },
        ),
        import_outcome(toks, input).next == 7,
{
    reveal(import_head);
    reveal(binds_outcome);
    reveal(import_from_outcome);
    reveal_strlit("*");
    reveal_strlit("{");
    reveal_strlit("}");
    reveal_strlit(",");
    assert("*"@[0] == '*' && "{"@[0] == '{' && "}"@[0] == '}' && ","@[0] == ',');
    assert("*"@ != "{"@);
    assert("}"@ != ","@);
    let st = ListState { i: 1, items: seq![], out: seq![], status: Status::Going };
    let next = list_step(toks, st, false, input);
    assert(next.status is Done && next.i == 5);
    assert(list_run(toks, next, false, input) == next);
    assert(list_from(toks, 1, false, input) == next);
    assert(crate::syntax::import_items(next.items) =~= seq![
        ImportSpecView { name: toks[1].text, bind: toks[3].text },
    ]);
}

/// `export { a as b }` (not followed by `from`) exports the binding `a` under
/// the name `b` (`a` an identifier or `default`, `b` an identifier or
/// `default`), and reading it ends after the `}`.
pub proof fn listed_export_renames(toks: Seq<TokenView>, input: Seq<char>)
    requires
        5 < toks.len(),
        kw(toks[0], "{"@),
        toks[1].kind == TokKind::Id || kw(toks[1], "default"@),
        id_is(toks[2], "as"@),
        toks[3].kind == TokKind::Id || kw(toks[3], "default"@),
        kw(toks[4], "}"@),
        !id_is(toks[5], "from"@),
    ensures
        export_outcome(toks, input).res == Ok::<ExportView, crate::error::ErrorView>(
            ExportView::Named(seq![ExportSpecView { bind: toks[1].text, name: toks[3].text }]),
        ),
        export_outcome(toks, input).next == 5,
{
    reveal(crate::syntax::export_list_outcome);
    reveal_strlit("default");
    reveal_strlit("*");
    reveal_strlit("{");
    reveal_strlit("}");
    reveal_strlit(",");
    assert("default"@.len() == 7 && "{"@.len() == 1);
    assert("*"@[0] == '*' && "{"@[0] == '{' && "}"@[0] == '}' && ","@[0] == ',');
    assert("*"@ != "{"@);
    assert("}"@ != ","@);
    let st = ListState { i: 1, items: seq![], out: seq![], status: Status::Going };
    let next = list_step(toks, st, true, input);
    assert(next.status is Done && next.i == 5);
    assert(list_run(toks, next, true, input) == next);
    assert(list_from(toks, 1, true, input) == next);
    assert(crate::syntax::export_items(next.items) =~= seq![
        ExportSpecView { bind: toks[1].text, name: toks[3].text },
    ]);
}

/// `export default` followed by an expression (anything but `class` and
/// `function`) exports the binding `__default`, reads only `default`, and
/// writes `const __default = ` (after the whitespace before `default`) in its
/// place, so that the expression that follows initialises that binding.
pub proof fn default_expression_is_bound(toks: Seq<TokenView>, input: Seq<char>)
    requires
        1 < toks.len(),
        kw(toks[0], "default"@),
        !kw(toks[1], "class"@),
        !kw(toks[1], "function"@),
    ensures
        export_outcome(toks, input).res == Ok::<ExportView, crate::error::ErrorView>(
            ExportView::Default("__default"@),
        ),
        export_outcome(toks, input).next == 1,
        export_outcome(toks, input).out == toks[0].ws_before + "const __default = "@,
{
    reveal(crate::syntax::default_outcome);
}

/// `export function name`, `export function* name` and `export class name`
/// export the declared name under its own name, and reading them ends after
/// the name.
pub proof fn exported_function_or_class_exports_its_name(toks: Seq<TokenView>, input: Seq<char>)
    requires
        3 < toks.len(),
        kw(toks[0], "function"@) || kw(toks[0], "class"@),
        ({
            let k: int = if kw(toks[0], "function"@) && kw(toks[1], "*"@) { 2 } else { 1 };
            toks[k].kind == TokKind::Id
        }),
    ensures
        ({
            let k: int = if kw(toks[0], "function"@) && kw(toks[1], "*"@) { 2 } else { 1 };
            &&& export_outcome(toks, input).res == Ok::<ExportView, crate::error::ErrorView>(
                ExportView::Named(seq![ExportSpecView { bind: toks[k].text, name: toks[k].text }]),
            )
            &&& export_outcome(toks, input).next == k + 1
        }),
{
    reveal(crate::syntax::declaration_outcome);
    reveal_strlit("default");
    reveal_strlit("*");
    reveal_strlit("{");
    reveal_strlit("var");
    reveal_strlit("const");
    reveal_strlit("let");
    reveal_strlit("function");
    reveal_strlit("class");
    assert("default"@.len() == 7 && "*"@.len() == 1 && "{"@.len() == 1);
    assert("var"@.len() == 3 && "const"@.len() == 5 && "let"@.len() == 3);
    assert("function"@.len() == 8 && "class"@.len() == 5);
    assert("const"@[0] == 'c' && "class"@[1] == 'l' && "const"@[1] == 'o');
    assert("const"@ != "class"@);
}

/// `import 'module'` imports the module for its effects only: no binding, the
/// module's source text and value, reading only the literal and writing only
/// the whitespace before it.
pub proof fn bare_import_binds_nothing(toks: Seq<TokenView>, input: Seq<char>)
    requires
        1 < toks.len(),
        is_str_lit(toks[0]),
        literal_value_of(toks[0].text) is Ok,
    ensures
        import_outcome(toks, input).res == Ok::<ImportView, crate::error::ErrorView>(
            ImportView {
                module_source: toks[0].text,
                module: literal_value_of(toks[0].text)->Ok_0,
                default_bind: None,
                binds: BindingsView::Nothing,
            },
        ),
        import_outcome(toks, input).next == 1,
        import_outcome(toks, input).out == toks[0].ws_before,
{
}

/// `import d, * as ns from 'module'` binds `d` to the module's default export
/// and `ns` to the module object.
pub proof fn default_and_name_space_are_bound(toks: Seq<TokenView>, input: Seq<char>)
    requires
        8 < toks.len(),
        toks[0].kind == TokKind::Id,
        kw(toks[1], ","@),
        kw(toks[2], "*"@),
        id_is(toks[3], "as"@),
        toks[4].kind == TokKind::Id,
        id_is(toks[5], "from"@),
        is_str_lit(toks[6]),
        literal_value_of(toks[6].text) is Ok,
    ensures
        import_outcome(toks, input).res == Ok::<ImportView, crate::error::ErrorView>(
            ImportView {
                module_source: toks[6].text,
                module: literal_value_of(toks[6].text)->Ok_0,
                default_bind: Some(toks[0].text),
                binds: BindingsView::NameSpace(toks[4].text),
            },
        ),
        import_outcome(toks, input).next == 7,
{
    reveal(import_head);
    reveal(binds_outcome);
    reveal(import_from_outcome);
}

/// An import whose default binding is followed by neither `,` nor `from` is an
/// error: `from` was expected at the token after the binding, where reading
/// stops.
pub proof fn missing_from_is_an_error(toks: Seq<TokenView>, input: Seq<char>)
    requires
        2 < toks.len(),
        toks[0].kind == TokKind::Id,
        !kw(toks[1], ","@),
        !id_is(toks[1], "from"@),
    ensures
        import_outcome(toks, input).res == Err::<ImportView, crate::error::ErrorView>(
            crate::syntax::expected("keyword 'from'"@, toks[1], input),
        ),
        import_outcome(toks, input).next == 1,
        import_outcome(toks, input).out == toks[0].ws_before,
{
    reveal(import_head);
    reveal(import_from_outcome);
}

/// After `export`, a token that starts none of the forms of an export
/// declaration is an error at that token: nothing is read and nothing written.
pub proof fn unknown_export_is_an_error(toks: Seq<TokenView>, input: Seq<char>)
    requires
        0 < toks.len(),
        !kw(toks[0], "default"@),
        !kw(toks[0], "*"@),
        !kw(toks[0], "{"@),
        !kw(toks[0], "var"@),
        !kw(toks[0], "const"@),
        !id_is(toks[0], "let"@),
        !kw(toks[0], "function"@),
        !kw(toks[0], "class"@),
    ensures
        export_outcome(toks, input).res == Err::<ExportView, crate::error::ErrorView>(
            crate::syntax::expected("keyword 'default' or '*' or '{' or declaration"@, toks[0], input),
        ),
        export_outcome(toks, input).next == 0,
        export_outcome(toks, input).out == Seq::<char>::empty(),
{
}

} // verus!
