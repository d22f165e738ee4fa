//! Properties of the rewriting as a whole.
use vstd::prelude::*;
use crate::cjs::{
    cjs_outcome, export_step, import_step, insert_dep, insert_modules, module_run, module_scan,
    module_start, module_step, no_repeats, require_end, require_step, ModState,
};
use crate::lexer::{
    byte_len, stream_tiles, stream_wf, tiles_at, token_in_input, ws_start, TokKind, TokenView,
};
use crate::text::{byte_slice, lemma_byte_slice_concat, lemma_byte_slice_whole};
use vstd::utf8::encode_utf8;
use crate::es6::lemma_decl_run_forward;
use crate::syntax::{
    bindings_outcome, declaration_outcome, DeclState, all_from_outcome, binds_outcome, binding_name, export_list_outcome, export_outcome, id_is,
    import_from_outcome, import_head, import_outcome, is_str_lit, kw, list_from, list_run,
    list_step, ListState, Status,
};

verus! {

/// The whitespace before each of the tokens, in order.
pub open spec fn whitespace_of(toks: Seq<TokenView>) -> Seq<char>
    decreases toks.len(),
{
    if toks.len() == 0 {
        seq![]
    } else {
        whitespace_of(toks.drop_last()) + toks.last().ws_before
    }
}

/// The whitespace before each token from index `a` up to index `b`.
pub open spec fn ws_between(toks: Seq<TokenView>, a: int, b: int) -> Seq<char> {
    whitespace_of(toks.subrange(a, b))
}

proof fn lemma_ws_step(toks: Seq<TokenView>, a: int, b: int)
    requires
        0 <= a <= b < toks.len(),
    ensures
        ws_between(toks, a, b + 1) == ws_between(toks, a, b) + toks[b].ws_before,
{
    assert(toks.subrange(a, b + 1).drop_last() =~= toks.subrange(a, b));
}

proof fn lemma_ws_empty(toks: Seq<TokenView>, a: int)
    requires
        0 <= a <= toks.len(),
    ensures
        ws_between(toks, a, a) == Seq::<char>::empty(),
{
    assert(toks.subrange(a, a) =~= Seq::<TokenView>::empty());
}

proof fn lemma_ws_concat(toks: Seq<TokenView>, a: int, b: int, c: int)
    requires
        0 <= a <= b <= c <= toks.len(),
    ensures
        ws_between(toks, a, c) == ws_between(toks, a, b) + ws_between(toks, b, c),
    decreases c - b,
{
    if c == b {
        lemma_ws_empty(toks, b);
        assert(ws_between(toks, a, b) + ws_between(toks, b, c) =~= ws_between(toks, a, b));
    } else {
        lemma_ws_concat(toks, a, b, c - 1);
        lemma_ws_step(toks, a, c - 1);
        lemma_ws_step(toks, b, c - 1);
        assert(ws_between(toks, a, c) =~= ws_between(toks, a, b) + ws_between(toks, b, c));
    }
}

/// The text written for a `{ … }` list is the whitespace of the tokens read,
/// and the reading stays within the stream.
proof fn lemma_list_whitespace(toks: Seq<TokenView>, i0: int, st: ListState, exporting: bool, input: Seq<char>)
    requires
        stream_wf(toks, input),
        0 <= i0 <= st.i < toks.len(),
        st.out == ws_between(toks, i0, st.i),
    ensures
        ({
            let r = list_run(toks, st, exporting, input);
            &&& st.i <= r.i < toks.len()
            &&& r.out == ws_between(toks, i0, r.i)
            &&& !(r.status is Going)
        }),
    decreases toks.len() - st.i,
{
    let n = toks.len();
    if st.status is Going {
        let i = st.i;
        let next = list_step(toks, st, exporting, input);
        let t = toks[i];
        if binding_name(t) {
            assert(i < n - 1);
            lemma_ws_step(toks, i0, i);
            let u = toks[i + 1];
            if id_is(u, "as"@) {
                assert(i + 1 < n - 1);
                lemma_ws_step(toks, i0, i + 1);
                let v = toks[i + 2];
                if v.kind == TokKind::Id || (exporting && kw(v, "default"@)) {
                    assert(i + 2 < n - 1);
                    lemma_ws_step(toks, i0, i + 2);
                    let w = toks[i + 3];
                    if kw(w, "}"@) || kw(w, ","@) {
                        assert(i + 3 < n - 1);
                        lemma_ws_step(toks, i0, i + 3);
                    }
                }
            } else if kw(u, "}"@) || kw(u, ","@) {
                assert(i + 1 < n - 1);
                lemma_ws_step(toks, i0, i + 1);
            }
        } else if kw(t, "}"@) {
            assert(i < n - 1);
            lemma_ws_step(toks, i0, i);
        }
        assert(next.out == ws_between(toks, i0, next.i));
        assert(st.i <= next.i < n);
        if next.status is Going {
            assert(st.i < next.i);
            lemma_list_whitespace(toks, i0, next, exporting, input);
        } else {
            assert(list_run(toks, next, exporting, input) == next);
        }
    }
}

/// Binding lists of imports write only the whitespace of the tokens read.
proof fn lemma_binds_whitespace(toks: Seq<TokenView>, i: int, msg: Seq<char>, input: Seq<char>)
    requires
        stream_wf(toks, input),
        0 <= i < toks.len(),
    ensures
        ({
            let b = binds_outcome(toks, i, msg, input);
            &&& i <= b.next < toks.len()
            &&& b.out == ws_between(toks, i, b.next)
        }),
{
    reveal(binds_outcome);
    let n = toks.len();
    let t = toks[i];
    lemma_ws_empty(toks, i);
    if kw(t, "*"@) {
        assert(i < n - 1);
        lemma_ws_step(toks, i, i);
        if id_is(toks[i + 1], "as"@) {
            assert(i + 1 < n - 1);
            lemma_ws_step(toks, i, i + 1);
            if toks[i + 2].kind == TokKind::Id {
                assert(i + 2 < n - 1);
                lemma_ws_step(toks, i, i + 2);
            }
        }
    } else if kw(t, "{"@) {
        assert(i < n - 1);
        lemma_ws_step(toks, i, i);
        let st = ListState { i: i + 1, items: seq![], out: seq![], status: Status::Going };
        lemma_ws_empty(toks, i + 1);
        lemma_list_whitespace(toks, i + 1, st, false, input);
        let l = list_from(toks, i + 1, false, input);
        lemma_ws_concat(toks, i, i + 1, l.i);
    }
}

/// An import declaration is replaced by the whitespace before each of its
/// tokens: whatever it holds, and whether it is read in full or an error stops
/// it, the text written for it is that whitespace and nothing else.
pub proof fn import_leaves_whitespace(toks: Seq<TokenView>, input: Seq<char>)
    requires
        stream_wf(toks, input),
    ensures
        ({
            let o = import_outcome(toks, input);
            &&& 0 <= o.next < toks.len()
            &&& o.out == whitespace_of(toks.take(o.next))
        }),
{
    reveal(import_from_outcome);
    reveal(import_head);
    let n = toks.len();
    let o = import_outcome(toks, input);
    let t0 = toks[0];
    lemma_ws_empty(toks, 0);
    if is_str_lit(t0) {
        assert(0 < n - 1);
        lemma_ws_step(toks, 0, 0);
    } else {
        let h = import_head(toks, input).1;
        if t0.kind == TokKind::Id {
            assert(0 < n - 1);
            lemma_ws_step(toks, 0, 0);
            if kw(toks[1], ","@) {
                assert(1 < n - 1);
                lemma_ws_step(toks, 0, 1);
                lemma_binds_whitespace(toks, 2, "bindings"@, input);
                let b = binds_outcome(toks, 2, "bindings"@, input);
                lemma_ws_concat(toks, 0, 2, b.next);
            }
        } else {
            lemma_binds_whitespace(toks, 0, "module name (string literal) or bindings"@, input);
        }
        assert(h.out == ws_between(toks, 0, h.next) && 0 <= h.next < n);
        if h.res is Ok {
            let k = h.next;
            if id_is(toks[k], "from"@) {
                assert(k < n - 1);
                lemma_ws_step(toks, 0, k);
                if is_str_lit(toks[k + 1]) {
                    assert(k + 1 < n - 1);
                    lemma_ws_step(toks, 0, k + 1);
                }
            }
        }
    }
    assert(toks.take(o.next) =~= toks.subrange(0, o.next));
}

/// An export declaration that lists names (`export { … }`, `export { … } from
/// 'module'`) or re-exports a whole module (`export * from 'module'`) is
/// replaced by the whitespace before each of its tokens, whether it is read in
/// full or an error stops it.
pub proof fn export_list_leaves_whitespace(toks: Seq<TokenView>, input: Seq<char>)
    requires
        stream_wf(toks, input),
        kw(toks[0], "{"@) || kw(toks[0], "*"@),
    ensures
        ({
            let o = export_outcome(toks, input);
            &&& 0 <= o.next < toks.len()
            &&& o.out == whitespace_of(toks.take(o.next))
        }),
{
    reveal_strlit("{");
    reveal_strlit("*");
    reveal_strlit("default");
    reveal(all_from_outcome);
    reveal(export_list_outcome);
    let n = toks.len();
    let o = export_outcome(toks, input);
    assert("{"@.len() == 1 && "*"@.len() == 1 && "default"@.len() == 7);
    assert(!kw(toks[0], "default"@));
    lemma_ws_empty(toks, 0);
    assert(0 < n - 1);
    lemma_ws_step(toks, 0, 0);
    if kw(toks[0], "*"@) {
        if id_is(toks[1], "from"@) {
            assert(1 < n - 1);
            lemma_ws_step(toks, 0, 1);
            if is_str_lit(toks[2]) {
                assert(2 < n - 1);
                lemma_ws_step(toks, 0, 2);
            }
        }
    } else {
        let st = ListState { i: 1, items: seq![], out: seq![], status: Status::Going };
        lemma_ws_empty(toks, 1);
        lemma_list_whitespace(toks, 1, st, true, input);
        let l = list_from(toks, 1, true, input);
        lemma_ws_concat(toks, 0, 1, l.i);
        if !(l.status is Failed) {
            let j = l.i;
            if id_is(toks[j], "from"@) {
                assert(j < n - 1);
                lemma_ws_step(toks, 0, j);
                if is_str_lit(toks[j + 1]) {
                    assert(j + 1 < n - 1);
                    lemma_ws_step(toks, 0, j + 1);
                }
            }
        }
    }
    assert(toks.take(o.next) =~= toks.subrange(0, o.next));
}

proof fn lemma_insert_dep(deps: Seq<Seq<char>>, d: Seq<char>)
    requires
        no_repeats(deps),
    ensures
        no_repeats(insert_dep(deps, d)),
        insert_dep(deps, d).contains(d),
        forall|x: Seq<char>| deps.contains(x) ==> insert_dep(deps, d).contains(x),
{
    if !deps.contains(d) {
        let r = deps.push(d);
        assert forall|x: Seq<char>| deps.contains(x) implies r.contains(x) by {
            let k = choose|k: int| 0 <= k < deps.len() && deps[k] == x;
            assert(r[k] == x);
        }
        assert(r[deps.len() as int] == d);
    }
}

proof fn lemma_run_no_repeats(toks: Seq<TokenView>, st: ModState, allow_require: bool, input: Seq<char>)
    requires
        no_repeats(st.deps),
    ensures
        no_repeats(module_run(toks, st, allow_require, input).deps),
    decreases toks.len() - st.i,
{
    if st.status is Going && 0 <= st.i < toks.len() {
        let next = module_step(toks, st, allow_require, input);
        reveal(export_step);
        reveal(import_step);
        reveal(require_step);
        if id_is(toks[st.i], "require"@) {
            let j = crate::cjs::require_end(toks, st.i);
            if j == st.i + 4 {
                match crate::lexer::str_lit_value_of(toks[st.i + 2].text) {
                    Ok(dep) => lemma_insert_dep(st.deps, dep),
                    Err(_) => {},
                }
            }
        }
        assert(no_repeats(next.deps));
        if st.i < next.i <= toks.len() {
            lemma_run_no_repeats(toks, next, allow_require, input);
        }
    }
}

proof fn lemma_insert_modules(deps: Seq<Seq<char>>, imports: Seq<crate::decl::ImportView>)
    requires
        no_repeats(deps),
    ensures
        no_repeats(insert_modules(deps, imports)),
        forall|k: int|
            0 <= k < imports.len() ==> insert_modules(deps, imports).contains(#[trigger] imports[k].module),
    decreases imports.len(),
{
    if imports.len() > 0 {
        let front = imports.drop_last();
        lemma_insert_modules(deps, front);
        let before = insert_modules(deps, front);
        lemma_insert_dep(before, imports.last().module);
        assert forall|k: int|
            0 <= k < imports.len() implies insert_modules(deps, imports).contains(#[trigger] imports[k].module) by {
            if k < imports.len() - 1 {
                assert(front[k] == imports[k]);
            }
        }
    }
}

/// A rewritten module names each module it depends on once, and depends on the
/// module of every import declaration it holds.
pub proof fn module_deps_are_a_set(toks: Seq<TokenView>, allow_require: bool, input: Seq<char>)
    ensures
        cjs_outcome(toks, allow_require, input) matches Ok(m) ==> {
            &&& no_repeats(m.deps)
            &&& forall|k: int|
                0 <= k < module_scan(toks, allow_require, input).imports.len() ==> m.deps.contains(
                    #[trigger] module_scan(toks, allow_require, input).imports[k].module,
                )
        },
{
    let st = module_scan(toks, allow_require, input);
    assert(no_repeats(module_start().deps));
    lemma_run_no_repeats(toks, module_start(), allow_require, input);
    lemma_insert_modules(st.deps, st.imports);
}


/// Reading a module never drops an import or export declaration read before.
proof fn lemma_run_grows(toks: Seq<TokenView>, st: ModState, allow_require: bool, input: Seq<char>)
    ensures
        module_run(toks, st, allow_require, input).imports.len() >= st.imports.len(),
        module_run(toks, st, allow_require, input).exports.len() >= st.exports.len(),
    decreases toks.len() - st.i,
{
    if st.status is Going && 0 <= st.i < toks.len() {
        reveal(export_step);
        reveal(import_step);
        reveal(require_step);
        let next = module_step(toks, st, allow_require, input);
        if st.i < next.i <= toks.len() {
            lemma_run_grows(toks, next, allow_require, input);
        }
    }
}

/// From a point where everything before the whitespace of the current token
/// has been written out unchanged, a script (read with `require` allowed) that
/// meets no import or export declaration is written out to its end unchanged.
proof fn lemma_script_run(toks: Seq<TokenView>, st: ModState, input: Seq<char>)
    requires
        stream_wf(toks, input),
        stream_tiles(toks, input),
        forall|k: int| 0 <= k < toks.len() ==> (#[trigger] toks[k]).kind != TokKind::Error,
        st.status is Going,
        0 <= st.i < toks.len(),
        st.out == byte_slice(input, 0, ws_start(toks[st.i])),
    ensures
        ({
            let f = module_run(toks, st, true, input);
            (!(f.status is Failed) && f.imports.len() == st.imports.len() && f.exports.len()
                == st.exports.len()) ==> f.out == input
        }),
    decreases toks.len() - st.i,
{
    let i = st.i;
    let t = toks[i];
    let b = encode_utf8(input);
    let next = module_step(toks, st, true, input);
    vstd::utf8::encode_utf8_valid_utf8(input);
    vstd::utf8::is_char_boundary_start_end_of_seq(b);
    assert(tiles_at(toks, input, i));
    assert(token_in_input(t, b));
    assert(toks[toks.len() - 1].kind == TokKind::Eof);
    if kw(t, "export"@) {
        reveal(export_step);
        if st.i < next.i <= toks.len() {
            lemma_run_grows(toks, next, true, input);
        }
    } else if kw(t, "import"@) {
        reveal(import_step);
        if st.i < next.i <= toks.len() {
            lemma_run_grows(toks, next, true, input);
        }
    } else if id_is(t, "require"@) {
        reveal(require_step);
        let j = require_end(toks, i);
        assert(i + 1 < toks.len());
        if kw(toks[i + 1], "("@) {
            assert(i + 2 < toks.len());
            if is_str_lit(toks[i + 2]) {
                assert(i + 3 < toks.len());
                if kw(toks[i + 3], ")"@) {
                    assert(i + 4 < toks.len());
                }
            }
        }
        assert(i < j < toks.len());
        if !(next.status is Failed) {
            let tj = toks[j];
            assert(token_in_input(tj, b));
            assert(t.start <= ws_start(tj));
            lemma_byte_slice_concat(input, 0, ws_start(t), t.start as int);
            lemma_byte_slice_concat(input, 0, t.start as int, ws_start(tj));
            assert(next.out == byte_slice(input, 0, ws_start(toks[next.i])));
            lemma_script_run(toks, next, input);
        }
    } else if t.kind == TokKind::Eof {
        lemma_byte_slice_concat(input, 0, ws_start(t), t.start as int);
        lemma_byte_slice_whole(input);
        assert(next.out == input);
    } else {
        assert(i + 1 < toks.len());
        let u = toks[i + 1];
        assert(token_in_input(u, b));
        assert(u.kind != TokKind::Error);
        lemma_byte_slice_concat(input, 0, ws_start(t), t.start as int);
        lemma_byte_slice_concat(input, 0, t.start as int, t.end as int);
        assert(next.out =~= byte_slice(input, 0, ws_start(toks[next.i])));
        lemma_script_run(toks, next, input);
    }
}

/// A script (read with `require` allowed) in which no import or export
/// declaration stands is written out unchanged: the rewritten source is the
/// input, from the start of the whitespace before the first token to the end,
/// and the prefix only opens the function. This holds for streams read from the
/// start of the input in which the lexer met no input it cannot read.
pub proof fn script_is_kept_unchanged(toks: Seq<TokenView>, input: Seq<char>)
    requires
        stream_wf(toks, input),
        stream_tiles(toks, input),
        forall|k: int| 0 <= k < toks.len() ==> (#[trigger] toks[k]).kind != TokKind::Error,
        ws_start(toks[0]) == 0,
    ensures
        ({
            let st = module_scan(toks, true, input);
            (cjs_outcome(toks, true, input) is Ok && st.imports.len() == 0 && st.exports.len() == 0)
                ==> cjs_outcome(toks, true, input)->Ok_0.source == input
                && cjs_outcome(toks, true, input)->Ok_0.source_prefix == "~function() {"@
        }),
{
    lemma_byte_slice_whole(input);
    lemma_script_run(toks, module_start(), input);
}

/// An export declaration of a variable, a function or a class is written out
/// as it stands in the input with only the word `export` taken out: the text
/// written for it is the input from the whitespace before `export` up to the
/// word, then from the end of the word up to the whitespace before the token
/// that follows the declaration (for every declaration that ends within the
/// stream, as each one read does).
pub proof fn declaration_export_drops_only_the_keyword(
    toks: Seq<TokenView>,
    st: ModState,
    input: Seq<char>,
)
    requires
        stream_wf(toks, input),
        stream_tiles(toks, input),
        0 <= st.i < toks.len(),
        kw(toks[st.i], "export"@),
        ({
            let d = toks[st.i + 1];
            kw(d, "var"@) || kw(d, "const"@) || id_is(d, "let"@) || kw(d, "function"@) || kw(
                d,
                "class"@,
            )
        }),
        export_step(toks, st, input).i < toks.len(),
    ensures
        ({
            let e = toks[st.i];
            let next = export_step(toks, st, input);
            next.status is Going ==> next.out == st.out + byte_slice(input, ws_start(e), e.start as int)
                + byte_slice(input, e.end as int, ws_start(toks[next.i]))
        }),
{
    reveal(export_step);
    reveal(bindings_outcome);
    reveal(declaration_outcome);
    reveal_strlit("default");
    reveal_strlit("*");
    reveal_strlit("{");
    reveal_strlit("var");
    reveal_strlit("const");
    reveal_strlit("let");
    reveal_strlit("function");
    reveal_strlit("class");
    let i = st.i;
    let e = toks[i];
    let b = encode_utf8(input);
    let rest = toks.skip(i + 1);
    let o = export_outcome(rest, input);
    let next = export_step(toks, st, input);
    assert(toks[toks.len() - 1].kind == TokKind::Eof);
    assert(i + 1 < toks.len());
    let t0 = toks[i + 1];
    assert(rest[0] == t0);
    assert(tiles_at(toks, input, i));
    assert(tiles_at(toks, input, i + 1));
    lemma_decl_run_forward(rest, DeclState { i: 1, names: seq![], status: Status::Going }, input);
    assert("default"@.len() == 7 && "*"@.len() == 1 && "{"@.len() == 1);
    assert("var"@.len() == 3 && "const"@.len() == 5 && "let"@.len() == 3);
    assert("function"@.len() == 8 && "class"@.len() == 5);
    assert(!kw(t0, "default"@) && !kw(t0, "*"@) && !kw(t0, "{"@));
    if kw(t0, "var"@) || kw(t0, "const"@) || id_is(t0, "let"@) {
        assert(o == bindings_outcome(rest, input));
    } else {
        assert(o == declaration_outcome(rest, input));
    }
    if next.status is Going {
        let j = next.i;
        assert(o.res is Ok);
        assert(j == i + 1 + o.next);
        assert(o.next >= 1);
        assert(rest[o.next] == toks[j]);
        assert(o.out == t0.ws_before + byte_slice(input, t0.start as int, ws_start(toks[j])));
        assert(token_in_input(t0, b));
        assert(token_in_input(toks[j], b));
        assert(t0.start <= ws_start(toks[j]));
        lemma_byte_slice_concat(input, ws_start(t0), t0.start as int, ws_start(toks[j]));
        assert(next.out =~= st.out + e.ws_before + byte_slice(input, ws_start(t0), ws_start(toks[j])));
    }
}

} // verus!
