//! Reading `export` and `import` declarations from the lexer, writing out the
//! text that stands in their place.
use vstd::prelude::*;
use esparse::lex::Lexer;
use crate::cursor::{advance, at, expected_here, here, is_binding_name, is_id, is_kw, is_lit, literal_value};
use crate::lexer::{byte_len, token_in_input, Token};
use crate::syntax::{id_is, is_str_lit, kw};
use crate::error::{Error, ErrorView};
use crate::lexer::{TokKind, TokenView};
use crate::decl::{
    export_specs_view, import_specs_view, opt_view, Bindings, BindingsView, Export, ExportSpec,
    ExportSpecView, ExportView, Import, ImportSpec, ImportSpecView, ImportView,
};
use crate::lexer::{
    lexable, lexer_input, lexer_source, lexer_tokens, skip_assignment_expr, skip_expr_outcome,
    skip_expr_stop, tail_from, lemma_tail_from_shift,
};
use crate::syntax::{
    all_from_outcome, bindings_outcome, binds_outcome, declaration_outcome, default_outcome,
    export_list_outcome, import_from_outcome, import_head, import_items, import_outcome,
    decl_run, decl_step, export_items, export_outcome, list_from, list_run, list_step,
    export_names_plain, import_names_plain, same_names, source_between, DeclState, ListState,
    Status,
};
use crate::text::slice_bytes;

verus! {

/// The pairs of names read from a list, by views.
pub open spec fn pairs_view<'s>(v: Seq<(&'s str, &'s str)>) -> Seq<(Seq<char>, Seq<char>)> {
    v.map_values(|p: (&'s str, &'s str)| (p.0@, p.1@))
}

/// Reads one item of a `{ … }` list, from the state `st` (the text written so
/// far for the list stands after `base`); `Ok(true)` when the list goes on.
#[verifier::rlimit(40)]
fn read_list_item<'f, 's>(
    lex: &mut Lexer<'f, 's>,
    source: &mut String,
    items: &mut Vec<(&'s str, &'s str)>,
    exporting: bool,
    Ghost(toks): Ghost<Seq<TokenView>>,
    Ghost(input): Ghost<Seq<char>>,
    Ghost(st): Ghost<ListState>,
    Ghost(base): Ghost<Seq<char>>,
) -> (r: Result<bool, Error>)
    requires
        at(*old(lex), toks, input, st.i),
        st.status is Going,
        pairs_view(old(items)@) == st.items,
        old(source)@ == base + st.out,
    ensures
        lexer_source(*final(lex)) == input,
        ({
            let next = list_step(toks, st, exporting, input);
            &&& final(source)@ == base + next.out
            &&& match next.status {
                Status::Going => r == Ok::<bool, Error>(true) && at(*final(lex), toks, input, next.i)
                    && pairs_view(final(items)@) == next.items,
                Status::Done => r == Ok::<bool, Error>(false) && at(*final(lex), toks, input, next.i)
                    && pairs_view(final(items)@) == next.items,
                Status::Failed(e) => r matches Err(err) && err@ == e && at(*final(lex), toks, input, next.i),
            }
        }),
{
    let ghost i = st.i;
    let ghost next = list_step(toks, st, exporting, input);
    let t = here(lex, Ghost(toks), Ghost(input), Ghost(i));
    if is_binding_name(&t) {
        advance(lex, Ghost(toks), Ghost(input), Ghost(i));
        let u = here(lex, Ghost(toks), Ghost(input), Ghost(i + 1));
        if is_id(&u, "as") {
            advance(lex, Ghost(toks), Ghost(input), Ghost(i + 1));
            let v = here(lex, Ghost(toks), Ghost(input), Ghost(i + 2));
            if v.kind == TokKind::Id || (exporting && is_kw(&v, "default")) {
                advance(lex, Ghost(toks), Ghost(input), Ghost(i + 2));
                source.append(t.ws_before);
                source.append(u.ws_before);
                source.append(v.ws_before);
                items.push((t.text, v.text));
                proof {
                    assert(pairs_view(items@) =~= next.items);
                }
                let w = here(lex, Ghost(toks), Ghost(input), Ghost(i + 3));
                if is_kw(&w, "}") {
                    advance(lex, Ghost(toks), Ghost(input), Ghost(i + 3));
                    source.append(w.ws_before);
                    proof {
                        assert(source@ =~= base + next.out);
                    }
                    Ok(false)
                } else if is_kw(&w, ",") {
                    advance(lex, Ghost(toks), Ghost(input), Ghost(i + 3));
                    source.append(w.ws_before);
                    proof {
                        assert(source@ =~= base + next.out);
                    }
                    Ok(true)
                } else {
                    let e = expected_here(lex, "',' or '}'", Ghost(toks), Ghost(input), Ghost(i + 3));
                    proof {
                        assert(source@ =~= base + next.out);
                    }
                    Err(e)
                }
            } else {
                let msg = if exporting {
                    "export name after keyword 'as'"
                } else {
                    "binding name after keyword 'as'"
                };
                let e = expected_here(lex, msg, Ghost(toks), Ghost(input), Ghost(i + 2));
                source.append(t.ws_before);
                source.append(u.ws_before);
                proof {
                    assert(source@ =~= base + next.out);
                }
                Err(e)
            }
        } else if is_kw(&u, "}") {
            advance(lex, Ghost(toks), Ghost(input), Ghost(i + 1));
            source.append(t.ws_before);
            source.append(u.ws_before);
            items.push((t.text, t.text));
            proof {
                assert(pairs_view(items@) =~= next.items);
                assert(source@ =~= base + next.out);
            }
            Ok(false)
        } else if is_kw(&u, ",") {
            advance(lex, Ghost(toks), Ghost(input), Ghost(i + 1));
            source.append(t.ws_before);
            source.append(u.ws_before);
            items.push((t.text, t.text));
            proof {
                assert(pairs_view(items@) =~= next.items);
                assert(source@ =~= base + next.out);
            }
            Ok(true)
        } else {
            let e = expected_here(
                lex,
                "',' or '}' or keyword 'as'",
                Ghost(toks),
                Ghost(input),
                Ghost(i + 1),
            );
            source.append(t.ws_before);
            proof {
                assert(source@ =~= base + next.out);
            }
            Err(e)
        }
    } else if is_kw(&t, "}") {
        advance(lex, Ghost(toks), Ghost(input), Ghost(i));
        source.append(t.ws_before);
        proof {
            assert(source@ =~= base + next.out);
        }
        Ok(false)
    } else {
        let msg = if exporting {
            "binding name or '}'"
        } else {
            "import specifier or '}'"
        };
        Err(expected_here(lex, msg, Ghost(toks), Ghost(input), Ghost(i)))
    }
}

/// Reads the rest of a `{ … }` list, from index `i0` just after the `{`.
fn read_list<'f, 's>(
    lex: &mut Lexer<'f, 's>,
    source: &mut String,
    exporting: bool,
    Ghost(toks): Ghost<Seq<TokenView>>,
    Ghost(input): Ghost<Seq<char>>,
    Ghost(i0): Ghost<int>,
) -> (r: Result<Vec<(&'s str, &'s str)>, Error>)
    requires
        at(*old(lex), toks, input, i0),
    ensures
        lexer_source(*final(lex)) == input,
        ({
            let l = list_from(toks, i0, exporting, input);
            &&& final(source)@ == old(source)@ + l.out
            &&& match l.status {
                Status::Failed(e) => r matches Err(err) && err@ == e && at(*final(lex), toks, input, l.i),
                _ => r matches Ok(v) && pairs_view(v@) == l.items && at(*final(lex), toks, input, l.i),
            }
        }),
{
    let mut items: Vec<(&'s str, &'s str)> = Vec::new();
    let ghost base = source@;
    let ghost mut st = ListState { i: i0, items: seq![], out: seq![], status: Status::Going };
    proof {
        assert(pairs_view(items@) =~= st.items);
        assert(source@ =~= base + st.out);
    }
    loop
        invariant
            at(*lex, toks, input, st.i),
            st.status is Going,
            list_run(toks, st, exporting, input) == list_from(toks, i0, exporting, input),
            pairs_view(items@) == st.items,
            source@ == base + st.out,
            base == old(source)@,
        decreases toks.len() - st.i,
    {
        let ghost next = list_step(toks, st, exporting, input);
        let step = read_list_item(
            lex,
            source,
            &mut items,
            exporting,
            Ghost(toks),
            Ghost(input),
            Ghost(st),
            Ghost(base),
        );
        proof {
            assert(list_run(toks, next, exporting, input) == next || next.status is Going);
        }
        match step {
            Ok(true) => {},
            Ok(false) => {
                return Ok(items);
            },
            Err(e) => {
                return Err(e);
            },
        }
        proof {
            st = next;
        }
    }
}

/// After an initialiser of a `var`, `let` or `const` declaration has been
/// skipped: passes the `,` that comes next, if any, and says whether it was
/// there (whether another name follows).
pub fn after_initializer(lex: &mut Lexer) -> (more: bool)
    requires
        lexable(lexer_source(*old(lex))),
    ensures
        lexer_source(*final(lex)) == lexer_source(*old(lex)),
        more == kw(lexer_tokens(*old(lex))[0], ","@),
        more ==> lexer_tokens(*final(lex)) == lexer_tokens(*old(lex)).drop_first(),
        !more ==> lexer_tokens(*final(lex)) == lexer_tokens(*old(lex)),
{
    let ghost toks = lexer_tokens(*lex);
    let ghost input = lexer_source(*lex);
    let _ = lexer_input(lex);
    proof {
        assert(toks.skip(0) =~= toks);
    }
    let w = here(lex, Ghost(toks), Ghost(input), Ghost(0));
    if is_kw(&w, ",") {
        advance(lex, Ghost(toks), Ghost(input), Ghost(0));
        proof {
            assert(toks.skip(1) =~= toks.drop_first());
        }
        true
    } else {
        false
    }
}

/// The names read from a declaration, by views.
pub open spec fn names_view<'s>(v: Seq<&'s str>) -> Seq<Seq<char>> {
    v.map_values(|n: &'s str| n@)
}

/// Reads the names of a `var`, `let` or `const` declaration, from index `i0`
/// just after the keyword, skipping the initialisers.
fn read_decls<'f, 's>(
    lex: &mut Lexer<'f, 's>,
    Ghost(toks): Ghost<Seq<TokenView>>,
    Ghost(input): Ghost<Seq<char>>,
    Ghost(i0): Ghost<int>,
) -> (r: Result<Vec<&'s str>, Error>)
    requires
        at(*old(lex), toks, input, i0),
    ensures
        lexer_source(*final(lex)) == input,
        ({
            let d = decl_run(toks, DeclState { i: i0, names: seq![], status: Status::Going }, input);
            match d.status {
                Status::Failed(e) => r matches Err(err) && err@ == e && tail_from(lexer_tokens(*final(lex)), toks, d.i),
                _ => r matches Ok(v) && names_view(v@) == d.names && at(*final(lex), toks, input, d.i),
            }
        }),
{
    let mut names: Vec<&'s str> = Vec::new();
    let ghost mut st = DeclState { i: i0, names: seq![], status: Status::Going };
    proof {
        assert(names_view(names@) =~= st.names);
    }
    loop
        invariant
            at(*lex, toks, input, st.i),
            st.status is Going,
            decl_run(toks, st, input) == decl_run(
                toks,
                DeclState { i: i0, names: seq![], status: Status::Going },
                input,
            ),
            names_view(names@) == st.names,
        decreases toks.len() - st.i,
    {
        let ghost i = st.i;
        let ghost next = decl_step(toks, st, input);
        let t = here(lex, Ghost(toks), Ghost(input), Ghost(i));
        if t.kind == TokKind::Id {
            advance(lex, Ghost(toks), Ghost(input), Ghost(i));
            names.push(t.text);
            proof {
                assert(names_view(names@) =~= next.names);
            }
            let u = here(lex, Ghost(toks), Ghost(input), Ghost(i + 1));
            if is_kw(&u, "=") {
                advance(lex, Ghost(toks), Ghost(input), Ghost(i + 1));
                let skipped = skip_assignment_expr(lex);
                match skipped {
                    Ok(()) => {
                        let ghost n: int = skip_expr_outcome(toks.skip(i + 2), input)->Ok_0 as int;
                        proof {
                            assert(toks.skip(i + 2).skip(n) =~= toks.skip(i + 2 + n));
                        }
                        if after_initializer(lex) {
                            proof {
                                assert(toks[i + 2 + n] == toks.skip(i + 2 + n)[0]);
                                assert(i + 2 + n < toks.len() - 1);
                                assert(toks.skip(i + 2 + n).drop_first() =~= toks.skip(i + 3 + n));
                            }
                        } else {
                            proof {
                                assert(toks[i + 2 + n] == toks.skip(i + 2 + n)[0]);
                                assert(decl_run(toks, next, input) == next);
                            }
                            return Ok(names);
                        }
                    },
                    Err(e) => {
                        proof {
                            let m: int = skip_expr_stop(toks.skip(i + 2), input) as int;
                            lemma_tail_from_shift(lexer_tokens(*lex), toks, i + 2, m);
                            assert(decl_run(toks, next, input) == next);
                        }
                        return Err(e);
                    },
                }
            } else if is_kw(&u, ",") {
                advance(lex, Ghost(toks), Ghost(input), Ghost(i + 1));
            } else {
                proof {
                    assert(decl_run(toks, next, input) == next);
                }
                return Ok(names);
            }
        } else {
            let e = expected_here(lex, "binding name", Ghost(toks), Ghost(input), Ghost(i));
            proof {
                assert(decl_run(toks, next, input) == next);
            }
            return Err(e);
        }
        proof {
            st = next;
        }
    }
}

/// Reading a declaration never moves backwards.
pub(crate) proof fn lemma_decl_run_forward(toks: Seq<TokenView>, st: DeclState, input: Seq<char>)
    ensures
        decl_run(toks, st, input).i >= st.i,
    decreases toks.len() - st.i,
{
    if st.status is Going && 0 <= st.i < toks.len() {
        let next = decl_step(toks, st, input);
        if st.i < next.i <= toks.len() {
            lemma_decl_run_forward(toks, next, input);
        }
    }
}

/// The export specifiers of the pairs read from a list.
fn to_export_specs<'s>(items: Vec<(&'s str, &'s str)>) -> (r: Vec<ExportSpec<'s>>)
    ensures
        export_specs_view(r@) == export_items(pairs_view(items@)),
{
    let mut r: Vec<ExportSpec<'s>> = Vec::new();
    let mut i: usize = 0;
    while i < items.len()
        invariant
            i <= items@.len(),
            r@.len() == i,
            forall|k: int|
                0 <= k < i ==> (#[trigger] r@[k])@ == (ExportSpecView {
                    bind: items@[k].0@,
                    name: items@[k].1@,
                }),
        decreases items@.len() - i,
    {
        let (bind, name) = items[i];
        r.push(ExportSpec::new(bind, name));
        i = i + 1;
    }
    proof {
        assert(export_specs_view(r@) =~= export_items(pairs_view(items@)));
    }
    r
}

/// Each name exported under its own name.
fn to_same_specs<'s>(names: Vec<&'s str>) -> (r: Vec<ExportSpec<'s>>)
    ensures
        export_specs_view(r@) == same_names(names_view(names@)),
{
    let mut r: Vec<ExportSpec<'s>> = Vec::new();
    let mut i: usize = 0;
    while i < names.len()
        invariant
            i <= names@.len(),
            r@.len() == i,
            forall|k: int|
                0 <= k < i ==> (#[trigger] r@[k])@ == (ExportSpecView { bind: names@[k]@, name: names@[k]@ }),
        decreases names@.len() - i,
    {
        r.push(ExportSpec::same(names[i]));
        i = i + 1;
    }
    proof {
        assert(export_specs_view(r@) =~= same_names(names_view(names@)));
    }
    r
}

/// Writes the source from the start of the token `a` (at index `ia`) up to the
/// end of the token before the current one (at index `j`).
pub(crate) fn push_source_between<'f, 's>(
    lex: &Lexer<'f, 's>,
    source: &mut String,
    inp: &'s str,
    a: &Token<'f, 's>,
    Ghost(toks): Ghost<Seq<TokenView>>,
    Ghost(input): Ghost<Seq<char>>,
    Ghost(ia): Ghost<int>,
    Ghost(j): Ghost<int>,
)
    requires
        at(*lex, toks, input, j),
        inp@ == input,
        a@ == toks[ia],
        0 <= ia < j,
    ensures
        final(source)@ == old(source)@ + source_between(input, toks[ia], toks[j]),
{
    let h = here(lex, Ghost(toks), Ghost(input), Ghost(j));
    proof {
        assert(token_in_input(toks[ia], vstd::utf8::encode_utf8(input)));
        assert(toks[ia].start <= toks[j].start - byte_len(toks[j].ws_before));
    }
    let end_pos = h.start - h.ws_before.len();
    let piece = slice_bytes(inp, a.start, end_pos);
    source.append(piece);
}

/// An export declaration or its error, by views.
pub open spec fn export_result_view<'s>(r: Result<Export<'s>, Error>) -> Result<ExportView, ErrorView> {
    match r {
        Ok(e) => Ok(e@),
        Err(e) => Err(e@),
    }
}

/// The lexer has read the first `next` tokens of `toks`.
pub open spec fn read_up_to(lex: Lexer, toks: Seq<TokenView>, next: int) -> bool {
    0 <= next < toks.len() && lexer_tokens(lex) == toks.skip(next)
}

/// What reading the declaration after `export` from `toks` leaves behind.
pub open spec fn export_read(
    r: Result<Export, Error>,
    lex: Lexer,
    toks: Seq<TokenView>,
    input: Seq<char>,
    before: Seq<char>,
    after: Seq<char>,
) -> bool {
    let o = export_outcome(toks, input);
    &&& lexer_source(lex) == input
    &&& export_result_view(r) == o.res
    &&& after == before + o.out
    &&& r is Ok ==> read_up_to(lex, toks, o.next)
    &&& r is Err ==> tail_from(lexer_tokens(lex), toks, o.next)
}

/// `export default …`.
fn export_default<'f, 's>(
    lex: &mut Lexer<'f, 's>,
    source: &mut String,
    Ghost(toks): Ghost<Seq<TokenView>>,
    Ghost(input): Ghost<Seq<char>>,
) -> (r: Result<Export<'s>, Error>)
    requires
        at(*old(lex), toks, input, 0),
        kw(toks[0], "default"@),
    ensures
        export_read(r, *final(lex), toks, input, old(source)@, final(source)@),
{
    reveal(default_outcome);
    let ghost o = export_outcome(toks, input);
    let t0 = here(lex, Ghost(toks), Ghost(input), Ghost(0));
    advance(lex, Ghost(toks), Ghost(input), Ghost(0));
    source.append(t0.ws_before);
    let t1 = here(lex, Ghost(toks), Ghost(input), Ghost(1));
    if is_kw(&t1, "class") {
        advance(lex, Ghost(toks), Ghost(input), Ghost(1));
        source.append(t1.ws_before);
        source.append(t1.text);
        let t2 = here(lex, Ghost(toks), Ghost(input), Ghost(2));
        if t2.kind == TokKind::Id {
            advance(lex, Ghost(toks), Ghost(input), Ghost(2));
            source.append(t2.ws_before);
            source.append(t2.text);
            proof {
                assert(source@ =~= old(source)@ + o.out);
            }
            return Ok(Export::Default(t2.text));
        }
        let e = expected_here(lex, "class name", Ghost(toks), Ghost(input), Ghost(2));
        proof {
            assert(source@ =~= old(source)@ + o.out);
        }
        Err(e)
    } else if is_kw(&t1, "function") {
        advance(lex, Ghost(toks), Ghost(input), Ghost(1));
        source.append(t1.ws_before);
        source.append(t1.text);
        let ghost mut k: int = 2;
        let t2 = here(lex, Ghost(toks), Ghost(input), Ghost(2));
        if is_kw(&t2, "*") {
            advance(lex, Ghost(toks), Ghost(input), Ghost(2));
            source.append(t2.ws_before);
            source.append(t2.text);
            proof {
                k = 3;
            }
        }
        let tk = here(lex, Ghost(toks), Ghost(input), Ghost(k));
        if tk.kind == TokKind::Id {
            advance(lex, Ghost(toks), Ghost(input), Ghost(k));
            source.append(tk.ws_before);
            source.append(tk.text);
            proof {
                assert(source@ =~= old(source)@ + o.out);
            }
            return Ok(Export::Default(tk.text));
        }
        let e = expected_here(lex, "function name", Ghost(toks), Ghost(input), Ghost(k));
        proof {
            assert(source@ =~= old(source)@ + o.out);
        }
        Err(e)
    } else {
        source.append("const __default = ");
        proof {
            assert(source@ =~= old(source)@ + o.out);
        }
        Ok(Export::Default("__default"))
    }
}

/// `export * from 'module'`.
fn export_all_from<'f, 's>(
    lex: &mut Lexer<'f, 's>,
    source: &mut String,
    Ghost(toks): Ghost<Seq<TokenView>>,
    Ghost(input): Ghost<Seq<char>>,
) -> (r: Result<Export<'s>, Error>)
    requires
        at(*old(lex), toks, input, 0),
        export_names_plain(toks, input),
        !kw(toks[0], "default"@),
        kw(toks[0], "*"@),
    ensures
        export_read(r, *final(lex), toks, input, old(source)@, final(source)@),
{
    reveal(all_from_outcome);
    let ghost o = export_outcome(toks, input);
    let t0 = here(lex, Ghost(toks), Ghost(input), Ghost(0));
    advance(lex, Ghost(toks), Ghost(input), Ghost(0));
    source.append(t0.ws_before);
    let t1 = here(lex, Ghost(toks), Ghost(input), Ghost(1));
    if is_id(&t1, "from") {
        advance(lex, Ghost(toks), Ghost(input), Ghost(1));
        source.append(t1.ws_before);
        let t2 = here(lex, Ghost(toks), Ghost(input), Ghost(2));
        if is_lit(&t2) {
            advance(lex, Ghost(toks), Ghost(input), Ghost(2));
            source.append(t2.ws_before);
            proof {
                assert(source@ =~= old(source)@ + o.out);
                assert(is_str_lit(toks[2]) && id_is(toks[1], "from"@));
            }
            return match literal_value(lex, &t2, Ghost(toks), Ghost(input), Ghost(3)) {
                Ok(m) => Ok(Export::AllFrom(m)),
                Err(e) => Err(e),
            };
        }
        let e = expected_here(lex, "module name (string literal)", Ghost(toks), Ghost(input), Ghost(2));
        proof {
            assert(source@ =~= old(source)@ + o.out);
        }
        return Err(e);
    }
    let e = expected_here(lex, "keyword 'from'", Ghost(toks), Ghost(input), Ghost(1));
    proof {
        assert(source@ =~= old(source)@ + o.out);
    }
    Err(e)
}

/// `export { … }` and `export { … } from 'module'`.
fn export_list<'f, 's>(
    lex: &mut Lexer<'f, 's>,
    source: &mut String,
    Ghost(toks): Ghost<Seq<TokenView>>,
    Ghost(input): Ghost<Seq<char>>,
) -> (r: Result<Export<'s>, Error>)
    requires
        at(*old(lex), toks, input, 0),
        export_names_plain(toks, input),
        !kw(toks[0], "default"@),
        !kw(toks[0], "*"@),
        kw(toks[0], "{"@),
    ensures
        export_read(r, *final(lex), toks, input, old(source)@, final(source)@),
{
    reveal(export_list_outcome);
    let ghost o = export_outcome(toks, input);
    let t0 = here(lex, Ghost(toks), Ghost(input), Ghost(0));
    advance(lex, Ghost(toks), Ghost(input), Ghost(0));
    source.append(t0.ws_before);
    let ghost l = list_from(toks, 1, true, input);
    let listed = read_list(lex, source, true, Ghost(toks), Ghost(input), Ghost(1));
    match listed {
        Err(e) => {
            proof {
                assert(source@ =~= old(source)@ + o.out);
            }
            Err(e)
        },
        Ok(items) => {
            let specs = to_export_specs(items);
            let ghost j = l.i;
            let tj = here(lex, Ghost(toks), Ghost(input), Ghost(j));
            if is_id(&tj, "from") {
                advance(lex, Ghost(toks), Ghost(input), Ghost(j));
                source.append(tj.ws_before);
                let tk = here(lex, Ghost(toks), Ghost(input), Ghost(j + 1));
                if is_lit(&tk) {
                    advance(lex, Ghost(toks), Ghost(input), Ghost(j + 1));
                    source.append(tk.ws_before);
                    proof {
                        assert(source@ =~= old(source)@ + o.out);
                        assert(is_str_lit(toks[j + 1]) && id_is(toks[j + 1 - 1], "from"@));
                    }
                    return match literal_value(lex, &tk, Ghost(toks), Ghost(input), Ghost(j + 2)) {
                        Ok(m) => Ok(Export::NamedFrom(specs, m)),
                        Err(e) => Err(e),
                    };
                }
                let e = expected_here(
                    lex,
                    "module name (string literal)",
                    Ghost(toks),
                    Ghost(input),
                    Ghost(j + 1),
                );
                proof {
                    assert(source@ =~= old(source)@ + o.out);
                }
                return Err(e);
            }
            proof {
                assert(source@ =~= old(source)@ + o.out);
            }
            Ok(Export::Named(specs))
        },
    }
}

/// `export var …`, `export let …`, `export const …`.
fn export_bindings<'f, 's>(
    lex: &mut Lexer<'f, 's>,
    source: &mut String,
    inp: &'s str,
    Ghost(toks): Ghost<Seq<TokenView>>,
    Ghost(input): Ghost<Seq<char>>,
) -> (r: Result<Export<'s>, Error>)
    requires
        at(*old(lex), toks, input, 0),
        inp@ == input,
        !kw(toks[0], "default"@),
        !kw(toks[0], "*"@),
        !kw(toks[0], "{"@),
        kw(toks[0], "var"@) || kw(toks[0], "const"@) || id_is(toks[0], "let"@),
    ensures
        export_read(r, *final(lex), toks, input, old(source)@, final(source)@),
{
    reveal(bindings_outcome);
    let ghost o = export_outcome(toks, input);
    let t0 = here(lex, Ghost(toks), Ghost(input), Ghost(0));
    advance(lex, Ghost(toks), Ghost(input), Ghost(0));
    source.append(t0.ws_before);
    let ghost d = decl_run(toks, DeclState { i: 1, names: seq![], status: Status::Going }, input);
    proof {
        lemma_decl_run_forward(toks, DeclState { i: 1, names: seq![], status: Status::Going }, input);
    }
    match read_decls(lex, Ghost(toks), Ghost(input), Ghost(1)) {
        Err(e) => {
            proof {
                assert(source@ =~= old(source)@ + o.out);
            }
            Err(e)
        },
        Ok(names) => {
            push_source_between(lex, source, inp, &t0, Ghost(toks), Ghost(input), Ghost(0), Ghost(d.i));
            proof {
                assert(source@ =~= old(source)@ + o.out);
            }
            Ok(Export::Named(to_same_specs(names)))
        },
    }
}

/// `export function …` and `export class …`, with the name of what they declare.
fn export_declaration<'f, 's>(
    lex: &mut Lexer<'f, 's>,
    source: &mut String,
    inp: &'s str,
    Ghost(toks): Ghost<Seq<TokenView>>,
    Ghost(input): Ghost<Seq<char>>,
) -> (r: Result<Export<'s>, Error>)
    requires
        at(*old(lex), toks, input, 0),
        inp@ == input,
        !kw(toks[0], "default"@),
        !kw(toks[0], "*"@),
        !kw(toks[0], "{"@),
        !(kw(toks[0], "var"@) || kw(toks[0], "const"@) || id_is(toks[0], "let"@)),
        kw(toks[0], "function"@) || kw(toks[0], "class"@),
    ensures
        export_read(r, *final(lex), toks, input, old(source)@, final(source)@),
{
    reveal(declaration_outcome);
    let ghost o = export_outcome(toks, input);
    let t0 = here(lex, Ghost(toks), Ghost(input), Ghost(0));
    let function = is_kw(&t0, "function");
    advance(lex, Ghost(toks), Ghost(input), Ghost(0));
    source.append(t0.ws_before);
    let ghost mut k: int = 1;
    if function {
        let t1 = here(lex, Ghost(toks), Ghost(input), Ghost(1));
        if is_kw(&t1, "*") {
            advance(lex, Ghost(toks), Ghost(input), Ghost(1));
            proof {
                k = 2;
            }
        }
    }
    let tk = here(lex, Ghost(toks), Ghost(input), Ghost(k));
    if tk.kind == TokKind::Id {
        advance(lex, Ghost(toks), Ghost(input), Ghost(k));
        push_source_between(lex, source, inp, &t0, Ghost(toks), Ghost(input), Ghost(0), Ghost(k + 1));
        proof {
            assert(source@ =~= old(source)@ + o.out);
        }
        let mut specs: Vec<ExportSpec<'s>> = Vec::new();
        specs.push(ExportSpec::same(tk.text));
        proof {
            assert(export_specs_view(specs@) =~= seq![ExportSpecView { bind: tk.text@, name: tk.text@ }]);
        }
        return Ok(Export::Named(specs));
    }
    let msg = if function {
        "function name"
    } else {
        "class name"
    };
    let e = expected_here(lex, msg, Ghost(toks), Ghost(input), Ghost(k));
    proof {
        assert(source@ =~= old(source)@ + o.out);
    }
    Err(e)
}

/// Reads the declaration after the keyword `export` (which the lexer has just
/// passed) and writes the text that stands in its place: the whitespace before
/// each token read, and for a declaration its source (from the keyword to the
/// end of its last name, for functions and classes); for `export default`
/// followed by an expression, `const __default = ` in front of it.
pub fn parse_export<'f, 's>(lex: &mut Lexer<'f, 's>, source: &mut String) -> (r: Result<Export<'s>, Error>)
    requires
        lexable(lexer_source(*old(lex))),
        export_names_plain(lexer_tokens(*old(lex)), lexer_source(*old(lex))),
    ensures
        export_read(
            r,
            *final(lex),
            lexer_tokens(*old(lex)),
            lexer_source(*old(lex)),
            old(source)@,
            final(source)@,
        ),
{
    let ghost toks = lexer_tokens(*lex);
    let ghost input = lexer_source(*lex);
    let inp = lexer_input(lex);
    proof {
        assert(toks.skip(0) =~= toks);
    }
    let t0 = here(lex, Ghost(toks), Ghost(input), Ghost(0));
    if is_kw(&t0, "default") {
        export_default(lex, source, Ghost(toks), Ghost(input))
    } else if is_kw(&t0, "*") {
        export_all_from(lex, source, Ghost(toks), Ghost(input))
    } else if is_kw(&t0, "{") {
        export_list(lex, source, Ghost(toks), Ghost(input))
    } else if is_kw(&t0, "var") || is_kw(&t0, "const") || is_id(&t0, "let") {
        export_bindings(lex, source, inp, Ghost(toks), Ghost(input))
    } else if is_kw(&t0, "function") || is_kw(&t0, "class") {
        export_declaration(lex, source, inp, Ghost(toks), Ghost(input))
    } else {
        let e = expected_here(
            lex,
            "keyword 'default' or '*' or '{' or declaration",
            Ghost(toks),
            Ghost(input),
            Ghost(0),
        );
        proof {
            assert(source@ =~= old(source)@ + export_outcome(toks, input).out);
        }
        Err(e)
    }
}

/// The import specifiers of the pairs read from a list.
fn to_import_specs<'s>(items: Vec<(&'s str, &'s str)>) -> (r: Vec<ImportSpec<'s>>)
    ensures
        import_specs_view(r@) == import_items(pairs_view(items@)),
{
    let mut r: Vec<ImportSpec<'s>> = Vec::new();
    let mut i: usize = 0;
    while i < items.len()
        invariant
            i <= items@.len(),
            r@.len() == i,
            forall|k: int|
                0 <= k < i ==> (#[trigger] r@[k])@ == (ImportSpecView {
                    name: items@[k].0@,
                    bind: items@[k].1@,
                }),
        decreases items@.len() - i,
    {
        let (name, bind) = items[i];
        r.push(ImportSpec::new(name, bind));
        i = i + 1;
    }
    proof {
        assert(import_specs_view(r@) =~= import_items(pairs_view(items@)));
    }
    r
}

/// Bindings or their error, by views.
pub open spec fn binds_result_view<'s>(r: Result<Bindings<'s>, Error>) -> Result<BindingsView, ErrorView> {
    match r {
        Ok(b) => Ok(b@),
        Err(e) => Err(e@),
    }
}

/// Reads `* as name` or `{ … }` from index `i`.
fn read_binds<'f, 's>(
    lex: &mut Lexer<'f, 's>,
    source: &mut String,
    msg: &'static str,
    Ghost(toks): Ghost<Seq<TokenView>>,
    Ghost(input): Ghost<Seq<char>>,
    Ghost(i): Ghost<int>,
) -> (r: Result<Bindings<'s>, Error>)
    requires
        at(*old(lex), toks, input, i),
    ensures
        ({
            let b = binds_outcome(toks, i, msg@, input);
            &&& lexer_source(*final(lex)) == input
            &&& binds_result_view(r) == b.res
            &&& final(source)@ == old(source)@ + b.out
            &&& at(*final(lex), toks, input, b.next)
        }),
{
    reveal(binds_outcome);
    let ghost b = binds_outcome(toks, i, msg@, input);
    let t = here(lex, Ghost(toks), Ghost(input), Ghost(i));
    if is_kw(&t, "*") {
        advance(lex, Ghost(toks), Ghost(input), Ghost(i));
        source.append(t.ws_before);
        let u = here(lex, Ghost(toks), Ghost(input), Ghost(i + 1));
        if is_id(&u, "as") {
            advance(lex, Ghost(toks), Ghost(input), Ghost(i + 1));
            source.append(u.ws_before);
            let v = here(lex, Ghost(toks), Ghost(input), Ghost(i + 2));
            if v.kind == TokKind::Id {
                advance(lex, Ghost(toks), Ghost(input), Ghost(i + 2));
                source.append(v.ws_before);
                proof {
                    assert(source@ =~= old(source)@ + b.out);
                }
                return Ok(Bindings::NameSpace(v.text));
            }
            let e = expected_here(lex, "name space binding name", Ghost(toks), Ghost(input), Ghost(i + 2));
            proof {
                assert(source@ =~= old(source)@ + b.out);
            }
            return Err(e);
        }
        let e = expected_here(lex, "keyword 'as'", Ghost(toks), Ghost(input), Ghost(i + 1));
        proof {
            assert(source@ =~= old(source)@ + b.out);
        }
        Err(e)
    } else if is_kw(&t, "{") {
        advance(lex, Ghost(toks), Ghost(input), Ghost(i));
        source.append(t.ws_before);
        let listed = read_list(lex, source, false, Ghost(toks), Ghost(input), Ghost(i + 1));
        proof {
            assert(source@ =~= old(source)@ + b.out);
        }
        match listed {
            Err(e) => Err(e),
            Ok(items) => Ok(Bindings::Named(to_import_specs(items))),
        }
    } else {
        proof {
            assert(source@ =~= old(source)@ + b.out);
        }
        Err(expected_here(lex, msg, Ghost(toks), Ghost(input), Ghost(i)))
    }
}

/// Reads what stands between `import` and `from`.
fn read_import_head<'f, 's>(
    lex: &mut Lexer<'f, 's>,
    source: &mut String,
    Ghost(toks): Ghost<Seq<TokenView>>,
    Ghost(input): Ghost<Seq<char>>,
) -> (r: Result<(Option<&'s str>, Bindings<'s>), Error>)
    requires
        at(*old(lex), toks, input, 0),
    ensures
        ({
            let (d, h) = import_head(toks, input);
            &&& lexer_source(*final(lex)) == input
            &&& final(source)@ == old(source)@ + h.out
            &&& match r {
                Ok((db, b)) => h.res == Ok::<BindingsView, ErrorView>(b@) && opt_view(db) == d
                    && at(*final(lex), toks, input, h.next),
                Err(e) => h.res == Err::<BindingsView, ErrorView>(e@) && at(*final(lex), toks, input, h.next),
            }
        }),
{
    reveal(import_head);
    let t0 = here(lex, Ghost(toks), Ghost(input), Ghost(0));
    if t0.kind == TokKind::Id {
        advance(lex, Ghost(toks), Ghost(input), Ghost(0));
        source.append(t0.ws_before);
        let t1 = here(lex, Ghost(toks), Ghost(input), Ghost(1));
        if is_kw(&t1, ",") {
            advance(lex, Ghost(toks), Ghost(input), Ghost(1));
            source.append(t1.ws_before);
            let b = read_binds(lex, source, "bindings", Ghost(toks), Ghost(input), Ghost(2));
            proof {
                assert(source@ =~= old(source)@ + import_head(toks, input).1.out);
            }
            match b {
                Ok(b) => Ok((Some(t0.text), b)),
                Err(e) => Err(e),
            }
        } else {
            proof {
                assert(source@ =~= old(source)@ + import_head(toks, input).1.out);
            }
            Ok((Some(t0.text), Bindings::Nothing))
        }
    } else {
        match read_binds(
            lex,
            source,
            "module name (string literal) or bindings",
            Ghost(toks),
            Ghost(input),
            Ghost(0),
        ) {
            Ok(b) => Ok((None, b)),
            Err(e) => Err(e),
        }
    }
}

/// An import declaration or its error, by views.
pub open spec fn import_result_view<'s>(r: Result<Import<'s>, Error>) -> Result<ImportView, ErrorView> {
    match r {
        Ok(i) => Ok(i@),
        Err(e) => Err(e@),
    }
}

/// What reading the declaration after `import` from `toks` leaves behind.
pub open spec fn import_read(
    r: Result<Import, Error>,
    lex: Lexer,
    toks: Seq<TokenView>,
    input: Seq<char>,
    before: Seq<char>,
    after: Seq<char>,
) -> bool {
    let o = import_outcome(toks, input);
    &&& lexer_source(lex) == input
    &&& import_result_view(r) == o.res
    &&& after == before + o.out
    &&& read_up_to(lex, toks, o.next)
}

/// Reads the declaration after the keyword `import` (which the lexer has just
/// passed) and writes the whitespace before each token read.
pub fn parse_import<'f, 's>(lex: &mut Lexer<'f, 's>, source: &mut String) -> (r: Result<Import<'s>, Error>)
    requires
        lexable(lexer_source(*old(lex))),
        import_names_plain(lexer_tokens(*old(lex)), lexer_source(*old(lex))),
    ensures
        import_read(
            r,
            *final(lex),
            lexer_tokens(*old(lex)),
            lexer_source(*old(lex)),
            old(source)@,
            final(source)@,
        ),
{
    let ghost toks = lexer_tokens(*lex);
    let ghost input = lexer_source(*lex);
    let ghost o = import_outcome(toks, input);
    let _ = lexer_input(lex);
    proof {
        assert(toks.skip(0) =~= toks);
    }
    let t0 = here(lex, Ghost(toks), Ghost(input), Ghost(0));
    if is_lit(&t0) {
        advance(lex, Ghost(toks), Ghost(input), Ghost(0));
        source.append(t0.ws_before);
        return match literal_value(lex, &t0, Ghost(toks), Ghost(input), Ghost(1)) {
            Ok(m) => Ok(Import::new(t0.text, m)),
            Err(e) => Err(e),
        };
    }
    proof {
        reveal(import_from_outcome);
    }
    let head = read_import_head(lex, source, Ghost(toks), Ghost(input));
    match head {
        Err(e) => Err(e),
        Ok((default_bind, binds)) => read_import_from(
            lex,
            source,
            default_bind,
            binds,
            Ghost(toks),
            Ghost(input),
            Ghost(old(source)@),
        ),
    }
}

/// Reads `from 'module'` after the bindings of an import declaration.
fn read_import_from<'f, 's>(
    lex: &mut Lexer<'f, 's>,
    source: &mut String,
    default_bind: Option<&'s str>,
    binds: Bindings<'s>,
    Ghost(toks): Ghost<Seq<TokenView>>,
    Ghost(input): Ghost<Seq<char>>,
    Ghost(before): Ghost<Seq<char>>,
) -> (r: Result<Import<'s>, Error>)
    requires
        import_names_plain(toks, input),
        !is_str_lit(toks[0]),
        import_head(toks, input).1.res == Ok::<BindingsView, ErrorView>(binds@),
        import_head(toks, input).0 == opt_view(default_bind),
        at(*old(lex), toks, input, import_head(toks, input).1.next),
        old(source)@ == before + import_head(toks, input).1.out,
    ensures
        import_read(r, *final(lex), toks, input, before, final(source)@),
{
    reveal(import_from_outcome);
    let ghost o = import_outcome(toks, input);
    let ghost k = import_head(toks, input).1.next;
    let tk = here(lex, Ghost(toks), Ghost(input), Ghost(k));
    if is_id(&tk, "from") {
        advance(lex, Ghost(toks), Ghost(input), Ghost(k));
        source.append(tk.ws_before);
        let tm = here(lex, Ghost(toks), Ghost(input), Ghost(k + 1));
        if is_lit(&tm) {
            advance(lex, Ghost(toks), Ghost(input), Ghost(k + 1));
            source.append(tm.ws_before);
            proof {
                assert(source@ =~= before + o.out);
                assert(is_str_lit(toks[k + 1]) && id_is(toks[k + 1 - 1], "from"@));
            }
            return match literal_value(lex, &tm, Ghost(toks), Ghost(input), Ghost(k + 2)) {
                Ok(m) => Ok(Import { module_source: tm.text, module: m, default_bind, binds }),
                Err(e) => Err(e),
            };
        }
        let e = expected_here(lex, "module name (string literal)", Ghost(toks), Ghost(input), Ghost(k + 1));
        proof {
            assert(source@ =~= before + o.out);
        }
        return Err(e);
    }
    let e = expected_here(lex, "keyword 'from'", Ghost(toks), Ghost(input), Ghost(k));
    proof {
        assert(source@ =~= before + o.out);
    }
    Err(e)
}

} // verus!
