//! What the rewriting does to a stream of tokens, as spec functions: the
//! outcome of an export declaration, of an import declaration and of a whole
//! module.
use vstd::prelude::*;
use crate::decl::{BindingsView, ExportSpecView, ExportView, ImportSpecView, ImportView};
use crate::error::{ErrorKindView, ErrorView, SpanView, StrLitError};
use crate::lexer::{
    byte_len, has_escape, plain_str_lit, recovered_loc, skip_expr_outcome, skip_expr_stop, str_lit_value_of,
    TokKind, TokenView,
};
use crate::text::byte_slice;

verus! {

/// The keyword or punctuator written `s`.
pub open spec fn kw(t: TokenView, s: Seq<char>) -> bool {
    t.kind == TokKind::Other && t.text == s
}

/// The identifier `s`.
pub open spec fn id_is(t: TokenView, s: Seq<char>) -> bool {
    t.kind == TokKind::Id && t.text == s
}

/// A string literal, single- or double-quoted.
pub open spec fn is_str_lit(t: TokenView) -> bool {
    t.kind == TokKind::StrLitSgl || t.kind == TokKind::StrLitDbl
}

/// An identifier or the keyword `default`.
pub open spec fn binding_name(t: TokenView) -> bool {
    t.kind == TokKind::Id || kw(t, "default"@)
}

/// A token as it stands in the source: the whitespace before it, then its text.
pub open spec fn ws_text(t: TokenView) -> Seq<char> {
    t.ws_before + t.text
}

/// The source from the start of `a` up to the end of the token before `b`.
pub open spec fn source_between(input: Seq<char>, a: TokenView, b: TokenView) -> Seq<char> {
    byte_slice(input, a.start as int, b.start - byte_len(b.ws_before))
}

/// The region of a token, with line and character numbers.
pub open spec fn token_span(t: TokenView, input: Seq<char>) -> SpanView {
    SpanView {
        file_name: t.file_name,
        start: recovered_loc(input, t.start),
        end: recovered_loc(input, t.end),
    }
}

/// The error that `msg` was expected at the token `t`.
pub open spec fn expected(msg: Seq<char>, t: TokenView, input: Seq<char>) -> ErrorView {
    ErrorView { kind: ErrorKindView::Expected(msg), span: token_span(t, input) }
}

/// The error that a string literal has no value, at the token `t`.
pub open spec fn str_lit_error(e: StrLitError, t: TokenView, input: Seq<char>) -> ErrorView {
    ErrorView { kind: ErrorKindView::ParseStrLitError(e), span: token_span(t, input) }
}

/// The value of a string literal given by its source text: the text between
/// its quotation marks when it holds no `\`, else `str_lit_value_of`.
pub open spec fn literal_value_of(s: Seq<char>) -> Result<Seq<char>, StrLitError> {
    if !has_escape(s) {
        Ok(s.subrange(1, s.len() - 1))
    } else {
        str_lit_value_of(s)
    }
}

/// The value of the module name `t`.
pub open spec fn module_value(t: TokenView, input: Seq<char>) -> Result<Seq<char>, ErrorView> {
    match literal_value_of(t.text) {
        Ok(v) => Ok(v),
        Err(e) => Err(str_lit_error(e, t, input)),
    }
}

/// Whether a loop goes on, has ended, or has failed.
pub enum Status {
    Going,
    Done,
    Failed(ErrorView),
}

/// A `{ … }` list of names being read: the index of the next token, the pairs
/// read so far (in source order: `first as second`, or `first` for both), the
/// text written so far.
pub struct ListState {
    pub i: int,
    pub items: Seq<(Seq<char>, Seq<char>)>,
    pub out: Seq<char>,
    pub status: Status,
}

/// The message when the name after `as` is missing.
pub open spec fn msg_after_as(exporting: bool) -> Seq<char> {
    if exporting {
        "export name after keyword 'as'"@
    } else {
        "binding name after keyword 'as'"@
    }
}

/// The message when a list item is missing.
pub open spec fn msg_list_item(exporting: bool) -> Seq<char> {
    if exporting {
        "binding name or '}'"@
    } else {
        "import specifier or '}'"@
    }
}

/// One item of a `{ … }` list. In an export list the name after `as` may be
/// `default`; in an import list it must be an identifier.
pub open spec fn list_step(
    toks: Seq<TokenView>,
    st: ListState,
    exporting: bool,
    input: Seq<char>,
) -> ListState {
    let i = st.i;
    let t = toks[i];
    if binding_name(t) {
        let u = toks[i + 1];
        if id_is(u, "as"@) {
            let v = toks[i + 2];
            if v.kind == TokKind::Id || (exporting && kw(v, "default"@)) {
                let w = toks[i + 3];
                let items = st.items.push((t.text, v.text));
                let out = st.out + t.ws_before + u.ws_before + v.ws_before;
                if kw(w, "}"@) {
                    ListState { i: i + 4, items, out: out + w.ws_before, status: Status::Done }
                } else if kw(w, ","@) {
                    ListState { i: i + 4, items, out: out + w.ws_before, status: Status::Going }
                } else {
                    ListState {
                        i: i + 3,
                        items,
                        out,
                        status: Status::Failed(expected("',' or '}'"@, w, input)),
                    }
                }
            } else {
                ListState {
                    i: i + 2,
                    items: st.items,
                    out: st.out + t.ws_before + u.ws_before,
                    status: Status::Failed(expected(msg_after_as(exporting), v, input)),
                }
            }
        } else if kw(u, "}"@) {
            ListState {
                i: i + 2,
                items: st.items.push((t.text, t.text)),
                out: st.out + t.ws_before + u.ws_before,
                status: Status::Done,
            }
        } else if kw(u, ","@) {
            ListState {
                i: i + 2,
                items: st.items.push((t.text, t.text)),
                out: st.out + t.ws_before + u.ws_before,
                status: Status::Going,
            }
        } else {
            ListState {
                i: i + 1,
                items: st.items,
                out: st.out + t.ws_before,
                status: Status::Failed(expected("',' or '}' or keyword 'as'"@, u, input)),
            }
        }
    } else if kw(t, "}"@) {
        ListState { i: i + 1, items: st.items, out: st.out + t.ws_before, status: Status::Done }
    } else {
        ListState {
            i,
            items: st.items,
            out: st.out,
            status: Status::Failed(expected(msg_list_item(exporting), t, input)),
        }
    }
}

/// A `{ … }` list read to its end.
pub open spec fn list_run(
    toks: Seq<TokenView>,
    st: ListState,
    exporting: bool,
    input: Seq<char>,
) -> ListState
    decreases toks.len() - st.i,
{
    if st.status is Going && 0 <= st.i < toks.len() {
        let next = list_step(toks, st, exporting, input);
        if st.i < next.i <= toks.len() {
            list_run(toks, next, exporting, input)
        } else {
            next
        }
    } else {
        st
    }
}

/// The list read from the token after `{` at index `i`.
pub open spec fn list_from(toks: Seq<TokenView>, i: int, exporting: bool, input: Seq<char>) -> ListState {
    list_run(
        toks,
        ListState { i, items: seq![], out: seq![], status: Status::Going },
        exporting,
        input,
    )
}

/// The names of a `var`, `let` or `const` declaration being read.
pub struct DeclState {
    pub i: int,
    pub names: Seq<Seq<char>>,
    pub status: Status,
}

/// One declared name, with the initialiser after it skipped.
pub open spec fn decl_step(toks: Seq<TokenView>, st: DeclState, input: Seq<char>) -> DeclState {
    let i = st.i;
    let t = toks[i];
    if t.kind == TokKind::Id {
        let names = st.names.push(t.text);
        let u = toks[i + 1];
        if kw(u, "="@) {
            match skip_expr_outcome(toks.skip(i + 2), input) {
                Ok(n) => {
                    let k = i + 2 + n;
                    if kw(toks[k], ","@) {
                        DeclState { i: k + 1, names, status: Status::Going }
                    } else {
                        DeclState { i: k, names, status: Status::Done }
                    }
                },
                Err(e) => DeclState {
                    i: i + 2 + skip_expr_stop(toks.skip(i + 2), input),
                    names,
                    status: Status::Failed(e),
                },
            }
        } else if kw(u, ","@) {
            DeclState { i: i + 2, names, status: Status::Going }
        } else {
            DeclState { i: i + 1, names, status: Status::Done }
        }
    } else {
        DeclState {
            i,
            names: st.names,
            status: Status::Failed(expected("binding name"@, t, input)),
        }
    }
}

/// A declaration read to its last name.
pub open spec fn decl_run(toks: Seq<TokenView>, st: DeclState, input: Seq<char>) -> DeclState
    decreases toks.len() - st.i,
{
    if st.status is Going && 0 <= st.i < toks.len() {
        let next = decl_step(toks, st, input);
        if st.i < next.i <= toks.len() {
            decl_run(toks, next, input)
        } else {
            next
        }
    } else {
        st
    }
}

/// The export specifiers of list items.
pub open spec fn export_items(items: Seq<(Seq<char>, Seq<char>)>) -> Seq<ExportSpecView> {
    items.map_values(|p: (Seq<char>, Seq<char>)| ExportSpecView { bind: p.0, name: p.1 })
}

/// The import specifiers of list items.
pub open spec fn import_items(items: Seq<(Seq<char>, Seq<char>)>) -> Seq<ImportSpecView> {
    items.map_values(|p: (Seq<char>, Seq<char>)| ImportSpecView { name: p.0, bind: p.1 })
}

/// Each name exported under its own name.
pub open spec fn same_names(names: Seq<Seq<char>>) -> Seq<ExportSpecView> {
    names.map_values(|n: Seq<char>| ExportSpecView { bind: n, name: n })
}

/// What reading a declaration gives: the result, the number of tokens read,
/// and the text written for it.
pub struct Outcome<R> {
    pub res: Result<R, ErrorView>,
    pub next: int,
    pub out: Seq<char>,
}

/// `export default` followed by a class, a function or an expression.
#[verifier::opaque]
pub open spec fn default_outcome(toks: Seq<TokenView>, input: Seq<char>) -> Outcome<ExportView> {
    let t0 = toks[0];
    let t1 = toks[1];
    if kw(t1, "class"@) {
        let t2 = toks[2];
        let out = t0.ws_before + ws_text(t1);
        if t2.kind == TokKind::Id {
            Outcome { res: Ok(ExportView::Default(t2.text)), next: 3, out: out + ws_text(t2) }
        } else {
            Outcome { res: Err(expected("class name"@, t2, input)), next: 2, out }
        }
    } else if kw(t1, "function"@) {
        let star = kw(toks[2], "*"@);
        let k: int = if star { 3 } else { 2 };
        let out = t0.ws_before + ws_text(t1) + if star { ws_text(toks[2]) } else { seq![] };
        let tk = toks[k];
        if tk.kind == TokKind::Id {
            Outcome { res: Ok(ExportView::Default(tk.text)), next: k + 1, out: out + ws_text(tk) }
        } else {
            Outcome { res: Err(expected("function name"@, tk, input)), next: k, out }
        }
    } else {
        Outcome {
            res: Ok(ExportView::Default("__default"@)),
            next: 1,
            out: t0.ws_before + "const __default = "@,
        }
    }
}

/// `export * from 'module'`.
#[verifier::opaque]
pub open spec fn all_from_outcome(toks: Seq<TokenView>, input: Seq<char>) -> Outcome<ExportView> {
    let t0 = toks[0];
    let t1 = toks[1];
    if id_is(t1, "from"@) {
        let t2 = toks[2];
        if is_str_lit(t2) {
            Outcome {
                res: match module_value(t2, input) {
                    Ok(m) => Ok(ExportView::AllFrom(m)),
                    Err(e) => Err(e),
                },
                next: 3,
                out: t0.ws_before + t1.ws_before + t2.ws_before,
            }
        } else {
            Outcome {
                res: Err(expected("module name (string literal)"@, t2, input)),
                next: 2,
                out: t0.ws_before + t1.ws_before,
            }
        }
    } else {
        Outcome { res: Err(expected("keyword 'from'"@, t1, input)), next: 1, out: t0.ws_before }
    }
}

/// `export { … }`, possibly followed by `from 'module'`.
#[verifier::opaque]
pub open spec fn export_list_outcome(toks: Seq<TokenView>, input: Seq<char>) -> Outcome<ExportView> {
    let t0 = toks[0];
    let l = list_from(toks, 1, true, input);
    let out = t0.ws_before + l.out;
    match l.status {
        Status::Failed(e) => Outcome { res: Err(e), next: l.i, out },
        _ => {
            let j = l.i;
            let specs = export_items(l.items);
            let tj = toks[j];
            if id_is(tj, "from"@) {
                let tk = toks[j + 1];
                if is_str_lit(tk) {
                    Outcome {
                        res: match module_value(tk, input) {
                            Ok(m) => Ok(ExportView::NamedFrom(specs, m)),
                            Err(e) => Err(e),
                        },
                        next: j + 2,
                        out: out + tj.ws_before + tk.ws_before,
                    }
                } else {
                    Outcome {
                        res: Err(expected("module name (string literal)"@, tk, input)),
                        next: j + 1,
                        out: out + tj.ws_before,
                    }
                }
            } else {
                Outcome { res: Ok(ExportView::Named(specs)), next: j, out }
            }
        },
    }
}

/// `export var …`, `export let …` or `export const …`.
#[verifier::opaque]
pub open spec fn bindings_outcome(toks: Seq<TokenView>, input: Seq<char>) -> Outcome<ExportView> {
    let t0 = toks[0];
    let d = decl_run(toks, DeclState { i: 1, names: seq![], status: Status::Going }, input);
    match d.status {
        Status::Failed(e) => Outcome { res: Err(e), next: d.i, out: t0.ws_before },
        _ => Outcome {
            res: Ok(ExportView::Named(same_names(d.names))),
            next: d.i,
            out: t0.ws_before + source_between(input, t0, toks[d.i]),
        },
    }
}

/// `export function name` (possibly `function*`) or `export class name`.
#[verifier::opaque]
pub open spec fn declaration_outcome(toks: Seq<TokenView>, input: Seq<char>) -> Outcome<ExportView> {
    let t0 = toks[0];
    let function = kw(t0, "function"@);
    let k: int = if function && kw(toks[1], "*"@) { 2 } else { 1 };
    let tk = toks[k];
    if tk.kind == TokKind::Id {
        Outcome {
            res: Ok(ExportView::Named(seq![ExportSpecView { bind: tk.text, name: tk.text }])),
            next: k + 1,
            out: t0.ws_before + source_between(input, t0, toks[k + 1]),
        }
    } else {
        Outcome {
            res: Err(expected(if function { "function name"@ } else { "class name"@ }, tk, input)),
            next: k,
            out: t0.ws_before,
        }
    }
}

/// The declaration after `export`, read from the front of `toks`.
pub open spec fn export_outcome(toks: Seq<TokenView>, input: Seq<char>) -> Outcome<ExportView> {
    let t0 = toks[0];
    if kw(t0, "default"@) {
        default_outcome(toks, input)
    } else if kw(t0, "*"@) {
        all_from_outcome(toks, input)
    } else if kw(t0, "{"@) {
        export_list_outcome(toks, input)
    } else if kw(t0, "var"@) || kw(t0, "const"@) || id_is(t0, "let"@) {
        bindings_outcome(toks, input)
    } else if kw(t0, "function"@) || kw(t0, "class"@) {
        declaration_outcome(toks, input)
    } else {
        Outcome {
            res: Err(expected("keyword 'default' or '*' or '{' or declaration"@, t0, input)),
            next: 0,
            out: seq![],
        }
    }
}

/// The bindings `* as name` or `{ … }` read from index `i`; `msg` names what
/// was expected when neither is there.
#[verifier::opaque]
pub open spec fn binds_outcome(toks: Seq<TokenView>, i: int, msg: Seq<char>, input: Seq<char>) -> Outcome<BindingsView> {
    let t = toks[i];
    if kw(t, "*"@) {
        let u = toks[i + 1];
        if id_is(u, "as"@) {
            let v = toks[i + 2];
            if v.kind == TokKind::Id {
                Outcome {
                    res: Ok(BindingsView::NameSpace(v.text)),
                    next: i + 3,
                    out: t.ws_before + u.ws_before + v.ws_before,
                }
            } else {
                Outcome {
                    res: Err(expected("name space binding name"@, v, input)),
                    next: i + 2,
                    out: t.ws_before + u.ws_before,
                }
            }
        } else {
            Outcome { res: Err(expected("keyword 'as'"@, u, input)), next: i + 1, out: t.ws_before }
        }
    } else if kw(t, "{"@) {
        let l = list_from(toks, i + 1, false, input);
        Outcome {
            res: match l.status {
                Status::Failed(e) => Err(e),
                _ => Ok(BindingsView::Named(import_items(l.items))),
            },
            next: l.i,
            out: t.ws_before + l.out,
        }
    } else {
        Outcome { res: Err(expected(msg, t, input)), next: i, out: seq![] }
    }
}

/// What stands between `import` and `from`: the default binding and the others.
#[verifier::opaque]
pub open spec fn import_head(toks: Seq<TokenView>, input: Seq<char>) -> (Option<Seq<char>>, Outcome<BindingsView>) {
    let t0 = toks[0];
    if t0.kind == TokKind::Id {
        let t1 = toks[1];
        if kw(t1, ","@) {
            let b = binds_outcome(toks, 2, "bindings"@, input);
            (Some(t0.text), Outcome { res: b.res, next: b.next, out: t0.ws_before + t1.ws_before + b.out })
        } else {
            (Some(t0.text), Outcome { res: Ok(BindingsView::Nothing), next: 1, out: t0.ws_before })
        }
    } else {
        (None, binds_outcome(toks, 0, "module name (string literal) or bindings"@, input))
    }
}

/// `import 'module'`.
pub open spec fn bare_import_outcome(toks: Seq<TokenView>, input: Seq<char>) -> Outcome<ImportView> {
    let t0 = toks[0];
    Outcome {
        res: match module_value(t0, input) {
            Ok(m) => Ok(
                ImportView {
                    module_source: t0.text,
                    module: m,
                    default_bind: None,
                    binds: BindingsView::Nothing,
                },
            ),
            Err(e) => Err(e),
        },
        next: 1,
        out: t0.ws_before,
    }
}

/// `import` followed by bindings, `from` and the module name.
#[verifier::opaque]
pub open spec fn import_from_outcome(toks: Seq<TokenView>, input: Seq<char>) -> Outcome<ImportView> {
    let (default_bind, h) = import_head(toks, input);
    match h.res {
        Err(e) => Outcome { res: Err(e), next: h.next, out: h.out },
        Ok(binds) => {
            let k = h.next;
            let tk = toks[k];
            if id_is(tk, "from"@) {
                let tm = toks[k + 1];
                if is_str_lit(tm) {
                    Outcome {
                        res: match module_value(tm, input) {
                            Ok(m) => Ok(
                                ImportView { module_source: tm.text, module: m, default_bind, binds },
                            ),
                            Err(e) => Err(e),
                        },
                        next: k + 2,
                        out: h.out + tk.ws_before + tm.ws_before,
                    }
                } else {
                    Outcome {
                        res: Err(expected("module name (string literal)"@, tm, input)),
                        next: k + 1,
                        out: h.out + tk.ws_before,
                    }
                }
            } else {
                Outcome { res: Err(expected("keyword 'from'"@, tk, input)), next: k, out: h.out }
            }
        },
    }
}

/// The declaration after `import`, read from the front of `toks`.
pub open spec fn import_outcome(toks: Seq<TokenView>, input: Seq<char>) -> Outcome<ImportView> {
    if is_str_lit(toks[0]) {
        bare_import_outcome(toks, input)
    } else {
        import_from_outcome(toks, input)
    }
}

/// The module name that the declaration after `export` reads (after `from`,
/// in `export * from …` and `export { … } from …`), if it is a string literal,
/// is one whose value `str_lit_value` computes.
pub open spec fn export_names_plain(toks: Seq<TokenView>, input: Seq<char>) -> bool {
    &&& (2 < toks.len() && kw(toks[0], "*"@) && id_is(toks[1], "from"@) && is_str_lit(toks[2]))
        ==> plain_str_lit(toks[2].text)
    &&& (0 < toks.len() && kw(toks[0], "{"@)) ==> {
        let l = list_from(toks, 1, true, input);
        (!(l.status is Failed) && 0 <= l.i && l.i + 1 < toks.len() && id_is(toks[l.i], "from"@)
            && is_str_lit(toks[l.i + 1])) ==> plain_str_lit(toks[l.i + 1].text)
    }
}

/// The module name that the declaration after `import` reads (right after
/// `import`, or after the bindings and `from`), if it is a string literal, is
/// one whose value `str_lit_value` computes.
pub open spec fn import_names_plain(toks: Seq<TokenView>, input: Seq<char>) -> bool {
    if toks.len() == 0 {
        true
    } else if is_str_lit(toks[0]) {
        plain_str_lit(toks[0].text)
    } else {
        let h = import_head(toks, input).1;
        (h.res is Ok && 0 <= h.next && h.next + 1 < toks.len() && id_is(toks[h.next], "from"@)
            && is_str_lit(toks[h.next + 1])) ==> plain_str_lit(toks[h.next + 1].text)
    }
}

} // verus!
