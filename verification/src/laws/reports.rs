//! All that is remarked about a file.

use vstd::prelude::*;

use crate::laws::remarks::law_within;
use crate::spec::bindings as sg;
use crate::spec::calls as sca;
use crate::spec::checks as sy;
use crate::spec::model as sm;
use crate::spec::model::{Diagnostic, GenericBinding, ImportStmt, ParsedFile, ResolvedInclude,
    Scope};
use crate::spec::modules as sx;
use crate::spec::modules::Index;
use crate::spec::names as sn;
use crate::spec::path as sh;
use crate::spec::resolve::Ref;
use crate::spec::text as st;
use crate::spec::text::Text;
use crate::spec::workspace as sw;
use crate::spec::workspace::Workspace;

verus! {

type List = Seq<Diagnostic>;

proof fn lemma_kept(out: List, x: Diagnostic, d: Diagnostic)
    requires
        out.contains(d),
    ensures
        out.push(x).contains(d),
{
    let k = choose|k: int| 0 <= k < out.len() && out[k] == d;
    assert(out.push(x)[k] == d);
}

proof fn lemma_added(out: List, x: Diagnostic)
    ensures
        out.push(x).contains(x),
{
    assert(out.push(x)[out.len() as int] == x);
}

proof fn lemma_with(out: List, x: Option<Diagnostic>, d: Diagnostic)
    ensures
        out.contains(d) ==> sy::with_diagnostic(out, x).contains(d),
        x == Some(d) ==> sy::with_diagnostic(out, x).contains(d),
{
    if let Some(one) = x {
        if out.contains(d) {
            lemma_kept(out, one, d);
        }
        lemma_added(out, one);
    }
}

proof fn lemma_lengths_keep(
    lines: Seq<Text>,
    fixed: bool,
    a: Option<usize>,
    b: Option<usize>,
    i: int,
    out: List,
    d: Diagnostic,
)
    ensures
        out.contains(d) ==> sy::lengths_from(lines, fixed, a, b, i, out).contains(d),
    decreases lines.len() - i,
{
    if i < lines.len() {
        let comment = sy::is_comment_line(lines[i], fixed);
        let x = sy::length_diagnostic(
            lines[i],
            i as usize,
            comment,
            if comment {
                b
            } else {
                a
            },
        );
        lemma_with(out, x, d);
        lemma_lengths_keep(lines, fixed, a, b, i + 1, sy::with_diagnostic(out, x), d);
    }
}

proof fn lemma_unresolved_keep(list: Seq<ResolvedInclude>, i: int, out: List, d: Diagnostic)
    ensures
        out.contains(d) ==> sw::unresolved_from(list, i, out).contains(d),
        0 <= i ==> forall|k: int|
            i <= k < list.len() && (#[trigger] list[k]).resolved_path is None && !sw::is_external(
                list[k].include_stmt.path,
            ) && d == sw::unresolved_file(list[k].include_stmt) ==> sw::unresolved_from(
                list,
                i,
                out,
            ).contains(d),
    decreases list.len() - i,
{
    if i < list.len() {
        let hit = list[i].resolved_path is None && !sw::is_external(list[i].include_stmt.path);
        let one = sw::unresolved_file(list[i].include_stmt);
        let next = if hit {
            out.push(one)
        } else {
            out
        };
        if out.contains(d) && hit {
            lemma_kept(out, one, d);
        }
        lemma_added(out, one);
        lemma_unresolved_keep(list, i + 1, next, d);
    }
}

proof fn lemma_missing_keep(
    index: Index,
    u: sm::UseStmt,
    items: Seq<(Text, Text)>,
    i: int,
    out: List,
    d: Diagnostic,
)
    ensures
        out.contains(d) ==> sy::missing_from(index, u, items, i, out).contains(d),
    decreases items.len() - i,
{
    if i < items.len() {
        let one = sy::missing_export(u, items[i]);
        if out.contains(d) {
            lemma_kept(out, one, d);
        }
        lemma_missing_keep(index, u, items, i + 1, out, d);
        lemma_missing_keep(index, u, items, i + 1, out.push(one), d);
    }
}

proof fn lemma_use_keep(index: Index, p: ParsedFile, u: sm::UseStmt, out: List, d: Diagnostic)
    ensures
        out.contains(d) ==> sy::use_diagnostics(index, p, u, out).contains(d),
{
    if out.contains(d) {
        let one = sy::unresolved_module(u);
        lemma_kept(out, one, d);
        lemma_missing_keep(index, u, sy::named_items(u), 0, out, d);
        lemma_kept(sy::missing_from(index, u, sy::named_items(u), 0, out), one, d);
    }
}

proof fn lemma_uses_keep(index: Index, p: ParsedFile, i: int, out: List, d: Diagnostic)
    ensures
        out.contains(d) ==> sy::uses_from(index, p, i, out).contains(d),
    decreases p.uses.len() - i,
{
    if i < p.uses.len() {
        lemma_use_keep(index, p, p.uses[i], out, d);
        lemma_uses_keep(index, p, i + 1, sy::use_diagnostics(index, p, p.uses[i], out), d);
    }
}

/// A module that cannot be found is remarked on among the `use` statements.
proof fn lemma_uses_report(index: Index, p: ParsedFile, i: int, k: int, out: List)
    requires
        0 <= i <= k < p.uses.len(),
        !sx::is_resolved(index, p.uses[k]),
    ensures
        sy::uses_from(index, p, i, out).contains(sy::unresolved_module(p.uses[k])),
    decreases k - i,
{
    let next = sy::use_diagnostics(index, p, p.uses[i], out);
    if i < k {
        lemma_uses_report(index, p, i + 1, k, next);
    } else {
        let d = sy::unresolved_module(p.uses[k]);
        lemma_added(out, d);
        lemma_uses_keep(index, p, i + 1, next, d);
    }
}

proof fn lemma_import_keep(
    ws: Workspace,
    f: int,
    m: ImportStmt,
    host: Scope,
    j: int,
    out: List,
    d: Diagnostic,
)
    ensures
        out.contains(d) ==> sn::import_from(ws, f, m, host, j, out).contains(d),
    decreases m.names.len() - j,
{
    if j < m.names.len() {
        let one = sn::unknown_import(m, m.names[j]);
        if out.contains(d) {
            lemma_kept(out, one, d);
        }
        lemma_import_keep(ws, f, m, host, j + 1, out, d);
        lemma_import_keep(ws, f, m, host, j + 1, out.push(one), d);
    }
}

proof fn lemma_imports_keep(ws: Workspace, f: int, i: int, out: List, d: Diagnostic)
    ensures
        out.contains(d) ==> sn::imports_from(ws, f, i, out).contains(d),
    decreases ws.index.files[f].imports.len() - i,
{
    let p = ws.index.files[f];
    if i < p.imports.len() {
        let m = p.imports[i];
        let host = m.scope.take(sn::host_level(p.symbols, m.scope, m.scope.len() as int));
        lemma_import_keep(ws, f, m, host, 0, out, d);
        lemma_imports_keep(ws, f, i + 1, out, d);
        lemma_imports_keep(ws, f, i + 1, sn::import_from(ws, f, m, host, 0, out), d);
    }
}

/// Whether a remark is one of those about a single symbol.
pub open spec fn is_about_symbol(ws: Workspace, f: int, i: int, d: Diagnostic) -> bool {
    ||| sn::kind_diagnostic(ws, f, i) == Some(d)
    ||| sn::type_diagnostic(ws, f, i) == Some(d)
    ||| sn::procedure_diagnostic(ws, f, i) == Some(d)
    ||| sn::link_diagnostic(ws, f, i) == Some(d)
    ||| sn::result_diagnostic(ws.index.files[f], i) == Some(d)
    ||| sn::constant_diagnostic(ws, f, i) == Some(d)
    ||| sn::submodule_diagnostic(ws, f, i) == Some(d)
    ||| sn::argument_diagnostic(ws, f, i) == Some(d)
    ||| sn::twice_diagnostic(ws.index.files[f].symbols[i]) == Some(d)
}

proof fn lemma_symbol_report(ws: Workspace, f: int, i: int, out: List, d: Diagnostic)
    ensures
        out.contains(d) || is_about_symbol(ws, f, i, d) ==> sn::symbol_diagnostics(
            ws,
            f,
            i,
            out,
        ).contains(d),
{
    let p = ws.index.files[f];
    let a = sy::with_diagnostic(out, sn::kind_diagnostic(ws, f, i));
    lemma_with(out, sn::kind_diagnostic(ws, f, i), d);
    let b = sy::with_diagnostic(a, sn::type_diagnostic(ws, f, i));
    lemma_with(a, sn::type_diagnostic(ws, f, i), d);
    let c = sy::with_diagnostic(b, sn::procedure_diagnostic(ws, f, i));
    lemma_with(b, sn::procedure_diagnostic(ws, f, i), d);
    let e = sy::with_diagnostic(c, sn::link_diagnostic(ws, f, i));
    lemma_with(c, sn::link_diagnostic(ws, f, i), d);
    let g = sy::with_diagnostic(e, sn::result_diagnostic(p, i));
    lemma_with(e, sn::result_diagnostic(p, i), d);
    let h = sy::with_diagnostic(g, sn::constant_diagnostic(ws, f, i));
    lemma_with(g, sn::constant_diagnostic(ws, f, i), d);
    let j = sy::with_diagnostic(h, sn::submodule_diagnostic(ws, f, i));
    lemma_with(h, sn::submodule_diagnostic(ws, f, i), d);
    let k = sy::with_diagnostic(j, sn::argument_diagnostic(ws, f, i));
    lemma_with(j, sn::argument_diagnostic(ws, f, i), d);
    lemma_with(k, sn::twice_diagnostic(p.symbols[i]), d);
}

proof fn lemma_symbols_report(ws: Workspace, f: int, i: int, out: List, d: Diagnostic)
    requires
        0 <= i,
    ensures
        out.contains(d) ==> sn::symbols_from(ws, f, i, out).contains(d),
        forall|k: int|
            i <= k < ws.index.files[f].symbols.len() && #[trigger] is_about_symbol(ws, f, k, d)
                ==> sn::symbols_from(ws, f, i, out).contains(d),
    decreases ws.index.files[f].symbols.len() - i,
{
    if i < ws.index.files[f].symbols.len() {
        lemma_symbol_report(ws, f, i, out, d);
        lemma_symbols_report(ws, f, i + 1, sn::symbol_diagnostics(ws, f, i, out), d);
    }
}

proof fn lemma_deferred_keep(
    ws: Workspace,
    types: Seq<Ref>,
    j: int,
    k: int,
    out: List,
    d: Diagnostic,
)
    ensures
        out.contains(d) ==> sg::deferred_from(ws, types, j, k, out).contains(d),
    decreases ws.index.files[types[j].0].symbols.len() - k,
{
    let symbols = ws.index.files[types[j].0].symbols;
    if k < symbols.len() {
        let one = sg::unimplemented(
            sg::symbol(ws, types[0]),
            sg::symbol(ws, types[j]),
            symbols[k],
            types[1].0 == types[0].0,
        );
        if out.contains(d) {
            lemma_kept(out, one, d);
        }
        lemma_deferred_keep(ws, types, j, k + 1, out, d);
        lemma_deferred_keep(ws, types, j, k + 1, out.push(one), d);
    }
}

proof fn lemma_inherited_keep(ws: Workspace, types: Seq<Ref>, j: int, out: List, d: Diagnostic)
    ensures
        out.contains(d) ==> sg::inherited_from(ws, types, j, out).contains(d),
    decreases types.len() - j,
{
    if j < types.len() {
        lemma_deferred_keep(ws, types, j, 0, out, d);
        lemma_inherited_keep(ws, types, j + 1, sg::deferred_from(ws, types, j, 0, out), d);
    }
}

proof fn lemma_methods_report(ws: Workspace, f: int, i: int, out: List, d: Diagnostic)
    requires
        0 <= i,
    ensures
        out.contains(d) ==> sg::methods_from(ws, f, i, out).contains(d),
        forall|k: int|
            i <= k < ws.index.files[f].symbols.len() && #[trigger] sg::method_diagnostic(ws, f, k)
                == Some(d) ==> sg::methods_from(ws, f, i, out).contains(d),
    decreases ws.index.files[f].symbols.len() - i,
{
    if i < ws.index.files[f].symbols.len() {
        let x = sg::method_diagnostic(ws, f, i);
        let a = sy::with_diagnostic(out, x);
        lemma_with(out, x, d);
        lemma_inherited_keep(ws, sg::chain(ws, (f, i)), 1, a, d);
        lemma_methods_report(ws, f, i + 1, sg::deferred_diagnostics(ws, f, i, a), d);
    }
}

proof fn lemma_binding_keep(
    ws: Workspace,
    types: Seq<Ref>,
    b: GenericBinding,
    j: int,
    out: List,
    d: Diagnostic,
)
    ensures
        out.contains(d) ==> sg::binding_from(ws, types, b, j, out).contains(d),
    decreases b.procedures.len() - j,
{
    if j < b.procedures.len() {
        let one = sg::unknown_binding(b, b.procedures[j]);
        if out.contains(d) {
            lemma_kept(out, one, d);
        }
        lemma_binding_keep(ws, types, b, j + 1, out, d);
        lemma_binding_keep(ws, types, b, j + 1, out.push(one), d);
    }
}

proof fn lemma_generics_keep(ws: Workspace, f: int, i: int, out: List, d: Diagnostic)
    ensures
        out.contains(d) ==> sg::generics_from(ws, f, i, out).contains(d),
    decreases ws.index.files[f].generic_bindings.len() - i,
{
    let list = ws.index.files[f].generic_bindings;
    if i < list.len() {
        let b = list[i];
        if b.scope.len() > 0 {
            if let Some(t) = sg::type_from(
                ws.index.files[f].symbols,
                b.scope.drop_last(),
                b.scope.last(),
                0,
            ) {
                lemma_binding_keep(ws, sg::chain(ws, (f, t)), b, 0, out, d);
            }
        }
        lemma_generics_keep(ws, f, i + 1, sg::binding_diagnostics(ws, f, b, out), d);
    }
}

/// What is remarked about a file holds the remarks of the parser on its lines,
/// those on lines that are too long, on files that are not found, on modules that
/// are not found, on single symbols and on bindings.
pub proof fn law_all_remarks(ws: Workspace, path: Text, f: int, d: Diagnostic)
    requires
        sw::find_file(ws, path) == Some(f),
    ensures
        ({
            let p = ws.index.files[f];
            let lines = st::lines(p.source);
            let all = sw::diagnostics(ws, path);
            &&& p.diagnostics.contains(d) && d.range.start.line < lines.len() ==> all.contains(d)
            &&& sy::lengths_from(
                lines,
                sh::is_fixed_form_path(p.path),
                ws.max_line_length,
                ws.max_comment_line_length,
                0,
                sy::within_from(p.diagnostics, lines.len(), 0, Seq::empty()),
            ).contains(d) ==> all.contains(d)
            &&& forall|k: int|
                0 <= k < p.includes.len() && (#[trigger] sw::resolved(
                    ws,
                    p,
                    k,
                )).resolved_path is None && !sw::is_external(p.includes[k].path) && d
                    == sw::unresolved_file(p.includes[k]) ==> all.contains(d)
            &&& forall|k: int|
                0 <= k < p.uses.len() && !sx::is_resolved(
                    ws.index,
                    #[trigger] p.uses[k],
                ) && d == sy::unresolved_module(p.uses[k]) ==> all.contains(d)
            &&& forall|k: int|
                0 <= k < p.symbols.len() && #[trigger] is_about_symbol(ws, f, k, d)
                    ==> all.contains(d)
            &&& forall|k: int|
                0 <= k < p.symbols.len() && #[trigger] sg::method_diagnostic(ws, f, k) == Some(d)
                    ==> all.contains(d)
        }),
{
    let p = ws.index.files[f];
    let lines = st::lines(p.source);
    let fixed = sh::is_fixed_form_path(p.path);
    let parsed = sy::within_from(p.diagnostics, lines.len(), 0, Seq::empty());
    law_within(p.diagnostics, lines.len(), d);
    let a = sy::lengths_from(
        lines,
        fixed,
        ws.max_line_length,
        ws.max_comment_line_length,
        0,
        parsed,
    );
    lemma_lengths_keep(
        lines,
        fixed,
        ws.max_line_length,
        ws.max_comment_line_length,
        0,
        parsed,
        d,
    );
    let list = sw::resolved_of(ws, p);
    let b = sw::unresolved_from(list, 0, a);
    lemma_unresolved_keep(list, 0, a, d);
    let c = sy::uses_from(ws.index, p, 0, b);
    lemma_uses_keep(ws.index, p, 0, b, d);
    let e = sn::imports_from(ws, f, 0, c);
    lemma_imports_keep(ws, f, 0, c, d);
    let g = sn::symbols_from(ws, f, 0, e);
    lemma_symbols_report(ws, f, 0, e, d);
    let h = sg::methods_from(ws, f, 0, g);
    lemma_methods_report(ws, f, 0, g, d);
    let i = sg::generics_from(ws, f, 0, h);
    lemma_generics_keep(ws, f, 0, h, d);
    lemma_calls_keep(ws, f, lines, fixed, 0, i, d);
    assert forall|k: int|
        0 <= k < p.includes.len() && (#[trigger] sw::resolved(ws, p, k)).resolved_path is None
            && !sw::is_external(p.includes[k].path) && d == sw::unresolved_file(
            p.includes[k],
        ) implies b.contains(d) by {
        assert(list[k].resolved_path is None);
    }
    assert forall|k: int|
        0 <= k < p.uses.len() && !sx::is_resolved(
            ws.index,
            #[trigger] p.uses[k],
        ) && d == sy::unresolved_module(p.uses[k]) implies c.contains(d) by {
        lemma_uses_report(ws.index, p, 0, k, b);
    }
}

proof fn lemma_line_keep(
    ws: Workspace,
    f: int,
    line: Text,
    number: usize,
    calls: Seq<sca::Call>,
    j: int,
    out: List,
    d: Diagnostic,
)
    ensures
        out.contains(d) ==> sca::line_from(ws, f, line, number, calls, j, out).contains(d),
    decreases calls.len() - j,
{
    if j < calls.len() {
        let x = sca::call_diagnostic(ws, f, line, number, calls[j]);
        lemma_with(out, x, d);
        lemma_line_keep(ws, f, line, number, calls, j + 1, sy::with_diagnostic(out, x), d);
    }
}

proof fn lemma_calls_keep(
    ws: Workspace,
    f: int,
    lines: Seq<Text>,
    fixed: bool,
    n: int,
    out: List,
    d: Diagnostic,
)
    ensures
        out.contains(d) ==> sca::lines_from(ws, f, lines, fixed, n, out).contains(d),
    decreases lines.len() - n,
{
    if n < lines.len() {
        let calls = sca::calls_on(ws, f, lines, fixed, n);
        lemma_line_keep(ws, f, lines[n], n as usize, calls, 0, out, d);
        lemma_calls_keep(
            ws,
            f,
            lines,
            fixed,
            n + 1,
            sca::line_from(ws, f, lines[n], n as usize, calls, 0, out),
            d,
        );
    }
}

} // verus!
