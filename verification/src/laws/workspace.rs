//! Workspaces.

use vstd::prelude::*;

use crate::laws::parsing::law_path_and_source;
use crate::spec::model::{ParsedFile, Symbol};
use crate::spec::modules as sx;
use crate::spec::path as sh;
use crate::spec::text::Text;
use crate::spec::workspace as sw;
use crate::spec::workspace::Workspace;

verus! {

/// Whether no two files have the same path.
pub open spec fn distinct_paths(ws: Workspace) -> bool {
    forall|i: int, j: int|
        0 <= i < j < ws.index.files.len() ==> !sh::same_path(
            (#[trigger] ws.index.files[i]).path,
            (#[trigger] ws.index.files[j]).path,
        )
}

/// The file with a path.
pub open spec fn file_of(ws: Workspace, path: Text) -> Option<ParsedFile> {
    match sw::find_file(ws, path) {
        Some(k) => Some(ws.index.files[k]),
        None => None,
    }
}

proof fn lemma_found(files: Seq<ParsedFile>, path: Text, i: int)
    requires
        0 <= i,
    ensures
        match sw::file_from(files, path, i) {
            Some(k) => i <= k < files.len() && sh::same_path(files[k].path, path) && forall|j: int|
                i <= j < k ==> !sh::same_path((#[trigger] files[j]).path, path),
            None => forall|j: int| i <= j < files.len() ==> !sh::same_path(
                (#[trigger] files[j]).path,
                path,
            ),
        },
    decreases files.len() - i,
{
    if i < files.len() && !sh::same_path(files[i].path, path) {
        lemma_found(files, path, i + 1);
    }
}

/// A file is found however its path is written.
pub proof fn law_same_path(ws: Workspace, a: Text, b: Text)
    requires
        sh::same_path(a, b),
    ensures
        sw::find_file(ws, a) == sw::find_file(ws, b),
        file_of(ws, a) == file_of(ws, b),
{
    lemma_found(ws.index.files, a, 0);
    lemma_found(ws.index.files, b, 0);
}

/// The file that is found is the first one with its path.
proof fn lemma_is_found(files: Seq<ParsedFile>, path: Text, k: int)
    requires
        0 <= k < files.len(),
        sh::same_path(files[k].path, path),
        forall|j: int| 0 <= j < k ==> !sh::same_path((#[trigger] files[j]).path, path),
    ensures
        sw::file_from(files, path, 0) == Some(k),
{
    lemma_found(files, path, 0);
}

/// A file that is put into a workspace is there; the others stay as they are.
pub proof fn law_upsert_parsed(ws: Workspace, p: ParsedFile, other: Text)
    ensures
        file_of(sw::upsert_parsed(ws, p), p.path) == Some(p),
        !sh::same_path(other, p.path) ==> file_of(sw::upsert_parsed(ws, p), other)
            == file_of(ws, other),
        distinct_paths(ws) ==> distinct_paths(sw::upsert_parsed(ws, p)),
{
    let files = ws.index.files;
    let after = sw::upsert_parsed(ws, p);
    lemma_found(files, p.path, 0);
    match sw::file_from(files, p.path, 0) {
        Some(k) => {
            assert forall|j: int| 0 <= j < k implies !sh::same_path(
                (#[trigger] after.index.files[j]).path,
                p.path,
            ) by {
                assert(!sh::same_path(files[j].path, p.path));
            }
            lemma_is_found(after.index.files, p.path, k);
        },
        None => {
            let k = files.len() as int;
            assert forall|j: int| 0 <= j < k implies !sh::same_path(
                (#[trigger] after.index.files[j]).path,
                p.path,
            ) by {
                assert(!sh::same_path(files[j].path, p.path));
            }
            lemma_is_found(after.index.files, p.path, k);
        },
    }
    if !sh::same_path(other, p.path) {
        lemma_found(files, other, 0);
        lemma_found(after.index.files, other, 0);
        match sw::file_from(files, other, 0) {
            Some(k) => {
                assert(sh::same_path(after.index.files[k].path, other));
                assert forall|j: int| 0 <= j < k implies !sh::same_path(
                    (#[trigger] after.index.files[j]).path,
                    other,
                ) by {
                    assert(!sh::same_path(files[j].path, other));
                }
                lemma_is_found(after.index.files, other, k);
            },
            None => {
                assert forall|j: int| 0 <= j < after.index.files.len() implies !sh::same_path(
                    (#[trigger] after.index.files[j]).path,
                    other,
                ) by {
                    if j < files.len() {
                        assert(!sh::same_path(files[j].path, other));
                    }
                }
            },
        }
    }
    if distinct_paths(ws) {
        assert forall|i: int, j: int| 0 <= i < j < after.index.files.len() implies !sh::same_path(
            (#[trigger] after.index.files[i]).path,
            (#[trigger] after.index.files[j]).path,
        ) by {
            if j < files.len() {
                assert(!sh::same_path(files[i].path, files[j].path));
            } else {
                assert(!sh::same_path(files[i].path, p.path));
            }
        }
    }
}

/// After a file was put into a workspace, it is there with that source, and
/// putting it there once more changes nothing. The other files stay as they
/// are.
pub proof fn law_upsert_file(ws: Workspace, path: Text, source: Text, other: Text)
    ensures
        file_of(sw::upsert_file(ws, path, source), path) matches Some(p) && p.source == source,
        sw::is_unchanged(sw::upsert_file(ws, path, source), path, source),
        sw::upsert_file(sw::upsert_file(ws, path, source), path, source) == sw::upsert_file(
            ws,
            path,
            source,
        ),
        !sh::same_path(other, path) ==> file_of(sw::upsert_file(ws, path, source), other)
            == file_of(ws, other),
        distinct_paths(ws) ==> distinct_paths(sw::upsert_file(ws, path, source)),
{
    if !sw::is_unchanged(ws, path, source) {
        law_path_and_source(path, source, ws.macros, ws.sources);
        law_upsert_parsed(ws, sw::parse(ws, path, source), other);
    }
}

/// Files that were read elsewhere and are put in one by one make the same
/// workspace as files that it reads itself.
pub proof fn law_bulk(ws: Workspace, path: Text, source: Text)
    requires
        !sw::is_unchanged(ws, path, source),
    ensures
        sw::upsert_parsed(
            ws,
            crate::spec::parser::parse_with_files(path, source, ws.macros, ws.sources),
        ) == sw::upsert_file(ws, path, source),
{
}

/// A file that was taken out is gone; the others stay as they are.
pub proof fn law_remove_file(ws: Workspace, path: Text, other: Text)
    requires
        distinct_paths(ws),
    ensures
        file_of(sw::remove_file(ws, path), path) is None,
        !sh::same_path(other, path) ==> file_of(sw::remove_file(ws, path), other)
            == file_of(ws, other),
        distinct_paths(sw::remove_file(ws, path)),
{
    let files = ws.index.files;
    let after = sw::remove_file(ws, path).index.files;
    lemma_found(files, path, 0);
    lemma_found(after, path, 0);
    lemma_found(files, other, 0);
    lemma_found(after, other, 0);
    if let Some(k) = sw::file_from(files, path, 0) {
        assert forall|j: int| 0 <= j < after.len() implies !sh::same_path(
            (#[trigger] after[j]).path,
            path,
        ) by {
            if j < k {
                assert(after[j] == files[j]);
            } else {
                assert(after[j] == files[j + 1]);
                assert(!sh::same_path(files[k].path, files[j + 1].path));
            }
        }
        assert forall|i: int, j: int| 0 <= i < j < after.len() implies !sh::same_path(
            (#[trigger] after[i]).path,
            (#[trigger] after[j]).path,
        ) by {
            let a = if i < k {
                i
            } else {
                i + 1
            };
            let b = if j < k {
                j
            } else {
                j + 1
            };
            assert(after[i] == files[a]);
            assert(after[j] == files[b]);
            assert(!sh::same_path(files[a].path, files[b].path));
        }
        if !sh::same_path(other, path) {
            match sw::file_from(files, other, 0) {
                Some(m) => {
                    let w = if m < k {
                        m
                    } else {
                        m - 1
                    };
                    assert(after[w] == files[m]);
                    assert forall|j: int| 0 <= j < w implies !sh::same_path(
                        (#[trigger] after[j]).path,
                        other,
                    ) by {
                        let a = if j < k {
                            j
                        } else {
                            j + 1
                        };
                        assert(after[j] == files[a]);
                        assert(!sh::same_path(files[a].path, other));
                    }
                    lemma_is_found(after, other, w);
                },
                None => {
                    assert forall|j: int| 0 <= j < after.len() implies !sh::same_path(
                        (#[trigger] after[j]).path,
                        other,
                    ) by {
                        let a = if j < k {
                            j
                        } else {
                            j + 1
                        };
                        assert(after[j] == files[a]);
                        assert(!sh::same_path(files[a].path, other));
                    }
                },
            }
        }
    }
}

/// A new file that is put into a workspace and taken out again leaves it as it
/// was.
pub proof fn law_upsert_remove(ws: Workspace, path: Text, source: Text)
    requires
        file_of(ws, path) is None,
    ensures
        sw::remove_file(sw::upsert_file(ws, path, source), path) == ws,
{
    let files = ws.index.files;
    let p = sw::parse(ws, path, source);
    law_path_and_source(path, source, ws.macros, ws.sources);
    lemma_found(files, path, 0);
    let after = sw::upsert_file(ws, path, source);
    let k = files.len() as int;
    assert forall|j: int| 0 <= j < k implies !sh::same_path(
        (#[trigger] after.index.files[j]).path,
        path,
    ) by {
        assert(!sh::same_path(files[j].path, path));
    }
    lemma_is_found(after.index.files, path, k);
    assert(after.index.files.remove(k) =~= files);
}

/// Reading all files again with the same settings changes nothing more.
pub proof fn law_reparse(ws: Workspace)
    ensures
        sw::reparsed(sw::reparsed(ws)) == sw::reparsed(ws),
{
    let once = sw::reparsed(ws);
    let twice = sw::reparsed(once);
    assert forall|i: int| 0 <= i < ws.index.files.len() implies #[trigger] twice.index.files[i]
        == once.index.files[i] by {
        law_path_and_source(
            ws.index.files[i].path,
            ws.index.files[i].source,
            ws.macros,
            ws.sources,
        );
    }
    assert(twice.index.files =~= once.index.files);
}

/// Whether every file is what its source stands for with the settings of the
/// workspace.
pub open spec fn is_current(ws: Workspace) -> bool {
    forall|i: int|
        0 <= i < ws.index.files.len() ==> #[trigger] ws.index.files[i] == sw::parse(
            ws,
            ws.index.files[i].path,
            ws.index.files[i].source,
        )
}

proof fn lemma_reparsed_current(ws: Workspace)
    ensures
        is_current(sw::reparsed(ws)),
        is_current(ws) ==> sw::reparsed(ws) == ws,
{
    let all = sw::reparsed(ws);
    assert forall|i: int| 0 <= i < all.index.files.len() implies #[trigger] all.index.files[i]
        == sw::parse(all, all.index.files[i].path, all.index.files[i].source) by {
        law_path_and_source(
            ws.index.files[i].path,
            ws.index.files[i].source,
            ws.macros,
            ws.sources,
        );
    }
    if is_current(ws) {
        assert(all.index.files =~= ws.index.files);
    }
}

proof fn lemma_upsert_current(ws: Workspace, path: Text, source: Text)
    requires
        is_current(ws),
    ensures
        is_current(sw::upsert_file(ws, path, source)),
{
    let p = sw::parse(ws, path, source);
    let more = sw::upsert_file(ws, path, source);
    law_path_and_source(path, source, ws.macros, ws.sources);
    lemma_found(ws.index.files, path, 0);
    assert forall|i: int| 0 <= i < more.index.files.len() implies #[trigger] more.index.files[i]
        == sw::parse(more, more.index.files[i].path, more.index.files[i].source) by {
        if more.index.files[i] != p {
            assert(more.index.files[i] == ws.index.files[i]);
        }
    }
}

proof fn lemma_remove_current(ws: Workspace, path: Text)
    requires
        is_current(ws),
    ensures
        is_current(sw::remove_file(ws, path)),
{
    let less = sw::remove_file(ws, path);
    lemma_found(ws.index.files, path, 0);
    assert forall|i: int| 0 <= i < less.index.files.len() implies #[trigger] less.index.files[i]
        == sw::parse(less, less.index.files[i].path, less.index.files[i].source) by {
        match sw::file_from(ws.index.files, path, 0) {
            Some(k) => {
                let a = if i < k {
                    i
                } else {
                    i + 1
                };
                assert(less.index.files[i] == ws.index.files[a]);
            },
            None => {
                assert(less.index.files[i] == ws.index.files[i]);
            },
        }
    }
}

/// What a workspace knows of its files is never stale: putting in a file,
/// taking one out and new settings keep every file at what its source stands
/// for.
pub proof fn law_current(ws: Workspace, path: Text, source: Text)
    ensures
        is_current(sw::reparsed(ws)),
        is_current(ws) ==> is_current(sw::upsert_file(ws, path, source)),
        is_current(ws) ==> is_current(sw::remove_file(ws, path)),
        is_current(ws) ==> sw::reparsed(ws) == ws,
{
    lemma_reparsed_current(ws);
    if is_current(ws) {
        lemma_upsert_current(ws, path, source);
        lemma_remove_current(ws, path);
    }
}

/// Reading all files again keeps their paths and their sources.
pub proof fn law_reparsed_files(ws: Workspace, path: Text)
    ensures
        distinct_paths(ws) ==> distinct_paths(sw::reparsed(ws)),
        match (file_of(ws, path), file_of(sw::reparsed(ws), path)) {
            (Some(p), Some(q)) => p.source == q.source,
            (None, None) => true,
            _ => false,
        },
{
    let files = ws.index.files;
    let after = sw::reparsed(ws).index.files;
    assert forall|i: int| 0 <= i < files.len() implies (#[trigger] after[i]).path == files[i].path
        && after[i].source == files[i].source by {
        law_path_and_source(files[i].path, files[i].source, ws.macros, ws.sources);
    }
    lemma_found(files, path, 0);
    match sw::file_from(files, path, 0) {
        Some(k) => {
            assert(sh::same_path(after[k].path, path));
            assert forall|j: int| 0 <= j < k implies !sh::same_path(
                (#[trigger] after[j]).path,
                path,
            ) by {
                assert(!sh::same_path(files[j].path, path));
            }
            lemma_is_found(after, path, k);
        },
        None => {
            lemma_found(after, path, 0);
            assert forall|j: int| 0 <= j < after.len() implies !sh::same_path(
                (#[trigger] after[j]).path,
                path,
            ) by {
                assert(!sh::same_path(files[j].path, path));
            }
        },
    }
    if distinct_paths(ws) {
        assert forall|i: int, j: int| 0 <= i < j < after.len() implies !sh::same_path(
            (#[trigger] after[i]).path,
            (#[trigger] after[j]).path,
        ) by {
            assert(!sh::same_path(files[i].path, files[j].path));
        }
    }
}

/// Whether a symbol is one of those from `i` on.
pub open spec fn occurs_from(symbols: Seq<Symbol>, i: int, s: Symbol) -> bool {
    exists|k: int| i <= k < symbols.len() && #[trigger] symbols[k] == s
}

proof fn lemma_occurs(symbols: Seq<Symbol>, i: int, s: Symbol)
    requires
        0 <= i < symbols.len(),
    ensures
        occurs_from(symbols, i, s) <==> symbols[i] == s || occurs_from(symbols, i + 1, s),
        occurs_from(symbols, 0, s) <==> symbols.contains(s),
{
    if occurs_from(symbols, i, s) && symbols[i] != s {
        let k = choose|k: int| i <= k < symbols.len() && #[trigger] symbols[k] == s;
        assert(i + 1 <= k < symbols.len() && symbols[k] == s);
    }
    if occurs_from(symbols, i + 1, s) {
        let k = choose|k: int| i + 1 <= k < symbols.len() && #[trigger] symbols[k] == s;
        assert(i <= k < symbols.len() && symbols[k] == s);
    }
    if symbols.contains(s) {
        let k = choose|k: int| 0 <= k < symbols.len() && #[trigger] symbols[k] == s;
        assert(symbols[k] == s);
    }
}

proof fn lemma_push_contains(out: Seq<Symbol>, x: Symbol, s: Symbol)
    ensures
        out.push(x).contains(s) <==> out.contains(s) || x == s,
{
    let next = out.push(x);
    if out.contains(s) {
        let k = choose|k: int| 0 <= k < out.len() && out[k] == s;
        assert(next[k] == s);
    }
    if x == s {
        assert(next[out.len() as int] == s);
    }
    if next.contains(s) {
        let k = choose|k: int| 0 <= k < next.len() && next[k] == s;
        if k < out.len() {
            assert(out[k] == s);
        }
    }
}

proof fn lemma_found_symbols(
    symbols: Seq<Symbol>,
    query: Text,
    i: int,
    out: Seq<Symbol>,
    s: Symbol,
)
    requires
        0 <= i <= symbols.len(),
    ensures
        sw::found_from(symbols, query, i, out).contains(s) <==> out.contains(s) || (sw::is_found(
            s,
            query,
        ) && occurs_from(symbols, i, s)),
    decreases symbols.len() - i,
{
    if i < symbols.len() {
        lemma_occurs(symbols, i, s);
        lemma_push_contains(out, symbols[i], s);
        lemma_found_symbols(
            symbols,
            query,
            i + 1,
            if sw::is_found(symbols[i], query) {
                out.push(symbols[i])
            } else {
                out
            },
            s,
        );
    }
}

/// Whether a symbol is one of the files from `i` on.
pub open spec fn is_symbol_of(files: Seq<ParsedFile>, i: int, s: Symbol) -> bool {
    exists|f: int| i <= f < files.len() && occurs_from((#[trigger] files[f]).symbols, 0, s)
}

proof fn lemma_symbol_of(files: Seq<ParsedFile>, i: int, s: Symbol)
    requires
        0 <= i < files.len(),
    ensures
        is_symbol_of(files, i, s) <==> occurs_from(files[i].symbols, 0, s) || is_symbol_of(
            files,
            i + 1,
            s,
        ),
{
    if is_symbol_of(files, i, s) && !occurs_from(files[i].symbols, 0, s) {
        let f = choose|f: int|
            i <= f < files.len() && occurs_from((#[trigger] files[f]).symbols, 0, s);
        assert(i + 1 <= f < files.len() && occurs_from(files[f].symbols, 0, s));
    }
    if is_symbol_of(files, i + 1, s) {
        let f = choose|f: int|
            i + 1 <= f < files.len() && occurs_from((#[trigger] files[f]).symbols, 0, s);
        assert(i <= f < files.len() && occurs_from(files[f].symbols, 0, s));
    }
}

proof fn lemma_workspace_symbols(
    files: Seq<ParsedFile>,
    query: Text,
    i: int,
    out: Seq<Symbol>,
    s: Symbol,
)
    requires
        0 <= i <= files.len(),
    ensures
        sw::workspace_symbols_from(files, query, i, out).contains(s) <==> out.contains(s) || (
        sw::is_found(s, query) && is_symbol_of(files, i, s)),
    decreases files.len() - i,
{
    if i < files.len() {
        let next = sw::found_from(files[i].symbols, query, 0, out);
        lemma_found_symbols(files[i].symbols, query, 0, out, s);
        lemma_symbol_of(files, i, s);
        lemma_workspace_symbols(files, query, i + 1, next, s);
    }
}

/// A search finds the symbols of all files whose names hold the query, and no
/// others.
pub proof fn law_workspace_symbols(ws: Workspace, query: Text, s: Symbol)
    ensures
        sw::workspace_symbols(ws, query).contains(s) <==> sw::is_found(s, query) && is_symbol_of(
            ws.index.files,
            0,
            s,
        ),
{
    lemma_workspace_symbols(ws.index.files, query, 0, Seq::empty(), s);
    assert(!Seq::<Symbol>::empty().contains(s));
}

proof fn lemma_in_roots(ws: Workspace, name: Text, i: int)
    ensures
        sw::in_roots_from(ws, name, i) matches Some(found) ==> sw::exists_file(ws, found),
    decreases ws.include_roots.len() - i,
{
    if i < ws.include_roots.len() {
        lemma_in_roots(ws, name, i + 1);
    }
}

proof fn lemma_in_files(files: Seq<ParsedFile>, name: Text, i: int)
    requires
        0 <= i,
    ensures
        sw::in_files_from(files, name, i) matches Some(found) ==> exists|k: int|
            i <= k < files.len() && (#[trigger] files[k]).path == found,
    decreases files.len() - i,
{
    if i < files.len() {
        lemma_in_files(files, name, i + 1);
        if sw::ends_in(files[i].path, name) {
            assert(files[i].path == files[i].path);
        }
    }
}

/// Where a file that another one names is said to be found, there is one.
pub proof fn law_resolved_path(ws: Workspace, from: Text, name: Text)
    ensures
        sw::resolve_path(ws, from, name) matches Some(found) ==> sw::exists_file(ws, found),
{
    lemma_in_roots(ws, name, 0);
    lemma_in_files(ws.index.files, name, 0);
    if let Some(found) = sw::in_files_from(ws.index.files, name, 0) {
        lemma_found(ws.index.files, found, 0);
    }
}

// ---------------------------------------------------------------------------
// Modules
// ---------------------------------------------------------------------------

/// A module exports what it has for others itself.
pub proof fn law_own_export(index: sx::Index, module: Text, name: Text, f: int)
    requires
        sx::module_file(index.files, module) == Some(f),
        sx::own_export(index.files[f], module, name),
    ensures
        sx::exports(index, module, name) is Yes,
{
}

/// A module that is nowhere to be found leaves open what it exports.
pub proof fn law_unknown_module(index: sx::Index, module: Text, name: Text)
    requires
        sx::module_file(index.files, module) is None,
        !sx::is_intrinsic_module(index, module),
    ensures
        sx::exports(index, module, name) is Unknown,
{
}

/// A private name that is not a module's own is not exported.
pub proof fn law_private(index: sx::Index, module: Text, name: Text, f: int)
    requires
        sx::module_file(index.files, module) == Some(f),
        !sx::own_export(index.files[f], module, name),
        !sx::is_public(index.files[f], module, name),
    ensures
        sx::exports(index, module, name) is No,
{
}

} // verus!
