//! The files of a workspace and what is known of them.

use vstd::prelude::*;

use crate::model::{DiagnosticSeverity, Position, Range};
use crate::spec::bindings as sg;
use crate::spec::calls as sca;
use crate::spec::checks as sy;
use crate::spec::cursor as su;
use crate::spec::model as sm;
use crate::spec::model::{Diagnostic, IncludeStmt, ParsedFile, ResolvedInclude, Symbol};
use crate::spec::modules as sx;
use crate::spec::names as sn;
use crate::spec::order as sr;
use crate::spec::outline as so;
use crate::spec::parser as pr;
use crate::spec::path as sh;
use crate::spec::source as ssr;
use crate::spec::text as st;
use crate::spec::text::Text;

verus! {

/// A workspace: its files, the settings, and the files outside it that can be
/// taken in.
#[verifier::ext_equal]
pub struct Workspace {
    pub index: sx::Index,
    pub include_roots: Seq<Text>,
    pub macros: Seq<(Text, Text)>,
    pub max_line_length: Option<usize>,
    pub max_comment_line_length: Option<usize>,
    pub sources: Seq<ssr::SourceFile>,
}

// ---------------------------------------------------------------------------
// Files
// ---------------------------------------------------------------------------

/// The first file from `i` on with the path `path`.
pub open spec fn file_from(files: Seq<ParsedFile>, path: Text, i: int) -> Option<int>
    decreases files.len() - i,
{
    if i >= files.len() {
        None
    } else if sh::same_path(files[i].path, path) {
        Some(i)
    } else {
        file_from(files, path, i + 1)
    }
}

pub open spec fn find_file(ws: Workspace, path: Text) -> Option<int> {
    file_from(ws.index.files, path, 0)
}

/// The files with `p` in the place of the one with its path.
pub open spec fn put_file(files: Seq<ParsedFile>, p: ParsedFile) -> Seq<ParsedFile> {
    match file_from(files, p.path, 0) {
        Some(k) => files.update(k, p),
        None => files.push(p),
    }
}

pub open spec fn with_files(ws: Workspace, files: Seq<ParsedFile>) -> Workspace {
    Workspace { index: sx::Index { files, ..ws.index }, ..ws }
}

/// The workspace with a file that was read.
pub open spec fn upsert_parsed(ws: Workspace, p: ParsedFile) -> Workspace {
    with_files(ws, put_file(ws.index.files, p))
}

/// Whether a file is there with the given source.
pub open spec fn is_unchanged(ws: Workspace, path: Text, source: Text) -> bool {
    find_file(ws, path) matches Some(k) && ws.index.files[k].source == source
}

pub open spec fn parse(ws: Workspace, path: Text, source: Text) -> ParsedFile {
    pr::parse_with_files(path, source, ws.macros, ws.sources)
}

/// The workspace with a file; nothing changes where it is there already.
pub open spec fn upsert_file(ws: Workspace, path: Text, source: Text) -> Workspace {
    if is_unchanged(ws, path, source) {
        ws
    } else {
        upsert_parsed(ws, parse(ws, path, source))
    }
}

/// The workspace without a file.
pub open spec fn remove_file(ws: Workspace, path: Text) -> Workspace {
    match find_file(ws, path) {
        Some(k) => with_files(ws, ws.index.files.remove(k)),
        None => ws,
    }
}

/// The workspace with all files read again.
pub open spec fn reparsed(ws: Workspace) -> Workspace {
    with_files(
        ws,
        Seq::new(
            ws.index.files.len(),
            |i: int| parse(ws, ws.index.files[i].path, ws.index.files[i].source),
        ),
    )
}

// ---------------------------------------------------------------------------
// Symbols
// ---------------------------------------------------------------------------

/// Whether a symbol is found by a query: its name holds the query, case aside.
pub open spec fn is_found(s: Symbol, query: Text) -> bool {
    st::contains(st::lower(s.name), st::lower(query))
}

/// The symbols from `i` on that a query finds, behind `out`.
pub open spec fn found_from(
    symbols: Seq<Symbol>,
    query: Text,
    i: int,
    out: Seq<Symbol>,
) -> Seq<Symbol>
    decreases symbols.len() - i,
{
    if i >= symbols.len() {
        out
    } else {
        found_from(
            symbols,
            query,
            i + 1,
            if is_found(symbols[i], query) {
                out.push(symbols[i])
            } else {
                out
            },
        )
    }
}

/// The symbols of the files from `i` on that a query finds, behind `out`.
pub open spec fn workspace_symbols_from(
    files: Seq<ParsedFile>,
    query: Text,
    i: int,
    out: Seq<Symbol>,
) -> Seq<Symbol>
    decreases files.len() - i,
{
    if i >= files.len() {
        out
    } else {
        workspace_symbols_from(
            files,
            query,
            i + 1,
            found_from(files[i].symbols, query, 0, out),
        )
    }
}

pub open spec fn workspace_symbols(ws: Workspace, query: Text) -> Seq<Symbol> {
    workspace_symbols_from(ws.index.files, query, 0, Seq::empty())
}

pub open spec fn document_symbols(ws: Workspace, path: Text) -> Seq<so::DocumentSymbol> {
    match find_file(ws, path) {
        Some(k) => so::document_symbols(ws.index.files[k]),
        None => Seq::empty(),
    }
}

// ---------------------------------------------------------------------------
// Files that are taken in
// ---------------------------------------------------------------------------

/// Whether there is a file with the path `path`.
pub open spec fn exists_file(ws: Workspace, path: Text) -> bool {
    find_file(ws, path) is Some || ssr::find_file(ws.sources, path) is Some
}

/// Where the roots from `i` on have a file.
pub open spec fn in_roots_from(ws: Workspace, name: Text, i: int) -> Option<Text>
    decreases ws.include_roots.len() - i,
{
    if i >= ws.include_roots.len() {
        None
    } else if exists_file(ws, sh::join(ws.include_roots[i], name)) {
        Some(sh::join(ws.include_roots[i], name))
    } else {
        in_roots_from(ws, name, i + 1)
    }
}

/// Whether the last components of a path are those of a name.
pub open spec fn ends_in(path: Text, name: Text) -> bool {
    let all = sh::components(path);
    let wanted = sh::components(name);
    0 < wanted.len() <= all.len() && all.skip(all.len() - wanted.len()) == wanted
}

/// The first file of the workspace from `i` on whose path ends in a name.
pub open spec fn in_files_from(files: Seq<ParsedFile>, name: Text, i: int) -> Option<Text>
    decreases files.len() - i,
{
    if i >= files.len() {
        None
    } else if ends_in(files[i].path, name) {
        Some(files[i].path)
    } else {
        in_files_from(files, name, i + 1)
    }
}

/// Where the file that a file names is found: beside the file, in one of the
/// roots, or anywhere in the workspace.
pub open spec fn resolve_path(ws: Workspace, from: Text, name: Text) -> Option<Text> {
    match ssr::candidate(from, name) {
        Some(path) => if exists_file(ws, path) {
            Some(path)
        } else {
            match in_roots_from(ws, name, 0) {
                Some(path) => Some(path),
                None => in_files_from(ws.index.files, name, 0),
            }
        },
        None => match in_roots_from(ws, name, 0) {
            Some(path) => Some(path),
            None => in_files_from(ws.index.files, name, 0),
        },
    }
}

pub open spec fn resolved(ws: Workspace, p: ParsedFile, i: int) -> ResolvedInclude {
    ResolvedInclude {
        include_stmt: p.includes[i],
        resolved_path: resolve_path(ws, p.path, p.includes[i].path),
    }
}

pub open spec fn resolved_of(ws: Workspace, p: ParsedFile) -> Seq<ResolvedInclude> {
    Seq::new(p.includes.len(), |i: int| resolved(ws, p, i))
}

pub open spec fn resolved_includes(ws: Workspace, path: Text) -> Seq<ResolvedInclude> {
    match find_file(ws, path) {
        Some(k) => resolved_of(ws, ws.index.files[k]),
        None => Seq::empty(),
    }
}

/// Whether a file is brought along by a compiler or a library.
pub open spec fn is_external(name: Text) -> bool {
    st::same(name, "mpif.h"@)
}

pub open spec fn unresolved_file(stmt: IncludeStmt) -> Diagnostic {
    Diagnostic {
        range: stmt.range,
        severity: DiagnosticSeverity::Warning,
        message: "include file `"@ + stmt.path + "` could not be resolved"@,
    }
}

/// The diagnostics for the files from `i` on that are not found, behind `out`.
pub open spec fn unresolved_from(
    list: Seq<ResolvedInclude>,
    i: int,
    out: Seq<Diagnostic>,
) -> Seq<Diagnostic>
    decreases list.len() - i,
{
    if i >= list.len() {
        out
    } else {
        unresolved_from(
            list,
            i + 1,
            if list[i].resolved_path is None && !is_external(list[i].include_stmt.path) {
                out.push(unresolved_file(list[i].include_stmt))
            } else {
                out
            },
        )
    }
}

// ---------------------------------------------------------------------------
// Diagnostics
// ---------------------------------------------------------------------------

/// The diagnostics for a file of the workspace: those of the parser, for lines
/// that are too long, for files that are not found, for `use` statements, for
/// names, for procedures that are bound to types, and for calls.
pub open spec fn file_diagnostics(ws: Workspace, f: int) -> Seq<Diagnostic> {
    let p = ws.index.files[f];
    let lines = st::lines(p.source);
    let parsed = sy::within_from(p.diagnostics, lines.len(), 0, Seq::empty());
    let lengths = sy::lengths_from(
        lines,
        sh::is_fixed_form_path(p.path),
        ws.max_line_length,
        ws.max_comment_line_length,
        0,
        parsed,
    );
    let uses = sy::uses_from(
        ws.index,
        p,
        0,
        unresolved_from(resolved_of(ws, p), 0, lengths),
    );
    sca::call_diagnostics(
        ws,
        f,
        sg::type_bound_diagnostics(ws, f, sn::name_diagnostics(ws, f, uses)),
    )
}

pub open spec fn diagnostics(ws: Workspace, path: Text) -> Seq<Diagnostic> {
    match find_file(ws, path) {
        Some(k) => file_diagnostics(ws, k),
        None => Seq::empty(),
    }
}

// ---------------------------------------------------------------------------
// Selections
// ---------------------------------------------------------------------------

/// A symbol around a position: how deep it lies, its name and all of it.
pub struct Enclosing {
    pub depth: nat,
    pub name: Range,
    pub whole: Range,
}

/// The symbols from `i` on that open a scope around a position, behind `out`.
pub open spec fn enclosing_from(
    symbols: Seq<Symbol>,
    pos: Position,
    i: int,
    out: Seq<Enclosing>,
) -> Seq<Enclosing>
    decreases symbols.len() - i,
{
    if i >= symbols.len() {
        out
    } else {
        let s = symbols[i];
        enclosing_from(
            symbols,
            pos,
            i + 1,
            if sm::is_scope_kind(s.kind) && sm::range_contains(s.range, pos) {
                out.push(
                    Enclosing {
                        depth: s.scope.len(),
                        name: s.selection_range,
                        whole: s.range,
                    },
                )
            } else {
                out
            },
        )
    }
}

pub open spec fn depth_order() -> sr::Order<Enclosing> {
    |a: Enclosing, b: Enclosing| a.depth <= b.depth
}

/// A stretch inside another one, unless it is that one.
pub open spec fn nested(
    range: Range,
    parent: Option<sm::SelectionRange>,
) -> Option<sm::SelectionRange> {
    match parent {
        Some(outer) => if outer.range == range {
            Some(outer)
        } else {
            Some(sm::SelectionRange { range, parent: Some(Box::new(outer)) })
        },
        None => Some(sm::SelectionRange { range, parent: None }),
    }
}

/// The stretches of the first `n` symbols, the last one innermost.
pub open spec fn nested_symbols(list: Seq<Enclosing>, n: int) -> Option<sm::SelectionRange>
    decreases n,
{
    if n <= 0 {
        None
    } else {
        nested(list[n - 1].name, nested(list[n - 1].whole, nested_symbols(list, n - 1)))
    }
}

/// What can be selected at a position: the word there, then the names and the
/// whole of the scopes around it.
pub open spec fn selection_range(
    ws: Workspace,
    path: Text,
    pos: Position,
    source: Text,
) -> Option<sm::SelectionRange> {
    match find_file(ws, path) {
        Some(k) => {
            let list = sr::sorted(
                enclosing_from(ws.index.files[k].symbols, pos, 0, Seq::empty()),
                depth_order(),
            );
            let around = nested_symbols(list, list.len() as int);
            match su::word_range_at_source(source, pos) {
                Some(word) => nested(word, around),
                None => around,
            }
        },
        None => None,
    }
}

} // verus!
