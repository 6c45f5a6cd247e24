//! What an editor can do about a file.

use vstd::prelude::*;

use crate::model::{Position, Range};
use crate::spec::bindings as sg;
use crate::spec::completion as sco;
use crate::spec::cursor as su;
use crate::spec::model::{CodeAction, ParsedFile, Scope, Symbol, TextEdit, UseStmt};
use crate::spec::modules as sx;
use crate::spec::query as sqy;
use crate::spec::resolve as sv;
use crate::spec::resolve::Ref;
use crate::spec::text as st;
use crate::spec::text::Text;
use crate::spec::workspace as sw;
use crate::spec::workspace::Workspace;

verus! {

/// A place before the first character of a line.
pub open spec fn line_start(line: usize) -> Range {
    Range { start: Position { line, character: 0 }, end: Position { line, character: 0 } }
}

/// An action that puts a text before a line.
pub open spec fn insertion(title: Text, file: Text, line: usize, new_text: Text) -> CodeAction {
    CodeAction {
        title,
        kind: "quickfix"@,
        edits: Seq::empty().push(TextEdit { file, range: line_start(line), new_text }),
    }
}

// ---------------------------------------------------------------------------
// Deferred procedures
// ---------------------------------------------------------------------------

/// The names of the deferred procedures of the type `j` that are not there,
/// among the symbols of its file from `k` on, behind `out`.
pub open spec fn names_of(ws: Workspace, types: Seq<Ref>, j: int, k: int, out: Seq<Text>) -> Seq<
    Text,
>
    decreases ws.index.files[types[j].0].symbols.len() - k,
{
    let symbols = ws.index.files[types[j].0].symbols;
    if k >= symbols.len() {
        out
    } else {
        names_of(
            ws,
            types,
            j,
            k + 1,
            if sg::is_method_of(symbols[k], sg::symbol(ws, types[j])) && symbols[k].is_deferred
                && sg::lacks_method(ws, types, symbols[k].name, j) {
                out.push(symbols[k].name)
            } else {
                out
            },
        )
    }
}

/// The names of the deferred procedures of the types from `j` on that are not
/// there, behind `out`.
pub open spec fn names_from(ws: Workspace, types: Seq<Ref>, j: int, out: Seq<Text>) -> Seq<Text>
    decreases types.len() - j,
{
    if j >= types.len() {
        out
    } else {
        names_from(ws, types, j + 1, names_of(ws, types, j, 0, out))
    }
}

/// The bindings for the names from `i` on, behind `out`.
pub open spec fn bindings_from(names: Seq<Text>, i: int, out: Text) -> Text
    decreases names.len() - i,
{
    if i >= names.len() {
        out
    } else {
        bindings_from(
            names,
            i + 1,
            out + "  procedure :: "@ + names[i] + " => "@ + names[i] + "\n"@,
        )
    }
}

/// Whether one of the lines from `n` up to `last` is `contains`.
pub open spec fn has_contains(lines: Seq<Text>, n: int, last: int) -> bool {
    exists|k: int|
        n <= k < last && k < lines.len() && st::first_ident_is(#[trigger] lines[k], "contains"@)
}

/// The text that binds the names in a type.
pub open spec fn binding_text(lines: Seq<Text>, t: Symbol, names: Seq<Text>) -> Text {
    bindings_from(
        names,
        0,
        if has_contains(lines, t.range.start.line as int, t.range.end.line as int) {
            Seq::empty()
        } else {
            "contains\n"@
        },
    )
}

/// The action for the symbol `i` of a file: a type that does not bind what its
/// parents defer.
pub open spec fn type_action(ws: Workspace, f: int, i: int) -> Option<CodeAction> {
    let p = ws.index.files[f];
    let t = p.symbols[i];
    let types = sg::chain(ws, (f, i));
    if t.kind is Type && !t.is_abstract && types.len() > 1 {
        let names = names_from(ws, types, 1, Seq::empty());
        if names.len() == 0 {
            None
        } else {
            Some(
                insertion(
                    "Implement deferred procedures of `"@ + t.name + "`"@,
                    p.path,
                    t.range.end.line,
                    binding_text(st::lines(p.source), t, names),
                ),
            )
        }
    } else {
        None
    }
}

/// The actions for the symbols of a file from `i` on, behind `out`.
pub open spec fn types_from(ws: Workspace, f: int, i: int, out: Seq<CodeAction>) -> Seq<CodeAction>
    decreases ws.index.files[f].symbols.len() - i,
{
    if i >= ws.index.files[f].symbols.len() {
        out
    } else {
        types_from(
            ws,
            f,
            i + 1,
            match type_action(ws, f, i) {
                Some(a) => out.push(a),
                None => out,
            },
        )
    }
}

/// What can be done about a file.
pub open spec fn code_actions(ws: Workspace, path: Text) -> Seq<CodeAction> {
    match sw::find_file(ws, path) {
        Some(f) => types_from(ws, f, 0, Seq::empty()),
        None => Seq::empty(),
    }
}

// ---------------------------------------------------------------------------
// Names that no module makes known
// ---------------------------------------------------------------------------

/// The last of the first `n` `use` statements of a scope.
pub open spec fn last_use(uses: Seq<UseStmt>, scope: Scope, n: int) -> Option<int>
    decreases n,
{
    if n <= 0 {
        None
    } else if st::same_scope(uses[n - 1].scope, scope) {
        Some(n - 1)
    } else {
        last_use(uses, scope, n - 1)
    }
}

/// The white space at the start of a line.
pub open spec fn indent(line: Text) -> Text {
    line.take(st::after_spaces(line, 0))
}

/// Where a new `use` statement goes and what stands before it: behind the last
/// one of the program unit, or else behind its first line.
pub open spec fn new_use_place(p: ParsedFile, scope: Scope) -> Option<(usize, Text)> {
    if scope.len() == 0 {
        None
    } else {
        match last_use(p.uses, scope.take(1), p.uses.len() as int) {
            Some(k) => {
                let line = p.uses[k].range.start.line;
                Some((st::size(line as nat + 1), indent(st::line(p.source, line as int))))
            },
            None => match sv::symbol_from(p.symbols, Seq::empty(), scope[0], 0) {
                Some(k) => Some(
                    (st::size(p.symbols[k].range.start.line as nat + 1), "  "@),
                ),
                None => None,
            },
        }
    }
}

/// The statement that takes a name from a module.
pub open spec fn use_statement(module: Text, name: Text) -> Text {
    "use "@ + module + ", only: "@ + name
}

pub open spec fn use_action(
    p: ParsedFile,
    place: (usize, Text),
    module: Text,
    name: Text,
) -> CodeAction {
    insertion(
        "Add `"@ + use_statement(module, name) + "`"@,
        p.path,
        place.0,
        place.1 + use_statement(module, name) + "\n"@,
    )
}

/// The actions for the modules of a file among its symbols from `k` on that
/// export a name, behind `out`.
pub open spec fn modules_in(
    q: ParsedFile,
    p: ParsedFile,
    place: (usize, Text),
    name: Text,
    k: int,
    out: Seq<CodeAction>,
) -> Seq<CodeAction>
    decreases q.symbols.len() - k,
{
    if k >= q.symbols.len() {
        out
    } else {
        modules_in(
            q,
            p,
            place,
            name,
            k + 1,
            if q.symbols[k].kind is Module && sx::own_export(q, q.symbols[k].name, name) {
                out.push(use_action(p, place, q.symbols[k].name, name))
            } else {
                out
            },
        )
    }
}

/// The actions for the modules of the files from `g` on that export a name,
/// behind `out`.
pub open spec fn modules_from(
    files: Seq<ParsedFile>,
    p: ParsedFile,
    place: (usize, Text),
    name: Text,
    g: int,
    out: Seq<CodeAction>,
) -> Seq<CodeAction>
    decreases files.len() - g,
{
    if g >= files.len() {
        out
    } else {
        modules_from(
            files,
            p,
            place,
            name,
            g + 1,
            modules_in(files[g], p, place, name, 0, out),
        )
    }
}

/// The name at a position that stands for nothing that is known.
pub open spec fn unknown_name(ws: Workspace, f: int, source: Text, pos: Position) -> Option<Text> {
    let scope = sco::scope_at(ws.index.files[f].symbols, pos);
    match su::word_at_source(source, pos) {
        Some(name) => if sqy::target(ws, f, source, pos) is None && sqy::intrinsic_at(
            ws,
            f,
            scope,
            name,
        ) is None {
            Some(name)
        } else {
            None
        },
        None => None,
    }
}

/// What can be done at a position of a file.
pub open spec fn code_actions_at(ws: Workspace, path: Text, pos: Position, source: Text) -> Seq<
    CodeAction,
> {
    match sw::find_file(ws, path) {
        Some(f) => {
            let p = ws.index.files[f];
            let all = types_from(ws, f, 0, Seq::empty());
            match unknown_name(ws, f, source, pos) {
                Some(name) => match new_use_place(p, sco::scope_at(p.symbols, pos)) {
                    Some(place) => modules_from(ws.index.files, p, place, name, 0, all),
                    None => all,
                },
                None => all,
            }
        },
        None => Seq::empty(),
    }
}

} // verus!
