//! What an editor can do about a file.

use vstd::prelude::*;

use crate::bindings::is_method_of;
use crate::calls::after_spaces;
use crate::completion::scope_at;
use crate::cursor::word_at_source;
use crate::list::{empty, put};
use crate::model::{CodeAction, ParsedFile, Position, Range, Symbol, SymbolKind, TextEdit, UseStmt};
use crate::modules::own_export;
use crate::names::about;
use crate::parser::source_line;
use crate::resolve::{SymbolRef, eq_scopes, outer_scopes, symbol_in};
use crate::source::source_lines;
use crate::spec::actions as sac;
use crate::spec::bindings as sg;
use crate::spec::text as st;
use crate::text::{chars, first_ident_is, owned, push_text, sum, take, text};
use crate::workspace::Workspace;

verus! {

/// An action that puts a text before a line.
fn insertion(title: String, file: &str, line: usize, new_text: String) -> (r: CodeAction)
    ensures
        r.deep_view() == sac::insertion(title@, file@, line, new_text@),
{
    let mut edits: Vec<TextEdit> = empty();
    put(
        &mut edits,
        TextEdit {
            file: owned(file),
            range: Range {
                start: Position { line, character: 0 },
                end: Position { line, character: 0 },
            },
            new_text,
        },
    );
    CodeAction { title, kind: owned("quickfix"), edits }
}

// ---------------------------------------------------------------------------
// Deferred procedures
// ---------------------------------------------------------------------------

/// Whether one of the lines from `n` up to `last` is `contains`.
fn has_contains(lines: &Vec<String>, n: usize, last: usize) -> (r: bool)
    ensures
        r == sac::has_contains(lines.deep_view(), n as int, last as int),
{
    let ghost all = lines.deep_view();
    let mut k: usize = n;
    while k < last && k < lines.len()
        invariant
            n <= k,
            all == lines.deep_view(),
            forall|j: int|
                n <= j < k && j < last && j < all.len() ==> !st::first_ident_is(
                    #[trigger] all[j],
                    "contains"@,
                ),
        decreases lines@.len() - k,
    {
        assert(all[k as int] == lines@[k as int]@);
        let line = chars(lines[k].as_str());
        if first_ident_is(line.as_slice(), "contains") {
            return true;
        }
        k = k + 1;
    }
    false
}

/// The text that binds the names in a type.
fn binding_text(lines: &Vec<String>, t: &Symbol, names: &Vec<String>) -> (r: String)
    ensures
        r@ == sac::binding_text(lines.deep_view(), t.deep_view(), names.deep_view()),
{
    let ghost all = names.deep_view();
    let mut out = String::new();
    assert(out@ =~= Seq::empty());
    if !has_contains(lines, t.range.start.line, t.range.end.line) {
        out = owned("contains\n");
    }
    let ghost wanted = sac::bindings_from(all, 0, out@);
    let mut i: usize = 0;
    while i < names.len()
        invariant
            i <= names@.len(),
            all == names.deep_view(),
            wanted == sac::bindings_from(all, i as int, out@),
        decreases names@.len() - i,
    {
        assert(all[i as int] == names@[i as int]@);
        push_text(&mut out, "  procedure :: ");
        push_text(&mut out, names[i].as_str());
        push_text(&mut out, " => ");
        push_text(&mut out, names[i].as_str());
        push_text(&mut out, "\n");
        i = i + 1;
    }
    out
}

// ---------------------------------------------------------------------------
// Names that no module makes known
// ---------------------------------------------------------------------------

/// The last of the `use` statements of a scope.
fn last_use(uses: &Vec<UseStmt>, scope: &Vec<String>) -> (r: Option<usize>)
    ensures
        st::at(r) == sac::last_use(uses.deep_view(), scope.deep_view(), uses@.len() as int),
        r matches Some(k) ==> k < uses@.len(),
{
    let ghost all = uses.deep_view();
    let mut n: usize = uses.len();
    while n > 0
        invariant
            n <= uses@.len(),
            all == uses.deep_view(),
            sac::last_use(uses.deep_view(), scope.deep_view(), uses@.len() as int)
                == sac::last_use(all, scope.deep_view(), n as int),
        decreases n,
    {
        assert(all[n - 1] == uses@[n - 1].deep_view());
        if eq_scopes(&uses[n - 1].scope, scope) {
            return Some(n - 1);
        }
        n = n - 1;
    }
    None
}

/// The white space at the start of a line.
fn indent(line: &[char]) -> (r: String)
    ensures
        r@ == sac::indent(line@),
{
    text(take(line, after_spaces(line, 0)))
}

/// A place for a new statement and what stands before it.
pub open spec fn place_model(place: Option<(usize, String)>) -> Option<(usize, st::Text)> {
    match place {
        Some((line, before)) => Some((line, before@)),
        None => None,
    }
}

/// Where a new `use` statement goes and what stands before it.
fn new_use_place(p: &ParsedFile, scope: &Vec<String>) -> (r: Option<(usize, String)>)
    ensures
        place_model(r) == sac::new_use_place(p.deep_view(), scope.deep_view()),
{
    assert(scope.deep_view().len() == scope@.len());
    if scope.len() == 0 {
        return None;
    }
    assert(scope.deep_view()[0] == scope@[0]@);
    assert(p.deep_view().uses.len() == p.uses@.len());
    match last_use(&p.uses, &outer_scopes(scope, 1)) {
        Some(k) => {
            assert(p.deep_view().uses[k as int] == p.uses@[k as int].deep_view());
            let line: usize = p.uses[k].range.start.line;
            let here = source_line(p.source.as_str(), line);
            Some((sum(line, 1), indent(here.as_slice())))
        },
        None => match symbol_in(&p.symbols, &empty(), scope[0].as_str()) {
            Some(k) => {
                assert(p.deep_view().symbols[k as int] == p.symbols@[k as int].deep_view());
                Some((sum(p.symbols[k].range.start.line, 1), owned("  ")))
            },
            None => None,
        },
    }
}

fn use_action(p: &ParsedFile, line: usize, before: &str, module: &str, name: &str) -> (r:
    CodeAction)
    ensures
        r.deep_view() == sac::use_action(p.deep_view(), (line, before@), module@, name@),
{
    let mut statement = about("use ", module, ", only: ");
    push_text(&mut statement, name);
    let title = about("Add `", statement.as_str(), "`");
    let new_text = about(before, statement.as_str(), "\n");
    insertion(title, p.path.as_str(), line, new_text)
}

/// Adds the actions for the modules of a file that export a name.
fn put_modules(
    q: &ParsedFile,
    p: &ParsedFile,
    line: usize,
    before: &str,
    name: &str,
    out: &mut Vec<CodeAction>,
)
    ensures
        final(out).deep_view() == sac::modules_in(
            q.deep_view(),
            p.deep_view(),
            (line, before@),
            name@,
            0,
            old(out).deep_view(),
        ),
{
    let ghost all = q.deep_view().symbols;
    let ghost wanted = sac::modules_in(
        q.deep_view(),
        p.deep_view(),
        (line, before@),
        name@,
        0,
        out.deep_view(),
    );
    let mut k: usize = 0;
    while k < q.symbols.len()
        invariant
            k <= q.symbols@.len(),
            all == q.deep_view().symbols,
            wanted == sac::modules_in(
                q.deep_view(),
                p.deep_view(),
                (line, before@),
                name@,
                k as int,
                out.deep_view(),
            ),
        decreases q.symbols@.len() - k,
    {
        let s = &q.symbols[k];
        assert(all[k as int] == s.deep_view());
        if s.kind == SymbolKind::Module && own_export(q, s.name.as_str(), name) {
            put(out, use_action(p, line, before, s.name.as_str(), name));
        }
        k = k + 1;
    }
}

// ---------------------------------------------------------------------------
// In the workspace
// ---------------------------------------------------------------------------

impl Workspace {
    /// Adds the names of the deferred procedures of the type `j` that are not
    /// there.
    fn put_names(&self, types: &Vec<SymbolRef>, j: usize, out: &mut Vec<String>)
        requires
            1 <= j < types@.len(),
            crate::bindings::all_hold(self.index.files@, types@),
        ensures
            final(out).deep_view() == sac::names_of(
                self.deep_view(),
                crate::bindings::ref_models(types@),
                j as int,
                0,
                old(out).deep_view(),
            ),
    {
        let ghost ws = self.deep_view();
        let ghost all = crate::bindings::ref_models(types@);
        assert(all[j as int] == types@[j as int].model());
        assert(crate::bindings::holds(self.index.files@, types@[j as int]));
        let parent = self.symbol(types[j]);
        let symbols = &self.index.files[types[j].file].symbols;
        let ghost list = ws.index.files[all[j as int].0].symbols;
        assert(ws.index.files[all[j as int].0]
            == self.index.files@[types@[j as int].file as int].deep_view());
        let ghost wanted = sac::names_of(ws, all, j as int, 0, out.deep_view());
        let mut k: usize = 0;
        while k < symbols.len()
            invariant
                k <= symbols@.len(),
                1 <= j < types@.len(),
                ws == self.deep_view(),
                all == crate::bindings::ref_models(types@),
                crate::bindings::all_hold(self.index.files@, types@),
                list == symbols.deep_view(),
                list == ws.index.files[all[j as int].0].symbols,
                parent.deep_view() == sg::symbol(ws, all[j as int]),
                wanted == sac::names_of(ws, all, j as int, k as int, out.deep_view()),
            decreases symbols@.len() - k,
        {
            let m = &symbols[k];
            assert(list[k as int] == m.deep_view());
            if m.is_deferred && is_method_of(m, parent) && self.lacks_method(
                types,
                m.name.as_str(),
                j,
            ) {
                put(out, m.name.clone());
            }
            k = k + 1;
        }
    }

    /// The action for a symbol of a file: a type that does not bind what its
    /// parents defer.
    fn type_action(&self, f: usize, i: usize) -> (r: Option<CodeAction>)
        requires
            f < self.index.files@.len(),
            i < self.index.files@[f as int].symbols@.len(),
        ensures
            r.deep_view() == sac::type_action(self.deep_view(), f as int, i as int),
    {
        let ghost ws = self.deep_view();
        let p = &self.index.files[f];
        assert(ws.index.files[f as int] == p.deep_view());
        let r = SymbolRef { file: f, symbol: i };
        let t = self.symbol(r);
        if t.kind != SymbolKind::Type || t.is_abstract {
            return None;
        }
        let types = self.chain(r);
        let ghost all = crate::bindings::ref_models(types@);
        let mut names: Vec<String> = empty();
        let mut j: usize = 1;
        while j < types.len()
            invariant
                1 <= j <= types@.len(),
                ws == self.deep_view(),
                all == crate::bindings::ref_models(types@),
                crate::bindings::all_hold(self.index.files@, types@),
                sac::names_from(ws, all, 1, Seq::empty()) == sac::names_from(
                    ws,
                    all,
                    j as int,
                    names.deep_view(),
                ),
            decreases types@.len() - j,
        {
            self.put_names(&types, j, &mut names);
            j = j + 1;
        }
        assert(names.deep_view().len() == names@.len());
        if types.len() < 2 || names.len() == 0 {
            return None;
        }
        let lines = source_lines(p.source.as_str());
        Some(
            insertion(
                about("Implement deferred procedures of `", t.name.as_str(), "`"),
                p.path.as_str(),
                t.range.end.line,
                binding_text(&lines, t, &names),
            ),
        )
    }

    /// The actions for the types of a file.
    fn type_actions(&self, f: usize) -> (r: Vec<CodeAction>)
        requires
            f < self.index.files@.len(),
        ensures
            r.deep_view() == sac::types_from(self.deep_view(), f as int, 0, Seq::empty()),
    {
        let ghost ws = self.deep_view();
        let p = &self.index.files[f];
        assert(ws.index.files[f as int] == p.deep_view());
        let mut out: Vec<CodeAction> = empty();
        let mut i: usize = 0;
        while i < p.symbols.len()
            invariant
                i <= p.symbols@.len(),
                f < self.index.files@.len(),
                p == self.index.files@[f as int],
                ws == self.deep_view(),
                ws.index.files[f as int] == p.deep_view(),
                sac::types_from(ws, f as int, 0, Seq::empty()) == sac::types_from(
                    ws,
                    f as int,
                    i as int,
                    out.deep_view(),
                ),
            decreases p.symbols@.len() - i,
        {
            if let Some(a) = self.type_action(f, i) {
                put(&mut out, a);
            }
            i = i + 1;
        }
        out
    }

    /// What can be done about a file.
    pub fn code_actions(&self, path: &str) -> (r: Vec<CodeAction>)
        ensures
            r.deep_view() == sac::code_actions(self.deep_view(), path@),
    {
        match self.file_number(path) {
            Some(f) => self.type_actions(f),
            None => empty(),
        }
    }

    /// The name at a position that stands for nothing that is known.
    fn unknown_name(&self, f: usize, source: &str, pos: Position) -> (r: Option<String>)
        requires
            f < self.index.files@.len(),
        ensures
            r.deep_view() == sac::unknown_name(self.deep_view(), f as int, source@, pos),
    {
        assert(self.deep_view().index.files[f as int] == self.index.files@[f as int].deep_view());
        let scope = scope_at(&self.index.files[f].symbols, pos);
        match word_at_source(source, pos) {
            Some(name) => if self.target(f, source, pos).is_none() && self.intrinsic_at(
                f,
                &scope,
                name.as_str(),
            ).is_none() {
                Some(name)
            } else {
                None
            },
            None => None,
        }
    }

    /// What can be done at a position of a file.
    pub fn code_actions_at(&self, path: &str, pos: Position, source: &str) -> (r: Vec<CodeAction>)
        ensures
            r.deep_view() == sac::code_actions_at(self.deep_view(), path@, pos, source@),
    {
        let ghost ws = self.deep_view();
        let f = match self.file_number(path) {
            Some(f) => f,
            None => {
                return empty();
            },
        };
        let p = &self.index.files[f];
        assert(ws.index.files[f as int] == p.deep_view());
        let mut out = self.type_actions(f);
        let name = match self.unknown_name(f, source, pos) {
            Some(name) => name,
            None => {
                return out;
            },
        };
        let (line, before) = match new_use_place(p, &scope_at(&p.symbols, pos)) {
            Some(place) => place,
            None => {
                return out;
            },
        };
        let ghost all = ws.index.files;
        let ghost wanted = sac::modules_from(
            all,
            p.deep_view(),
            (line, before@),
            name@,
            0,
            out.deep_view(),
        );
        assert(all.len() == self.index.files@.len());
        let mut g: usize = 0;
        while g < self.index.files.len()
            invariant
                g <= self.index.files@.len(),
                ws == self.deep_view(),
                all == ws.index.files,
                all.len() == self.index.files@.len(),
                wanted == sac::modules_from(
                    all,
                    p.deep_view(),
                    (line, before@),
                    name@,
                    g as int,
                    out.deep_view(),
                ),
            decreases self.index.files@.len() - g,
        {
            assert(all[g as int] == self.index.files@[g as int].deep_view());
            put_modules(
                &self.index.files[g],
                p,
                line,
                before.as_str(),
                name.as_str(),
                &mut out,
            );
            g = g + 1;
        }
        out
    }
}

} // verus!
