//! What is wrong with a file, going by the other files of its workspace.

use vstd::prelude::*;

use crate::list::{empty, put};
use crate::model::{Diagnostic, DiagnosticSeverity, ParsedFile, Range, SymbolKind, UseStmt};
use crate::modules::{Export, Index, has_api, module_file, remote_name};
use crate::source::is_fixed_comment;
use crate::spec::checks as sy;
use crate::spec::modules as sx;
use crate::spec::text as st;
use crate::text::{
    chars, decimal, owned, push_text, same_text, starts_with_char, trim_start, utf16_len,
};

verus! {

// ---------------------------------------------------------------------------
// Lines
// ---------------------------------------------------------------------------

/// The diagnostics that lie in the first `n` lines.
pub fn within_lines(diagnostics: &Vec<Diagnostic>, n: usize) -> (r: Vec<Diagnostic>)
    ensures
        r.deep_view() == sy::within_from(diagnostics.deep_view(), n as nat, 0, Seq::empty()),
{
    let ghost all = diagnostics.deep_view();
    let mut out: Vec<Diagnostic> = empty();
    let mut i: usize = 0;
    while i < diagnostics.len()
        invariant
            i <= diagnostics@.len(),
            all == diagnostics.deep_view(),
            sy::within_from(all, n as nat, 0, Seq::empty()) == sy::within_from(
                all,
                n as nat,
                i as int,
                out.deep_view(),
            ),
        decreases diagnostics@.len() - i,
    {
        assert(all[i as int] == diagnostics@[i as int].deep_view());
        if diagnostics[i].range.start.line < n {
            put(&mut out, diagnostics[i].clone());
        }
        i = i + 1;
    }
    out
}

/// Whether a line holds nothing but a comment.
fn is_comment_line(line: &[char], fixed: bool) -> (r: bool)
    ensures
        r == sy::is_comment_line(line@, fixed),
{
    if fixed {
        is_fixed_comment(line)
    } else {
        starts_with_char(trim_start(line), '!')
    }
}

/// The diagnostic for a line that is too long.
fn length_diagnostic(line: &[char], number: usize, comment: bool, limit: Option<usize>) -> (r:
    Option<Diagnostic>)
    ensures
        r.deep_view() == sy::length_diagnostic(line@, number, comment, limit),
{
    let len: usize = utf16_len(line);
    match limit {
        Some(n) => if len > n {
            let mut message = if comment {
                owned("Comment line length exceeds \"max_comment_line_length\" (")
            } else {
                owned("Line length exceeds \"max_line_length\" (")
            };
            push_text(&mut message, decimal(n).as_str());
            push_text(&mut message, ")");
            Some(
                Diagnostic {
                    range: Range::on_line(number, n, len),
                    severity: DiagnosticSeverity::Warning,
                    message,
                },
            )
        } else {
            None
        },
        None => None,
    }
}

/// Adds the diagnostics for the lines that are too long.
pub fn check_line_lengths(
    lines: &Vec<String>,
    fixed: bool,
    max_line: Option<usize>,
    max_comment: Option<usize>,
    out: &mut Vec<Diagnostic>,
)
    ensures
        final(out).deep_view() == sy::lengths_from(
            lines.deep_view(),
            fixed,
            max_line,
            max_comment,
            0,
            old(out).deep_view(),
        ),
{
    let ghost all = lines.deep_view();
    let ghost wanted = sy::lengths_from(
        all,
        fixed,
        max_line,
        max_comment,
        0,
        out.deep_view(),
    );
    let mut i: usize = 0;
    while i < lines.len()
        invariant
            i <= lines@.len(),
            all == lines.deep_view(),
            wanted == sy::lengths_from(
                all,
                fixed,
                max_line,
                max_comment,
                i as int,
                out.deep_view(),
            ),
        decreases lines@.len() - i,
    {
        assert(all[i as int] == lines@[i as int]@);
        let line = chars(lines[i].as_str());
        let comment: bool = is_comment_line(line.as_slice(), fixed);
        let limit = if comment {
            max_comment
        } else {
            max_line
        };
        if let Some(d) = length_diagnostic(line.as_slice(), i, comment, limit) {
            put(out, d);
        }
        i = i + 1;
    }
}

// ---------------------------------------------------------------------------
// Use statements
// ---------------------------------------------------------------------------

/// The names that a `use` statement names: as they are known here, and as they
/// are known in the module.
pub fn named_items(u: &UseStmt) -> (r: Vec<(String, String)>)
    ensures
        r.deep_view() == sy::named_items(u.deep_view()),
{
    let ghost all = sy::named_items(u.deep_view());
    let mut out: Vec<(String, String)> = empty();
    assert(u.deep_view().only.len() == u.only@.len());
    if u.only.len() > 0 {
        let mut i: usize = 0;
        while i < u.only.len()
            invariant
                i <= u.only@.len(),
                u.only@.len() > 0,
                all == sy::named_items(u.deep_view()),
                all.len() == u.only@.len(),
                out.deep_view() == all.take(i as int),
            decreases u.only@.len() - i,
        {
            let name = &u.only[i];
            assert(u.deep_view().only[i as int] == name@);
            put(&mut out, (name.clone(), remote_name(u, name.as_str())));
            i = i + 1;
            assert(out.deep_view() =~= all.take(i as int));
        }
    } else {
        let mut i: usize = 0;
        while i < u.renames.len()
            invariant
                i <= u.renames@.len(),
                u.only@.len() == 0,
                u.deep_view().only.len() == u.only@.len(),
                all == sy::named_items(u.deep_view()),
                all.len() == u.renames@.len(),
                out.deep_view() == all.take(i as int),
            decreases u.renames@.len() - i,
        {
            let rename = &u.renames[i];
            assert(u.deep_view().renames[i as int] == rename.deep_view());
            put(&mut out, (rename.local.clone(), rename.remote.clone()));
            i = i + 1;
            assert(out.deep_view() =~= all.take(i as int));
        }
    }
    assert(out.deep_view() =~= all);
    out
}

fn unresolved_module(u: &UseStmt) -> (r: Diagnostic)
    ensures
        r.deep_view() == sy::unresolved_module(u.deep_view()),
{
    let mut message = owned("module `");
    push_text(&mut message, u.module.as_str());
    push_text(&mut message, "` could not be resolved");
    Diagnostic { range: u.range, severity: DiagnosticSeverity::Warning, message }
}

fn missing_export(u: &UseStmt, item: &(String, String)) -> (r: Diagnostic)
    ensures
        r.deep_view() == sy::missing_export(u.deep_view(), item.deep_view()),
{
    let mut label = item.0.clone();
    if item.0 != item.1 {
        push_text(&mut label, " => ");
        push_text(&mut label, item.1.as_str());
    }
    let mut message = owned("module `");
    push_text(&mut message, u.module.as_str());
    push_text(&mut message, "` does not export `");
    push_text(&mut message, label.as_str());
    push_text(&mut message, "`");
    Diagnostic { range: u.range, severity: DiagnosticSeverity::Error, message }
}

/// Whether a scope belongs to a main program.
fn in_program(p: &ParsedFile, scope: &Vec<String>) -> (r: bool)
    ensures
        r == sy::in_program(p.deep_view(), scope.deep_view()),
{
    assert(scope.deep_view().len() == scope@.len());
    if scope.len() == 0 {
        return false;
    }
    let ghost all = p.deep_view().symbols;
    let ghost outer = scope.deep_view()[0];
    assert(outer == scope@[0]@);
    let mut i: usize = 0;
    while i < p.symbols.len()
        invariant
            i <= p.symbols@.len(),
            scope@.len() > 0,
            scope.deep_view().len() == scope@.len(),
            outer == scope.deep_view()[0],
            outer == scope@[0]@,
            all == p.deep_view().symbols,
            forall|k: int|
                0 <= k < i ==> !((#[trigger] all[k]).kind is Program && all[k].scope.len() == 0
                    && st::same(all[k].name, outer)),
        decreases p.symbols@.len() - i,
    {
        let s = &p.symbols[i];
        assert(all[i as int] == s.deep_view());
        assert(s.deep_view().scope.len() == s.scope@.len());
        if s.kind == SymbolKind::Program && s.scope.len() == 0 && same_text(
            s.name.as_str(),
            scope[0].as_str(),
        ) {
            return true;
        }
        i = i + 1;
    }
    false
}

impl Index {
    /// Adds the diagnostics for the names that a module does not export.
    fn check_items(&self, u: &UseStmt, items: &Vec<(String, String)>, out: &mut Vec<Diagnostic>)
        ensures
            final(out).deep_view() == sy::missing_from(
                self.deep_view(),
                u.deep_view(),
                items.deep_view(),
                0,
                old(out).deep_view(),
            ),
    {
        let ghost all = items.deep_view();
        let ghost wanted = sy::missing_from(
            self.deep_view(),
            u.deep_view(),
            all,
            0,
            out.deep_view(),
        );
        let mut i: usize = 0;
        while i < items.len()
            invariant
                i <= items@.len(),
                all == items.deep_view(),
                wanted == sy::missing_from(
                    self.deep_view(),
                    u.deep_view(),
                    all,
                    i as int,
                    out.deep_view(),
                ),
            decreases items@.len() - i,
        {
            assert(all[i as int] == items@[i as int].deep_view());
            if self.use_exports(u, items[i].1.as_str()) == Export::No {
                put(out, missing_export(u, &items[i]));
            }
            i = i + 1;
        }
    }

    /// Whether it cannot be known of one of the names whether the module
    /// exports it.
    fn any_unknown(&self, u: &UseStmt, items: &Vec<(String, String)>) -> (r: bool)
        ensures
            r == sy::any_unknown(self.deep_view(), u.deep_view(), items.deep_view()),
    {
        let ghost all = items.deep_view();
        let mut i: usize = 0;
        while i < items.len()
            invariant
                i <= items@.len(),
                all == items.deep_view(),
                forall|k: int|
                    0 <= k < i ==> !(sx::use_exports(
                        self.deep_view(),
                        u.deep_view(),
                        (#[trigger] all[k]).1,
                    ) is Unknown),
            decreases items@.len() - i,
        {
            assert(all[i as int] == items@[i as int].deep_view());
            if self.use_exports(u, items[i].1.as_str()) == Export::Unknown {
                return true;
            }
            i = i + 1;
        }
        false
    }

    /// Whether the use of a whole module brings names along that cannot be
    /// known.
    fn brings_unknown(&self, p: &ParsedFile, u: &UseStmt) -> (r: bool)
        ensures
            r == sy::brings_unknown(self.deep_view(), p.deep_view(), u.deep_view()),
    {
        if u.intrinsic || in_program(p, &u.scope) {
            return false;
        }
        match module_file(&self.files, u.module.as_str()) {
            Some(f) => {
                assert(self.deep_view().files[f as int] == self.files@[f as int].deep_view());
                has_api(&self.files[f], u.module.as_str()) && self.is_partial(
                    &self.files[f],
                    u.module.as_str(),
                )
            },
            None => false,
        }
    }

    /// Adds the diagnostics for a `use` statement.
    fn check_use(&self, p: &ParsedFile, u: &UseStmt, out: &mut Vec<Diagnostic>)
        ensures
            final(out).deep_view() == sy::use_diagnostics(
                self.deep_view(),
                p.deep_view(),
                u.deep_view(),
                old(out).deep_view(),
            ),
    {
        if !self.is_resolved(u) {
            put(out, unresolved_module(u));
            return ;
        }
        let items = named_items(u);
        self.check_items(u, &items, out);
        assert(u.deep_view().only.len() == u.only@.len());
        let unknown: bool = if u.only.len() > 0 {
            self.any_unknown(u, &items)
        } else {
            self.brings_unknown(p, u)
        };
        if unknown {
            put(out, unresolved_module(u));
        }
    }

    /// Adds the diagnostics for the `use` statements of a file.
    pub fn check_uses(&self, p: &ParsedFile, out: &mut Vec<Diagnostic>)
        ensures
            final(out).deep_view() == sy::uses_from(
                self.deep_view(),
                p.deep_view(),
                0,
                old(out).deep_view(),
            ),
    {
        let ghost all = p.deep_view().uses;
        let ghost wanted = sy::uses_from(self.deep_view(), p.deep_view(), 0, out.deep_view());
        let mut i: usize = 0;
        while i < p.uses.len()
            invariant
                i <= p.uses@.len(),
                all == p.deep_view().uses,
                wanted == sy::uses_from(
                    self.deep_view(),
                    p.deep_view(),
                    i as int,
                    out.deep_view(),
                ),
            decreases p.uses@.len() - i,
        {
            assert(all[i as int] == p.uses@[i as int].deep_view());
            self.check_use(p, &p.uses[i], out);
            i = i + 1;
        }
    }
}

} // verus!
