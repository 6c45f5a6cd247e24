//! What is wrong with a file, going by the other files of its workspace.

use vstd::prelude::*;

use crate::model::DiagnosticSeverity;
use crate::spec::model as sm;
use crate::spec::model::{Diagnostic, ParsedFile, Scope, UseStmt};
use crate::spec::modules as sx;
use crate::spec::modules::Index;
use crate::spec::source as ssr;
use crate::spec::text as st;
use crate::spec::text::Text;

verus! {

// ---------------------------------------------------------------------------
// Lines
// ---------------------------------------------------------------------------

/// The diagnostics from `i` on that lie in the first `n` lines, behind `out`.
pub open spec fn within_from(
    diagnostics: Seq<Diagnostic>,
    n: nat,
    i: int,
    out: Seq<Diagnostic>,
) -> Seq<Diagnostic>
    decreases diagnostics.len() - i,
{
    if i >= diagnostics.len() {
        out
    } else {
        within_from(
            diagnostics,
            n,
            i + 1,
            if diagnostics[i].range.start.line < n {
                out.push(diagnostics[i])
            } else {
                out
            },
        )
    }
}

/// Whether a line holds nothing but a comment.
pub open spec fn is_comment_line(line: Text, fixed: bool) -> bool {
    if fixed {
        ssr::is_fixed_comment(line)
    } else {
        st::starts_with_char(st::trim_start(line), '!')
    }
}

/// The message for a line that is too long.
pub open spec fn length_message(comment: bool, limit: usize) -> Text {
    (if comment {
        "Comment line length exceeds \"max_comment_line_length\" ("@
    } else {
        "Line length exceeds \"max_line_length\" ("@
    }) + st::decimal(limit as nat) + ")"@
}

/// The diagnostic for a line that is too long.
pub open spec fn length_diagnostic(
    line: Text,
    number: usize,
    comment: bool,
    limit: Option<usize>,
) -> Option<Diagnostic> {
    let len = st::size(st::utf16_len(line));
    match limit {
        Some(n) => if len > n {
            Some(
                Diagnostic {
                    range: sm::on_line(number, n, len),
                    severity: DiagnosticSeverity::Warning,
                    message: length_message(comment, n),
                },
            )
        } else {
            None
        },
        None => None,
    }
}

/// Puts a diagnostic behind the others, if there is one.
pub open spec fn with_diagnostic(out: Seq<Diagnostic>, d: Option<Diagnostic>) -> Seq<Diagnostic> {
    match d {
        Some(d) => out.push(d),
        None => out,
    }
}

/// The diagnostics for the lines from `i` on that are too long, behind `out`.
pub open spec fn lengths_from(
    lines: Seq<Text>,
    fixed: bool,
    max_line: Option<usize>,
    max_comment: Option<usize>,
    i: int,
    out: Seq<Diagnostic>,
) -> Seq<Diagnostic>
    decreases lines.len() - i,
{
    if i >= lines.len() {
        out
    } else {
        let comment = is_comment_line(lines[i], fixed);
        lengths_from(
            lines,
            fixed,
            max_line,
            max_comment,
            i + 1,
            with_diagnostic(
                out,
                length_diagnostic(
                    lines[i],
                    i as usize,
                    comment,
                    if comment {
                        max_comment
                    } else {
                        max_line
                    },
                ),
            ),
        )
    }
}

// ---------------------------------------------------------------------------
// Use statements
// ---------------------------------------------------------------------------

/// The names that a `use` statement names: as they are known here, and as they
/// are known in the module.
pub open spec fn named_items(u: UseStmt) -> Seq<(Text, Text)> {
    if u.only.len() > 0 {
        Seq::new(u.only.len(), |i: int| (u.only[i], sx::remote_name(u, u.only[i])))
    } else {
        Seq::new(u.renames.len(), |i: int| (u.renames[i].local, u.renames[i].remote))
    }
}

pub open spec fn unresolved_module(u: UseStmt) -> Diagnostic {
    Diagnostic {
        range: u.range,
        severity: DiagnosticSeverity::Warning,
        message: "module `"@ + u.module + "` could not be resolved"@,
    }
}

pub open spec fn item_label(item: (Text, Text)) -> Text {
    if item.0 == item.1 {
        item.0
    } else {
        item.0 + " => "@ + item.1
    }
}

pub open spec fn missing_export(u: UseStmt, item: (Text, Text)) -> Diagnostic {
    Diagnostic {
        range: u.range,
        severity: DiagnosticSeverity::Error,
        message: "module `"@ + u.module + "` does not export `"@ + item_label(item) + "`"@,
    }
}

/// The diagnostics for the names from `i` on that the module does not export,
/// behind `out`.
pub open spec fn missing_from(
    index: Index,
    u: UseStmt,
    items: Seq<(Text, Text)>,
    i: int,
    out: Seq<Diagnostic>,
) -> Seq<Diagnostic>
    decreases items.len() - i,
{
    if i >= items.len() {
        out
    } else {
        missing_from(
            index,
            u,
            items,
            i + 1,
            if sx::use_exports(index, u, items[i].1) is No {
                out.push(missing_export(u, items[i]))
            } else {
                out
            },
        )
    }
}

/// Whether it cannot be known of one of the names whether the module exports
/// it.
pub open spec fn any_unknown(index: Index, u: UseStmt, items: Seq<(Text, Text)>) -> bool {
    exists|i: int|
        0 <= i < items.len() && sx::use_exports(index, u, (#[trigger] items[i]).1) is Unknown
}

/// Whether a scope belongs to a main program.
pub open spec fn in_program(p: ParsedFile, scope: Scope) -> bool {
    scope.len() > 0 && exists|i: int|
        0 <= i < p.symbols.len() && (#[trigger] p.symbols[i]).kind is Program
            && p.symbols[i].scope.len() == 0 && st::same(p.symbols[i].name, scope[0])
}

/// Whether the use of a whole module brings names along that cannot be known.
/// A main program may do so, and so may anyone where the module has nothing of
/// its own.
pub open spec fn brings_unknown(index: Index, p: ParsedFile, u: UseStmt) -> bool {
    !u.intrinsic && !in_program(p, u.scope) && (sx::module_file(index.files, u.module) matches Some(
        f,
    ) && sx::has_api(index.files[f], u.module) && sx::is_partial(
        index,
        index.files[f],
        u.module,
    ))
}

/// The diagnostics for a `use` statement, behind `out`.
pub open spec fn use_diagnostics(
    index: Index,
    p: ParsedFile,
    u: UseStmt,
    out: Seq<Diagnostic>,
) -> Seq<Diagnostic> {
    if !sx::is_resolved(index, u) {
        out.push(unresolved_module(u))
    } else {
        let items = named_items(u);
        let missing = missing_from(index, u, items, 0, out);
        let unknown = if u.only.len() > 0 {
            any_unknown(index, u, items)
        } else {
            brings_unknown(index, p, u)
        };
        if unknown {
            missing.push(unresolved_module(u))
        } else {
            missing
        }
    }
}

/// The diagnostics for the `use` statements from `i` on, behind `out`.
pub open spec fn uses_from(
    index: Index,
    p: ParsedFile,
    i: int,
    out: Seq<Diagnostic>,
) -> Seq<Diagnostic>
    decreases p.uses.len() - i,
{
    if i >= p.uses.len() {
        out
    } else {
        uses_from(index, p, i + 1, use_diagnostics(index, p, p.uses[i], out))
    }
}

} // verus!
