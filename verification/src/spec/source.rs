//! From the text of a file to its logical lines.

use vstd::prelude::*;

use crate::spec::expression::Definitions;
use crate::spec::path as sh;
use crate::spec::preproc as spp;
use crate::spec::preproc::Line;
use crate::spec::scan as ss;
use crate::spec::statement as sp;
use crate::spec::text as st;
use crate::spec::text::Text;

verus! {

// ---------------------------------------------------------------------------
// Files that can be taken in
// ---------------------------------------------------------------------------

/// A file that exists: the path that it is found under, the path that
/// identifies it, and what it holds.
#[verifier::ext_equal]
pub struct SourceFile {
    pub path: Text,
    pub canonical: Text,
    pub source: Text,
}

/// The first file from `i` on that is found under `path`.
pub open spec fn find_file_from(files: Seq<SourceFile>, path: Text, i: int) -> Option<int>
    decreases files.len() - i,
{
    if i >= files.len() {
        None
    } else if sh::same_path(files[i].path, path) {
        Some(i)
    } else {
        find_file_from(files, path, i + 1)
    }
}

/// The file that is found under `path`.
pub open spec fn find_file(files: Seq<SourceFile>, path: Text) -> Option<int> {
    find_file_from(files, path, 0)
}

/// The path that identifies what is found under `path`.
pub open spec fn canonical(files: Seq<SourceFile>, path: Text) -> Text {
    match find_file(files, path) {
        Some(k) => files[k].canonical,
        None => path,
    }
}

/// Where a file that the file `from` names is looked for.
pub open spec fn candidate(from: Text, name: Text) -> Option<Text> {
    if sh::is_absolute(name) {
        Some(name)
    } else {
        match sh::parent(from) {
            Some(dir) => Some(sh::join(dir, name)),
            None => None,
        }
    }
}

/// The file that the file `from` names.
pub open spec fn resolve(files: Seq<SourceFile>, from: Text, name: Text) -> Option<int> {
    match candidate(from, name) {
        Some(path) => find_file(files, path),
        None => None,
    }
}

/// The number of the first `n` files that were not visited.
pub open spec fn unvisited(files: Seq<SourceFile>, visited: Seq<Text>, n: nat) -> nat
    decreases n,
{
    if n == 0 || n > files.len() {
        0
    } else {
        unvisited(files, visited, (n - 1) as nat) + if sh::holds_path(
            visited,
            files[n - 1].canonical,
        ) {
            0nat
        } else {
            1nat
        }
    }
}

// ---------------------------------------------------------------------------
// Physical lines
// ---------------------------------------------------------------------------

/// The path that a line takes in by `#include`.
pub open spec fn included_path(line: Text) -> Option<Text> {
    match st::strip_prefix(st::trim(line), "#include"@) {
        Some(rest) => sp::quoted_path(rest),
        None => None,
    }
}

/// The file that a line of the file `from` takes in.
pub open spec fn included_file(files: Seq<SourceFile>, from: Text, line: Text) -> Option<int> {
    match included_path(line) {
        Some(name) => resolve(files, from, name),
        None => None,
    }
}

/// Lines with their numbers.
pub open spec fn numbered(lines: Seq<Text>) -> Seq<Line> {
    Seq::new(lines.len(), |i: int| (i as usize, lines[i]))
}

/// The lines of the file `path` from `i` on, each followed by those of the
/// file that it takes in. A file that is being taken in stays as it is.
pub open spec fn expand_from(
    files: Seq<SourceFile>,
    path: Text,
    lines: Seq<Text>,
    i: int,
    visited: Seq<Text>,
    out: Seq<Line>,
) -> Seq<Line>
    decreases unvisited(files, visited, files.len()), lines.len() - i,
{
    if i >= lines.len() {
        out
    } else {
        let next = out.push((i as usize, lines[i]));
        match included_file(files, path, lines[i]) {
            Some(k) => {
                let f = files[k];
                if sh::holds_path(visited, f.canonical) {
                    expand_from(
                        files,
                        path,
                        lines,
                        i + 1,
                        visited,
                        next + numbered(st::lines(f.source)),
                    )
                } else {
                    proof {
                        lemma_included_file(files, path, lines[i]);
                        lemma_unvisited(files, visited, k, files.len());
                    }
                    expand_from(
                        files,
                        path,
                        lines,
                        i + 1,
                        visited,
                        next + expand_from(
                            files,
                            f.path,
                            st::lines(f.source),
                            0,
                            visited.push(f.canonical),
                            Seq::empty(),
                        ),
                    )
                }
            },
            None => expand_from(files, path, lines, i + 1, visited, next),
        }
    }
}

/// The lines of a file together with those of the files that it takes in.
pub open spec fn physical_lines(files: Seq<SourceFile>, path: Text, source: Text) -> Seq<Line> {
    expand_from(
        files,
        path,
        st::lines(source),
        0,
        seq![canonical(files, path)],
        Seq::empty(),
    )
}

/// The lines that a line of the file `path` takes in.
pub open spec fn taken_in(files: Seq<SourceFile>, path: Text, line: Text) -> Seq<Line> {
    let visited = seq![canonical(files, path)];
    match included_file(files, path, line) {
        Some(k) => {
            let f = files[k];
            if sh::holds_path(visited, f.canonical) {
                numbered(st::lines(f.source))
            } else {
                expand_from(
                    files,
                    f.path,
                    st::lines(f.source),
                    0,
                    visited.push(f.canonical),
                    Seq::empty(),
                )
            }
        },
        None => Seq::empty(),
    }
}

/// The conditionals and definitions behind the first `n` lines of the file
/// `path`, together with the lines that these take in.
pub open spec fn state_behind(
    files: Seq<SourceFile>,
    path: Text,
    lines: Seq<Text>,
    predefined: Definitions,
    n: nat,
) -> spp::FoldState
    decreases n,
{
    if n == 0 {
        spp::FoldState { stack: Seq::empty(), definitions: predefined }
    } else {
        let before = state_behind(files, path, lines, predefined, (n - 1) as nat);
        let line = lines[n - 1];
        spp::fold_lines(before, seq![((n - 1) as usize, line)] + taken_in(files, path, line), 0)
    }
}

/// Whether the line `n` of the file `path` counts: each conditional around it
/// is in an active branch.
pub open spec fn is_live(
    files: Seq<SourceFile>,
    path: Text,
    lines: Seq<Text>,
    predefined: Definitions,
    n: int,
) -> bool {
    spp::fold_active(state_behind(files, path, lines, predefined, n as nat))
}

// ---------------------------------------------------------------------------
// Logical lines
// ---------------------------------------------------------------------------

/// A statement that goes on over several lines: what there is of it, and the
/// number of its first line.
#[verifier::ext_equal]
pub struct Pending {
    pub current: Text,
    pub start: usize,
    pub out: Seq<Line>,
}

pub open spec fn nothing_pending() -> Pending {
    Pending { current: Seq::empty(), start: 0, out: Seq::empty() }
}

/// The lines with the pending statement behind them.
pub open spec fn finish(p: Pending) -> Seq<Line> {
    if p.current.len() == 0 {
        p.out
    } else {
        p.out.push((p.start, st::trim(p.current)))
    }
}

/// The pending statement with one more line in free form.
pub open spec fn free_step(p: Pending, line: Line) -> Pending {
    let raw = st::trim_end(line.1);
    let trimmed = st::trim_end(ss::strip_inline_comment(line.1));
    let comment_only = st::starts_with_char(st::trim_start(raw), '!');
    if st::is_blank(raw) && p.current.len() > 0 {
        p
    } else if st::starts_with_char(st::trim_start(raw), '#') {
        Pending { out: p.out.push((line.0, st::trim(raw))), ..p }
    } else if comment_only && p.current.len() > 0 {
        p
    } else if comment_only {
        Pending { out: p.out.push((line.0, st::trim(raw))), ..p }
    } else {
        let part = st::trim_start(
            st::trim_start_char(st::trim_end(st::trim_end_char(trimmed, '&')), '&'),
        );
        let start = if p.current.len() == 0 {
            line.0
        } else {
            p.start
        };
        let current = if p.current.len() == 0 {
            part
        } else {
            p.current.push(' ') + part
        };
        if st::ends_with_char(trimmed, '&') {
            Pending { current, start, out: p.out }
        } else {
            Pending { current: Seq::empty(), start, out: p.out.push((start, st::trim(current))) }
        }
    }
}

pub open spec fn free_from(lines: Seq<Line>, i: int, p: Pending) -> Seq<Line>
    decreases lines.len() - i,
{
    if i >= lines.len() {
        finish(p)
    } else {
        free_from(lines, i + 1, free_step(p, lines[i]))
    }
}

/// The logical lines of a source in free form. A statement goes on where a
/// line ends with `&`.
pub open spec fn free_logical_lines(lines: Seq<Line>) -> Seq<Line> {
    free_from(lines, 0, nothing_pending())
}

/// Whether a line in fixed form is a comment.
pub open spec fn is_fixed_comment(line: Text) -> bool {
    line.len() > 0 && (line[0] == 'c' || line[0] == 'C' || line[0] == '*' || line[0] == '!')
}

/// Whether a line in fixed form goes on with the statement before it: its
/// sixth byte is neither a blank nor a zero.
pub open spec fn is_fixed_continuation(line: Text) -> bool {
    &&& st::byte_len(line) > 5
    &&& !(st::get_bytes(line, 5) matches Some(rest) && (st::starts_with_char(rest, ' ')
        || st::starts_with_char(rest, '0')))
}

/// The part of a line in fixed form that holds the statement: the bytes from
/// the seventh to the 72nd. A character that reaches over an end of that
/// stretch does not count.
pub open spec fn fixed_body(line: Text) -> Text {
    if st::byte_len(line) > 6 {
        st::skip_bytes(st::take_bytes(line, 72), 6)
    } else {
        Seq::empty()
    }
}

/// The pending statement with one more line in fixed form.
pub open spec fn fixed_step(p: Pending, line: Line) -> Pending {
    let raw = st::trim_end(line.1);
    if is_fixed_comment(line.1) {
        p
    } else if st::starts_with_char(st::trim_start(raw), '#') {
        Pending { out: p.out.push((line.0, st::trim(raw))), ..p }
    } else if is_fixed_continuation(line.1) && p.current.len() > 0 {
        Pending { current: p.current.push(' ') + st::trim_start(fixed_body(line.1)), ..p }
    } else {
        Pending { current: st::trim(fixed_body(line.1)), start: line.0, out: finish(p) }
    }
}

pub open spec fn fixed_from(lines: Seq<Line>, i: int, p: Pending) -> Seq<Line>
    decreases lines.len() - i,
{
    if i >= lines.len() {
        finish(p)
    } else {
        fixed_from(lines, i + 1, fixed_step(p, lines[i]))
    }
}

/// The logical lines of a source in fixed form.
pub open spec fn fixed_logical_lines(lines: Seq<Line>) -> Seq<Line> {
    fixed_from(lines, 0, nothing_pending())
}

/// The logical lines of a file: directives, comments and whole statements,
/// each with the number of its first line.
pub open spec fn logical_lines(
    files: Seq<SourceFile>,
    path: Text,
    source: Text,
    predefined: Definitions,
) -> Seq<Line> {
    let lines = spp::filter_inactive(physical_lines(files, path, source), predefined);
    if sh::is_fixed_form_path(path) {
        fixed_logical_lines(lines)
    } else {
        free_logical_lines(lines)
    }
}

// ---------------------------------------------------------------------------
// Facts
// ---------------------------------------------------------------------------

/// A file that is found is one of the files.
pub proof fn lemma_find_file(files: Seq<SourceFile>, path: Text, i: int)
    requires
        0 <= i,
    ensures
        find_file_from(files, path, i) matches Some(k) ==> i <= k < files.len()
            && sh::same_path(files[k].path, path),
    decreases files.len() - i,
{
    if i < files.len() && !sh::same_path(files[i].path, path) {
        lemma_find_file(files, path, i + 1);
    }
}

/// A file that a line takes in is one of the files.
pub proof fn lemma_included_file(files: Seq<SourceFile>, from: Text, line: Text)
    ensures
        included_file(files, from, line) matches Some(k) ==> 0 <= k < files.len(),
{
    if let Some(name) = included_path(line) {
        if let Some(path) = candidate(from, name) {
            lemma_find_file(files, path, 0);
        }
    }
}

/// A visit leaves no more files unvisited, and fewer where the file is new.
pub proof fn lemma_unvisited(files: Seq<SourceFile>, visited: Seq<Text>, k: int, n: nat)
    requires
        0 <= k < files.len(),
        n <= files.len(),
    ensures
        unvisited(files, visited.push(files[k].canonical), n) <= unvisited(files, visited, n),
        k < n && !sh::holds_path(visited, files[k].canonical) ==> unvisited(
            files,
            visited.push(files[k].canonical),
            n,
        ) < unvisited(files, visited, n),
    decreases n,
{
    if n > 0 {
        lemma_unvisited(files, visited, k, (n - 1) as nat);
        let c = files[n - 1].canonical;
        let more = visited.push(files[k].canonical);
        if sh::holds_path(visited, c) {
            let j = choose|j: int| 0 <= j < visited.len() && sh::same_path(visited[j], c);
            assert(sh::same_path(more[j], c));
        }
        if k == n - 1 {
            assert(sh::same_path(more[visited.len() as int], c));
        }
    }
}

} // verus!
