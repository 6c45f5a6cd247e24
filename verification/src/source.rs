//! From the text of a file to its logical lines.

use vstd::prelude::*;

use crate::list::{empty, put, put_all};
use crate::path::{
    components, has_components, holds_path, is_absolute, is_fixed_form_path, join_path, parent,
};
use crate::preproc::{FoldPreprocessorState, filter_inactive_preprocessor_lines};
use crate::scan::strip_inline_comment;
use crate::spec::path as sh;
use crate::spec::source as ssr;
use crate::spec::text as st;
use crate::statement::quoted_path;
use crate::table::Table;
use crate::text::{
    byte_len, chars, copy_texts, ends_with_char, get_bytes, is_blank, lines, owned, skip_bytes,
    starts_with_char, strip_prefix, take, take_bytes, text, trim, trim_end, trim_end_char,
    trim_start, trim_start_char,
};

verus! {

// ---------------------------------------------------------------------------
// Files that can be taken in
// ---------------------------------------------------------------------------

/// A file that exists: the path that it is found under, the path that
/// identifies it, and what it holds.
#[derive(Debug, PartialEq, Eq)]
pub struct SourceFile {
    pub path: String,
    pub canonical: String,
    pub source: String,
}

impl DeepView for SourceFile {
    type V = ssr::SourceFile;

    open spec fn deep_view(&self) -> ssr::SourceFile {
        ssr::SourceFile {
            path: self.path@,
            canonical: self.canonical@,
            source: self.source@,
        }
    }
}

impl Clone for SourceFile {
    fn clone(&self) -> (r: Self)
        ensures
            r.deep_view() == self.deep_view(),
    {
        SourceFile {
            path: self.path.clone(),
            canonical: self.canonical.clone(),
            source: self.source.clone(),
        }
    }
}

/// The file that is found under `path`.
fn find_file(files: &Vec<SourceFile>, path: &String) -> (r: Option<usize>)
    ensures
        st::at(r) == ssr::find_file(files.deep_view(), path@),
        r matches Some(k) ==> k < files@.len(),
{
    let wanted = components(path.as_str());
    let mut i: usize = 0;
    while i < files.len()
        invariant
            i <= files@.len(),
            wanted.deep_view() == sh::components(path@),
            ssr::find_file(files.deep_view(), path@) == ssr::find_file_from(
                files.deep_view(),
                path@,
                i as int,
            ),
        decreases files@.len() - i,
    {
        assert(files.deep_view()[i as int] == files@[i as int].deep_view());
        if has_components(files[i].path.as_str(), &wanted) {
            return Some(i);
        }
        i = i + 1;
    }
    None
}

/// The file that is found under a path.
pub fn find_source(files: &Vec<SourceFile>, path: &str) -> (r: Option<usize>)
    ensures
        st::at(r) == ssr::find_file(files.deep_view(), path@),
        r matches Some(k) ==> k < files@.len(),
{
    find_file(files, &owned(path))
}

/// The path that identifies what is found under `path`.
pub fn canonical(files: &Vec<SourceFile>, path: &str) -> (r: String)
    ensures
        r@ == ssr::canonical(files.deep_view(), path@),
{
    let wanted = owned(path);
    match find_file(files, &wanted) {
        Some(k) => files[k].canonical.clone(),
        None => wanted,
    }
}

/// Where a file that the file `from` names is looked for.
pub fn candidate(from: &str, name: &str) -> (r: Option<String>)
    ensures
        r.deep_view() == ssr::candidate(from@, name@),
{
    if is_absolute(name) {
        return Some(owned(name));
    }
    match parent(from) {
        Some(dir) => Some(join_path(dir.as_str(), name)),
        None => None,
    }
}

/// The file that the file `from` names.
pub fn resolve(files: &Vec<SourceFile>, from: &str, name: &str) -> (r: Option<usize>)
    ensures
        st::at(r) == ssr::resolve(files.deep_view(), from@, name@),
        r matches Some(k) ==> k < files@.len(),
{
    match candidate(from, name) {
        Some(path) => find_file(files, &path),
        None => None,
    }
}

/// Whether a list holds a text.
pub fn contains_text(list: &Vec<String>, t: &String) -> (r: bool)
    ensures
        r == list.deep_view().contains(t@),
{
    let mut i: usize = 0;
    while i < list.len()
        invariant
            i <= list@.len(),
            forall|k: int| 0 <= k < i ==> #[trigger] list.deep_view()[k] != t@,
        decreases list@.len() - i,
    {
        assert(list.deep_view()[i as int] == list@[i as int]@);
        if list[i] == *t {
            return true;
        }
        i = i + 1;
    }
    false
}

// ---------------------------------------------------------------------------
// Physical lines
// ---------------------------------------------------------------------------

/// The path that a line takes in by `#include`.
pub fn included_path(line: &[char]) -> (r: Option<String>)
    ensures
        r.deep_view() == ssr::included_path(line@),
{
    match strip_prefix(trim(line), "#include") {
        Some(rest) => quoted_path(rest),
        None => None,
    }
}

/// The file that a line of the file `from` takes in.
fn included_file(files: &Vec<SourceFile>, from: &str, line: &[char]) -> (r: Option<usize>)
    ensures
        st::at(r) == ssr::included_file(files.deep_view(), from@, line@),
        r matches Some(k) ==> k < files@.len(),
{
    match included_path(line) {
        Some(name) => resolve(files, from, name.as_str()),
        None => None,
    }
}

/// The lines of a text.
pub fn source_lines(source: &str) -> (r: Vec<String>)
    ensures
        r.deep_view() == st::lines(source@),
{
    let all = chars(source);
    lines(all.as_slice())
}

/// Lines with their numbers.
fn numbered(lines: &Vec<String>) -> (r: Vec<(usize, String)>)
    ensures
        r.deep_view() == ssr::numbered(lines.deep_view()),
{
    let mut out: Vec<(usize, String)> = empty();
    let mut i: usize = 0;
    while i < lines.len()
        invariant
            i <= lines@.len(),
            out.deep_view() =~= ssr::numbered(lines.deep_view()).take(i as int),
        decreases lines@.len() - i,
    {
        put(&mut out, (i, lines[i].clone()));
        i = i + 1;
    }
    assert(ssr::numbered(lines.deep_view()).take(i as int) =~= ssr::numbered(lines.deep_view()));
    out
}

/// The lines of the file `path`, each followed by those of the file that it
/// takes in.
fn expand(files: &Vec<SourceFile>, path: &str, lines: &Vec<String>, visited: &Vec<String>) -> (r:
    Vec<(usize, String)>)
    ensures
        r.deep_view() == ssr::expand_from(
            files.deep_view(),
            path@,
            lines.deep_view(),
            0,
            visited.deep_view(),
            Seq::empty(),
        ),
    decreases ssr::unvisited(files.deep_view(), visited.deep_view(), files.deep_view().len()),
{
    let mut out: Vec<(usize, String)> = empty();
    let ghost wanted = ssr::expand_from(
        files.deep_view(),
        path@,
        lines.deep_view(),
        0,
        visited.deep_view(),
        Seq::empty(),
    );
    let mut i: usize = 0;
    while i < lines.len()
        invariant
            i <= lines@.len(),
            wanted == ssr::expand_from(
                files.deep_view(),
                path@,
                lines.deep_view(),
                i as int,
                visited.deep_view(),
                out.deep_view(),
            ),
        decreases lines@.len() - i,
    {
        put(&mut out, (i, lines[i].clone()));
        let line = chars(lines[i].as_str());
        match included_file(files, path, line.as_slice()) {
            Some(k) => {
                let included = source_lines(files[k].source.as_str());
                assert(files.deep_view()[k as int] == files@[k as int].deep_view());
                if holds_path(visited, files[k].canonical.as_str()) {
                    put_all(&mut out, numbered(&included));
                } else {
                    let mut more = copy_texts(visited);
                    put(&mut more, files[k].canonical.clone());
                    proof {
                        ssr::lemma_unvisited(
                            files.deep_view(),
                            visited.deep_view(),
                            k as int,
                            files.deep_view().len(),
                        );
                    }
                    put_all(&mut out, expand(files, files[k].path.as_str(), &included, &more));
                }
            },
            None => {
            },
        }
        i = i + 1;
    }
    out
}

/// The lines of a file together with those of the files that it takes in.
pub fn physical_lines(files: &Vec<SourceFile>, path: &str, source: &str) -> (r: Vec<
    (usize, String),
>)
    ensures
        r.deep_view() == ssr::physical_lines(files.deep_view(), path@, source@),
{
    let all = source_lines(source);
    let mut visited: Vec<String> = empty();
    put(&mut visited, canonical(files, path));
    assert(visited.deep_view() =~= seq![ssr::canonical(files.deep_view(), path@)]);
    expand(files, path, &all, &visited)
}

/// The lines that a line of the file `path` takes in.
fn taken_in(files: &Vec<SourceFile>, path: &str, line: &[char]) -> (r: Vec<(usize, String)>)
    ensures
        r.deep_view() == ssr::taken_in(files.deep_view(), path@, line@),
{
    match included_file(files, path, line) {
        Some(k) => {
            assert(files.deep_view()[k as int] == files@[k as int].deep_view());
            let mut visited: Vec<String> = empty();
            put(&mut visited, canonical(files, path));
            assert(visited.deep_view() =~= seq![ssr::canonical(files.deep_view(), path@)]);
            let included = source_lines(files[k].source.as_str());
            if holds_path(&visited, files[k].canonical.as_str()) {
                numbered(&included)
            } else {
                put(&mut visited, files[k].canonical.clone());
                expand(files, files[k].path.as_str(), &included, &visited)
            }
        },
        None => empty(),
    }
}

/// Which lines of the file `path` count: those in active branches of all
/// conditionals around them.
pub fn live_lines(
    files: &Vec<SourceFile>,
    path: &str,
    lines: &Vec<String>,
    predefined: &Table<String, String>,
) -> (r: Vec<bool>)
    ensures
        r@.len() == lines@.len(),
        forall|n: int|
            0 <= n < r@.len() ==> #[trigger] r@[n] == ssr::is_live(
                files.deep_view(),
                path@,
                lines.deep_view(),
                predefined.deep_view(),
                n,
            ),
{
    let ghost all = lines.deep_view();
    let mut state = FoldPreprocessorState { stack: empty(), definitions: predefined.clone() };
    let mut out: Vec<bool> = Vec::new();
    let mut n: usize = 0;
    while n < lines.len()
        invariant
            n <= lines@.len(),
            all == lines.deep_view(),
            out@.len() == n,
            state.deep_view() == ssr::state_behind(
                files.deep_view(),
                path@,
                all,
                predefined.deep_view(),
                n as nat,
            ),
            forall|k: int|
                0 <= k < n ==> #[trigger] out@[k] == ssr::is_live(
                    files.deep_view(),
                    path@,
                    all,
                    predefined.deep_view(),
                    k,
                ),
        decreases lines@.len() - n,
    {
        out.push(state.active());
        let line = chars(lines[n].as_str());
        assert(line@ == all[n as int]);
        let mut read: Vec<(usize, String)> = empty();
        put(&mut read, (n, lines[n].clone()));
        assert(read.deep_view() =~= seq![(n, line@)]);
        put_all(&mut read, taken_in(files, path, line.as_slice()));
        state.apply_lines(&read);
        n = n + 1;
    }
    out
}

// ---------------------------------------------------------------------------
// Logical lines
// ---------------------------------------------------------------------------

/// A statement that goes on over several lines.
struct Pending {
    current: Vec<char>,
    start: usize,
    out: Vec<(usize, String)>,
}

impl DeepView for Pending {
    type V = ssr::Pending;

    closed spec fn deep_view(&self) -> ssr::Pending {
        ssr::Pending {
            current: self.current@,
            start: self.start,
            out: self.out.deep_view(),
        }
    }
}

/// Puts characters at the end of a list of characters.
fn extend(v: &mut Vec<char>, s: &[char])
    ensures
        final(v)@ == old(v)@ + s@,
{
    let ghost before = v@;
    let mut i: usize = 0;
    while i < s.len()
        invariant
            i <= s@.len(),
            v@ =~= before + s@.take(i as int),
        decreases s@.len() - i,
    {
        v.push(s[i]);
        i = i + 1;
    }
    assert(s@.take(i as int) =~= s@);
}

impl Pending {
    fn new() -> (r: Pending)
        ensures
            r.deep_view() == ssr::nothing_pending(),
    {
        let r = Pending { current: Vec::new(), start: 0, out: empty() };
        assert(r.current@ =~= Seq::empty());
        r
    }

    /// Puts the pending statement behind the lines.
    fn flush(&mut self)
        ensures
            final(self).deep_view().out == ssr::finish(old(self).deep_view()),
            final(self).deep_view().current == Seq::<char>::empty(),
            final(self).deep_view().start == old(self).deep_view().start,
    {
        if self.current.len() > 0 {
            put(&mut self.out, (self.start, text(trim(self.current.as_slice()))));
        }
        self.current = Vec::new();
        assert(self.current@ =~= Seq::empty());
    }

    /// Takes in a line in free form.
    fn free_step(&mut self, number: usize, line: &[char])
        ensures
            final(self).deep_view() == ssr::free_step(old(self).deep_view(), (number, line@)),
    {
        let raw = trim_end(line);
        let trimmed = trim_end(strip_inline_comment(line));
        let head = trim_start(raw);
        let comment_only: bool = starts_with_char(head, '!');
        if is_blank(raw) && self.current.len() > 0 {
            return ;
        }
        if starts_with_char(head, '#') {
            put(&mut self.out, (number, text(trim(raw))));
            return ;
        }
        if comment_only && self.current.len() > 0 {
            return ;
        }
        if comment_only {
            put(&mut self.out, (number, text(trim(raw))));
            return ;
        }
        let part = trim_start(trim_start_char(trim_end(trim_end_char(trimmed, '&')), '&'));
        if self.current.len() == 0 {
            self.start = number;
            assert(self.current@ + part@ =~= part@);
        } else {
            self.current.push(' ');
        }
        extend(&mut self.current, part);
        if !ends_with_char(trimmed, '&') {
            put(&mut self.out, (self.start, text(trim(self.current.as_slice()))));
            self.current = Vec::new();
            assert(self.current@ =~= Seq::empty());
        }
    }

    /// Takes in a line in fixed form.
    fn fixed_step(&mut self, number: usize, line: &[char])
        ensures
            final(self).deep_view() == ssr::fixed_step(old(self).deep_view(), (number, line@)),
    {
        if is_fixed_comment(line) {
            return ;
        }
        let raw = trim_end(line);
        if starts_with_char(trim_start(raw), '#') {
            put(&mut self.out, (number, text(trim(raw))));
            return ;
        }
        let body = fixed_body(line);
        if is_fixed_continuation(line) && self.current.len() > 0 {
            self.current.push(' ');
            extend(&mut self.current, trim_start(body));
            return ;
        }
        self.flush();
        self.start = number;
        let statement = trim(body);
        assert(self.current@ + statement@ =~= statement@);
        extend(&mut self.current, statement);
    }
}

/// The logical lines of a source in free form.
pub fn free_logical_lines(lines: &Vec<(usize, String)>) -> (r: Vec<(usize, String)>)
    ensures
        r.deep_view() == ssr::free_logical_lines(lines.deep_view()),
{
    let mut pending = Pending::new();
    let mut i: usize = 0;
    while i < lines.len()
        invariant
            i <= lines@.len(),
            ssr::free_logical_lines(lines.deep_view()) == ssr::free_from(
                lines.deep_view(),
                i as int,
                pending.deep_view(),
            ),
        decreases lines@.len() - i,
    {
        let line = chars(lines[i].1.as_str());
        assert(lines.deep_view()[i as int] == (lines@[i as int].0, line@));
        pending.free_step(lines[i].0, line.as_slice());
        i = i + 1;
    }
    pending.flush();
    pending.out
}

/// Whether a line in fixed form is a comment.
pub fn is_fixed_comment(line: &[char]) -> (r: bool)
    ensures
        r == ssr::is_fixed_comment(line@),
{
    line.len() > 0 && (line[0] == 'c' || line[0] == 'C' || line[0] == '*' || line[0] == '!')
}

/// Whether a line in fixed form goes on with the statement before it.
pub fn is_fixed_continuation(line: &[char]) -> (r: bool)
    ensures
        r == ssr::is_fixed_continuation(line@),
{
    if byte_len(line) <= 5 {
        return false;
    }
    match get_bytes(line, 5) {
        Some(rest) => !(starts_with_char(rest, ' ') || starts_with_char(rest, '0')),
        None => true,
    }
}

/// The part of a line in fixed form that holds the statement.
fn fixed_body<'a>(line: &'a [char]) -> (r: &'a [char])
    ensures
        r@ == ssr::fixed_body(line@),
{
    if byte_len(line) > 6 {
        skip_bytes(take_bytes(line, 72), 6)
    } else {
        let nothing = take(line, 0);
        assert(nothing@ =~= Seq::empty());
        nothing
    }
}

/// The logical lines of a source in fixed form.
pub fn fixed_logical_lines(lines: &Vec<(usize, String)>) -> (r: Vec<(usize, String)>)
    ensures
        r.deep_view() == ssr::fixed_logical_lines(lines.deep_view()),
{
    let mut pending = Pending::new();
    let mut i: usize = 0;
    while i < lines.len()
        invariant
            i <= lines@.len(),
            ssr::fixed_logical_lines(lines.deep_view()) == ssr::fixed_from(
                lines.deep_view(),
                i as int,
                pending.deep_view(),
            ),
        decreases lines@.len() - i,
    {
        let line = chars(lines[i].1.as_str());
        assert(lines.deep_view()[i as int] == (lines@[i as int].0, line@));
        pending.fixed_step(lines[i].0, line.as_slice());
        i = i + 1;
    }
    pending.flush();
    pending.out
}

/// The logical lines of a file: directives, comments and whole statements,
/// each with the number of its first line.
pub fn logical_lines(
    files: &Vec<SourceFile>,
    path: &str,
    source: &str,
    predefined: &Table<String, String>,
) -> (r: Vec<(usize, String)>)
    ensures
        r.deep_view() == ssr::logical_lines(
            files.deep_view(),
            path@,
            source@,
            predefined.deep_view(),
        ),
{
    let physical = physical_lines(files, path, source);
    let kept = filter_inactive_preprocessor_lines(&physical, predefined);
    if is_fixed_form_path(path) {
        fixed_logical_lines(&kept)
    } else {
        free_logical_lines(&kept)
    }
}

} // verus!
