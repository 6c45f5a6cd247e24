//! What stands at a position of a source file.

use vstd::prelude::*;
use vstd::slice::slice_subrange;

use crate::list::{empty, put};
use crate::model::{Position, Range};
use crate::scan::{
    count_top_level_commas, find_unclosed_call_paren, split_top_level_commas, strip_inline_comment,
    top_level_equals,
};
use crate::source::source_lines;
use crate::spec::cursor as su;
use crate::spec::text as st;
use crate::text::{
    chars, find_last, index_of_column, is_blank, is_fortran_name, is_ident, lower, name_begin,
    name_end, occurs_at, push_chars, same, same_word, skip, sum, take, text, trim, trim_end,
    utf16_len,
};

verus! {

// ---------------------------------------------------------------------------
// Words
// ---------------------------------------------------------------------------

/// The character of a line that a cursor in the column `character` is on.
fn cursor_index(line: &[char], character: usize) -> (r: usize)
    requires
        line@.len() > 0,
    ensures
        r == su::cursor_index(line@, character),
        r < line@.len(),
{
    let at: usize = index_of_column(line, character);
    let under: usize = if at < line.len() {
        at
    } else {
        line.len() - 1
    };
    if !is_ident(line[under]) && under > 0 {
        under - 1
    } else {
        under
    }
}

/// Where the word at a column of a line starts and ends.
fn word_bounds(line: &[char], character: usize) -> (r: Option<(usize, usize)>)
    ensures
        match r {
            Some((start, end)) => su::word_bounds(line@, character) == Some(
                (start as int, end as int),
            ) && start < end <= line@.len(),
            None => su::word_bounds(line@, character) is None,
        },
{
    if line.len() == 0 {
        return None;
    }
    let i: usize = cursor_index(line, character);
    if !is_ident(line[i]) {
        return None;
    }
    let n: usize = line.len();
    Some((name_begin(line, i), name_end(line, i + 1)))
}

/// The word at a column of a line.
pub fn word_at_line(line: &[char], character: usize) -> (r: Option<String>)
    ensures
        r.deep_view() == su::word_at_line(line@, character),
{
    match word_bounds(line, character) {
        Some((start, end)) => Some(text(slice_subrange(line, start, end))),
        None => None,
    }
}

/// The place between two characters of a line, in UTF-16 columns.
pub fn column_range(line: &[char], number: usize, start: usize, end: usize) -> (r: Range)
    requires
        start <= line@.len(),
        end <= line@.len(),
    ensures
        r == su::column_range(line@, number, start as int, end as int),
{
    Range::on_line(number, utf16_len(take(line, start)), utf16_len(take(line, end)))
}

/// The line with number `n`, if there is one.
fn numbered_line(source: &str, n: usize) -> (r: Option<Vec<char>>)
    ensures
        match r {
            Some(line) => n < st::lines(source@).len() && line@ == st::lines(source@)[n as int],
            None => n >= st::lines(source@).len(),
        },
{
    let all = source_lines(source);
    assert(all.deep_view().len() == all@.len());
    if n < all.len() {
        Some(chars(all[n].as_str()))
    } else {
        None
    }
}

/// The word at a position.
pub fn word_at_source(source: &str, pos: Position) -> (r: Option<String>)
    ensures
        r.deep_view() == su::word_at_source(source@, pos),
{
    match numbered_line(source, pos.line) {
        Some(line) => word_at_line(line.as_slice(), pos.character),
        None => None,
    }
}

/// The place of the word at a position.
pub fn word_range_at_source(source: &str, pos: Position) -> (r: Option<Range>)
    ensures
        r == su::word_range_at_source(source@, pos),
{
    match numbered_line(source, pos.line) {
        Some(line) => match word_bounds(line.as_slice(), pos.character) {
            Some((start, end)) => Some(column_range(line.as_slice(), pos.line, start, end)),
            None => None,
        },
        None => None,
    }
}

/// The part of a name before a column of a line.
pub fn identifier_prefix(line: &str, character: usize) -> (r: String)
    ensures
        r@ == su::identifier_prefix(line@, character),
{
    let all = chars(line);
    let prefix = take(all.as_slice(), index_of_column(all.as_slice(), character));
    text(skip(prefix, name_begin(prefix, prefix.len())))
}

// ---------------------------------------------------------------------------
// Occurrences
// ---------------------------------------------------------------------------

/// Adds the places of the runs of name characters of a line that are `name`.
fn add_occurrences(code: &[char], number: usize, name: &[char], out: &mut Vec<Range>)
    ensures
        final(out).deep_view() == su::occurrences_from(
            code@,
            number,
            name@,
            0,
            old(out).deep_view(),
        ),
{
    let ghost wanted = su::occurrences_from(code@, number, name@, 0, out.deep_view());
    let mut i: usize = 0;
    while i < code.len()
        invariant
            i <= code@.len(),
            wanted == su::occurrences_from(code@, number, name@, i as int, out.deep_view()),
        decreases code@.len() - i,
    {
        if !is_ident(code[i]) {
            i = i + 1;
        } else {
            proof {
                st::lemma_name_end(code@, i as int);
            }
            let end: usize = name_end(code, i);
            if same(slice_subrange(code, i, end), name) {
                put(out, column_range(code, number, i, end));
            }
            i = end;
        }
    }
}

/// The places of `name` outside of comments, case aside.
pub fn identifier_occurrences(source: &str, name: &str) -> (r: Vec<Range>)
    ensures
        r.deep_view() == su::identifier_occurrences(source@, name@),
{
    let all = source_lines(source);
    let wanted = chars(name);
    let mut out: Vec<Range> = empty();
    let mut n: usize = 0;
    while n < all.len()
        invariant
            n <= all@.len(),
            wanted@ == name@,
            su::identifier_occurrences(source@, name@) == su::line_occurrences_from(
                all.deep_view(),
                name@,
                n as int,
                out.deep_view(),
            ),
        decreases all@.len() - n,
    {
        let line = chars(all[n].as_str());
        add_occurrences(strip_inline_comment(line.as_slice()), n, wanted.as_slice(), &mut out);
        n = n + 1;
    }
    out
}

// ---------------------------------------------------------------------------
// Members
// ---------------------------------------------------------------------------

/// A component or a binding and the name of what it belongs to.
#[derive(Debug, PartialEq, Eq)]
pub struct MemberAccess {
    pub receiver: String,
    pub member: String,
}

impl DeepView for MemberAccess {
    type V = su::MemberAccess;

    open spec fn deep_view(&self) -> su::MemberAccess {
        su::MemberAccess { receiver: self.receiver@, member: self.member@ }
    }
}

/// The access whose member starts at `start`.
fn member_access_before(line: &[char], start: usize, member: &[char]) -> (r: Option<MemberAccess>)
    requires
        start <= line@.len(),
    ensures
        r.deep_view() == su::member_access_before(line@, start as int, member@),
{
    let before = trim_end(take(line, start));
    let n: usize = before.len();
    if n == 0 || !(before[n - 1] == '%' || before[n - 1] == '.') {
        return None;
    }
    let outer = take(before, n - 1);
    assert(outer@ =~= before@.drop_last());
    let prefix = trim_end(outer);
    let receiver = skip(prefix, name_begin(prefix, prefix.len()));
    if receiver.len() == 0 {
        None
    } else {
        Some(MemberAccess { receiver: text(receiver), member: text(member) })
    }
}

/// Whether a whole name stands between two indices of a line.
fn is_whole_name(line: &[char], start: usize, end: usize) -> (r: bool)
    requires
        start <= end <= line@.len(),
    ensures
        r == su::is_whole_name(line@, start as int, end as int),
{
    (start == 0 || !is_ident(line[start - 1])) && (end == line.len() || !is_ident(line[end]))
}

/// The first whole occurrence of `member` that reaches to the character `at`.
fn member_start(line: &[char], member: &[char], at: usize) -> (r: Option<usize>)
    requires
        member@.len() > 0,
    ensures
        st::at(r) == su::member_start_from(line@, member@, at as int, 0),
        r matches Some(i) ==> i <= line@.len(),
{
    let mut i: usize = 0;
    while i <= line.len()
        invariant
            i <= line@.len(),
            member@.len() > 0,
            su::member_start_from(line@, member@, at as int, 0) == su::member_start_from(
                line@,
                member@,
                at as int,
                i as int,
            ),
        decreases line@.len() - i,
    {
        proof {
            st::lemma_find(line@, member@, i as int);
        }
        match find_at(line, member, i) {
            Some(start) => {
                let end: usize = start + member.len();
                if is_whole_name(line, start, end) && start <= at && at <= end {
                    return Some(start);
                }
                i = end;
            },
            None => {
                return None;
            },
        }
    }
    None
}

/// The first index at or after `i` at which `p` stands.
fn find_at(s: &[char], p: &[char], i: usize) -> (r: Option<usize>)
    requires
        i <= s@.len(),
    ensures
        st::at(r) == st::find_from(s@, p@, i as int),
        r matches Some(k) ==> i <= k && k + p@.len() <= s@.len(),
{
    let n: usize = s.len();
    if p.len() > n {
        return None;
    }
    let mut k: usize = i;
    while k <= n - p.len()
        invariant
            i <= k <= n,
            p@.len() <= n,
            n == s@.len(),
            st::find_from(s@, p@, i as int) == st::find_from(s@, p@, k as int),
        decreases n + 1 - k,
    {
        if occurs_at(s, p, k) {
            return Some(k);
        }
        if k == n - p.len() {
            assert(st::find_from(s@, p@, k + 1) is None);
            return None;
        }
        k = k + 1;
    }
    None
}

/// The access to a member at a column of a line.
fn member_access_at_line(line: &[char], character: usize) -> (r: Option<MemberAccess>)
    ensures
        r.deep_view() == su::member_access_at_line(line@, character),
{
    match word_bounds(line, character) {
        Some((first, last)) => {
            let member = slice_subrange(line, first, last);
            let at: usize = index_of_column(line, character);
            match member_start(line, member, at) {
                Some(start) => member_access_before(line, start, member),
                None => match find_last(take(line, at), member) {
                    Some(start) => member_access_before(line, start, member),
                    None => None,
                },
            }
        },
        None => None,
    }
}

/// The access to a member at a position.
pub fn member_access_at_source(source: &str, pos: Position) -> (r: Option<MemberAccess>)
    ensures
        r.deep_view() == su::member_access_at_source(source@, pos),
{
    match numbered_line(source, pos.line) {
        Some(line) => member_access_at_line(line.as_slice(), pos.character),
        None => None,
    }
}

// ---------------------------------------------------------------------------
// Calls
// ---------------------------------------------------------------------------

/// A call whose arguments a cursor is in.
#[derive(Debug, PartialEq, Eq)]
pub struct CallContext {
    pub name: String,
    pub receiver: Option<String>,
    pub active_parameter: usize,
    pub active_argument_name: Option<String>,
    pub argument_count: usize,
}

impl DeepView for CallContext {
    type V = su::CallContext;

    open spec fn deep_view(&self) -> su::CallContext {
        su::CallContext {
            name: self.name@,
            receiver: self.receiver.deep_view(),
            active_parameter: self.active_parameter,
            active_argument_name: self.active_argument_name.deep_view(),
            argument_count: self.argument_count,
        }
    }
}

/// The text before a position.
fn source_prefix(source: &str, pos: Position) -> (r: String)
    ensures
        r@ == su::source_prefix(source@, pos),
{
    let all = source_lines(source);
    let mut out = String::new();
    assert(out@ =~= Seq::empty());
    let mut n: usize = 0;
    while n < all.len() && n <= pos.line
        invariant
            n <= all@.len(),
            all.deep_view().len() == all@.len(),
            su::source_prefix(source@, pos) == su::prefix_from(
                all.deep_view(),
                pos,
                n as int,
                out@,
            ),
        decreases all@.len() - n,
    {
        let line = chars(all[n].as_str());
        if n == pos.line {
            let at: usize = index_of_column(line.as_slice(), pos.character);
            push_chars(&mut out, take(line.as_slice(), at));
            return out;
        }
        push_chars(&mut out, line.as_slice());
        out.push('\n');
        n = n + 1;
    }
    out
}

/// The keyword of the last argument, in lower case.
fn active_keyword_argument(s: &[char]) -> (r: Option<String>)
    ensures
        r.deep_view() == su::active_keyword_argument(s@),
{
    let parts = split_top_level_commas(s);
    let ghost all = parts.deep_view();
    assert(all.len() == parts@.len());
    let active = chars(parts[parts.len() - 1].as_str());
    assert(active@ == all.last());
    match top_level_equals(active.as_slice()) {
        Some(eq) => {
            let name = trim(take(active.as_slice(), eq));
            if is_fortran_name(name) {
                let low = lower(name);
                Some(text(low.as_slice()))
            } else {
                None
            }
        },
        None => None,
    }
}

/// The call whose arguments a position is in.
pub fn call_context(source: &str, pos: Position) -> (r: Option<CallContext>)
    ensures
        r.deep_view() == su::call_context(source@, pos),
{
    let prefix_text = source_prefix(source, pos);
    let prefix_chars = chars(prefix_text.as_str());
    let prefix = prefix_chars.as_slice();
    let open: usize = match find_unclosed_call_paren(prefix) {
        Some(open) => open,
        None => {
            return None;
        },
    };
    let n: usize = prefix.len();
    let before = trim_end(take(prefix, open));
    let start: usize = name_begin(before, before.len());
    let name = skip(before, start);
    if name.len() == 0 || same_word(name, "call") {
        return None;
    }
    let args = skip(prefix, open + 1);
    let commas: usize = count_top_level_commas(args);
    let receiver = match member_access_before(before, start, name) {
        Some(access) => Some(access.receiver),
        None => None,
    };
    let argument_count: usize = if is_blank(args) {
        0
    } else {
        sum(commas, 1)
    };
    Some(
        CallContext {
            name: text(name),
            receiver,
            active_parameter: commas,
            active_argument_name: active_keyword_argument(args),
            argument_count,
        },
    )
}

} // verus!
