//! What stands at a position of a source file.

use vstd::prelude::*;

use crate::model::{Position, Range};
use crate::spec::model as sm;
use crate::spec::scan as ss;
use crate::spec::text as st;
use crate::spec::text::Text;

verus! {

// ---------------------------------------------------------------------------
// Words
// ---------------------------------------------------------------------------

/// The character of a line that a cursor in the column `character` is on: the
/// one under it, or the one before it where that can belong to a name.
pub open spec fn cursor_index(line: Text, character: usize) -> int {
    let at = st::index_of_column(line, character as nat);
    let under = if at < line.len() {
        at
    } else {
        line.len() - 1
    };
    if !st::is_ident(line[under]) && under > 0 {
        under - 1
    } else {
        under
    }
}

/// Where the word at a column of a line starts and ends.
pub open spec fn word_bounds(line: Text, character: usize) -> Option<(int, int)> {
    if line.len() == 0 || !st::is_ident(line[cursor_index(line, character)]) {
        None
    } else {
        let i = cursor_index(line, character);
        Some((st::name_begin(line, i), st::name_end(line, i + 1)))
    }
}

/// The word at a column of a line.
pub open spec fn word_at_line(line: Text, character: usize) -> Option<Text> {
    match word_bounds(line, character) {
        Some((start, end)) => Some(line.subrange(start, end)),
        None => None,
    }
}

/// The place between two characters of a line, in UTF-16 columns.
pub open spec fn column_range(line: Text, number: usize, start: int, end: int) -> Range {
    sm::on_line(
        number,
        st::size(st::utf16_len(line.take(start))),
        st::size(st::utf16_len(line.take(end))),
    )
}

/// The word at a position.
pub open spec fn word_at_source(source: Text, pos: Position) -> Option<Text> {
    if pos.line < st::lines(source).len() {
        word_at_line(st::lines(source)[pos.line as int], pos.character)
    } else {
        None
    }
}

/// The place of the word at a position.
pub open spec fn word_range_at_source(source: Text, pos: Position) -> Option<Range> {
    if pos.line < st::lines(source).len() {
        let line = st::lines(source)[pos.line as int];
        match word_bounds(line, pos.character) {
            Some((start, end)) => Some(column_range(line, pos.line, start, end)),
            None => None,
        }
    } else {
        None
    }
}

/// The part of a name before a column of a line.
pub open spec fn identifier_prefix(line: Text, character: usize) -> Text {
    let prefix = line.take(st::index_of_column(line, character as nat));
    prefix.skip(st::name_begin(prefix, prefix.len() as int))
}

// ---------------------------------------------------------------------------
// Occurrences
// ---------------------------------------------------------------------------

/// The places of the runs of name characters from index `i` on that are
/// `name`, behind `out`.
pub open spec fn occurrences_from(
    code: Text,
    number: usize,
    name: Text,
    i: int,
    out: Seq<Range>,
) -> Seq<Range>
    decreases code.len() - i,
{
    if i < 0 || i >= code.len() {
        out
    } else if !st::is_ident(code[i]) {
        occurrences_from(code, number, name, i + 1, out)
    } else {
        let end = st::name_end(code, i);
        proof {
            st::lemma_name_end(code, i);
        }
        occurrences_from(
            code,
            number,
            name,
            end,
            if st::same(code.subrange(i, end), name) {
                out.push(column_range(code, number, i, end))
            } else {
                out
            },
        )
    }
}

/// The places of `name` on the lines from `n` on, behind `out`.
pub open spec fn line_occurrences_from(
    lines: Seq<Text>,
    name: Text,
    n: int,
    out: Seq<Range>,
) -> Seq<Range>
    decreases lines.len() - n,
{
    if n >= lines.len() {
        out
    } else {
        line_occurrences_from(
            lines,
            name,
            n + 1,
            occurrences_from(ss::strip_inline_comment(lines[n]), n as usize, name, 0, out),
        )
    }
}

/// The places of `name` outside of comments, case aside.
pub open spec fn identifier_occurrences(source: Text, name: Text) -> Seq<Range> {
    line_occurrences_from(st::lines(source), name, 0, Seq::empty())
}

// ---------------------------------------------------------------------------
// Members
// ---------------------------------------------------------------------------

/// A component or a binding and the name of what it belongs to.
#[verifier::ext_equal]
pub struct MemberAccess {
    pub receiver: Text,
    pub member: Text,
}

/// The access whose member starts at `start`: a name and `%` or `.` stand
/// before it.
pub open spec fn member_access_before(line: Text, start: int, member: Text) -> Option<
    MemberAccess,
> {
    let before = st::trim_end(line.take(start));
    if before.len() == 0 || !(before.last() == '%' || before.last() == '.') {
        None
    } else {
        let prefix = st::trim_end(before.drop_last());
        let receiver = prefix.skip(st::name_begin(prefix, prefix.len() as int));
        if receiver.len() == 0 {
            None
        } else {
            Some(MemberAccess { receiver, member })
        }
    }
}

/// Whether a whole name stands between two indices of a line.
pub open spec fn is_whole_name(line: Text, start: int, end: int) -> bool {
    &&& start == 0 || !st::is_ident(line[start - 1])
    &&& end == line.len() || !st::is_ident(line[end])
}

/// The first whole occurrence of `member` from index `i` on that reaches to
/// the character `at`.
pub open spec fn member_start_from(line: Text, member: Text, at: int, i: int) -> Option<int>
    decreases line.len() - i,
{
    if i < 0 || i > line.len() || member.len() == 0 {
        None
    } else {
        match st::find_from(line, member, i) {
            Some(start) => {
                let end = start + member.len();
                proof {
                    st::lemma_find(line, member, i);
                }
                if is_whole_name(line, start, end) && start <= at <= end {
                    Some(start)
                } else {
                    member_start_from(line, member, at, end)
                }
            },
            None => None,
        }
    }
}

/// The access to a member at a column of a line.
pub open spec fn member_access_at_line(line: Text, character: usize) -> Option<MemberAccess> {
    match word_at_line(line, character) {
        Some(member) => {
            let at = st::index_of_column(line, character as nat);
            match member_start_from(line, member, at, 0) {
                Some(start) => member_access_before(line, start, member),
                None => match st::find_last_from(line.take(at), member, at) {
                    Some(start) => member_access_before(line, start, member),
                    None => None,
                },
            }
        },
        None => None,
    }
}

/// The access to a member at a position.
pub open spec fn member_access_at_source(source: Text, pos: Position) -> Option<MemberAccess> {
    if pos.line < st::lines(source).len() {
        member_access_at_line(st::lines(source)[pos.line as int], pos.character)
    } else {
        None
    }
}

// ---------------------------------------------------------------------------
// Calls
// ---------------------------------------------------------------------------

/// A call whose arguments a cursor is in.
#[verifier::ext_equal]
pub struct CallContext {
    pub name: Text,
    pub receiver: Option<Text>,
    pub active_parameter: usize,
    pub active_argument_name: Option<Text>,
    pub argument_count: usize,
}

/// The lines from `n` on up to a position, behind `out`.
pub open spec fn prefix_from(lines: Seq<Text>, pos: Position, n: int, out: Text) -> Text
    decreases lines.len() - n,
{
    if n >= lines.len() || n > pos.line {
        out
    } else if n == pos.line {
        out + lines[n].take(st::index_of_column(lines[n], pos.character as nat))
    } else {
        prefix_from(lines, pos, n + 1, (out + lines[n]).push('\n'))
    }
}

/// The text before a position.
pub open spec fn source_prefix(source: Text, pos: Position) -> Text {
    prefix_from(st::lines(source), pos, 0, Seq::empty())
}

/// The number of arguments that have begun.
pub open spec fn count_call_arguments(s: Text) -> nat {
    if st::is_blank(s) {
        0
    } else {
        ss::count_top_level_commas(s) + 1
    }
}

/// The keyword of the last argument, in lower case.
pub open spec fn active_keyword_argument(s: Text) -> Option<Text> {
    let active = ss::split_top_level_commas(s).last();
    match ss::top_level_equals(active) {
        Some(eq) => if st::is_fortran_name(st::trim(active.take(eq))) {
            Some(st::lower(st::trim(active.take(eq))))
        } else {
            None
        },
        None => None,
    }
}

/// The call whose arguments a position is in.
pub open spec fn call_context(source: Text, pos: Position) -> Option<CallContext> {
    let prefix = source_prefix(source, pos);
    match ss::find_unclosed_call_paren(prefix) {
        Some(open) => {
            let before = st::trim_end(prefix.take(open as int));
            let start = st::name_begin(before, before.len() as int);
            let name = before.skip(start);
            let args = prefix.skip(open + 1);
            if name.len() == 0 || st::same(name, "call"@) {
                None
            } else {
                Some(
                    CallContext {
                        name,
                        receiver: match member_access_before(before, start, name) {
                            Some(access) => Some(access.receiver),
                            None => None,
                        },
                        active_parameter: st::size(ss::count_top_level_commas(args)),
                        active_argument_name: active_keyword_argument(args),
                        argument_count: st::size(count_call_arguments(args)),
                    },
                )
            }
        },
        None => None,
    }
}

} // verus!
