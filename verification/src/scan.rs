//! Quotes, parentheses and separators in a line of Fortran.

use vstd::prelude::*;
use vstd::slice::slice_subrange;

use crate::spec::scan as ss;
use crate::spec::text as st;
use crate::text::{
    byte_len, chars, find_char, is_blank, occurs_at, push_blanks, push_chars, skip, take, text,
    trim, trim_end,
};

verus! {

/// Which kind of character literal a scan is in.
#[derive(Clone, Copy)]
pub struct Quotes {
    pub single: bool,
    pub double: bool,
}

impl View for Quotes {
    type V = ss::Quotes;

    open spec fn view(&self) -> ss::Quotes {
        ss::Quotes { single: self.single, double: self.double }
    }
}

impl Quotes {
    /// Outside of any literal.
    pub fn new() -> (r: Quotes)
        ensures
            r@ == ss::unquoted(),
    {
        Quotes { single: false, double: false }
    }

    pub fn quoted(self) -> (r: bool)
        ensures
            r == ss::quoted(self@),
    {
        self.single || self.double
    }

    /// The state behind the character `c`.
    pub fn step(self, c: char) -> (r: Quotes)
        ensures
            r@ == ss::quote_step(self@, c),
    {
        if c == '\'' && !self.double {
            Quotes { single: !self.single, double: self.double }
        } else if c == '"' && !self.single {
            Quotes { single: self.single, double: !self.double }
        } else {
            self
        }
    }
}

// ---------------------------------------------------------------------------
// Comments and statements
// ---------------------------------------------------------------------------

/// A line without its comment.
pub fn strip_inline_comment<'a>(s: &'a [char]) -> (r: &'a [char])
    ensures
        r@ == ss::strip_inline_comment(s@),
{
    let mut q = Quotes::new();
    let mut i: usize = 0;
    while i < s.len()
        invariant
            i <= s@.len(),
            ss::comment_start(s@, ss::unquoted(), 0) == ss::comment_start(s@, q@, i as int),
        decreases s@.len() - i,
    {
        if s[i] == '!' && !q.quoted() {
            return take(s, i);
        }
        q = q.step(s[i]);
        i = i + 1;
    }
    take(s, i)
}

/// Adds the statement between `start` and `end`, at its byte column.
fn add_statement(line: &[char], start: usize, end: usize, out: &mut Vec<String>)
    requires
        start <= end <= line@.len(),
    ensures
        final(out).deep_view() == ss::add_statement(
            line@,
            start as int,
            end as int,
            old(out).deep_view(),
        ),
{
    let segment = slice_subrange(line, start, end);
    if is_blank(segment) {
        return ;
    }
    let mut padded = String::new();
    push_blanks(&mut padded, byte_len(take(line, start)));
    push_chars(&mut padded, trim_end(segment));
    let ghost before = out.deep_view();
    let ghost added = padded@;
    out.push(padded);
    assert(out.deep_view() =~= before.push(added));
    assert(added =~= st::blanks(st::size(st::byte_len(line@.take(start as int))) as nat)
        + st::trim_end(segment@));
}

/// The statements that semicolons separate on a line, each at its column.
pub fn split_statement_line(line: &[char]) -> (r: Vec<String>)
    ensures
        r.deep_view() == ss::split_statement_line(line@),
{
    let mut out: Vec<String> = Vec::new();
    let mut start: usize = 0;
    let mut q = Quotes::new();
    let mut i: usize = 0;
    assert(out.deep_view() =~= Seq::empty());
    while i < line.len()
        invariant
            start <= i <= line@.len(),
            ss::split_statement_line(line@) == ss::statements_from(
                line@,
                start as int,
                i as int,
                q@,
                out.deep_view(),
            ),
        decreases line@.len() - i,
    {
        if line[i] == ';' && !q.quoted() {
            add_statement(line, start, i, &mut out);
            start = i + 1;
        } else {
            q = q.step(line[i]);
        }
        i = i + 1;
    }
    add_statement(line, start, line.len(), &mut out);
    out
}

// ---------------------------------------------------------------------------
// Commas
// ---------------------------------------------------------------------------

/// The parts of a list that commas separate at the top level.
pub fn split_top_level_commas(s: &[char]) -> (r: Vec<String>)
    ensures
        r.deep_view() == ss::split_top_level_commas(s@),
        r@.len() > 0,
{
    let mut out: Vec<String> = Vec::new();
    let mut start: usize = 0;
    let mut q = Quotes::new();
    let mut parens: usize = 0;
    let mut brackets: usize = 0;
    let mut i: usize = 0;
    assert(out.deep_view() =~= Seq::empty());
    while i < s.len()
        invariant
            start <= i <= s@.len(),
            parens <= i,
            brackets <= i,
            ss::split_top_level_commas(s@) == ss::commas_from(
                s@,
                start as int,
                i as int,
                q@,
                parens as nat,
                brackets as nat,
                out.deep_view(),
            ),
        decreases s@.len() - i,
    {
        let c: char = s[i];
        if !q.quoted() {
            if c == '(' {
                parens = parens + 1;
            } else if c == ')' {
                if parens > 0 {
                    parens = parens - 1;
                }
            } else if c == '[' {
                brackets = brackets + 1;
            } else if c == ']' {
                if brackets > 0 {
                    brackets = brackets - 1;
                }
            } else if c == ',' && parens == 0 && brackets == 0 {
                let ghost before = out.deep_view();
                out.push(text(slice_subrange(s, start, i)));
                assert(out.deep_view() =~= before.push(s@.subrange(start as int, i as int)));
                start = i + 1;
            }
        }
        q = q.step(c);
        i = i + 1;
    }
    let ghost before = out.deep_view();
    out.push(text(skip(s, start)));
    assert(out.deep_view() =~= before.push(s@.skip(start as int)));
    out
}

/// The number of commas outside of literals and parentheses.
pub fn count_top_level_commas(s: &[char]) -> (r: usize)
    ensures
        r == ss::count_top_level_commas(s@),
        r <= s@.len(),
{
    let mut q = Quotes::new();
    let mut depth: usize = 0;
    let mut count: usize = 0;
    let mut i: usize = 0;
    while i < s.len()
        invariant
            count <= i <= s@.len(),
            depth <= i,
            ss::count_top_level_commas(s@) == count + ss::count_commas_from(
                s@,
                i as int,
                q@,
                depth as nat,
            ),
        decreases s@.len() - i,
    {
        let c: char = s[i];
        if !q.quoted() {
            if c == '(' {
                depth = depth + 1;
            } else if c == ')' {
                if depth > 0 {
                    depth = depth - 1;
                }
            } else if c == ',' && depth == 0 {
                count = count + 1;
            }
        }
        q = q.step(c);
        i = i + 1;
    }
    count
}

/// The first equals sign outside of literals and parentheses.
pub fn top_level_equals(s: &[char]) -> (r: Option<usize>)
    ensures
        st::at(r) == ss::top_level_equals(s@),
        r matches Some(i) ==> i < s@.len(),
{
    let mut q = Quotes::new();
    let mut depth: usize = 0;
    let mut i: usize = 0;
    while i < s.len()
        invariant
            i <= s@.len(),
            depth <= i,
            ss::top_level_equals(s@) == ss::equals_from(s@, i as int, q@, depth as nat),
        decreases s@.len() - i,
    {
        let c: char = s[i];
        if !q.quoted() {
            if c == '(' {
                depth = depth + 1;
            } else if c == ')' {
                if depth > 0 {
                    depth = depth - 1;
                }
            } else if c == '=' && depth == 0 {
                return Some(i);
            }
        }
        q = q.step(c);
        i = i + 1;
    }
    None
}

// ---------------------------------------------------------------------------
// Parentheses
// ---------------------------------------------------------------------------

/// The innermost parenthesis that is open at the end of a text.
pub fn find_unclosed_call_paren(s: &[char]) -> (r: Option<usize>)
    ensures
        r == ss::find_unclosed_call_paren(s@),
        r matches Some(i) ==> i < s@.len(),
{
    let mut stack: Vec<usize> = Vec::new();
    let mut q = Quotes::new();
    let mut i: usize = 0;
    assert(stack@ =~= Seq::empty());
    while i < s.len()
        invariant
            i <= s@.len(),
            forall|k: int| 0 <= k < stack@.len() ==> #[trigger] stack@[k] < s@.len(),
            ss::open_parens_from(s@, 0, ss::unquoted(), Seq::empty()) == ss::open_parens_from(
                s@,
                i as int,
                q@,
                stack@,
            ),
        decreases s@.len() - i,
    {
        let c: char = s[i];
        if !q.quoted() {
            if c == '(' {
                stack.push(i);
            } else if c == ')' {
                let ghost before = stack@;
                let popped = stack.pop();
                assert(before.len() > 0 ==> stack@ =~= before.drop_last());
                assert(before.len() == 0 ==> stack@ =~= before);
            }
        }
        q = q.step(c);
        i = i + 1;
    }
    stack.pop()
}

/// The index at which the first parenthesis from `i` on is closed.
fn closing(s: &[char], open: usize) -> (r: Option<usize>)
    requires
        open <= s@.len(),
    ensures
        st::at(r) == ss::closing_from(s@, open as int, 0),
        r matches Some(i) ==> open < i < s@.len(),
{
    let mut depth: usize = 0;
    let mut i: usize = open;
    while i < s.len()
        invariant
            open <= i <= s@.len(),
            depth <= i - open,
            ss::closing_from(s@, open as int, 0) == ss::closing_from(s@, i as int, depth as nat),
        decreases s@.len() - i,
    {
        if s[i] == '(' {
            depth = depth + 1;
        } else if s[i] == ')' {
            if depth == 0 {
                return None;
            }
            if depth == 1 {
                return Some(i);
            }
            depth = depth - 1;
        }
        i = i + 1;
    }
    None
}

/// The index of the parenthesis that closes the one at `open`.
pub fn matching_paren_index(s: &[char], open: usize) -> (r: Option<usize>)
    ensures
        st::at(r) == ss::matching_paren_index(s@, open as int),
        r matches Some(i) ==> open < i < s@.len(),
{
    if open < s.len() && s[open] == '(' {
        closing(s, open)
    } else {
        None
    }
}

/// The index behind the first group in parentheses.
pub fn matching_paren_end(s: &[char]) -> (r: Option<usize>)
    ensures
        st::at(r) == ss::matching_paren_end(s@),
        r matches Some(i) ==> i <= s@.len(),
{
    let n: usize = s.len();
    match closing(s, 0) {
        Some(i) => Some(i + 1),
        None => None,
    }
}

/// What stands between the first opening parenthesis and the next closing one.
pub fn paren_content<'a>(s: &'a [char]) -> (r: Option<&'a [char]>)
    ensures
        st::slice(r) == ss::paren_content(s@),
{
    let n: usize = s.len();
    match find_char(s, '(') {
        Some(i) => {
            let tail = skip(s, i + 1);
            match find_char(tail, ')') {
                Some(j) => Some(take(tail, j)),
                None => None,
            }
        },
        None => None,
    }
}

/// The contents of the outermost groups in parentheses.
pub fn parenthesized_groups(s: &[char]) -> (r: Vec<String>)
    ensures
        r.deep_view() == ss::parenthesized_groups(s@),
{
    let mut out: Vec<String> = Vec::new();
    let mut depth: usize = 0;
    let mut start: Option<usize> = None;
    let mut i: usize = 0;
    assert(out.deep_view() =~= Seq::empty());
    while i < s.len()
        invariant
            i <= s@.len(),
            depth <= i,
            start matches Some(a) ==> a <= i,
            ss::parenthesized_groups(s@) == ss::groups_from(
                s@,
                i as int,
                depth as nat,
                st::at(start),
                out.deep_view(),
            ),
        decreases s@.len() - i,
    {
        if s[i] == '(' {
            if depth == 0 {
                start = Some(i + 1);
            }
            depth = depth + 1;
        } else if s[i] == ')' {
            if depth > 0 {
                depth = depth - 1;
            }
            if depth == 0 {
                if let Some(a) = start {
                    let ghost before = out.deep_view();
                    out.push(text(slice_subrange(s, a, i)));
                    assert(out.deep_view() =~= before.push(s@.subrange(a as int, i as int)));
                }
                start = None;
            }
        }
        i = i + 1;
    }
    out
}

// ---------------------------------------------------------------------------
// Operators
// ---------------------------------------------------------------------------

/// The depth in parentheses behind the character `c`.
pub fn depth_step(depth: usize, c: char) -> (r: usize)
    requires
        depth < usize::MAX,
    ensures
        r == ss::depth_step(depth as nat, c),
        r <= depth + 1,
{
    if c == '(' {
        depth + 1
    } else if c == ')' && depth > 0 {
        depth - 1
    } else {
        depth
    }
}

/// The parts that `op` separates outside of parentheses.
pub fn split_top_level_operator(s: &[char], op: &str) -> (r: Option<Vec<String>>)
    requires
        op@.len() > 0,
    ensures
        r.deep_view() == ss::split_top_level_operator(s@, op@),
{
    let op_chars = chars(op);
    let mut out: Vec<String> = Vec::new();
    let mut start: usize = 0;
    let mut depth: usize = 0;
    let mut i: usize = 0;
    assert(out.deep_view() =~= Seq::empty());
    while i < s.len()
        invariant
            start <= i <= s@.len(),
            depth <= i,
            op_chars@ == op@,
            op@.len() > 0,
            ss::operator_from(s@, op@, 0, 0, 0, Seq::empty()) == ss::operator_from(
                s@,
                op@,
                start as int,
                i as int,
                depth as nat,
                out.deep_view(),
            ),
        decreases s@.len() - i,
    {
        depth = depth_step(depth, s[i]);
        if depth == 0 && occurs_at(s, op_chars.as_slice(), i) {
            let ghost before = out.deep_view();
            out.push(text(trim(slice_subrange(s, start, i))));
            assert(out.deep_view() =~= before.push(st::trim(s@.subrange(start as int, i as int))));
            i = i + op_chars.len();
            start = i;
        } else {
            i = i + 1;
        }
    }
    let found: bool = out.len() > 0;
    let ghost before = out.deep_view();
    out.push(text(trim(skip(s, start))));
    assert(out.deep_view() =~= before.push(st::trim(s@.skip(start as int))));
    if found {
        Some(out)
    } else {
        None
    }
}

/// The two parts that `op` separates, where it occurs just once.
pub fn split_top_level_once(s: &[char], op: &str) -> (r: Option<(String, String)>)
    requires
        op@.len() > 0,
    ensures
        r.deep_view() == ss::split_top_level_once(s@, op@),
{
    match split_top_level_operator(s, op) {
        Some(parts) => {
            let ghost all = parts.deep_view();
            if parts.len() == 2 {
                let a = parts[0].clone();
                let b = parts[1].clone();
                assert(a@ == all[0] && b@ == all[1]);
                Some((a, b))
            } else {
                None
            }
        },
        None => None,
    }
}

// ---------------------------------------------------------------------------
// Slashes
// ---------------------------------------------------------------------------

/// Puts the group that is being read behind the finished ones unless it is
/// empty.
fn close_group(block: Option<String>, items: &Vec<char>, out: &mut Vec<(Option<String>, String)>)
    ensures
        final(out).deep_view() == ss::close_group(block.deep_view(), items@, old(out).deep_view()),
{
    if !is_blank(items.as_slice()) || block.is_some() {
        let ghost before = out.deep_view();
        let ghost group = (block.deep_view(), items@);
        out.push((block, text(items.as_slice())));
        assert(out.deep_view() =~= before.push(group));
    }
}

/// The groups of a list such as `/name/ a, b /other/ c`.
pub fn split_slash_delimited_groups(s: &[char]) -> (r: Vec<(Option<String>, String)>)
    ensures
        r.deep_view() == ss::split_slash_delimited_groups(s@),
{
    let mut out: Vec<(Option<String>, String)> = Vec::new();
    let mut block: Option<String> = None;
    let mut items: Vec<char> = Vec::new();
    let mut depth: usize = 0;
    let mut i: usize = 0;
    assert(out.deep_view() =~= Seq::empty());
    assert(items@ =~= Seq::empty());
    while i < s.len()
        invariant
            depth <= i,
            ss::split_slash_delimited_groups(s@) == ss::slash_groups_from(
                s@,
                i as int,
                depth as nat,
                block.deep_view(),
                items@,
                out.deep_view(),
            ),
        decreases s@.len() - i,
    {
        if s[i] == '/' && depth == 0 {
            let tail = skip(s, i + 1);
            close_group(block, &items, &mut out);
            match find_char(tail, '/') {
                Some(end) => {
                    let name = take(tail, end);
                    block = Some(text(trim(name)));
                    items = Vec::new();
                    assert(items@ =~= Seq::empty());
                    let width: usize = byte_len(name);
                    if width < s.len() - i - 1 {
                        i = i + 1 + width + 1;
                    } else {
                        i = s.len();
                    }
                },
                None => {
                    return out;
                },
            }
        } else {
            depth = depth_step(depth, s[i]);
            items.push(s[i]);
            i = i + 1;
        }
    }
    close_group(block, &items, &mut out);
    out
}

} // verus!
