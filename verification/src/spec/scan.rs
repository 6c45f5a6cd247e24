//! Quotes, parentheses and separators in a line of Fortran.

use vstd::prelude::*;

use crate::spec::text as st;
use crate::spec::text::Text;

verus! {

/// Which kind of character literal a scan is in.
pub struct Quotes {
    pub single: bool,
    pub double: bool,
}

/// Outside of any literal.
pub open spec fn unquoted() -> Quotes {
    Quotes { single: false, double: false }
}

pub open spec fn quoted(q: Quotes) -> bool {
    q.single || q.double
}

/// The state behind the character `c`.
pub open spec fn quote_step(q: Quotes, c: char) -> Quotes {
    if c == '\'' && !q.double {
        Quotes { single: !q.single, double: q.double }
    } else if c == '"' && !q.single {
        Quotes { single: q.single, double: !q.double }
    } else {
        q
    }
}

/// A depth after a closing delimiter; one too many does not count.
pub open spec fn up(depth: nat) -> nat {
    if depth == 0 {
        0
    } else {
        (depth - 1) as nat
    }
}

// ---------------------------------------------------------------------------
// Comments and statements
// ---------------------------------------------------------------------------

/// The index at or after `i` at which a comment starts, or the end.
pub open spec fn comment_start(s: Text, q: Quotes, i: int) -> int
    decreases s.len() - i,
{
    if i >= s.len() {
        s.len() as int
    } else if s[i] == '!' && !quoted(q) {
        i
    } else {
        comment_start(s, quote_step(q, s[i]), i + 1)
    }
}

/// A line without its comment.
pub open spec fn strip_inline_comment(s: Text) -> Text {
    s.take(comment_start(s, unquoted(), 0))
}

/// The statement between `start` and `end`, which keeps its byte column; none
/// where the stretch is blank.
pub open spec fn add_statement(line: Text, start: int, end: int, out: Seq<Text>) -> Seq<Text> {
    let segment = line.subrange(start, end);
    if st::is_blank(segment) {
        out
    } else {
        out.push(st::blanks(st::size(st::byte_len(line.take(start))) as nat) + st::trim_end(segment))
    }
}

/// The statements of a line from index `i` on.
pub open spec fn statements_from(
    line: Text,
    start: int,
    i: int,
    q: Quotes,
    out: Seq<Text>,
) -> Seq<Text>
    decreases line.len() - i,
{
    if i >= line.len() {
        add_statement(line, start, line.len() as int, out)
    } else if line[i] == ';' && !quoted(q) {
        statements_from(line, i + 1, i + 1, q, add_statement(line, start, i, out))
    } else {
        statements_from(line, start, i + 1, quote_step(q, line[i]), out)
    }
}

/// The statements that semicolons separate on a line, each at its column.
pub open spec fn split_statement_line(line: Text) -> Seq<Text> {
    statements_from(line, 0, 0, unquoted(), Seq::empty())
}

// ---------------------------------------------------------------------------
// Commas
// ---------------------------------------------------------------------------

/// The parts of a list from index `i` on, inside `parens` parentheses and
/// `brackets` brackets.
pub open spec fn commas_from(
    s: Text,
    start: int,
    i: int,
    q: Quotes,
    parens: nat,
    brackets: nat,
    out: Seq<Text>,
) -> Seq<Text>
    decreases s.len() - i,
{
    if i >= s.len() {
        out.push(s.skip(start))
    } else {
        let c = s[i];
        let next = quote_step(q, c);
        if quoted(q) {
            commas_from(s, start, i + 1, next, parens, brackets, out)
        } else if c == '(' {
            commas_from(s, start, i + 1, next, parens + 1, brackets, out)
        } else if c == ')' {
            commas_from(s, start, i + 1, next, up(parens), brackets, out)
        } else if c == '[' {
            commas_from(s, start, i + 1, next, parens, brackets + 1, out)
        } else if c == ']' {
            commas_from(s, start, i + 1, next, parens, up(brackets), out)
        } else if c == ',' && parens == 0 && brackets == 0 {
            commas_from(s, i + 1, i + 1, next, parens, brackets, out.push(s.subrange(start, i)))
        } else {
            commas_from(s, start, i + 1, next, parens, brackets, out)
        }
    }
}

/// The parts of a list that commas separate outside of literals, parentheses
/// and brackets.
pub open spec fn split_top_level_commas(s: Text) -> Seq<Text> {
    commas_from(s, 0, 0, unquoted(), 0, 0, Seq::empty())
}

/// The number of commas from index `i` on that are outside of literals and
/// parentheses.
pub open spec fn count_commas_from(s: Text, i: int, q: Quotes, depth: nat) -> nat
    decreases s.len() - i,
{
    if i >= s.len() {
        0
    } else {
        let c = s[i];
        let next = quote_step(q, c);
        if quoted(q) {
            count_commas_from(s, i + 1, next, depth)
        } else if c == '(' {
            count_commas_from(s, i + 1, next, depth + 1)
        } else if c == ')' {
            count_commas_from(s, i + 1, next, up(depth))
        } else if c == ',' && depth == 0 {
            1 + count_commas_from(s, i + 1, next, depth)
        } else {
            count_commas_from(s, i + 1, next, depth)
        }
    }
}

pub open spec fn count_top_level_commas(s: Text) -> nat {
    count_commas_from(s, 0, unquoted(), 0)
}

/// The first equals sign at or after `i` that is outside of literals and
/// parentheses.
pub open spec fn equals_from(s: Text, i: int, q: Quotes, depth: nat) -> Option<int>
    decreases s.len() - i,
{
    if i >= s.len() {
        None
    } else {
        let c = s[i];
        let next = quote_step(q, c);
        if quoted(q) {
            equals_from(s, i + 1, next, depth)
        } else if c == '(' {
            equals_from(s, i + 1, next, depth + 1)
        } else if c == ')' {
            equals_from(s, i + 1, next, up(depth))
        } else if c == '=' && depth == 0 {
            Some(i)
        } else {
            equals_from(s, i + 1, next, depth)
        }
    }
}

pub open spec fn top_level_equals(s: Text) -> Option<int> {
    equals_from(s, 0, unquoted(), 0)
}

// ---------------------------------------------------------------------------
// Parentheses
// ---------------------------------------------------------------------------

/// The parentheses that are open at the end of a text, outermost first, when
/// `stack` are open at index `i`.
pub open spec fn open_parens_from(s: Text, i: int, q: Quotes, stack: Seq<usize>) -> Seq<usize>
    decreases s.len() - i,
{
    if i >= s.len() {
        stack
    } else {
        let c = s[i];
        let next = quote_step(q, c);
        if quoted(q) {
            open_parens_from(s, i + 1, next, stack)
        } else if c == '(' {
            open_parens_from(s, i + 1, next, stack.push(i as usize))
        } else if c == ')' {
            open_parens_from(s, i + 1, next, if stack.len() == 0 { stack } else { stack.drop_last() })
        } else {
            open_parens_from(s, i + 1, next, stack)
        }
    }
}

/// The innermost parenthesis that is open at the end of a text.
pub open spec fn find_unclosed_call_paren(s: Text) -> Option<usize> {
    let stack = open_parens_from(s, 0, unquoted(), Seq::empty());
    if stack.len() == 0 {
        None
    } else {
        Some(stack.last())
    }
}

/// The index at or after `i` at which the first of `depth` open parentheses is
/// closed.
pub open spec fn closing_from(s: Text, i: int, depth: nat) -> Option<int>
    decreases s.len() - i,
{
    if i >= s.len() {
        None
    } else if s[i] == '(' {
        closing_from(s, i + 1, depth + 1)
    } else if s[i] == ')' {
        if depth == 0 {
            None
        } else if depth == 1 {
            Some(i)
        } else {
            closing_from(s, i + 1, (depth - 1) as nat)
        }
    } else {
        closing_from(s, i + 1, depth)
    }
}

/// The index of the parenthesis that closes the one at `open`.
pub open spec fn matching_paren_index(s: Text, open: int) -> Option<int> {
    if 0 <= open < s.len() && s[open] == '(' {
        closing_from(s, open, 0)
    } else {
        None
    }
}

/// The index behind the first group in parentheses.
pub open spec fn matching_paren_end(s: Text) -> Option<int> {
    match closing_from(s, 0, 0) {
        Some(i) => Some(i + 1),
        None => None,
    }
}

/// What stands between the first opening parenthesis and the next closing one.
pub open spec fn paren_content(s: Text) -> Option<Text> {
    match st::find_char(s, '(') {
        Some(i) => match st::find_char(s.skip(i + 1), ')') {
            Some(j) => Some(s.skip(i + 1).take(j)),
            None => None,
        },
        None => None,
    }
}

/// The contents of the outermost groups in parentheses from index `i` on,
/// where the group that is open there began at `start`.
pub open spec fn groups_from(
    s: Text,
    i: int,
    depth: nat,
    start: Option<int>,
    out: Seq<Text>,
) -> Seq<Text>
    decreases s.len() - i,
{
    if i >= s.len() {
        out
    } else if s[i] == '(' {
        groups_from(s, i + 1, depth + 1, if depth == 0 { Some(i + 1) } else { start }, out)
    } else if s[i] == ')' {
        if up(depth) == 0 {
            match start {
                Some(a) => groups_from(s, i + 1, 0, None, out.push(s.subrange(a, i))),
                None => groups_from(s, i + 1, 0, None, out),
            }
        } else {
            groups_from(s, i + 1, up(depth), start, out)
        }
    } else {
        groups_from(s, i + 1, depth, start, out)
    }
}

/// The contents of the outermost groups in parentheses.
pub open spec fn parenthesized_groups(s: Text) -> Seq<Text> {
    groups_from(s, 0, 0, None, Seq::empty())
}

// ---------------------------------------------------------------------------
// Operators
// ---------------------------------------------------------------------------

/// The depth in parentheses behind the character `c`.
pub open spec fn depth_step(depth: nat, c: char) -> nat {
    if c == '(' {
        depth + 1
    } else if c == ')' {
        up(depth)
    } else {
        depth
    }
}

/// The parts that `op` separates outside of parentheses, from index `i` on.
pub open spec fn operator_from(
    s: Text,
    op: Text,
    start: int,
    i: int,
    depth: nat,
    out: Seq<Text>,
) -> Seq<Text>
    recommends
        op.len() > 0,
    decreases s.len() - i,
{
    if i >= s.len() {
        out.push(st::trim(s.skip(start)))
    } else {
        let next = depth_step(depth, s[i]);
        if next == 0 && st::occurs_at(s, op, i) && op.len() > 0 {
            operator_from(s, op, i + op.len(), i + op.len(), next, out.push(st::trim(s.subrange(start, i))))
        } else {
            operator_from(s, op, start, i + 1, next, out)
        }
    }
}

/// The parts that `op` separates outside of parentheses; none where it does
/// not occur there.
pub open spec fn split_top_level_operator(s: Text, op: Text) -> Option<Seq<Text>> {
    let parts = operator_from(s, op, 0, 0, 0, Seq::empty());
    if parts.len() > 1 {
        Some(parts)
    } else {
        None
    }
}

/// The two parts that `op` separates, where it occurs just once.
pub open spec fn split_top_level_once(s: Text, op: Text) -> Option<(Text, Text)> {
    match split_top_level_operator(s, op) {
        Some(parts) => if parts.len() == 2 {
            Some((parts[0], parts[1]))
        } else {
            None
        },
        None => None,
    }
}

// ---------------------------------------------------------------------------
// Slashes
// ---------------------------------------------------------------------------

/// One group of a `common` or `namelist` list: the name between slashes, if
/// any, and what follows it.
pub type SlashGroup = (Option<Text>, Text);

/// The group that is being read, put behind the finished ones unless it is
/// empty.
pub open spec fn close_group(block: Option<Text>, items: Text, out: Seq<SlashGroup>) -> Seq<SlashGroup> {
    if !st::is_blank(items) || block is Some {
        out.push((block, items))
    } else {
        out
    }
}

/// The groups from index `i` on. Behind a name the scan goes on after as many
/// characters as the name has bytes.
pub open spec fn slash_groups_from(
    s: Text,
    i: int,
    depth: nat,
    block: Option<Text>,
    items: Text,
    out: Seq<SlashGroup>,
) -> Seq<SlashGroup>
    decreases s.len() - i,
{
    if i >= s.len() {
        close_group(block, items, out)
    } else if s[i] == '/' && depth == 0 {
        let tail = s.skip(i + 1);
        match st::find_char(tail, '/') {
            Some(end) => {
                let next = i + 1 + st::size(st::byte_len(tail.take(end))) + 1;
                slash_groups_from(
                    s,
                    if next < s.len() {
                        next
                    } else {
                        s.len() as int
                    },
                    depth,
                    Some(st::trim(tail.take(end))),
                    Seq::empty(),
                    close_group(block, items, out),
                )
            },
            None => close_group(block, items, out),
        }
    } else {
        slash_groups_from(s, i + 1, depth_step(depth, s[i]), block, items.push(s[i]), out)
    }
}

/// The groups of a list such as `/name/ a, b /other/ c`.
pub open spec fn split_slash_delimited_groups(s: Text) -> Seq<SlashGroup> {
    slash_groups_from(s, 0, 0, None, Seq::empty(), Seq::empty())
}

// ---------------------------------------------------------------------------
// Facts
// ---------------------------------------------------------------------------

/// A closing parenthesis stands behind the opening one.
pub proof fn lemma_closing(s: Text, i: int, depth: nat)
    requires
        0 <= i,
    ensures
        closing_from(s, i, depth) matches Some(k) ==> i <= k < s.len() && s[k] == ')',
    decreases s.len() - i,
{
    if i < s.len() {
        if s[i] == '(' {
            lemma_closing(s, i + 1, depth + 1);
        } else if s[i] == ')' {
            if depth > 1 {
                lemma_closing(s, i + 1, (depth - 1) as nat);
            }
        } else {
            lemma_closing(s, i + 1, depth);
        }
    }
}

/// The partner of a parenthesis stands behind it.
pub proof fn lemma_matching_paren(s: Text, open: int)
    ensures
        matching_paren_index(s, open) matches Some(k) ==> 0 <= open < k < s.len(),
{
    if 0 <= open {
        lemma_closing(s, open, 0);
    }
}

} // verus!
