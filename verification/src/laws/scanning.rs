//! Comments, statements and lists on a line.

use vstd::prelude::*;

use crate::spec::scan as ss;
use crate::spec::text as st;
use crate::spec::text::Text;

verus! {

proof fn lemma_comment_start(s: Text, q: ss::Quotes, i: int)
    requires
        0 <= i <= s.len(),
    ensures
        i <= ss::comment_start(s, q, i) <= s.len(),
        ss::comment_start(s.take(ss::comment_start(s, q, i)), q, i) == ss::comment_start(s, q, i),
    decreases s.len() - i,
{
    let k = ss::comment_start(s, q, i);
    let t = s.take(k);
    if i < s.len() && !(s[i] == '!' && !ss::quoted(q)) {
        lemma_comment_start(s, ss::quote_step(q, s[i]), i + 1);
        assert(t[i] == s[i]);
    }
}

/// Taking the comment off a line leaves a start of it, and taking it off once
/// more changes nothing.
pub proof fn law_strip_comment(s: Text)
    ensures
        ss::strip_inline_comment(s).is_prefix_of(s),
        ss::strip_inline_comment(ss::strip_inline_comment(s)) == ss::strip_inline_comment(s),
{
    lemma_comment_start(s, ss::unquoted(), 0);
    let t = ss::strip_inline_comment(s);
    assert(t.take(t.len() as int) =~= t);
}

/// A line without an exclamation mark has no comment.
pub proof fn law_no_comment(s: Text)
    requires
        !s.contains('!'),
    ensures
        ss::strip_inline_comment(s) == s,
{
    lemma_no_mark(s, ss::unquoted(), 0);
    assert(s.take(s.len() as int) =~= s);
}

proof fn lemma_no_mark(s: Text, q: ss::Quotes, i: int)
    requires
        0 <= i <= s.len(),
        !s.contains('!'),
    ensures
        ss::comment_start(s, q, i) == s.len(),
    decreases s.len() - i,
{
    if i < s.len() {
        assert(s.contains(s[i]));
        lemma_no_mark(s, ss::quote_step(q, s[i]), i + 1);
    }
}

/// One part less behind a separator.
proof fn lemma_join_two(out: Seq<Text>, a: Text, b: Text, sep: Text)
    ensures
        st::join(out.push(a).push(b), sep) == st::join(out.push(a + sep + b), sep),
{
    let two = out.push(a).push(b);
    let one = out.push(a + sep + b);
    assert(two.drop_last() =~= out.push(a));
    assert(one.drop_last() =~= out);
    if out.len() == 0 {
        assert(st::join(out.push(a), sep) == a);
        assert(st::join(one, sep) == a + sep + b);
    } else {
        assert(out.push(a).drop_last() =~= out);
        assert(st::join(out.push(a), sep) == st::join(out, sep) + sep + a);
        assert(st::join(two, sep) == st::join(out.push(a), sep) + sep + b);
        assert(st::join(two, sep) =~= st::join(out, sep) + sep + a + sep + b);
        assert(st::join(one, sep) =~= st::join(out, sep) + sep + a + sep + b);
    }
}

proof fn lemma_commas(
    s: Text,
    start: int,
    i: int,
    q: ss::Quotes,
    parens: nat,
    brackets: nat,
    out: Seq<Text>,
)
    requires
        0 <= start <= i <= s.len(),
    ensures
        st::join(ss::commas_from(s, start, i, q, parens, brackets, out), seq![',']) == st::join(
            out.push(s.skip(start)),
            seq![','],
        ),
    decreases s.len() - i,
{
    if i < s.len() {
        let c = s[i];
        let next = ss::quote_step(q, c);
        if ss::quoted(q) {
            lemma_commas(s, start, i + 1, next, parens, brackets, out);
        } else if c == '(' {
            lemma_commas(s, start, i + 1, next, parens + 1, brackets, out);
        } else if c == ')' {
            lemma_commas(s, start, i + 1, next, ss::up(parens), brackets, out);
        } else if c == '[' {
            lemma_commas(s, start, i + 1, next, parens, brackets + 1, out);
        } else if c == ']' {
            lemma_commas(s, start, i + 1, next, parens, ss::up(brackets), out);
        } else if c == ',' && parens == 0 && brackets == 0 {
            let part = s.subrange(start, i);
            lemma_commas(s, i + 1, i + 1, next, parens, brackets, out.push(part));
            lemma_join_two(out, part, s.skip(i + 1), seq![',']);
            assert(part + seq![','] + s.skip(i + 1) =~= s.skip(start));
        } else {
            lemma_commas(s, start, i + 1, next, parens, brackets, out);
        }
    }
}

/// The index at or after `i` of the next comma that separates parts, or the
/// end.
spec fn next_comma(s: Text, i: int, q: ss::Quotes, parens: nat, brackets: nat) -> int
    decreases s.len() - i,
{
    if i >= s.len() {
        s.len() as int
    } else {
        let c = s[i];
        let next = ss::quote_step(q, c);
        if ss::quoted(q) {
            next_comma(s, i + 1, next, parens, brackets)
        } else if c == '(' {
            next_comma(s, i + 1, next, parens + 1, brackets)
        } else if c == ')' {
            next_comma(s, i + 1, next, ss::up(parens), brackets)
        } else if c == '[' {
            next_comma(s, i + 1, next, parens, brackets + 1)
        } else if c == ']' {
            next_comma(s, i + 1, next, parens, ss::up(brackets))
        } else if c == ',' && parens == 0 && brackets == 0 {
            i
        } else {
            next_comma(s, i + 1, next, parens, brackets)
        }
    }
}

/// A part ends at the next comma.
proof fn lemma_next_comma(
    s: Text,
    start: int,
    i: int,
    q: ss::Quotes,
    parens: nat,
    brackets: nat,
    out: Seq<Text>,
)
    requires
        0 <= start <= i <= s.len(),
    ensures
        ({
            let e = next_comma(s, i, q, parens, brackets);
            &&& i <= e <= s.len()
            &&& ss::commas_from(s, start, i, q, parens, brackets, out) == if e >= s.len() {
                out.push(s.skip(start))
            } else {
                ss::commas_from(
                    s,
                    e + 1,
                    e + 1,
                    ss::unquoted(),
                    0,
                    0,
                    out.push(s.subrange(start, e)),
                )
            }
        }),
    decreases s.len() - i,
{
    if i < s.len() {
        let c = s[i];
        let next = ss::quote_step(q, c);
        if ss::quoted(q) {
            lemma_next_comma(s, start, i + 1, next, parens, brackets, out);
        } else if c == '(' {
            lemma_next_comma(s, start, i + 1, next, parens + 1, brackets, out);
        } else if c == ')' {
            lemma_next_comma(s, start, i + 1, next, ss::up(parens), brackets, out);
        } else if c == '[' {
            lemma_next_comma(s, start, i + 1, next, parens, brackets + 1, out);
        } else if c == ']' {
            lemma_next_comma(s, start, i + 1, next, parens, ss::up(brackets), out);
        } else if c == ',' && parens == 0 && brackets == 0 {
        } else {
            lemma_next_comma(s, start, i + 1, next, parens, brackets, out);
        }
    }
}

/// There is no such comma in a part by itself.
proof fn lemma_no_comma(
    s: Text,
    start: int,
    end: int,
    i: int,
    q: ss::Quotes,
    parens: nat,
    brackets: nat,
)
    requires
        0 <= start <= i <= end <= s.len(),
        end == next_comma(s, i, q, parens, brackets),
    ensures
        next_comma(s.subrange(start, end), i - start, q, parens, brackets) == end - start,
    decreases end - i,
{
    let part = s.subrange(start, end);
    if i < end {
        let c = s[i];
        let next = ss::quote_step(q, c);
        assert(part[i - start] == c);
        if ss::quoted(q) {
            lemma_no_comma(s, start, end, i + 1, next, parens, brackets);
        } else if c == '(' {
            lemma_no_comma(s, start, end, i + 1, next, parens + 1, brackets);
        } else if c == ')' {
            lemma_no_comma(s, start, end, i + 1, next, ss::up(parens), brackets);
        } else if c == '[' {
            lemma_no_comma(s, start, end, i + 1, next, parens, brackets + 1);
        } else if c == ']' {
            lemma_no_comma(s, start, end, i + 1, next, parens, ss::up(brackets));
        } else if c == ',' && parens == 0 && brackets == 0 {
        } else {
            lemma_no_comma(s, start, end, i + 1, next, parens, brackets);
        }
    }
}

/// Whether a list has one part only.
pub open spec fn is_one_part(s: Text) -> bool {
    ss::split_top_level_commas(s) == seq![s]
}

proof fn lemma_one_part(s: Text, start: int, end: int)
    requires
        0 <= start <= end <= s.len(),
        end == next_comma(s, start, ss::unquoted(), 0, 0),
    ensures
        is_one_part(s.subrange(start, end)),
{
    let part = s.subrange(start, end);
    lemma_no_comma(s, start, end, start, ss::unquoted(), 0, 0);
    lemma_next_comma(part, 0, 0, ss::unquoted(), 0, 0, Seq::empty());
    assert(part.skip(0) =~= part);
    assert(Seq::<Text>::empty().push(part) =~= seq![part]);
}

proof fn lemma_parts(s: Text, start: int, out: Seq<Text>)
    requires
        0 <= start <= s.len(),
        forall|k: int| 0 <= k < out.len() ==> is_one_part(#[trigger] out[k]),
    ensures
        ({
            let all = ss::commas_from(s, start, start, ss::unquoted(), 0, 0, out);
            forall|k: int| 0 <= k < all.len() ==> is_one_part(#[trigger] all[k])
        }),
    decreases s.len() - start,
{
    let e = next_comma(s, start, ss::unquoted(), 0, 0);
    lemma_next_comma(s, start, start, ss::unquoted(), 0, 0, out);
    lemma_one_part(s, start, e);
    if e >= s.len() {
        assert(s.subrange(start, e) =~= s.skip(start));
    } else {
        lemma_parts(s, e + 1, out.push(s.subrange(start, e)));
    }
}

/// The parts of a list, with commas between them, are the list, and no part
/// can be split further.
pub proof fn law_commas(s: Text)
    ensures
        st::join(ss::split_top_level_commas(s), seq![',']) == s,
        ss::split_top_level_commas(s).len() > 0,
        forall|k: int|
            0 <= k < ss::split_top_level_commas(s).len() ==> is_one_part(
                #[trigger] ss::split_top_level_commas(s)[k],
            ),
{
    lemma_parts(s, 0, Seq::empty());
    lemma_commas(s, 0, 0, ss::unquoted(), 0, 0, Seq::empty());
    assert(s.skip(0) =~= s);
    assert(Seq::<Text>::empty().push(s)[0] == s);
    lemma_commas_len(s, 0, 0, ss::unquoted(), 0, 0, Seq::empty());
}

proof fn lemma_commas_len(
    s: Text,
    start: int,
    i: int,
    q: ss::Quotes,
    parens: nat,
    brackets: nat,
    out: Seq<Text>,
)
    ensures
        ss::commas_from(s, start, i, q, parens, brackets, out).len() > out.len(),
    decreases s.len() - i,
{
    if i < s.len() {
        let c = s[i];
        let next = ss::quote_step(q, c);
        if ss::quoted(q) {
            lemma_commas_len(s, start, i + 1, next, parens, brackets, out);
        } else if c == '(' {
            lemma_commas_len(s, start, i + 1, next, parens + 1, brackets, out);
        } else if c == ')' {
            lemma_commas_len(s, start, i + 1, next, ss::up(parens), brackets, out);
        } else if c == '[' {
            lemma_commas_len(s, start, i + 1, next, parens, brackets + 1, out);
        } else if c == ']' {
            lemma_commas_len(s, start, i + 1, next, parens, ss::up(brackets), out);
        } else if c == ',' && parens == 0 && brackets == 0 {
            lemma_commas_len(
                s,
                i + 1,
                i + 1,
                next,
                parens,
                brackets,
                out.push(s.subrange(start, i)),
            );
        } else {
            lemma_commas_len(s, start, i + 1, next, parens, brackets, out);
        }
    }
}

/// A line without a semicolon is one statement, as far as it is not blank.
pub proof fn law_one_statement(line: Text)
    requires
        !line.contains(';'),
    ensures
        ss::split_statement_line(line) == if st::is_blank(line) {
            Seq::<Text>::empty()
        } else {
            seq![st::trim_end(line)]
        },
{
    lemma_no_semicolon(line, 0, ss::unquoted());
    assert(line.subrange(0, line.len() as int) =~= line);
    assert(line.take(0).len() == 0);
    assert(st::blanks(0) + st::trim_end(line) =~= st::trim_end(line));
}

proof fn lemma_no_semicolon(line: Text, i: int, q: ss::Quotes)
    requires
        0 <= i <= line.len(),
        !line.contains(';'),
    ensures
        ss::statements_from(line, 0, i, q, Seq::empty()) == ss::add_statement(
            line,
            0,
            line.len() as int,
            Seq::empty(),
        ),
    decreases line.len() - i,
{
    if i < line.len() {
        assert(line.contains(line[i]));
        lemma_no_semicolon(line, i + 1, ss::quote_step(q, line[i]));
    }
}

} // verus!
