//! Literals, parentheses and separators in a line, however they are nested.

use vstd::prelude::*;

use crate::laws::text::{all_space, is_name, is_trimmed, law_trim};
use crate::model::Position;
use crate::spec::cursor as su;
use crate::spec::scan as ss;
use crate::spec::text as st;
use crate::spec::text::Text;

verus! {

/// A text in which all literals, parentheses and brackets are closed.
pub enum Nest {
    End,
    Plain(char, Box<Nest>),
    Literal(char, Text, Box<Nest>),
    Group(Box<Nest>, Box<Nest>),
    Bracket(Box<Nest>, Box<Nest>),
}

/// The text.
pub open spec fn show(n: Nest) -> Text
    decreases n,
{
    match n {
        Nest::End => Seq::empty(),
        Nest::Plain(c, rest) => seq![c] + show(*rest),
        Nest::Literal(quote, body, rest) => seq![quote] + body + seq![quote] + show(*rest),
        Nest::Group(inner, rest) => seq!['('] + show(*inner) + seq![')'] + show(*rest),
        Nest::Bracket(inner, rest) => seq!['['] + show(*inner) + seq![']'] + show(*rest),
    }
}

/// Whether a character opens or closes something.
pub open spec fn is_delimiter(c: char) -> bool {
    c == '\'' || c == '"' || c == '(' || c == ')' || c == '[' || c == ']'
}

/// Whether each literal ends where its quote comes next, and the characters
/// between open and close nothing.
pub open spec fn is_well(n: Nest) -> bool
    decreases n,
{
    match n {
        Nest::End => true,
        Nest::Plain(c, rest) => !is_delimiter(c) && is_well(*rest),
        Nest::Literal(quote, body, rest) => (quote == '\'' || quote == '"') && !body.contains(quote)
            && is_well(*rest),
        Nest::Group(inner, rest) => is_well(*inner) && is_well(*rest),
        Nest::Bracket(inner, rest) => is_well(*inner) && is_well(*rest),
    }
}

/// Whether a character stands nowhere outside of literals.
pub open spec fn is_free(n: Nest, c: char) -> bool
    decreases n,
{
    match n {
        Nest::End => true,
        Nest::Plain(d, rest) => d != c && is_free(*rest, c),
        Nest::Literal(_, _, rest) => is_free(*rest, c),
        Nest::Group(inner, rest) => is_free(*inner, c) && is_free(*rest, c),
        Nest::Bracket(inner, rest) => is_free(*inner, c) && is_free(*rest, c),
    }
}

/// Whether a character stands nowhere outside of literals and parentheses.
pub open spec fn is_open_free(n: Nest, c: char) -> bool
    decreases n,
{
    match n {
        Nest::End => true,
        Nest::Plain(d, rest) => d != c && is_open_free(*rest, c),
        Nest::Literal(_, _, rest) => is_open_free(*rest, c),
        Nest::Group(_, rest) => is_open_free(*rest, c),
        Nest::Bracket(inner, rest) => is_open_free(*inner, c) && is_open_free(*rest, c),
    }
}

/// Whether a character stands nowhere outside of literals, parentheses and
/// brackets.
pub open spec fn is_top_free(n: Nest, c: char) -> bool
    decreases n,
{
    match n {
        Nest::End => true,
        Nest::Plain(d, rest) => d != c && is_top_free(*rest, c),
        Nest::Literal(_, _, rest) => is_top_free(*rest, c),
        Nest::Group(_, rest) => is_top_free(*rest, c),
        Nest::Bracket(_, rest) => is_top_free(*rest, c),
    }
}

/// How many commas stand outside of literals and parentheses.
pub open spec fn commas(n: Nest) -> nat
    decreases n,
{
    match n {
        Nest::End => 0,
        Nest::Plain(c, rest) => (if c == ',' {
            1nat
        } else {
            0nat
        }) + commas(*rest),
        Nest::Literal(_, _, rest) => commas(*rest),
        Nest::Group(_, rest) => commas(*rest),
        Nest::Bracket(inner, rest) => commas(*inner) + commas(*rest),
    }
}

/// Whether `t` stands in `s` at `i`.
spec fn stands_at(s: Text, t: Text, i: int) -> bool {
    &&& 0 <= i
    &&& i + t.len() <= s.len()
    &&& forall|k: int| 0 <= k < t.len() ==> #[trigger] s[i + k] == t[k]
}

proof fn lemma_stands(s: Text, a: Text, b: Text, i: int)
    requires
        stands_at(s, a + b, i),
    ensures
        stands_at(s, a, i),
        stands_at(s, b, i + a.len()),
{
    assert forall|k: int| 0 <= k < a.len() implies #[trigger] s[i + k] == a[k] by {
        assert((a + b)[k] == a[k]);
    }
    assert forall|k: int| 0 <= k < b.len() implies #[trigger] s[i + a.len() + k] == b[k] by {
        assert((a + b)[a.len() + k] == b[k]);
        assert(s[i + (a.len() + k)] == b[k]);
    }
}

proof fn lemma_stands_there(s: Text, t: Text, i: int)
    requires
        stands_at(s, t, i),
    ensures
        s.subrange(i, i + t.len()) == t,
{
    let u = s.subrange(i, i + t.len());
    assert forall|k: int| 0 <= k < t.len() implies u[k] == t[k] by {
        assert(s[i + k] == t[k]);
    }
}

proof fn lemma_stands_behind(before: Text, t: Text, behind: Text)
    ensures
        stands_at(before + t + behind, t, before.len() as int),
{
    let s = before + t + behind;
    assert forall|k: int| 0 <= k < t.len() implies #[trigger] s[before.len() + k] == t[k] by {}
}

/// The pieces of what a literal, a group or a bracket shows.
proof fn lemma_enclosed(s: Text, a: char, inner: Text, b: char, rest: Text, i: int)
    requires
        stands_at(s, seq![a] + inner + seq![b] + rest, i),
    ensures
        0 <= i < s.len(),
        s[i] == a,
        stands_at(s, inner, i + 1),
        i + 1 + inner.len() < s.len(),
        s[i + 1 + inner.len()] == b,
        stands_at(s, rest, i + inner.len() + 2),
{
    assert(seq![a] + inner + seq![b] + rest =~= seq![a] + (inner + (seq![b] + rest)));
    lemma_stands(s, seq![a], inner + (seq![b] + rest), i);
    assert(s[i + 0] == seq![a][0]);
    lemma_stands(s, inner, seq![b] + rest, i + 1);
    lemma_stands(s, seq![b], rest, i + 1 + inner.len());
    assert(s[i + 1 + inner.len() + 0] == seq![b][0]);
}

proof fn lemma_one(s: Text, c: char, rest: Text, i: int)
    requires
        stands_at(s, seq![c] + rest, i),
    ensures
        0 <= i < s.len(),
        s[i] == c,
        stands_at(s, rest, i + 1),
{
    lemma_stands(s, seq![c], rest, i);
    assert(s[i + 0] == seq![c][0]);
}

/// The state in a literal.
spec fn within(quote: char) -> ss::Quotes {
    ss::quote_step(ss::unquoted(), quote)
}

// ---------------------------------------------------------------------------
// Lists
// ---------------------------------------------------------------------------

proof fn lemma_parts_literal(s: Text, i: int, quote: char, body: Text, start: int, parens: nat,
    brackets: nat, out: Seq<Text>)
    requires
        quote == '\'' || quote == '"',
        !body.contains(quote),
        stands_at(s, body, i),
        i + body.len() < s.len(),
        s[i + body.len()] == quote,
    ensures
        ss::commas_from(s, start, i, within(quote), parens, brackets, out)
            == ss::commas_from(s, start, i + body.len() + 1, ss::unquoted(), parens, brackets, out),
    decreases body.len(),
{
    if body.len() > 0 {
        let rest = body.skip(1);
        assert(seq![body[0]] + rest =~= body);
        lemma_one(s, body[0], rest, i);
        assert(body.contains(body[0]));
        assert forall|c: char| rest.contains(c) implies body.contains(c) by {
            let k = choose|k: int| 0 <= k < rest.len() && rest[k] == c;
            assert(body[k + 1] == c);
        }
        lemma_parts_literal(s, i + 1, quote, rest, start, parens, brackets, out);
    } else {
        assert(s[i + 0] == quote);
    }
}

proof fn lemma_parts(s: Text, i: int, n: Nest, start: int, parens: nat, brackets: nat,
    out: Seq<Text>)
    requires
        is_well(n),
        stands_at(s, show(n), i),
        parens > 0 || brackets > 0 || is_top_free(n, ','),
    ensures
        ss::commas_from(s, start, i, ss::unquoted(), parens, brackets, out)
            == ss::commas_from(s, start, i + show(n).len(), ss::unquoted(), parens, brackets, out),
    decreases n,
{
    match n {
        Nest::End => {},
        Nest::Plain(c, rest) => {
            lemma_one(s, c, show(*rest), i);
            lemma_parts(s, i + 1, *rest, start, parens, brackets, out);
        },
        Nest::Literal(quote, body, rest) => {
            lemma_enclosed(s, quote, body, quote, show(*rest), i);
            lemma_parts_literal(s, i + 1, quote, body, start, parens, brackets, out);
            lemma_parts(s, i + body.len() + 2, *rest, start, parens, brackets, out);
        },
        Nest::Group(inner, rest) => {
            lemma_enclosed(s, '(', show(*inner), ')', show(*rest), i);
            lemma_parts(s, i + 1, *inner, start, parens + 1, brackets, out);
            lemma_parts(s, i + show(*inner).len() + 2, *rest, start, parens, brackets, out);
        },
        Nest::Bracket(inner, rest) => {
            lemma_enclosed(s, '[', show(*inner), ']', show(*rest), i);
            lemma_parts(s, i + 1, *inner, start, parens, brackets + 1, out);
            lemma_parts(s, i + show(*inner).len() + 2, *rest, start, parens, brackets, out);
        },
    }
}

/// The texts.
pub open spec fn shown(parts: Seq<Nest>) -> Seq<Text> {
    Seq::new(parts.len(), |k: int| show(parts[k]))
}

/// How many characters the first `k` texts and what separates them have.
spec fn begin(parts: Seq<Nest>, k: int) -> int
    decreases k,
{
    if k <= 0 {
        0
    } else {
        begin(parts, k - 1) + show(parts[k - 1]).len() + 1
    }
}

/// What a list is made of: each part, and a separator behind it but for the last.
proof fn lemma_begin(parts: Seq<Nest>, c: char, k: int)
    requires
        0 <= k < parts.len(),
    ensures
        stands_at(st::join(shown(parts), seq![c]), show(parts[k]), begin(parts, k)),
        k + 1 < parts.len() ==> begin(parts, k + 1) <= st::join(shown(parts), seq![c]).len()
            && st::join(shown(parts), seq![c])[begin(parts, k + 1) - 1] == c,
        k + 1 == parts.len() ==> begin(parts, k + 1) == st::join(shown(parts), seq![c]).len() + 1,
        begin(parts, k) >= 0,
    decreases parts.len(),
{
    let all = st::join(shown(parts), seq![c]);
    if parts.len() == 1 {
        assert(shown(parts)[0] == show(parts[0]));
        assert(begin(parts, 0) == 0);
        assert(begin(parts, 1) == begin(parts, 0) + show(parts[0]).len() + 1);
    } else {
        let fewer = parts.drop_last();
        let m = parts.len() - 1;
        assert(shown(parts).drop_last() =~= shown(fewer));
        assert(shown(parts).last() == show(parts[m]));
        assert(all =~= st::join(shown(fewer), seq![c]) + seq![c] + show(parts[m]));
        lemma_begin_same(parts, m);
        lemma_begin(fewer, c, m - 1);
        assert(begin(fewer, m) == st::join(shown(fewer), seq![c]).len() + 1);
        assert(begin(parts, m + 1) == begin(parts, m) + show(parts[m]).len() + 1);
        if k < m {
            lemma_begin(fewer, c, k);
            lemma_begin_same(parts, k);
            lemma_begin_same(parts, k + 1);
            let part = show(parts[k]);
            assert forall|j: int| 0 <= j < part.len() implies #[trigger] all[begin(parts, k) + j]
                == part[j] by {
                assert(st::join(shown(fewer), seq![c])[begin(fewer, k) + j] == part[j]);
            }
        } else {
            let part = show(parts[m]);
            assert forall|j: int| 0 <= j < part.len() implies #[trigger] all[begin(parts, m) + j]
                == part[j] by {}
        }
    }
}

proof fn lemma_begin_same(parts: Seq<Nest>, k: int)
    requires
        k < parts.len(),
    ensures
        begin(parts.drop_last(), k) == begin(parts, k),
    decreases k,
{
    if k > 0 {
        lemma_begin_same(parts, k - 1);
    }
}

/// Whether each text is closed and has no comma that would separate it.
pub open spec fn are_parts(parts: Seq<Nest>) -> bool {
    forall|k: int|
        0 <= k < parts.len() ==> is_well(#[trigger] parts[k]) && is_top_free(parts[k], ',')
}

proof fn lemma_split(parts: Seq<Nest>, k: int)
    requires
        are_parts(parts),
        0 <= k < parts.len(),
    ensures
        ss::commas_from(
            st::join(shown(parts), seq![',']),
            begin(parts, k),
            begin(parts, k),
            ss::unquoted(),
            0,
            0,
            shown(parts).take(k),
        ) == shown(parts),
    decreases parts.len() - k,
{
    let s = st::join(shown(parts), seq![',']);
    let i = begin(parts, k);
    lemma_begin(parts, ',', k);
    lemma_parts(s, i, parts[k], i, 0, 0, shown(parts).take(k));
    let end = i + show(parts[k]).len();
    assert(begin(parts, k + 1) == end + 1);
    lemma_stands_there(s, show(parts[k]), i);
    assert(shown(parts).take(k).push(show(parts[k])) =~= shown(parts).take(k + 1));
    if k + 1 < parts.len() {
        lemma_split(parts, k + 1);
    } else {
        assert(s.skip(i) =~= show(parts[k]));
        assert(shown(parts).take(k + 1) =~= shown(parts));
    }
}

/// Texts with commas between them are split into just these texts: a comma in a
/// literal, in parentheses or in brackets separates nothing.
pub proof fn law_split_commas(parts: Seq<Nest>)
    requires
        are_parts(parts),
        parts.len() > 0,
    ensures
        ss::split_top_level_commas(st::join(shown(parts), seq![','])) == shown(parts),
{
    lemma_split(parts, 0);
    assert(shown(parts).take(0) =~= Seq::empty());
}

proof fn lemma_count_literal(s: Text, i: int, quote: char, body: Text, depth: nat)
    requires
        quote == '\'' || quote == '"',
        !body.contains(quote),
        stands_at(s, body, i),
        i + body.len() < s.len(),
        s[i + body.len()] == quote,
    ensures
        ss::count_commas_from(s, i, within(quote), depth)
            == ss::count_commas_from(s, i + body.len() + 1, ss::unquoted(), depth),
    decreases body.len(),
{
    if body.len() > 0 {
        let rest = body.skip(1);
        assert(seq![body[0]] + rest =~= body);
        lemma_one(s, body[0], rest, i);
        assert(body.contains(body[0]));
        assert forall|c: char| rest.contains(c) implies body.contains(c) by {
            let k = choose|k: int| 0 <= k < rest.len() && rest[k] == c;
            assert(body[k + 1] == c);
        }
        lemma_count_literal(s, i + 1, quote, rest, depth);
    } else {
        assert(s[i + 0] == quote);
    }
}

proof fn lemma_count(s: Text, i: int, n: Nest, depth: nat)
    requires
        is_well(n),
        stands_at(s, show(n), i),
    ensures
        ss::count_commas_from(s, i, ss::unquoted(), depth) == ss::count_commas_from(
            s,
            i + show(n).len(),
            ss::unquoted(),
            depth,
        ) + (if depth == 0 {
            commas(n)
        } else {
            0
        }),
    decreases n,
{
    match n {
        Nest::End => {},
        Nest::Plain(c, rest) => {
            lemma_one(s, c, show(*rest), i);
            lemma_count(s, i + 1, *rest, depth);
        },
        Nest::Literal(quote, body, rest) => {
            lemma_enclosed(s, quote, body, quote, show(*rest), i);
            lemma_count_literal(s, i + 1, quote, body, depth);
            lemma_count(s, i + body.len() + 2, *rest, depth);
        },
        Nest::Group(inner, rest) => {
            lemma_enclosed(s, '(', show(*inner), ')', show(*rest), i);
            lemma_count(s, i + 1, *inner, depth + 1);
            lemma_count(s, i + show(*inner).len() + 2, *rest, depth);
        },
        Nest::Bracket(inner, rest) => {
            lemma_enclosed(s, '[', show(*inner), ']', show(*rest), i);
            lemma_count(s, i + 1, *inner, depth);
            lemma_count(s, i + show(*inner).len() + 2, *rest, depth);
        },
    }
}

proof fn lemma_count_shift(s: Text, k: int, i: int, q: ss::Quotes, depth: nat)
    requires
        0 <= k <= i <= s.len(),
    ensures
        ss::count_commas_from(s, i, q, depth) == ss::count_commas_from(s.skip(k), i - k, q, depth),
    decreases s.len() - i,
{
    if i < s.len() {
        let c = s[i];
        let next = ss::quote_step(q, c);
        assert(s.skip(k)[i - k] == c);
        if ss::quoted(q) {
            lemma_count_shift(s, k, i + 1, next, depth);
        } else if c == '(' {
            lemma_count_shift(s, k, i + 1, next, depth + 1);
        } else if c == ')' {
            lemma_count_shift(s, k, i + 1, next, ss::up(depth));
        } else {
            lemma_count_shift(s, k, i + 1, next, depth);
        }
    }
}

/// The commas of a closed text count where they stand outside of literals and
/// parentheses, whatever follows it.
pub proof fn law_count_commas(n: Nest, behind: Text)
    requires
        is_well(n),
    ensures
        ss::count_top_level_commas(show(n)) == commas(n),
        ss::count_top_level_commas(show(n) + behind) == commas(n) + ss::count_top_level_commas(
            behind,
        ),
{
    let s = show(n) + behind;
    assert(Seq::<char>::empty() + show(n) + behind =~= s);
    lemma_stands_behind(Seq::empty(), show(n), behind);
    lemma_count(s, 0, n, 0);
    lemma_count_shift(s, show(n).len() as int, show(n).len() as int, ss::unquoted(), 0);
    assert(s.skip(show(n).len() as int) =~= behind);
    assert(stands_at(show(n), show(n), 0));
    lemma_count(show(n), 0, n, 0);
}

/// A comma behind a closed text counts once more, and what stands in
/// parentheses does not count at all.
pub proof fn law_count_steps(n: Nest, behind: Text)
    requires
        is_well(n),
    ensures
        ss::count_top_level_commas(show(n) + seq![','] + behind) == ss::count_top_level_commas(
            show(n),
        ) + 1 + ss::count_top_level_commas(behind),
        ss::count_top_level_commas(seq!['('] + show(n) + seq![')'] + behind)
            == ss::count_top_level_commas(behind),
{
    law_count_commas(n, seq![','] + behind);
    assert(show(n) + seq![','] + behind =~= show(n) + (seq![','] + behind));
    let one = Nest::Plain(',', Box::new(Nest::End));
    assert(show(Nest::End) =~= Seq::<char>::empty());
    assert(show(one) =~= seq![',']);
    assert(is_well(Nest::End));
    assert(commas(Nest::End) == 0);
    assert(is_well(one));
    assert(commas(one) == 1);
    law_count_commas(one, behind);
    let group = Nest::Group(Box::new(n), Box::new(Nest::End));
    assert(show(group) =~= seq!['('] + show(n) + seq![')']);
    assert(commas(group) == 0);
    law_count_commas(group, behind);
}

proof fn lemma_commas_joined(parts: Seq<Nest>, s: Text, k: int)
    requires
        s == st::join(shown(parts), seq![',']),
        forall|j: int|
            0 <= j < parts.len() ==> is_well(#[trigger] parts[j]) && commas(parts[j]) == 0,
        0 <= k < parts.len(),
    ensures
        ss::count_commas_from(s, begin(parts, k), ss::unquoted(), 0) == parts.len() - 1 - k,
    decreases parts.len() - k,
{
    lemma_begin(parts, ',', k);
    lemma_count(s, begin(parts, k), parts[k], 0);
    assert(begin(parts, k + 1) == begin(parts, k) + show(parts[k]).len() + 1);
    if k + 1 < parts.len() {
        lemma_commas_joined(parts, s, k + 1);
    }
}

/// The commas that count are one fewer than the texts that they separate.
pub proof fn law_count_parts(parts: Seq<Nest>)
    requires
        forall|j: int|
            0 <= j < parts.len() ==> is_well(#[trigger] parts[j]) && commas(parts[j]) == 0,
        parts.len() > 0,
    ensures
        ss::count_top_level_commas(st::join(shown(parts), seq![','])) == parts.len() - 1,
{
    lemma_commas_joined(parts, st::join(shown(parts), seq![',']), 0);
}

// ---------------------------------------------------------------------------
// Equals signs
// ---------------------------------------------------------------------------

proof fn lemma_equals_literal(s: Text, i: int, quote: char, body: Text, depth: nat)
    requires
        quote == '\'' || quote == '"',
        !body.contains(quote),
        stands_at(s, body, i),
        i + body.len() < s.len(),
        s[i + body.len()] == quote,
    ensures
        ss::equals_from(s, i, within(quote), depth)
            == ss::equals_from(s, i + body.len() + 1, ss::unquoted(), depth),
    decreases body.len(),
{
    if body.len() > 0 {
        let rest = body.skip(1);
        assert(seq![body[0]] + rest =~= body);
        lemma_one(s, body[0], rest, i);
        assert(body.contains(body[0]));
        assert forall|c: char| rest.contains(c) implies body.contains(c) by {
            let k = choose|k: int| 0 <= k < rest.len() && rest[k] == c;
            assert(body[k + 1] == c);
        }
        lemma_equals_literal(s, i + 1, quote, rest, depth);
    } else {
        assert(s[i + 0] == quote);
    }
}

proof fn lemma_equals(s: Text, i: int, n: Nest, depth: nat)
    requires
        is_well(n),
        stands_at(s, show(n), i),
        depth > 0 || is_open_free(n, '='),
    ensures
        ss::equals_from(s, i, ss::unquoted(), depth)
            == ss::equals_from(s, i + show(n).len(), ss::unquoted(), depth),
    decreases n,
{
    match n {
        Nest::End => {},
        Nest::Plain(c, rest) => {
            lemma_one(s, c, show(*rest), i);
            lemma_equals(s, i + 1, *rest, depth);
        },
        Nest::Literal(quote, body, rest) => {
            lemma_enclosed(s, quote, body, quote, show(*rest), i);
            lemma_equals_literal(s, i + 1, quote, body, depth);
            lemma_equals(s, i + body.len() + 2, *rest, depth);
        },
        Nest::Group(inner, rest) => {
            lemma_enclosed(s, '(', show(*inner), ')', show(*rest), i);
            lemma_equals(s, i + 1, *inner, depth + 1);
            lemma_equals(s, i + show(*inner).len() + 2, *rest, depth);
        },
        Nest::Bracket(inner, rest) => {
            lemma_enclosed(s, '[', show(*inner), ']', show(*rest), i);
            lemma_equals(s, i + 1, *inner, depth);
            lemma_equals(s, i + show(*inner).len() + 2, *rest, depth);
        },
    }
}

/// The equals sign of a keyword or an initial value is the first one outside of
/// literals and parentheses.
pub proof fn law_equals(n: Nest, behind: Text)
    requires
        is_well(n),
        is_open_free(n, '='),
    ensures
        ss::top_level_equals(show(n) + seq!['='] + behind) == Some(show(n).len() as int),
        ss::top_level_equals(show(n)) is None,
{
    let s = show(n) + seq!['='] + behind;
    assert(Seq::<char>::empty() + show(n) + (seq!['='] + behind) =~= s);
    lemma_stands_behind(Seq::empty(), show(n), seq!['='] + behind);
    lemma_equals(s, 0, n, 0);
    assert(s[show(n).len() as int] == '=');
    assert(stands_at(show(n), show(n), 0));
    lemma_equals(show(n), 0, n, 0);
}

// ---------------------------------------------------------------------------
// Comments and statements
// ---------------------------------------------------------------------------

proof fn lemma_comment_literal(s: Text, i: int, quote: char, body: Text)
    requires
        quote == '\'' || quote == '"',
        !body.contains(quote),
        stands_at(s, body, i),
        i + body.len() < s.len(),
        s[i + body.len()] == quote,
    ensures
        ss::comment_start(s, within(quote), i)
            == ss::comment_start(s, ss::unquoted(), i + body.len() + 1),
    decreases body.len(),
{
    if body.len() > 0 {
        let rest = body.skip(1);
        assert(seq![body[0]] + rest =~= body);
        lemma_one(s, body[0], rest, i);
        assert(body.contains(body[0]));
        assert forall|c: char| rest.contains(c) implies body.contains(c) by {
            let k = choose|k: int| 0 <= k < rest.len() && rest[k] == c;
            assert(body[k + 1] == c);
        }
        lemma_comment_literal(s, i + 1, quote, rest);
    } else {
        assert(s[i + 0] == quote);
    }
}

proof fn lemma_comment(s: Text, i: int, n: Nest)
    requires
        is_well(n),
        stands_at(s, show(n), i),
        is_free(n, '!'),
    ensures
        ss::comment_start(s, ss::unquoted(), i)
            == ss::comment_start(s, ss::unquoted(), i + show(n).len()),
    decreases n,
{
    match n {
        Nest::End => {},
        Nest::Plain(c, rest) => {
            lemma_one(s, c, show(*rest), i);
            lemma_comment(s, i + 1, *rest);
        },
        Nest::Literal(quote, body, rest) => {
            lemma_enclosed(s, quote, body, quote, show(*rest), i);
            lemma_comment_literal(s, i + 1, quote, body);
            lemma_comment(s, i + body.len() + 2, *rest);
        },
        Nest::Group(inner, rest) => {
            lemma_enclosed(s, '(', show(*inner), ')', show(*rest), i);
            lemma_comment(s, i + 1, *inner);
            lemma_comment(s, i + show(*inner).len() + 2, *rest);
        },
        Nest::Bracket(inner, rest) => {
            lemma_enclosed(s, '[', show(*inner), ']', show(*rest), i);
            lemma_comment(s, i + 1, *inner);
            lemma_comment(s, i + show(*inner).len() + 2, *rest);
        },
    }
}

/// A comment starts at the first exclamation mark outside of literals.
pub proof fn law_comment_behind(n: Nest, behind: Text)
    requires
        is_well(n),
        is_free(n, '!'),
    ensures
        ss::strip_inline_comment(show(n) + seq!['!'] + behind) == show(n),
        ss::strip_inline_comment(show(n)) == show(n),
{
    let s = show(n) + seq!['!'] + behind;
    assert(Seq::<char>::empty() + show(n) + (seq!['!'] + behind) =~= s);
    lemma_stands_behind(Seq::empty(), show(n), seq!['!'] + behind);
    lemma_comment(s, 0, n);
    assert(s[show(n).len() as int] == '!');
    assert(s.take(show(n).len() as int) =~= show(n));
    assert(stands_at(show(n), show(n), 0));
    lemma_comment(show(n), 0, n);
    assert(show(n).take(show(n).len() as int) =~= show(n));
}

proof fn lemma_statement_literal(s: Text, i: int, quote: char, body: Text, start: int,
    out: Seq<Text>)
    requires
        quote == '\'' || quote == '"',
        !body.contains(quote),
        stands_at(s, body, i),
        i + body.len() < s.len(),
        s[i + body.len()] == quote,
    ensures
        ss::statements_from(s, start, i, within(quote), out)
            == ss::statements_from(s, start, i + body.len() + 1, ss::unquoted(), out),
    decreases body.len(),
{
    if body.len() > 0 {
        let rest = body.skip(1);
        assert(seq![body[0]] + rest =~= body);
        lemma_one(s, body[0], rest, i);
        assert(body.contains(body[0]));
        assert forall|c: char| rest.contains(c) implies body.contains(c) by {
            let k = choose|k: int| 0 <= k < rest.len() && rest[k] == c;
            assert(body[k + 1] == c);
        }
        lemma_statement_literal(s, i + 1, quote, rest, start, out);
    } else {
        assert(s[i + 0] == quote);
    }
}

proof fn lemma_statement(s: Text, i: int, n: Nest, start: int, out: Seq<Text>)
    requires
        is_well(n),
        stands_at(s, show(n), i),
        is_free(n, ';'),
    ensures
        ss::statements_from(s, start, i, ss::unquoted(), out)
            == ss::statements_from(s, start, i + show(n).len(), ss::unquoted(), out),
    decreases n,
{
    match n {
        Nest::End => {},
        Nest::Plain(c, rest) => {
            lemma_one(s, c, show(*rest), i);
            lemma_statement(s, i + 1, *rest, start, out);
        },
        Nest::Literal(quote, body, rest) => {
            lemma_enclosed(s, quote, body, quote, show(*rest), i);
            lemma_statement_literal(s, i + 1, quote, body, start, out);
            lemma_statement(s, i + body.len() + 2, *rest, start, out);
        },
        Nest::Group(inner, rest) => {
            lemma_enclosed(s, '(', show(*inner), ')', show(*rest), i);
            lemma_statement(s, i + 1, *inner, start, out);
            lemma_statement(s, i + show(*inner).len() + 2, *rest, start, out);
        },
        Nest::Bracket(inner, rest) => {
            lemma_enclosed(s, '[', show(*inner), ']', show(*rest), i);
            lemma_statement(s, i + 1, *inner, start, out);
            lemma_statement(s, i + show(*inner).len() + 2, *rest, start, out);
        },
    }
}

/// Whether each text is closed and has no semicolon outside of literals.
pub open spec fn are_statements(parts: Seq<Nest>) -> bool {
    forall|k: int| 0 <= k < parts.len() ==> is_well(#[trigger] parts[k]) && is_free(parts[k], ';')
}

/// The statements of a line: its parts that are not blank, each in its column,
/// without the white space behind it.
pub open spec fn statements(parts: Seq<Nest>, line: Text, k: int, from: int) -> Seq<Text>
    decreases parts.len() - k,
{
    if 0 <= k < parts.len() {
        let here = if st::is_blank(show(parts[k])) {
            Seq::empty()
        } else {
            seq![
                st::blanks(st::size(st::byte_len(line.take(from))) as nat) + st::trim_end(
                    show(parts[k]),
                ),
            ]
        };
        here + statements(parts, line, k + 1, from + show(parts[k]).len() + 1)
    } else {
        Seq::empty()
    }
}

proof fn lemma_statements(parts: Seq<Nest>, line: Text, k: int, out: Seq<Text>)
    requires
        line == st::join(shown(parts), seq![';']),
        are_statements(parts),
        0 <= k < parts.len(),
    ensures
        ss::statements_from(line, begin(parts, k), begin(parts, k), ss::unquoted(), out) == out
            + statements(parts, line, k, begin(parts, k)),
    decreases parts.len() - k,
{
    let i = begin(parts, k);
    lemma_begin(parts, ';', k);
    lemma_statement(line, i, parts[k], i, out);
    let end = i + show(parts[k]).len();
    assert(begin(parts, k + 1) == end + 1);
    lemma_stands_there(line, show(parts[k]), i);
    let next = ss::add_statement(line, i, end, out);
    if k + 1 < parts.len() {
        lemma_statements(parts, line, k + 1, next);
        assert(out + statements(parts, line, k, i) =~= next + statements(
            parts,
            line,
            k + 1,
            end + 1,
        ));
    } else {
        assert(line.subrange(i, line.len() as int) =~= show(parts[k]));
        assert(statements(parts, line, k + 1, end + 1) =~= Seq::empty());
        assert(out + statements(parts, line, k, i) =~= next);
    }
}

/// Semicolons outside of literals separate the statements of a line, and nothing
/// else does.
pub proof fn law_split_statements(parts: Seq<Nest>)
    requires
        are_statements(parts),
        parts.len() > 0,
    ensures
        ss::split_statement_line(st::join(shown(parts), seq![';'])) == statements(
            parts,
            st::join(shown(parts), seq![';']),
            0,
            0,
        ),
{
    let line = st::join(shown(parts), seq![';']);
    lemma_statements(parts, line, 0, Seq::empty());
    assert(Seq::empty() + statements(parts, line, 0, 0) =~= statements(parts, line, 0, 0));
}

// ---------------------------------------------------------------------------
// Calls
// ---------------------------------------------------------------------------

proof fn lemma_open_literal(s: Text, i: int, quote: char, body: Text, stack: Seq<usize>)
    requires
        quote == '\'' || quote == '"',
        !body.contains(quote),
        stands_at(s, body, i),
        i + body.len() < s.len(),
        s[i + body.len()] == quote,
    ensures
        ss::open_parens_from(s, i, within(quote), stack)
            == ss::open_parens_from(s, i + body.len() + 1, ss::unquoted(), stack),
    decreases body.len(),
{
    if body.len() > 0 {
        let rest = body.skip(1);
        assert(seq![body[0]] + rest =~= body);
        lemma_one(s, body[0], rest, i);
        assert(body.contains(body[0]));
        assert forall|c: char| rest.contains(c) implies body.contains(c) by {
            let k = choose|k: int| 0 <= k < rest.len() && rest[k] == c;
            assert(body[k + 1] == c);
        }
        lemma_open_literal(s, i + 1, quote, rest, stack);
    } else {
        assert(s[i + 0] == quote);
    }
}

proof fn lemma_open(s: Text, i: int, n: Nest, stack: Seq<usize>)
    requires
        is_well(n),
        stands_at(s, show(n), i),
    ensures
        ss::open_parens_from(s, i, ss::unquoted(), stack)
            == ss::open_parens_from(s, i + show(n).len(), ss::unquoted(), stack),
    decreases n,
{
    match n {
        Nest::End => {},
        Nest::Plain(c, rest) => {
            lemma_one(s, c, show(*rest), i);
            lemma_open(s, i + 1, *rest, stack);
        },
        Nest::Literal(quote, body, rest) => {
            lemma_enclosed(s, quote, body, quote, show(*rest), i);
            lemma_open_literal(s, i + 1, quote, body, stack);
            lemma_open(s, i + body.len() + 2, *rest, stack);
        },
        Nest::Group(inner, rest) => {
            lemma_enclosed(s, '(', show(*inner), ')', show(*rest), i);
            lemma_open(s, i + 1, *inner, stack.push(i as usize));
            assert(stack.push(i as usize).drop_last() =~= stack);
            lemma_open(s, i + show(*inner).len() + 2, *rest, stack);
        },
        Nest::Bracket(inner, rest) => {
            lemma_enclosed(s, '[', show(*inner), ']', show(*rest), i);
            lemma_open(s, i + 1, *inner, stack);
            lemma_open(s, i + show(*inner).len() + 2, *rest, stack);
        },
    }
}

/// The parenthesis that is open behind a closed text and closed arguments is the
/// one between them; behind a closed text none is open.
pub proof fn law_open_paren(head: Nest, args: Nest)
    requires
        is_well(head),
        is_well(args),
        show(head).len() <= usize::MAX,
    ensures
        ss::find_unclosed_call_paren(show(head) + seq!['('] + show(args)) == Some(
            show(head).len() as usize,
        ),
        ss::find_unclosed_call_paren(show(head)) is None,
{
    let s = show(head) + seq!['('] + show(args);
    let i = show(head).len() as int;
    assert(Seq::<char>::empty() + show(head) + (seq!['('] + show(args)) =~= s);
    lemma_stands_behind(Seq::empty(), show(head), seq!['('] + show(args));
    lemma_open(s, 0, head, Seq::empty());
    assert(s[i] == '(');
    let stack = Seq::<usize>::empty().push(i as usize);
    assert((show(head) + seq!['(']) + show(args) + Seq::empty() =~= s);
    lemma_stands_behind(show(head) + seq!['('], show(args), Seq::empty());
    lemma_open(s, i + 1, args, stack);
    assert(ss::open_parens_from(s, s.len() as int, ss::unquoted(), stack) == stack);
    assert(stands_at(show(head), show(head), 0));
    lemma_open(show(head), 0, head, Seq::empty());
}

proof fn lemma_name_begin(before: Text, name: Text, j: int)
    requires
        forall|i: int| 0 <= i < name.len() ==> st::is_ident(#[trigger] name[i]),
        before.len() > 0 ==> !st::is_ident(before.last()),
        0 <= j <= name.len(),
    ensures
        st::name_begin(before + name, before.len() + j) == before.len(),
    decreases j,
{
    if j > 0 {
        assert((before + name)[before.len() + j - 1] == name[j - 1]);
        lemma_name_begin(before, name, j - 1);
    } else if before.len() > 0 {
        assert((before + name)[before.len() - 1] == before.last());
    }
}

/// Behind the name of a procedure, an opening parenthesis and arguments that are
/// closed, the cursor is in the arguments of that procedure: behind as many of
/// them as there are commas outside of literals and parentheses.
pub proof fn law_call_context(
    source: Text,
    pos: Position,
    head: Nest,
    before: Text,
    name: Text,
    args: Nest,
)
    requires
        su::source_prefix(source, pos) == show(head) + seq!['('] + show(args),
        is_well(head),
        is_well(args),
        show(head) == before + name,
        show(head).len() <= usize::MAX,
        is_name(name),
        before.len() > 0 ==> !st::is_ident(before.last()),
        !st::same(name, "call"@),
    ensures
        su::call_context(source, pos) matches Some(call) && call.name == name
            && call.active_parameter == st::size(commas(args)) && call.argument_count == st::size(
            if st::is_blank(show(args)) {
                0
            } else {
                commas(args) + 1
            },
        ),
{
    let prefix = su::source_prefix(source, pos);
    law_open_paren(head, args);
    law_count_commas(args, Seq::empty());
    let k = show(head).len() as int;
    assert(prefix.take(k) =~= before + name);
    assert(prefix.skip(k + 1) =~= show(args));
    assert(!st::is_space(name.last()));
    assert((before + name).last() == name.last());
    lemma_no_space_behind(before + name);
    lemma_name_begin(before, name, name.len() as int);
    assert((before + name).skip(before.len() as int) =~= name);
}

proof fn lemma_no_space_behind(s: Text)
    requires
        s.len() > 0,
        !st::is_space(s.last()),
    ensures
        st::trim_end(s) == s,
{
    assert(s.take(s.len() as int) =~= s);
}

/// The argument that is being written is named by the keyword in front of its
/// equals sign, and by nothing where there is no such sign.
pub proof fn law_keyword_argument(
    parts: Seq<Nest>,
    left: Nest,
    before: Text,
    keyword: Text,
    after: Text,
    value: Text,
)
    requires
        are_parts(parts),
        parts.len() > 0,
        show(parts.last()) == show(left) + seq!['='] + value,
        is_well(left),
        is_open_free(left, '='),
        show(left) == before + keyword + after,
        all_space(before),
        all_space(after),
        st::is_fortran_name(keyword),
        is_trimmed(keyword),
    ensures
        su::active_keyword_argument(st::join(shown(parts), seq![','])) == Some(st::lower(keyword)),
{
    law_split_commas(parts);
    assert(shown(parts).last() == show(parts.last()));
    law_equals(left, value);
    let active = show(parts.last());
    assert(active.take(show(left).len() as int) =~= before + keyword + after);
    law_trim(before, keyword, after);
}

// ---------------------------------------------------------------------------
// Parentheses
// ---------------------------------------------------------------------------

/// Whether no parenthesis stands in a literal.
pub open spec fn is_plain(n: Nest) -> bool
    decreases n,
{
    match n {
        Nest::End => true,
        Nest::Plain(_, rest) => is_plain(*rest),
        Nest::Literal(_, body, rest) => !body.contains('(') && !body.contains(')') && is_plain(
            *rest,
        ),
        Nest::Group(inner, rest) => is_plain(*inner) && is_plain(*rest),
        Nest::Bracket(inner, rest) => is_plain(*inner) && is_plain(*rest),
    }
}

proof fn lemma_closing_text(s: Text, i: int, t: Text, depth: nat)
    requires
        stands_at(s, t, i),
        !t.contains('('),
        !t.contains(')'),
    ensures
        ss::closing_from(s, i, depth) == ss::closing_from(s, i + t.len(), depth),
    decreases t.len(),
{
    if t.len() > 0 {
        let rest = t.skip(1);
        assert(seq![t[0]] + rest =~= t);
        lemma_one(s, t[0], rest, i);
        assert(t.contains(t[0]));
        assert forall|c: char| rest.contains(c) implies t.contains(c) by {
            let k = choose|k: int| 0 <= k < rest.len() && rest[k] == c;
            assert(t[k + 1] == c);
        }
        lemma_closing_text(s, i + 1, rest, depth);
    }
}

proof fn lemma_closing(s: Text, i: int, n: Nest, depth: nat)
    requires
        is_well(n),
        is_plain(n),
        stands_at(s, show(n), i),
        depth > 0,
    ensures
        ss::closing_from(s, i, depth) == ss::closing_from(s, i + show(n).len(), depth),
    decreases n,
{
    match n {
        Nest::End => {},
        Nest::Plain(c, rest) => {
            lemma_one(s, c, show(*rest), i);
            lemma_closing(s, i + 1, *rest, depth);
        },
        Nest::Literal(quote, body, rest) => {
            lemma_enclosed(s, quote, body, quote, show(*rest), i);
            lemma_closing_text(s, i + 1, body, depth);
            lemma_closing(s, i + body.len() + 2, *rest, depth);
        },
        Nest::Group(inner, rest) => {
            lemma_enclosed(s, '(', show(*inner), ')', show(*rest), i);
            lemma_closing(s, i + 1, *inner, depth + 1);
            lemma_closing(s, i + show(*inner).len() + 2, *rest, depth);
        },
        Nest::Bracket(inner, rest) => {
            lemma_enclosed(s, '[', show(*inner), ']', show(*rest), i);
            lemma_closing(s, i + 1, *inner, depth);
            lemma_closing(s, i + show(*inner).len() + 2, *rest, depth);
        },
    }
}

/// The partner of an opening parenthesis is the one behind the closed text that
/// follows it.
pub proof fn law_matching_paren(before: Text, n: Nest, behind: Text)
    requires
        is_well(n),
        is_plain(n),
    ensures
        ss::matching_paren_index(
            before + seq!['('] + show(n) + seq![')'] + behind,
            before.len() as int,
        ) == Some(before.len() as int + 1 + show(n).len()),
        !before.contains('(') && !before.contains(')') ==> ss::matching_paren_end(
            before + seq!['('] + show(n) + seq![')'] + behind,
        ) == Some(before.len() as int + show(n).len() + 2),
{
    let s = before + seq!['('] + show(n) + seq![')'] + behind;
    let i = before.len() as int;
    assert(s[i] == '(');
    assert((before + seq!['(']) + show(n) + (seq![')'] + behind) =~= s);
    lemma_stands_behind(before + seq!['('], show(n), seq![')'] + behind);
    lemma_closing(s, i + 1, n, 1);
    assert(s[i + 1 + show(n).len()] == ')');
    assert(ss::closing_from(s, i, 0) == ss::closing_from(s, i + 1, 1));
    if !before.contains('(') && !before.contains(')') {
        assert(stands_at(s, before, 0));
        lemma_closing_text(s, 0, before, 0);
    }
}

/// What stands in the first parentheses of a text is what stands between them.
pub proof fn law_paren_content(before: Text, inner: Text, behind: Text)
    requires
        !before.contains('('),
        !inner.contains(')'),
    ensures
        ss::paren_content(before + seq!['('] + inner + seq![')'] + behind) == Some(inner),
{
    let s = before + seq!['('] + inner + seq![')'] + behind;
    lemma_find_char(before, '(', inner + seq![')'] + behind, 0);
    assert(before + seq!['('] + (inner + seq![')'] + behind) =~= s);
    lemma_find_char(inner, ')', behind, 0);
    let tail = s.skip(before.len() as int + 1);
    assert(tail =~= inner + seq![')'] + behind);
    assert(tail.take(inner.len() as int) =~= inner);
}

/// The first occurrence of a character that does not stand before.
pub proof fn lemma_find_char(before: Text, c: char, behind: Text, i: int)
    requires
        !before.contains(c),
        0 <= i <= before.len(),
    ensures
        st::find_char_from(before + seq![c] + behind, c, i) == Some(before.len() as int),
    decreases before.len() - i,
{
    let s = before + seq![c] + behind;
    if i < before.len() {
        assert(s[i] == before[i]);
        assert(before.contains(before[i]));
        lemma_find_char(before, c, behind, i + 1);
    } else {
        assert(s[i] == c);
    }
}

// ---------------------------------------------------------------------------
// Plain texts
// ---------------------------------------------------------------------------

/// Whether nothing is opened or closed in a text.
pub open spec fn has_no_delimiter(t: Text) -> bool {
    forall|i: int| 0 <= i < t.len() ==> !is_delimiter(#[trigger] t[i])
}

/// A text in which nothing is opened or closed.
pub open spec fn plain(t: Text) -> Nest
    decreases t.len(),
{
    if t.len() == 0 {
        Nest::End
    } else {
        Nest::Plain(t[0], Box::new(plain(t.skip(1))))
    }
}

/// A text in which nothing is opened or closed is closed.
pub proof fn lemma_plain(t: Text, c: char)
    requires
        has_no_delimiter(t),
    ensures
        show(plain(t)) == t,
        is_well(plain(t)),
        is_plain(plain(t)),
        !t.contains(c) ==> is_free(plain(t), c) && is_open_free(plain(t), c) && is_top_free(
            plain(t),
            c,
        ),
        !t.contains(',') ==> commas(plain(t)) == 0,
    decreases t.len(),
{
    if t.len() > 0 {
        let rest = t.skip(1);
        assert forall|i: int| 0 <= i < rest.len() implies !is_delimiter(#[trigger] rest[i]) by {
            assert(rest[i] == t[i + 1]);
        }
        lemma_plain(rest, c);
        assert(seq![t[0]] + rest =~= t);
        assert(t.contains(t[0]));
        assert forall|d: char| rest.contains(d) implies t.contains(d) by {
            let k = choose|k: int| 0 <= k < rest.len() && rest[k] == d;
            assert(t[k + 1] == d);
        }
    }
}

/// Texts in which nothing is opened or closed, with commas between them, are
/// split into just these texts.
pub proof fn law_split_plain(parts: Seq<Text>)
    requires
        parts.len() > 0,
        forall|k: int|
            0 <= k < parts.len() ==> has_no_delimiter(#[trigger] parts[k]) && !parts[k].contains(
                ',',
            ),
    ensures
        ss::split_top_level_commas(st::join(parts, seq![','])) == parts,
{
    let ns = Seq::new(parts.len(), |k: int| plain(parts[k]));
    assert forall|k: int| 0 <= k < ns.len() implies is_well(#[trigger] ns[k]) && is_top_free(
        ns[k],
        ',',
    ) && show(ns[k]) == parts[k] by {
        lemma_plain(parts[k], ',');
    }
    assert(shown(ns) =~= parts);
    law_split_commas(ns);
}

} // verus!
