//! From the lines of a source to its statements.

use vstd::prelude::*;

use crate::laws::text::{
    all_space, is_trimmed, law_trim_end, law_trim_start, lemma_trim_start_is, lemma_trimmed,
};
use crate::spec::parser as pr;
use crate::spec::preproc as spp;
use crate::spec::scan as ss;
use crate::spec::scope as sc;
use crate::spec::source as ssr;
use crate::spec::source::Pending;
use crate::spec::statement as sp;
use crate::spec::text as st;
use crate::spec::text::Text;

verus! {

// ---------------------------------------------------------------------------
// Bytes
// ---------------------------------------------------------------------------

/// Whether a text is ASCII, so that its bytes are its characters.
pub open spec fn is_ascii(s: Text) -> bool {
    forall|i: int| 0 <= i < s.len() ==> (#[trigger] s[i]) as u32 <= 0x7f
}

proof fn lemma_ascii_len(s: Text, k: int)
    requires
        is_ascii(s),
        0 <= k <= s.len(),
    ensures
        st::byte_len(s.take(k)) == k,
    decreases k,
{
    if k > 0 {
        lemma_ascii_len(s, k - 1);
        assert(s.take(k).drop_last() =~= s.take(k - 1));
        assert(s.take(k).last() == s[k - 1]);
        assert(st::byte_width(s[k - 1]) == 1);
    } else {
        assert(s.take(0).len() == 0);
    }
}

proof fn lemma_ascii_index(s: Text, n: int, i: int)
    requires
        is_ascii(s),
        0 <= i <= n,
        i <= s.len(),
    ensures
        st::index_of_byte(s, n as nat, i) == if n <= s.len() {
            n
        } else {
            s.len() as int
        },
        st::index_within_bytes(s, n as nat, i) == if n <= s.len() {
            n
        } else {
            s.len() as int
        },
    decreases s.len() - i,
{
    if i < s.len() {
        lemma_ascii_len(s, i);
        lemma_ascii_len(s, i + 1);
        if i < n {
            lemma_ascii_index(s, n, i + 1);
        }
    }
}

/// The bytes of a text in ASCII are its characters.
pub proof fn law_ascii(s: Text, n: nat)
    requires
        is_ascii(s),
        n <= s.len(),
    ensures
        st::byte_len(s) == s.len(),
        st::skip_bytes(s, n) == s.skip(n as int),
        st::get_bytes(s, n) == Some(s.skip(n as int)),
        st::take_bytes(s, n) == s.take(n as int),
{
    lemma_ascii_len(s, s.len() as int);
    assert(s.take(s.len() as int) =~= s);
    lemma_ascii_index(s, n as int, 0);
    lemma_ascii_len(s, n as int);
}

// ---------------------------------------------------------------------------
// Fixed form
// ---------------------------------------------------------------------------

/// Whether a line is a directive: its first character but for white space is a
/// `#`.
pub open spec fn is_directive_line(line: Text) -> bool {
    exists|k: int|
        0 <= k < line.len() && #[trigger] line[k] == '#' && all_space(line.take(k))
}

/// Whether a line in fixed form is a card with a part of a statement: it is in
/// ASCII, has a sixth column, and is neither a comment nor a directive.
pub open spec fn is_card(line: Text) -> bool {
    &&& is_ascii(line)
    &&& line.len() >= 6
    &&& line[0] != 'c' && line[0] != 'C' && line[0] != '*' && line[0] != '!'
    &&& !is_directive_line(line)
}

/// The columns from the seventh to the 72nd.
pub open spec fn columns(line: Text) -> Text {
    line.subrange(
        6,
        if line.len() < 72 {
            line.len() as int
        } else {
            72
        },
    )
}

/// Whether a card goes on with the statement before it: its sixth column holds
/// neither a blank nor a zero.
pub open spec fn goes_on_with(line: Text) -> bool {
    line[5] != ' ' && line[5] != '0'
}

/// A line that is no directive does not start with a `#`.
proof fn lemma_no_directive(line: Text)
    ensures
        st::starts_with_char(st::trim_start(st::trim_end(line)), '#') ==> is_directive_line(line),
{
    let raw = st::trim_end(line);
    st::lemma_before_spaces(line, line.len() as int);
    st::lemma_after_spaces(raw, 0);
    let k = st::after_spaces(raw, 0);
    lemma_spaces_are(raw, 0);
    if k < raw.len() && raw[k] == '#' {
        assert(line[k] == '#');
        assert forall|j: int| 0 <= j < k implies st::is_space(#[trigger] line.take(k)[j]) by {
            assert(st::is_space(raw[j]));
        }
    }
}

proof fn lemma_spaces_are(s: Text, i: int)
    requires
        0 <= i <= s.len(),
    ensures
        forall|j: int| i <= j < st::after_spaces(s, i) ==> st::is_space(#[trigger] s[j]),
    decreases s.len() - i,
{
    if i < s.len() && st::is_space(s[i]) {
        lemma_spaces_are(s, i + 1);
    }
}

proof fn lemma_card(line: Text)
    requires
        is_card(line),
    ensures
        ssr::is_fixed_continuation(line) == goes_on_with(line),
        ssr::fixed_body(line) == columns(line),
{
    law_ascii(line, 5);
    assert(line.skip(5)[0] == line[5]);
    lemma_ascii_index(line, 72, 0);
    let cut = st::take_bytes(line, 72);
    assert(is_ascii(cut)) by {
        assert forall|i: int| 0 <= i < cut.len() implies (#[trigger] cut[i]) as u32
            <= 0x7f by {
            assert(cut[i] == line[i]);
        }
    }
    if line.len() > 6 {
        law_ascii(cut, 6);
        assert(cut.skip(6) =~= columns(line));
    } else {
        assert(columns(line) =~= Seq::empty());
    }
}

/// A card in fixed form goes on with the statement before it exactly where its
/// sixth column holds something else than a blank and a zero. What stands in
/// the columns up to the 72nd then follows the statement, and no statement is
/// added. Any other card ends the statement before it and starts a new one.
pub proof fn law_fixed_card(p: Pending, number: usize, line: Text)
    requires
        is_card(line),
    ensures
        p.current.len() > 0 && line[5] != ' ' && line[5] != '0' ==> ssr::fixed_step(
            p,
            (number, line),
        ) == (Pending {
            current: p.current + seq![' '] + st::trim_start(columns(line)),
            start: p.start,
            out: p.out,
        }),
        p.current.len() > 0 && (line[5] == ' ' || line[5] == '0') ==> ssr::fixed_step(
            p,
            (number, line),
        ) == (Pending {
            current: st::trim(columns(line)),
            start: number,
            out: p.out.push((p.start, st::trim(p.current))),
        }),
        p.current.len() == 0 ==> ssr::fixed_step(p, (number, line)) == (Pending {
            current: st::trim(columns(line)),
            start: number,
            out: p.out,
        }),
{
    lemma_card(line);
    lemma_no_directive(line);
    assert(p.current.push(' ') + st::trim_start(columns(line)) =~= p.current + seq![' ']
        + st::trim_start(columns(line)));
}

/// A line in fixed form with a `c`, a `C`, a star or an exclamation mark in its
/// first column is a comment and says nothing.
pub proof fn law_fixed_comment(p: Pending, number: usize, line: Text)
    requires
        line.len() > 0,
        line[0] == 'c' || line[0] == 'C' || line[0] == '*' || line[0] == '!',
    ensures
        ssr::fixed_step(p, (number, line)) == p,
{
}

/// The statement of a first card and the cards that go on with it.
pub open spec fn fixed_statement(first: Text, rest: Seq<spp::Line>) -> Text
    decreases rest.len(),
{
    if rest.len() == 0 {
        st::trim(columns(first))
    } else {
        fixed_statement(first, rest.drop_last()) + seq![' '] + st::trim_start(
            columns(rest.last().1),
        )
    }
}

proof fn lemma_fixed_rest(
    lines: Seq<spp::Line>,
    first: Text,
    start: usize,
    rest: Seq<spp::Line>,
    i: int,
)
    requires
        lines.len() == rest.len() + 1,
        forall|k: int| 0 <= k < rest.len() ==> #[trigger] rest[k] == lines[k + 1],
        forall|k: int|
            0 <= k < rest.len() ==> is_card((#[trigger] rest[k]).1) && goes_on_with(rest[k].1),
        fixed_statement(first, Seq::empty()).len() > 0,
        0 <= i <= rest.len(),
    ensures
        fixed_statement(first, rest.take(i)).len() > 0,
        ssr::fixed_from(
            lines,
            i + 1,
            Pending { current: fixed_statement(first, rest.take(i)), start, out: Seq::empty() },
        ) == seq![(start, st::trim(fixed_statement(first, rest)))],
    decreases rest.len() - i,
{
    lemma_fixed_len(first, rest, i);
    let p = Pending {
        current: fixed_statement(first, rest.take(i)),
        start,
        out: Seq::<spp::Line>::empty(),
    };
    if i < rest.len() {
        assert(rest.take(i + 1).drop_last() =~= rest.take(i));
        assert(rest.take(i + 1).last() == rest[i]);
        assert(rest[i] == lines[i + 1]);
        law_fixed_card(p, rest[i].0, rest[i].1);
        lemma_fixed_rest(lines, first, start, rest, i + 1);
    } else {
        assert(rest.take(i) =~= rest);
        assert(Seq::<spp::Line>::empty().push((start, st::trim(fixed_statement(first, rest))))
            =~= seq![(start, st::trim(fixed_statement(first, rest)))]);
    }
}

proof fn lemma_fixed_len(first: Text, rest: Seq<spp::Line>, i: int)
    requires
        fixed_statement(first, Seq::empty()).len() > 0,
        0 <= i <= rest.len(),
    ensures
        fixed_statement(first, rest.take(i)).len() > 0,
    decreases i,
{
    if i > 0 {
        lemma_fixed_len(first, rest, i - 1);
        assert(rest.take(i).drop_last() =~= rest.take(i - 1));
    } else {
        assert(rest.take(0) =~= Seq::empty());
    }
}

/// A card and all the cards behind it that go on with it are one statement,
/// with the number of the first card.
pub proof fn law_fixed_statement(number: usize, first: Text, rest: Seq<spp::Line>)
    requires
        is_card(first),
        !st::is_blank(columns(first)),
        forall|k: int|
            0 <= k < rest.len() ==> is_card((#[trigger] rest[k]).1) && goes_on_with(rest[k].1),
    ensures
        ssr::fixed_logical_lines(seq![(number, first)] + rest) == seq![
            (number, st::trim(fixed_statement(first, rest))),
        ],
{
    let lines = seq![(number, first)] + rest;
    law_fixed_card(ssr::nothing_pending(), number, first);
    assert(lines[0] == (number, first));
    assert forall|k: int| 0 <= k < rest.len() implies #[trigger] rest[k] == lines[k + 1] by {}
    assert(rest.take(0) =~= Seq::empty());
    lemma_fixed_rest(lines, first, number, rest, 0);
}

proof fn lemma_fixed_out(lines: Seq<spp::Line>, i: int, p: Pending, before: Seq<spp::Line>)
    requires
        0 <= i <= lines.len(),
    ensures
        ssr::fixed_from(lines, i, Pending { out: before + p.out, ..p }) == before
            + ssr::fixed_from(lines, i, p),
    decreases lines.len() - i,
{
    let q = Pending { out: before + p.out, ..p };
    if i < lines.len() {
        let next = ssr::fixed_step(p, lines[i]);
        let other = ssr::fixed_step(q, lines[i]);
        assert(other.out =~= before + next.out);
        assert(other == (Pending { out: before + next.out, ..next }));
        lemma_fixed_out(lines, i + 1, next, before);
    } else {
        assert(ssr::finish(q) =~= before + ssr::finish(p));
    }
}

proof fn lemma_fixed_split(a: Seq<spp::Line>, b: Seq<spp::Line>, i: int, p: Pending)
    requires
        0 <= i <= a.len(),
        b.len() > 0,
        is_card(b[0].1),
        !goes_on_with(b[0].1),
    ensures
        ssr::fixed_from(a + b, i, p) == ssr::fixed_from(a, i, p) + ssr::fixed_logical_lines(b),
    decreases a.len() - i,
{
    if i < a.len() {
        assert((a + b)[i] == a[i]);
        lemma_fixed_split(a, b, i + 1, ssr::fixed_step(p, a[i]));
    } else {
        lemma_fixed_shift(a, b, 0, p);
        law_fixed_card(p, b[0].0, b[0].1);
        law_fixed_card(ssr::nothing_pending(), b[0].0, b[0].1);
        let here = ssr::fixed_step(ssr::nothing_pending(), b[0]);
        let there = ssr::fixed_step(p, b[0]);
        assert(here.out =~= Seq::empty());
        assert(there.out =~= ssr::finish(p) + here.out);
        lemma_fixed_out(b, 1, here, ssr::finish(p));
    }
}

proof fn lemma_fixed_shift(a: Seq<spp::Line>, b: Seq<spp::Line>, j: int, p: Pending)
    requires
        0 <= j <= b.len(),
    ensures
        ssr::fixed_from(a + b, a.len() + j, p) == ssr::fixed_from(b, j, p),
    decreases b.len() - j,
{
    if j < b.len() {
        assert((a + b)[a.len() + j] == b[j]);
        lemma_fixed_shift(a, b, j + 1, ssr::fixed_step(p, b[j]));
    }
}

/// A card that does not go on with the one before it starts afresh: the
/// statements from there on do not depend on the lines before them.
pub proof fn law_fixed_statements(a: Seq<spp::Line>, b: Seq<spp::Line>)
    requires
        b.len() > 0,
        is_card(b[0].1),
        !goes_on_with(b[0].1),
    ensures
        ssr::fixed_logical_lines(a + b) == ssr::fixed_logical_lines(a)
            + ssr::fixed_logical_lines(b),
{
    lemma_fixed_split(a, b, 0, ssr::nothing_pending());
}

// ---------------------------------------------------------------------------
// Free form
// ---------------------------------------------------------------------------

/// Whether a text is a part of a statement without literals and comments, and
/// without ampersands at its ends.
pub open spec fn is_plain_code(s: Text) -> bool {
    &&& s.len() > 0
    &&& is_trimmed(s)
    &&& s[0] != '&' && s[0] != '#'
    &&& s.last() != '&'
    &&& forall|i: int|
        0 <= i < s.len() ==> #[trigger] s[i] != '!' && s[i] != '\'' && s[i] != '"'
}

/// A line in free form: an ampersand where it goes on with the one before it, a
/// part of a statement, an ampersand where the next line goes on with it, and a
/// comment, with white space around them.
pub open spec fn free_line(
    opening: bool,
    gap: Text,
    code: Text,
    behind: Text,
    closing: bool,
    end: Text,
    comment: Text,
) -> Text {
    (if opening {
        seq!['&']
    } else {
        Seq::empty()
    }) + gap + code + behind + (if closing {
        seq!['&']
    } else {
        Seq::empty()
    }) + end + comment
}

/// Whether a text is empty or a comment.
pub open spec fn is_comment(s: Text) -> bool {
    s.len() == 0 || s[0] == '!'
}

proof fn lemma_comment_at(s: Text, i: int, k: int)
    requires
        0 <= i <= k <= s.len(),
        forall|j: int| i <= j < k ==> #[trigger] s[j] != '!' && s[j] != '\'' && s[j] != '"',
        k < s.len() ==> s[k] == '!',
    ensures
        ss::comment_start(s, ss::unquoted(), i) == k,
    decreases k - i,
{
    if i < k {
        lemma_comment_at(s, i + 1, k);
    }
}

/// A comment behind a text without literals goes, and the text stays.
pub proof fn law_strip_comment(code: Text, comment: Text)
    requires
        forall|i: int|
            0 <= i < code.len() ==> #[trigger] code[i] != '!' && code[i] != '\'' && code[i] != '"',
        is_comment(comment),
    ensures
        ss::strip_inline_comment(code + comment) == code,
{
    let s = code + comment;
    assert forall|j: int| 0 <= j < code.len() implies #[trigger] s[j] != '!' && s[j] != '\''
        && s[j] != '"' by {
        assert(s[j] == code[j]);
    }
    lemma_comment_at(s, 0, code.len() as int);
    assert(s.take(code.len() as int) =~= code);
}

proof fn lemma_ampersands_behind(s: Text, k: int, j: int)
    requires
        0 <= k <= j <= s.len(),
        forall|i: int| k <= i < j ==> #[trigger] s[i] == '&',
        k > 0 ==> s[k - 1] != '&',
    ensures
        st::before_char(s, '&', j) == k,
    decreases j - k,
{
    if k < j {
        lemma_ampersands_behind(s, k, j - 1);
    }
}

proof fn lemma_plain_part(opening: bool, gap: Text, code: Text, behind: Text, closing: bool)
    requires
        all_space(gap),
        all_space(behind),
        is_plain_code(code),
    ensures
        ({
            let head = (if opening {
                seq!['&']
            } else {
                Seq::empty()
            }) + gap + code;
            let trimmed = if closing {
                head + behind + seq!['&']
            } else {
                head
            };
            &&& st::trim_start(
                st::trim_start_char(st::trim_end(st::trim_end_char(trimmed, '&')), '&'),
            ) == code
            &&& st::ends_with_char(trimmed, '&') == closing
            &&& trimmed.len() > 0
        }),
{
    let amp = if opening {
        seq!['&']
    } else {
        Seq::<char>::empty()
    };
    let head = amp + gap + code;
    assert(head.last() == code.last());
    if closing {
        let all = head + behind;
        let trimmed = all + seq!['&'];
        let n = all.len() as int;
        if behind.len() > 0 {
            assert(all.last() == behind.last());
            assert(st::is_space(behind[behind.len() - 1]));
        } else {
            assert(all.last() == code.last());
        }
        assert(trimmed[n - 1] == all.last());
        lemma_ampersands_behind(trimmed, n, n + 1);
        assert(trimmed.take(n) =~= all);
    } else {
        lemma_ampersands_behind(head, head.len() as int, head.len() as int);
        assert(head.take(head.len() as int) =~= head);
        assert(head + Seq::<char>::empty() =~= head);
        law_trim_end(head, Seq::empty());
    }
    law_trim_end(head, behind);
    let first = gap + code;
    if opening {
        assert(head[0] == '&');
        assert(head[1] == first[0]);
        if gap.len() > 0 {
            assert(first[0] == gap[0]);
            assert(st::is_space(gap[0]));
        } else {
            assert(first[0] == code[0]);
        }
        assert(st::after_char(head, '&', 1) == 1);
        assert(st::after_char(head, '&', 0) == 1);
        assert(head.skip(1) =~= first);
    } else {
        assert(head =~= first);
        if gap.len() > 0 {
            assert(first[0] == gap[0]);
            assert(st::is_space(gap[0]));
        } else {
            assert(first[0] == code[0]);
        }
        assert(st::after_char(head, '&', 0) == 0);
        assert(head.skip(0) =~= head);
    }
    law_trim_start(gap, code);
}

/// A line in free form follows the statement that the line before it left open,
/// or starts one. It ends the statement unless an ampersand stands at its end.
/// Neither the ampersands nor a comment belong to the statement.
pub proof fn law_free_line(
    p: Pending,
    number: usize,
    opening: bool,
    gap: Text,
    code: Text,
    behind: Text,
    closing: bool,
    end: Text,
    comment: Text,
)
    requires
        all_space(gap),
        all_space(behind),
        all_space(end),
        is_plain_code(code),
        is_comment(comment),
    ensures
        ({
            let line = free_line(opening, gap, code, behind, closing, end, comment);
            let current = if p.current.len() == 0 {
                code
            } else {
                p.current + seq![' '] + code
            };
            let start = if p.current.len() == 0 {
                number
            } else {
                p.start
            };
            ssr::free_step(p, (number, line)) == if closing {
                Pending { current, start, out: p.out }
            } else {
                Pending {
                    current: Seq::empty(),
                    start,
                    out: p.out.push((start, st::trim(current))),
                }
            }
        }),
{
    let amp = if opening {
        seq!['&']
    } else {
        Seq::<char>::empty()
    };
    let last = if closing {
        seq!['&']
    } else {
        Seq::<char>::empty()
    };
    let line = free_line(opening, gap, code, behind, closing, end, comment);
    let head = amp + gap + code;
    let kept = head + behind + last + end;
    assert(line =~= kept + comment);
    assert forall|i: int| 0 <= i < kept.len() implies #[trigger] kept[i] != '!' && kept[i] != '\''
        && kept[i] != '"' by {
        let a = amp.len();
        let g = a + gap.len();
        let c = g + code.len();
        let b = c + behind.len();
        if i < a {
            assert(kept[i] == amp[i]);
        } else if i < g {
            assert(kept[i] == gap[i - a]);
            assert(st::is_space(gap[i - a]));
        } else if i < c {
            assert(kept[i] == code[i - g]);
        } else if i < b {
            assert(kept[i] == behind[i - c]);
            assert(st::is_space(behind[i - c]));
        } else if i < b + last.len() {
            assert(kept[i] == last[i - b]);
        } else {
            assert(kept[i] == end[i - b - last.len()]);
            assert(st::is_space(end[i - b - last.len()]));
        }
    }
    law_strip_comment(kept, comment);
    let trimmed = if closing {
        head + behind + seq!['&']
    } else {
        head
    };
    assert(head.last() == code.last());
    if closing {
        law_trim_end(trimmed, end);
        assert(kept =~= trimmed + end);
    } else {
        let tail = behind + end;
        assert forall|i: int| 0 <= i < tail.len() implies st::is_space(#[trigger] tail[i]) by {
            if i < behind.len() {
                assert(tail[i] == behind[i]);
            } else {
                assert(tail[i] == end[i - behind.len()]);
            }
        }
        law_trim_end(head, tail);
        assert(kept =~= head + tail);
    }
    lemma_plain_part(opening, gap, code, behind, closing);
    assert(line.take((amp + gap + code).len() as int) =~= amp + gap + code);
    lemma_starts(line, amp + gap, code);
    let raw = st::trim_end(line);
    assert(p.current.push(' ') + code =~= p.current + seq![' '] + code);
}

/// The first character of a line but for white space and an ampersand.
proof fn lemma_starts(line: Text, before: Text, code: Text)
    requires
        is_plain_code(code),
        line.len() >= before.len() + code.len(),
        line.take((before.len() + code.len()) as int) == before + code,
        forall|i: int|
            0 <= i < before.len() ==> #[trigger] before[i] == '&' || st::is_space(before[i]),
    ensures
        ({
            let raw = st::trim_end(line);
            &&& !st::is_blank(raw)
            &&& !st::starts_with_char(st::trim_start(raw), '#')
            &&& !st::starts_with_char(st::trim_start(raw), '!')
        }),
{
    let n = (before.len() + code.len()) as int;
    let raw = st::trim_end(line);
    assert(line[n - 1] == code.last()) by {
        assert(line.take(n)[n - 1] == (before + code)[n - 1]);
    }
    lemma_solid_kept(line, n, line.len() as int);
    assert(raw.len() >= n);
    let k = st::after_spaces(raw, 0);
    lemma_trim_start_is(raw);
    lemma_spaces_are(raw, 0);
    assert(raw[before.len() as int] == code[0]) by {
        assert(line.take(n)[before.len() as int] == (before + code)[before.len() as int]);
    }
    assert(k <= before.len()) by {
        if k > before.len() {
            assert(st::is_space(raw[before.len() as int]));
        }
    }
    assert(raw[k] == (before + code)[k]) by {
        assert(line.take(n)[k] == line[k]);
    }
    if k < before.len() {
        assert(raw[k] == before[k]);
    }
    assert(raw.last() == raw[raw.len() - 1]);
    lemma_trim_end_solid(line, line.len() as int);
    let t = st::trim_start(raw);
    assert(t[0] == raw[k]);
    assert(st::trim_end(raw) =~= raw) by {
        assert(raw + Seq::<char>::empty() =~= raw);
        law_trim_end(raw, Seq::empty());
    }
}

proof fn lemma_solid_kept(s: Text, n: int, j: int)
    requires
        0 < n <= j <= s.len(),
        !st::is_space(s[n - 1]),
    ensures
        n <= st::before_spaces(s, j) <= j,
    decreases j,
{
    if j > n && st::is_space(s[j - 1]) {
        lemma_solid_kept(s, n, j - 1);
    }
}

proof fn lemma_trim_end_solid(s: Text, j: int)
    requires
        0 <= j <= s.len(),
    ensures
        0 <= st::before_spaces(s, j) <= j,
        st::before_spaces(s, j) > 0 ==> !st::is_space(s[st::before_spaces(s, j) - 1]),
    decreases j,
{
    if j > 0 && st::is_space(s[j - 1]) {
        lemma_trim_end_solid(s, j - 1);
    }
}

/// Blank lines and comments do not end a statement that goes on.
pub proof fn law_free_between(p: Pending, number: usize, gap: Text, comment: Text)
    requires
        p.current.len() > 0,
        all_space(gap),
        is_comment(comment),
    ensures
        ssr::free_step(p, (number, gap + comment)) == p,
{
    let line = gap + comment;
    let raw = st::trim_end(line);
    if comment.len() == 0 {
        assert(Seq::<char>::empty() + line =~= line);
        assert forall|i: int| 0 <= i < line.len() implies st::is_space(#[trigger] line[i]) by {
            assert(line[i] == gap[i]);
        }
        law_trim_end(Seq::empty(), line);
        lemma_trimmed(Seq::empty());
    } else {
        let n = gap.len() as int;
        lemma_solid_kept(line, n + 1, line.len() as int);
        let shown = raw.skip(n);
        assert(raw =~= gap + shown) by {
            assert(gap =~= raw.take(n));
        }
        assert(shown[0] == '!');
        law_trim_start(gap, shown);
    }
}

// ---------------------------------------------------------------------------
// Documentation
// ---------------------------------------------------------------------------

/// A comment with `!>` or `!!` before its text documents what follows it.
pub proof fn law_doc_comment(before: Text, gap: Text, doc: Text)
    requires
        all_space(before),
        all_space(gap),
        doc.len() == 0 || !st::is_space(doc[0]),
    ensures
        sp::parse_doc_comment(before + seq!['!', '>'] + gap + doc) == Some(doc),
        sp::parse_doc_comment(before + seq!['!', '!'] + gap + doc) == Some(doc),
{
    reveal_strlit("!>");
    reveal_strlit("!!");
    law_trim_start(gap, doc);
    lemma_marked(before, seq!['!', '>'], gap + doc);
    lemma_marked(before, seq!['!', '!'], gap + doc);
    assert(before + seq!['!', '>'] + gap + doc =~= before + (seq!['!', '>'] + (gap + doc)));
    assert(before + seq!['!', '!'] + gap + doc =~= before + (seq!['!', '!'] + (gap + doc)));
    assert(seq!['!', '>'] =~= "!>"@);
    assert(seq!['!', '!'] =~= "!!"@);
    let t = seq!['!', '!'] + (gap + doc);
    assert(t.subrange(0, 2)[1] == '!');
    assert("!>"@[1] == '>');
}

proof fn lemma_marked(before: Text, mark: Text, rest: Text)
    requires
        all_space(before),
        mark.len() == 2,
        mark[0] == '!',
    ensures
        st::trim_start(before + (mark + rest)) == mark + rest,
        st::strip_prefix(mark + rest, mark) == Some(rest),
{
    law_trim_start(before, mark + rest);
    assert((mark + rest).subrange(0, 2) =~= mark);
    assert((mark + rest).skip(2) =~= rest);
}

/// Other lines do not document anything: those that are no comments, and
/// comments that go on with something else than `>` or `!`.
pub proof fn law_no_doc_comment(before: Text, rest: Text)
    requires
        all_space(before),
        rest.len() > 0,
        !st::is_space(rest[0]),
        rest[0] == '!' ==> rest.len() == 1 || (rest[1] != '>' && rest[1] != '!'),
    ensures
        sp::parse_doc_comment(before + rest) is None,
{
    reveal_strlit("!>");
    reveal_strlit("!!");
    law_trim_start(before, rest);
    if rest.len() >= 2 {
        assert(rest.subrange(0, 2)[0] == rest[0]);
        assert(rest.subrange(0, 2)[1] == rest[1]);
    }
}

/// A line with a documentation comment.
pub open spec fn doc_line(before: Text, mark: char, gap: Text, doc: Text) -> Text {
    before + seq!['!', mark] + gap + doc
}

/// The text of a documentation comment is kept for what follows it, behind
/// those of the comments before it.
pub proof fn law_doc_kept(
    files: Seq<ssr::SourceFile>,
    s: pr::State,
    number: usize,
    before: Text,
    mark: char,
    gap: Text,
    doc: Text,
)
    requires
        all_space(before),
        all_space(gap),
        doc.len() == 0 || !st::is_space(doc[0]),
        mark == '>' || mark == '!',
        pr::preprocessor_active(s.preprocessor_stack),
    ensures
        pr::line_step(files, s, (number, doc_line(before, mark, gap, doc))) == (pr::State {
            pending_doc: s.pending_doc.push(doc),
            ..s
        }),
{
    let line = doc_line(before, mark, gap, doc);
    law_doc_comment(before, gap, doc);
    let n = before.len() as int;
    assert(line[n] == '!');
    let raw = st::trim_end(line);
    lemma_solid_kept(line, n + 1, line.len() as int);
    let shown = raw.skip(n);
    assert(raw =~= before + shown) by {
        assert(before =~= raw.take(n));
    }
    assert(shown[0] == '!');
    law_trim_start(before, shown);
    let t = st::trim(line);
    assert(t == shown);
    assert(Seq::<char>::empty() + t =~= t);
    law_trim_start(Seq::empty(), t);
    assert(spp::parse_preprocessor(t, number, s.parsed.path, pr::current_scope(s.scopes)) is None);
}

/// What opens a scope is documented by the comments right before it, a line
/// each, and what follows it is not documented by them once more.
pub proof fn law_documentation(s: pr::State, line: usize, start: sc::ScopeStart)
    ensures
        ({
            let t = pr::open_scope(s, line, start);
            let k = s.parsed.symbols.len() as int;
            &&& t.parsed.symbols.len() > k
            &&& t.parsed.symbols[k].documentation == if s.pending_doc.len() == 0 {
                None
            } else {
                Some(st::join(s.pending_doc, seq!['\n']))
            }
            &&& t.pending_doc.len() == 0
        }),
{
    reveal_strlit("\n");
    assert("\n"@ =~= seq!['\n']);
    let d = pr::diagnose_scope_before_contains(s, line, start.kind);
    let source_line = st::line(d.parsed.source, line as int);
    crate::laws::parsing::lemma_associates(
        source_line,
        line,
        d.parsed.path,
        pr::current_scope(d.scopes).push(pr::scope_name(source_line, line, start)),
        start.associate_names,
        0,
        d.parsed.symbols.push(pr::scope_symbol(d, line, start)),
    );
}

} // verus!
