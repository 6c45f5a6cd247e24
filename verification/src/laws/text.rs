//! Texts, and places in them.

use vstd::prelude::*;

use crate::spec::expression as se;
use crate::spec::text as st;
use crate::spec::text::Text;

verus! {

/// Names that differ in case alone are the same: being the same goes both
/// ways, and goes on over a third name. A name is the same as its lower case.
pub proof fn law_same(a: Text, b: Text, c: Text)
    ensures
        st::same(a, a),
        st::same(a, b) ==> st::same(b, a),
        st::same(a, b) && st::same(b, c) ==> st::same(a, c),
        st::same(a, st::lower(a)),
        st::lower(st::lower(a)) == st::lower(a),
{
    assert(st::lower(st::lower(a)) =~= st::lower(a));
}

/// A longer start of a text has more code units.
proof fn lemma_utf16_grows(s: Text, i: int, j: int)
    requires
        0 <= i <= j <= s.len(),
    ensures
        st::utf16_len(s.take(i)) + (j - i) <= st::utf16_len(s.take(j)),
    decreases j - i,
{
    if i < j {
        lemma_utf16_grows(s, i, j - 1);
        assert(s.take(j).drop_last() =~= s.take(j - 1));
    }
}

/// The index that is found for a column from an index before it on.
proof fn lemma_column_from(s: Text, k: int, i: int)
    requires
        0 <= i <= k <= s.len(),
    ensures
        st::index_within_utf16(s, st::utf16_len(s.take(k)), i) == k,
    decreases k - i,
{
    if i < k {
        lemma_utf16_grows(s, i + 1, k);
        lemma_column_from(s, k, i + 1);
    } else if k < s.len() {
        lemma_utf16_grows(s, k, k + 1);
    }
}

/// The column of a character points at that character.
pub proof fn law_column_of_index(line: Text, k: int)
    requires
        0 <= k <= line.len(),
    ensures
        st::index_of_column(line, st::utf16_len(line.take(k))) == k,
{
    lemma_column_from(line, k, 0);
}

/// Any column points into the line, and at a character that does not start
/// behind it.
pub proof fn law_column_in_line(line: Text, col: nat)
    ensures
        0 <= st::index_of_column(line, col) <= line.len(),
        st::utf16_len(line.take(st::index_of_column(line, col))) <= col,
{
    assert(line.take(0).len() == 0);
    lemma_column_within(line, col, 0);
}

proof fn lemma_column_within(s: Text, n: nat, i: int)
    requires
        0 <= i <= s.len(),
        st::utf16_len(s.take(i)) <= n,
    ensures
        i <= st::index_within_utf16(s, n, i) <= s.len(),
        st::utf16_len(s.take(st::index_within_utf16(s, n, i))) <= n,
    decreases s.len() - i,
{
    if i < s.len() && st::utf16_len(s.take(i + 1)) <= n {
        lemma_column_within(s, n, i + 1);
    }
}

/// Digits in front of others count in full.
proof fn lemma_digits_split(s: Text, i: int, value: int)
    requires
        0 <= i,
        s.len() > 0,
        i < s.len(),
        se::digit_value(s.last()) < 10,
    ensures
        match se::digits_from(s.drop_last(), 10, i, value) {
            Some(n) => se::digits_from(s, 10, i, value) == Some(n * 10 + se::digit_value(s.last())),
            None => se::digits_from(s, 10, i, value) is None,
        },
    decreases s.len() - i,
{
    if i < s.len() - 1 {
        assert(s.drop_last()[i] == s[i]);
        if se::digit_value(s[i]) < 10 {
            lemma_digits_split(s, i + 1, value * 10 + se::digit_value(s[i]));
        }
    } else {
        reveal_with_fuel(se::digits_from, 2);
    }
}

/// A number that is written in decimal reads as that number.
pub proof fn law_decimal(n: nat)
    ensures
        se::digits(st::decimal(n), 10) == Some(n as int),
        st::decimal(n).len() > 0,
        st::is_digit(st::decimal(n)[0]),
        st::is_digit(st::decimal(n).last()),
    decreases n,
{
    reveal_with_fuel(se::digits_from, 2);
    if n >= 10 {
        law_decimal(n / 10);
        let s = st::decimal(n);
        assert(s.drop_last() =~= st::decimal(n / 10));
        assert(s.last() == st::digit(n % 10));
        lemma_digits_split(s, 0, 0);
    }
}

// ---------------------------------------------------------------------------
// White space
// ---------------------------------------------------------------------------

/// Blanks, tabs and line ends are white space; the other characters of ASCII
/// that can be seen are not.
pub proof fn law_white_space(c: char)
    ensures
        c == ' ' || c == '\t' || c == '\n' || c == '\r' ==> st::is_space(c),
        '!' <= c <= '~' ==> !st::is_space(c),
{
}

/// Whether a text holds nothing but white space.
pub open spec fn all_space(s: Text) -> bool {
    forall|i: int| 0 <= i < s.len() ==> st::is_space(#[trigger] s[i])
}

/// Whether a text is empty, or starts and ends with something else than white
/// space.
pub open spec fn is_trimmed(s: Text) -> bool {
    s.len() == 0 || (!st::is_space(s[0]) && !st::is_space(s.last()))
}

proof fn lemma_spaces_before(s: Text, k: int, i: int)
    requires
        0 <= i <= k <= s.len(),
        forall|j: int| i <= j < k ==> st::is_space(#[trigger] s[j]),
        k < s.len() ==> !st::is_space(s[k]),
    ensures
        st::after_spaces(s, i) == k,
    decreases k - i,
{
    if i < k {
        lemma_spaces_before(s, k, i + 1);
    }
}

proof fn lemma_spaces_behind(s: Text, k: int, j: int)
    requires
        0 <= k <= j <= s.len(),
        forall|i: int| k <= i < j ==> st::is_space(#[trigger] s[i]),
        k > 0 ==> !st::is_space(s[k - 1]),
    ensures
        st::before_spaces(s, j) == k,
    decreases j - k,
{
    if k < j {
        lemma_spaces_behind(s, k, j - 1);
    }
}

/// White space before a text goes, and what starts with another character
/// stays.
pub proof fn law_trim_start(before: Text, t: Text)
    requires
        all_space(before),
        t.len() == 0 || !st::is_space(t[0]),
    ensures
        st::trim_start(before + t) == t,
{
    let s = before + t;
    assert forall|j: int| 0 <= j < before.len() implies st::is_space(#[trigger] s[j]) by {
        assert(s[j] == before[j]);
    }
    if t.len() > 0 {
        assert(s[before.len() as int] == t[0]);
    }
    lemma_spaces_before(s, before.len() as int, 0);
    assert(s.skip(before.len() as int) =~= t);
}

/// White space behind a text goes, and what ends with another character stays.
pub proof fn law_trim_end(t: Text, behind: Text)
    requires
        all_space(behind),
        t.len() == 0 || !st::is_space(t.last()),
    ensures
        st::trim_end(t + behind) == t,
{
    let s = t + behind;
    assert forall|j: int| t.len() <= j < s.len() implies st::is_space(#[trigger] s[j]) by {
        assert(s[j] == behind[j - t.len()]);
    }
    if t.len() > 0 {
        assert(s[t.len() - 1] == t.last());
    }
    lemma_spaces_behind(s, t.len() as int, s.len() as int);
    assert(s.take(t.len() as int) =~= t);
}

/// White space on both sides of a text goes, and the text stays.
pub proof fn law_trim(before: Text, t: Text, behind: Text)
    requires
        all_space(before),
        all_space(behind),
        is_trimmed(t),
    ensures
        st::trim(before + t + behind) == t,
{
    if t.len() > 0 {
        assert((before + t).last() == t.last());
        law_trim_end(before + t, behind);
        law_trim_start(before, t);
    } else {
        let s = before + t + behind;
        assert forall|j: int| 0 <= j < s.len() implies st::is_space(#[trigger] s[j]) by {
            if j < before.len() {
                assert(s[j] == before[j]);
            } else {
                assert(s[j] == behind[j - before.len()]);
            }
        }
        assert(Seq::<char>::empty() + s =~= s);
        law_trim_end(Seq::empty(), s);
        assert(Seq::<char>::empty() + Seq::<char>::empty() =~= Seq::<char>::empty());
        law_trim_start(Seq::empty(), Seq::empty());
        assert(t =~= Seq::empty());
    }
}

/// A trimmed text stays as it is.
pub proof fn lemma_trimmed(t: Text)
    requires
        is_trimmed(t),
    ensures
        st::trim(t) == t,
        st::trim_start(t) == t,
        st::trim_end(t) == t,
        st::is_blank(t) == (t.len() == 0),
{
    let none = Seq::<char>::empty();
    law_trim(none, t, none);
    law_trim_start(none, t);
    law_trim_end(t, none);
    assert(none + t + none =~= t);
    assert(none + t =~= t);
    assert(t + none =~= t);
}

/// What is left of a trimmed start is a text that starts with something else
/// than white space.
pub proof fn lemma_trim_start_is(s: Text)
    ensures
        st::trim_start(s).len() == 0 || !st::is_space(st::trim_start(s)[0]),
        0 <= st::after_spaces(s, 0) <= s.len(),
{
    st::lemma_after_spaces(s, 0);
    lemma_after_spaces_is(s, 0);
}

proof fn lemma_after_spaces_is(s: Text, i: int)
    requires
        0 <= i <= s.len(),
    ensures
        i <= st::after_spaces(s, i) <= s.len(),
        st::after_spaces(s, i) < s.len() ==> !st::is_space(s[st::after_spaces(s, i)]),
    decreases s.len() - i,
{
    if i < s.len() && st::is_space(s[i]) {
        lemma_after_spaces_is(s, i + 1);
    }
}

// ---------------------------------------------------------------------------
// Names and keywords
// ---------------------------------------------------------------------------

/// Whether a text is a name: letters, digits and underscores, and no digit
/// first.
pub open spec fn is_name(s: Text) -> bool {
    &&& s.len() > 0
    &&& !('0' <= s[0] <= '9')
    &&& forall|i: int| 0 <= i < s.len() ==> is_name_character(#[trigger] s[i])
}

pub open spec fn is_name_character(c: char) -> bool {
    'a' <= c <= 'z' || 'A' <= c <= 'Z' || '0' <= c <= '9' || c == '_'
}

/// Whether a name ends before a text: the text goes on with something else.
pub open spec fn ends_name(s: Text) -> bool {
    s.len() == 0 || !is_name_character(s[0])
}

/// Whether no name starts in a text.
pub open spec fn has_no_name(s: Text) -> bool {
    forall|i: int|
        0 <= i < s.len() ==> !(is_name_character(#[trigger] s[i]) && !('0' <= s[i] <= '9'))
}

proof fn lemma_name_run(s: Text, i: int, k: int)
    requires
        0 <= i <= k <= s.len(),
        forall|j: int| i <= j < k ==> is_name_character(#[trigger] s[j]),
        k < s.len() ==> !is_name_character(s[k]),
    ensures
        st::name_end(s, i) == k,
    decreases k - i,
{
    if i < k {
        lemma_name_run(s, i + 1, k);
    }
}

proof fn lemma_name_found(s: Text, i: int, k: int)
    requires
        0 <= i <= k < s.len(),
        forall|j: int| i <= j < k ==> !st::is_name_start(#[trigger] s[j]),
        st::is_name_start(s[k]),
    ensures
        st::name_start_from(s, i) == Some(k),
    decreases k - i,
{
    if i < k {
        lemma_name_found(s, i + 1, k);
    }
}

/// The first name of a text is found, whatever stands around it.
pub proof fn law_first_name(before: Text, name: Text, behind: Text)
    requires
        has_no_name(before),
        is_name(name),
        ends_name(behind),
    ensures
        st::next_name(before + name + behind) == Some((before.len() as int, name)),
        st::first_ident(before + name + behind) == Some(name),
{
    let s = before + name + behind;
    let k = before.len() as int;
    let e = k + name.len();
    assert forall|j: int| 0 <= j < k implies !st::is_name_start(#[trigger] s[j]) by {
        assert(s[j] == before[j]);
    }
    assert(s[k] == name[0]);
    lemma_name_found(s, 0, k);
    assert forall|j: int| k <= j < e implies is_name_character(#[trigger] s[j]) by {
        assert(s[j] == name[j - k]);
    }
    if e < s.len() {
        assert(s[e] == behind[0]);
    }
    lemma_name_run(s, k, e);
    assert(s.subrange(k, e) =~= name);
}

/// Whether a text holds no white space at its start.
pub open spec fn starts_solid(s: Text) -> bool {
    s.len() > 0 && !st::is_space(s[0])
}

/// A keyword at the start of a statement is found in any case and behind any
/// white space, where no name goes on behind it.
pub proof fn law_keyword(before: Text, word: Text, keyword: Text, rest: Text)
    requires
        all_space(before),
        starts_solid(word),
        st::lower(word) == st::lower(keyword),
        ends_name(rest),
    ensures
        st::after_keyword(before + word + rest, keyword) == Some(rest),
{
    assert(before + word + rest =~= before + (word + rest));
    law_trim_start(before, word + rest);
    let line = word + rest;
    assert(st::lower(word).len() == word.len());
    assert(st::lower(keyword).len() == keyword.len());
    assert(line.take(keyword.len() as int) =~= word);
    assert(line.skip(keyword.len() as int) =~= rest);
}

/// A statement does not start with a keyword where another letter stands in its
/// place.
pub proof fn lemma_no_keyword(code: Text, keyword: Text, k: int)
    requires
        0 <= k < keyword.len(),
        code.len() == 0 || !st::is_space(code[0]),
        k < code.len() ==> st::lower_char(code[k]) != st::lower_char(keyword[k]),
    ensures
        st::after_keyword(code, keyword) is None,
{
    let none = Seq::<char>::empty();
    assert(none + code =~= code);
    law_trim_start(none, code);
    if code.len() >= keyword.len() && st::same(code.take(keyword.len() as int), keyword) {
        assert(st::lower(code.take(keyword.len() as int))[k] == st::lower_char(code[k]));
        assert(st::lower(keyword)[k] == st::lower_char(keyword[k]));
    }
}

} // verus!
