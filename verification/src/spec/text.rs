//! Texts as sequences of characters: classes, case, trimming, searching,
//! measures and lines.

use vstd::prelude::*;

verus! {

/// A text.
pub type Text = Seq<char>;

/// The index that an optional position holds.
pub open spec fn at(i: Option<usize>) -> Option<int> {
    match i {
        Some(i) => Some(i as int),
        None => None,
    }
}

/// The pair of texts that an optional pair of slices holds.
pub open spec fn pair(p: Option<(&[char], &[char])>) -> Option<(Text, Text)> {
    match p {
        Some((a, b)) => Some((a@, b@)),
        None => None,
    }
}

/// The text that an optional slice holds.
pub open spec fn slice(s: Option<&[char]>) -> Option<Text> {
    match s {
        Some(s) => Some(s@),
        None => None,
    }
}

// ---------------------------------------------------------------------------
// Characters
// ---------------------------------------------------------------------------

/// Unicode white space.
pub open spec fn is_space(c: char) -> bool {
    ||| '\u{9}' <= c <= '\u{d}'
    ||| c == ' '
    ||| c == '\u{85}'
    ||| c == '\u{a0}'
    ||| c == '\u{1680}'
    ||| '\u{2000}' <= c <= '\u{200a}'
    ||| c == '\u{2028}'
    ||| c == '\u{2029}'
    ||| c == '\u{202f}'
    ||| c == '\u{205f}'
    ||| c == '\u{3000}'
}

pub open spec fn is_digit(c: char) -> bool {
    '0' <= c <= '9'
}

pub open spec fn is_letter(c: char) -> bool {
    'a' <= c <= 'z' || 'A' <= c <= 'Z'
}

/// A character that can start a Fortran or macro name.
pub open spec fn is_name_start(c: char) -> bool {
    c == '_' || is_letter(c)
}

/// A character of a Fortran or macro name.
pub open spec fn is_ident(c: char) -> bool {
    c == '_' || is_letter(c) || is_digit(c)
}

/// The ASCII lower case of a character.
pub open spec fn lower_char(c: char) -> char {
    if 'A' <= c <= 'Z' {
        ((c as u8) + 32) as u8 as char
    } else {
        c
    }
}

/// Bytes of a character in UTF-8.
pub open spec fn byte_width(c: char) -> nat {
    if c as u32 <= 0x7f {
        1
    } else if c as u32 <= 0x7ff {
        2
    } else if c as u32 <= 0xffff {
        3
    } else {
        4
    }
}

/// Code units of a character in UTF-16.
pub open spec fn utf16_width(c: char) -> nat {
    if c as u32 <= 0xffff {
        1
    } else {
        2
    }
}

// ---------------------------------------------------------------------------
// Case
// ---------------------------------------------------------------------------

/// The ASCII lower case of a text.
pub open spec fn lower(s: Text) -> Text {
    Seq::new(s.len(), |i: int| lower_char(s[i]))
}

/// Whether a text holds nothing but digits.
pub open spec fn all_digits(s: Text) -> bool {
    forall|i: int| 0 <= i < s.len() ==> is_digit(#[trigger] s[i])
}

/// Equality of texts in which ASCII case does not count.
pub open spec fn same(a: Text, b: Text) -> bool {
    lower(a) == lower(b)
}

/// Equality of scopes in which ASCII case does not count.
pub open spec fn same_scope(a: Seq<Text>, b: Seq<Text>) -> bool {
    &&& a.len() == b.len()
    &&& forall|i: int| 0 <= i < a.len() ==> same(#[trigger] a[i], b[i])
}

/// Whether one of `names` is `name`, case aside.
pub open spec fn has_name(names: Seq<Text>, name: Text) -> bool {
    exists|i: int| 0 <= i < names.len() && same(#[trigger] names[i], name)
}

// ---------------------------------------------------------------------------
// Measures
// ---------------------------------------------------------------------------

/// A size as a machine integer; one that does not fit becomes the largest.
pub open spec fn size(n: nat) -> usize {
    if n <= usize::MAX {
        n as usize
    } else {
        usize::MAX
    }
}

/// Bytes of a text in UTF-8.
pub open spec fn byte_len(s: Text) -> nat
    decreases s.len(),
{
    if s.len() == 0 {
        0
    } else {
        byte_len(s.drop_last()) + byte_width(s.last())
    }
}

/// Bytes of a text in UTF-8, as a machine integer.
pub open spec fn bytes(s: Text) -> usize {
    size(byte_len(s))
}

/// Code units of a text in UTF-16.
pub open spec fn utf16_len(s: Text) -> nat
    decreases s.len(),
{
    if s.len() == 0 {
        0
    } else {
        utf16_len(s.drop_last()) + utf16_width(s.last())
    }
}

/// The first index at or after `i` with at least `n` bytes before it.
pub open spec fn index_of_byte(s: Text, n: nat, i: int) -> int
    decreases s.len() - i,
{
    if i >= s.len() {
        s.len() as int
    } else if byte_len(s.take(i)) >= n {
        i
    } else {
        index_of_byte(s, n, i + 1)
    }
}

/// What is left of a text behind its first `n` bytes. A character that the
/// cut goes through is dropped.
pub open spec fn skip_bytes(s: Text, n: nat) -> Text {
    s.skip(index_of_byte(s, n, 0))
}

/// What stands behind the first `n` bytes of a text; nothing where they do not
/// end with a character.
pub open spec fn get_bytes(s: Text, n: nat) -> Option<Text> {
    if byte_len(s.take(index_of_byte(s, n, 0))) == n {
        Some(skip_bytes(s, n))
    } else {
        None
    }
}

/// The last index at or after `i` up to which the text has at most `n` bytes.
pub open spec fn index_within_bytes(s: Text, n: nat, i: int) -> int
    decreases s.len() - i,
{
    if i < s.len() && byte_len(s.take(i + 1)) <= n {
        index_within_bytes(s, n, i + 1)
    } else {
        i
    }
}

/// The longest start of a text that has at most `n` bytes.
pub open spec fn take_bytes(s: Text, n: nat) -> Text {
    s.take(index_within_bytes(s, n, 0))
}

/// The last index at or after `i` up to which the text has at most `n` UTF-16
/// code units.
pub open spec fn index_within_utf16(s: Text, n: nat, i: int) -> int
    decreases s.len() - i,
{
    if i < s.len() && utf16_len(s.take(i + 1)) <= n {
        index_within_utf16(s, n, i + 1)
    } else {
        i
    }
}

/// The character of a line that the UTF-16 column `col` points at.
pub open spec fn index_of_column(line: Text, col: nat) -> int {
    index_within_utf16(line, col, 0)
}

// ---------------------------------------------------------------------------
// Trimming
// ---------------------------------------------------------------------------

/// The first index at or after `i` that holds no white space.
pub open spec fn after_spaces(s: Text, i: int) -> int
    decreases s.len() - i,
{
    if i < s.len() && is_space(s[i]) {
        after_spaces(s, i + 1)
    } else {
        i
    }
}

/// The index behind the last character before `j` that is no white space.
pub open spec fn before_spaces(s: Text, j: int) -> int
    decreases j,
{
    if j > 0 && is_space(s[j - 1]) {
        before_spaces(s, j - 1)
    } else {
        j
    }
}

pub open spec fn trim_start(s: Text) -> Text {
    s.skip(after_spaces(s, 0))
}

pub open spec fn trim_end(s: Text) -> Text {
    s.take(before_spaces(s, s.len() as int))
}

pub open spec fn trim(s: Text) -> Text {
    trim_start(trim_end(s))
}

/// Whether a text holds nothing but white space.
pub open spec fn is_blank(s: Text) -> bool {
    trim(s).len() == 0
}

/// The first index at or after `i` that holds another character than `c`.
pub open spec fn after_char(s: Text, c: char, i: int) -> int
    decreases s.len() - i,
{
    if i < s.len() && s[i] == c {
        after_char(s, c, i + 1)
    } else {
        i
    }
}

/// The index behind the last character before `j` that differs from `c`.
pub open spec fn before_char(s: Text, c: char, j: int) -> int
    decreases j,
{
    if j > 0 && s[j - 1] == c {
        before_char(s, c, j - 1)
    } else {
        j
    }
}

/// A text without the run of `c` at its start.
pub open spec fn trim_start_char(s: Text, c: char) -> Text {
    s.skip(after_char(s, c, 0))
}

/// A text without the run of `c` at its end.
pub open spec fn trim_end_char(s: Text, c: char) -> Text {
    s.take(before_char(s, c, s.len() as int))
}

/// A text without its white space.
pub open spec fn squeeze(s: Text) -> Text
    decreases s.len(),
{
    if s.len() == 0 {
        s
    } else if is_space(s.last()) {
        squeeze(s.drop_last())
    } else {
        squeeze(s.drop_last()).push(s.last())
    }
}

/// A text without the occurrences of `c`.
pub open spec fn without_char(s: Text, c: char) -> Text
    decreases s.len(),
{
    if s.len() == 0 {
        s
    } else if s.last() == c {
        without_char(s.drop_last(), c)
    } else {
        without_char(s.drop_last(), c).push(s.last())
    }
}

// ---------------------------------------------------------------------------
// Searching
// ---------------------------------------------------------------------------

/// Whether `p` stands in `s` at index `i`.
pub open spec fn occurs_at(s: Text, p: Text, i: int) -> bool {
    0 <= i && i + p.len() <= s.len() && s.subrange(i, i + p.len()) == p
}

pub open spec fn starts_with(s: Text, p: Text) -> bool {
    occurs_at(s, p, 0)
}

pub open spec fn starts_with_char(s: Text, c: char) -> bool {
    s.len() > 0 && s[0] == c
}

pub open spec fn ends_with_char(s: Text, c: char) -> bool {
    s.len() > 0 && s.last() == c
}

/// The first index at or after `i` at which `c` stands.
pub open spec fn find_char_from(s: Text, c: char, i: int) -> Option<int>
    decreases s.len() - i,
{
    if i >= s.len() {
        None
    } else if s[i] == c {
        Some(i)
    } else {
        find_char_from(s, c, i + 1)
    }
}

pub open spec fn find_char(s: Text, c: char) -> Option<int> {
    find_char_from(s, c, 0)
}

/// The first index at or after `i` at which `p` stands.
pub open spec fn find_from(s: Text, p: Text, i: int) -> Option<int>
    decreases s.len() + 1 - i,
{
    if i + p.len() > s.len() {
        None
    } else if occurs_at(s, p, i) {
        Some(i)
    } else {
        find_from(s, p, i + 1)
    }
}

pub open spec fn find(s: Text, p: Text) -> Option<int> {
    find_from(s, p, 0)
}

/// The last index at or before `i` at which `p` stands.
pub open spec fn find_last_from(s: Text, p: Text, i: int) -> Option<int>
    decreases i + 1,
{
    if i < 0 {
        None
    } else if occurs_at(s, p, i) {
        Some(i)
    } else {
        find_last_from(s, p, i - 1)
    }
}

pub open spec fn contains(s: Text, p: Text) -> bool {
    find(s, p) is Some
}

/// The first index at which `p` stands in `s`, case aside.
pub open spec fn find_same(s: Text, p: Text) -> Option<int> {
    find(lower(s), lower(p))
}

/// The byte column of the first occurrence of `p`, case aside; 0 if there is
/// none.
pub open spec fn column_of(s: Text, p: Text) -> usize {
    match find_same(s, p) {
        Some(i) => size(byte_len(s.take(i))),
        None => 0,
    }
}

/// The UTF-16 column of the first occurrence of `p`, case aside; 0 if there is
/// none.
pub open spec fn utf16_column_of(s: Text, p: Text) -> usize {
    match find_same(s, p) {
        Some(i) => size(utf16_len(s.take(i))),
        None => 0,
    }
}

/// What stands before and behind the first occurrence of `p`.
pub open spec fn split_once(s: Text, p: Text) -> Option<(Text, Text)> {
    match find(s, p) {
        Some(i) => Some((s.take(i), s.skip(i + p.len()))),
        None => None,
    }
}

/// What stands before and behind the first `c`.
pub open spec fn split_once_char(s: Text, c: char) -> Option<(Text, Text)> {
    match find_char(s, c) {
        Some(i) => Some((s.take(i), s.skip(i + 1))),
        None => None,
    }
}

/// The parts of a text from index `i` on that `c` separates, where the current
/// one began at `start`.
pub open spec fn split_char_from(s: Text, c: char, start: int, i: int, out: Seq<Text>) -> Seq<Text>
    decreases s.len() - i,
{
    if i >= s.len() {
        out.push(s.skip(start))
    } else if s[i] == c {
        split_char_from(s, c, i + 1, i + 1, out.push(s.subrange(start, i)))
    } else {
        split_char_from(s, c, start, i + 1, out)
    }
}

/// The parts of a text that `c` separates.
pub open spec fn split_char(s: Text, c: char) -> Seq<Text> {
    split_char_from(s, c, 0, 0, Seq::empty())
}

/// What stands behind `p` in a text that starts with it.
pub open spec fn strip_prefix(s: Text, p: Text) -> Option<Text> {
    if starts_with(s, p) {
        Some(s.skip(p.len() as int))
    } else {
        None
    }
}

/// What stands behind `c` in a text that starts with it.
pub open spec fn strip_char(s: Text, c: char) -> Option<Text> {
    if starts_with_char(s, c) {
        Some(s.skip(1))
    } else {
        None
    }
}

// ---------------------------------------------------------------------------
// Names
// ---------------------------------------------------------------------------

/// The first index at or after `i` that can start a name.
pub open spec fn name_start_from(s: Text, i: int) -> Option<int>
    decreases s.len() - i,
{
    if i >= s.len() {
        None
    } else if is_name_start(s[i]) {
        Some(i)
    } else {
        name_start_from(s, i + 1)
    }
}

/// The index behind the run of name characters that goes on at `i`.
pub open spec fn name_end(s: Text, i: int) -> int
    decreases s.len() - i,
{
    if i < s.len() && is_ident(s[i]) {
        name_end(s, i + 1)
    } else {
        i
    }
}

/// The index at which the run of name characters before `j` starts.
pub open spec fn name_begin(s: Text, j: int) -> int
    decreases j,
{
    if j > 0 && is_ident(s[j - 1]) {
        name_begin(s, j - 1)
    } else {
        j
    }
}

/// The first name in a text, and where it starts.
pub open spec fn next_name(s: Text) -> Option<(int, Text)> {
    match name_start_from(s, 0) {
        Some(i) => Some((i, s.subrange(i, name_end(s, i)))),
        None => None,
    }
}

/// The first name in a text.
pub open spec fn first_ident(s: Text) -> Option<Text> {
    match next_name(s) {
        Some(found) => Some(found.1),
        None => None,
    }
}

/// Whether a text starts with a character of a name.
pub open spec fn goes_on(s: Text) -> bool {
    s.len() > 0 && is_ident(s[0])
}

/// What follows `keyword` at the start of a statement, case and leading white
/// space aside, where the keyword ends there.
pub open spec fn after_keyword(code: Text, keyword: Text) -> Option<Text> {
    let line = trim_start(code);
    if line.len() >= keyword.len() && same(line.take(keyword.len() as int), keyword)
        && !goes_on(line.skip(keyword.len() as int)) {
        Some(line.skip(keyword.len() as int))
    } else {
        None
    }
}

/// What follows the two words `first` and `second` at the start of a
/// statement; white space stands between the words.
pub open spec fn after_keywords(code: Text, first: Text, second: Text) -> Option<Text> {
    match after_keyword(code, first) {
        Some(rest) => if rest.len() > 0 && is_space(rest[0]) {
            after_keyword(rest, second)
        } else {
            None
        },
        None => None,
    }
}

/// Whether the first name in a text is `word`, case aside.
pub open spec fn first_ident_is(s: Text, word: Text) -> bool {
    match first_ident(s) {
        Some(name) => same(name, word),
        None => false,
    }
}

/// Whether a text is a Fortran name.
pub open spec fn is_fortran_name(s: Text) -> bool {
    &&& s.len() > 0
    &&& is_letter(s[0])
    &&& forall|i: int| 0 <= i < s.len() ==> is_ident(#[trigger] s[i])
}

/// The first index at or after `i` that holds white space, or the end.
pub open spec fn word_end(s: Text, i: int) -> int
    decreases s.len() - i,
{
    if i < s.len() && !is_space(s[i]) {
        word_end(s, i + 1)
    } else {
        i
    }
}

/// What stands behind the first word of a text.
pub open spec fn after_word(s: Text) -> Text {
    let t = trim_start(s);
    t.skip(word_end(t, 0))
}

/// The first of the words that white space separates; empty if there is none.
pub open spec fn first_word(s: Text) -> Text {
    let t = trim_start(s);
    t.take(word_end(t, 0))
}

// ---------------------------------------------------------------------------
// Building
// ---------------------------------------------------------------------------

/// The parts one after the other, with `sep` between them.
pub open spec fn join(parts: Seq<Text>, sep: Text) -> Text
    decreases parts.len(),
{
    if parts.len() == 0 {
        Seq::empty()
    } else if parts.len() == 1 {
        parts[0]
    } else {
        join(parts.drop_last(), sep) + sep + parts.last()
    }
}

/// The decimal digit of a number below ten.
pub open spec fn digit(n: nat) -> char {
    if n == 0 { '0' }
    else if n == 1 { '1' }
    else if n == 2 { '2' }
    else if n == 3 { '3' }
    else if n == 4 { '4' }
    else if n == 5 { '5' }
    else if n == 6 { '6' }
    else if n == 7 { '7' }
    else if n == 8 { '8' }
    else { '9' }
}

/// A number in decimal.
pub open spec fn decimal(n: nat) -> Text
    decreases n,
{
    if n < 10 {
        seq![digit(n)]
    } else {
        decimal(n / 10).push(digit(n % 10))
    }
}

/// `n` blanks.
pub open spec fn blanks(n: nat) -> Text {
    Seq::new(n, |i: int| ' ')
}

// ---------------------------------------------------------------------------
// Lines
// ---------------------------------------------------------------------------

/// A line without the carriage return at its end.
pub open spec fn strip_return(s: Text) -> Text {
    if ends_with_char(s, '\r') {
        s.drop_last()
    } else {
        s
    }
}

/// The lines of a text from index `i` on, where the current line began at
/// `start` and `done` holds the lines before it.
pub open spec fn lines_from(s: Text, start: int, i: int, done: Seq<Text>) -> Seq<Text>
    decreases s.len() - i,
{
    if i >= s.len() {
        if start < s.len() {
            done.push(s.skip(start))
        } else {
            done
        }
    } else if s[i] == '\n' {
        lines_from(s, i + 1, i + 1, done.push(strip_return(s.subrange(start, i))))
    } else {
        lines_from(s, start, i + 1, done)
    }
}

/// The lines of a text. A line ends with a line feed, or with a carriage
/// return and a line feed; neither belongs to it.
pub open spec fn lines(s: Text) -> Seq<Text> {
    lines_from(s, 0, 0, Seq::empty())
}

/// The line with number `n`, counted from 0; an empty one if there is none.
pub open spec fn line(s: Text, n: int) -> Text {
    if 0 <= n < lines(s).len() {
        lines(s)[n]
    } else {
        Seq::empty()
    }
}

// ---------------------------------------------------------------------------
// Facts
// ---------------------------------------------------------------------------

/// The index behind some bytes lies in the text, behind its start where there
/// are any.
pub proof fn lemma_index_of_byte(s: Text, n: nat, i: int)
    requires
        0 <= i <= s.len(),
    ensures
        i <= index_of_byte(s, n, i) <= s.len(),
        i == 0 && n > 0 && s.len() > 0 ==> index_of_byte(s, n, i) > 0,
    decreases s.len() - i,
{
    if i < s.len() {
        if i == 0 {
            assert(byte_len(s.take(0)) == 0);
        }
        if byte_len(s.take(i)) < n {
            lemma_index_of_byte(s, n, i + 1);
        }
    }
}

/// The start of a text without white space lies in the text.
pub proof fn lemma_after_spaces(s: Text, i: int)
    requires
        0 <= i <= s.len(),
    ensures
        i <= after_spaces(s, i) <= s.len(),
    decreases s.len() - i,
{
    if i < s.len() && is_space(s[i]) {
        lemma_after_spaces(s, i + 1);
    }
}

/// The end of a text without white space lies in the text.
pub proof fn lemma_before_spaces(s: Text, j: int)
    requires
        0 <= j <= s.len(),
    ensures
        0 <= before_spaces(s, j) <= j,
    decreases j,
{
    if j > 0 && is_space(s[j - 1]) {
        lemma_before_spaces(s, j - 1);
    }
}

/// Trimming makes no text longer.
pub proof fn lemma_trim_len(s: Text)
    ensures
        trim_start(s).len() <= s.len(),
        trim_end(s).len() <= s.len(),
        trim(s).len() <= s.len(),
{
    lemma_after_spaces(s, 0);
    lemma_before_spaces(s, s.len() as int);
    lemma_after_spaces(trim_end(s), 0);
}

/// A run of name characters ends in the text, behind its start where there is
/// one.
pub proof fn lemma_name_end(s: Text, i: int)
    requires
        0 <= i <= s.len(),
    ensures
        i <= name_end(s, i) <= s.len(),
        i < s.len() && is_ident(s[i]) ==> i < name_end(s, i),
    decreases s.len() - i,
{
    if i < s.len() && is_ident(s[i]) {
        lemma_name_end(s, i + 1);
    }
}

/// A name starts in the text.
pub proof fn lemma_name_start(s: Text, i: int)
    requires
        0 <= i <= s.len(),
    ensures
        name_start_from(s, i) matches Some(k) ==> i <= k < s.len() && is_name_start(s[k]),
    decreases s.len() - i,
{
    if i < s.len() && !is_name_start(s[i]) {
        lemma_name_start(s, i + 1);
    }
}

/// The first name of a text lies in it and has a character.
pub proof fn lemma_next_name(s: Text)
    ensures
        next_name(s) matches Some((i, name)) ==> {
            &&& 0 <= i
            &&& i + name.len() <= s.len()
            &&& name.len() > 0
            &&& name == s.subrange(i, i + name.len())
            &&& is_name_start(name[0])
        },
{
    lemma_name_start(s, 0);
    if let Some(i) = name_start_from(s, 0) {
        lemma_name_end(s, i);
    }
}

/// A text that is found stands in the text that was searched.
pub proof fn lemma_find(s: Text, p: Text, i: int)
    requires
        0 <= i,
    ensures
        find_from(s, p, i) matches Some(k) ==> i <= k && k + p.len() <= s.len(),
    decreases s.len() + 1 - i,
{
    if i + p.len() <= s.len() && !occurs_at(s, p, i) {
        lemma_find(s, p, i + 1);
    }
}

/// A text with characters has bytes.
pub proof fn lemma_byte_len_positive(s: Text)
    requires
        s.len() > 0,
    ensures
        byte_len(s) > 0,
{
}

} // verus!
