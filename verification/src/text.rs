//! Texts as slices of characters: classes, case, trimming, searching,
//! measures and lines.

use vstd::prelude::*;
use vstd::slice::slice_subrange;

use crate::list::{empty, put};
use crate::spec::text as st;

verus! {

/// `String::push` puts the character at the end of the string.
pub assume_specification[ String::push ](s: &mut String, c: char)
    ensures
        final(s)@ == old(s)@.push(c),
;

// ---------------------------------------------------------------------------
// Conversions
// ---------------------------------------------------------------------------

/// The characters of a text.
pub fn chars(s: &str) -> (r: Vec<char>)
    ensures
        r@ == s@,
{
    let mut out: Vec<char> = Vec::new();
    for c in it: s.chars()
        invariant
            out@ == s@.take(it.index()),
            it.seq() == s@,
    {
        out.push(c);
    }
    assert(s@.take(s@.len() as int) =~= s@);
    out
}

/// A text with the given characters.
pub fn text(s: &[char]) -> (r: String)
    ensures
        r@ == s@,
{
    let mut out = String::new();
    push_chars(&mut out, s);
    assert(Seq::<char>::empty() + s@ =~= s@);
    out
}

/// The empty text.
pub fn no_text() -> (r: String)
    ensures
        r@ == Seq::<char>::empty(),
{
    let r = String::new();
    assert(r@ =~= Seq::empty());
    r
}

/// A text with the characters of `s`.
pub fn owned(s: &str) -> (r: String)
    ensures
        r@ == s@,
{
    s.to_owned()
}

/// Puts characters at the end of a text.
pub fn push_chars(out: &mut String, s: &[char])
    ensures
        final(out)@ == old(out)@ + s@,
{
    let ghost before = out@;
    let mut i: usize = 0;
    while i < s.len()
        invariant
            i <= s@.len(),
            out@ =~= before + s@.take(i as int),
        decreases s@.len() - i,
    {
        out.push(s[i]);
        i = i + 1;
    }
    assert(s@.take(s@.len() as int) =~= s@);
}

/// Puts a text at the end of another.
pub fn push_text(out: &mut String, s: &str)
    ensures
        final(out)@ == old(out)@ + s@,
{
    out.append(s);
}

/// Copies a list of texts.
pub fn copy_texts(v: &Vec<String>) -> (r: Vec<String>)
    ensures
        r.deep_view() == v.deep_view(),
{
    let mut out: Vec<String> = Vec::new();
    let mut i: usize = 0;
    while i < v.len()
        invariant
            i <= v@.len(),
            out.deep_view() =~= v.deep_view().take(i as int),
        decreases v@.len() - i,
    {
        let ghost before = out.deep_view();
        out.push(v[i].clone());
        assert(out.deep_view() =~= before.push(v.deep_view()[i as int]));
        i = i + 1;
    }
    assert(v.deep_view().take(v@.len() as int) =~= v.deep_view());
    out
}

/// Copies an optional text.
pub fn copy_option(v: &Option<String>) -> (r: Option<String>)
    ensures
        r.deep_view() == v.deep_view(),
{
    match v {
        Some(s) => Some(s.clone()),
        None => None,
    }
}

/// Whether two texts hold the same characters.
pub fn eq_chars(a: &[char], b: &[char]) -> (r: bool)
    ensures
        r == (a@ == b@),
{
    if a.len() != b.len() {
        return false;
    }
    let mut i: usize = 0;
    while i < a.len()
        invariant
            i <= a@.len(),
            a@.len() == b@.len(),
            forall|k: int| 0 <= k < i ==> a@[k] == b@[k],
        decreases a@.len() - i,
    {
        if a[i] != b[i] {
            return false;
        }
        i = i + 1;
    }
    assert(a@ =~= b@);
    true
}

/// Whether a text is the literal `word`.
pub fn is_word(a: &[char], word: &str) -> (r: bool)
    ensures
        r == (a@ == word@),
{
    let w = chars(word);
    eq_chars(a, w.as_slice())
}

/// Whether two lists hold the same texts.
pub fn eq_texts(a: &Vec<String>, b: &Vec<String>) -> (r: bool)
    ensures
        r == (a.deep_view() == b.deep_view()),
{
    if a.len() != b.len() {
        assert(a.deep_view().len() != b.deep_view().len());
        return false;
    }
    let mut i: usize = 0;
    while i < a.len()
        invariant
            i <= a@.len(),
            a@.len() == b@.len(),
            forall|k: int| 0 <= k < i ==> a.deep_view()[k] == b.deep_view()[k],
        decreases a@.len() - i,
    {
        if a[i] != b[i] {
            assert(a.deep_view()[i as int] != b.deep_view()[i as int]);
            return false;
        }
        i = i + 1;
    }
    assert(a.deep_view() =~= b.deep_view());
    true
}

// ---------------------------------------------------------------------------
// Characters
// ---------------------------------------------------------------------------

pub fn is_space(c: char) -> (r: bool)
    ensures
        r == st::is_space(c),
{
    ('\u{9}' <= c && c <= '\u{d}') || c == ' ' || c == '\u{85}' || c == '\u{a0}' || c == '\u{1680}'
        || ('\u{2000}' <= c && c <= '\u{200a}') || c == '\u{2028}' || c == '\u{2029}'
        || c == '\u{202f}' || c == '\u{205f}' || c == '\u{3000}'
}

pub fn is_digit(c: char) -> (r: bool)
    ensures
        r == st::is_digit(c),
{
    '0' <= c && c <= '9'
}

pub fn is_letter(c: char) -> (r: bool)
    ensures
        r == st::is_letter(c),
{
    ('a' <= c && c <= 'z') || ('A' <= c && c <= 'Z')
}

pub fn is_name_start(c: char) -> (r: bool)
    ensures
        r == st::is_name_start(c),
{
    c == '_' || is_letter(c)
}

pub fn is_ident(c: char) -> (r: bool)
    ensures
        r == st::is_ident(c),
{
    c == '_' || is_letter(c) || is_digit(c)
}

pub fn lower_char(c: char) -> (r: char)
    ensures
        r == st::lower_char(c),
{
    if 'A' <= c && c <= 'Z' {
        ((c as u8) + 32) as char
    } else {
        c
    }
}

pub fn byte_width(c: char) -> (r: usize)
    ensures
        r == st::byte_width(c),
{
    if c as u32 <= 0x7f {
        1
    } else if c as u32 <= 0x7ff {
        2
    } else if c as u32 <= 0xffff {
        3
    } else {
        4
    }
}

pub fn utf16_width(c: char) -> (r: usize)
    ensures
        r == st::utf16_width(c),
{
    if c as u32 <= 0xffff {
        1
    } else {
        2
    }
}

// ---------------------------------------------------------------------------
// Case
// ---------------------------------------------------------------------------

/// The ASCII lower case of a text.
pub fn lower(s: &[char]) -> (r: Vec<char>)
    ensures
        r@ == st::lower(s@),
{
    let mut out: Vec<char> = Vec::new();
    let mut i: usize = 0;
    while i < s.len()
        invariant
            i <= s@.len(),
            out@ =~= st::lower(s@).take(i as int),
        decreases s@.len() - i,
    {
        out.push(lower_char(s[i]));
        i = i + 1;
    }
    assert(out@ =~= st::lower(s@));
    out
}

/// The ASCII lower case of a text.
pub fn lower_text(s: &str) -> (r: String)
    ensures
        r@ == st::lower(s@),
{
    let c = chars(s);
    let l = lower(c.as_slice());
    text(l.as_slice())
}

/// Whether two texts are equal, case aside.
pub fn same(a: &[char], b: &[char]) -> (r: bool)
    ensures
        r == st::same(a@, b@),
{
    if a.len() != b.len() {
        assert(st::lower(a@).len() != st::lower(b@).len());
        return false;
    }
    let mut i: usize = 0;
    while i < a.len()
        invariant
            i <= a@.len(),
            a@.len() == b@.len(),
            forall|k: int| 0 <= k < i ==> st::lower(a@)[k] == st::lower(b@)[k],
        decreases a@.len() - i,
    {
        if lower_char(a[i]) != lower_char(b[i]) {
            assert(st::lower(a@)[i as int] != st::lower(b@)[i as int]);
            return false;
        }
        i = i + 1;
    }
    assert(st::lower(a@) =~= st::lower(b@));
    true
}

/// Whether a text is `word`, case aside.
pub fn same_word(a: &[char], word: &str) -> (r: bool)
    ensures
        r == st::same(a@, word@),
{
    let w = chars(word);
    same(a, w.as_slice())
}

/// Whether two texts are equal, case aside.
pub fn same_text(a: &str, b: &str) -> (r: bool)
    ensures
        r == st::same(a@, b@),
{
    let x = chars(a);
    let y = chars(b);
    same(x.as_slice(), y.as_slice())
}

/// Whether two scopes are equal, case aside.
pub fn same_scope(a: &[String], b: &[String]) -> (r: bool)
    ensures
        r == st::same_scope(a.deep_view(), b.deep_view()),
{
    if a.len() != b.len() {
        return false;
    }
    let mut i: usize = 0;
    while i < a.len()
        invariant
            i <= a@.len(),
            a@.len() == b@.len(),
            forall|k: int| 0 <= k < i ==> st::same(#[trigger] a.deep_view()[k], b.deep_view()[k]),
        decreases a@.len() - i,
    {
        if !same_text(&a[i], &b[i]) {
            assert(!st::same(a.deep_view()[i as int], b.deep_view()[i as int]));
            return false;
        }
        i = i + 1;
    }
    true
}

/// Whether one of `names` is `name`, case aside.
pub fn has_name(names: &[String], name: &str) -> (r: bool)
    ensures
        r == st::has_name(names.deep_view(), name@),
{
    let mut i: usize = 0;
    while i < names.len()
        invariant
            i <= names@.len(),
            forall|k: int| 0 <= k < i ==> !st::same(#[trigger] names.deep_view()[k], name@),
        decreases names@.len() - i,
    {
        if same_text(&names[i], name) {
            assert(st::same(names.deep_view()[i as int], name@));
            return true;
        }
        i = i + 1;
    }
    false
}

// ---------------------------------------------------------------------------
// Measures
// ---------------------------------------------------------------------------

/// The sum of two sizes, or the largest size.
pub fn sum(a: usize, b: usize) -> (r: usize)
    ensures
        r == st::size((a + b) as nat),
{
    if a <= usize::MAX - b {
        a + b
    } else {
        usize::MAX
    }
}

/// Bytes of a text in UTF-8.
pub fn byte_len(s: &[char]) -> (r: usize)
    ensures
        r == st::size(st::byte_len(s@)),
{
    let mut n: usize = 0;
    let mut i: usize = 0;
    while i < s.len()
        invariant
            i <= s@.len(),
            n == st::size(st::byte_len(s@.take(i as int))),
        decreases s@.len() - i,
    {
        assert(s@.take(i + 1).drop_last() =~= s@.take(i as int));
        n = sum(n, byte_width(s[i]));
        i = i + 1;
    }
    assert(s@.take(s@.len() as int) =~= s@);
    n
}

/// Code units of a text in UTF-16.
pub fn utf16_len(s: &[char]) -> (r: usize)
    ensures
        r == st::size(st::utf16_len(s@)),
{
    let mut n: usize = 0;
    let mut i: usize = 0;
    while i < s.len()
        invariant
            i <= s@.len(),
            n == st::size(st::utf16_len(s@.take(i as int))),
        decreases s@.len() - i,
    {
        assert(s@.take(i + 1).drop_last() =~= s@.take(i as int));
        n = sum(n, utf16_width(s[i]));
        i = i + 1;
    }
    assert(s@.take(s@.len() as int) =~= s@);
    n
}

/// The first `i` characters of a text.
pub fn take<'a>(s: &'a [char], i: usize) -> (r: &'a [char])
    requires
        i <= s@.len(),
    ensures
        r@ == s@.take(i as int),
{
    slice_subrange(s, 0, i)
}

/// A text without its first `i` characters.
pub fn skip<'a>(s: &'a [char], i: usize) -> (r: &'a [char])
    requires
        i <= s@.len(),
    ensures
        r@ == s@.skip(i as int),
{
    slice_subrange(s, i, s.len())
}

/// What is left of a text behind its first `n` bytes.
pub fn skip_bytes<'a>(s: &'a [char], n: usize) -> (r: &'a [char])
    ensures
        r@ == st::skip_bytes(s@, n as nat),
{
    let mut passed: usize = 0;
    let mut i: usize = 0;
    assert(s@.take(0).len() == 0);
    while i < s.len() && passed < n
        invariant
            i <= s@.len(),
            passed == st::size(st::byte_len(s@.take(i as int))),
            st::index_of_byte(s@, n as nat, 0) == st::index_of_byte(s@, n as nat, i as int),
        decreases s@.len() - i,
    {
        assert(s@.take(i + 1).drop_last() =~= s@.take(i as int));
        passed = sum(passed, byte_width(s[i]));
        i = i + 1;
    }
    skip(s, i)
}

/// What stands behind the first `n` bytes of a text; nothing where they do not
/// end with a character.
pub fn get_bytes<'a>(s: &'a [char], n: usize) -> (r: Option<&'a [char]>)
    ensures
        st::slice(r) == st::get_bytes(s@, n as nat),
{
    let mut left: usize = n;
    let mut i: usize = 0;
    assert(s@.take(0).len() == 0);
    while i < s.len() && left > 0
        invariant
            i <= s@.len(),
            left + st::byte_len(s@.take(i as int)) == n,
            st::index_of_byte(s@, n as nat, 0) == st::index_of_byte(s@, n as nat, i as int),
        decreases s@.len() - i,
    {
        assert(s@.take(i + 1).drop_last() =~= s@.take(i as int));
        let width: usize = byte_width(s[i]);
        if width > left {
            assert(st::index_of_byte(s@, n as nat, i + 1) == i + 1);
            return None;
        }
        left = left - width;
        i = i + 1;
    }
    if left == 0 {
        Some(skip(s, i))
    } else {
        None
    }
}

/// The longest start of a text that has at most `n` bytes.
pub fn take_bytes<'a>(s: &'a [char], n: usize) -> (r: &'a [char])
    ensures
        r@ == st::take_bytes(s@, n as nat),
{
    let mut left: usize = n;
    let mut i: usize = 0;
    assert(s@.take(0).len() == 0);
    while i < s.len() && byte_width(s[i]) <= left
        invariant
            i <= s@.len(),
            left + st::byte_len(s@.take(i as int)) == n,
            st::index_within_bytes(s@, n as nat, 0) == st::index_within_bytes(s@, n as nat, i as int),
        decreases s@.len() - i,
    {
        assert(s@.take(i + 1).drop_last() =~= s@.take(i as int));
        left = left - byte_width(s[i]);
        i = i + 1;
    }
    if i < s.len() {
        assert(s@.take(i + 1).drop_last() =~= s@.take(i as int));
    }
    take(s, i)
}

/// The character of a line that the UTF-16 column `col` points at.
pub fn index_of_column(s: &[char], col: usize) -> (r: usize)
    ensures
        r == st::index_of_column(s@, col as nat),
        r <= s@.len(),
{
    let mut left: usize = col;
    let mut i: usize = 0;
    assert(s@.take(0).len() == 0);
    while i < s.len() && utf16_width(s[i]) <= left
        invariant
            i <= s@.len(),
            left + st::utf16_len(s@.take(i as int)) == col,
            st::index_within_utf16(s@, col as nat, 0) == st::index_within_utf16(s@, col as nat, i as int),
        decreases s@.len() - i,
    {
        assert(s@.take(i + 1).drop_last() =~= s@.take(i as int));
        left = left - utf16_width(s[i]);
        i = i + 1;
    }
    if i < s.len() {
        assert(s@.take(i + 1).drop_last() =~= s@.take(i as int));
    }
    i
}

// ---------------------------------------------------------------------------
// Trimming
// ---------------------------------------------------------------------------

pub fn trim_start<'a>(s: &'a [char]) -> (r: &'a [char])
    ensures
        r@ == st::trim_start(s@),
{
    let mut i: usize = 0;
    while i < s.len() && is_space(s[i])
        invariant
            i <= s@.len(),
            st::after_spaces(s@, 0) == st::after_spaces(s@, i as int),
        decreases s@.len() - i,
    {
        i = i + 1;
    }
    skip(s, i)
}

pub fn trim_end<'a>(s: &'a [char]) -> (r: &'a [char])
    ensures
        r@ == st::trim_end(s@),
{
    let mut j: usize = s.len();
    while j > 0 && is_space(s[j - 1])
        invariant
            j <= s@.len(),
            st::before_spaces(s@, s@.len() as int) == st::before_spaces(s@, j as int),
        decreases j,
    {
        j = j - 1;
    }
    take(s, j)
}

pub fn trim<'a>(s: &'a [char]) -> (r: &'a [char])
    ensures
        r@ == st::trim(s@),
{
    trim_start(trim_end(s))
}

pub fn is_blank(s: &[char]) -> (r: bool)
    ensures
        r == st::is_blank(s@),
{
    trim(s).len() == 0
}

pub fn trim_start_char<'a>(s: &'a [char], c: char) -> (r: &'a [char])
    ensures
        r@ == st::trim_start_char(s@, c),
{
    let mut i: usize = 0;
    while i < s.len() && s[i] == c
        invariant
            i <= s@.len(),
            st::after_char(s@, c, 0) == st::after_char(s@, c, i as int),
        decreases s@.len() - i,
    {
        i = i + 1;
    }
    skip(s, i)
}

pub fn trim_end_char<'a>(s: &'a [char], c: char) -> (r: &'a [char])
    ensures
        r@ == st::trim_end_char(s@, c),
{
    let mut j: usize = s.len();
    while j > 0 && s[j - 1] == c
        invariant
            j <= s@.len(),
            st::before_char(s@, c, s@.len() as int) == st::before_char(s@, c, j as int),
        decreases j,
    {
        j = j - 1;
    }
    take(s, j)
}

/// A text without its white space.
pub fn squeeze(s: &[char]) -> (r: Vec<char>)
    ensures
        r@ == st::squeeze(s@),
{
    let mut out: Vec<char> = Vec::new();
    let mut i: usize = 0;
    assert(s@.take(0) =~= Seq::<char>::empty());
    while i < s.len()
        invariant
            i <= s@.len(),
            out@ == st::squeeze(s@.take(i as int)),
        decreases s@.len() - i,
    {
        assert(s@.take(i + 1).drop_last() =~= s@.take(i as int));
        if !is_space(s[i]) {
            out.push(s[i]);
        }
        i = i + 1;
    }
    assert(s@.take(s@.len() as int) =~= s@);
    out
}

/// A text without the occurrences of `c`.
pub fn without_char(s: &[char], c: char) -> (r: Vec<char>)
    ensures
        r@ == st::without_char(s@, c),
{
    let mut out: Vec<char> = Vec::new();
    let mut i: usize = 0;
    assert(s@.take(0) =~= Seq::<char>::empty());
    while i < s.len()
        invariant
            i <= s@.len(),
            out@ == st::without_char(s@.take(i as int), c),
        decreases s@.len() - i,
    {
        assert(s@.take(i + 1).drop_last() =~= s@.take(i as int));
        if s[i] != c {
            out.push(s[i]);
        }
        i = i + 1;
    }
    assert(s@.take(s@.len() as int) =~= s@);
    out
}

// ---------------------------------------------------------------------------
// Searching
// ---------------------------------------------------------------------------

/// Whether `p` stands in `s` at index `i`.
pub fn occurs_at(s: &[char], p: &[char], i: usize) -> (r: bool)
    ensures
        r == st::occurs_at(s@, p@, i as int),
{
    if i > s.len() || p.len() > s.len() - i {
        return false;
    }
    eq_chars(slice_subrange(s, i, i + p.len()), p)
}

pub fn starts_with(s: &[char], p: &[char]) -> (r: bool)
    ensures
        r == st::starts_with(s@, p@),
{
    occurs_at(s, p, 0)
}

/// Whether a text starts with `word`.
pub fn starts_with_word(s: &[char], word: &str) -> (r: bool)
    ensures
        r == st::starts_with(s@, word@),
{
    let w = chars(word);
    occurs_at(s, w.as_slice(), 0)
}

pub fn starts_with_char(s: &[char], c: char) -> (r: bool)
    ensures
        r == st::starts_with_char(s@, c),
{
    s.len() > 0 && s[0] == c
}

pub fn ends_with_char(s: &[char], c: char) -> (r: bool)
    ensures
        r == st::ends_with_char(s@, c),
{
    s.len() > 0 && s[s.len() - 1] == c
}

pub fn find_char(s: &[char], c: char) -> (r: Option<usize>)
    ensures
        st::at(r) == st::find_char(s@, c),
        r matches Some(i) ==> i < s@.len(),
{
    let mut i: usize = 0;
    while i < s.len()
        invariant
            i <= s@.len(),
            st::find_char_from(s@, c, 0) == st::find_char_from(s@, c, i as int),
        decreases s@.len() - i,
    {
        if s[i] == c {
            return Some(i);
        }
        i = i + 1;
    }
    None
}

pub fn find(s: &[char], p: &[char]) -> (r: Option<usize>)
    ensures
        st::at(r) == st::find(s@, p@),
        r matches Some(i) ==> i + p@.len() <= s@.len(),
{
    let mut i: usize = 0;
    while i <= s.len() && p.len() <= s.len() - i
        invariant
            i <= s@.len() + 1,
            st::find_from(s@, p@, 0) == st::find_from(s@, p@, i as int),
        decreases s@.len() + 1 - i,
    {
        if occurs_at(s, p, i) {
            return Some(i);
        }
        if i == s.len() {
            assert(st::find_from(s@, p@, i + 1) is None);
            return None;
        }
        i = i + 1;
    }
    None
}

/// The last index at which `p` stands in `s`.
pub fn find_last(s: &[char], p: &[char]) -> (r: Option<usize>)
    ensures
        st::at(r) == st::find_last_from(s@, p@, s@.len() as int),
        r matches Some(i) ==> i + p@.len() <= s@.len(),
{
    let mut i: usize = s.len();
    while i > 0
        invariant
            i <= s@.len(),
            st::find_last_from(s@, p@, s@.len() as int) == st::find_last_from(s@, p@, i as int),
        decreases i,
    {
        if occurs_at(s, p, i) {
            return Some(i);
        }
        i = i - 1;
    }
    if occurs_at(s, p, 0) {
        return Some(0);
    }
    assert(st::find_last_from(s@, p@, -1) is None);
    None
}

/// The first index at which the literal `word` stands in `s`.
pub fn find_word(s: &[char], word: &str) -> (r: Option<usize>)
    ensures
        st::at(r) == st::find(s@, word@),
        r matches Some(i) ==> i + word@.len() <= s@.len(),
{
    let w = chars(word);
    find(s, w.as_slice())
}

pub fn contains(s: &[char], word: &str) -> (r: bool)
    ensures
        r == st::contains(s@, word@),
{
    find_word(s, word).is_some()
}

/// The first index at which `p` stands in `s`, case aside.
pub fn find_same(s: &[char], p: &[char]) -> (r: Option<usize>)
    ensures
        st::at(r) == st::find_same(s@, p@),
        r matches Some(i) ==> i + p@.len() <= s@.len(),
{
    let a = lower(s);
    let b = lower(p);
    find(a.as_slice(), b.as_slice())
}

/// The byte column of the first occurrence of `p`, case aside, or 0.
pub fn column_of(s: &[char], p: &[char]) -> (r: usize)
    ensures
        r == st::column_of(s@, p@),
{
    match find_same(s, p) {
        Some(i) => byte_len(take(s, i)),
        None => 0,
    }
}

/// The UTF-16 column of the first occurrence of `p`, case aside, or 0.
pub fn utf16_column_of(s: &[char], p: &[char]) -> (r: usize)
    ensures
        r == st::utf16_column_of(s@, p@),
{
    match find_same(s, p) {
        Some(i) => utf16_len(take(s, i)),
        None => 0,
    }
}

pub fn split_once<'a>(s: &'a [char], word: &str) -> (r: Option<(&'a [char], &'a [char])>)
    ensures
        st::pair(r) == st::split_once(s@, word@),
{
    let w = chars(word);
    let n: usize = s.len();
    match find(s, w.as_slice()) {
        Some(i) => Some((take(s, i), skip(s, i + w.len()))),
        None => None,
    }
}

pub fn split_once_char<'a>(s: &'a [char], c: char) -> (r: Option<(&'a [char], &'a [char])>)
    ensures
        st::pair(r) == st::split_once_char(s@, c),
{
    let n: usize = s.len();
    match find_char(s, c) {
        Some(i) => Some((take(s, i), skip(s, i + 1))),
        None => None,
    }
}

/// Whether a text holds nothing but digits.
pub fn all_digits(s: &[char]) -> (r: bool)
    ensures
        r == st::all_digits(s@),
{
    let mut i: usize = 0;
    while i < s.len()
        invariant
            i <= s@.len(),
            forall|k: int| 0 <= k < i ==> st::is_digit(#[trigger] s@[k]),
        decreases s@.len() - i,
    {
        if !is_digit(s[i]) {
            return false;
        }
        i = i + 1;
    }
    true
}

/// The parts of a text that `c` separates.
pub fn split_char(s: &[char], c: char) -> (r: Vec<String>)
    ensures
        r.deep_view() == st::split_char(s@, c),
{
    let mut out: Vec<String> = empty();
    let mut start: usize = 0;
    let mut i: usize = 0;
    while i < s.len()
        invariant
            start <= i <= s@.len(),
            st::split_char(s@, c) == st::split_char_from(
                s@,
                c,
                start as int,
                i as int,
                out.deep_view(),
            ),
        decreases s@.len() - i,
    {
        if s[i] == c {
            put(&mut out, text(slice_subrange(s, start, i)));
            start = i + 1;
        }
        i = i + 1;
    }
    put(&mut out, text(skip(s, start)));
    out
}

pub fn strip_prefix<'a>(s: &'a [char], word: &str) -> (r: Option<&'a [char]>)
    ensures
        st::slice(r) == st::strip_prefix(s@, word@),
{
    let w = chars(word);
    if starts_with(s, w.as_slice()) {
        Some(skip(s, w.len()))
    } else {
        None
    }
}

pub fn strip_char<'a>(s: &'a [char], c: char) -> (r: Option<&'a [char]>)
    ensures
        st::slice(r) == st::strip_char(s@, c),
{
    if starts_with_char(s, c) {
        Some(skip(s, 1))
    } else {
        None
    }
}

// ---------------------------------------------------------------------------
// Names
// ---------------------------------------------------------------------------

/// The index behind the run of name characters that goes on at `i`.
pub fn name_end(s: &[char], i: usize) -> (r: usize)
    requires
        i <= s@.len(),
    ensures
        r == st::name_end(s@, i as int),
        i <= r <= s@.len(),
{
    let mut j: usize = i;
    while j < s.len() && is_ident(s[j])
        invariant
            i <= j <= s@.len(),
            st::name_end(s@, i as int) == st::name_end(s@, j as int),
        decreases s@.len() - j,
    {
        j = j + 1;
    }
    j
}

/// The index at which the run of name characters before `j` starts.
pub fn name_begin(s: &[char], j: usize) -> (r: usize)
    requires
        j <= s@.len(),
    ensures
        r == st::name_begin(s@, j as int),
        r <= j,
{
    let mut i: usize = j;
    while i > 0 && is_ident(s[i - 1])
        invariant
            i <= j <= s@.len(),
            st::name_begin(s@, j as int) == st::name_begin(s@, i as int),
        decreases i,
    {
        i = i - 1;
    }
    i
}

/// The first name in a text, and where it starts.
pub fn next_name<'a>(s: &'a [char]) -> (r: Option<(usize, &'a [char])>)
    ensures
        match r {
            Some((i, name)) => st::next_name(s@) == Some((i as int, name@)) && name@.len() > 0
                && i + name@.len() <= s@.len(),
            None => st::next_name(s@) is None,
        },
{
    let mut i: usize = 0;
    while i < s.len()
        invariant
            i <= s@.len(),
            st::name_start_from(s@, 0) == st::name_start_from(s@, i as int),
        decreases s@.len() - i,
    {
        if is_name_start(s[i]) {
            assert(st::name_end(s@, i as int) == st::name_end(s@, i + 1));
            let j: usize = name_end(s, i + 1);
            return Some((i, slice_subrange(s, i, j)));
        }
        i = i + 1;
    }
    None
}

/// The first name in a text.
pub fn first_ident<'a>(s: &'a [char]) -> (r: Option<&'a [char]>)
    ensures
        st::slice(r) == st::first_ident(s@),
        r matches Some(name) ==> 0 < name@.len() <= s@.len(),
{
    match next_name(s) {
        Some((_, name)) => Some(name),
        None => None,
    }
}

pub fn goes_on(s: &[char]) -> (r: bool)
    ensures
        r == st::goes_on(s@),
{
    s.len() > 0 && is_ident(s[0])
}

/// What follows `keyword` at the start of a statement.
pub fn after_keyword<'a>(code: &'a [char], keyword: &str) -> (r: Option<&'a [char]>)
    ensures
        st::slice(r) == st::after_keyword(code@, keyword@),
{
    let line = trim_start(code);
    let w = chars(keyword);
    if line.len() >= w.len() && same(take(line, w.len()), w.as_slice()) {
        let rest = skip(line, w.len());
        if goes_on(rest) {
            None
        } else {
            Some(rest)
        }
    } else {
        None
    }
}

/// What follows two words at the start of a statement.
pub fn after_keywords<'a>(code: &'a [char], first: &str, second: &str) -> (r: Option<&'a [char]>)
    ensures
        st::slice(r) == st::after_keywords(code@, first@, second@),
{
    match after_keyword(code, first) {
        Some(rest) => if rest.len() > 0 && is_space(rest[0]) {
            after_keyword(rest, second)
        } else {
            None
        },
        None => None,
    }
}

/// Whether a statement starts with `keyword`.
pub fn has_keyword(code: &[char], keyword: &str) -> (r: bool)
    ensures
        r == (st::after_keyword(code@, keyword@) is Some),
{
    after_keyword(code, keyword).is_some()
}

/// Whether the first name in a text is `word`, case aside.
pub fn first_ident_is(s: &[char], word: &str) -> (r: bool)
    ensures
        r == st::first_ident_is(s@, word@),
{
    match first_ident(s) {
        Some(name) => same_word(name, word),
        None => false,
    }
}

pub fn is_fortran_name(s: &[char]) -> (r: bool)
    ensures
        r == st::is_fortran_name(s@),
{
    if s.len() == 0 || !is_letter(s[0]) {
        return false;
    }
    let mut i: usize = 0;
    while i < s.len()
        invariant
            i <= s@.len(),
            forall|k: int| 0 <= k < i ==> st::is_ident(#[trigger] s@[k]),
        decreases s@.len() - i,
    {
        if !is_ident(s[i]) {
            return false;
        }
        i = i + 1;
    }
    true
}

/// The first index of a text that holds white space, or the end.
fn word_end(s: &[char]) -> (r: usize)
    ensures
        r == st::word_end(s@, 0),
        r <= s@.len(),
{
    let mut i: usize = 0;
    while i < s.len() && !is_space(s[i])
        invariant
            i <= s@.len(),
            st::word_end(s@, 0) == st::word_end(s@, i as int),
        decreases s@.len() - i,
    {
        i = i + 1;
    }
    i
}

/// What stands behind the first word of a text.
pub fn after_word<'a>(s: &'a [char]) -> (r: &'a [char])
    ensures
        r@ == st::after_word(s@),
{
    let t = trim_start(s);
    skip(t, word_end(t))
}

/// The first of the words that white space separates; empty if there is none.
pub fn first_word<'a>(s: &'a [char]) -> (r: &'a [char])
    ensures
        r@ == st::first_word(s@),
{
    let t = trim_start(s);
    take(t, word_end(t))
}

// ---------------------------------------------------------------------------
// Building
// ---------------------------------------------------------------------------

/// The parts one after the other, with `sep` between them.
pub fn join(parts: &[String], sep: &str) -> (r: String)
    ensures
        r@ == st::join(parts.deep_view(), sep@),
{
    let mut out = String::new();
    let ghost all = parts.deep_view();
    let mut i: usize = 0;
    while i < parts.len()
        invariant
            i <= parts@.len(),
            all == parts.deep_view(),
            out@ == st::join(all.take(i as int), sep@),
        decreases parts@.len() - i,
    {
        assert(all.take(i + 1).drop_last() =~= all.take(i as int));
        if i > 0 {
            push_text(&mut out, sep);
        }
        push_text(&mut out, &parts[i]);
        assert(Seq::<char>::empty() + all[i as int] =~= all[i as int]);
        i = i + 1;
    }
    assert(all.take(all.len() as int) =~= all);
    out
}

/// A number in decimal.
pub fn decimal(n: usize) -> (r: String)
    ensures
        r@ == st::decimal(n as nat),
    decreases n,
{
    let d: char = match n % 10 {
        0 => '0',
        1 => '1',
        2 => '2',
        3 => '3',
        4 => '4',
        5 => '5',
        6 => '6',
        7 => '7',
        8 => '8',
        _ => '9',
    };
    let mut out = if n < 10 {
        String::new()
    } else {
        decimal(n / 10)
    };
    out.push(d);
    assert(n < 10 ==> out@ =~= seq![d]);
    out
}

/// Puts `n` blanks at the end of a text.
pub fn push_blanks(out: &mut String, n: usize)
    ensures
        final(out)@ == old(out)@ + st::blanks(n as nat),
{
    let ghost before = out@;
    let mut i: usize = 0;
    while i < n
        invariant
            i <= n,
            out@ =~= before + st::blanks(i as nat),
        decreases n - i,
    {
        out.push(' ');
        i = i + 1;
    }
}

// ---------------------------------------------------------------------------
// Lines
// ---------------------------------------------------------------------------

/// The lines of a text.
pub fn lines(s: &[char]) -> (r: Vec<String>)
    ensures
        r.deep_view() == st::lines(s@),
{
    let mut out: Vec<String> = Vec::new();
    let mut start: usize = 0;
    let mut i: usize = 0;
    assert(out.deep_view() =~= Seq::empty());
    while i < s.len()
        invariant
            start <= i <= s@.len(),
            st::lines(s@) == st::lines_from(s@, start as int, i as int, out.deep_view()),
        decreases s@.len() - i,
    {
        if s[i] == '\n' {
            let line = slice_subrange(s, start, i);
            let ghost before = out.deep_view();
            if ends_with_char(line, '\r') {
                let t = take(line, line.len() - 1);
                assert(t@ =~= line@.drop_last());
                out.push(text(t));
            } else {
                out.push(text(line));
            }
            assert(out.deep_view() =~= before.push(st::strip_return(s@.subrange(start as int, i as int))));
            start = i + 1;
        }
        i = i + 1;
    }
    if start < s.len() {
        let ghost before = out.deep_view();
        out.push(text(skip(s, start)));
        assert(out.deep_view() =~= before.push(s@.skip(start as int)));
    }
    out
}

/// The line with number `n`, or an empty one.
pub fn line(s: &[char], n: usize) -> (r: Vec<char>)
    ensures
        r@ == st::line(s@, n as int),
{
    let all = lines(s);
    if n < all.len() {
        chars(&all[n])
    } else {
        Vec::new()
    }
}

} // verus!
