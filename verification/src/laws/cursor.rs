//! What stands at a position.

use vstd::prelude::*;

use crate::laws::text::{law_column_in_line, law_column_of_index};
use crate::spec::cursor as su;
use crate::spec::text as st;
use crate::spec::text::Text;

verus! {

/// Whether all characters between two indices can belong to a name.
pub open spec fn is_name_part(s: Text, a: int, b: int) -> bool {
    forall|i: int| a <= i < b ==> st::is_ident(#[trigger] s[i])
}

proof fn lemma_name_begin(s: Text, j: int)
    requires
        0 <= j <= s.len(),
    ensures
        0 <= st::name_begin(s, j) <= j,
        is_name_part(s, st::name_begin(s, j), j),
        st::name_begin(s, j) == 0 || !st::is_ident(s[st::name_begin(s, j) - 1]),
    decreases j,
{
    if j > 0 && st::is_ident(s[j - 1]) {
        lemma_name_begin(s, j - 1);
    }
}

proof fn lemma_name_end(s: Text, i: int)
    requires
        0 <= i <= s.len(),
    ensures
        i <= st::name_end(s, i) <= s.len(),
        is_name_part(s, i, st::name_end(s, i)),
        st::name_end(s, i) == s.len() || !st::is_ident(s[st::name_end(s, i)]),
    decreases s.len() - i,
{
    if i < s.len() && st::is_ident(s[i]) {
        lemma_name_end(s, i + 1);
    }
}

proof fn lemma_ends_there(s: Text, i: int, end: int)
    requires
        0 <= i <= end <= s.len(),
        is_name_part(s, i, end),
        end == s.len() || !st::is_ident(s[end]),
    ensures
        st::name_end(s, i) == end,
    decreases end - i,
{
    if i < end {
        assert(st::is_ident(s[i]));
        lemma_ends_there(s, i + 1, end);
    }
}

/// The word at a column lies in the line, is made of characters of a name, and
/// cannot be made longer.
pub proof fn law_word(line: Text, character: usize)
    ensures
        su::word_bounds(line, character) matches Some((a, b)) ==> {
            &&& 0 <= a < b <= line.len()
            &&& is_name_part(line, a, b)
            &&& a == 0 || !st::is_ident(line[a - 1])
            &&& b == line.len() || !st::is_ident(line[b])
        },
{
    if line.len() > 0 {
        law_column_in_line(line, character as nat);
        let i = su::cursor_index(line, character);
        assert(0 <= i < line.len());
        if st::is_ident(line[i]) {
            lemma_name_begin(line, i);
            lemma_name_end(line, i + 1);
            let a = st::name_begin(line, i);
            let b = st::name_end(line, i + 1);
            assert forall|k: int| a <= k < b implies st::is_ident(#[trigger] line[k]) by {
                if k < i {
                    assert(st::is_ident(line[k]));
                }
            }
        }
    }
}

/// At the start of a word stands the same word.
pub proof fn law_word_start(line: Text, character: usize, a: int, b: int)
    requires
        su::word_bounds(line, character) == Some((a, b)),
        st::utf16_len(line.take(a)) <= usize::MAX,
    ensures
        su::word_bounds(line, st::utf16_len(line.take(a)) as usize) == Some((a, b)),
        su::word_at_line(line, st::utf16_len(line.take(a)) as usize) == su::word_at_line(
            line,
            character,
        ),
{
    law_word(line, character);
    law_column_of_index(line, a);
    assert(st::is_ident(line[a]));
    lemma_name_begin(line, a);
    assert(st::name_begin(line, a) == a);
    lemma_ends_there(line, a + 1, b);
}

/// The part of a name before a column is made of characters of a name, ends at
/// the column, and cannot be made longer.
pub proof fn law_prefix(line: Text, character: usize)
    ensures
        ({
            let before = line.take(st::index_of_column(line, character as nat));
            let prefix = su::identifier_prefix(line, character);
            let start = before.len() - prefix.len();
            &&& 0 <= start
            &&& prefix == before.skip(start)
            &&& is_name_part(before, start, before.len() as int)
            &&& start == 0 || !st::is_ident(before[start - 1])
        }),
{
    law_column_in_line(line, character as nat);
    let before = line.take(st::index_of_column(line, character as nat));
    lemma_name_begin(before, before.len() as int);
}

} // verus!
