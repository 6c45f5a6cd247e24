//! Program units, procedures and types as they are written, and the scopes that
//! they open.

use vstd::prelude::*;

use crate::laws::conditionals::lemma_cut_name;
use crate::laws::nesting::law_paren_content;
use crate::laws::statements::{are_padded, law_find, law_names, list_text, names, Padded};
use crate::laws::text::{
    all_space, ends_name, is_name, is_name_character, law_first_name, law_keyword, law_trim_start,
    lemma_no_keyword,
};
use crate::model::SymbolKind;
use crate::spec::scope as sc;
use crate::spec::statement as sp;
use crate::spec::text as st;
use crate::spec::text::Text;

verus! {

// ---------------------------------------------------------------------------
// Words
// ---------------------------------------------------------------------------

/// A keyword is not found where a statement starts with another word.
pub proof fn lemma_other_word(word: Text, tail: Text, keyword: Text)
    requires
        is_name(word),
        is_name(keyword),
        ends_name(tail),
        st::lower(word) != st::lower(keyword),
    ensures
        st::after_keyword(word + tail, keyword) is None,
{
    let code = word + tail;
    let k = keyword.len() as int;
    let n = word.len() as int;
    assert(code[0] == word[0]);
    assert(is_name_character(word[0]));
    law_trim_start(Seq::empty(), code);
    assert(Seq::<char>::empty() + code =~= code);
    if code.len() >= k && st::same(code.take(k), keyword) {
        assert(st::lower(code.take(k)).len() == k);
        if k < n {
            assert(code.skip(k)[0] == word[k]);
            assert(is_name_character(word[k]));
        } else if k > n {
            assert(st::lower(code.take(k))[n] == st::lower_char(tail[0]));
            assert(st::lower(keyword)[n] == st::lower_char(keyword[n]));
            assert(is_name_character(keyword[n]));
        } else {
            assert(code.take(k) =~= word);
        }
    }
}

/// A keyword of one word, whatever its case.
pub proof fn lemma_lower_name(word: Text, keyword: Text)
    requires
        st::lower(word) == keyword,
        is_name(keyword),
    ensures
        is_name(word),
        word.len() == keyword.len(),
        st::lower(keyword) == keyword,
{
    assert(st::lower(word).len() == word.len());
    assert forall|i: int| 0 <= i < word.len() implies is_name_character(#[trigger] word[i]) by {
        assert(keyword[i] == st::lower_char(word[i]));
        assert(is_name_character(keyword[i]));
    }
    assert(keyword[0] == st::lower_char(word[0]));
    assert(st::lower(keyword) =~= keyword) by {
        assert forall|i: int| 0 <= i < keyword.len() implies st::lower(keyword)[i]
            == keyword[i] by {
            assert(keyword[i] == st::lower_char(word[i]));
        }
    }
}

/// The first name of a text that starts with a word, without the white space at
/// its end.
proof fn lemma_first_of_trimmed(word: Text, tail: Text)
    requires
        is_name(word),
        ends_name(tail),
    ensures
        st::first_ident(st::trim(word + tail)) == Some(word),
        st::first_ident(word + tail) == Some(word),
{
    let s = word + tail;
    let none = Seq::<char>::empty();
    assert(s[0] == word[0]);
    assert(is_name_character(word[0]));
    law_trim_start(none, s);
    assert(none + s =~= s);
    law_first_name(none, word, tail);
    assert(none + word + tail =~= s);
    lemma_trim_end_keeps(word, tail, s.len() as int);
    let t = st::trim_end(s);
    assert(t =~= none + word + t.skip(word.len() as int));
    if t.len() > word.len() {
        assert(t.skip(word.len() as int)[0] == tail[0]);
    }
    law_first_name(none, word, t.skip(word.len() as int));
    assert(st::trim(s) == t);
    assert(none + word + t.skip(word.len() as int) =~= t);
}

proof fn lemma_trim_end_keeps(word: Text, tail: Text, j: int)
    requires
        is_name(word),
        word.len() <= j <= word.len() + tail.len(),
    ensures
        word.len() <= st::before_spaces(word + tail, j) <= j,
    decreases j,
{
    let s = word + tail;
    if j > word.len() {
        if st::is_space(s[j - 1]) {
            lemma_trim_end_keeps(word, tail, j - 1);
        }
    } else {
        assert(s[j - 1] == word.last());
        assert(is_name_character(word.last()));
    }
}

// ---------------------------------------------------------------------------
// Prefixes
// ---------------------------------------------------------------------------

/// Whether a word says something about the procedure whose statement it starts.
pub open spec fn is_prefix(word: Text) -> bool {
    ||| st::lower(word) == "pure"@
    ||| st::lower(word) == "impure"@
    ||| st::lower(word) == "elemental"@
    ||| st::lower(word) == "recursive"@
}

proof fn lemma_prefix(word: Text)
    ensures
        sc::is_procedure_prefix(word) == is_prefix(word),
        is_prefix(word) ==> is_name(word) && word.len() <= usize::MAX,
{
    reveal_strlit("pure");
    reveal_strlit("impure");
    reveal_strlit("elemental");
    reveal_strlit("recursive");
    assert(st::lower("pure"@) =~= "pure"@);
    assert(st::lower("impure"@) =~= "impure"@);
    assert(st::lower("elemental"@) =~= "elemental"@);
    assert(st::lower("recursive"@) =~= "recursive"@);
    if st::lower(word) == "pure"@ {
        lemma_lower_name(word, "pure"@);
    }
    if st::lower(word) == "impure"@ {
        lemma_lower_name(word, "impure"@);
    }
    if st::lower(word) == "elemental"@ {
        lemma_lower_name(word, "elemental"@);
    }
    if st::lower(word) == "recursive"@ {
        lemma_lower_name(word, "recursive"@);
    }
}

/// `pure`, `impure`, `elemental` and `recursive` before a statement change nothing
/// of the scope that it opens; other words stay.
pub proof fn law_prefix(before: Text, word: Text, tail: Text)
    requires
        all_space(before),
        is_name(word),
        ends_name(tail),
    ensures
        is_prefix(word) ==> sc::parse_scope_start(before + word + tail) == sc::parse_scope_start(
            tail,
        ),
        !is_prefix(word) ==> sc::strip_procedure_prefixes(before + word + tail) == word + tail,
        !is_prefix(word) ==> sc::parse_scope_start(before + word + tail) == sc::parse_scope_start(
            word + tail,
        ),
{
    let none = Seq::<char>::empty();
    lemma_prefix(word);
    assert(before + word + tail =~= before + (word + tail));
    assert((word + tail)[0] == word[0]);
    assert(is_name_character(word[0]));
    law_trim_start(before, word + tail);
    law_trim_start(none, word + tail);
    assert(none + (word + tail) =~= word + tail);
    law_first_name(none, word, tail);
    assert(none + word + tail =~= word + tail);
    if is_prefix(word) {
        lemma_cut_name(word, tail);
    }
}

// ---------------------------------------------------------------------------
// Units
// ---------------------------------------------------------------------------

/// No function with a type starts with a word that names no type.
proof fn lemma_untyped(word: Text, tail: Text)
    requires
        is_name(word),
        ends_name(tail),
        !sc::is_function_type(word),
        forall|i: int|
            0 < i < word.len() ==> !#[trigger] st::occurs_at(
                st::lower(word + tail),
                "function"@,
                i,
            ),
    ensures
        sc::typed_function_rest(word + tail) is None,
{
    let t = word + tail;
    assert(t[0] == word[0]);
    assert(is_name_character(word[0]));
    law_trim_start(Seq::empty(), t);
    assert(Seq::<char>::empty() + t =~= t);
    law_find(st::lower(t), "function"@);
    if let Some(i) = st::find(st::lower(t), "function"@) {
        assert(st::occurs_at(st::lower(t), "function"@, i));
        if i >= word.len() {
            let rest = tail.take(i - word.len());
            assert(st::lower(t).len() == t.len());
            assert(t.take(i) =~= word + rest);
            if rest.len() > 0 {
                assert(rest[0] == tail[0]);
            }
            lemma_first_of_trimmed(word, rest);
        }
    }
}

proof fn lemma_unit_words()
    ensures
        is_name("module"@),
        is_name("program"@),
        is_name("subroutine"@),
        is_name("function"@),
        is_name("interface"@),
        is_name("submodule"@),
        is_name("type"@),
        is_name("block"@),
        is_name("associate"@),
        is_name("procedure"@),
        is_name("data"@),
        "module"@ != "program"@,
        "module"@ != "subroutine"@,
        "module"@ != "function"@,
        "module"@ != "interface"@,
        "module"@ != "submodule"@,
        "module"@ != "type"@,
        "module"@ != "block"@,
        "module"@ != "associate"@,
        "program"@ != "subroutine"@,
        "program"@ != "function"@,
        "program"@ != "interface"@,
        "program"@ != "submodule"@,
        "program"@ != "type"@,
        "program"@ != "block"@,
        "program"@ != "associate"@,
        "subroutine"@ != "function"@,
        "subroutine"@ != "interface"@,
        "subroutine"@ != "submodule"@,
        "subroutine"@ != "type"@,
        "subroutine"@ != "block"@,
        "subroutine"@ != "associate"@,
        "function"@ != "interface"@,
        "function"@ != "submodule"@,
        "function"@ != "type"@,
        "function"@ != "block"@,
        "function"@ != "associate"@,
        "interface"@ != "submodule"@,
        "interface"@ != "type"@,
        "interface"@ != "block"@,
        "interface"@ != "associate"@,
        "submodule"@ != "type"@,
        "submodule"@ != "block"@,
        "submodule"@ != "associate"@,
{
    reveal_strlit("module");
    reveal_strlit("program");
    reveal_strlit("subroutine");
    reveal_strlit("function");
    reveal_strlit("interface");
    reveal_strlit("submodule");
    reveal_strlit("type");
    reveal_strlit("block");
    reveal_strlit("associate");
    reveal_strlit("procedure");
    reveal_strlit("data");
    assert("interface"@[0] != "submodule"@[0]);
    assert("interface"@[0] != "associate"@[0]);
    assert("submodule"@[0] != "associate"@[0]);
    assert("module"@.len() == 6);
    assert("program"@.len() == 7);
    assert("subroutine"@.len() == 10);
    assert("function"@.len() == 8);
    assert("interface"@.len() == 9);
    assert("submodule"@.len() == 9);
    assert("type"@.len() == 4);
    assert("block"@.len() == 5);
    assert("associate"@.len() == 9);
}

/// What a unit keyword says of its scope.
pub open spec fn unit_kind(keyword: Text) -> SymbolKind {
    if keyword == "program"@ {
        SymbolKind::Program
    } else if keyword == "subroutine"@ {
        SymbolKind::Subroutine
    } else if keyword == "function"@ {
        SymbolKind::Function
    } else {
        SymbolKind::Interface
    }
}

/// A statement without a colon has no label.
proof fn lemma_no_label(s: Text, i: int)
    requires
        !s.contains(':'),
        0 <= i,
    ensures
        st::find_char_from(s, ':', i) is None,
    decreases s.len() - i,
{
    if i < s.len() {
        assert(s.contains(s[i]));
        lemma_no_label(s, i + 1);
    }
}

proof fn lemma_trim_same_words(word: Text, tail: Text)
    requires
        is_name(word),
        ends_name(tail),
        !(word + tail).contains(':'),
    ensures
        st::trim(word + tail) == word + st::trim_end(word + tail).skip(word.len() as int),
        ends_name(st::trim_end(word + tail).skip(word.len() as int)),
        !st::trim(word + tail).contains(':'),
{
    let s = word + tail;
    let none = Seq::<char>::empty();
    assert(s[0] == word[0]);
    assert(is_name_character(word[0]));
    law_trim_start(none, s);
    assert(none + s =~= s);
    lemma_trim_end_keeps(word, tail, s.len() as int);
    let t = st::trim_end(s);
    assert(t =~= word + t.skip(word.len() as int));
    if t.len() > word.len() {
        assert(t.skip(word.len() as int)[0] == tail[0]);
    }
    assert forall|i: int| 0 <= i < t.len() implies t[i] != ':' by {
        assert(t[i] == s[i]);
        assert(s.contains(s[i]));
    }
}

proof fn lemma_no_construct(word: Text, tail: Text)
    requires
        is_name(word),
        ends_name(tail),
        !(word + tail).contains(':'),
        st::lower(word) == "program"@ || st::lower(word) == "subroutine"@ || st::lower(word)
            == "function"@ || st::lower(word) == "interface"@ || st::lower(word) == "module"@,
    ensures
        sc::parse_construct_scope(word + tail) is None,
{
    lemma_unit_words();
    let trimmed = st::trim(word + tail);
    lemma_trim_same_words(word, tail);
    let rest = st::trim_end(word + tail).skip(word.len() as int);
    lemma_no_label(trimmed, 0);
    reveal_strlit("block");
    reveal_strlit("associate");
    assert(st::lower("block"@) =~= "block"@);
    assert(st::lower("associate"@) =~= "associate"@);
    lemma_other_word(word, rest, "block"@);
    lemma_other_word(word, rest, "associate"@);
    reveal_strlit("select type");
    reveal_strlit("select rank");
    reveal_strlit("select case");
    reveal_strlit("program");
    reveal_strlit("subroutine");
    reveal_strlit("function");
    reveal_strlit("interface");
    reveal_strlit("module");
    assert(trimmed[0] == word[0]);
    assert(trimmed[1] == word[1]);
    assert(is_name_character(word[0]));
    assert(st::lower(word)[0] == st::lower_char(word[0]));
    assert(st::lower(word)[1] == st::lower_char(word[1]));
    if st::lower(word) == "subroutine"@ {
        lemma_no_keyword(trimmed, "select type"@, 1);
        lemma_no_keyword(trimmed, "select rank"@, 1);
        lemma_no_keyword(trimmed, "select case"@, 1);
    } else {
        lemma_no_keyword(trimmed, "select type"@, 0);
        lemma_no_keyword(trimmed, "select rank"@, 0);
        lemma_no_keyword(trimmed, "select case"@, 0);
    }
}

/// The statement of a program, a procedure or an interface without a colon opens a
/// scope of its kind, with the name behind the keyword.
pub proof fn law_unit(
    word: Text,
    keyword: Text,
    space: Text,
    name: Text,
    behind: Text,
)
    requires
        st::lower(word) == keyword,
        keyword == "program"@ || keyword == "subroutine"@ || keyword == "function"@ || keyword
            == "interface"@,
        all_space(space),
        space.len() > 0,
        is_name(name),
        ends_name(behind),
        !(word + (space + name + behind)).contains(':'),
        keyword == "interface"@ ==> !st::starts_with(st::lower(name), "operator"@)
            && !st::starts_with(st::lower(name), "assignment"@),
    ensures
        sc::parse_scope_start(word + (space + name + behind)) matches Some(start) && start.kind
            == unit_kind(keyword) && start.name == name && start.selection == name
            && start.signature == st::trim(word + (space + name + behind)) && start.args
            == sp::args_of(space + name + behind) && start.extends is None
            && !start.is_module_procedure && start.ancestor is None && start.visibility is None,
{
    let tail = space + name + behind;
    let code = word + tail;
    let none = Seq::<char>::empty();
    lemma_unit_words();
    lemma_lower_name(word, keyword);
    assert(tail[0] == space[0]);
    lemma_unit_not_prefix(word, keyword);
    law_prefix(none, word, tail);
    assert(none + word + tail =~= code);
    lemma_unit_not_typed(word, keyword, tail);
    reveal_strlit("module");
    reveal_strlit("submodule");
    reveal_strlit("program");
    reveal_strlit("subroutine");
    reveal_strlit("function");
    reveal_strlit("interface");
    reveal_strlit("abstract interface");
    assert(st::lower("module"@) =~= "module"@);
    assert(st::lower("submodule"@) =~= "submodule"@);
    assert(st::lower("program"@) =~= "program"@);
    assert(st::lower("subroutine"@) =~= "subroutine"@);
    assert(st::lower("function"@) =~= "function"@);
    assert(st::lower("interface"@) =~= "interface"@);
    lemma_other_word(word, tail, "module"@);
    lemma_other_word(word, tail, "submodule"@);
    lemma_no_construct(word, tail);
    assert(code[0] == word[0]);
    assert(is_name_character(word[0]));
    assert(st::lower(word)[0] == st::lower_char(word[0]));
    lemma_no_keyword(code, "abstract interface"@, 0);
    law_keyword(none, word, keyword, tail);
    assert forall|i: int| 0 <= i < space.len() implies !(is_name_character(#[trigger] space[i])
        && !('0' <= space[i] <= '9')) by {}
    law_first_name(space, name, behind);
    if keyword == "interface"@ {
        lemma_other_word(word, tail, "program"@);
        lemma_other_word(word, tail, "subroutine"@);
        lemma_other_word(word, tail, "function"@);
        lemma_plain_interface(space, name, behind);
    } else {
        lemma_other_word(word, tail, "interface"@);
        if keyword != "program"@ {
            lemma_other_word(word, tail, "program"@);
            if keyword != "subroutine"@ {
                lemma_other_word(word, tail, "subroutine"@);
            }
        }
    }
}

proof fn lemma_unit_not_prefix(word: Text, keyword: Text)
    requires
        st::lower(word) == keyword,
        keyword == "program"@ || keyword == "subroutine"@ || keyword == "function"@ || keyword
            == "interface"@ || keyword == "module"@ || keyword == "submodule"@ || keyword
            == "type"@,
    ensures
        !is_prefix(word),
{
    reveal_strlit("pure");
    reveal_strlit("impure");
    reveal_strlit("elemental");
    reveal_strlit("recursive");
    reveal_strlit("module");
    reveal_strlit("submodule");
    reveal_strlit("program");
    reveal_strlit("subroutine");
    reveal_strlit("function");
    reveal_strlit("interface");
    reveal_strlit("type");
    assert("pure"@[0] == 'p' && "impure"@[0] == 'i' && "elemental"@[0] == 'e' && "recursive"@[0]
        == 'r');
    assert("pure"@.len() == 4 && "impure"@.len() == 6 && "elemental"@.len() == 9
        && "recursive"@.len() == 9);
    assert("module"@[0] == 'm' && "submodule"@[0] == 's' && "program"@.len() == 7
        && "subroutine"@.len() == 10 && "function"@.len() == 8 && "interface"@[0] == 'i'
        && "interface"@.len() == 9 && "type"@[0] == 't');
}

proof fn lemma_unit_not_typed(word: Text, keyword: Text, tail: Text)
    requires
        st::lower(word) == keyword,
        is_name(word),
        ends_name(tail),
        keyword == "program"@ || keyword == "subroutine"@ || keyword == "function"@ || keyword
            == "interface"@ || keyword == "submodule"@,
    ensures
        sc::typed_function_rest(word + tail) is None,
{
    reveal_strlit("function");
    reveal_strlit("program");
    reveal_strlit("subroutine");
    reveal_strlit("interface");
    reveal_strlit("submodule");
    let t = word + tail;
    assert(st::lower(t).len() == t.len());
    assert(st::lower(word).len() == word.len());
    if keyword == "function"@ {
        assert(st::lower(t).subrange(0, 8) =~= "function"@) by {
            assert forall|i: int| 0 <= i < 8 implies st::lower(t).subrange(0, 8)[i]
                == "function"@[i] by {
                assert(st::lower(t)[i] == st::lower_char(word[i]));
                assert(st::lower(word)[i] == st::lower_char(word[i]));
            }
        }
        assert(t[0] == word[0]);
        assert(is_name_character(word[0]));
        law_trim_start(Seq::empty(), t);
        assert(Seq::<char>::empty() + t =~= t);
        assert(st::find(st::lower(t), "function"@) == Some(0int));
    } else {
        lemma_unit_no_type(word, keyword);
        assert forall|i: int| 0 < i < word.len() implies !#[trigger] st::occurs_at(
            st::lower(t),
            "function"@,
            i,
        ) by {
            if st::occurs_at(st::lower(t), "function"@, i) {
                assert(st::lower(t).subrange(i, i + 8)[0] == 'f');
                assert(st::lower(t)[i] == st::lower_char(word[i]));
                assert(st::lower(word)[i] == st::lower_char(word[i]));
                assert(keyword[i] == 'f');
                assert(keyword == "interface"@ && i == 5);
                assert(st::lower(t).subrange(i, i + 8)[1] == 'u');
                assert(st::lower(t)[6] == st::lower_char(word[6]));
                assert(st::lower(word)[6] == st::lower_char(word[6]));
            }
        }
        lemma_untyped(word, tail);
    }
}

proof fn lemma_unit_no_type(word: Text, keyword: Text)
    requires
        st::lower(word) == keyword,
        keyword == "program"@ || keyword == "subroutine"@ || keyword == "interface"@ || keyword
            == "submodule"@ || keyword == "module"@,
    ensures
        !sc::is_function_type(word),
{
    reveal_strlit("program");
    reveal_strlit("subroutine");
    reveal_strlit("interface");
    reveal_strlit("submodule");
    reveal_strlit("module");
    reveal_strlit("integer");
    reveal_strlit("real");
    reveal_strlit("logical");
    reveal_strlit("complex");
    reveal_strlit("character");
    reveal_strlit("double");
    reveal_strlit("type");
    reveal_strlit("class");
    assert(st::lower("integer"@)[0] == 'i' && st::lower("integer"@).len() == 7);
    assert(st::lower("real"@)[0] == 'r');
    assert(st::lower("logical"@)[0] == 'l');
    assert(st::lower("complex"@)[0] == 'c');
    assert(st::lower("character"@)[0] == 'c');
    assert(st::lower("double"@)[0] == 'd');
    assert(st::lower("type"@)[0] == 't');
    assert(st::lower("class"@)[0] == 'c');
    assert(keyword[0] == 'p' || keyword[0] == 's' || keyword[0] == 'm' || (keyword[0] == 'i'
        && keyword.len() == 9));
}

proof fn lemma_plain_interface(space: Text, name: Text, behind: Text)
    requires
        all_space(space),
        is_name(name),
        ends_name(behind),
        !st::starts_with(st::lower(name), "operator"@),
        !st::starts_with(st::lower(name), "assignment"@),
    ensures
        sp::generic_name(st::trim_start(space + name + behind)) is None,
{
    reveal_strlit("operator");
    reveal_strlit("assignment");
    let none = Seq::<char>::empty();
    let rest = name + behind;
    assert(space + name + behind =~= space + rest);
    assert(rest[0] == name[0]);
    assert(is_name_character(name[0]));
    law_trim_start(space, rest);
    law_trim_start(none, rest);
    assert(none + rest =~= rest);
    lemma_trim_end_keeps(name, behind, rest.len() as int);
    let t = st::trim(rest);
    assert(t == st::trim_end(rest));
    assert(st::lower("operator"@) =~= "operator"@);
    assert(st::lower("assignment"@) =~= "assignment"@);
    lemma_not_starting(name, behind, t, "operator"@);
    lemma_not_starting(name, behind, t, "assignment"@);
}

/// A text that goes on behind a name does not start with a word that the name does
/// not start with.
proof fn lemma_not_starting(name: Text, behind: Text, t: Text, word: Text)
    requires
        is_name(name),
        ends_name(behind),
        name.len() <= t.len() <= name.len() + behind.len(),
        t == (name + behind).take(t.len() as int),
        is_name(word),
        st::lower(word) == word,
        !st::starts_with(st::lower(name), word),
    ensures
        !st::starts_with(st::lower(t), word),
{
    let n = name.len() as int;
    assert(st::lower(t).len() == t.len());
    assert(st::lower(name).len() == n);
    if st::starts_with(st::lower(t), word) {
        if word.len() <= n {
            assert(st::lower(name).subrange(0, word.len() as int) =~= word) by {
                assert forall|i: int| 0 <= i < word.len() implies st::lower(name)[i] == word[i] by {
                    assert(st::lower(t).subrange(0, word.len() as int)[i] == word[i]);
                    assert(t[i] == name[i]);
                }
            }
        } else {
            assert(st::lower(t).subrange(0, word.len() as int)[n] == word[n]);
            assert(t[n] == behind[0]);
            assert(is_name_character(word[n]));
        }
    }
}

/// The arguments of a procedure are the names in its parentheses.
pub proof fn law_arguments(before: Text, items: Seq<Padded>, behind: Text)
    requires
        !before.contains('('),
        are_padded(items),
        items.len() > 0,
        !list_text(items).contains(')'),
    ensures
        sp::args_of(before + seq!['('] + list_text(items) + seq![')'] + behind) == names(items),
{
    law_paren_content(before, list_text(items), behind);
    law_names(items);
}

/// A module opens the scope of its name.
#[verifier::rlimit(40)]
pub proof fn law_module(word: Text, space: Text, name: Text, behind: Text)
    requires
        st::lower(word) == "module"@,
        all_space(space),
        space.len() > 0,
        is_name(name),
        all_space(behind),
        st::lower(name) != "procedure"@,
        st::lower(name) != "subroutine"@,
        st::lower(name) != "function"@,
    ensures
        sc::parse_scope_start(word + (space + name + behind)) matches Some(start)
            && start.kind is Module && start.name == name && start.args == Seq::<Text>::empty(),
{
    let tail = space + name + behind;
    let code = word + tail;
    let none = Seq::<char>::empty();
    lemma_unit_words();
    lemma_lower_name(word, "module"@);
    assert(tail[0] == space[0]);
    lemma_unit_not_prefix(word, "module"@);
    law_prefix(none, word, tail);
    assert(none + word + tail =~= code);
    reveal_strlit("module");
    reveal_strlit("submodule");
    reveal_strlit("procedure");
    reveal_strlit("subroutine");
    reveal_strlit("function");
    reveal_strlit("interface");
    reveal_strlit("abstract interface");
    assert(st::lower("module"@) =~= "module"@);
    assert(st::lower("submodule"@) =~= "submodule"@);
    assert(st::lower("procedure"@) =~= "procedure"@);
    assert(st::lower("subroutine"@) =~= "subroutine"@);
    assert(st::lower("function"@) =~= "function"@);
    assert(st::lower("interface"@) =~= "interface"@);
    law_keyword(none, word, "module"@, tail);
    let rest = name + behind;
    assert(tail =~= space + rest);
    assert(rest[0] == name[0]);
    assert(is_name_character(name[0]));
    if behind.len() > 0 {
        assert(st::is_space(behind[0]));
    }
    law_trim_start(space, rest);
    law_trim_start(none, rest);
    assert(none + rest =~= rest);
    lemma_other_after(tail, rest, name, behind, "procedure"@);
    lemma_other_after(tail, rest, name, behind, "subroutine"@);
    lemma_other_after(tail, rest, name, behind, "function"@);
    lemma_other_word(word, tail, "submodule"@);
    lemma_other_word(word, tail, "interface"@);
    lemma_module_not_typed(word, space, name, behind);
    lemma_only_names(word, space, name, behind);
    lemma_no_construct(word, tail);
    assert(code[0] == word[0]);
    assert(st::lower(word)[0] == st::lower_char(word[0]));
    lemma_no_keyword(code, "abstract interface"@, 0);
    assert forall|i: int| 0 <= i < space.len() implies !(is_name_character(#[trigger] space[i])
        && !('0' <= space[i] <= '9')) by {}
    law_first_name(space, name, behind);
    lemma_no_paren(tail, 0);
}

/// No type of a function stands in front of the name of a module.
proof fn lemma_module_not_typed(word: Text, space: Text, name: Text, behind: Text)
    requires
        st::lower(word) == "module"@,
        is_name(word),
        all_space(space),
        space.len() > 0,
        is_name(name),
        all_space(behind),
    ensures
        sc::typed_function_rest(space + name + behind) is None,
        sc::typed_function_rest(word + (space + name + behind)) is None,
{
    reveal_strlit("module");
    reveal_strlit("function");
    let rest = name + behind;
    let tail = space + name + behind;
    let code = word + tail;
    assert(tail =~= space + rest);
    assert(tail[0] == space[0]);
    assert(rest[0] == name[0]);
    assert(is_name_character(name[0]));
    law_trim_start(space, rest);
    law_find(st::lower(rest), "function"@);
    assert(st::lower(rest).len() == rest.len());
    assert(st::lower(word).len() == word.len());
    if let Some(i) = st::find(st::lower(rest), "function"@) {
        assert(st::lower(rest).subrange(i, i + 8)[0] == 'f');
        if i >= name.len() {
            assert(rest[i] == behind[i - name.len()]);
        } else if i > 0 {
            assert(rest[i - 1] == name[i - 1]);
            assert(is_name_character(name[i - 1]));
        }
    }
    lemma_unit_no_type(word, "module"@);
    assert forall|i: int| 0 < i < word.len() implies !#[trigger] st::occurs_at(
        st::lower(code),
        "function"@,
        i,
    ) by {
        if st::occurs_at(st::lower(code), "function"@, i) {
            assert(st::lower(code).subrange(i, i + 8)[0] == 'f');
            assert(st::lower(code)[i] == st::lower_char(word[i]));
            assert(st::lower(word)[i] == st::lower_char(word[i]));
        }
    }
    lemma_untyped(word, tail);
}

/// Words and white space hold no colon and no parenthesis.
proof fn lemma_only_names(word: Text, space: Text, name: Text, behind: Text)
    requires
        is_name(word),
        all_space(space),
        is_name(name),
        all_space(behind),
    ensures
        !(word + (space + name + behind)).contains(':'),
        !(space + name + behind).contains('('),
{
    let tail = space + name + behind;
    let code = word + tail;
    assert forall|i: int| 0 <= i < tail.len() implies tail[i] != '(' && tail[i] != ':' by {
        if i < space.len() {
            assert(tail[i] == space[i]);
        } else if i < space.len() + name.len() {
            assert(tail[i] == name[i - space.len()]);
            assert(is_name_character(tail[i]));
        } else {
            assert(tail[i] == behind[i - space.len() - name.len()]);
        }
    }
    assert forall|i: int| 0 <= i < code.len() implies code[i] != ':' by {
        if i < word.len() {
            assert(is_name_character(word[i]));
        } else {
            assert(code[i] == tail[i - word.len()]);
        }
    }
}

proof fn lemma_no_paren(s: Text, i: int)
    requires
        0 <= i,
    ensures
        !s.contains('(') ==> st::find_char_from(s, '(', i) is None,
    decreases s.len() - i,
{
    if i < s.len() {
        if !s.contains('(') {
            assert(s.contains(s[i]));
        }
        lemma_no_paren(s, i + 1);
    }
}

/// The second of two keywords is not found where another word stands.
proof fn lemma_other_after(tail: Text, rest: Text, name: Text, behind: Text, keyword: Text)
    requires
        rest == name + behind,
        is_name(name),
        ends_name(behind),
        is_name(keyword),
        st::lower(name) != st::lower(keyword),
        st::trim_start(tail) == rest,
        st::trim_start(rest) == rest,
    ensures
        st::after_keyword(tail, keyword) is None,
        st::after_keyword(rest, keyword) is None,
{
    lemma_other_word(name, behind, keyword);
}

// ---------------------------------------------------------------------------
// Functions
// ---------------------------------------------------------------------------

/// The name of the result of a function is the one in the parentheses behind
/// `result`.
pub proof fn law_result(before: Text, word: Text, gap: Text, inner: Text, behind: Text, name: Text)
    requires
        st::lower(word) == "result"@,
        forall|j: int|
            0 <= j < before.len() ==> !#[trigger] st::occurs_at(
                st::lower(before + word + gap + seq!['('] + inner + seq![')'] + behind),
                "result"@,
                j,
            ),
        !gap.contains('('),
        !inner.contains(')'),
        st::first_ident(inner) == Some(name),
    ensures
        sc::parse_result_name(before + word + gap + seq!['('] + inner + seq![')'] + behind) == Some(
            name,
        ),
{
    reveal_strlit("result");
    let s = before + word + gap + seq!['('] + inner + seq![')'] + behind;
    let k = before.len() as int;
    assert(st::lower(word).len() == word.len());
    assert(s.subrange(k, k + 6) =~= word);
    assert(st::lower(s).subrange(k, k + 6) =~= st::lower(word));
    assert(st::occurs_at(st::lower(s), "result"@, k));
    law_find(st::lower(s), "result"@);
    assert(s.skip(k + 6) =~= gap + seq!['('] + inner + seq![')'] + behind);
    law_paren_content(gap, inner, behind);
}

} // verus!
