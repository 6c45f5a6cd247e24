//! More statements as they are written: types, submodules, ends, bindings, storage
//! and the members of objects.

use vstd::prelude::*;

use crate::laws::nesting::{are_parts, law_split_commas, lemma_find_char, show, shown, Nest};
use crate::laws::statements::{
    are_padded, law_find, law_names, lemma_split_two, list_text, names, Padded,
};
use crate::laws::text::{
    all_space, ends_name, is_name, is_name_character, is_trimmed, law_first_name, law_keyword,
    law_trim, law_trim_end, law_trim_start,
};
use crate::laws::units::lemma_lower_name;
use crate::model::{GenericBindingKind, ImportKind, SymbolKind, Visibility};
use crate::spec::cursor as su;
use crate::spec::model as sm;
use crate::spec::parser as pr;
use crate::spec::scan as ss;
use crate::spec::scope as sc;
use crate::spec::statement as sp;
use crate::spec::text as st;
use crate::spec::text::Text;

verus! {

// ---------------------------------------------------------------------------
// Types
// ---------------------------------------------------------------------------

/// An attribute and the white space around it.
pub type Attribute = (Text, Text, Text);

pub open spec fn is_attribute(a: Attribute) -> bool {
    all_space(a.0) && a.1.len() > 0 && is_trimmed(a.1) && all_space(a.2)
}

/// How a type can be seen, by the last of its attributes that says so.
pub open spec fn type_visibility(list: Seq<Text>) -> Option<Visibility>
    decreases list.len(),
{
    if list.len() == 0 {
        None
    } else if st::lower(list.last()) == "public"@ {
        Some(Visibility::Public)
    } else if st::lower(list.last()) == "private"@ {
        Some(Visibility::Private)
    } else {
        type_visibility(list.drop_last())
    }
}

/// Whether an attribute says what a type extends.
pub open spec fn is_extension(attr: Text) -> bool {
    let low = st::lower(attr);
    low != "public"@ && low != "private"@ && low != "abstract"@ && st::starts_with(
        low,
        "extends"@,
    )
}

/// What a type extends: the first name in the parentheses of the last attribute
/// that says so.
pub open spec fn type_parent(list: Seq<Text>) -> Option<Text>
    decreases list.len(),
{
    if list.len() == 0 {
        None
    } else if is_extension(list.last()) {
        match ss::paren_content(list.last()) {
            Some(value) => st::first_ident(value),
            None => None,
        }
    } else {
        type_parent(list.drop_last())
    }
}

/// Whether one of the attributes says that a type is abstract.
pub open spec fn type_is_abstract(list: Seq<Text>) -> bool
    decreases list.len(),
{
    list.len() > 0 && (st::lower(list.last()) == "abstract"@ || type_is_abstract(list.drop_last()))
}

/// What attributes say of a type: how it can be seen, whether it is abstract, and
/// what it extends.
pub open spec fn says(list: Seq<Text>, t: sc::TypeAttributes) -> bool {
    &&& t.attributes == list
    &&& t.visibility == type_visibility(list)
    &&& t.extends == type_parent(list)
    &&& t.is_abstract == type_is_abstract(list)
}

proof fn lemma_says(
    parts: Seq<Text>,
    list: Seq<Attribute>,
    words: Seq<Text>,
    i: int,
    t: sc::TypeAttributes,
)
    requires
        parts.len() == list.len() == words.len(),
        forall|k: int|
            0 <= k < list.len() ==> is_attribute(#[trigger] list[k]) && parts[k] == list[k].0
                + list[k].1 + list[k].2 && words[k] == list[k].1,
        0 <= i <= list.len(),
        says(words.take(i), t),
        t.attributes == words.take(i),
    ensures
        says(words, sc::type_attributes_from(parts, i, t)),
        sc::type_attributes_from(parts, i, t).attributes == words,
    decreases list.len() - i,
{
    reveal_strlit("public");
    reveal_strlit("private");
    reveal_strlit("abstract");
    reveal_strlit("extends");
    assert(st::lower("public"@) =~= "public"@);
    assert(st::lower("private"@) =~= "private"@);
    assert(st::lower("abstract"@) =~= "abstract"@);
    assert("public"@.len() == 6 && "private"@.len() == 7 && "abstract"@.len() == 8);
    if i < list.len() {
        let a = list[i];
        assert(is_attribute(a));
        law_trim(a.0, a.1, a.2);
        assert(words.take(i + 1).drop_last() =~= words.take(i));
        assert(words.take(i + 1).last() == a.1);
        let next = sc::add_type_attribute(t, a.1);
        assert(next.attributes =~= words.take(i + 1));
        assert(says(words.take(i + 1).drop_last(), t));
        assert(says(words.take(i + 1), next));
        lemma_says(parts, list, words, i + 1, next);
    } else {
        assert(words.take(i) =~= words);
    }
}

/// A type with attributes is what they say, and has the name behind the colons.
pub proof fn law_type(
    word: Text,
    left: Seq<Nest>,
    list: Seq<Attribute>,
    gap: Text,
    name: Text,
    behind: Text,
)
    requires
        st::lower(word) == "type"@,
        are_parts(left),
        left.len() == list.len() + 1,
        show(left[0]).len() == 0,
        list.len() > 0,
        forall|k: int|
            0 <= k < list.len() ==> is_attribute(#[trigger] list[k]) && show(left[k + 1])
                == list[k].0 + list[k].1 + list[k].2,
        !st::join(shown(left), seq![',']).contains(':'),
        st::join(shown(left), seq![',']).len() > 0,
        st::join(shown(left), seq![','])[0] == ',',
        all_space(gap),
        is_name(name),
        ends_name(behind),
    ensures
        sc::parse_type_scope(
            word + (st::join(shown(left), seq![',']) + seq![':', ':'] + (gap + name + behind)),
        ) matches Some(start) && start.kind is Type && start.name == name && start.attributes
            == Seq::new(list.len(), |k: int| list[k].1) && says(
            Seq::new(list.len(), |k: int| list[k].1),
            sc::TypeAttributes {
                attributes: start.attributes,
                visibility: start.visibility,
                extends: start.extends,
                is_abstract: start.is_abstract,
            },
        ),
{
    reveal_strlit("type");
    reveal_strlit("::");
    assert("::"@ =~= seq![':', ':']);
    lemma_lower_name(word, "type"@);
    let none = Seq::<char>::empty();
    let lhs = st::join(shown(left), seq![',']);
    let rhs = gap + name + behind;
    let tail = lhs + seq![':', ':'] + rhs;
    assert(tail[0] == ',');
    assert(is_name_character(word[0]));
    law_keyword(none, word, "type"@, tail);
    assert(none + word + tail =~= word + tail);
    law_trim_start(none, tail);
    assert(none + tail =~= tail);
    lemma_split_two(lhs, ':', ':', rhs);
    law_split_commas(left);
    let parts = shown(left);
    let words = Seq::new(list.len(), |k: int| list[k].1);
    let start = sc::TypeAttributes {
        attributes: Seq::empty(),
        visibility: None,
        extends: None,
        is_abstract: false,
    };
    law_trim(none, none, none);
    assert(parts[0] =~= none + none + none);
    let rest = parts.skip(1);
    lemma_type_shift(parts, 1, start);
    assert(words.take(0) =~= Seq::<Text>::empty());
    assert forall|k: int| 0 <= k < list.len() implies is_attribute(#[trigger] list[k]) && rest[k]
        == list[k].0 + list[k].1 + list[k].2 && words[k] == list[k].1 by {
        assert(rest[k] == parts[k + 1]);
    }
    lemma_says(rest, list, words, 0, start);
    assert forall|i: int| 0 <= i < gap.len() implies !(is_name_character(#[trigger] gap[i])
        && !('0' <= gap[i] <= '9')) by {}
    law_first_name(gap, name, behind);
}

proof fn lemma_type_shift(parts: Seq<Text>, i: int, t: sc::TypeAttributes)
    requires
        1 <= i <= parts.len(),
    ensures
        sc::type_attributes_from(parts, i, t) == sc::type_attributes_from(parts.skip(1), i - 1, t),
    decreases parts.len() - i,
{
    if i < parts.len() {
        assert(parts.skip(1)[i - 1] == parts[i]);
        let attr = st::trim(parts[i]);
        lemma_type_shift(
            parts,
            i + 1,
            if attr.len() == 0 {
                t
            } else {
                sc::add_type_attribute(t, attr)
            },
        );
    }
}

// ---------------------------------------------------------------------------
// Submodules
// ---------------------------------------------------------------------------

/// A submodule has the name behind its parentheses, and the module in them as its
/// ancestor.
pub proof fn law_submodule(
    word: Text,
    space: Text,
    gap: Text,
    ancestor: Text,
    rest: Text,
    gap2: Text,
    name: Text,
    behind: Text,
)
    requires
        st::lower(word) == "submodule"@,
        all_space(space),
        all_space(gap),
        is_name(ancestor),
        ends_name(rest),
        !rest.contains(')'),
        all_space(gap2),
        is_name(name),
        ends_name(behind),
    ensures
        sc::parse_submodule_definition(
            word + (space + (seq!['('] + (gap + ancestor + rest) + seq![')'] + (gap2 + name
                + behind))),
        ) matches Some(start) && start.kind is Submodule && start.name == name && start.ancestor
            == Some(ancestor),
{
    reveal_strlit("submodule");
    lemma_lower_name(word, "submodule"@);
    let none = Seq::<char>::empty();
    let inner = gap + ancestor + rest;
    let after = gap2 + name + behind;
    let group = seq!['('] + inner + seq![')'] + after;
    let tail = space + group;
    assert(tail[0] == if space.len() > 0 {
        space[0]
    } else {
        '('
    });
    assert(is_name_character(word[0]));
    law_keyword(none, word, "submodule"@, tail);
    assert(none + word + tail =~= word + tail);
    assert(group[0] == '(');
    law_trim_start(space, group);
    let open = group.skip(1);
    assert(open =~= inner + seq![')'] + after);
    assert(!inner.contains(')')) by {
        assert forall|i: int| 0 <= i < inner.len() implies inner[i] != ')' by {
            if i < gap.len() {
                assert(inner[i] == gap[i]);
            } else if i < gap.len() + ancestor.len() {
                assert(inner[i] == ancestor[i - gap.len()]);
                assert(is_name_character(inner[i]));
            } else {
                assert(inner[i] == rest[i - gap.len() - ancestor.len()]);
                assert(rest.contains(inner[i]));
            }
        }
    }
    lemma_find_char(inner, ')', after, 0);
    assert(open.take(inner.len() as int) =~= inner);
    assert(open.skip(inner.len() as int + 1) =~= after);
    assert forall|i: int| 0 <= i < gap.len() implies !(is_name_character(#[trigger] gap[i])
        && !('0' <= gap[i] <= '9')) by {}
    law_first_name(gap, ancestor, rest);
    assert forall|i: int| 0 <= i < gap2.len() implies !(is_name_character(#[trigger] gap2[i])
        && !('0' <= gap2[i] <= '9')) by {}
    law_first_name(gap2, name, behind);
}

// ---------------------------------------------------------------------------
// Ends
// ---------------------------------------------------------------------------

/// The kind of scope that a word behind `end` closes.
pub open spec fn closes(word: Text, kind: SymbolKind) -> bool {
    ||| word == "module"@ && kind is Module
    ||| word == "program"@ && kind is Program
    ||| word == "submodule"@ && kind is Submodule
    ||| word == "subroutine"@ && kind is Subroutine
    ||| word == "procedure"@ && kind is Subroutine
    ||| word == "function"@ && kind is Function
    ||| word == "type"@ && kind is Type
    ||| word == "interface"@ && kind is Interface
    ||| word == "associate"@ && kind is Associate
    ||| word == "select"@ && kind is SelectType
}

proof fn lemma_closes(word: Text, kind: SymbolKind)
    requires
        closes(word, kind),
    ensures
        sp::end_kind(word) == Some(kind),
        word.len() > 0,
        word[0] != 'b',
        forall|i: int| 0 <= i < word.len() ==> !st::is_space(#[trigger] word[i]),
{
    reveal_strlit("module");
    reveal_strlit("program");
    reveal_strlit("submodule");
    reveal_strlit("subroutine");
    reveal_strlit("procedure");
    reveal_strlit("function");
    reveal_strlit("type");
    reveal_strlit("interface");
    reveal_strlit("block");
    reveal_strlit("associate");
    reveal_strlit("select");
    assert("module"@.len() == 6 && "program"@.len() == 7 && "submodule"@.len() == 9
        && "subroutine"@.len() == 10 && "procedure"@.len() == 9 && "function"@.len() == 8
        && "type"@.len() == 4 && "interface"@.len() == 9 && "block"@.len() == 5
        && "associate"@.len() == 9 && "select"@.len() == 6);
    assert("module"@[0] == 'm' && "select"@[0] == 's' && "submodule"@[0] == 's' && "procedure"@[0]
        == 'p' && "interface"@[0] == 'i' && "associate"@[0] == 'a');
}

proof fn lemma_word_end(s: Text, i: int, e: int)
    requires
        0 <= i <= e <= s.len(),
        forall|k: int| i <= k < e ==> !st::is_space(#[trigger] s[k]),
        e < s.len() ==> st::is_space(s[e]),
    ensures
        st::word_end(s, i) == e,
    decreases e - i,
{
    if i < e {
        lemma_word_end(s, i + 1, e);
    }
}

/// `end` and the word of a kind of scope ends the innermost scope of that kind;
/// `end` alone ends any.
pub proof fn law_end(space: Text, word: Text, kind: SymbolKind, behind: Text)
    requires
        all_space(space),
        space.len() > 0,
        closes(word, kind),
        behind.len() == 0 || st::is_space(behind[0]),
    ensures
        pr::end_target("end"@ + space + word + behind) == Some(Some(kind)),
        pr::end_target("end"@) == Some(None::<SymbolKind>),
{
    reveal_strlit("end");
    reveal_strlit("end block data");
    reveal_strlit("end blockdata");
    lemma_closes(word, kind);
    let none = Seq::<char>::empty();
    let s = "end"@ + space + word + behind;
    assert(s.len() > 3);
    law_trim_start(none, s);
    assert(none + s =~= s);
    assert(s[0] == 'e' && s[1] == 'n' && s[2] == 'd' && s[3] == space[0]);
    lemma_word_end(s, 0, 3);
    let rest = word + behind;
    assert(s.skip(3) =~= space + rest);
    assert(rest[0] == word[0]);
    law_trim_start(space, rest);
    assert forall|k: int| 0 <= k < word.len() implies !st::is_space(#[trigger] rest[k]) by {
        assert(rest[k] == word[k]);
    }
    if behind.len() > 0 {
        assert(rest[word.len() as int] == behind[0]);
    }
    lemma_word_end(rest, 0, word.len() as int);
    assert(rest.take(word.len() as int) =~= word);
    lemma_no_block(s, space, word, behind, "end block data"@);
    lemma_no_block(s, space, word, behind, "end blockdata"@);
}

proof fn lemma_no_block(s: Text, space: Text, word: Text, behind: Text, p: Text)
    requires
        s == "end"@ + space + word + behind,
        "end"@.len() == 3,
        all_space(space),
        space.len() > 0,
        word.len() > 0,
        word[0] != 'b',
        p.len() > 4,
        p[4] == 'b',
    ensures
        !st::starts_with(s, p),
{
    if st::starts_with(s, p) {
        assert(s.subrange(0, p.len() as int)[4] == p[4]);
        if space.len() == 1 {
            assert(s[4] == word[0]);
        } else {
            assert(s[4] == space[1]);
            assert(st::is_space(space[1]));
        }
    }
}

/// The innermost scope of a kind is the one that its end closes.
pub proof fn law_scope_to_close(
    scopes: Seq<pr::ScopeFrame>,
    kind: SymbolKind,
    k: int,
)
    requires
        0 <= k < scopes.len(),
        scopes[k].kind == kind,
        forall|j: int| k < j < scopes.len() ==> (#[trigger] scopes[j]).kind != kind,
    ensures
        pr::scope_to_close(scopes, Some(kind), scopes.len()) == Some(k),
        pr::scope_to_close(scopes, None, scopes.len()) == Some(scopes.len() - 1int),
{
    lemma_to_close(scopes, kind, k, scopes.len());
}

proof fn lemma_to_close(
    scopes: Seq<pr::ScopeFrame>,
    kind: SymbolKind,
    k: int,
    n: nat,
)
    requires
        0 <= k < n <= scopes.len(),
        scopes[k].kind == kind,
        forall|j: int| k < j < n ==> (#[trigger] scopes[j]).kind != kind,
    ensures
        pr::scope_to_close(scopes, Some(kind), n) == Some(k),
    decreases n,
{
    if k < n - 1 {
        assert(scopes[n - 1].kind != kind);
        lemma_to_close(scopes, kind, k, (n - 1) as nat);
    }
}

// ---------------------------------------------------------------------------
// Imports and bindings
// ---------------------------------------------------------------------------

/// `import` alone takes everything, and with a list behind it just the names of
/// the list.
pub proof fn law_import(
    word: Text,
    items: Seq<Padded>,
    line: usize,
    file: Text,
    scope: sm::Scope,
)
    requires
        st::lower(word) == "import"@,
        are_padded(items),
        items.len() > 0,
    ensures
        sp::parse_import(word, line, file, scope) matches Some(i) && i.kind == ImportKind::All
            && i.names == Seq::<Text>::empty() && i.scope == scope,
        sp::parse_import(
            word + (seq![':', ':'] + list_text(items)),
            line,
            file,
            scope,
        ) matches Some(i) && i.kind == ImportKind::Only && i.names == names(items),
{
    reveal_strlit("import");
    reveal_strlit("::");
    assert("::"@ =~= seq![':', ':']);
    lemma_lower_name(word, "import"@);
    assert(is_name_character(word[0]));
    let none = Seq::<char>::empty();
    law_keyword(none, word, "import"@, none);
    assert(none + word + none =~= word);
    law_trim_start(none, none);
    let tail = seq![':', ':'] + list_text(items);
    assert(tail[0] == ':');
    law_keyword(none, word, "import"@, tail);
    assert(none + word + tail =~= word + tail);
    law_trim_start(none, tail);
    assert(none + tail =~= tail);
    assert(tail.subrange(0, 2) =~= "::"@);
    assert(tail.skip(2) =~= list_text(items));
    law_names(items);
}

/// A generic binding binds its name to the procedures behind the arrow.
pub proof fn law_generic(
    word: Text,
    gap: Text,
    name: Text,
    gap2: Text,
    items: Seq<Padded>,
    line: usize,
    file: Text,
    scope: sm::Scope,
)
    requires
        st::lower(word) == "generic"@,
        all_space(gap),
        is_name(name),
        all_space(gap2),
        !st::starts_with(st::lower(name), "operator"@),
        !st::starts_with(st::lower(name), "assignment"@),
        are_padded(items),
        items.len() > 0,
    ensures
        sp::parse_generic_binding(
            word + (seq![':', ':'] + (gap + name + gap2 + seq!['=', '>'] + list_text(items))),
            line,
            file,
            scope,
        ) matches Some(g) && g.name == name && g.kind == GenericBindingKind::Named && g.procedures
            == names(items) && g.visibility is Default && g.scope == scope,
{
    reveal_strlit("generic");
    reveal_strlit("::");
    reveal_strlit("=>");
    reveal_strlit("private");
    reveal_strlit("public");
    assert("::"@ =~= seq![':', ':']);
    assert("=>"@ =~= seq!['=', '>']);
    lemma_lower_name(word, "generic"@);
    assert(is_name_character(word[0]));
    let none = Seq::<char>::empty();
    let lead = gap + name + gap2;
    let rhs = lead + seq!['=', '>'] + list_text(items);
    let tail = seq![':', ':'] + rhs;
    assert(tail[0] == ':');
    law_keyword(none, word, "generic"@, tail);
    assert(none + word + tail =~= word + tail);
    law_trim_start(none, tail);
    assert(none + tail =~= tail);
    lemma_split_two(none, ':', ':', rhs);
    assert(none + seq![':', ':'] + rhs =~= tail);
    assert(!lead.contains('=')) by {
        assert forall|i: int| 0 <= i < lead.len() implies lead[i] != '=' by {
            if i < gap.len() {
                assert(lead[i] == gap[i]);
            } else if i < gap.len() + name.len() {
                assert(lead[i] == name[i - gap.len()]);
                assert(is_name_character(lead[i]));
            } else {
                assert(lead[i] == gap2[i - gap.len() - name.len()]);
            }
        }
    }
    lemma_split_two(lead, '=', '>', list_text(items));
    assert(is_name_character(name[0]));
    assert(is_name_character(name.last()));
    law_trim(gap, name, gap2);
    law_first_name(none, name, none);
    assert(none + name + none =~= name);
    law_names(items);
    law_find(st::lower(none), "private"@);
    law_find(st::lower(none), "public"@);
    assert(st::lower(none).len() == 0);
}

// ---------------------------------------------------------------------------
// Members
// ---------------------------------------------------------------------------

proof fn lemma_receiver(before: Text, receiver: Text, j: int)
    requires
        is_name(receiver),
        before.len() > 0 ==> !is_name_character(before.last()),
        0 <= j <= receiver.len(),
    ensures
        st::name_begin(before + receiver, before.len() + j) == before.len(),
    decreases j,
{
    if j > 0 {
        assert((before + receiver)[before.len() + j - 1] == receiver[j - 1]);
        assert(is_name_character(receiver[j - 1]));
        lemma_receiver(before, receiver, j - 1);
    } else if before.len() > 0 {
        assert((before + receiver)[before.len() - 1] == before.last());
    }
}

/// Behind `%` or a point, a name is a member of what stands before that sign.
pub proof fn law_member(
    before: Text,
    receiver: Text,
    gap: Text,
    sign: char,
    gap2: Text,
    behind: Text,
    member: Text,
)
    requires
        before.len() > 0 ==> !is_name_character(before.last()),
        is_name(receiver),
        all_space(gap),
        sign == '%' || sign == '.',
        all_space(gap2),
    ensures
        ({
            let head = before + receiver + gap + seq![sign] + gap2;
            su::member_access_before(head + behind, head.len() as int, member) == Some(
                su::MemberAccess { receiver, member },
            )
        }),
{
    let head = before + receiver + gap + seq![sign] + gap2;
    let line = head + behind;
    assert(line.take(head.len() as int) =~= head);
    let left = before + receiver + gap + seq![sign];
    assert(head =~= left + gap2);
    assert(left.last() == sign);
    law_trim_end(left, gap2);
    assert(left.drop_last() =~= before + receiver + gap);
    let prefix = before + receiver;
    assert(prefix.last() == receiver.last());
    assert(is_name_character(receiver.last()));
    law_trim_end(prefix, gap);
    assert(before + receiver + gap =~= prefix + gap);
    lemma_receiver(before, receiver, receiver.len() as int);
    assert(prefix.skip(before.len() as int) =~= receiver);
}

/// A name behind anything else is a member of nothing.
pub proof fn law_no_member(head: Text, gap: Text, behind: Text, member: Text)
    requires
        head.len() == 0 || (!st::is_space(head.last()) && head.last() != '%' && head.last() != '.'),
        all_space(gap),
    ensures
        su::member_access_before(head + gap + behind, (head + gap).len() as int, member) is None,
{
    let line = head + gap + behind;
    assert(line.take((head + gap).len() as int) =~= head + gap);
    if head.len() > 0 {
        law_trim_end(head, gap);
    } else {
        law_trim_end(Seq::empty(), gap);
        assert(head + gap =~= Seq::<char>::empty() + gap);
    }
}

} // verus!
