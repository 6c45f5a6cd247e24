//! Statements as they are written, and what is read out of them.

use vstd::prelude::*;

use crate::laws::nesting::{has_no_delimiter, is_delimiter, law_split_plain};
use crate::laws::nesting::lemma_find_char;
use crate::laws::text::{
    all_space, ends_name, is_name, is_name_character, is_trimmed, law_first_name, law_keyword,
    law_trim, law_trim_start, lemma_trimmed, starts_solid,
};
use crate::model::Visibility;
use crate::spec::model as sm;
use crate::spec::scan as ss;
use crate::spec::statement as sp;
use crate::spec::text as st;
use crate::spec::text::Text;

verus! {

// ---------------------------------------------------------------------------
// Searching
// ---------------------------------------------------------------------------

/// The first occurrence of a text is one, and there is none before it.
pub proof fn law_find(s: Text, p: Text)
    ensures
        match st::find(s, p) {
            Some(k) => st::occurs_at(s, p, k) && forall|j: int|
                0 <= j < k ==> !#[trigger] st::occurs_at(s, p, j),
            None => forall|j: int| !#[trigger] st::occurs_at(s, p, j),
        },
{
    lemma_find_is(s, p, 0);
}

proof fn lemma_find_is(s: Text, p: Text, i: int)
    requires
        0 <= i,
    ensures
        match st::find_from(s, p, i) {
            Some(k) => i <= k && st::occurs_at(s, p, k) && forall|j: int|
                i <= j < k ==> !#[trigger] st::occurs_at(s, p, j),
            None => forall|j: int| i <= j ==> !#[trigger] st::occurs_at(s, p, j),
        },
    decreases s.len() + 1 - i,
{
    if i + p.len() <= s.len() && !st::occurs_at(s, p, i) {
        lemma_find_is(s, p, i + 1);
    }
}

/// The first occurrence is found where there is none before it.
pub proof fn lemma_found_at(s: Text, p: Text, k: int)
    requires
        st::occurs_at(s, p, k),
        forall|j: int| 0 <= j < k ==> !#[trigger] st::occurs_at(s, p, j),
    ensures
        st::find(s, p) == Some(k),
{
    law_find(s, p);
}

/// A text splits at the first occurrence of two characters.
pub proof fn lemma_split_two(before: Text, a: char, b: char, behind: Text)
    requires
        !before.contains(a),
    ensures
        st::split_once(before + seq![a, b] + behind, seq![a, b]) == Some((before, behind)),
{
    let p = seq![a, b];
    let s = before + p + behind;
    let k = before.len() as int;
    assert(s.subrange(k, k + 2) =~= p);
    assert forall|j: int| 0 <= j < k implies !#[trigger] st::occurs_at(s, p, j) by {
        if st::occurs_at(s, p, j) {
            assert(s.subrange(j, j + 2)[0] == p[0]);
            assert(before[j] == a);
        }
    }
    lemma_found_at(s, p, k);
    assert(s.take(k) =~= before);
    assert(s.skip(k + 2) =~= behind);
}

// ---------------------------------------------------------------------------
// Lists of names
// ---------------------------------------------------------------------------

/// A name and the white space around it.
pub type Padded = (Text, Text, Text);

pub open spec fn is_padded(item: Padded) -> bool {
    all_space(item.0) && is_name(item.1) && all_space(item.2)
}

pub open spec fn are_padded(items: Seq<Padded>) -> bool {
    forall|k: int| 0 <= k < items.len() ==> is_padded(#[trigger] items[k])
}

/// The texts of names with white space around them.
pub open spec fn texts(items: Seq<Padded>) -> Seq<Text> {
    Seq::new(items.len(), |k: int| items[k].0 + items[k].1 + items[k].2)
}

/// The names.
pub open spec fn names(items: Seq<Padded>) -> Seq<Text> {
    Seq::new(items.len(), |k: int| items[k].1)
}

/// A list of names with commas between them.
pub open spec fn list_text(items: Seq<Padded>) -> Text {
    st::join(texts(items), seq![','])
}

proof fn lemma_no_operator(name: Text, keyword: Text)
    requires
        is_name(name),
    ensures
        sp::operator_item(name, keyword) is None,
{
    if name.len() >= keyword.len() {
        let rest = name.skip(keyword.len() as int);
        if rest.len() > 0 {
            assert(rest[0] == name[keyword.len() as int]);
            assert(is_name_character(rest[0]));
        }
        law_trim_start(Seq::empty(), rest);
        assert(Seq::<char>::empty() + rest =~= rest);
    }
}

/// The name in an item of a list is found, whatever white space stands around it.
pub proof fn lemma_item_name(item: Padded)
    requires
        is_padded(item),
    ensures
        sp::use_or_visibility_name(item.0 + item.1 + item.2) == Some(item.1),
        sp::use_or_visibility_name(st::trim(item.0 + item.1 + item.2)) == Some(item.1),
        st::trim(item.0 + item.1 + item.2) == item.1,
        st::trim(item.1) == item.1,
{
    let name = item.1;
    assert(is_name_character(name[0]));
    assert(is_name_character(name.last()));
    law_trim(item.0, name, item.2);
    lemma_trimmed(name);
    assert(st::after_char(name, '&', 0) == 0);
    assert(name.skip(0) =~= name);
    reveal_strlit("operator");
    reveal_strlit("assignment");
    lemma_no_operator(name, "operator"@);
    lemma_no_operator(name, "assignment"@);
    law_first_name(Seq::empty(), name, Seq::empty());
    assert(Seq::<char>::empty() + name + Seq::empty() =~= name);
}

proof fn lemma_padded_plain(item: Padded)
    requires
        is_padded(item),
    ensures
        has_no_delimiter(item.0 + item.1 + item.2),
        !(item.0 + item.1 + item.2).contains(','),
{
    let t = item.0 + item.1 + item.2;
    assert forall|i: int| 0 <= i < t.len() implies !is_delimiter(#[trigger] t[i]) && t[i]
        != ',' by {
        if i < item.0.len() {
            assert(t[i] == item.0[i]);
        } else if i < item.0.len() + item.1.len() {
            assert(t[i] == item.1[i - item.0.len()]);
            assert(is_name_character(t[i]));
        } else {
            assert(t[i] == item.2[i - item.0.len() - item.1.len()]);
        }
    }
}

pub proof fn lemma_list_split(items: Seq<Padded>)
    requires
        are_padded(items),
        items.len() > 0,
    ensures
        ss::split_top_level_commas(list_text(items)) == texts(items),
{
    assert forall|k: int| 0 <= k < texts(items).len() implies has_no_delimiter(
        #[trigger] texts(items)[k],
    ) && !texts(items)[k].contains(',') by {
        assert(is_padded(items[k]));
        lemma_padded_plain(items[k]);
    }
    law_split_plain(texts(items));
}

proof fn lemma_names(items: Seq<Padded>, i: int, out: Seq<Text>)
    requires
        are_padded(items),
        0 <= i <= items.len(),
    ensures
        sp::names_from(texts(items), i, out) == out + names(items).skip(i),
    decreases items.len() - i,
{
    if i < items.len() {
        assert(is_padded(items[i]));
        lemma_item_name(items[i]);
        lemma_names(items, i + 1, out.push(items[i].1));
        assert(out.push(items[i].1) + names(items).skip(i + 1) =~= out + names(items).skip(i));
    } else {
        assert(out + names(items).skip(i) =~= out);
    }
}

/// The names of a list are those between its commas, in order.
pub proof fn law_names(items: Seq<Padded>)
    requires
        are_padded(items),
        items.len() > 0,
    ensures
        sp::split_names(list_text(items)) == names(items),
        sp::split_names(st::trim_start(list_text(items))) == names(items),
{
    lemma_list_split(items);
    lemma_names(items, 0, Seq::empty());
    assert(Seq::empty() + names(items).skip(0) =~= names(items));
    let first = (Seq::<char>::empty(), items[0].1, items[0].2);
    let rest = items.update(0, first);
    assert(is_padded(items[0]));
    assert forall|k: int| 0 <= k < rest.len() implies is_padded(#[trigger] rest[k]) by {
        if k > 0 {
            assert(is_padded(items[k]));
        }
    }
    lemma_first(items, rest);
    assert(is_name_character(items[0].1[0]));
    lemma_starts(rest);
    law_trim_start(items[0].0, list_text(rest));
    lemma_list_split(rest);
    lemma_names(rest, 0, Seq::empty());
    assert(names(rest) =~= names(items));
}

/// A list without the white space at its start.
proof fn lemma_first(items: Seq<Padded>, rest: Seq<Padded>)
    requires
        items.len() > 0,
        rest == items.update(0, (Seq::<char>::empty(), items[0].1, items[0].2)),
    ensures
        list_text(items) == items[0].0 + list_text(rest),
    decreases items.len(),
{
    if items.len() == 1 {
        assert(texts(items)[0] =~= items[0].0 + texts(rest)[0]);
    } else {
        let a = items.drop_last();
        let b = rest.drop_last();
        assert(b =~= a.update(0, (Seq::<char>::empty(), a[0].1, a[0].2)));
        lemma_first(a, b);
        assert(texts(items).drop_last() =~= texts(a));
        assert(texts(rest).drop_last() =~= texts(b));
        assert(texts(items).last() == texts(rest).last());
        assert(list_text(items) =~= items[0].0 + list_text(rest));
    }
}

/// A list starts with its first item.
proof fn lemma_starts(items: Seq<Padded>)
    requires
        items.len() > 0,
        items[0].0.len() == 0,
        items[0].1.len() > 0,
    ensures
        list_text(items).len() > 0,
        list_text(items)[0] == items[0].1[0],
    decreases items.len(),
{
    assert(texts(items)[0] =~= items[0].1 + items[0].2);
    if items.len() > 1 {
        let a = items.drop_last();
        lemma_starts(a);
        assert(texts(items).drop_last() =~= texts(a));
    }
}

/// An operator or an assignment in a list is named by its keyword and what stands
/// in its parentheses.
pub proof fn law_operator_name(before: Text, word: Text, gap: Text, inner: Text, after: Text)
    requires
        all_space(before),
        all_space(gap),
        all_space(after),
        st::lower(word) == "operator"@ || st::lower(word) == "assignment"@,
        !inner.contains('('),
        !inner.contains(')'),
    ensures
        sp::use_or_visibility_name(before + (word + gap + seq!['('] + inner + seq![')']) + after)
            == Some(st::lower(word) + st::squeeze(seq!['('] + inner + seq![')'])),
{
    reveal_strlit("operator");
    reveal_strlit("assignment");
    assert(st::lower(word).len() == word.len());
    let group = seq!['('] + inner + seq![')'];
    let item = word + gap + seq!['('] + inner + seq![')'];
    assert(item =~= word + (gap + group));
    assert(st::lower(word)[0] == st::lower_char(word[0]));
    assert(item[0] == word[0]);
    assert(item.last() == ')');
    law_trim(before, item, after);
    lemma_trimmed(item);
    assert(st::after_char(item, '&', 0) == 0);
    assert(item.skip(0) =~= item);
    let k = word.len() as int;
    assert(item.take(k) =~= word);
    assert(item.skip(k) =~= gap + group);
    assert(group[0] == '(');
    law_trim_start(gap, group);
    lemma_closes(inner);
    assert(group.take(group.len() as int) =~= group);
    if st::lower(word) == "operator"@ {
        lemma_lower_twice(word);
    } else {
        lemma_lower_twice(word);
        assert(item.take(8)[0] == word[0]);
        assert(st::lower(item.take(8))[0] == st::lower_char(word[0]));
        assert(st::lower("operator"@)[0] == 'o');
    }
}

proof fn lemma_lower_twice(word: Text)
    ensures
        st::lower(st::lower(word)) == st::lower(word),
{
    assert(st::lower(st::lower(word)) =~= st::lower(word)) by {
        assert forall|i: int| 0 <= i < word.len() implies st::lower(st::lower(word))[i]
            == st::lower(
            word,
        )[i] by {
            lemma_lower_char(word[i]);
        }
    }
}

proof fn lemma_lower_char(c: char)
    ensures
        st::lower_char(st::lower_char(c)) == st::lower_char(c),
{
}

proof fn lemma_closes(inner: Text)
    requires
        !inner.contains('('),
        !inner.contains(')'),
    ensures
        ss::matching_paren_index(seq!['('] + inner + seq![')'], 0) == Some(inner.len() + 1int),
{
    let s = seq!['('] + inner + seq![')'];
    lemma_closes_from(s, inner, 0);
    assert(s[0] == '(');
}

proof fn lemma_closes_from(s: Text, inner: Text, i: int)
    requires
        s == seq!['('] + inner + seq![')'],
        !inner.contains('('),
        !inner.contains(')'),
        0 <= i <= inner.len(),
    ensures
        ss::closing_from(s, i + 1, 1) == Some(inner.len() + 1int),
    decreases inner.len() - i,
{
    if i < inner.len() {
        assert(s[i + 1] == inner[i]);
        assert(inner.contains(inner[i]));
        lemma_closes_from(s, inner, i + 1);
    } else {
        assert(s[i + 1] == ')');
    }
}

// ---------------------------------------------------------------------------
// Modules that are used
// ---------------------------------------------------------------------------

/// `use` and the name of a module takes everything from that module.
pub proof fn law_use(
    before: Text,
    word: Text,
    space: Text,
    module: Text,
    behind: Text,
    line: usize,
    file: Text,
    scope: sm::Scope,
)
    requires
        all_space(before),
        st::lower(word) == "use"@,
        all_space(space),
        space.len() > 0,
        is_name(module),
        ends_name(behind),
    ensures
        ({
            let r = sp::parse_use(before + word + (space + (module + behind)), line, file, scope);
            &&& r matches Some(u) && u.module == module && !u.intrinsic && u.scope == scope
                && u.file == file
            &&& (forall|j: int|
                !#[trigger] st::occurs_at(st::lower(module + behind), "only"@, j)) ==> r->0.only
                == Seq::<Text>::empty() && r->0.renames == Seq::<sm::UseRename>::empty()
        }),
{
    lemma_use_head(before, word, space, module + behind);
    assert((module + behind)[0] == module[0]);
    assert(is_name_character(module[0]));
    law_trim_start(space, module + behind);
    law_first_name(Seq::empty(), module, behind);
    assert(Seq::<char>::empty() + module + behind =~= module + behind);
    law_find(st::lower(module + behind), "only"@);
}

proof fn lemma_use_head(before: Text, word: Text, space: Text, rest: Text)
    requires
        all_space(before),
        st::lower(word) == "use"@,
        all_space(space),
        space.len() > 0 || (rest.len() > 0 && rest[0] == ','),
    ensures
        st::after_keyword(before + word + (space + rest), "use"@) == Some(space + rest),
{
    reveal_strlit("use");
    assert(st::lower(word).len() == word.len());
    assert(st::lower(word)[0] == st::lower_char(word[0]));
    if space.len() > 0 {
        assert((space + rest)[0] == space[0]);
    } else {
        assert((space + rest)[0] == rest[0]);
    }
    lemma_lower_twice(word);
    law_keyword(before, word, "use"@, space + rest);
}

/// `use, intrinsic ::` takes the module of the processor, `use, non_intrinsic ::`
/// and `use ::` the other one.
pub proof fn law_use_nature(
    before: Text,
    word: Text,
    space: Text,
    gap: Text,
    nature: Text,
    gap2: Text,
    gap3: Text,
    module: Text,
    behind: Text,
    line: usize,
    file: Text,
    scope: sm::Scope,
)
    requires
        all_space(before),
        st::lower(word) == "use"@,
        all_space(space),
        all_space(gap),
        all_space(gap2),
        all_space(gap3),
        is_name(nature),
        st::lower(nature) == "intrinsic"@ || st::lower(nature) == "non_intrinsic"@,
        is_name(module),
        ends_name(behind),
    ensures
        ({
            let r = sp::parse_use(
                before + word + (space + (seq![','] + gap + nature + gap2 + seq![':', ':'] + (gap3
                    + module + behind))),
                line,
                file,
                scope,
            );
            r matches Some(u) && u.module == module && u.intrinsic == (st::lower(nature)
                == "intrinsic"@)
        }),
{
    reveal_strlit("intrinsic");
    reveal_strlit("non_intrinsic");
    reveal_strlit("::");
    assert("::"@ =~= seq![':', ':']);
    assert("intrinsic"@.len() != "non_intrinsic"@.len());
    let tail = gap3 + module + behind;
    let lead = seq![','] + gap + nature + gap2;
    let head = lead + seq![':', ':'] + tail;
    assert(seq![','] + gap + nature + gap2 + seq![':', ':'] + (gap3 + module + behind) =~= head);
    assert(head[0] == ',');
    lemma_use_head(before, word, space, head);
    law_trim_start(space, head);
    let after = gap + (nature + gap2 + seq![':', ':'] + tail);
    assert(head.skip(1) =~= after);
    let rest = nature + gap2 + seq![':', ':'] + tail;
    assert(rest[0] == nature[0]);
    assert(is_name_character(nature[0]));
    law_trim_start(gap, rest);
    let end = gap2 + seq![':', ':'] + tail;
    assert(rest =~= Seq::<char>::empty() + nature + end);
    assert(end[0] == if gap2.len() > 0 {
        gap2[0]
    } else {
        ':'
    });
    law_first_name(Seq::empty(), nature, end);
    lemma_lower_twice(nature);
    lemma_lower_twice("intrinsic"@);
    assert(st::lower("intrinsic"@) =~= "intrinsic"@);
    assert(st::lower("non_intrinsic"@) =~= "non_intrinsic"@);
    assert(!lead.contains(':')) by {
        assert forall|i: int| 0 <= i < lead.len() implies lead[i] != ':' by {
            if 1 <= i < 1 + gap.len() {
                assert(lead[i] == gap[i - 1]);
            } else if 1 + gap.len() <= i < 1 + gap.len() + nature.len() {
                assert(lead[i] == nature[i - 1 - gap.len()]);
                assert(is_name_character(lead[i]));
            } else if i >= 1 + gap.len() + nature.len() {
                assert(lead[i] == gap2[i - 1 - gap.len() - nature.len()]);
            }
        }
    }
    lemma_split_two(lead, ':', ':', tail);
    assert forall|i: int| 0 <= i < gap3.len() implies !(is_name_character(#[trigger] gap3[i])
        && !('0' <= gap3[i] <= '9')) by {}
    law_first_name(gap3, module, behind);
}

/// `only:` takes just the names of its list.
pub proof fn law_use_only(
    before: Text,
    word: Text,
    space: Text,
    module: Text,
    middle: Text,
    only: Text,
    gap: Text,
    items: Seq<Padded>,
    line: usize,
    file: Text,
    scope: sm::Scope,
)
    requires
        all_space(before),
        st::lower(word) == "use"@,
        all_space(space),
        space.len() > 0,
        is_name(module),
        middle.len() > 0,
        ends_name(middle),
        st::lower(only) == "only"@,
        all_space(gap),
        are_padded(items),
        items.len() > 0,
        forall|j: int|
            0 <= j < module.len() + middle.len() ==> !#[trigger] st::occurs_at(
                st::lower(module + middle + only + gap + seq![':'] + list_text(items)),
                "only"@,
                j,
            ),
    ensures
        ({
            let rest = module + middle + only + gap + seq![':'] + list_text(items);
            let r = sp::parse_use(before + word + (space + rest), line, file, scope);
            r matches Some(u) && u.module == module && u.only == names(items) && u.renames
                == Seq::<sm::UseRename>::empty()
        }),
{
    let rest = module + middle + only + gap + seq![':'] + list_text(items);
    lemma_only(module + middle, only, gap, list_text(items));
    let behind = middle + only + gap + seq![':'] + list_text(items);
    assert(rest =~= module + behind);
    assert(behind[0] == middle[0]);
    law_use(before, word, space, module, behind, line, file, scope);
    lemma_use_head(before, word, space, rest);
    assert(rest[0] == module[0]);
    assert(is_name_character(module[0]));
    law_trim_start(space, rest);
    lemma_list_split(items);
    lemma_only_names(items, 0, Seq::empty());
    lemma_no_renames(items, 0);
    assert(Seq::empty() + names(items).skip(0) =~= names(items));
}

proof fn lemma_only(lead: Text, only: Text, gap: Text, list: Text)
    requires
        st::lower(only) == "only"@,
        all_space(gap),
        forall|j: int|
            0 <= j < lead.len() ==> !#[trigger] st::occurs_at(
                st::lower(lead + only + gap + seq![':'] + list),
                "only"@,
                j,
            ),
    ensures
        sp::only_part(lead + only + gap + seq![':'] + list) == Some(list),
{
    reveal_strlit("only");
    let rest = lead + only + gap + seq![':'] + list;
    let k = lead.len() as int;
    assert(st::lower(only).len() == only.len());
    assert(rest.subrange(k, k + 4) =~= only);
    assert(st::lower(rest).subrange(k, k + 4) =~= st::lower(only));
    lemma_found_at(st::lower(rest), "only"@, k);
    let tail = rest.skip(k);
    assert(tail =~= (only + gap) + seq![':'] + list);
    assert(!(only + gap).contains(':')) by {
        assert forall|i: int| 0 <= i < (only + gap).len() implies (only + gap)[i] != ':' by {
            if i < only.len() {
                assert(st::lower(only)[i] == st::lower_char(only[i]));
            } else {
                assert((only + gap)[i] == gap[i - only.len()]);
            }
        }
    }
    lemma_find_char(only + gap, ':', list, 0);
    assert(tail.skip((only + gap).len() + 1int) =~= list);
}

proof fn lemma_no_arrow(item: Padded)
    requires
        is_padded(item),
    ensures
        st::split_once(item.1, "=>"@) is None,
{
    reveal_strlit("=>");
    law_find(item.1, "=>"@);
    if let Some(k) = st::find(item.1, "=>"@) {
        assert(item.1.subrange(k, k + 2)[0] == '=');
        assert(is_name_character(item.1[k]));
    }
}

proof fn lemma_only_names(items: Seq<Padded>, i: int, out: Seq<Text>)
    requires
        are_padded(items),
        0 <= i <= items.len(),
    ensures
        sp::only_names_from(texts(items), i, out) == out + names(items).skip(i),
    decreases items.len() - i,
{
    if i < items.len() {
        assert(is_padded(items[i]));
        lemma_item_name(items[i]);
        lemma_no_arrow(items[i]);
        lemma_only_names(items, i + 1, out.push(items[i].1));
        assert(out.push(items[i].1) + names(items).skip(i + 1) =~= out + names(items).skip(i));
    } else {
        assert(out + names(items).skip(i) =~= out);
    }
}

proof fn lemma_no_renames(items: Seq<Padded>, i: int)
    requires
        are_padded(items),
        0 <= i <= items.len(),
    ensures
        sp::renames_from(texts(items), i, Seq::empty()) == Seq::<sm::UseRename>::empty(),
    decreases items.len() - i,
{
    if i < items.len() {
        assert(is_padded(items[i]));
        lemma_item_name(items[i]);
        lemma_no_arrow(items[i]);
        lemma_no_renames(items, i + 1);
    }
}

/// An item with an arrow gives the thing on its right side the name on its left
/// side.
pub proof fn law_rename_item(local: Padded, remote: Padded)
    requires
        is_padded(local),
        is_padded(remote),
    ensures
        ({
            let item = local.0 + local.1 + local.2 + seq!['=', '>'] + (remote.0 + remote.1
                + remote.2);
            &&& sp::use_rename(item) == Some(
                sm::UseRename { local: local.1, remote: remote.1 },
            )
            &&& sp::use_or_visibility_name(sp::local_part(st::trim(item))) == Some(local.1)
        }),
{
    reveal_strlit("=>");
    assert("=>"@ =~= seq!['=', '>']);
    let item = local.0 + local.1 + local.2 + seq!['=', '>'] + (remote.0 + remote.1 + remote.2);
    let none = Seq::<char>::empty();
    let core = (local.1 + local.2) + seq!['=', '>'] + (remote.0 + remote.1);
    assert(item =~= local.0 + core + remote.2);
    assert(core[0] == local.1[0]);
    assert(core.last() == remote.1.last());
    assert(is_name_character(local.1[0]));
    assert(is_name_character(remote.1.last()));
    law_trim(local.0, core, remote.2);
    assert(!(local.1 + local.2).contains('=')) by {
        assert forall|i: int| 0 <= i < (local.1 + local.2).len() implies (local.1 + local.2)[i]
            != '=' by {
            if i < local.1.len() {
                assert(is_name_character(local.1[i]));
            } else {
                assert((local.1 + local.2)[i] == local.2[i - local.1.len()]);
            }
        }
    }
    lemma_split_two(local.1 + local.2, '=', '>', remote.0 + remote.1);
    lemma_item_name((none, local.1, local.2));
    assert(none + local.1 + local.2 =~= local.1 + local.2);
    lemma_item_name((remote.0, remote.1, none));
    assert(remote.0 + remote.1 + none =~= remote.0 + remote.1);
}

// ---------------------------------------------------------------------------
// Visibility
// ---------------------------------------------------------------------------

/// `public` and `private` with a list make the names of the list so, with colons
/// or without; alone they speak of everything.
pub proof fn law_visibility(
    before: Text,
    word: Text,
    space: Text,
    colons: Text,
    items: Seq<Padded>,
    after: Text,
    line: usize,
    file: Text,
    scope: sm::Scope,
)
    requires
        all_space(before),
        st::lower(word) == "public"@ || st::lower(word) == "private"@,
        all_space(space),
        colons == seq![':', ':'] || (colons == Seq::<char>::empty() && space.len() > 0),
        are_padded(items),
        items.len() > 0,
        is_trimmed(word + (space + (colons + list_text(items)))),
        all_space(after),
    ensures
        ({
            let code = before + (word + (space + (colons + list_text(items)))) + after;
            sp::parse_visibility(code, line, file, scope) matches Some(v) && v.names == names(items)
                && v.visibility == (if st::lower(word) == "public"@ {
                Visibility::Public
            } else {
                Visibility::Private
            }) && v.scope == scope && v.file == file
        }),
        sp::parse_visibility(before + word + after, line, file, scope) matches Some(v) && v.names
            == Seq::<Text>::empty() && v.visibility == (if st::lower(word) == "public"@ {
            Visibility::Public
        } else {
            Visibility::Private
        }),
{
    reveal_strlit("public");
    reveal_strlit("private");
    reveal_strlit("::");
    assert("::"@ =~= seq![':', ':']);
    assert("public"@.len() != "private"@.len());
    assert(st::lower(word).len() == word.len());
    assert(st::lower(word)[0] == st::lower_char(word[0]));
    assert(st::lower(word)[word.len() - 1] == st::lower_char(word.last()));
    lemma_lower_twice(word);
    assert(st::lower("public"@) =~= "public"@);
    assert(st::lower("private"@) =~= "private"@);
    let none = Seq::<char>::empty();
    let list = colons + list_text(items);
    let tail = space + list;
    let core = word + tail;
    assert(is_padded(items[0]));
    law_trim(before, core, after);
    law_trim(before, word, after);
    assert(none + word + tail =~= core);
    assert(none + word + none =~= word);
    assert(ends_name(tail)) by {
        if space.len() > 0 {
            assert(tail[0] == space[0]);
        } else {
            assert(tail[0] == colons[0]);
        }
    }
    if st::lower(word) == "public"@ {
        law_keyword(none, word, "public"@, tail);
        law_keyword(none, word, "public"@, none);
    } else {
        assert(!st::same(core.take(6), "public"@)) by {
            assert(st::lower(core.take(6))[1] == st::lower_char(core[1]));
            assert(core[1] == word[1]);
            assert(st::lower(word)[1] == st::lower_char(word[1]));
        }
        assert(!st::same(word.take(6), "public"@)) by {
            assert(st::lower(word.take(6))[1] == st::lower_char(word[1]));
            assert(st::lower(word)[1] == st::lower_char(word[1]));
        }
        lemma_trimmed(core);
        lemma_trimmed(word);
        law_keyword(none, word, "private"@, tail);
        law_keyword(none, word, "private"@, none);
    }
    law_trim_start(none, none);
    law_names(items);
    if colons.len() > 0 {
        assert(list[0] == ':');
        law_trim_start(space, list);
        assert(list.subrange(0, 2) =~= "::"@);
        assert(list.skip(2) =~= list_text(items));
    } else {
        assert(list =~= list_text(items));
        lemma_first(items, items.update(0, (none, items[0].1, items[0].2)));
        let rest = items.update(0, (none, items[0].1, items[0].2));
        lemma_starts(rest);
        assert(is_name_character(items[0].1[0]));
        law_trim_start(space + items[0].0, list_text(rest));
        assert(tail =~= (space + items[0].0) + list_text(rest));
        law_trim_start(items[0].0, list_text(rest));
        law_trim_start(none, list_text(rest));
        assert(none + list_text(rest) =~= list_text(rest));
        assert(!st::starts_with(list_text(rest), "::"@)) by {
            if st::starts_with(list_text(rest), "::"@) {
                assert(list_text(rest).subrange(0, 2)[0] == ':');
            }
        }
    }
}

// ---------------------------------------------------------------------------
// Paths
// ---------------------------------------------------------------------------

/// `include` takes the path between its quotes.
pub proof fn law_include_statement(
    before: Text,
    word: Text,
    space: Text,
    quote: char,
    path: Text,
    behind: Text,
    line: usize,
    file: Text,
    scope: sm::Scope,
)
    requires
        all_space(before),
        st::lower(word) == "include"@,
        all_space(space),
        quote == '\'' || quote == '"',
        !path.contains(quote),
    ensures
        sp::parse_include(
            before + word + (space + (seq![quote] + path + seq![quote] + behind)),
            line,
            file,
            scope,
        ) matches Some(i) && i.path == path && i.file == file && i.scope == scope,
{
    reveal_strlit("include");
    assert(st::lower(word).len() == word.len());
    assert(st::lower(word)[0] == st::lower_char(word[0]));
    lemma_lower_twice(word);
    assert(st::lower("include"@) =~= "include"@);
    let quoted = seq![quote] + path + seq![quote] + behind;
    let tail = space + quoted;
    let core = word + tail;
    let none = Seq::<char>::empty();
    assert(before + word + tail =~= before + core);
    assert(core[0] == word[0]);
    law_trim_start(before, core);
    assert(tail[0] == if space.len() > 0 {
        space[0]
    } else {
        quote
    });
    law_keyword(none, word, "include"@, tail);
    assert(none + word + tail =~= core);
    assert(quoted[0] == quote);
    law_trim_start(space, quoted);
    let rest = quoted.skip(1);
    assert(rest =~= path + seq![quote] + behind);
    lemma_find_char(path, quote, behind, 0);
    assert(rest.take(path.len() as int) =~= path);
}

/// `implicit none` says that names need a declaration; another `implicit` does
/// not.
pub proof fn law_implicit(before: Text, word: Text, space: Text, rest: Text)
    requires
        all_space(before),
        st::lower(word) == "implicit"@,
        all_space(space),
        space.len() > 0,
        starts_solid(rest),
    ensures
        sp::implicit_none_statement(before + word + (space + rest))
            == (rest.len() >= 4 && st::lower(
            rest.take(4),
        ) == "none"@),
{
    reveal_strlit("implicit");
    reveal_strlit("none");
    assert(st::lower(word).len() == word.len());
    assert(st::lower(word)[0] == st::lower_char(word[0]));
    lemma_lower_twice(word);
    assert(st::lower("implicit"@) =~= "implicit"@);
    assert((space + rest)[0] == space[0]);
    law_keyword(before, word, "implicit"@, space + rest);
    law_trim_start(space, rest);
    assert(st::lower(rest).len() == rest.len());
    if rest.len() >= 4 {
        assert(st::lower(rest).subrange(0, 4) =~= st::lower(rest.take(4)));
    }
}

} // verus!
