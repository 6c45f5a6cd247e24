//! Storage statements, enumerators and statement functions as they are written.

use vstd::prelude::*;

use crate::laws::declarations::{has_arrow, is_item, item_text, lemma_items, Item};
use crate::laws::nesting::{are_parts, law_split_commas, show, shown, Nest};
use crate::laws::nesting::lemma_find_char;
use crate::laws::statements::lemma_split_two;
use crate::laws::text::{
    all_space, is_name, is_name_character, is_trimmed, law_keyword, law_trim, lemma_trimmed,
};
use crate::laws::units::lemma_lower_name;
use crate::spec::declaration as sd;
use crate::spec::model as sm;
use crate::spec::scan as ss;
use crate::spec::text as st;
use crate::spec::text::Text;

verus! {

// ---------------------------------------------------------------------------
// Groups between slashes
// ---------------------------------------------------------------------------

/// How many parentheses are open behind the first `i` characters.
pub open spec fn level(s: Text, i: int) -> nat
    decreases i,
{
    if i <= 0 {
        0
    } else {
        let before = level(s, i - 1);
        if s[i - 1] == '(' {
            before + 1
        } else if s[i - 1] == ')' {
            if before == 0 {
                0
            } else {
                (before - 1) as nat
            }
        } else {
            before
        }
    }
}

/// A group: the name between its slashes with white space around it, and what
/// follows.
pub struct Group {
    pub before: Text,
    pub name: Text,
    pub after: Text,
    pub items: Text,
}

pub open spec fn is_group(g: Group) -> bool {
    &&& all_blank(g.before)
    &&& is_name(g.name)
    &&& all_blank(g.after)
    &&& !g.items.contains('/')
    &&& level(g.items, g.items.len() as int) == 0
    &&& (g.before + g.name + g.after).len() <= usize::MAX
}

/// Whether a text is made of blanks.
pub open spec fn all_blank(s: Text) -> bool {
    forall|i: int| 0 <= i < s.len() ==> #[trigger] s[i] == ' '
}

pub open spec fn group_text(g: Group) -> Text {
    seq!['/'] + (g.before + g.name + g.after) + seq!['/'] + g.items
}

pub open spec fn groups_text(list: Seq<Group>) -> Text
    decreases list.len(),
{
    if list.len() == 0 {
        Seq::empty()
    } else {
        group_text(list[0]) + groups_text(list.skip(1))
    }
}

pub open spec fn groups_of(list: Seq<Group>) -> Seq<ss::SlashGroup> {
    Seq::new(list.len(), |k: int| (Some(list[k].name), list[k].items))
}

proof fn lemma_ascii(s: Text, i: int)
    requires
        forall|k: int| 0 <= k < s.len() ==> st::byte_width(#[trigger] s[k]) == 1,
        0 <= i <= s.len(),
    ensures
        st::byte_len(s.take(i)) == i,
    decreases i,
{
    if i > 0 {
        lemma_ascii(s, i - 1);
        assert(s.take(i).drop_last() =~= s.take(i - 1));
        assert(s.take(i).last() == s[i - 1]);
    } else {
        assert(s.take(0).len() == 0);
    }
}

proof fn lemma_items_run(
    s: Text,
    from: int,
    items: Text,
    i: int,
    block: Option<Text>,
    out: Seq<ss::SlashGroup>,
)
    requires
        0 <= from,
        from + items.len() <= s.len(),
        s.subrange(from, from + items.len()) == items,
        !items.contains('/'),
        0 <= i <= items.len(),
    ensures
        ss::slash_groups_from(s, from + i, level(items, i), block, items.take(i), out)
            == ss::slash_groups_from(
            s,
            from + items.len(),
            level(items, items.len() as int),
            block,
            items,
            out,
        ),
    decreases items.len() - i,
{
    if i < items.len() {
        assert(s.subrange(from, from + items.len())[i] == s[from + i]);
        assert(items.contains(items[i]));
        assert(items.take(i).push(items[i]) =~= items.take(i + 1));
        assert(level(items, i + 1) == ss::depth_step(level(items, i), items[i]));
        lemma_items_run(s, from, items, i + 1, block, out);
    } else {
        assert(items.take(i) =~= items);
    }
}

#[verifier::rlimit(60)]
proof fn lemma_groups(
    s: Text,
    i: int,
    list: Seq<Group>,
    block: Option<Text>,
    items: Text,
    out: Seq<ss::SlashGroup>,
)
    requires
        0 <= i <= s.len(),
        s.skip(i) == groups_text(list),
        forall|k: int| 0 <= k < list.len() ==> is_group(#[trigger] list[k]),
    ensures
        ss::slash_groups_from(s, i, 0, block, items, out) == ss::close_group(block, items, out)
            + groups_of(list),
    decreases list.len(),
{
    let closed = ss::close_group(block, items, out);
    if list.len() == 0 {
        assert(s.skip(i).len() == 0);
        assert(closed + groups_of(list) =~= closed);
    } else {
        let g = list[0];
        let rest = list.skip(1);
        assert(is_group(g));
        let inner = g.before + g.name + g.after;
        let tail = s.skip(i + 1);
        assert(groups_text(list).len() > 0);
        assert(s.skip(i).len() == s.len() - i);
        assert(s.skip(i)[0] == s[i]);
        assert(s.skip(i) =~= seq!['/'] + (inner + seq!['/'] + (g.items + groups_text(rest))));
        assert(tail =~= s.skip(i).skip(1));
        assert(tail =~= inner + seq!['/'] + (g.items + groups_text(rest)));
        assert forall|k: int| 0 <= k < inner.len() implies st::byte_width(#[trigger] inner[k]) == 1
            && inner[k] != '/' by {
            if k < g.before.len() {
                assert(inner[k] == g.before[k]);
            } else if k < g.before.len() + g.name.len() {
                assert(inner[k] == g.name[k - g.before.len()]);
                assert(is_name_character(inner[k]));
            } else {
                assert(inner[k] == g.after[k - g.before.len() - g.name.len()]);
            }
        }
        assert(!inner.contains('/'));
        lemma_find_char(inner, '/', g.items + groups_text(rest), 0);
        assert(tail.take(inner.len() as int) =~= inner);
        lemma_ascii(inner, inner.len() as int);
        assert(inner.take(inner.len() as int) =~= inner);
        assert(all_space(g.before));
        assert(all_space(g.after));
        assert(is_name_character(g.name[0]));
        assert(is_name_character(g.name.last()));
        law_trim(g.before, g.name, g.after);
        let from = i + 1 + inner.len() + 1;
        assert(s.len() == i + s.skip(i).len());
        assert(from <= s.len());
        assert(s.skip(from) =~= tail.skip(inner.len() as int + 1));
        assert(s.skip(from) =~= g.items + groups_text(rest));
        assert(s.subrange(from, from + g.items.len()) =~= g.items) by {
            assert forall|k: int| 0 <= k < g.items.len() implies s[from + k] == g.items[k] by {
                assert(s.skip(from)[k] == s[from + k]);
            }
        }
        lemma_items_run(s, from, g.items, 0, Some(g.name), closed);
        assert(g.items.take(0) =~= Seq::<char>::empty());
        assert forall|k: int| 0 <= k < rest.len() implies is_group(#[trigger] rest[k]) by {
            assert(rest[k] == list[k + 1]);
        }
        assert(s.skip(from + g.items.len()) =~= s.skip(from).skip(g.items.len() as int));
        assert(s.skip(from + g.items.len()) =~= groups_text(rest));
        lemma_groups(s, from + g.items.len(), rest, Some(g.name), g.items, closed);
        assert(ss::close_group(Some(g.name), g.items, closed) + groups_of(rest) =~= closed
            + groups_of(list));
    }
}

/// A list with names between slashes is read as these names, each with what
/// follows it up to the next one.
pub proof fn law_groups(list: Seq<Group>)
    requires
        forall|k: int| 0 <= k < list.len() ==> is_group(#[trigger] list[k]),
    ensures
        ss::split_slash_delimited_groups(groups_text(list)) == groups_of(list),
{
    let s = groups_text(list);
    assert(s.skip(0) =~= s);
    let none = Seq::<char>::empty();
    lemma_groups(s, 0, list, None, none, Seq::empty());
    assert(st::is_blank(none));
    assert(Seq::empty() + groups_of(list) =~= groups_of(list));
}

// ---------------------------------------------------------------------------
// Enumerators
// ---------------------------------------------------------------------------

proof fn lemma_enumerators(
    code: Text,
    line: usize,
    file: Text,
    scope: sm::Scope,
    items: Seq<sd::DeclItem>,
    i: int,
    out: Seq<sm::Symbol>,
)
    requires
        0 <= i <= items.len(),
        out.len() == i,
        forall|k: int|
            0 <= k < i ==> #[trigger] out[k] == sd::enumerator_symbol(
                code,
                line,
                file,
                scope,
                items[k],
            ),
    ensures
        ({
            let r = sd::enumerators_from(code, line, file, scope, items, i, out);
            r.len() == items.len() && forall|k: int|
                0 <= k < items.len() ==> #[trigger] r[k] == sd::enumerator_symbol(
                    code,
                    line,
                    file,
                    scope,
                    items[k],
                )
        }),
    decreases items.len() - i,
{
    if i < items.len() {
        lemma_enumerators(
            code,
            line,
            file,
            scope,
            items,
            i + 1,
            out.push(sd::enumerator_symbol(code, line, file, scope, items[i])),
        );
    }
}

/// An enumerator statement declares each of its names as an integer constant.
pub proof fn law_enumerators(
    word: Text,
    parts: Seq<Nest>,
    items: Seq<Item>,
    line: usize,
    file: Text,
    scope: sm::Scope,
)
    requires
        st::lower(word) == "enumerator"@,
        are_parts(parts),
        parts.len() == items.len() > 0,
        forall|k: int|
            0 <= k < items.len() ==> is_item(#[trigger] items[k]) && show(parts[k]) == item_text(
                items[k],
            ) && !has_arrow(items[k]),
        is_trimmed(st::join(shown(parts), seq![','])),
    ensures
        ({
            let r = sd::parse_enumerators(
                word + (seq![':', ':'] + st::join(shown(parts), seq![','])),
                line,
                file,
                scope,
            );
            r.len() == items.len() && forall|k: int|
                0 <= k < r.len() ==> (#[trigger] r[k]).name == items[k].name
                    && r[k].kind is Variable && r[k].is_parameter && r[k].type_spec == Some(
                    "integer"@,
                ) && r[k].scope == scope
        }),
{
    reveal_strlit("enumerator");
    reveal_strlit("::");
    assert("::"@ =~= seq![':', ':']);
    lemma_lower_name(word, "enumerator"@);
    assert(is_name_character(word[0]));
    let none = Seq::<char>::empty();
    let rhs = st::join(shown(parts), seq![',']);
    let tail = seq![':', ':'] + rhs;
    let code = word + tail;
    assert(tail[0] == ':');
    law_keyword(none, word, "enumerator"@, tail);
    assert(none + word + tail =~= code);
    lemma_split_two(none, ':', ':', rhs);
    assert(none + seq![':', ':'] + rhs =~= tail);
    lemma_trimmed(rhs);
    law_split_commas(parts);
    assert forall|k: int| 0 <= k < items.len() implies is_item(#[trigger] items[k]) && shown(
        parts,
    )[k] == item_text(items[k]) && !has_arrow(items[k]) by {}
    lemma_items(shown(parts), items, 0, Seq::empty());
    lemma_enumerators(code, line, file, scope, sd::parse_decl_items(rhs), 0, Seq::empty());
}

} // verus!
