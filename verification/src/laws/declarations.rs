//! Declarations as they are written, and the symbols that they make.

use vstd::prelude::*;

use crate::laws::conditionals::lemma_cut_name;
use crate::laws::nesting::{
    are_parts, is_plain, is_well, law_matching_paren, law_split_commas, show, shown, Nest,
};
use crate::laws::statements::{law_find, lemma_split_two};
use crate::laws::text::{
    all_space, ends_name, is_name, is_name_character, is_trimmed, law_first_name, law_trim,
    law_trim_start, lemma_trimmed, starts_solid,
};
use crate::laws::units::lemma_lower_name;
use crate::model::{SymbolKind, Visibility};
use crate::spec::declaration as sd;
use crate::spec::model as sm;
use crate::spec::text as st;
use crate::spec::text::Text;

verus! {

// ---------------------------------------------------------------------------
// Items
// ---------------------------------------------------------------------------

/// An item of a declaration: a name, what follows it, and white space around
/// them.
pub struct Item {
    pub before: Text,
    pub name: Text,
    pub rest: Text,
    pub after: Text,
}

pub open spec fn item_text(item: Item) -> Text {
    item.before + (item.name + item.rest) + item.after
}

pub open spec fn is_item(item: Item) -> bool {
    &&& all_space(item.before)
    &&& all_space(item.after)
    &&& is_name(item.name)
    &&& item.name.len() <= usize::MAX
    &&& ends_name(item.rest)
    &&& item.rest.len() == 0 || !st::is_space(item.rest.last())
}

/// Whether an item is followed by what it is bound to.
pub open spec fn has_arrow(item: Item) -> bool {
    exists|j: int| #[trigger] st::occurs_at(item.rest, "=>"@, j)
}

/// Whether a shape in parentheses follows a name.
pub open spec fn is_shaped(item: Item) -> bool {
    exists|k: int|
        0 <= k < item.rest.len() && #[trigger] item.rest[k] == '(' && all_space(item.rest.take(k))
}

proof fn lemma_shaped(rest: Text)
    ensures
        st::starts_with_char(st::trim_start(rest), '(') == exists|k: int|
            0 <= k < rest.len() && #[trigger] rest[k] == '(' && all_space(rest.take(k)),
{
    let i = st::after_spaces(rest, 0);
    lemma_first_solid(rest, 0);
    if st::starts_with_char(st::trim_start(rest), '(') {
        assert(rest[i] == '(');
        assert(all_space(rest.take(i)));
    }
    if exists|k: int| 0 <= k < rest.len() && #[trigger] rest[k] == '(' && all_space(rest.take(k)) {
        let k = choose|k: int|
            0 <= k < rest.len() && #[trigger] rest[k] == '(' && all_space(rest.take(k));
        assert forall|j: int| 0 <= j < k implies st::is_space(#[trigger] rest[j]) by {
            assert(rest.take(k)[j] == rest[j]);
        }
    }
}

proof fn lemma_first_solid(s: Text, i: int)
    requires
        0 <= i <= s.len(),
    ensures
        i <= st::after_spaces(s, i) <= s.len(),
        forall|j: int| i <= j < st::after_spaces(s, i) ==> st::is_space(#[trigger] s[j]),
        st::after_spaces(s, i) < s.len() ==> !st::is_space(s[st::after_spaces(s, i)]),
    decreases s.len() - i,
{
    if i < s.len() && st::is_space(s[i]) {
        lemma_first_solid(s, i + 1);
    }
}

/// An item without an arrow declares its name, as an array where parentheses
/// follow it.
pub proof fn law_item(item: Item)
    requires
        is_item(item),
        !has_arrow(item),
    ensures
        sd::decl_item(item_text(item)) == Some(
            sd::DeclItem {
                name: item.name,
                binding_target: None,
                has_shape: is_shaped(item),
            },
        ),
{
    reveal_strlit("=>");
    let none = Seq::<char>::empty();
    let core = item.name + item.rest;
    assert(core[0] == item.name[0]);
    assert(is_name_character(item.name[0]));
    assert(is_name_character(item.name.last()));
    assert(core.last() == if item.rest.len() > 0 {
        item.rest.last()
    } else {
        item.name.last()
    });
    law_trim(item.before, core, item.after);
    lemma_trimmed(core);
    law_find(core, "=>"@);
    if let Some(k) = st::find(core, "=>"@) {
        assert(core.subrange(k, k + 2)[0] == '=');
        if k < item.name.len() {
            assert(is_name_character(item.name[k]));
        } else {
            let j = k - item.name.len();
            assert(item.rest.subrange(j, j + 2) =~= core.subrange(k, k + 2));
            assert(st::occurs_at(item.rest, "=>"@, j));
        }
    }
    law_first_name(none, item.name, item.rest);
    assert(none + item.name + item.rest =~= core);
    lemma_cut_name(item.name, item.rest);
    lemma_shaped(item.rest);
}

/// An item with an arrow declares the name on its left side, bound to the name on
/// its right side.
pub proof fn law_bound_item(item: Item, gap: Text, gap2: Text, target: Text, behind: Text)
    requires
        is_item(item),
        item.rest == gap + seq!['=', '>'] + (gap2 + target + behind),
        all_space(gap),
        all_space(gap2),
        is_name(target),
        ends_name(behind),
    ensures
        sd::decl_item(item_text(item)) == Some(
            sd::DeclItem {
                name: item.name,
                binding_target: Some(target),
                has_shape: false,
            },
        ),
{
    reveal_strlit("=>");
    assert("=>"@ =~= seq!['=', '>']);
    let none = Seq::<char>::empty();
    let core = item.name + item.rest;
    assert(core[0] == item.name[0]);
    assert(is_name_character(item.name[0]));
    assert(is_name_character(item.name.last()));
    assert(core.last() == item.rest.last());
    law_trim(item.before, core, item.after);
    let lead = item.name + gap;
    let tail = gap2 + target + behind;
    assert(core =~= lead + seq!['=', '>'] + tail);
    assert(!lead.contains('=')) by {
        assert forall|i: int| 0 <= i < lead.len() implies lead[i] != '=' by {
            if i < item.name.len() {
                assert(is_name_character(item.name[i]));
            } else {
                assert(lead[i] == gap[i - item.name.len()]);
            }
        }
    }
    lemma_split_two(lead, '=', '>', tail);
    law_trim(none, item.name, gap);
    assert(none + item.name + gap =~= lead);
    law_first_name(none, item.name, none);
    assert(none + item.name + none =~= item.name);
    assert forall|i: int| 0 <= i < gap2.len() implies !(is_name_character(#[trigger] gap2[i])
        && !('0' <= gap2[i] <= '9')) by {}
    law_first_name(gap2, target, behind);
    lemma_trimmed(item.name);
    lemma_cut_name(item.name, none);
    assert(item.name + none =~= item.name);
    law_trim_start(none, none);
}

// ---------------------------------------------------------------------------
// Attributes
// ---------------------------------------------------------------------------

/// An attribute and the white space around it.
pub type Attribute = (Text, Text, Text);

pub open spec fn is_attribute(a: Attribute) -> bool {
    all_space(a.0) && a.1.len() > 0 && is_trimmed(a.1) && all_space(a.2)
}

pub open spec fn attributes(list: Seq<Attribute>) -> Seq<Text> {
    Seq::new(list.len(), |k: int| list[k].1)
}

/// Whether an attribute is given, case aside.
pub open spec fn gives(list: Seq<Attribute>, word: Text) -> bool {
    exists|k: int| 0 <= k < list.len() && st::lower((#[trigger] list[k]).1) == word
}

/// The visibility that attributes give: the last of them that gives one counts.
pub open spec fn visibility(list: Seq<Attribute>) -> Option<Visibility>
    decreases list.len(),
{
    if list.len() == 0 {
        None
    } else if st::lower(list.last().1) == "public"@ {
        Some(Visibility::Public)
    } else if st::lower(list.last().1) == "private"@ {
        Some(Visibility::Private)
    } else {
        visibility(list.drop_last())
    }
}

proof fn lemma_attributes(
    parts: Seq<Text>,
    list: Seq<Attribute>,
    i: int,
    d: sd::DeclarationLhs,
)
    requires
        parts.len() == list.len() + 1,
        forall|k: int|
            0 <= k < list.len() ==> is_attribute(#[trigger] list[k]) && parts[k + 1] == list[k].0
                + list[k].1 + list[k].2,
        0 <= i <= list.len(),
        d.attributes == attributes(list.take(i)),
        d.visibility == visibility(list.take(i)),
    ensures
        ({
            let r = sd::attributes_from(parts, i + 1, d);
            &&& r.attributes == attributes(list)
            &&& r.visibility == visibility(list)
            &&& r.type_keyword == d.type_keyword
            &&& r.type_spec == d.type_spec
        }),
    decreases list.len() - i,
{
    reveal_strlit("public");
    reveal_strlit("private");
    assert(st::lower("public"@) =~= "public"@);
    assert(st::lower("private"@) =~= "private"@);
    if i < list.len() {
        let a = list[i];
        assert(is_attribute(a));
        law_trim(a.0, a.1, a.2);
        assert(parts[i + 1] == a.0 + a.1 + a.2);
        assert(list.take(i + 1).drop_last() =~= list.take(i));
        assert(list.take(i + 1).last() == a);
        let next = sd::add_attribute(d, a.1);
        assert(next.attributes =~= attributes(list.take(i + 1)));
        lemma_attributes(parts, list, i + 1, next);
    } else {
        assert(list.take(i) =~= list);
    }
}

proof fn lemma_has(list: Seq<Attribute>, word: Text)
    requires
        st::lower(word) == word,
    ensures
        st::has_name(attributes(list), word) == gives(list, word),
{
    if gives(list, word) {
        let k = choose|k: int| 0 <= k < list.len() && st::lower((#[trigger] list[k]).1) == word;
        assert(st::same(attributes(list)[k], word));
    }
    if st::has_name(attributes(list), word) {
        let k = choose|k: int|
            0 <= k < attributes(list).len() && st::same(#[trigger] attributes(list)[k], word);
        assert(st::lower(list[k].1) == word);
    }
}

// ---------------------------------------------------------------------------
// Declarations
// ---------------------------------------------------------------------------

/// Whether a word starts a declaration.
pub open spec fn is_type_word(word: Text) -> bool {
    ||| word == "integer"@
    ||| word == "real"@
    ||| word == "double"@
    ||| word == "doubleprecision"@
    ||| word == "complex"@
    ||| word == "character"@
    ||| word == "logical"@
    ||| word == "type"@
    ||| word == "class"@
    ||| word == "procedure"@
    ||| word == "external"@
}

/// A declaration: its type, its attributes, and its items.
pub struct Declaration {
    pub word: Text,
    pub more: Text,
    pub pad: Text,
    pub left: Seq<Nest>,
    pub list: Seq<Attribute>,
    pub right: Seq<Nest>,
    pub items: Seq<Item>,
}

pub open spec fn left_text(d: Declaration) -> Text {
    st::join(shown(d.left), seq![','])
}

pub open spec fn declaration_text(d: Declaration) -> Text {
    left_text(d) + seq![':', ':'] + st::join(shown(d.right), seq![','])
}

pub open spec fn is_declaration(d: Declaration) -> bool {
    &&& is_name(d.word)
    &&& is_type_word(st::lower(d.word))
    &&& ends_name(d.more)
    &&& is_trimmed(d.word + d.more)
    &&& all_space(d.pad)
    &&& are_parts(d.left)
    &&& d.left.len() == d.list.len() + 1
    &&& show(d.left[0]) == d.word + d.more + d.pad
    &&& forall|k: int|
        0 <= k < d.list.len() ==> is_attribute(#[trigger] d.list[k]) && show(d.left[k + 1])
            == d.list[k].0 + d.list[k].1 + d.list[k].2
    &&& is_trimmed(left_text(d))
    &&& !left_text(d).contains(':')
    &&& are_parts(d.right)
    &&& d.right.len() == d.items.len() > 0
    &&& forall|k: int|
        0 <= k < d.items.len() ==> is_item(#[trigger] d.items[k]) && show(d.right[k]) == item_text(
            d.items[k],
        ) && !has_arrow(d.items[k])
}

/// Whether a symbol is what an item of a declaration declares.
pub open spec fn is_declared(s: sm::Symbol, d: Declaration, k: int, binding: bool) -> bool {
    &&& s.name == d.items[k].name
    &&& s.kind == (if st::lower(d.word) == "procedure"@ && binding {
        SymbolKind::Method
    } else {
        SymbolKind::Variable
    })
    &&& s.type_spec == Some(d.word + d.more)
    &&& s.attributes == (if is_shaped(d.items[k]) && !gives(d.list, "dimension"@) {
        attributes(d.list).push("dimension"@)
    } else {
        attributes(d.list)
    })
    &&& s.is_parameter == gives(d.list, "parameter"@)
    &&& s.is_external == (gives(d.list, "external"@) || st::lower(d.word) == "external"@)
    &&& s.is_deferred == gives(d.list, "deferred"@)
    &&& s.binding_target is None
    &&& s.visibility == (match visibility(d.list) {
        Some(v) => v,
        None => Visibility::Default,
    })
    &&& s.signature == left_text(d) + " :: "@ + d.items[k].name
}

pub proof fn lemma_items(parts: Seq<Text>, items: Seq<Item>, i: int, out: Seq<sd::DeclItem>)
    requires
        parts.len() == items.len(),
        forall|k: int|
            0 <= k < items.len() ==> is_item(#[trigger] items[k]) && parts[k] == item_text(items[k])
                && !has_arrow(items[k]),
        0 <= i <= items.len(),
        out.len() == i,
        forall|k: int|
            0 <= k < i ==> (#[trigger] out[k]) == (sd::DeclItem {
                name: items[k].name,
                binding_target: None,
                has_shape: is_shaped(items[k]),
            }),
    ensures
        ({
            let r = sd::decl_items_from(parts, i, out);
            r.len() == items.len() && forall|k: int|
                0 <= k < items.len() ==> (#[trigger] r[k]) == (sd::DeclItem {
                    name: items[k].name,
                    binding_target: None,
                    has_shape: is_shaped(items[k]),
                })
        }),
    decreases items.len() - i,
{
    if i < items.len() {
        law_item(items[i]);
        let one = sd::DeclItem {
            name: items[i].name,
            binding_target: None,
            has_shape: is_shaped(items[i]),
        };
        lemma_items(parts, items, i + 1, out.push(one));
    }
}

proof fn lemma_declared(
    code: Text,
    line: usize,
    file: Text,
    scope: sm::Scope,
    binding: bool,
    lhs: Text,
    d: sd::DeclarationLhs,
    items: Seq<sd::DeclItem>,
    i: int,
    out: Seq<sm::Symbol>,
)
    requires
        0 <= i <= items.len(),
        out.len() == i,
        forall|k: int|
            0 <= k < i ==> #[trigger] out[k] == sd::declared_symbol(
                code,
                line,
                file,
                scope,
                binding,
                lhs,
                d,
                items[k],
            ),
    ensures
        ({
            let r = sd::declared_from(code, line, file, scope, binding, lhs, d, items, i, out);
            r.len() == items.len() && forall|k: int|
                0 <= k < items.len() ==> #[trigger] r[k] == sd::declared_symbol(
                    code,
                    line,
                    file,
                    scope,
                    binding,
                    lhs,
                    d,
                    items[k],
                )
        }),
    decreases items.len() - i,
{
    if i < items.len() {
        lemma_declared(
            code,
            line,
            file,
            scope,
            binding,
            lhs,
            d,
            items,
            i + 1,
            out.push(sd::declared_symbol(code, line, file, scope, binding, lhs, d, items[i])),
        );
    }
}

/// A declaration makes one symbol for each of its names, in order, with the type
/// in front and what the attributes say.
pub proof fn law_declaration(
    d: Declaration,
    line: usize,
    file: Text,
    scope: sm::Scope,
    binding: bool,
)
    requires
        is_declaration(d),
    ensures
        sd::parse_variables(declaration_text(d), line, file, scope, binding) matches Some(symbols)
            && symbols.len() == d.items.len() && forall|k: int|
            0 <= k < symbols.len() ==> is_declared(#[trigger] symbols[k], d, k, binding)
                && symbols[k].scope == scope && symbols[k].file == file
                && symbols[k].selection_range.start.line == line,
{
    reveal_strlit("::");
    assert("::"@ =~= seq![':', ':']);
    let code = declaration_text(d);
    let lhs = left_text(d);
    let rhs = st::join(shown(d.right), seq![',']);
    let none = Seq::<char>::empty();
    lemma_split_two(lhs, ':', ':', rhs);
    lemma_trimmed(lhs);
    law_split_commas(d.left);
    law_split_commas(d.right);
    let parts = shown(d.left);
    let spec = d.word + d.more;
    assert(parts[0] == spec + d.pad);
    law_trim(none, spec, d.pad);
    assert(none + spec + d.pad =~= spec + d.pad);
    law_first_name(none, d.word, d.more);
    assert(none + d.word + d.more =~= spec);
    let start = sd::DeclarationLhs {
        type_keyword: st::lower(d.word),
        type_spec: spec,
        attributes: Seq::empty(),
        visibility: None,
    };
    assert(attributes(d.list.take(0)) =~= Seq::<Text>::empty());
    assert(d.list.take(0).len() == 0);
    assert forall|k: int| 0 <= k < d.list.len() implies is_attribute(#[trigger] d.list[k])
        && parts[k + 1] == d.list[k].0 + d.list[k].1 + d.list[k].2 by {}
    lemma_attributes(parts, d.list, 0, start);
    let full = sd::attributes_from(parts, 1, start);
    assert forall|k: int| 0 <= k < d.items.len() implies is_item(#[trigger] d.items[k]) && shown(
        d.right,
    )[k] == item_text(d.items[k]) && !has_arrow(d.items[k]) by {}
    lemma_items(shown(d.right), d.items, 0, Seq::empty());
    let items = sd::parse_decl_items(rhs);
    lemma_declared(code, line, file, scope, binding, lhs, full, items, 0, Seq::empty());
    reveal_strlit("dimension");
    reveal_strlit("parameter");
    reveal_strlit("external");
    reveal_strlit("deferred");
    assert(st::lower("dimension"@) =~= "dimension"@);
    assert(st::lower("parameter"@) =~= "parameter"@);
    assert(st::lower("external"@) =~= "external"@);
    assert(st::lower("deferred"@) =~= "deferred"@);
    lemma_has(d.list, "dimension"@);
    lemma_has(d.list, "parameter"@);
    lemma_has(d.list, "external"@);
    lemma_has(d.list, "deferred"@);
}

// ---------------------------------------------------------------------------
// Declarations without colons
// ---------------------------------------------------------------------------

/// A declaration without colons has its type in front, with or without a kind in
/// parentheses, and its names behind that.
pub proof fn law_legacy_declaration(word: Text, kind: Option<Nest>, space: Text, rest: Text)
    requires
        st::lower(word) == "integer"@ || st::lower(word) == "real"@ || st::lower(word)
            == "complex"@ || st::lower(word) == "character"@ || st::lower(word) == "logical"@,
        kind matches Some(n) ==> is_well(n) && is_plain(n),
        kind is None ==> space.len() > 0,
        all_space(space),
        starts_solid(rest),
        rest[0] != ',',
        kind is None ==> rest[0] != '(',
        kind is Some ==> ends_name(space + rest) || space.len() == 0,
    ensures
        ({
            let spec = match kind {
                Some(n) => word + (seq!['('] + show(n) + seq![')']),
                None => word,
            };
            sd::split_legacy_declaration(spec + (space + rest)) == Some((spec, rest))
        }),
{
    let none = Seq::<char>::empty();
    reveal_strlit("integer");
    reveal_strlit("real");
    reveal_strlit("complex");
    reveal_strlit("character");
    reveal_strlit("logical");
    reveal_strlit("double");
    reveal_strlit("type");
    reveal_strlit("class");
    assert(st::lower("integer"@) =~= "integer"@);
    assert(st::lower("real"@) =~= "real"@);
    assert(st::lower("complex"@) =~= "complex"@);
    assert(st::lower("character"@) =~= "character"@);
    assert(st::lower("logical"@) =~= "logical"@);
    assert(st::lower("double"@)[0] == 'd');
    assert(st::lower("type"@)[0] == 't');
    assert(st::lower("class"@)[1] == 'l');
    if st::lower(word) == "integer"@ {
        lemma_lower_name(word, "integer"@);
    } else if st::lower(word) == "real"@ {
        lemma_lower_name(word, "real"@);
    } else if st::lower(word) == "complex"@ {
        lemma_lower_name(word, "complex"@);
    } else if st::lower(word) == "character"@ {
        lemma_lower_name(word, "character"@);
    } else {
        lemma_lower_name(word, "logical"@);
    }
    let group = match kind {
        Some(n) => seq!['('] + show(n) + seq![')'],
        None => none,
    };
    let spec = match kind {
        Some(n) => word + (seq!['('] + show(n) + seq![')']),
        None => word,
    };
    let tail = space + rest;
    let code = spec + tail;
    let after = group + tail;
    assert(code =~= word + after);
    assert(code[0] == word[0]);
    assert(is_name_character(word[0]));
    law_trim_start(none, code);
    assert(none + code =~= code);
    if kind is Some {
        assert(after[0] == '(');
    } else {
        assert(after =~= tail);
        assert(after[0] == space[0]);
    }
    law_first_name(none, word, after);
    assert(none + word + after =~= code);
    lemma_cut_name(word, after);
    law_trim_start(space, rest);
    if let Some(n) = kind {
        law_trim_start(none, after);
        assert(none + after =~= after);
        law_matching_paren(none, n, tail);
        assert(none + seq!['('] + show(n) + seq![')'] + tail =~= after);
        assert(after.skip((show(n).len() + 2) as int) =~= tail);
    }
    assert(code.take(code.len() - tail.len()) =~= spec);
}

} // verus!
