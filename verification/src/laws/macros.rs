//! Macros: what they are defined as, and what they are replaced by.

use vstd::prelude::*;

use crate::laws::nesting::{is_plain, is_well, law_matching_paren, show, Nest};
use crate::laws::statements::{are_padded, list_text, names, Padded};
use crate::laws::statements::{lemma_item_name, lemma_list_split, texts};
use crate::laws::text::{
    all_space, ends_name, has_no_name, is_name, is_trimmed, law_first_name, lemma_trimmed,
};
use crate::spec::preproc as spp;
use crate::spec::preproc::{MacroDefinition, Macros};
use crate::spec::scan as ss;
use crate::spec::table as sb;
use crate::spec::text as st;
use crate::spec::text::Text;

verus! {

// ---------------------------------------------------------------------------
// A text and what is left of it
// ---------------------------------------------------------------------------

proof fn lemma_closing_shift(s: Text, k: int, i: int, depth: nat)
    requires
        0 <= k <= i <= s.len(),
    ensures
        ss::closing_from(s, i, depth) == (match ss::closing_from(s.skip(k), i - k, depth) {
            Some(j) => Some(j + k),
            None => None,
        }),
    decreases s.len() - i,
{
    if i < s.len() {
        assert(s.skip(k)[i - k] == s[i]);
        if s[i] == '(' {
            lemma_closing_shift(s, k, i + 1, depth + 1);
        } else if s[i] == ')' {
            if depth > 1 {
                lemma_closing_shift(s, k, i + 1, (depth - 1) as nat);
            }
        } else {
            lemma_closing_shift(s, k, i + 1, depth);
        }
    }
}

proof fn lemma_spaces_shift(s: Text, k: int, i: int)
    requires
        0 <= k <= i <= s.len(),
    ensures
        st::after_spaces(s, i) == st::after_spaces(s.skip(k), i - k) + k,
    decreases s.len() - i,
{
    if i < s.len() {
        assert(s.skip(k)[i - k] == s[i]);
        if st::is_space(s[i]) {
            lemma_spaces_shift(s, k, i + 1);
        }
    }
}

/// Macros are replaced from left to right: what is left of a line is replaced as
/// if it stood alone.
proof fn lemma_expand_shift(line: Text, macros: Macros, k: int, i: int, out: Text)
    requires
        0 <= k <= i <= line.len(),
    ensures
        spp::expand_from(line, macros, i, out) == out + spp::expand_from(
            line.skip(k),
            macros,
            i - k,
            Seq::empty(),
        ),
    decreases line.len() - i, 0int,
{
    let short = line.skip(k);
    let none = Seq::<char>::empty();
    if i < line.len() {
        let rest = line.skip(i);
        assert(short.skip(i - k) =~= rest);
        if let Some((j, name)) = st::next_name(rest) {
            st::lemma_next_name(rest);
            let end = i + j + name.len();
            let before = rest.take(j);
            match sb::find(macros, name) {
                Some(MacroDefinition::Function { params, body }) => {
                    let call = st::after_spaces(line, end);
                    st::lemma_after_spaces(line, end);
                    lemma_spaces_shift(line, k, end);
                    lemma_partner_shift(line, k, call);
                    match ss::matching_paren_index(line, call) {
                        Some(close) => {
                            let args = ss::split_top_level_commas(line.subrange(call + 1, close));
                            assert(short.subrange(call - k + 1, close - k) =~= line.subrange(
                                call + 1,
                                close,
                            ));
                            let text = spp::expand_function_macro(params, body, args);
                            lemma_expand_tail(line, macros, k, close + 1, out, before, text);
                        },
                        None => {
                            lemma_expand_tail(line, macros, k, end, out, before, name);
                        },
                    }
                },
                Some(MacroDefinition::Object(value)) => {
                    lemma_expand_tail(line, macros, k, end, out, before, value);
                },
                None => {
                    lemma_expand_tail(line, macros, k, end, out, before, name);
                },
            }
        } else {
            assert(none + rest =~= rest);
        }
    } else {
        assert(out + none =~= out);
    }
}

proof fn lemma_partner_shift(line: Text, k: int, call: int)
    requires
        0 <= k <= call <= line.len(),
    ensures
        ss::matching_paren_index(line, call) == (match ss::matching_paren_index(
            line.skip(k),
            call - k,
        ) {
            Some(j) => Some(j + k),
            None => None,
        }),
        ss::matching_paren_index(line, call) matches Some(close) ==> call < close < line.len(),
{
    ss::lemma_matching_paren(line, call);
    lemma_closing_shift(line, k, call, 0);
    if call < line.len() {
        assert(line.skip(k)[call - k] == line[call]);
    }
}

proof fn lemma_expand_tail(
    line: Text,
    macros: Macros,
    k: int,
    end: int,
    out: Text,
    before: Text,
    text: Text,
)
    requires
        0 <= k <= end <= line.len(),
    ensures
        spp::expand_from(line, macros, end, out + before + text) == out + spp::expand_from(
            line.skip(k),
            macros,
            end - k,
            Seq::<char>::empty() + before + text,
        ),
    decreases line.len() - end, 1int,
{
    let short = line.skip(k);
    let none = Seq::<char>::empty();
    lemma_expand_shift(line, macros, k, end, out + before + text);
    lemma_expand_shift(short, macros, 0, end - k, none + before + text);
    assert(short.skip(0) =~= short);
    lemma_join(out, before, text, spp::expand_from(short, macros, end - k, none));
}

proof fn lemma_join(out: Text, before: Text, text: Text, behind: Text)
    ensures
        out + before + text + behind == out + (Seq::<char>::empty() + before + text + behind),
{
    assert(out + before + text + behind =~= out + (Seq::<char>::empty() + before + text + behind));
}

// ---------------------------------------------------------------------------
// Replacing
// ---------------------------------------------------------------------------

/// The first name of a line is replaced by its value where it is a macro without
/// parameters, and stays where it is none. The rest of the line is replaced in the
/// same way.
pub proof fn law_object_macro(before: Text, name: Text, behind: Text, macros: Macros)
    requires
        has_no_name(before),
        is_name(name),
        ends_name(behind),
    ensures
        sb::find(macros, name) matches Some(MacroDefinition::Object(value))
            ==> spp::expand_macro_once(before + name + behind, macros) == before + value
            + spp::expand_macro_once(behind, macros),
        sb::find(macros, name) is None ==> spp::expand_macro_once(before + name + behind, macros)
            == before + name + spp::expand_macro_once(behind, macros),
{
    let line = before + name + behind;
    let none = Seq::<char>::empty();
    law_first_name(before, name, behind);
    assert(line.skip(0) =~= line);
    let end = (before.len() + name.len()) as int;
    assert(line.take(before.len() as int) =~= before);
    assert(none + before =~= before);
    assert(line.skip(end) =~= behind);
    match sb::find(macros, name) {
        Some(MacroDefinition::Object(value)) => {
            lemma_expand_shift(line, macros, end, end, before + value);
        },
        None => {
            lemma_expand_shift(line, macros, end, end, before + name);
        },
        _ => {},
    }
}

/// A line without names stays as it is.
pub proof fn law_no_names(line: Text, macros: Macros)
    requires
        has_no_name(line),
    ensures
        spp::expand_macro_once(line, macros) == line,
{
    assert(line.skip(0) =~= line);
    lemma_no_name(line, 0);
    assert(Seq::<char>::empty() + line =~= line);
}

proof fn lemma_no_name(line: Text, i: int)
    requires
        has_no_name(line),
        0 <= i,
    ensures
        st::name_start_from(line, i) is None,
    decreases line.len() - i,
{
    if i < line.len() {
        lemma_no_name(line, i + 1);
    }
}

/// A call of a macro with parameters is replaced by its body, with what stands
/// between its parentheses for the parameters. Without parentheses its name
/// stays.
pub proof fn law_function_macro(
    before: Text,
    name: Text,
    gap: Text,
    args: Nest,
    behind: Text,
    macros: Macros,
    params: Seq<Text>,
    body: Text,
)
    requires
        has_no_name(before),
        is_name(name),
        all_space(gap),
        is_well(args),
        is_plain(args),
        sb::find(macros, name) == Some(MacroDefinition::Function { params, body }),
    ensures
        spp::expand_macro_once(
            before + name + (gap + seq!['('] + show(args) + seq![')'] + behind),
            macros,
        ) == before + spp::expand_function_macro(
            params,
            body,
            ss::split_top_level_commas(show(args)),
        ) + spp::expand_macro_once(behind, macros),
        ends_name(behind) && !st::starts_with_char(st::trim_start(behind), '(')
            ==> spp::expand_macro_once(before + name + behind, macros) == before + name
            + spp::expand_macro_once(behind, macros),
{
    let none = Seq::<char>::empty();
    let tail = gap + seq!['('] + show(args) + seq![')'] + behind;
    let line = before + name + tail;
    assert(tail[0] == if gap.len() > 0 {
        gap[0]
    } else {
        '('
    });
    law_first_name(before, name, tail);
    assert(line.skip(0) =~= line);
    let end = (before.len() + name.len()) as int;
    assert(line.take(before.len() as int) =~= before);
    assert(none + before =~= before);
    lemma_gap(line, end, gap.len() as int, end);
    let call = end + gap.len();
    assert(before + name + gap + seq!['('] + show(args) + seq![')'] + behind =~= line);
    law_matching_paren(before + name + gap, args, behind);
    let close = call + 1 + show(args).len();
    assert(line.subrange(call + 1, close) =~= show(args));
    assert(line.skip(close + 1) =~= behind);
    let text = spp::expand_function_macro(params, body, ss::split_top_level_commas(show(args)));
    lemma_expand_shift(line, macros, close + 1, close + 1, before + text);
    if ends_name(behind) && !st::starts_with_char(st::trim_start(behind), '(') {
        let plain = before + name + behind;
        law_first_name(before, name, behind);
        assert(plain.skip(0) =~= plain);
        assert(plain.take(before.len() as int) =~= before);
        assert(plain.skip(end) =~= behind);
        lemma_spaces_shift(plain, end, end);
        let at = st::after_spaces(plain, end);
        st::lemma_after_spaces(plain, end);
        if at < plain.len() {
            assert(behind[at - end] == plain[at]);
            assert(st::trim_start(behind)[0] == plain[at]);
        }
        lemma_expand_shift(plain, macros, end, end, before + name);
    }
}

proof fn lemma_gap(line: Text, from: int, n: int, i: int)
    requires
        0 <= from <= i <= from + n < line.len(),
        forall|j: int| from <= j < from + n ==> st::is_space(#[trigger] line[j]),
        !st::is_space(line[from + n]),
    ensures
        st::after_spaces(line, i) == from + n,
    decreases from + n - i,
{
    if i < from + n {
        lemma_gap(line, from, n, i + 1);
    }
}

proof fn lemma_replace_shift(s: Text, ident: Text, text: Text, k: int, i: int, out: Text)
    requires
        0 <= k <= i <= s.len(),
    ensures
        spp::replace_from(s, ident, text, i, out) == out + spp::replace_from(
            s.skip(k),
            ident,
            text,
            i - k,
            Seq::empty(),
        ),
    decreases s.len() - i,
{
    let short = s.skip(k);
    let none = Seq::<char>::empty();
    if i < s.len() {
        let rest = s.skip(i);
        assert(short.skip(i - k) =~= rest);
        if let Some((j, name)) = st::next_name(rest) {
            st::lemma_next_name(rest);
            let end = i + j + name.len();
            let before = rest.take(j);
            let new = if name == ident {
                text
            } else {
                name
            };
            lemma_replace_shift(s, ident, text, k, end, out + before + new);
            lemma_replace_shift(short, ident, text, 0, end - k, none + before + new);
            assert(short.skip(0) =~= short);
            lemma_join(out, before, new, spp::replace_from(short, ident, text, end - k, none));
        } else {
            assert(none + rest =~= rest);
        }
    } else {
        assert(out + none =~= out);
    }
}

/// In the body of a macro each whole name that is a parameter is replaced, and no
/// other name.
pub proof fn law_replace(before: Text, name: Text, behind: Text, ident: Text, text: Text)
    requires
        has_no_name(before),
        is_name(name),
        ends_name(behind),
    ensures
        spp::replace_identifier(before + name + behind, ident, text) == before + (if name == ident {
            text
        } else {
            name
        }) + spp::replace_identifier(behind, ident, text),
        spp::replace_identifier(before, ident, text) == before,
{
    let s = before + name + behind;
    let none = Seq::<char>::empty();
    law_first_name(before, name, behind);
    assert(s.skip(0) =~= s);
    let end = (before.len() + name.len()) as int;
    assert(s.take(before.len() as int) =~= before);
    assert(none + before =~= before);
    assert(s.skip(end) =~= behind);
    let new = if name == ident {
        text
    } else {
        name
    };
    lemma_replace_shift(s, ident, text, end, end, before + new);
    assert(before.skip(0) =~= before);
    lemma_no_name(before, 0);
}

/// The first argument stands for the first parameter, and so on.
pub proof fn law_substitute(params: Seq<Text>, args: Seq<Text>, body: Text, k: int)
    requires
        0 <= k < params.len(),
        k < args.len(),
    ensures
        spp::substitute_from(params, args, k, body) == spp::substitute_from(
            params,
            args,
            k + 1,
            spp::replace_identifier(body, params[k], st::trim(args[k])),
        ),
        spp::substitute_from(params, args, params.len() as int, body) == body,
{
}

// ---------------------------------------------------------------------------
// Defining
// ---------------------------------------------------------------------------

proof fn lemma_params(items: Seq<Padded>, i: int, out: Seq<Text>)
    requires
        are_padded(items),
        0 <= i <= items.len(),
    ensures
        spp::params_from(texts(items), i, out) == out + names(items).skip(i),
    decreases items.len() - i,
{
    if i < items.len() {
        let none = Seq::<char>::empty();
        lemma_item_name(items[i]);
        law_first_name(none, items[i].1, none);
        assert(none + items[i].1 + none =~= items[i].1);
        lemma_params(items, i + 1, out.push(items[i].1));
        assert(out.push(items[i].1) + names(items).skip(i + 1) =~= out + names(items).skip(i));
    } else {
        assert(out + names(items).skip(i) =~= out);
    }
}

/// A definition that starts with names in parentheses is a macro with these
/// parameters; any other is its own value, and 1 where it is empty.
pub proof fn law_definition(items: Seq<Padded>, list: Nest, body: Text, value: Text)
    requires
        are_padded(items),
        items.len() > 0,
        is_well(list),
        is_plain(list),
        show(list) == list_text(items),
        body.len() == 0 || !st::is_space(body.last()),
        is_trimmed(value),
        value.len() > 0,
        value[0] != '(',
    ensures
        spp::macro_definition(Some(seq!['('] + list_text(items) + seq![')'] + body)) == (
        MacroDefinition::Function { params: names(items), body: st::trim(body) }),
        spp::macro_definition(Some(value)) == MacroDefinition::Object(value),
        spp::macro_definition(None) == MacroDefinition::Object(seq!['1']),
{
    reveal_strlit("1");
    assert("1"@ =~= seq!['1']);
    let none = Seq::<char>::empty();
    let t = seq!['('] + list_text(items) + seq![')'] + body;
    assert(t[0] == '(');
    assert(t.last() == if body.len() > 0 {
        body.last()
    } else {
        ')'
    });
    lemma_trimmed(t);
    law_matching_paren(none, list, body);
    assert(none + seq!['('] + show(list) + seq![')'] + body =~= t);
    let close = 1 + list_text(items).len();
    assert(t.subrange(1, close as int) =~= list_text(items));
    assert(t.skip(close + 1int) =~= body);
    lemma_list_split(items);
    lemma_params(items, 0, Seq::empty());
    assert(Seq::empty() + names(items).skip(0) =~= names(items));
    lemma_trimmed(value);
}

} // verus!
