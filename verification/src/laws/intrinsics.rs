//! The tables of intrinsic symbols.

use vstd::prelude::*;

use crate::intrinsics::IntrinsicKind;
use crate::spec::intrinsics as si;
use crate::spec::intrinsics::{IntrinsicCompletion, IntrinsicSymbol};
use crate::spec::json as sj;
use crate::spec::json::Json;
use crate::spec::order as sr;
use crate::spec::text as st;
use crate::spec::text::Text;

verus! {

proof fn lemma_module_order(a: Option<Text>, b: Option<Text>, c: Option<Text>)
    requires
        a matches Some(x) && b matches Some(y) && c matches Some(z) && a != b && b != c
            && sr::text_not_after(x, y) && sr::text_not_after(y, z),
    ensures
        a != c,
        a matches Some(x) && c matches Some(z) && sr::text_not_after(x, z),
{
    let x = a->Some_0;
    let y = b->Some_0;
    let z = c->Some_0;
    sr::lemma_text_order(x, y, z, 0);
    if x == z {
        sr::lemma_text_antisymmetric(x, y);
    }
}

/// Intrinsic symbols can be put in order.
pub proof fn lemma_symbol_order()
    ensures
        sr::is_order(si::symbol_order()),
{
    let order = si::symbol_order();
    assert forall|a: IntrinsicSymbol, b: IntrinsicSymbol| #[trigger] order(a, b) || order(
        b,
        a,
    ) by {
        if let Some(x) = a.module {
            if let Some(y) = b.module {
                sr::lemma_text_order(x, y, y, 0);
            }
        }
        sr::lemma_text_order(a.name, b.name, b.name, 0);
        sr::lemma_texts_order(a.args, b.args, b.args, 0);
    }
    assert forall|a: IntrinsicSymbol, b: IntrinsicSymbol, c: IntrinsicSymbol|
        #[trigger] order(a, b) && #[trigger] order(b, c) implies order(a, c) by {
        lemma_transitive(a, b, c);
    }
}

proof fn lemma_transitive(a: IntrinsicSymbol, b: IntrinsicSymbol, c: IntrinsicSymbol)
    requires
        si::symbol_not_after(a, b),
        si::symbol_not_after(b, c),
    ensures
        si::symbol_not_after(a, c),
{
    if a.module != b.module && b.module != c.module {
        if a.module is Some && b.module is Some && c.module is Some {
            lemma_module_order(a.module, b.module, c.module);
        }
    } else if a.module == b.module && b.module == c.module {
        if a.name != b.name && b.name != c.name {
            sr::lemma_text_order(a.name, b.name, c.name, 0);
            if a.name == c.name {
                sr::lemma_text_antisymmetric(a.name, b.name);
            }
        } else if a.name == b.name && b.name == c.name {
            if si::kind_rank(a.kind) == si::kind_rank(b.kind) && si::kind_rank(b.kind)
                == si::kind_rank(c.kind) {
                sr::lemma_texts_order(a.args, b.args, c.args, 0);
            }
        }
    }
}

/// Whether no symbol of a list is like the one before it.
spec fn no_repeats(symbols: Seq<IntrinsicSymbol>) -> bool {
    forall|i: int|
        0 < i < symbols.len() ==> !si::is_alike(#[trigger] symbols[i], symbols[i - 1])
}

/// Whether a list holds some of the values of another one, in its order.
spec fn is_sorted_part(
    out: Seq<IntrinsicSymbol>,
    symbols: Seq<IntrinsicSymbol>,
    i: int,
) -> bool {
    &&& sr::is_sorted(out, si::symbol_order())
    &&& forall|k: int, j: int|
        0 <= k < out.len() && i <= j < symbols.len() ==> (si::symbol_order())(
            #[trigger] out[k],
            #[trigger] symbols[j],
        )
}

proof fn lemma_distinct(symbols: Seq<IntrinsicSymbol>, i: int, out: Seq<IntrinsicSymbol>)
    requires
        0 <= i <= symbols.len(),
        no_repeats(out),
        sr::is_sorted(symbols, si::symbol_order()),
        is_sorted_part(out, symbols, i),
        all_lower(symbols),
        all_lower(out),
    ensures
        no_repeats(si::distinct_from(symbols, i, out)),
        all_lower(si::distinct_from(symbols, i, out)),
        sr::is_sorted(si::distinct_from(symbols, i, out), si::symbol_order()),
    decreases symbols.len() - i,
{
    if i < symbols.len() {
        let order = si::symbol_order();
        if out.len() > 0 && si::is_alike(symbols[i], out.last()) {
            lemma_distinct(symbols, i + 1, out);
        } else {
            let next = out.push(symbols[i]);
            assert forall|a: int, b: int| 0 <= a < b < next.len() implies order(
                #[trigger] next[a],
                #[trigger] next[b],
            ) by {
                if b < out.len() {
                    assert(order(out[a], out[b]));
                } else {
                    assert(order(out[a], symbols[i]));
                }
            }
            assert forall|k: int, j: int|
                0 <= k < next.len() && i + 1 <= j < symbols.len() implies order(
                #[trigger] next[k],
                #[trigger] symbols[j],
            ) by {
                if k < out.len() {
                    assert(order(out[k], symbols[j]));
                } else {
                    assert(order(symbols[i], symbols[j]));
                }
            }
            lemma_distinct(symbols, i + 1, next);
        }
    }
}

/// Whether the names of symbols hold no upper-case letter.
spec fn all_lower(symbols: Seq<IntrinsicSymbol>) -> bool {
    forall|k: int|
        0 <= k < symbols.len() ==> st::lower((#[trigger] symbols[k]).name) == symbols[k].name
}

proof fn lemma_add_lower(out: Seq<IntrinsicSymbol>, symbol: Option<IntrinsicSymbol>)
    requires
        all_lower(out),
        symbol matches Some(s) ==> exists|name: Text| s.name == #[trigger] st::lower(name),
    ensures
        all_lower(si::add_symbol(out, symbol)),
{
    if let Some(s) = symbol {
        let name = choose|name: Text| s.name == #[trigger] st::lower(name);
        assert(st::lower(st::lower(name)) =~= st::lower(name));
    }
}

proof fn lemma_procedures_lower(entries: Seq<(Text, Json)>, i: int, out: Seq<IntrinsicSymbol>)
    requires
        0 <= i <= entries.len(),
        all_lower(out),
    ensures
        all_lower(si::procedures_from(entries, i, out)),
    decreases entries.len() - i,
{
    if i < entries.len() {
        let symbol = si::procedure(entries[i].0, entries[i].1);
        lemma_add_lower(out, symbol);
        lemma_procedures_lower(entries, i + 1, si::add_symbol(out, symbol));
    }
}

proof fn lemma_children_lower(
    module: Text,
    children: Seq<Json>,
    i: int,
    out: Seq<IntrinsicSymbol>,
)
    requires
        0 <= i <= children.len(),
        all_lower(out),
    ensures
        all_lower(si::children_from(module, children, i, out)),
    decreases children.len() - i,
{
    if i < children.len() {
        let symbol = si::module_child(module, children[i]);
        lemma_add_lower(out, symbol);
        lemma_children_lower(module, children, i + 1, si::add_symbol(out, symbol));
    }
}

proof fn lemma_module_lower(key: Text, module: Json, out: Seq<IntrinsicSymbol>)
    requires
        all_lower(out),
    ensures
        all_lower(si::add_module(key, module, out)),
{
    let name = si::module_name(key, module);
    let symbol = IntrinsicSymbol {
        name,
        kind: IntrinsicKind::Module,
        args: Seq::empty(),
        documentation: "Intrinsic module `"@ + name + "`."@,
        module: None,
    };
    lemma_add_lower(out, Some(symbol));
    if let Some(children) = sj::as_array(sj::get(module, "children"@)) {
        lemma_children_lower(name, children, 0, out.push(symbol));
    }
}

proof fn lemma_modules_lower(entries: Seq<(Text, Json)>, i: int, out: Seq<IntrinsicSymbol>)
    requires
        0 <= i <= entries.len(),
        all_lower(out),
    ensures
        all_lower(si::modules_from(entries, i, out)),
    decreases entries.len() - i,
{
    if i < entries.len() {
        lemma_module_lower(entries[i].0, entries[i].1, out);
        lemma_modules_lower(entries, i + 1, si::add_module(entries[i].0, entries[i].1, out));
    }
}

proof fn lemma_sorted_lower(list: Seq<IntrinsicSymbol>)
    requires
        all_lower(list),
    ensures
        all_lower(sr::sorted(list, si::symbol_order())),
{
    let all = sr::sorted(list, si::symbol_order());
    lemma_symbol_order();
    sr::law_sorted(list, si::symbol_order());
    assert forall|k: int| 0 <= k < all.len() implies st::lower((#[trigger] all[k]).name)
        == all[k].name by {
        broadcast use vstd::seq_lib::group_to_multiset_ensures;

        assert(all.contains(all[k]));
        assert(list.to_multiset().count(all[k]) > 0);
        assert(list.contains(all[k]));
    }
}

/// A symbol that stands between two that are alike is like them.
proof fn lemma_between(a: IntrinsicSymbol, b: IntrinsicSymbol, c: IntrinsicSymbol)
    requires
        si::symbol_not_after(a, b),
        si::symbol_not_after(b, c),
        a.module == c.module,
        a.name == c.name,
        a.kind == c.kind,
    ensures
        si::is_alike(b, a),
{
    if a.module != b.module {
        if a.module is Some && b.module is Some {
            sr::lemma_text_antisymmetric(a.module->0, b.module->0);
        }
    } else if a.name != b.name {
        sr::lemma_text_antisymmetric(a.name, b.name);
    }
}

/// Whether no two symbols of a list are alike.
pub open spec fn all_differ(symbols: Seq<IntrinsicSymbol>) -> bool {
    forall|i: int, j: int|
        0 <= i < j < symbols.len() ==> !si::is_alike(#[trigger] symbols[j], #[trigger] symbols[i])
}

proof fn lemma_all_differ(symbols: Seq<IntrinsicSymbol>)
    requires
        sr::is_sorted(symbols, si::symbol_order()),
        no_repeats(symbols),
        all_lower(symbols),
    ensures
        all_differ(symbols),
{
    let order = si::symbol_order();
    assert forall|i: int, j: int| 0 <= i < j < symbols.len() implies !si::is_alike(
        #[trigger] symbols[j],
        #[trigger] symbols[i],
    ) by {
        assert(!si::is_alike(symbols[i + 1], symbols[i + 1 - 1]));
        assert(order(symbols[i], symbols[i + 1]));
        if si::is_alike(symbols[j], symbols[i]) && j > i + 1 {
            assert(order(symbols[i + 1], symbols[j]));
            lemma_between(symbols[i], symbols[i + 1], symbols[j]);
        }
    }
}

/// The symbols that are loaded stand in order: by module, name, kind and
/// arguments. No two are alike in module, name and kind, whatever the case.
pub proof fn law_loaded(procedures: Json, modules: Json)
    ensures
        sr::is_sorted(si::load_intrinsics(procedures, modules), si::symbol_order()),
        all_differ(si::load_intrinsics(procedures, modules)),
{
    lemma_symbol_order();
    if let Json::Object(entries) = procedures {
        lemma_procedures_lower(entries, 0, Seq::empty());
    }
    let from_procedures = si::load_procedures(procedures, Seq::empty());
    if let Json::Object(entries) = modules {
        lemma_modules_lower(entries, 0, from_procedures);
    }
    let all = si::load_modules(modules, from_procedures);
    sr::law_sorted(all, si::symbol_order());
    lemma_sorted_lower(all);
    lemma_distinct(sr::sorted(all, si::symbol_order()), 0, Seq::empty());
    lemma_all_differ(si::load_intrinsics(procedures, modules));
}

proof fn lemma_find(table: Seq<IntrinsicSymbol>, name: Text, i: int)
    requires
        0 <= i,
    ensures
        match si::find_from(table, name, i) {
            Some(k) => i <= k < table.len() && si::is_named(table[k], name) && forall|j: int|
                i <= j < k ==> !si::is_named(#[trigger] table[j], name),
            None => forall|j: int|
                i <= j < table.len() ==> !si::is_named(#[trigger] table[j], name),
        },
    decreases table.len() - i,
{
    if i < table.len() && !si::is_named(table[i], name) {
        lemma_find(table, name, i + 1);
    }
}

/// A symbol is found under its name, whatever the case, as soon as there is
/// one with that name; of several the first one is.
pub proof fn law_find(table: Seq<IntrinsicSymbol>, name: Text)
    ensures
        match si::find_from(table, name, 0) {
            Some(k) => 0 <= k < table.len() && si::is_named(table[k], name) && forall|j: int|
                0 <= j < k ==> !si::is_named(#[trigger] table[j], name),
            None => forall|j: int|
                0 <= j < table.len() ==> !si::is_named(#[trigger] table[j], name),
        },
        si::find_from(table, st::lower(name), 0) == si::find_from(table, name, 0),
{
    lemma_find(table, name, 0);
    lemma_case(table, name, 0);
}

proof fn lemma_case(table: Seq<IntrinsicSymbol>, name: Text, i: int)
    ensures
        si::find_from(table, st::lower(name), i) == si::find_from(table, name, i),
    decreases table.len() - i,
{
    assert(st::lower(st::lower(name)) =~= st::lower(name));
    if i < table.len() {
        lemma_case(table, name, i + 1);
    }
}

/// The members of a module are those that belong to it, and no others.
pub proof fn law_module_symbols(table: Seq<IntrinsicSymbol>, module: Text, s: IntrinsicSymbol)
    ensures
        si::module_symbols(table, module).contains(s) <==> table.contains(s) && si::is_of_module(
            s,
            module,
        ),
    decreases table.len(),
{
    if table.len() > 0 {
        let rest = table.drop_last();
        law_module_symbols(rest, module, s);
        assert(table =~= rest.push(table.last()));
        lemma_push(rest, table.last(), s);
        lemma_push(si::module_symbols(rest, module), table.last(), s);
    }
}

proof fn lemma_push<T>(list: Seq<T>, x: T, s: T)
    ensures
        list.push(x).contains(s) <==> list.contains(s) || x == s,
{
    let next = list.push(x);
    if list.contains(s) {
        let k = choose|k: int| 0 <= k < list.len() && list[k] == s;
        assert(next[k] == s);
    }
    if x == s {
        assert(next[list.len() as int] == s);
    }
    if next.contains(s) {
        let k = choose|k: int| 0 <= k < next.len() && next[k] == s;
        if k < list.len() {
            assert(list[k] == s);
        }
    }
}

/// What is offered for a prefix starts with it, whatever the case, and is for
/// everyone to see.
pub proof fn law_completions(table: Seq<IntrinsicSymbol>, prefix: Text, c: IntrinsicCompletion)
    requires
        si::completions(table, prefix).contains(c),
    ensures
        st::starts_with(st::lower(c.label), st::lower(prefix)),
        c.visibility is Public,
        exists|s: IntrinsicSymbol| #[trigger] table.contains(s) && c == si::completion(s),
    decreases table.len(),
{
    if table.len() > 0 {
        let rest = table.drop_last();
        let done = si::completions(rest, prefix);
        assert(table =~= rest.push(table.last()));
        if done.contains(c) {
            law_completions(rest, prefix, c);
            let s = choose|s: IntrinsicSymbol|
                #[trigger] rest.contains(s) && c == si::completion(s);
            lemma_push(rest, table.last(), s);
            assert(table.contains(s));
        } else {
            lemma_push(done, si::completion(table.last()), c);
            lemma_push(rest, table.last(), table.last());
            assert(table.contains(table.last()));
        }
    }
}

} // verus!
