//! What is offered while a name is being written.

use vstd::prelude::*;

use crate::model::SymbolKind;
use crate::spec::bindings as sg;
use crate::spec::completion as sco;
use crate::spec::completion::{Context, Items};
use crate::spec::lsp::CompletionItem;
use crate::spec::model as sm;
use crate::spec::resolve as sv;
use crate::spec::resolve::Ref;
use crate::spec::table::Entries;
use crate::spec::text as st;
use crate::spec::text::Text;
use crate::spec::workspace::Workspace;

verus! {

/// Whether a label goes on from a prefix, case aside.
pub open spec fn goes_on_from(label: Text, prefix: Text) -> bool {
    &&& label.len() >= prefix.len()
    &&& st::lower(label.take(prefix.len() as int)) == st::lower(prefix)
}

proof fn lemma_goes_on(label: Text, prefix: Text)
    ensures
        sco::starts(label, prefix) == goes_on_from(label, prefix),
{
    assert(st::lower(label).len() == label.len());
    assert(st::lower(prefix).len() == prefix.len());
    if label.len() >= prefix.len() {
        assert(st::lower(label).subrange(0, prefix.len() as int) =~= st::lower(
            label.take(prefix.len() as int),
        ));
    }
}

proof fn lemma_push(out: Items, x: CompletionItem, y: CompletionItem)
    ensures
        out.push(x).contains(y) <==> out.contains(y) || x == y,
{
    if out.contains(y) {
        let k = choose|k: int| 0 <= k < out.len() && out[k] == y;
        assert(out.push(x)[k] == y);
    }
    if x == y {
        assert(out.push(x)[out.len() as int] == y);
    }
    if out.push(x).contains(y) && x != y {
        let k = choose|k: int| 0 <= k < out.push(x).len() && out.push(x)[k] == y;
        assert(out[k] == y);
    }
}

/// Whether an item shows a symbol: its name, its signature, its kind and its
/// documentation.
pub open spec fn shows_symbol(x: CompletionItem, s: sm::Symbol) -> bool {
    &&& x.label == s.name
    &&& x.detail == s.signature
    &&& x.kind == s.kind
    &&& x.documentation == s.documentation
}

/// Whether a symbol is offered at a place: it can stand there, and its name goes on
/// from what was written.
pub open spec fn fits(
    ws: Workspace,
    f: int,
    scope: sm::Scope,
    c: Context,
    prefix: Text,
    r: Ref,
) -> bool {
    &&& 0 <= r.0 < ws.index.files.len()
    &&& 0 <= r.1 < ws.index.files[r.0].symbols.len()
    &&& goes_on_from(sg::symbol(ws, r).name, prefix)
    &&& sco::can_stand(ws, f, scope, c, r)
}

proof fn lemma_symbol_items(
    ws: Workspace,
    f: int,
    scope: sm::Scope,
    c: Context,
    prefix: Text,
    g: int,
    k: int,
    out: Items,
    x: CompletionItem,
)
    requires
        0 <= g < ws.index.files.len(),
        0 <= k,
    ensures
        sco::symbol_items(ws, f, scope, c, prefix, g, k, out).contains(x) <==> out.contains(x)
            || exists|m: int|
            k <= m && #[trigger] fits(ws, f, scope, c, prefix, (g, m)) && shows_symbol(
                x,
                sg::symbol(ws, (g, m)),
            ),
    decreases ws.index.files[g].symbols.len() - k,
{
    let symbols = ws.index.files[g].symbols;
    if k < symbols.len() {
        lemma_goes_on(symbols[k].name, prefix);
        let hit = fits(ws, f, scope, c, prefix, (g, k));
        let one = sco::item(symbols[k].name, symbols[k]);
        let next = if hit {
            out.push(one)
        } else {
            out
        };
        lemma_symbol_items(ws, f, scope, c, prefix, g, k + 1, next, x);
        lemma_push(out, one, x);
        assert(shows_symbol(x, symbols[k]) <==> x == one);
        if hit && x == one {
            assert(k <= k && fits(ws, f, scope, c, prefix, (g, k)));
        }
        if exists|m: int|
            k <= m && #[trigger] fits(ws, f, scope, c, prefix, (g, m)) && shows_symbol(
                x,
                sg::symbol(ws, (g, m)),
            ) {
            let m = choose|m: int|
                k <= m && #[trigger] fits(ws, f, scope, c, prefix, (g, m)) && shows_symbol(
                    x,
                    sg::symbol(ws, (g, m)),
                );
            if m > k {
                assert(k + 1 <= m && fits(ws, f, scope, c, prefix, (g, m)));
            }
        }
    }
}

proof fn lemma_file_items(
    ws: Workspace,
    f: int,
    scope: sm::Scope,
    c: Context,
    prefix: Text,
    g: int,
    out: Items,
    x: CompletionItem,
)
    requires
        0 <= g,
    ensures
        sco::file_items(ws, f, scope, c, prefix, g, out).contains(x) <==> out.contains(x)
            || exists|h: int, m: int|
            g <= h && #[trigger] fits(ws, f, scope, c, prefix, (h, m)) && shows_symbol(
                x,
                sg::symbol(ws, (h, m)),
            ),
    decreases ws.index.files.len() - g,
{
    if g < ws.index.files.len() {
        let next = sco::symbol_items(ws, f, scope, c, prefix, g, 0, out);
        lemma_symbol_items(ws, f, scope, c, prefix, g, 0, out, x);
        lemma_file_items(ws, f, scope, c, prefix, g + 1, next, x);
        if exists|m: int|
            0 <= m && #[trigger] fits(ws, f, scope, c, prefix, (g, m)) && shows_symbol(
                x,
                sg::symbol(ws, (g, m)),
            ) {
            let m = choose|m: int|
                0 <= m && #[trigger] fits(ws, f, scope, c, prefix, (g, m)) && shows_symbol(
                    x,
                    sg::symbol(ws, (g, m)),
                );
            assert(g <= g && fits(ws, f, scope, c, prefix, (g, m)));
        }
        if exists|h: int, m: int|
            g <= h && #[trigger] fits(ws, f, scope, c, prefix, (h, m)) && shows_symbol(
                x,
                sg::symbol(ws, (h, m)),
            ) {
            let (h, m) = choose|h: int, m: int|
                g <= h && #[trigger] fits(ws, f, scope, c, prefix, (h, m)) && shows_symbol(
                    x,
                    sg::symbol(ws, (h, m)),
                );
            if h == g {
                assert(0 <= m && fits(ws, f, scope, c, prefix, (g, m)));
            } else {
                assert(g + 1 <= h && fits(ws, f, scope, c, prefix, (h, m)));
            }
        }
        if exists|h: int, m: int|
            g + 1 <= h && #[trigger] fits(ws, f, scope, c, prefix, (h, m)) && shows_symbol(
                x,
                sg::symbol(ws, (h, m)),
            ) {
            let (h, m) = choose|h: int, m: int|
                g + 1 <= h && #[trigger] fits(ws, f, scope, c, prefix, (h, m)) && shows_symbol(
                    x,
                    sg::symbol(ws, (h, m)),
                );
            assert(g <= h && fits(ws, f, scope, c, prefix, (h, m)));
        }
    }
}

/// Of the symbols of the workspace, those are offered at a place that can stand
/// there and whose names go on from what was written, and no others.
pub proof fn law_symbols_offered(
    ws: Workspace,
    f: int,
    scope: sm::Scope,
    c: Context,
    prefix: Text,
    x: CompletionItem,
)
    ensures
        sco::file_items(ws, f, scope, c, prefix, 0, Seq::empty()).contains(x) <==> exists|
            h: int,
            m: int,
        | #[trigger]
            fits(ws, f, scope, c, prefix, (h, m)) && shows_symbol(x, sg::symbol(ws, (h, m))),
{
    lemma_file_items(ws, f, scope, c, prefix, 0, Seq::empty(), x);
    assert(!Seq::<CompletionItem>::empty().contains(x));
    if exists|h: int, m: int| #[trigger]
        fits(ws, f, scope, c, prefix, (h, m)) && shows_symbol(x, sg::symbol(ws, (h, m))) {
        let (h, m) = choose|h: int, m: int| #[trigger]
            fits(ws, f, scope, c, prefix, (h, m)) && shows_symbol(x, sg::symbol(ws, (h, m)));
        assert(0 <= h && fits(ws, f, scope, c, prefix, (h, m)));
    }
}

/// What can stand at a place: modules behind `use`; types where a type is named;
/// subroutines and interfaces behind `call`; what a module exports in the list of
/// its `use` statement; and anything that is known in expressions.
pub proof fn law_places(ws: Workspace, f: int, scope: sm::Scope, r: Ref, module: Text)
    ensures
        sco::can_stand(ws, f, scope, Context::Modules, r) == (sg::symbol(ws, r).kind is Module),
        sco::can_stand(ws, f, scope, Context::Types, r) == (sg::symbol(ws, r).kind is Type
            && sv::lookup(ws, f, scope, sg::symbol(ws, r).name) == Some(r)),
        sco::can_stand(ws, f, scope, Context::Variables, r) == (sg::symbol(ws, r).kind is Variable
            && sv::lookup(ws, f, scope, sg::symbol(ws, r).name) == Some(r)),
        sco::can_stand(ws, f, scope, Context::Calls, r) == ((sg::symbol(ws, r).kind is Subroutine
            || sg::symbol(ws, r).kind is Interface) && sv::lookup(
            ws,
            f,
            scope,
            sg::symbol(ws, r).name,
        ) == Some(r)),
        sco::can_stand(ws, f, scope, Context::Any, r) == (sv::lookup(
            ws,
            f,
            scope,
            sg::symbol(ws, r).name,
        ) == Some(r)),
        sco::can_stand(ws, f, scope, Context::Members(module), r) == (sv::exported(
            ws.index,
            module,
            sg::symbol(ws, r).name,
        ) == Some(r)),
{
}

proof fn lemma_macros(
    macros: Entries<Text, Text>,
    prefix: Text,
    i: int,
    out: Items,
    x: CompletionItem,
)
    requires
        0 <= i,
    ensures
        sco::macro_items(macros, prefix, i, out).contains(x) <==> out.contains(x) || exists|k: int|
            i <= k < macros.len() && goes_on_from((#[trigger] macros[k]).0, prefix) && x
                == sco::macro_item(macros[k].0, macros[k].1),
    decreases macros.len() - i,
{
    if i < macros.len() {
        let one = sco::macro_item(macros[i].0, macros[i].1);
        lemma_goes_on(macros[i].0, prefix);
        let next = sco::offer(out, prefix, one);
        lemma_macros(macros, prefix, i + 1, next, x);
        lemma_push(out, one, x);
    }
}

/// A macro is offered under its name, with the directive that defines it.
pub proof fn law_macros_offered(macros: Entries<Text, Text>, prefix: Text, x: CompletionItem)
    ensures
        sco::macro_items(macros, prefix, 0, Seq::empty()).contains(x) <==> exists|k: int|
            0 <= k < macros.len() && goes_on_from((#[trigger] macros[k]).0, prefix) && x.label
                == macros[k].0 && x.detail == (if macros[k].1.len() == 0 {
                "#define "@ + macros[k].0
            } else {
                "#define "@ + macros[k].0 + " "@ + macros[k].1
            }) && x == sco::macro_item(macros[k].0, macros[k].1),
{
    lemma_macros(macros, prefix, 0, Seq::empty(), x);
    assert(!Seq::<CompletionItem>::empty().contains(x));
}

proof fn lemma_words(words: Seq<Text>, prefix: Text, i: int, out: Items, x: CompletionItem)
    requires
        0 <= i,
    ensures
        sco::word_items(words, prefix, i, out).contains(x) <==> out.contains(x) || exists|k: int|
            i <= k < words.len() && goes_on_from(#[trigger] words[k], prefix) && x
                == sco::word_item(words[k]),
    decreases words.len() - i,
{
    if i < words.len() {
        let one = sco::word_item(words[i]);
        lemma_goes_on(words[i], prefix);
        let next = sco::offer(out, prefix, one);
        lemma_words(words, prefix, i + 1, next, x);
        lemma_push(out, one, x);
    }
}

/// A word of the language is offered as such where it goes on from what was
/// written.
pub proof fn law_words_offered(words: Seq<Text>, prefix: Text, x: CompletionItem)
    ensures
        sco::word_items(words, prefix, 0, Seq::empty()).contains(x) <==> exists|k: int|
            0 <= k < words.len() && goes_on_from(#[trigger] words[k], prefix) && x.label == words[k]
                && x.detail == "keyword"@ && x.kind == SymbolKind::Use && x.documentation is None,
{
    lemma_words(words, prefix, 0, Seq::empty(), x);
    assert(!Seq::<CompletionItem>::empty().contains(x));
}

} // verus!
