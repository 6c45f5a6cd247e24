//! The symbols of a file by position and as a tree.

use vstd::prelude::*;

use crate::model::Position;
use crate::spec::cursor as su;
use crate::spec::model as sm;
use crate::spec::model::{Scope, Symbol};
use crate::spec::order as sr;
use crate::spec::outline as so;
use crate::spec::outline::DocumentSymbol;
use crate::spec::text as st;
use crate::spec::text::Text;

verus! {

/// Whether a symbol has a scope that holds a position.
pub open spec fn surrounds(s: Symbol, pos: Position) -> bool {
    sm::is_scope_kind(s.kind) && sm::range_contains(s.range, pos)
}

proof fn lemma_scope_owner(symbols: Seq<Symbol>, pos: Position, i: int, best: Option<int>)
    requires
        0 <= i <= symbols.len(),
        match best {
            Some(b) => is_innermost(symbols.take(i), pos, b),
            None => forall|j: int| 0 <= j < i ==> !surrounds(#[trigger] symbols[j], pos),
        },
    ensures
        match so::scope_owner_from(symbols, pos, i, best) {
            Some(b) => is_innermost(symbols, pos, b),
            None => forall|j: int|
                0 <= j < symbols.len() ==> !surrounds(#[trigger] symbols[j], pos),
        },
    decreases symbols.len() - i,
{
    assert(symbols.take(symbols.len() as int) =~= symbols);
    if i < symbols.len() {
        let s = symbols[i];
        let all = symbols.take(i + 1);
        assert(forall|j: int| 0 <= j < i ==> #[trigger] all[j] == symbols.take(i)[j]);
        let better = sm::is_scope_kind(s.kind) && sm::range_contains(s.range, pos) && match best {
            Some(b) => symbols[b].range.start.line <= s.range.start.line,
            None => true,
        };
        lemma_scope_owner(
            symbols,
            pos,
            i + 1,
            if better {
                Some(i)
            } else {
                best
            },
        );
    }
}

/// Whether the symbol `k` opens the innermost scope around a position: no scope
/// around it starts on a later line, and of those that start on the same line
/// it is the last one.
pub open spec fn is_innermost(symbols: Seq<Symbol>, pos: Position, k: int) -> bool {
    &&& 0 <= k < symbols.len()
    &&& surrounds(symbols[k], pos)
    &&& forall|j: int|
        0 <= j < symbols.len() && j != k && surrounds(#[trigger] symbols[j], pos)
            ==> symbols[j].range.start.line < symbols[k].range.start.line || (j < k
            && symbols[j].range.start.line == symbols[k].range.start.line)
}

/// The scope at a position is that of the innermost symbol around it; it is the
/// outermost one exactly where there is none.
pub proof fn law_scope_at(symbols: Seq<Symbol>, pos: Position)
    ensures
        so::scope_at(symbols, pos).len() == 0 <==> forall|j: int|
            0 <= j < symbols.len() ==> !surrounds(#[trigger] symbols[j], pos),
        so::scope_at(symbols, pos).len() > 0 ==> exists|k: int| #[trigger]
            is_innermost(symbols, pos, k) && so::scope_at(symbols, pos)
                == symbols[k].scope.push(symbols[k].name),
{
    lemma_scope_owner(symbols, pos, 0, None);
    if let Some(k) = so::scope_owner_from(symbols, pos, 0, None) {
        assert(is_innermost(symbols, pos, k));
        assert(surrounds(symbols[k], pos));
    }
}

/// Whether the symbol `k` lies in a scope further in than that of the symbol
/// `j`, or in one as far in and behind it in the list.
pub open spec fn is_further_in(symbols: Seq<Symbol>, k: int, j: int) -> bool {
    symbols[j].scope.len() < symbols[k].scope.len() || (j < k && symbols[j].scope.len()
        == symbols[k].scope.len())
}

/// Whether a symbol is called `word` and its name holds a position.
pub open spec fn is_named_at(s: Symbol, word: Text, pos: Position) -> bool {
    st::same(s.name, word) && sm::range_contains(s.selection_range, pos)
}

/// Whether the symbol `k` is the innermost one that is called `word` and whose
/// name holds a position: none has a longer scope path, and of those with one
/// as long it is the last one.
pub open spec fn is_best_named(symbols: Seq<Symbol>, word: Text, pos: Position, k: int) -> bool {
    &&& 0 <= k < symbols.len()
    &&& is_named_at(symbols[k], word, pos)
    &&& forall|j: int|
        0 <= j < symbols.len() && j != k && is_named_at(#[trigger] symbols[j], word, pos)
            ==> is_further_in(symbols, k, j)
}

proof fn lemma_named_at(symbols: Seq<Symbol>, word: Text, pos: Position, i: int, best: Option<int>)
    requires
        0 <= i <= symbols.len(),
        match best {
            Some(b) => is_best_named(symbols.take(i), word, pos, b),
            None => forall|j: int| 0 <= j < i ==> !is_named_at(#[trigger] symbols[j], word, pos),
        },
    ensures
        match so::named_at_from(symbols, word, pos, i, best) {
            Some(b) => is_best_named(symbols, word, pos, b),
            None => forall|j: int|
                0 <= j < symbols.len() ==> !is_named_at(#[trigger] symbols[j], word, pos),
        },
    decreases symbols.len() - i,
{
    assert(symbols.take(symbols.len() as int) =~= symbols);
    if i < symbols.len() {
        let s = symbols[i];
        let all = symbols.take(i + 1);
        assert(forall|j: int| 0 <= j < i ==> #[trigger] all[j] == symbols.take(i)[j]);
        let better = st::same(s.name, word) && sm::range_contains(s.selection_range, pos)
            && match best {
            Some(b) => symbols[b].scope.len() <= s.scope.len(),
            None => true,
        };
        lemma_named_at(
            symbols,
            word,
            pos,
            i + 1,
            if better {
                Some(i)
            } else {
                best
            },
        );
    }
}

/// Whether a symbol is called `word` and can be seen in a scope.
pub open spec fn is_seen(s: Symbol, word: Text, current: Scope) -> bool {
    st::same(s.name, word) && so::is_visible(current, s.scope)
}

/// Whether the symbol `k` is the innermost one that is called `word` and can be
/// seen in a scope: none has a longer scope path, and of those with one as long
/// it is the last one.
pub open spec fn is_best_seen(symbols: Seq<Symbol>, word: Text, current: Scope, k: int) -> bool {
    &&& 0 <= k < symbols.len()
    &&& is_seen(symbols[k], word, current)
    &&& forall|j: int|
        0 <= j < symbols.len() && j != k && is_seen(#[trigger] symbols[j], word, current)
            ==> is_further_in(symbols, k, j)
}

proof fn lemma_seen(symbols: Seq<Symbol>, word: Text, current: Scope, i: int, best: Option<int>)
    requires
        0 <= i <= symbols.len(),
        match best {
            Some(b) => is_best_seen(symbols.take(i), word, current, b),
            None => forall|j: int| 0 <= j < i ==> !is_seen(#[trigger] symbols[j], word, current),
        },
    ensures
        match so::visible_from(symbols, word, current, i, best) {
            Some(b) => is_best_seen(symbols, word, current, b),
            None => forall|j: int|
                0 <= j < symbols.len() ==> !is_seen(#[trigger] symbols[j], word, current),
        },
    decreases symbols.len() - i,
{
    assert(symbols.take(symbols.len() as int) =~= symbols);
    if i < symbols.len() {
        let s = symbols[i];
        let all = symbols.take(i + 1);
        assert(forall|j: int| 0 <= j < i ==> #[trigger] all[j] == symbols.take(i)[j]);
        let better = st::same(s.name, word) && so::is_visible(current, s.scope) && match best {
            Some(b) => symbols[b].scope.len() <= s.scope.len(),
            None => true,
        };
        lemma_seen(
            symbols,
            word,
            current,
            i + 1,
            if better {
                Some(i)
            } else {
                best
            },
        );
    }
}

/// The symbol at a position is called like the word there. It is the innermost
/// one whose name stands there. Where there is none, it is the innermost one
/// that can be seen from there. Nothing is found only where there is no such
/// symbol either.
pub proof fn law_symbol_at(p: sm::ParsedFile, pos: Position, word: Text)
    requires
        su::word_at_source(p.source, pos) == Some(word),
    ensures
        ({
            let current = so::scope_at(p.symbols, pos);
            let none_named = forall|j: int|
                0 <= j < p.symbols.len() ==> !is_named_at(#[trigger] p.symbols[j], word, pos);
            match so::symbol_at(p, pos) {
                Some(k) => is_best_named(p.symbols, word, pos, k) || (none_named && is_best_seen(
                    p.symbols,
                    word,
                    current,
                    k,
                )),
                None => none_named && forall|j: int|
                    0 <= j < p.symbols.len() ==> !is_seen(#[trigger] p.symbols[j], word, current),
            }
        }),
{
    lemma_named_at(p.symbols, word, pos, 0, None);
    lemma_seen(p.symbols, word, so::scope_at(p.symbols, pos), 0, None);
}

proof fn lemma_symbol_order()
    ensures
        sr::is_order(so::symbol_order()),
{
    let order = so::symbol_order();
    assert forall|a: DocumentSymbol, b: DocumentSymbol| #[trigger] order(a, b) || order(b, a) by {
        sr::lemma_text_order(a.name, b.name, b.name, 0);
    }
    assert forall|a: DocumentSymbol, b: DocumentSymbol, c: DocumentSymbol| #[trigger]
        order(a, b) && #[trigger] order(b, c) implies order(a, c) by {
        sr::lemma_text_order(a.name, b.name, c.name, 0);
    }
}

/// What a symbol holds stands in order: by where it starts, then by name.
pub proof fn law_children_sorted(p: sm::ParsedFile, k: int)
    ensures
        sr::is_sorted(so::document_symbol_at(p, k).children, so::symbol_order()),
{
    let all = so::generics_from(
        p.generic_bindings,
        sm::qualified_name(p.symbols[k]),
        0,
        so::children_from(p, k, 0, Seq::empty()),
    );
    lemma_symbol_order();
    sr::law_sorted(all, so::symbol_order());
}

} // verus!
