//! The symbols of a file by position and as a tree.

use vstd::prelude::*;

use crate::model::{Position, Range, SymbolKind};
use crate::spec::cursor as su;
use crate::spec::model as sm;
use crate::spec::model::Scope;
use crate::spec::order as sr;
use crate::spec::text as st;
use crate::spec::text::Text;

verus! {

// ---------------------------------------------------------------------------
// By position
// ---------------------------------------------------------------------------

/// The innermost symbol with a scope that holds a position, among the symbols
/// from `i` on and the symbol `best`: the one that starts last.
pub open spec fn scope_owner_from(
    symbols: Seq<sm::Symbol>,
    pos: Position,
    i: int,
    best: Option<int>,
) -> Option<int>
    decreases symbols.len() - i,
{
    if i >= symbols.len() {
        best
    } else {
        let s = symbols[i];
        let better = sm::is_scope_kind(s.kind) && sm::range_contains(s.range, pos) && match best {
            Some(b) => symbols[b].range.start.line <= s.range.start.line,
            None => true,
        };
        scope_owner_from(
            symbols,
            pos,
            i + 1,
            if better {
                Some(i)
            } else {
                best
            },
        )
    }
}

/// The names of the scopes around a position, outermost first.
pub open spec fn scope_at(symbols: Seq<sm::Symbol>, pos: Position) -> Scope {
    match scope_owner_from(symbols, pos, 0, None) {
        Some(k) => symbols[k].scope.push(symbols[k].name),
        None => Seq::empty(),
    }
}

/// The symbol called `word` whose name holds a position, among the symbols
/// from `i` on and the symbol `best`: the one in the innermost scope.
pub open spec fn named_at_from(
    symbols: Seq<sm::Symbol>,
    word: Text,
    pos: Position,
    i: int,
    best: Option<int>,
) -> Option<int>
    decreases symbols.len() - i,
{
    if i >= symbols.len() {
        best
    } else {
        let s = symbols[i];
        let better = st::same(s.name, word) && sm::range_contains(s.selection_range, pos)
            && match best {
            Some(b) => symbols[b].scope.len() <= s.scope.len(),
            None => true,
        };
        named_at_from(
            symbols,
            word,
            pos,
            i + 1,
            if better {
                Some(i)
            } else {
                best
            },
        )
    }
}

/// Whether names of the scope `candidate` are visible in the scope `current`.
pub open spec fn is_visible(current: Scope, candidate: Scope) -> bool {
    candidate.len() <= current.len() && st::same_scope(
        candidate,
        current.take(candidate.len() as int),
    )
}

/// The symbol called `word` that is visible in a scope, among the symbols from
/// `i` on and the symbol `best`: the one in the innermost scope.
pub open spec fn visible_from(
    symbols: Seq<sm::Symbol>,
    word: Text,
    current: Scope,
    i: int,
    best: Option<int>,
) -> Option<int>
    decreases symbols.len() - i,
{
    if i >= symbols.len() {
        best
    } else {
        let s = symbols[i];
        let better = st::same(s.name, word) && is_visible(current, s.scope) && match best {
            Some(b) => symbols[b].scope.len() <= s.scope.len(),
            None => true,
        };
        visible_from(
            symbols,
            word,
            current,
            i + 1,
            if better {
                Some(i)
            } else {
                best
            },
        )
    }
}

/// The symbol that the word at a position stands for.
pub open spec fn symbol_at(p: sm::ParsedFile, pos: Position) -> Option<int> {
    match su::word_at_source(p.source, pos) {
        Some(word) => match named_at_from(p.symbols, word, pos, 0, None) {
            Some(k) => Some(k),
            None => visible_from(p.symbols, word, scope_at(p.symbols, pos), 0, None),
        },
        None => None,
    }
}

// ---------------------------------------------------------------------------
// As a tree
// ---------------------------------------------------------------------------

/// A symbol with the symbols of its scope.
#[verifier::ext_equal]
pub struct DocumentSymbol {
    pub name: Text,
    pub detail: Option<Text>,
    pub kind: SymbolKind,
    pub range: Range,
    pub selection_range: Range,
    pub children: Seq<DocumentSymbol>,
}

/// Whether `a` starts before `b`, or at the same place with a name that is not
/// behind that of `b`.
pub open spec fn symbol_not_after(a: DocumentSymbol, b: DocumentSymbol) -> bool {
    if a.range.start == b.range.start {
        sr::text_not_after(a.name, b.name)
    } else {
        sm::not_after(a.range.start, b.range.start)
    }
}

/// The order of the symbols of a scope.
pub open spec fn symbol_order() -> sr::Order<DocumentSymbol> {
    |a: DocumentSymbol, b: DocumentSymbol| symbol_not_after(a, b)
}

/// Whether the scope of something is the symbol with the given qualified name.
pub open spec fn belongs_to(scope: Scope, qualified: Text) -> bool {
    qualified.len() > 0 && st::same(st::join(scope, "::"@), qualified)
}

/// The symbol of a generic binding.
pub open spec fn generic_symbol(g: sm::GenericBinding) -> DocumentSymbol {
    DocumentSymbol {
        name: g.name,
        detail: Some("generic binding => "@ + st::join(g.procedures, ", "@)),
        kind: SymbolKind::Method,
        range: g.range,
        selection_range: g.range,
        children: Seq::empty(),
    }
}

/// The symbols of the generic bindings from `i` on that belong to a symbol,
/// behind `out`.
pub open spec fn generics_from(
    bindings: Seq<sm::GenericBinding>,
    qualified: Text,
    i: int,
    out: Seq<DocumentSymbol>,
) -> Seq<DocumentSymbol>
    decreases bindings.len() - i,
{
    if i >= bindings.len() {
        out
    } else {
        generics_from(
            bindings,
            qualified,
            i + 1,
            if belongs_to(bindings[i].scope, qualified) {
                out.push(generic_symbol(bindings[i]))
            } else {
                out
            },
        )
    }
}

/// The parent in `submodule (ancestor:parent) name`.
pub open spec fn nested_submodule_parent_name(signature: Text) -> Option<Text> {
    let rest = st::trim_start(signature);
    let keyword = "submodule"@;
    if rest.len() >= keyword.len() && st::same(rest.take(keyword.len() as int), keyword) {
        match st::strip_char(st::trim_start(rest.skip(keyword.len() as int)), '(') {
            Some(after) => match st::split_once_char(after, ')') {
                Some((inner, tail)) => match st::split_once_char(inner, ':') {
                    Some((ancestor, parent)) => if st::is_blank(parent) {
                        None
                    } else {
                        Some(st::trim(parent))
                    },
                    None => None,
                },
                None => None,
            },
            None => None,
        }
    } else {
        None
    }
}

/// A symbol with its children. A submodule of a submodule stands in its
/// parent.
pub open spec fn with_children(s: sm::Symbol, children: Seq<DocumentSymbol>) -> DocumentSymbol {
    let symbol = DocumentSymbol {
        name: s.name,
        detail: if s.signature.len() == 0 {
            None
        } else {
            Some(s.signature)
        },
        kind: s.kind,
        range: s.range,
        selection_range: s.selection_range,
        children,
    };
    match nested_submodule_parent_name(s.signature) {
        Some(parent) => if s.kind is Submodule {
            DocumentSymbol {
                name: parent,
                detail: Some(s.signature),
                kind: SymbolKind::Submodule,
                range: s.range,
                selection_range: s.selection_range,
                children: seq![symbol],
            }
        } else {
            symbol
        },
        None => symbol,
    }
}

/// The length of the longest qualified name of the first `n` symbols.
pub open spec fn longest(symbols: Seq<sm::Symbol>, n: nat) -> nat
    decreases n,
{
    if n == 0 || n > symbols.len() {
        0
    } else {
        let len = sm::qualified_name(symbols[n - 1]).len();
        let rest = longest(symbols, (n - 1) as nat);
        if len > rest {
            len
        } else {
            rest
        }
    }
}

/// The symbol `k` with the symbols of its scope, and those of their scopes.
pub open spec fn document_symbol_at(p: sm::ParsedFile, k: int) -> DocumentSymbol
    decreases
            longest(p.symbols, p.symbols.len()) - sm::qualified_name(p.symbols[k]).len(),
            p.symbols.len() + 1,
{
    let s = p.symbols[k];
    let qualified = sm::qualified_name(s);
    with_children(
        s,
        sr::sorted(
            generics_from(
                p.generic_bindings,
                qualified,
                0,
                children_from(p, k, 0, Seq::empty()),
            ),
            symbol_order(),
        ),
    )
}

/// The symbols from `i` on that belong to the symbol `k`, behind `out`.
pub open spec fn children_from(
    p: sm::ParsedFile,
    k: int,
    i: int,
    out: Seq<DocumentSymbol>,
) -> Seq<DocumentSymbol>
    decreases
            longest(p.symbols, p.symbols.len()) - sm::qualified_name(p.symbols[k]).len(),
            p.symbols.len() - i,
{
    if i < 0 || i >= p.symbols.len() {
        out
    } else if belongs_to(p.symbols[i].scope, sm::qualified_name(p.symbols[k])) {
        proof {
            lemma_child(p.symbols, k, i);
        }
        children_from(p, k, i + 1, out.push(document_symbol_at(p, i)))
    } else {
        children_from(p, k, i + 1, out)
    }
}

/// The symbols from `i` on that stand in no scope, behind `out`.
pub open spec fn roots_from(
    p: sm::ParsedFile,
    i: int,
    out: Seq<DocumentSymbol>,
) -> Seq<DocumentSymbol>
    decreases p.symbols.len() - i,
{
    if i >= p.symbols.len() {
        out
    } else {
        roots_from(
            p,
            i + 1,
            if p.symbols[i].scope.len() == 0 {
                out.push(document_symbol_at(p, i))
            } else {
                out
            },
        )
    }
}

/// The symbols of a file as a tree.
pub open spec fn document_symbols(p: sm::ParsedFile) -> Seq<DocumentSymbol> {
    roots_from(p, 0, Seq::empty())
}

// ---------------------------------------------------------------------------
// Facts
// ---------------------------------------------------------------------------

/// No qualified name is longer than the longest.
pub proof fn lemma_longest(symbols: Seq<sm::Symbol>, i: int, n: nat)
    requires
        0 <= i < n <= symbols.len(),
    ensures
        sm::qualified_name(symbols[i]).len() <= longest(symbols, n),
    decreases n,
{
    if i < n - 1 {
        lemma_longest(symbols, i, (n - 1) as nat);
    }
}

/// What belongs to a symbol has a longer qualified name.
pub proof fn lemma_child(symbols: Seq<sm::Symbol>, k: int, i: int)
    requires
        0 <= i < symbols.len(),
        belongs_to(symbols[i].scope, sm::qualified_name(symbols[k])),
    ensures
        sm::qualified_name(symbols[k]).len() < sm::qualified_name(symbols[i]).len() <= longest(
            symbols,
            symbols.len(),
        ),
{
    lemma_longest(symbols, i, symbols.len());
    reveal_strlit("::");
    let joined = st::join(symbols[i].scope, "::"@);
    let qualified = sm::qualified_name(symbols[k]);
    assert(st::lower(joined).len() == joined.len());
    assert(st::lower(qualified).len() == qualified.len());
}

} // verus!
