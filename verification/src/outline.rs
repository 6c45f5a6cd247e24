//! The symbols of a file by position and as a tree.

use vstd::prelude::*;
use vstd::slice::slice_subrange;

use crate::cursor::word_at_source;
use crate::list::{empty, put};
use crate::order::{Ordered, sorted, text_not_after};
use crate::model::{GenericBinding, ParsedFile, Position, Range, Symbol, SymbolKind};
use crate::spec::model as sm;
use crate::spec::order as sr;
use crate::spec::outline as so;
use crate::spec::text as st;
use crate::text::{
    chars, copy_option, copy_texts, join, owned, push_text, same, same_scope, same_text, skip,
    split_once_char, strip_char, take, text, trim, trim_start,
};

verus! {

// ---------------------------------------------------------------------------
// By position
// ---------------------------------------------------------------------------

/// Whether names of the scope `candidate` are visible in the scope `current`.
pub fn is_visible(current: &Vec<String>, candidate: &Vec<String>) -> (r: bool)
    ensures
        r == so::is_visible(current.deep_view(), candidate.deep_view()),
{
    assert(current.deep_view().len() == current@.len());
    assert(candidate.deep_view().len() == candidate@.len());
    if candidate.len() > current.len() {
        return false;
    }
    let outer = slice_subrange(current.as_slice(), 0, candidate.len());
    assert(outer.deep_view() =~= current.deep_view().take(candidate@.len() as int));
    let names = candidate.as_slice();
    assert(names.deep_view() =~= candidate.deep_view());
    same_scope(names, outer)
}

impl ParsedFile {
    /// The innermost symbol with a scope that holds a position.
    fn scope_owner(&self, pos: Position) -> (r: Option<usize>)
        ensures
            st::at(r) == so::scope_owner_from(self.deep_view().symbols, pos, 0, None),
            r matches Some(k) ==> k < self.symbols@.len(),
    {
        let ghost symbols = self.deep_view().symbols;
        let mut best: Option<usize> = None;
        let mut i: usize = 0;
        while i < self.symbols.len()
            invariant
                i <= self.symbols@.len(),
                symbols == self.deep_view().symbols,
                best matches Some(b) ==> b < self.symbols@.len(),
                so::scope_owner_from(symbols, pos, 0, None) == so::scope_owner_from(
                    symbols,
                    pos,
                    i as int,
                    st::at(best),
                ),
            decreases self.symbols@.len() - i,
        {
            let s = &self.symbols[i];
            assert(symbols[i as int] == s.deep_view());
            let later: bool = match best {
                Some(b) => {
                    assert(symbols[b as int] == self.symbols@[b as int].deep_view());
                    self.symbols[b].range.start.line <= s.range.start.line
                },
                None => true,
            };
            if s.kind.is_scope() && s.range.contains(pos) && later {
                best = Some(i);
            }
            i = i + 1;
        }
        best
    }

    /// The names of the scopes around a position, outermost first.
    pub fn scope_at(&self, pos: Position) -> (r: Vec<String>)
        ensures
            r.deep_view() == so::scope_at(self.deep_view().symbols, pos),
    {
        match self.scope_owner(pos) {
            Some(k) => {
                assert(self.deep_view().symbols[k as int] == self.symbols@[k as int].deep_view());
                let mut scope = copy_texts(&self.symbols[k].scope);
                put(&mut scope, self.symbols[k].name.clone());
                scope
            },
            None => empty(),
        }
    }

    /// The symbol called `word` whose name holds a position.
    fn named_at(&self, word: &str, pos: Position) -> (r: Option<usize>)
        ensures
            st::at(r) == so::named_at_from(self.deep_view().symbols, word@, pos, 0, None),
            r matches Some(k) ==> k < self.symbols@.len(),
    {
        let ghost symbols = self.deep_view().symbols;
        let mut best: Option<usize> = None;
        let mut i: usize = 0;
        while i < self.symbols.len()
            invariant
                i <= self.symbols@.len(),
                symbols == self.deep_view().symbols,
                best matches Some(b) ==> b < self.symbols@.len(),
                so::named_at_from(symbols, word@, pos, 0, None) == so::named_at_from(
                    symbols,
                    word@,
                    pos,
                    i as int,
                    st::at(best),
                ),
            decreases self.symbols@.len() - i,
        {
            let s = &self.symbols[i];
            assert(symbols[i as int] == s.deep_view());
            let deeper: bool = match best {
                Some(b) => {
                    assert(symbols[b as int] == self.symbols@[b as int].deep_view());
                    self.symbols[b].scope.len() <= s.scope.len()
                },
                None => true,
            };
            if same_text(s.name.as_str(), word) && s.selection_range.contains(pos) && deeper {
                best = Some(i);
            }
            i = i + 1;
        }
        best
    }

    /// The symbol called `word` that is visible in a scope.
    fn visible_symbol(&self, word: &str, current: &Vec<String>) -> (r: Option<usize>)
        ensures
            st::at(r) == so::visible_from(
                self.deep_view().symbols,
                word@,
                current.deep_view(),
                0,
                None,
            ),
            r matches Some(k) ==> k < self.symbols@.len(),
    {
        let ghost symbols = self.deep_view().symbols;
        let mut best: Option<usize> = None;
        let mut i: usize = 0;
        while i < self.symbols.len()
            invariant
                i <= self.symbols@.len(),
                symbols == self.deep_view().symbols,
                best matches Some(b) ==> b < self.symbols@.len(),
                so::visible_from(symbols, word@, current.deep_view(), 0, None) == so::visible_from(
                    symbols,
                    word@,
                    current.deep_view(),
                    i as int,
                    st::at(best),
                ),
            decreases self.symbols@.len() - i,
        {
            let s = &self.symbols[i];
            assert(symbols[i as int] == s.deep_view());
            let deeper: bool = match best {
                Some(b) => {
                    assert(symbols[b as int] == self.symbols@[b as int].deep_view());
                    self.symbols[b].scope.len() <= s.scope.len()
                },
                None => true,
            };
            if same_text(s.name.as_str(), word) && is_visible(current, &s.scope) && deeper {
                best = Some(i);
            }
            i = i + 1;
        }
        best
    }

    /// The symbol that the word at a position stands for.
    pub fn symbol_at(&self, pos: Position) -> (r: Option<&Symbol>)
        ensures
            match so::symbol_at(self.deep_view(), pos) {
                Some(k) => 0 <= k < self.symbols@.len() && r == Some(&self.symbols@[k]),
                None => r is None,
            },
    {
        let word = match word_at_source(self.source.as_str(), pos) {
            Some(word) => word,
            None => {
                return None;
            },
        };
        if let Some(k) = self.named_at(word.as_str(), pos) {
            return Some(&self.symbols[k]);
        }
        let scope = self.scope_at(pos);
        match self.visible_symbol(word.as_str(), &scope) {
            Some(k) => Some(&self.symbols[k]),
            None => None,
        }
    }
}

// ---------------------------------------------------------------------------
// As a tree
// ---------------------------------------------------------------------------

/// A symbol with the symbols of its scope.
#[derive(Debug, PartialEq, Eq)]
pub struct DocumentSymbol {
    pub name: String,
    pub detail: Option<String>,
    pub kind: SymbolKind,
    pub range: Range,
    pub selection_range: Range,
    pub children: Vec<DocumentSymbol>,
}

impl DocumentSymbol {
    /// The model of a symbol.
    pub open spec fn model(self) -> so::DocumentSymbol
        decreases self,
    {
        so::DocumentSymbol {
            name: self.name@,
            detail: self.detail.deep_view(),
            kind: self.kind,
            range: self.range,
            selection_range: self.selection_range,
            children: Seq::new(
                self.children@.len(),
                |i: int|
                    if 0 <= i < self.children@.len() {
                        self.children@[i].model()
                    } else {
                        arbitrary()
                    },
            ),
        }
    }
}

/// The models of a list of symbols.
pub open spec fn models(list: Seq<DocumentSymbol>) -> Seq<so::DocumentSymbol> {
    Seq::new(list.len(), |i: int| list[i].model())
}

impl Clone for DocumentSymbol {
    fn clone(&self) -> (r: Self)
        ensures
            r.model() == self.model(),
        decreases self,
    {
        let ghost all = models(self.children@);
        let mut children: Vec<DocumentSymbol> = Vec::new();
        let mut i: usize = 0;
        while i < self.children.len()
            invariant
                i <= self.children@.len(),
                all == models(self.children@),
                models(children@) == all.take(i as int),
            decreases self.children@.len() - i,
        {
            assert(decreases_to!(*self => self.children));
            assert(decreases_to!(self.children => self.children@));
            assert(decreases_to!(self.children@ => self.children@[i as int]));
            let ghost before = children@;
            let child = self.children[i].clone();
            assert(child.model() == all[i as int]);
            children.push(child);
            assert(models(children@) =~= models(before).push(child.model()));
            i = i + 1;
            assert(models(children@) =~= all.take(i as int));
        }
        assert(models(children@) =~= all);
        let r = DocumentSymbol {
            name: self.name.clone(),
            detail: copy_option(&self.detail),
            kind: self.kind,
            range: self.range,
            selection_range: self.selection_range,
            children,
        };
        assert(r.model().children =~= all);
        assert(self.model().children =~= all);
        r
    }
}

impl Ordered for DocumentSymbol {
    type Model = so::DocumentSymbol;

    open spec fn order_model(&self) -> so::DocumentSymbol {
        self.model()
    }

    open spec fn order() -> sr::Order<so::DocumentSymbol> {
        so::symbol_order()
    }

    fn is_not_after(&self, other: &Self) -> (r: bool) {
        let p = self.range.start;
        let q = other.range.start;
        if p == q {
            text_not_after(self.name.as_str(), other.name.as_str())
        } else {
            p.line < q.line || (p.line == q.line && p.character <= q.character)
        }
    }
}

/// Whether the scope of something is the symbol with the given qualified name.
fn belongs_to(scope: &Vec<String>, qualified: &[char]) -> (r: bool)
    ensures
        r == so::belongs_to(scope.deep_view(), qualified@),
{
    if qualified.len() == 0 {
        return false;
    }
    let names = scope.as_slice();
    assert(names.deep_view() =~= scope.deep_view());
    let joined = join(names, "::");
    let joined_chars = chars(joined.as_str());
    same(joined_chars.as_slice(), qualified)
}

/// The symbol of a generic binding.
fn generic_symbol(g: &GenericBinding) -> (r: DocumentSymbol)
    ensures
        r.model() == so::generic_symbol(g.deep_view()),
{
    let names = g.procedures.as_slice();
    assert(names.deep_view() =~= g.procedures.deep_view());
    let mut detail = owned("generic binding => ");
    push_text(&mut detail, join(names, ", ").as_str());
    let r = DocumentSymbol {
        name: g.name.clone(),
        detail: Some(detail),
        kind: SymbolKind::Method,
        range: g.range,
        selection_range: g.range,
        children: Vec::new(),
    };
    assert(r.model().children =~= Seq::empty());
    r
}

/// The parent in `submodule (ancestor:parent) name`.
fn nested_submodule_parent_name(signature: &[char]) -> (r: Option<String>)
    ensures
        r.deep_view() == so::nested_submodule_parent_name(signature@),
{
    let rest = trim_start(signature);
    let keyword = chars("submodule");
    if rest.len() < keyword.len() || !same(take(rest, keyword.len()), keyword.as_slice()) {
        return None;
    }
    match strip_char(trim_start(skip(rest, keyword.len())), '(') {
        Some(after) => match split_once_char(after, ')') {
            Some((inner, _)) => match split_once_char(inner, ':') {
                Some((_, parent)) => {
                    let name = trim(parent);
                    if name.len() == 0 {
                        None
                    } else {
                        Some(text(name))
                    }
                },
                None => None,
            },
            None => None,
        },
        None => None,
    }
}

/// A symbol with its children.
fn with_children(s: &Symbol, children: Vec<DocumentSymbol>) -> (r: DocumentSymbol)
    ensures
        r.model() == so::with_children(s.deep_view(), models(children@)),
{
    let signature = chars(s.signature.as_str());
    let detail = if signature.len() == 0 {
        None
    } else {
        Some(s.signature.clone())
    };
    let ghost kids = models(children@);
    let symbol = DocumentSymbol {
        name: s.name.clone(),
        detail,
        kind: s.kind,
        range: s.range,
        selection_range: s.selection_range,
        children,
    };
    assert(symbol.model().children =~= kids);
    if s.kind == SymbolKind::Submodule {
        if let Some(parent) = nested_submodule_parent_name(signature.as_slice()) {
            let mut inner: Vec<DocumentSymbol> = Vec::new();
            let ghost inner_model = symbol.model();
            inner.push(symbol);
            let outer = DocumentSymbol {
                name: parent,
                detail: Some(s.signature.clone()),
                kind: SymbolKind::Submodule,
                range: s.range,
                selection_range: s.selection_range,
                children: inner,
            };
            assert(outer.model().children =~= seq![inner_model]);
            return outer;
        }
    }
    symbol
}

/// Puts a symbol at the end of a list.
fn put_symbol(list: &mut Vec<DocumentSymbol>, symbol: DocumentSymbol)
    ensures
        models(final(list)@) == models(old(list)@).push(symbol.model()),
{
    let ghost wanted = models(list@).push(symbol.model());
    list.push(symbol);
    assert(models(list@) =~= wanted);
}

impl ParsedFile {
    /// The symbol `k` with the symbols of its scope, and those of their
    /// scopes.
    fn document_symbol_at(&self, k: usize) -> (r: DocumentSymbol)
        requires
            k < self.symbols@.len(),
        ensures
            r.model() == so::document_symbol_at(self.deep_view(), k as int),
        decreases
                so::longest(self.deep_view().symbols, self.deep_view().symbols.len())
                    - sm::qualified_name(self.deep_view().symbols[k as int]).len(),
    {
        let ghost p = self.deep_view();
        let s = &self.symbols[k];
        assert(p.symbols[k as int] == s.deep_view());
        assert(p.symbols.len() == self.symbols@.len());
        let name = s.qualified_name();
        let qualified = chars(name.as_str());
        let mut children: Vec<DocumentSymbol> = Vec::new();
        assert(models(children@) =~= Seq::empty());
        let mut i: usize = 0;
        while i < self.symbols.len()
            invariant
                i <= self.symbols@.len(),
                k < self.symbols@.len(),
                p == self.deep_view(),
                p.symbols.len() == self.symbols@.len(),
                qualified@ == sm::qualified_name(p.symbols[k as int]),
                so::children_from(p, k as int, 0, Seq::empty()) == so::children_from(
                    p,
                    k as int,
                    i as int,
                    models(children@),
                ),
            decreases self.symbols@.len() - i,
        {
            assert(p.symbols[i as int] == self.symbols@[i as int].deep_view());
            if belongs_to(&self.symbols[i].scope, qualified.as_slice()) {
                proof {
                    so::lemma_child(p.symbols, k as int, i as int);
                }
                let child = self.document_symbol_at(i);
                put_symbol(&mut children, child);
            }
            i = i + 1;
        }
        let ghost own = models(children@);
        let mut j: usize = 0;
        while j < self.generic_bindings.len()
            invariant
                j <= self.generic_bindings@.len(),
                p == self.deep_view(),
                so::generics_from(p.generic_bindings, qualified@, 0, own) == so::generics_from(
                    p.generic_bindings,
                    qualified@,
                    j as int,
                    models(children@),
                ),
            decreases self.generic_bindings@.len() - j,
        {
            let g = &self.generic_bindings[j];
            assert(p.generic_bindings[j as int] == g.deep_view());
            if belongs_to(&g.scope, qualified.as_slice()) {
                put_symbol(&mut children, generic_symbol(g));
            }
            j = j + 1;
        }
        assert(crate::order::order_models(children@) =~= models(children@));
        let in_order = sorted(children);
        assert(crate::order::order_models(in_order@) =~= models(in_order@));
        with_children(s, in_order)
    }

    /// The symbols of the file as a tree.
    pub fn document_symbols(&self) -> (r: Vec<DocumentSymbol>)
        ensures
            models(r@) == so::document_symbols(self.deep_view()),
    {
        let ghost p = self.deep_view();
        let mut roots: Vec<DocumentSymbol> = Vec::new();
        assert(models(roots@) =~= Seq::empty());
        let mut i: usize = 0;
        while i < self.symbols.len()
            invariant
                i <= self.symbols@.len(),
                p == self.deep_view(),
                so::document_symbols(p) == so::roots_from(p, i as int, models(roots@)),
            decreases self.symbols@.len() - i,
        {
            assert(p.symbols[i as int] == self.symbols@[i as int].deep_view());
            assert(p.symbols[i as int].scope.len() == self.symbols@[i as int].scope@.len());
            if self.symbols[i].scope.len() == 0 {
                let root = self.document_symbol_at(i);
                put_symbol(&mut roots, root);
            }
            i = i + 1;
        }
        roots
    }
}

} // verus!
