//! The classes of the names in a file.

use vstd::prelude::*;

use crate::bindings::type_in;
use crate::cursor::identifier_occurrences;
use crate::model::{ParsedFile, Position, SemanticToken, Symbol, SymbolKind};
use crate::order::{Ordered, sorted};
use crate::resolve::{outer_scopes, symbol_in};
use crate::semantic_token_type;
use crate::spec::order as sr;
use crate::spec::tokens as sto;
use crate::text::{chars, has_name, lower, starts_with_word};
use crate::workspace::Workspace;

verus! {

// ---------------------------------------------------------------------------
// Classes
// ---------------------------------------------------------------------------

/// The class of a variable.
fn variable_class(symbols: &Vec<Symbol>, s: &Symbol) -> (r: u32)
    ensures
        r == sto::variable_class(symbols.deep_view(), s.deep_view()),
{
    let signature = chars(s.signature.as_str());
    let small = lower(signature.as_slice());
    if starts_with_word(small.as_slice(), "enumerator") {
        return semantic_token_type::ENUM_MEMBER;
    }
    let n: usize = s.scope.len();
    assert(s.deep_view().scope.len() == n);
    if n == 0 {
        return semantic_token_type::VARIABLE;
    }
    let outer = outer_scopes(&s.scope, n - 1);
    assert(outer.deep_view() =~= s.deep_view().scope.drop_last());
    assert(s.deep_view().scope.last() == s.scope@[n - 1]@);
    let owner = s.scope[n - 1].as_str();
    if type_in(symbols, &outer, owner).is_some() {
        return semantic_token_type::PROPERTY;
    }
    if let Some(k) = symbol_in(symbols, &outer, owner) {
        assert(symbols.deep_view()[k as int] == symbols@[k as int].deep_view());
        let args = symbols[k].args.as_slice();
        assert(args.deep_view() =~= symbols@[k as int].args.deep_view());
        if symbols[k].kind.is_procedure() && has_name(args, s.name.as_str()) {
            return semantic_token_type::PARAMETER;
        }
    }
    semantic_token_type::VARIABLE
}

/// The class of a symbol.
fn class(symbols: &Vec<Symbol>, s: &Symbol) -> (r: Option<u32>)
    ensures
        r == sto::class(symbols.deep_view(), s.deep_view()),
{
    match s.kind {
        SymbolKind::Module | SymbolKind::Program | SymbolKind::Submodule => Some(
            semantic_token_type::NAMESPACE,
        ),
        SymbolKind::Type => Some(semantic_token_type::TYPE),
        SymbolKind::Subroutine | SymbolKind::Function | SymbolKind::Interface => Some(
            semantic_token_type::FUNCTION,
        ),
        SymbolKind::Method => Some(semantic_token_type::METHOD),
        SymbolKind::Variable => Some(variable_class(symbols, s)),
        _ => None,
    }
}

// ---------------------------------------------------------------------------
// Tokens
// ---------------------------------------------------------------------------

impl Ordered for SemanticToken {
    type Model = SemanticToken;

    open spec fn order_model(&self) -> SemanticToken {
        *self
    }

    open spec fn order() -> sr::Order<SemanticToken> {
        sto::token_order()
    }

    fn is_not_after(&self, other: &Self) -> (r: bool) {
        let a = self.range.start;
        let b = other.range.start;
        a.line < b.line || (a.line == b.line && a.character <= b.character)
    }
}

/// The tokens of the symbols.
fn symbol_tokens(symbols: &Vec<Symbol>) -> (r: Vec<SemanticToken>)
    ensures
        r@ == sto::symbols_from(symbols.deep_view(), 0, Seq::empty()),
{
    let ghost all = symbols.deep_view();
    let mut out: Vec<SemanticToken> = Vec::new();
    let mut i: usize = 0;
    while i < symbols.len()
        invariant
            i <= symbols@.len(),
            all == symbols.deep_view(),
            sto::symbols_from(all, 0, Seq::empty()) == sto::symbols_from(all, i as int, out@),
        decreases symbols@.len() - i,
    {
        assert(all[i as int] == symbols@[i as int].deep_view());
        if let Some(token_type) = class(symbols, &symbols[i]) {
            out.push(SemanticToken { range: symbols[i].selection_range, token_type });
        }
        i = i + 1;
    }
    out
}

/// Adds the tokens of the macros.
fn put_macros(p: &ParsedFile, out: &mut Vec<SemanticToken>)
    ensures
        final(out)@ == sto::macros_from(p.deep_view(), 0, old(out)@),
{
    let ghost all = p.deep_view().preprocessor_definitions;
    let ghost wanted = sto::macros_from(p.deep_view(), 0, out@);
    let entries = &p.preprocessor_definitions.entries;
    let mut i: usize = 0;
    while i < entries.len()
        invariant
            i <= entries@.len(),
            all == p.deep_view().preprocessor_definitions,
            all == entries.deep_view(),
            wanted == sto::macros_from(p.deep_view(), i as int, out@),
        decreases entries@.len() - i,
    {
        assert(all[i as int] == entries@[i as int].deep_view());
        let list = identifier_occurrences(p.source.as_str(), entries[i].0.as_str());
        let ghost places = list.deep_view();
        let ghost next = sto::places_from(places, 0, out@);
        let mut k: usize = 0;
        while k < list.len()
            invariant
                k <= list@.len(),
                places == list.deep_view(),
                next == sto::places_from(places, k as int, out@),
            decreases list@.len() - k,
        {
            assert(places[k as int] == list@[k as int]);
            out.push(SemanticToken { range: list[k], token_type: semantic_token_type::MACRO });
            k = k + 1;
        }
        i = i + 1;
    }
}

/// The tokens of a file.
fn file_tokens(p: &ParsedFile) -> (r: Vec<SemanticToken>)
    ensures
        r@ == sto::file_tokens(p.deep_view()),
{
    let mut all = symbol_tokens(&p.symbols);
    put_macros(p, &mut all);
    assert(crate::order::order_models(all@) =~= all@);
    let list = sorted(all);
    assert(crate::order::order_models(list@) =~= list@);
    let mut out: Vec<SemanticToken> = Vec::new();
    let mut i: usize = 0;
    while i < list.len()
        invariant
            i <= list@.len(),
            sto::distinct_from(list@, 0, Seq::empty()) == sto::distinct_from(
                list@,
                i as int,
                out@,
            ),
        decreases list@.len() - i,
    {
        if out.len() == 0 || out[out.len() - 1].range.start != list[i].range.start {
            out.push(list[i]);
        }
        i = i + 1;
    }
    out
}

// ---------------------------------------------------------------------------
// Numbers
// ---------------------------------------------------------------------------

/// How far a number is from another one, as far as that fits; nothing where it
/// is smaller.
fn distance(from: usize, to: usize) -> (r: u32)
    ensures
        r == sto::narrow(to - from),
{
    if to < from {
        0
    } else if to - from > u32::MAX as usize {
        u32::MAX
    } else {
        (to - from) as u32
    }
}

impl Workspace {
    /// The tokens of a file.
    pub fn semantic_tokens(&self, path: &str) -> (r: Vec<SemanticToken>)
        ensures
            r@ == sto::semantic_tokens(self.deep_view(), path@),
    {
        match self.file_number(path) {
            Some(f) => {
                assert(self.deep_view().index.files[f as int]
                    == self.index.files@[f as int].deep_view());
                file_tokens(&self.index.files[f])
            },
            None => Vec::new(),
        }
    }

    /// The numbers for the tokens of a file.
    pub fn semantic_token_data(&self, path: &str) -> (r: Vec<u32>)
        ensures
            r@ == sto::semantic_token_data(self.deep_view(), path@),
    {
        let list = self.semantic_tokens(path);
        let mut before = Position { line: 0, character: 0 };
        let mut out: Vec<u32> = Vec::new();
        let mut i: usize = 0;
        while i < list.len()
            invariant
                i <= list@.len(),
                sto::data_from(
                    list@,
                    0,
                    Position { line: 0, character: 0 },
                    Seq::empty(),
                ) == sto::data_from(list@, i as int, before, out@),
            decreases list@.len() - i,
        {
            let t = list[i];
            let start = t.range.start;
            out.push(distance(before.line, start.line));
            if start.line == before.line {
                out.push(distance(before.character, start.character));
            } else {
                out.push(distance(0, start.character));
            }
            out.push(distance(start.character, t.range.end.character));
            out.push(t.token_type);
            out.push(0);
            before = start;
            i = i + 1;
        }
        out
    }
}

} // verus!
