//! The classes of the names in a file.

use vstd::prelude::*;

use crate::model::{Position, Range, SemanticToken};
use crate::semantic_token_type;
use crate::spec::bindings as sg;
use crate::spec::cursor as su;
use crate::spec::model as sm;
use crate::spec::model::{ParsedFile, Symbol};
use crate::spec::order as sr;
use crate::spec::resolve as sv;
use crate::spec::text as st;
use crate::spec::text::Text;
use crate::spec::workspace as sw;
use crate::spec::workspace::Workspace;

verus! {

pub type Tokens = Seq<SemanticToken>;

// ---------------------------------------------------------------------------
// Classes
// ---------------------------------------------------------------------------

/// Whether a symbol is a component of a derived type.
pub open spec fn is_component(symbols: Seq<Symbol>, s: Symbol) -> bool {
    s.scope.len() > 0 && sg::type_from(symbols, s.scope.drop_last(), s.scope.last(), 0) is Some
}

/// Whether a symbol is an argument of a procedure.
pub open spec fn is_argument(symbols: Seq<Symbol>, s: Symbol) -> bool {
    s.scope.len() > 0 && (sv::symbol_from(
        symbols,
        s.scope.drop_last(),
        s.scope.last(),
        0,
    ) matches Some(k) && sm::is_procedure_kind(symbols[k].kind) && st::has_name(
        symbols[k].args,
        s.name,
    ))
}

/// The class of a variable.
pub open spec fn variable_class(symbols: Seq<Symbol>, s: Symbol) -> u32 {
    if st::starts_with(st::lower(s.signature), "enumerator"@) {
        semantic_token_type::ENUM_MEMBER
    } else if is_component(symbols, s) {
        semantic_token_type::PROPERTY
    } else if is_argument(symbols, s) {
        semantic_token_type::PARAMETER
    } else {
        semantic_token_type::VARIABLE
    }
}

/// The class of a symbol.
pub open spec fn class(symbols: Seq<Symbol>, s: Symbol) -> Option<u32> {
    if s.kind is Module || s.kind is Program || s.kind is Submodule {
        Some(semantic_token_type::NAMESPACE)
    } else if s.kind is Type {
        Some(semantic_token_type::TYPE)
    } else if sm::is_procedure_kind(s.kind) || s.kind is Interface {
        Some(semantic_token_type::FUNCTION)
    } else if s.kind is Method {
        Some(semantic_token_type::METHOD)
    } else if s.kind is Variable {
        Some(variable_class(symbols, s))
    } else {
        None
    }
}

// ---------------------------------------------------------------------------
// Tokens
// ---------------------------------------------------------------------------

/// The tokens of the symbols from `i` on, behind `out`.
pub open spec fn symbols_from(symbols: Seq<Symbol>, i: int, out: Tokens) -> Tokens
    decreases symbols.len() - i,
{
    if i >= symbols.len() {
        out
    } else {
        symbols_from(
            symbols,
            i + 1,
            match class(symbols, symbols[i]) {
                Some(token_type) => out.push(
                    SemanticToken { range: symbols[i].selection_range, token_type },
                ),
                None => out,
            },
        )
    }
}

/// The tokens of a macro at the places from `i` on, behind `out`.
pub open spec fn places_from(list: Seq<Range>, i: int, out: Tokens) -> Tokens
    decreases list.len() - i,
{
    if i >= list.len() {
        out
    } else {
        places_from(
            list,
            i + 1,
            out.push(SemanticToken { range: list[i], token_type: semantic_token_type::MACRO }),
        )
    }
}

/// The tokens of the macros from `i` on, behind `out`.
pub open spec fn macros_from(p: ParsedFile, i: int, out: Tokens) -> Tokens
    decreases p.preprocessor_definitions.len() - i,
{
    if i >= p.preprocessor_definitions.len() {
        out
    } else {
        macros_from(
            p,
            i + 1,
            places_from(
                su::identifier_occurrences(p.source, p.preprocessor_definitions[i].0),
                0,
                out,
            ),
        )
    }
}

/// The order of tokens: by where they start.
pub open spec fn token_order() -> sr::Order<SemanticToken> {
    |a: SemanticToken, b: SemanticToken| sm::not_after(a.range.start, b.range.start)
}

/// The tokens from `i` on without those that start where the last one of `out`
/// does, behind `out`.
pub open spec fn distinct_from(list: Tokens, i: int, out: Tokens) -> Tokens
    decreases list.len() - i,
{
    if i >= list.len() {
        out
    } else {
        distinct_from(
            list,
            i + 1,
            if out.len() > 0 && out.last().range.start == list[i].range.start {
                out
            } else {
                out.push(list[i])
            },
        )
    }
}

/// The tokens of a file.
pub open spec fn file_tokens(p: ParsedFile) -> Tokens {
    let all = macros_from(p, 0, symbols_from(p.symbols, 0, Seq::empty()));
    distinct_from(sr::sorted(all, token_order()), 0, Seq::empty())
}

pub open spec fn semantic_tokens(ws: Workspace, path: Text) -> Tokens {
    match sw::find_file(ws, path) {
        Some(f) => file_tokens(ws.index.files[f]),
        None => Seq::empty(),
    }
}

// ---------------------------------------------------------------------------
// Numbers
// ---------------------------------------------------------------------------

/// A number that fits, or the largest one that does.
pub open spec fn narrow(n: int) -> u32 {
    if n < 0 {
        0
    } else if n > u32::MAX {
        u32::MAX
    } else {
        n as u32
    }
}

/// The column of a token, counted from the one before it on its line.
pub open spec fn column(t: SemanticToken, before: Position) -> int {
    if t.range.start.line == before.line {
        t.range.start.character - before.character
    } else {
        t.range.start.character as int
    }
}

/// The numbers for the tokens from `i` on, behind `out`: the lines and the
/// columns since the one before, the length, the class, and no modifiers.
pub open spec fn data_from(list: Tokens, i: int, before: Position, out: Seq<u32>) -> Seq<u32>
    decreases list.len() - i,
{
    if i >= list.len() {
        out
    } else {
        let t = list[i];
        data_from(
            list,
            i + 1,
            t.range.start,
            out.push(narrow(t.range.start.line - before.line)).push(narrow(column(t, before))).push(
                narrow(t.range.end.character - t.range.start.character),
            ).push(t.token_type).push(0),
        )
    }
}

pub open spec fn semantic_token_data(ws: Workspace, path: Text) -> Seq<u32> {
    data_from(
        semantic_tokens(ws, path),
        0,
        Position { line: 0, character: 0 },
        Seq::empty(),
    )
}

} // verus!
