//! The scopes of the symbols of a file.

use vstd::prelude::*;

use crate::laws::parsing::{law_statement_keeps, lemma_found};
use crate::model::Position;
use crate::spec::declaration as sd;
use crate::spec::model as sm;
use crate::spec::model::{Scope, Symbol};
use crate::spec::parser as pr;
use crate::spec::parser::{ScopeFrame, State};
use crate::spec::path as sh;
use crate::spec::preproc as spp;
use crate::spec::scan as ss;
use crate::spec::scope as sc;
use crate::spec::source as ssr;
use crate::spec::source::SourceFile;
use crate::spec::statement as sp;
use crate::spec::table as sb;
use crate::spec::text as st;
use crate::spec::text::Text;

verus! {

// ---------------------------------------------------------------------------
// What opens a scope
// ---------------------------------------------------------------------------

/// Whether a symbol opens a scope.
pub open spec fn owns(t: Symbol, scope: Scope) -> bool {
    sm::is_scope_kind(t.kind) && t.name == scope.last() && t.scope == scope.drop_last()
}

/// Whether a scope is the outermost one, or one of the symbols opens it.
pub open spec fn has_owner(symbols: Seq<Symbol>, scope: Scope) -> bool {
    scope.len() == 0 || exists|i: int| 0 <= i < symbols.len() && owns(#[trigger] symbols[i], scope)
}

/// Whether all symbols of a list belong to a file and stand in scopes that
/// symbols open.
pub open spec fn are_placed(symbols: Seq<Symbol>, list: Seq<Symbol>, path: Text) -> bool {
    forall|i: int|
        0 <= i < list.len() ==> (#[trigger] list[i]).file == path && has_owner(
            symbols,
            list[i].scope,
        )
}

/// Whether a scope and all scopes around it are opened by symbols.
pub open spec fn is_rooted(symbols: Seq<Symbol>, scope: Scope) -> bool {
    forall|n: int| 0 <= n <= scope.len() ==> has_owner(symbols, #[trigger] scope.take(n))
}

/// Whether everything that is known at a point of a source file stands in
/// scopes that symbols open.
pub open spec fn is_sound(s: State) -> bool {
    &&& are_placed(s.parsed.symbols, s.parsed.symbols, s.parsed.path)
    &&& are_placed(s.parsed.symbols, s.pending_legacy, s.parsed.path)
    &&& is_rooted(s.parsed.symbols, pr::current_scope(s.scopes))
}

proof fn lemma_owner_kept(a: Seq<Symbol>, b: Seq<Symbol>, scope: Scope)
    requires
        crate::laws::parsing::keeps_names(a, b),
        has_owner(a, scope),
    ensures
        has_owner(b, scope),
{
    if scope.len() > 0 {
        let i = choose|i: int| 0 <= i < a.len() && owns(#[trigger] a[i], scope);
        assert(owns(b[i], scope));
    }
}

/// Whether the scope `a` is the scope `b` or one around it.
spec fn is_around(a: Scope, b: Scope) -> bool {
    a.len() <= b.len() && a == b.take(a.len() as int)
}

/// Whether all that a step adds to a state belongs to its file and stands in
/// scopes that were open before it or that symbols open behind it. The macros
/// stay as they are.
spec fn places(s: State, t: State) -> bool {
    let before = pr::current_scope(s.scopes);
    let behind = pr::current_scope(t.scopes);
    &&& t.parsed.path == s.parsed.path
    &&& t.parsed.preprocessor_definitions == s.parsed.preprocessor_definitions
    &&& forall|i: int|
        s.parsed.symbols.len() <= i < t.parsed.symbols.len() ==> (
        #[trigger] t.parsed.symbols[i]).file == s.parsed.path && (is_around(
            t.parsed.symbols[i].scope,
            before,
        ) || has_owner(t.parsed.symbols, t.parsed.symbols[i].scope))
    &&& s.pending_legacy.len() <= t.pending_legacy.len()
    &&& forall|i: int|
        0 <= i < t.pending_legacy.len() ==> if i < s.pending_legacy.len() {
            #[trigger] t.pending_legacy[i] == s.pending_legacy[i]
        } else {
            t.pending_legacy[i].file == s.parsed.path && is_around(
                t.pending_legacy[i].scope,
                before,
            )
        }
    &&& forall|n: int|
        0 <= n <= behind.len() ==> is_around(#[trigger] behind.take(n), before) || has_owner(
            t.parsed.symbols,
            behind.take(n),
        )
}

proof fn lemma_around(symbols: Seq<Symbol>, a: Scope, b: Scope)
    requires
        is_around(a, b),
        is_rooted(symbols, b),
    ensures
        has_owner(symbols, a),
{
    assert(has_owner(symbols, b.take(a.len() as int)));
}

proof fn lemma_sound(s: State, t: State)
    requires
        is_sound(s),
        crate::laws::parsing::keeps(s.parsed, t.parsed),
        places(s, t),
    ensures
        is_sound(t),
{
    let a = s.parsed.symbols;
    let b = t.parsed.symbols;
    let before = pr::current_scope(s.scopes);
    let behind = pr::current_scope(t.scopes);
    assert forall|i: int| 0 <= i < b.len() implies (#[trigger] b[i]).file == t.parsed.path
        && has_owner(b, b[i].scope) by {
        if i < a.len() {
            assert(has_owner(a, a[i].scope));
            lemma_owner_kept(a, b, a[i].scope);
        } else if is_around(b[i].scope, before) {
            lemma_around(a, b[i].scope, before);
            lemma_owner_kept(a, b, b[i].scope);
        }
    }
    assert forall|i: int| 0 <= i < t.pending_legacy.len() implies (
    #[trigger] t.pending_legacy[i]).file == t.parsed.path && has_owner(
        b,
        t.pending_legacy[i].scope,
    ) by {
        let scope = t.pending_legacy[i].scope;
        if i < s.pending_legacy.len() {
            assert(t.pending_legacy[i] == s.pending_legacy[i]);
            assert(has_owner(a, s.pending_legacy[i].scope));
        } else {
            lemma_around(a, scope, before);
        }
        lemma_owner_kept(a, b, scope);
    }
    assert forall|n: int| 0 <= n <= behind.len() implies has_owner(
        b,
        #[trigger] behind.take(n),
    ) by {
        if is_around(behind.take(n), before) {
            lemma_around(a, behind.take(n), before);
            lemma_owner_kept(a, b, behind.take(n));
        }
    }
}

// ---------------------------------------------------------------------------
// Steps
// ---------------------------------------------------------------------------

/// A step that adds no symbols and leaves the scopes or closes some.
proof fn lemma_quiet(s: State, t: State)
    requires
        t.parsed.path == s.parsed.path,
        t.parsed.preprocessor_definitions == s.parsed.preprocessor_definitions,
        t.parsed.symbols.len() == s.parsed.symbols.len(),
        t.pending_legacy == s.pending_legacy,
        is_around(pr::current_scope(t.scopes), pr::current_scope(s.scopes)),
    ensures
        places(s, t),
{
    let before = pr::current_scope(s.scopes);
    let behind = pr::current_scope(t.scopes);
    assert forall|n: int| 0 <= n <= behind.len() implies is_around(
        #[trigger] behind.take(n),
        before,
    ) by {
        assert(behind.take(n) =~= before.take(n));
    }
}

/// The scopes stay the same where only other things are noted of one.
proof fn lemma_frame(s: State, f: ScopeFrame)
    requires
        s.scopes.len() > 0,
        f.name == s.scopes.last().name,
    ensures
        pr::current_scope(pr::set_frame(s, f).scopes) == pr::current_scope(s.scopes),
        is_around(pr::current_scope(s.scopes), pr::current_scope(s.scopes)),
{
    lemma_same_scope(s);
    assert(pr::current_scope(pr::set_frame(s, f).scopes) =~= pr::current_scope(s.scopes));
}

proof fn lemma_same_scope(s: State)
    ensures
        is_around(pr::current_scope(s.scopes), pr::current_scope(s.scopes)),
{
    let scope = pr::current_scope(s.scopes);
    assert(scope.take(scope.len() as int) =~= scope);
}

/// Whether all symbols of a list have a file and a scope.
spec fn all_in(list: Seq<Symbol>, file: Text, scope: Scope) -> bool {
    forall|i: int|
        0 <= i < list.len() ==> (#[trigger] list[i]).file == file && list[i].scope == scope
}

/// A step that puts symbols of one scope behind the others.
proof fn lemma_adds(s: State, t: State, list: Seq<Symbol>, scope: Scope)
    requires
        t.parsed.path == s.parsed.path,
        t.parsed.preprocessor_definitions == s.parsed.preprocessor_definitions,
        t.parsed.symbols == s.parsed.symbols + list,
        t.pending_legacy == s.pending_legacy,
        pr::current_scope(t.scopes) == pr::current_scope(s.scopes),
        all_in(list, s.parsed.path, scope),
        is_around(scope, pr::current_scope(s.scopes)),
    ensures
        places(s, t),
{
    let before = pr::current_scope(s.scopes);
    let n0 = s.parsed.symbols.len();
    assert forall|i: int| n0 <= i < t.parsed.symbols.len() implies (
    #[trigger] t.parsed.symbols[i]).file == s.parsed.path && is_around(
        t.parsed.symbols[i].scope,
        before,
    ) by {
        assert(t.parsed.symbols[i] == list[i - n0]);
    }
    assert forall|n: int| 0 <= n <= before.len() implies is_around(
        #[trigger] before.take(n),
        before,
    ) by {
        assert(before.take(n) =~= before.take(before.take(n).len() as int));
    }
}

/// A step that puts symbols behind those that wait.
proof fn lemma_waits(s: State, list: Seq<Symbol>)
    requires
        all_in(list, s.parsed.path, pr::current_scope(s.scopes)),
    ensures
        places(s, State { pending_legacy: s.pending_legacy + list, ..s }),
{
    let t = State { pending_legacy: s.pending_legacy + list, ..s };
    let before = pr::current_scope(s.scopes);
    let n0 = s.pending_legacy.len();
    lemma_same_scope(s);
    assert forall|i: int| 0 <= i < t.pending_legacy.len() implies if i < n0 {
        #[trigger] t.pending_legacy[i] == s.pending_legacy[i]
    } else {
        t.pending_legacy[i].file == s.parsed.path && is_around(t.pending_legacy[i].scope, before)
    } by {
        if i >= n0 {
            assert(t.pending_legacy[i] == list[i - n0]);
        }
    }
    assert forall|n: int| 0 <= n <= before.len() implies is_around(
        #[trigger] before.take(n),
        before,
    ) by {
        assert(before.take(n) =~= before.take(before.take(n).len() as int));
    }
}

// ---------------------------------------------------------------------------
// Symbols of declarations
// ---------------------------------------------------------------------------

proof fn lemma_declared(
    code: Text,
    line: usize,
    file: Text,
    scope: Scope,
    in_part: bool,
    lhs: Text,
    d: sd::DeclarationLhs,
    items: Seq<sd::DeclItem>,
    i: int,
    out: Seq<Symbol>,
)
    requires
        all_in(out, file, scope),
    ensures
        all_in(
            sd::declared_from(code, line, file, scope, in_part, lhs, d, items, i, out),
            file,
            scope,
        ),
    decreases items.len() - i,
{
    if i < items.len() {
        lemma_declared(
            code,
            line,
            file,
            scope,
            in_part,
            lhs,
            d,
            items,
            i + 1,
            out.push(sd::declared_symbol(code, line, file, scope, in_part, lhs, d, items[i])),
        );
    }
}

proof fn lemma_listed(
    code: Text,
    line: usize,
    file: Text,
    scope: Scope,
    prefix: Text,
    items: Seq<sd::DeclItem>,
    i: int,
    out: Seq<Symbol>,
)
    requires
        all_in(out, file, scope),
    ensures
        all_in(sd::listed_from(code, line, file, scope, prefix, items, i, out), file, scope),
    decreases items.len() - i,
{
    if i < items.len() {
        lemma_listed(
            code,
            line,
            file,
            scope,
            prefix,
            items,
            i + 1,
            out.push(
                sd::legacy_symbol(
                    items[i].name,
                    crate::model::SymbolKind::Variable,
                    code,
                    line,
                    file,
                    scope,
                    prefix + " :: "@ + items[i].name,
                ),
            ),
        );
    }
}

proof fn lemma_common(
    code: Text,
    line: usize,
    file: Text,
    scope: Scope,
    groups: Seq<ss::SlashGroup>,
    i: int,
    out: Seq<Symbol>,
)
    requires
        all_in(out, file, scope),
    ensures
        all_in(sd::common_from(code, line, file, scope, groups, i, out), file, scope),
    decreases groups.len() - i,
{
    if i < groups.len() {
        let prefix = sd::common_prefix(groups[i].0);
        let items = sd::parse_decl_items(groups[i].1);
        let named = sd::add_block(code, line, file, scope, "common"@, groups[i].0, out);
        lemma_listed(code, line, file, scope, prefix, items, 0, named);
        lemma_common(
            code,
            line,
            file,
            scope,
            groups,
            i + 1,
            sd::listed_from(code, line, file, scope, prefix, items, 0, named),
        );
    }
}

proof fn lemma_equivalence(
    code: Text,
    line: usize,
    file: Text,
    scope: Scope,
    groups: Seq<Text>,
    i: int,
    out: Seq<Symbol>,
)
    requires
        all_in(out, file, scope),
    ensures
        all_in(sd::equivalence_from(code, line, file, scope, groups, i, out), file, scope),
    decreases groups.len() - i,
{
    if i < groups.len() {
        let items = sd::parse_decl_items(groups[i]);
        lemma_listed(code, line, file, scope, "equivalence"@, items, 0, out);
        lemma_equivalence(
            code,
            line,
            file,
            scope,
            groups,
            i + 1,
            sd::listed_from(code, line, file, scope, "equivalence"@, items, 0, out),
        );
    }
}

proof fn lemma_namelist(
    code: Text,
    line: usize,
    file: Text,
    scope: Scope,
    groups: Seq<ss::SlashGroup>,
    i: int,
    out: Seq<Symbol>,
)
    requires
        all_in(out, file, scope),
    ensures
        all_in(sd::namelist_from(code, line, file, scope, groups, i, out), file, scope),
    decreases groups.len() - i,
{
    if i < groups.len() {
        lemma_namelist(
            code,
            line,
            file,
            scope,
            groups,
            i + 1,
            sd::add_block(code, line, file, scope, "namelist"@, groups[i].0, out),
        );
    }
}

proof fn lemma_enumerators(
    code: Text,
    line: usize,
    file: Text,
    scope: Scope,
    items: Seq<sd::DeclItem>,
    i: int,
    out: Seq<Symbol>,
)
    requires
        all_in(out, file, scope),
    ensures
        all_in(sd::enumerators_from(code, line, file, scope, items, i, out), file, scope),
    decreases items.len() - i,
{
    if i < items.len() {
        lemma_enumerators(
            code,
            line,
            file,
            scope,
            items,
            i + 1,
            out.push(sd::enumerator_symbol(code, line, file, scope, items[i])),
        );
    }
}

proof fn lemma_prototypes(
    code: Text,
    line: usize,
    file: Text,
    scope: Scope,
    names: Seq<Text>,
    i: int,
    out: Seq<Symbol>,
)
    requires
        all_in(out, file, scope),
    ensures
        all_in(sd::prototypes_from(code, line, file, scope, names, i, out), file, scope),
    decreases names.len() - i,
{
    if i < names.len() {
        lemma_prototypes(
            code,
            line,
            file,
            scope,
            names,
            i + 1,
            out.push(sd::prototype_symbol(code, line, file, scope, names[i])),
        );
    }
}

// ---------------------------------------------------------------------------
// Scopes that open and close
// ---------------------------------------------------------------------------

/// Whatever a statement opens is a scope.
proof fn lemma_start_kind(code: Text)
    ensures
        sc::parse_scope_start(code) matches Some(start) ==> sm::is_scope_kind(start.kind),
{
}

proof fn lemma_associates(
    source_line: Text,
    line: usize,
    file: Text,
    scope: Scope,
    names: Seq<Text>,
    i: int,
    out: Seq<Symbol>,
    n: int,
)
    requires
        0 <= n <= out.len(),
        all_in(out.skip(n), file, scope),
    ensures
        ({
            let all = pr::associate_symbols_from(source_line, line, file, scope, names, i, out);
            &&& all.len() >= out.len()
            &&& all.take(out.len() as int) == out
            &&& all_in(all.skip(n), file, scope)
        }),
    decreases names.len() - i,
{
    if i < names.len() {
        let next = out.push(pr::associate_symbol(source_line, line, file, scope, names[i]));
        assert(next.skip(n) =~= out.skip(n).push(
            pr::associate_symbol(source_line, line, file, scope, names[i]),
        ));
        lemma_associates(source_line, line, file, scope, names, i + 1, next, n);
        let all = pr::associate_symbols_from(source_line, line, file, scope, names, i + 1, next);
        assert(all.take(out.len() as int) =~= all.take(next.len() as int).take(out.len() as int));
        assert(next.take(out.len() as int) =~= out);
    } else {
        assert(out.take(out.len() as int) =~= out);
    }
}

proof fn lemma_open_places(before: State, line: usize, start: sc::ScopeStart)
    requires
        sm::is_scope_kind(start.kind),
    ensures
        places(before, pr::open_scope(before, line, start)),
{
    let s = pr::diagnose_scope_before_contains(before, line, start.kind);
    let t = pr::open_scope(before, line, start);
    let source_line = st::line(s.parsed.source, line as int);
    let name = pr::scope_name(source_line, line, start);
    let outer = pr::current_scope(s.scopes);
    let inner = outer.push(name);
    let opener = pr::scope_symbol(s, line, start);
    let pushed = s.parsed.symbols.push(opener);
    let n0 = s.parsed.symbols.len() as int;
    assert(outer =~= pr::current_scope(before.scopes));
    assert(pushed.skip(n0 + 1) =~= Seq::<Symbol>::empty());
    lemma_associates(
        source_line,
        line,
        s.parsed.path,
        inner,
        start.associate_names,
        0,
        pushed,
        n0 + 1,
    );
    let all = t.parsed.symbols;
    assert(all.take(n0 + 1)[n0] == opener);
    assert(inner.drop_last() =~= outer);
    assert(owns(all[n0], inner));
    assert(pr::current_scope(t.scopes) =~= inner);
    lemma_same_scope(before);
    assert forall|i: int| n0 <= i < all.len() implies (#[trigger] all[i]).file
        == before.parsed.path && (is_around(all[i].scope, outer) || has_owner(
        all,
        all[i].scope,
    )) by {
        if i > n0 {
            assert(all[i] == all.skip(n0 + 1)[i - n0 - 1]);
        }
    }
    assert forall|n: int| 0 <= n <= inner.len() implies is_around(#[trigger] inner.take(n), outer)
        || has_owner(all, inner.take(n)) by {
        if n < inner.len() {
            assert(inner.take(n) =~= outer.take(n));
        } else {
            assert(inner.take(n) =~= inner);
        }
    }
}

proof fn lemma_leave_quiet(s: State, f: ScopeFrame, end: Position)
    ensures
        ({
            let t = pr::leave_scope(s, f, end);
            &&& t.parsed.path == s.parsed.path
            &&& t.parsed.preprocessor_definitions == s.parsed.preprocessor_definitions
            &&& t.parsed.symbols.len() == s.parsed.symbols.len()
            &&& t.pending_legacy == s.pending_legacy
            &&& t.scopes == s.scopes
        }),
{
}

proof fn lemma_leave_all_quiet(s: State, closing: Seq<ScopeFrame>, n: nat, end: Position)
    ensures
        ({
            let t = pr::leave_scopes(s, closing, n, end);
            &&& t.parsed.path == s.parsed.path
            &&& t.parsed.preprocessor_definitions == s.parsed.preprocessor_definitions
            &&& t.parsed.symbols.len() == s.parsed.symbols.len()
            &&& t.pending_legacy == s.pending_legacy
            &&& t.scopes == s.scopes
        }),
    decreases n,
{
    if n > 0 && n <= closing.len() {
        lemma_leave_quiet(s, closing[n - 1], end);
        lemma_leave_all_quiet(
            pr::leave_scope(s, closing[n - 1], end),
            closing,
            (n - 1) as nat,
            end,
        );
    }
}

proof fn lemma_to_close(
    scopes: Seq<ScopeFrame>,
    target: Option<crate::model::SymbolKind>,
    n: nat,
)
    ensures
        pr::scope_to_close(scopes, target, n) matches Some(pos) ==> 0 <= pos < scopes.len(),
    decreases n,
{
    if n > 0 {
        lemma_to_close(scopes, target, (n - 1) as nat);
    }
}

proof fn lemma_close_places(s: State, line: usize, lower: Text)
    ensures
        places(s, pr::close_scope(s, line, lower)),
{
    let t = pr::close_scope(s, line, lower);
    lemma_same_scope(s);
    if let Some(target) = pr::end_target(lower) {
        lemma_to_close(s.scopes, target, s.scopes.len());
        if let Some(pos) = pr::scope_to_close(s.scopes, target, s.scopes.len()) {
            lemma_leave_all_quiet(
                State { scopes: s.scopes.take(pos), ..s },
                s.scopes.skip(pos),
                (s.scopes.len() - pos) as nat,
                pr::line_end(s.parsed.source, line),
            );
            assert(pr::current_scope(t.scopes) =~= pr::current_scope(s.scopes).take(pos));
        }
    }
    lemma_quiet(s, t);
}

// ---------------------------------------------------------------------------
// Statements
// ---------------------------------------------------------------------------

proof fn lemma_recorded(s: State, vars: Seq<Symbol>)
    ensures
        ({
            let t = pr::record_variable_declarations(s, vars);
            &&& t.parsed.path == s.parsed.path
            &&& t.parsed.preprocessor_definitions == s.parsed.preprocessor_definitions
            &&& t.parsed.symbols == s.parsed.symbols
            &&& t.pending_legacy == s.pending_legacy
            &&& pr::current_scope(t.scopes) == pr::current_scope(s.scopes)
        }),
{
    if s.scopes.len() > 0 {
        let f = s.scopes.last();
        lemma_frame(
            s,
            ScopeFrame { declared_variables: pr::declare_from(vars, 0, f.declared_variables), ..f },
        );
    }
}

proof fn lemma_variables_place(s: State, vars: Seq<Symbol>)
    requires
        all_in(vars, s.parsed.path, pr::current_scope(s.scopes)),
    ensures
        places(s, pr::add_symbols(pr::record_variable_declarations(s, vars), vars)),
{
    lemma_recorded(s, vars);
    lemma_same_scope(s);
    lemma_adds(
        s,
        pr::add_symbols(pr::record_variable_declarations(s, vars), vars),
        vars,
        pr::current_scope(s.scopes),
    );
}

proof fn lemma_pushed(s: State, symbol: Symbol)
    requires
        symbol.file == s.parsed.path,
        is_around(symbol.scope, pr::current_scope(s.scopes)),
    ensures
        places(s, pr::push_symbol(s, symbol)),
{
    let t = pr::push_symbol(s, symbol);
    assert(t.parsed.symbols =~= s.parsed.symbols + seq![symbol]);
    lemma_adds(s, t, seq![symbol], symbol.scope);
}

proof fn lemma_function_places(s: State, line: usize, code: Text)
    ensures
        pr::parse_statement_function(s, line, code) matches Some(t) ==> places(s, t),
{
    lemma_same_scope(s);
    if let Some(t) = pr::parse_statement_function(s, line, code) {
        if let Some((name, args)) = sd::parse_statement_function_lhs(code) {
            let scope = pr::current_scope(s.scopes);
            lemma_found(s.parsed.symbols, name, scope, 0);
            match pr::statement_function_variable_from(s.parsed.symbols, name, scope, 0) {
                Some(k) => {
                    lemma_quiet(s, t);
                },
                None => {
                    let made = t.parsed.symbols.last();
                    lemma_pushed(s, made);
                    assert(t == pr::push_symbol(s, made));
                },
            }
        }
    }
}

proof fn lemma_body_places(s: State, line: usize, code: Text)
    ensures
        places(s, pr::parse_body_statement(s, line, code)),
{
    let scope = pr::current_scope(s.scopes);
    lemma_same_scope(s);
    match sc::parse_scope_start(code) {
        Some(start) => {
            lemma_start_kind(code);
            lemma_open_places(s, line, start);
        },
        None => {
            lemma_function_places(s, line, code);
            if pr::parse_statement_function(s, line, code) is None {
                let in_part = pr::in_type_binding_part(s.scopes);
                match sd::parse_variables(code, line, s.parsed.path, scope, in_part) {
                    Some(vars) => {
                        if let Some((lhs, rhs)) = sd::declaration_sides(code) {
                            if let Some(d) = sd::parse_declaration_lhs(st::trim(lhs)) {
                                lemma_declared(
                                    code,
                                    line,
                                    s.parsed.path,
                                    scope,
                                    in_part,
                                    lhs,
                                    d,
                                    sd::parse_decl_items(rhs),
                                    0,
                                    Seq::empty(),
                                );
                            }
                        }
                        lemma_variables_place(s, vars);
                    },
                    None => {
                        let t = pr::mark_executable_statement(s);
                        if s.scopes.len() > 0 {
                            lemma_frame(
                                s,
                                ScopeFrame { seen_executable: true, ..s.scopes.last() },
                            );
                        }
                        lemma_quiet(s, t);
                    },
                }
            }
        },
    }
}

proof fn lemma_interface_places(s: State, line: usize, code: Text)
    ensures
        places(s, pr::parse_interface_statement(s, line, code)),
{
    let scope = pr::current_scope(s.scopes);
    let list = sd::parse_module_procedure_prototypes(code, line, s.parsed.path, scope);
    lemma_same_scope(s);
    if pr::in_interface_scope(s.scopes) && list.len() > 0 {
        lemma_prototype_list(code, line, s.parsed.path, scope);
        lemma_adds(s, pr::add_symbols(s, list), list, scope);
    } else {
        lemma_body_places(s, line, code);
    }
}

proof fn lemma_prototype_list(code: Text, line: usize, file: Text, scope: Scope)
    ensures
        all_in(sd::parse_module_procedure_prototypes(code, line, file, scope), file, scope),
{
    if let Some(rest) = st::after_keywords(code, "module"@, "procedure"@) {
        lemma_prototypes(
            code,
            line,
            file,
            scope,
            sp::split_names(rest),
            0,
            Seq::empty(),
        );
    }
}

proof fn lemma_legacy_places(s: State, line: usize, code: Text)
    ensures
        places(s, pr::parse_legacy_statement(s, line, code)),
{
    let scope = pr::current_scope(s.scopes);
    let file = s.parsed.path;
    let none = Seq::<Symbol>::empty();
    if let Some(rest) = st::after_keyword(code, "common"@) {
        let groups = ss::split_slash_delimited_groups(rest);
        lemma_common(code, line, file, scope, groups, 0, none);
    }
    if let Some(rest) = st::after_keyword(code, "equivalence"@) {
        let groups = ss::parenthesized_groups(rest);
        lemma_equivalence(code, line, file, scope, groups, 0, none);
    }
    if let Some(rest) = st::after_keyword(code, "namelist"@) {
        let groups = ss::split_slash_delimited_groups(rest);
        lemma_namelist(code, line, file, scope, groups, 0, none);
    }
    match sd::parse_common(code, line, file, scope) {
        Some(list) => {
            lemma_waits(s, list);
        },
        None => match sd::parse_equivalence(code, line, file, scope) {
            Some(list) => {
                lemma_waits(s, list);
            },
            None => match sd::parse_namelist(code, line, file, scope) {
                Some(list) => {
                    lemma_waits(s, list);
                },
                None => {
                    lemma_interface_places(s, line, code);
                },
            },
        },
    }
}

proof fn lemma_naming_places(s: State, line: usize, code: Text)
    ensures
        places(s, pr::parse_naming_statement(s, line, code)),
{
    let scope = pr::current_scope(s.scopes);
    let file = s.parsed.path;
    let list = sd::parse_enumerators(code, line, file, scope);
    if list.len() > 0 {
        if let Some(rest) = st::after_keyword(code, "enumerator"@) {
            let rhs = match st::split_once(rest, "::"@) {
                Some((lhs, rhs)) => rhs,
                None => rest,
            };
            lemma_enumerators(
                code,
                line,
                file,
                scope,
                sd::parse_decl_items(st::trim(rhs)),
                0,
                Seq::empty(),
            );
        }
        lemma_variables_place(s, list);
    } else {
        match pr::parse_entry_statement(s, line, code) {
            Some(entry) => {
                assert(scope.drop_last() =~= scope.take(scope.len() - 1));
                lemma_pushed(s, entry);
            },
            None => {
                lemma_legacy_places(s, line, code);
            },
        }
    }
}

proof fn lemma_plain_places(s: State, line: usize, code: Text)
    ensures
        places(s, pr::parse_plain_statement(s, line, code)),
{
    let scope = pr::current_scope(s.scopes);
    let file = s.parsed.path;
    let t = pr::parse_plain_statement(s, line, code);
    lemma_same_scope(s);
    if sp::parse_import(code, line, file, scope) is Some {
        lemma_quiet(s, t);
    } else if sp::parse_include(code, line, file, scope) is Some {
        lemma_quiet(s, t);
    } else if sp::parse_generic_binding(code, line, file, scope) is Some {
        lemma_quiet(s, t);
    } else {
        match sp::parse_visibility(code, line, file, scope) {
            Some(stmt) => {
                if s.scopes.len() > 0 {
                    let u = State {
                        default_visibility: sb::insert(
                            s.default_visibility,
                            stmt.scope,
                            stmt.visibility,
                        ),
                        ..s
                    };
                    lemma_frame(
                        u,
                        ScopeFrame { default_visibility: stmt.visibility, ..s.scopes.last() },
                    );
                }
                lemma_quiet(s, t);
            },
            None => {
                lemma_naming_places(s, line, code);
            },
        }
    }
}

proof fn lemma_marks(s: State, line: usize, code: Text)
    ensures
        places(s, pr::mark_contains_statement(s, line, code)),
        places(s, pr::mark_implicit_statement(s, line, code)),
        is_around(
            pr::current_scope(pr::mark_use_statement(s, line).scopes),
            pr::current_scope(s.scopes),
        ),
{
    lemma_same_scope(s);
    if s.scopes.len() > 0 {
        let f = s.scopes.last();
        lemma_frame(s, ScopeFrame { contains_line: Some(line), ..f });
        lemma_frame(s, ScopeFrame { use_after_implicit: true, ..f });
        lemma_frame(
            s,
            ScopeFrame {
                implicit_line: match f.implicit_line {
                    Some(first) => Some(first),
                    None => Some(line),
                },
                implicit_none: sp::implicit_none_statement(code),
                ..f
            },
        );
    }
    lemma_quiet(s, pr::mark_contains_statement(s, line, code));
    lemma_quiet(s, pr::mark_implicit_statement(s, line, code));
}

proof fn lemma_statement_places(s: State, line: usize, statement: Text)
    ensures
        places(s, pr::parse_statement(s, line, statement)),
{
    let code = st::trim_end(statement);
    let lower = st::lower(st::trim_start(code));
    let t = pr::parse_statement(s, line, statement);
    lemma_same_scope(s);
    if st::is_blank(code) {
        lemma_quiet(s, t);
    } else if sp::is_assignment(code) {
        if s.scopes.len() > 0 {
            lemma_frame(s, ScopeFrame { seen_executable: true, ..s.scopes.last() });
        }
        lemma_quiet(s, t);
    } else if sp::end_statement(lower) is Some {
        lemma_close_places(s, line, sp::end_statement(lower)->0);
    } else if lower == "contains"@ || st::after_keyword(code, "implicit"@) is Some {
        lemma_marks(s, line, code);
    } else {
        match sp::parse_use(code, line, s.parsed.path, pr::current_scope(s.scopes)) {
            Some(stmt) => {
                lemma_marks(s, line, code);
                lemma_quiet(s, t);
            },
            None => {
                if st::after_keyword(code, "use"@) is Some {
                    lemma_quiet(s, t);
                } else {
                    lemma_plain_places(s, line, code);
                }
            },
        }
    }
}

/// A statement leaves the macros as they are, and everything in scopes that
/// symbols open.
pub proof fn law_statement_sound(s: State, line: usize, statement: Text)
    ensures
        pr::parse_statement(s, line, statement).parsed.preprocessor_definitions
            == s.parsed.preprocessor_definitions,
        is_sound(s) ==> is_sound(pr::parse_statement(s, line, statement)),
{
    lemma_statement_places(s, line, statement);
    law_statement_keeps(s, line, statement);
    if is_sound(s) {
        lemma_sound(s, pr::parse_statement(s, line, statement));
    }
}

// ---------------------------------------------------------------------------
// Lines
// ---------------------------------------------------------------------------

proof fn lemma_statements_sound(s: State, line: usize, statements: Seq<Text>, i: int)
    ensures
        ({
            let t = pr::parse_statements(s, line, statements, i);
            &&& t.parsed.preprocessor_definitions == s.parsed.preprocessor_definitions
            &&& t.parsed.path == s.parsed.path
            &&& is_sound(s) ==> is_sound(t)
        }),
    decreases statements.len() - i,
{
    if i < statements.len() {
        law_statement_sound(s, line, statements[i]);
        law_statement_keeps(s, line, statements[i]);
        lemma_statements_sound(
            pr::parse_statement(s, line, statements[i]),
            line,
            statements,
            i + 1,
        );
    }
}

/// Whether a step leaves the symbols and the scopes as they are.
spec fn leaves(s: State, t: State) -> bool {
    &&& t.parsed.path == s.parsed.path
    &&& t.parsed.symbols == s.parsed.symbols
    &&& t.pending_legacy == s.pending_legacy
    &&& t.scopes == s.scopes
}

proof fn lemma_directive_leaves(s: State, d: sm::PreprocessorDirective)
    ensures
        leaves(s, pr::apply_preprocessor(s, d)),
{
}

proof fn lemma_load_leaves(
    files: Seq<SourceFile>,
    stack: Seq<pr::Loading>,
    visited: Seq<Text>,
    s: State,
)
    ensures
        leaves(s, pr::load_from(files, stack, visited, s)),
    decreases ssr::unvisited(files, visited, files.len()), pr::steps_left(stack),
{
    if stack.len() > 0 {
        let top = stack.last();
        let rest = stack.drop_last();
        if top.i >= top.lines.len() {
            lemma_load_leaves(files, rest, visited, s);
        } else {
            let line = top.lines[top.i as int];
            let passed = rest.push(pr::Loading { i: top.i + 1, ..top });
            assert(passed.drop_last() =~= rest);
            match spp::parse_preprocessor(
                st::trim(line.1),
                line.0,
                top.path,
                pr::current_scope(s.scopes),
            ) {
                Some(d) => {
                    let next = pr::apply_preprocessor(s, d);
                    lemma_directive_leaves(s, d);
                    match pr::include_target(files, top.path, s, d) {
                        Some(k) => {
                            if sh::holds_path(visited, files[k].canonical) {
                                lemma_load_leaves(files, passed, visited, next);
                            } else {
                                pr::lemma_include_target(files, top.path, s, d);
                                ssr::lemma_unvisited(files, visited, k, files.len());
                                lemma_load_leaves(
                                    files,
                                    passed.push(pr::loading(files, k, next)),
                                    visited.push(files[k].canonical),
                                    next,
                                );
                            }
                        },
                        None => {
                            lemma_load_leaves(files, passed, visited, next);
                        },
                    }
                },
                None => {
                    lemma_load_leaves(files, passed, visited, s);
                },
            }
        }
    }
}

proof fn lemma_directive_step_leaves(
    files: Seq<SourceFile>,
    s: State,
    d: sm::PreprocessorDirective,
)
    ensures
        leaves(s, pr::directive_step(files, s, d)),
{
    let applied = pr::apply_preprocessor(s, d);
    lemma_directive_leaves(s, d);
    let included = match d.argument {
        Some(path) => if d.kind is Include && pr::preprocessor_active(s.preprocessor_stack) {
            pr::set_parsed(
                applied,
                sm::ParsedFile {
                    includes: applied.parsed.includes.push(
                        sm::IncludeStmt {
                            path,
                            file: applied.parsed.path,
                            range: d.range,
                            scope: d.scope,
                        },
                    ),
                    ..applied.parsed
                },
            )
        } else {
            applied
        },
        None => applied,
    };
    assert(leaves(s, included));
    if let Some(k) = pr::include_target(files, s.parsed.path, s, d) {
        lemma_load_leaves(
            files,
            seq![pr::loading(files, k, included)],
            seq![s.parsed.path, files[k].canonical],
            included,
        );
    }
    assert(leaves(included, pr::load_include(files, s, d, included)));
}

/// Whether a line is a directive.
pub open spec fn is_directive(line: spp::Line) -> bool {
    spp::parse_preprocessor(st::trim(line.1), line.0, Seq::empty(), Seq::empty()) is Some
}

proof fn lemma_line_sound(files: Seq<SourceFile>, s: State, line: spp::Line)
    ensures
        ({
            let t = pr::line_step(files, s, line);
            &&& t.parsed.path == s.parsed.path
            &&& is_sound(s) ==> is_sound(t)
            &&& !is_directive(line) ==> t.parsed.preprocessor_definitions
                == s.parsed.preprocessor_definitions
        }),
{
    match spp::parse_preprocessor(
        st::trim(line.1),
        line.0,
        s.parsed.path,
        pr::current_scope(s.scopes),
    ) {
        Some(d) => {
            lemma_directive_step_leaves(files, s, d);
        },
        None => {
            lemma_statements_sound(
                s,
                line.0,
                ss::split_statement_line(
                    spp::expand_macros(ss::strip_inline_comment(line.1), s.macros),
                ),
                0,
            );
        },
    }
}

proof fn lemma_lines_sound(files: Seq<SourceFile>, s: State, lines: Seq<spp::Line>, i: int)
    requires
        0 <= i,
    ensures
        ({
            let t = pr::lines_from(files, s, lines, i);
            &&& t.parsed.path == s.parsed.path
            &&& is_sound(s) ==> is_sound(t)
            &&& (forall|k: int| i <= k < lines.len() ==> !is_directive(#[trigger] lines[k]))
                ==> t.parsed.preprocessor_definitions == s.parsed.preprocessor_definitions
        }),
    decreases lines.len() - i,
{
    if i < lines.len() {
        lemma_line_sound(files, s, lines[i]);
        lemma_lines_sound(files, pr::line_step(files, s, lines[i]), lines, i + 1);
    }
}

// ---------------------------------------------------------------------------
// Files
// ---------------------------------------------------------------------------

proof fn lemma_finish_scopes(s: State)
    ensures
        ({
            let t = pr::finish_scopes(s);
            &&& t.parsed.path == s.parsed.path
            &&& t.parsed.preprocessor_definitions == s.parsed.preprocessor_definitions
            &&& t.parsed.symbols.len() == s.parsed.symbols.len()
            &&& t.pending_legacy == s.pending_legacy
            &&& crate::laws::parsing::keeps_names(s.parsed.symbols, t.parsed.symbols)
        }),
    decreases s.scopes.len(),
{
    if s.scopes.len() > 0 {
        let f = s.scopes.last();
        let popped = State { scopes: s.scopes.drop_last(), ..s };
        let remarked = match pr::use_after_implicit_line(f) {
            Some(line) => pr::use_after_implicit_diagnostic(popped, line),
            None => popped,
        };
        let checked = pr::add_argument_diagnostics(remarked, f);
        let told = pr::push_diagnostic(checked, pr::unterminated_scope(checked, f));
        let ended = pr::set_symbol_end(told, f.symbol_idx, pr::source_end(s.parsed.source));
        lemma_finish_scopes(ended);
        let t = pr::finish_scopes(ended);
        assert forall|i: int| 0 <= i < s.parsed.symbols.len() implies (
        #[trigger] t.parsed.symbols[i]).name == s.parsed.symbols[i].name
            && t.parsed.symbols[i].scope == s.parsed.symbols[i].scope && t.parsed.symbols[i].file
            == s.parsed.symbols[i].file && (sm::is_scope_kind(s.parsed.symbols[i].kind)
            ==> t.parsed.symbols[i].kind == s.parsed.symbols[i].kind) by {
            assert(ended.parsed.symbols[i].name == s.parsed.symbols[i].name);
        }
    }
}

proof fn lemma_finish_conditionals(s: State)
    ensures
        ({
            let t = pr::finish_conditionals(s);
            &&& leaves(s, t)
            &&& t.parsed.preprocessor_definitions == s.parsed.preprocessor_definitions
        }),
    decreases s.preprocessor_stack.len(),
{
    if s.preprocessor_stack.len() > 0 {
        let f = s.preprocessor_stack.last();
        let remarked = pr::push_diagnostic(
            s,
            sm::Diagnostic {
                range: f.range,
                severity: crate::model::DiagnosticSeverity::Error,
                message: "unterminated preprocessor conditional"@,
            },
        );
        let t = pr::push_region(
            remarked,
            crate::model::PreprocessorRegion {
                start: f.start,
                end: pr::source_end(s.parsed.source),
            },
        );
        lemma_finish_conditionals(
            State { preprocessor_stack: s.preprocessor_stack.drop_last(), ..t },
        );
    }
}

proof fn lemma_flush_placed(pending: Seq<Symbol>, i: int, symbols: Seq<Symbol>, path: Text)
    requires
        0 <= i,
        are_placed(symbols, symbols, path),
        are_placed(symbols, pending, path),
    ensures
        ({
            let all = pr::flush_from(pending, i, symbols);
            are_placed(all, all, path)
        }),
    decreases pending.len() - i,
{
    if i < pending.len() {
        let next = if pr::has_symbol(symbols, pending[i].scope, pending[i].name) {
            symbols
        } else {
            symbols.push(pending[i])
        };
        assert forall|k: int| 0 <= k < next.len() implies (#[trigger] next[k]).file == path
            && has_owner(next, next[k].scope) by {
            if k < symbols.len() {
                assert(has_owner(symbols, symbols[k].scope));
                lemma_owner_kept(symbols, next, symbols[k].scope);
            } else {
                assert(has_owner(symbols, pending[i].scope));
                lemma_owner_kept(symbols, next, pending[i].scope);
            }
        }
        assert forall|k: int| 0 <= k < pending.len() implies (#[trigger] pending[k]).file == path
            && has_owner(next, pending[k].scope) by {
            assert(has_owner(symbols, pending[k].scope));
            lemma_owner_kept(symbols, next, pending[k].scope);
        }
        lemma_flush_placed(pending, i + 1, next, path);
    }
}

proof fn lemma_finished(s: State)
    ensures
        pr::finish(s).parsed.preprocessor_definitions == s.parsed.preprocessor_definitions,
        is_sound(s) ==> are_placed(
            pr::finish(s).parsed.symbols,
            pr::finish(s).parsed.symbols,
            s.parsed.path,
        ),
{
    let a = pr::finish_scopes(s);
    let b = pr::finish_conditionals(a);
    let c = pr::apply_symbol_visibility(b);
    lemma_finish_scopes(s);
    lemma_finish_conditionals(a);
    if is_sound(s) {
        let x = s.parsed.symbols;
        let y = c.parsed.symbols;
        assert(crate::laws::parsing::keeps_names(x, y)) by {
            assert forall|i: int| 0 <= i < x.len() implies (#[trigger] y[i]).name == x[i].name
                && y[i].scope == x[i].scope && y[i].file == x[i].file && (sm::is_scope_kind(
                x[i].kind,
            ) ==> y[i].kind == x[i].kind) by {
                assert(a.parsed.symbols[i].name == x[i].name);
            }
        }
        assert forall|i: int| 0 <= i < y.len() implies (#[trigger] y[i]).file == s.parsed.path
            && has_owner(y, y[i].scope) by {
            assert(has_owner(x, x[i].scope));
            lemma_owner_kept(x, y, x[i].scope);
        }
        assert forall|i: int| 0 <= i < c.pending_legacy.len() implies (
        #[trigger] c.pending_legacy[i]).file == s.parsed.path && has_owner(
            y,
            c.pending_legacy[i].scope,
        ) by {
            assert(has_owner(x, s.pending_legacy[i].scope));
            lemma_owner_kept(x, y, c.pending_legacy[i].scope);
        }
        lemma_flush_placed(c.pending_legacy, 0, y, s.parsed.path);
    }
}

/// Every symbol of a file that was read belongs to that file, and its scope is
/// the outermost one or is opened by another symbol of the file: one with the
/// last name of the scope, in the scope around it. So are all scopes around
/// that one.
pub proof fn law_scopes(
    path: Text,
    source: Text,
    defines: Seq<(Text, Text)>,
    files: Seq<SourceFile>,
)
    ensures
        ({
            let symbols = pr::parse_with_files(path, source, defines, files).symbols;
            &&& are_placed(symbols, symbols, path)
            &&& forall|i: int|
                0 <= i < symbols.len() ==> is_rooted(symbols, (#[trigger] symbols[i]).scope)
        }),
{
    let s = pr::initial(path, source, defines);
    let lines = ssr::logical_lines(files, path, source, s.parsed.preprocessor_definitions);
    assert(pr::current_scope(s.scopes) =~= Seq::empty());
    assert(is_sound(s));
    lemma_lines_sound(files, s, lines, 0);
    lemma_finished(pr::lines_from(files, s, lines, 0));
    let symbols = pr::parse_with_files(path, source, defines, files).symbols;
    assert forall|i: int| 0 <= i < symbols.len() implies is_rooted(
        symbols,
        (#[trigger] symbols[i]).scope,
    ) by {
        law_scopes_rooted(symbols, path, symbols[i].scope);
    }
}

/// Every scope of a symbol is rooted: all scopes around it are opened by
/// symbols of the file too.
pub proof fn law_scopes_rooted(symbols: Seq<Symbol>, path: Text, scope: Scope)
    requires
        are_placed(symbols, symbols, path),
        has_owner(symbols, scope),
    ensures
        is_rooted(symbols, scope),
    decreases scope.len(),
{
    if scope.len() > 0 {
        let i = choose|i: int| 0 <= i < symbols.len() && owns(#[trigger] symbols[i], scope);
        let outer = scope.drop_last();
        assert(has_owner(symbols, symbols[i].scope));
        law_scopes_rooted(symbols, path, outer);
        assert forall|n: int| 0 <= n <= scope.len() implies has_owner(
            symbols,
            #[trigger] scope.take(n),
        ) by {
            if n < scope.len() {
                assert(scope.take(n) =~= outer.take(n));
            } else {
                assert(scope.take(n) =~= scope);
            }
        }
    } else {
        assert forall|n: int| 0 <= n <= scope.len() implies has_owner(
            symbols,
            #[trigger] scope.take(n),
        ) by {}
    }
}

// ---------------------------------------------------------------------------
// Definitions from outside
// ---------------------------------------------------------------------------

/// The value of the last definition of a name from `i` on.
pub open spec fn last_value(defines: Seq<(Text, Text)>, name: Text, i: int) -> Option<Text>
    decreases defines.len() - i,
{
    if i >= defines.len() {
        None
    } else {
        match last_value(defines, name, i + 1) {
            Some(value) => Some(value),
            None => if defines[i].0 == name {
                Some(pr::predefined_value(defines[i].1))
            } else {
                None
            },
        }
    }
}

proof fn lemma_last_value(
    defines: Seq<(Text, Text)>,
    name: Text,
    i: int,
    out: crate::spec::expression::Definitions,
)
    requires
        0 <= i,
    ensures
        sb::find(pr::predefined_from(defines, i, out), name) == match last_value(
            defines,
            name,
            i,
        ) {
            Some(value) => Some(value),
            None => sb::find(out, name),
        },
    decreases defines.len() - i,
{
    if i < defines.len() {
        let value = pr::predefined_value(defines[i].1);
        sb::law_insert(out, defines[i].0, value, name);
        lemma_last_value(defines, name, i + 1, sb::insert(out, defines[i].0, value));
    }
}

/// In a file without directives exactly the names are defined that are defined
/// from outside, each as its last definition there says.
pub proof fn law_outside_definitions(
    path: Text,
    source: Text,
    defines: Seq<(Text, Text)>,
    files: Seq<SourceFile>,
    name: Text,
)
    requires
        ({
            let defs = pr::predefined_from(defines, 0, Seq::empty());
            let lines = ssr::logical_lines(files, path, source, defs);
            forall|k: int| 0 <= k < lines.len() ==> !is_directive(#[trigger] lines[k])
        }),
    ensures
        sb::find(
            pr::parse_with_files(path, source, defines, files).preprocessor_definitions,
            name,
        ) == last_value(defines, name, 0),
{
    let s = pr::initial(path, source, defines);
    let lines = ssr::logical_lines(files, path, source, s.parsed.preprocessor_definitions);
    lemma_lines_sound(files, s, lines, 0);
    lemma_finished(pr::lines_from(files, s, lines, 0));
    lemma_last_value(defines, name, 0, Seq::empty());
}

/// A file reads the same whether a name is defined from outside without a value
/// or with the value 1.
pub proof fn law_bare_value(
    path: Text,
    source: Text,
    defines: Seq<(Text, Text)>,
    files: Seq<SourceFile>,
)
    ensures
        pr::parse_with_files(path, source, defines, files) == pr::parse_with_files(
            path,
            source,
            Seq::new(
                defines.len(),
                |i: int| (defines[i].0, pr::predefined_value(defines[i].1)),
            ),
            files,
        ),
{
    crate::laws::preprocessor::law_bare_define(path, source, defines);
}

} // verus!
