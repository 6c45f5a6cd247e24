//! Remarks about symbols that stand in each other's way.

use vstd::prelude::*;

use crate::model::{DiagnosticSeverity, SymbolKind};
use crate::spec::declaration as sd;
use crate::spec::model as sm;
use crate::spec::model::Scope;
use crate::spec::scan as ss;
use crate::spec::text as st;
use crate::spec::text::Text;

verus! {

// ---------------------------------------------------------------------------
// Duplicates
// ---------------------------------------------------------------------------

/// Whether a symbol can stand beside others of its name.
pub open spec fn may_repeat(s: sm::Symbol) -> bool {
    s.kind is Interface || sd::is_module_procedure_link_symbol(s)
}

/// Whether two symbols have the same scope and name, case of the name aside.
pub open spec fn same_key(a: sm::Symbol, b: sm::Symbol) -> bool {
    a.scope == b.scope && st::same(a.name, b.name)
}

/// The first symbol from `j` on, before the symbol `i`, that has its scope and
/// name.
pub open spec fn first_definition(symbols: Seq<sm::Symbol>, i: int, j: int) -> Option<int>
    decreases i - j,
{
    if j >= i {
        None
    } else if !may_repeat(symbols[j]) && same_key(symbols[j], symbols[i]) {
        Some(j)
    } else {
        first_definition(symbols, i, j + 1)
    }
}

pub open spec fn duplicate_diagnostic(s: sm::Symbol, first: sm::Symbol) -> sm::Diagnostic {
    sm::Diagnostic {
        range: s.range,
        severity: DiagnosticSeverity::Error,
        message: "symbol `"@ + s.name + "` is already defined in this scope at line "@
            + st::decimal(st::size((first.range.start.line + 1) as nat) as nat),
    }
}

/// The remarks about the symbols from `i` on that are defined before, behind
/// `out`.
pub open spec fn duplicates_from(
    symbols: Seq<sm::Symbol>,
    i: int,
    out: Seq<sm::Diagnostic>,
) -> Seq<sm::Diagnostic>
    decreases symbols.len() - i,
{
    if i >= symbols.len() {
        out
    } else {
        duplicates_from(
            symbols,
            i + 1,
            if may_repeat(symbols[i]) {
                out
            } else {
                match first_definition(symbols, i, 0) {
                    Some(j) => out.push(duplicate_diagnostic(symbols[i], symbols[j])),
                    None => out,
                }
            },
        )
    }
}

/// The remarks about symbols that are defined twice in a scope.
pub open spec fn duplicate_diagnostics(symbols: Seq<sm::Symbol>) -> Seq<sm::Diagnostic> {
    duplicates_from(symbols, 0, Seq::empty())
}

// ---------------------------------------------------------------------------
// What stands around a symbol
// ---------------------------------------------------------------------------

/// Whether a symbol is the one that opens a scope.
pub open spec fn owns(s: sm::Symbol, scope: Scope) -> bool {
    &&& scope.len() > 0
    &&& st::same(s.name, scope.last())
    &&& st::same_scope(s.scope, scope.drop_last())
}

/// The kind of the first symbol from `i` on that opens a scope.
pub open spec fn owner_kind_from(symbols: Seq<sm::Symbol>, scope: Scope, i: int) -> Option<
    SymbolKind,
>
    decreases symbols.len() - i,
{
    if i >= symbols.len() {
        None
    } else if owns(symbols[i], scope) && sm::is_scope_kind(symbols[i].kind) {
        Some(symbols[i].kind)
    } else {
        owner_kind_from(symbols, scope, i + 1)
    }
}

/// The kind of the symbol that opens a scope.
pub open spec fn scope_owner_kind(symbols: Seq<sm::Symbol>, scope: Scope) -> Option<SymbolKind> {
    owner_kind_from(symbols, scope, 0)
}

/// Whether a symbol is an abstract interface that opens a scope.
pub open spec fn opens_abstract_interface(s: sm::Symbol, scope: Scope) -> bool {
    s.kind is Interface && s.is_abstract && owns(s, scope)
}

/// Whether an abstract interface opens a scope.
pub open spec fn is_abstract_interface(symbols: Seq<sm::Symbol>, scope: Scope) -> bool {
    exists|k: int|
        0 <= k < symbols.len() && opens_abstract_interface(#[trigger] symbols[k], scope)
}

/// Whether a scope or one around it is that of an abstract interface.
pub open spec fn scope_contains_abstract_interface(
    symbols: Seq<sm::Symbol>,
    scope: Scope,
) -> bool {
    exists|n: int| 0 <= n <= scope.len() && is_abstract_interface(symbols, #[trigger] scope.take(n))
}

/// Whether a derived type that opens a scope has a line in it.
pub open spec fn is_type_around(s: sm::Symbol, scope: Scope, line: usize) -> bool {
    &&& s.kind is Type
    &&& owns(s, scope)
    &&& s.range.start.line <= line <= s.range.end.line
}

/// Whether a line lies in a derived type that opens a scope.
pub open spec fn inside_type(symbols: Seq<sm::Symbol>, scope: Scope, line: usize) -> bool {
    exists|k: int|
        0 <= k < symbols.len() && is_type_around(#[trigger] symbols[k], scope, line)
}

/// Whether a symbol is a component or a binding of a derived type.
pub open spec fn symbol_parent_is_type(symbols: Seq<sm::Symbol>, s: sm::Symbol) -> bool {
    inside_type(symbols, s.scope, s.range.start.line)
}

// ---------------------------------------------------------------------------
// Interfaces by line
// ---------------------------------------------------------------------------

/// Whether what follows the word `interface` goes on with the statement: there
/// is nothing more, or a name. Behind a variable of that name stands something
/// else.
pub open spec fn continues_interface(rest: Text) -> bool {
    st::is_blank(rest) || st::is_name_start(st::trim(rest)[0])
}

/// Whether a statement is the word `interface` with what can follow it, given
/// what stands behind that word.
pub open spec fn is_interface(rest: Option<Text>) -> bool {
    rest matches Some(rest) && continues_interface(rest)
}

/// The interfaces that are open behind a statement; an abstract one counts as
/// `true`.
pub open spec fn interface_step(open: Seq<bool>, statement: Text) -> Seq<bool> {
    if is_interface(st::after_keywords(statement, "end"@, "interface"@)) || is_interface(
        st::after_keyword(statement, "endinterface"@),
    ) {
        if open.len() == 0 {
            open
        } else {
            open.drop_last()
        }
    } else if is_interface(st::after_keywords(statement, "abstract"@, "interface"@)) {
        open.push(true)
    } else if is_interface(st::after_keyword(statement, "interface"@)) {
        open.push(false)
    } else {
        open
    }
}

/// The interfaces that are open behind the statements from `i` on.
pub open spec fn statements_step(open: Seq<bool>, statements: Seq<Text>, i: int) -> Seq<bool>
    decreases statements.len() - i,
{
    if i >= statements.len() {
        open
    } else {
        statements_step(interface_step(open, statements[i]), statements, i + 1)
    }
}

/// The interfaces that are open behind a line.
pub open spec fn line_step(open: Seq<bool>, line: Text) -> Seq<bool> {
    statements_step(open, ss::split_statement_line(ss::strip_inline_comment(line)), 0)
}

/// The interfaces that are open behind the first `n` lines.
pub open spec fn open_interfaces(lines: Seq<Text>, n: nat) -> Seq<bool>
    decreases n,
{
    if n == 0 || n > lines.len() {
        Seq::empty()
    } else {
        line_step(open_interfaces(lines, (n - 1) as nat), lines[n - 1])
    }
}

/// The innermost interface that is open before a line: `Some(true)` for an
/// abstract one.
pub open spec fn line_interface_state(lines: Seq<Text>, line: usize) -> Option<bool> {
    let open = open_interfaces(lines, line as nat);
    if line < lines.len() && open.len() > 0 {
        Some(open.last())
    } else {
        None
    }
}

/// Whether a symbol stands in an abstract interface.
pub open spec fn in_abstract_interface(
    symbols: Seq<sm::Symbol>,
    lines: Seq<Text>,
    s: sm::Symbol,
) -> bool {
    scope_contains_abstract_interface(symbols, s.scope) || line_interface_state(
        lines,
        s.range.start.line,
    ) == Some(true)
}

// ---------------------------------------------------------------------------
// Functions and their results
// ---------------------------------------------------------------------------

/// Whether a symbol is a function that opens a scope and has a result of the
/// given name.
pub open spec fn has_result(s: sm::Symbol, scope: Scope, name: Text) -> bool {
    &&& s.kind is Function
    &&& owns(s, scope)
    &&& s.result matches Some(result) && st::same(result, name)
}

/// Whether a function that opens a scope names its result `name`.
pub open spec fn function_names_result(
    symbols: Seq<sm::Symbol>,
    scope: Scope,
    name: Text,
) -> bool {
    exists|k: int| 0 <= k < symbols.len() && has_result(#[trigger] symbols[k], scope, name)
}

/// Whether a symbol has the name of the scope around it.
pub open spec fn is_named_like_scope(s: sm::Symbol) -> bool {
    s.scope.len() > 0 && st::same(s.name, s.scope.last())
}

/// Whether a symbol is the result of the function around it.
pub open spec fn is_function_result(symbols: Seq<sm::Symbol>, s: sm::Symbol) -> bool {
    &&& s.scope.len() > 0
    &&& scope_owner_kind(symbols, s.scope) == Some(SymbolKind::Function)
    &&& is_named_like_scope(s) || function_names_result(symbols, s.scope, s.name)
}

/// Whether a symbol is a result that has the name of its function.
pub open spec fn is_implicit_function_result(symbols: Seq<sm::Symbol>, s: sm::Symbol) -> bool {
    is_named_like_scope(s) && is_function_result(symbols, s)
}

/// Whether one of the items of a list starts with `name`.
pub open spec fn lists_name(items: Seq<Text>, name: Text) -> bool {
    exists|i: int|
        0 <= i < items.len() && st::first_ident_is(st::trim(#[trigger] items[i]), name)
}

/// Whether a line declares `name` behind colons.
pub open spec fn declares_name(code: Text, name: Text) -> bool {
    match st::split_once(code, "::"@) {
        Some((lhs, rhs)) => lists_name(st::split_char(rhs, ','), name),
        None => false,
    }
}

/// Whether a line from `i` on declares `name`, before the function ends.
pub open spec fn declared_before_end(lines: Seq<Text>, name: Text, i: int) -> bool
    decreases lines.len() - i,
{
    if i >= lines.len() {
        false
    } else {
        let code = st::trim(ss::strip_inline_comment(lines[i]));
        if st::starts_with(st::lower(code), "end function"@) {
            false
        } else {
            declares_name(code, name) || declared_before_end(lines, name, i + 1)
        }
    }
}

/// Whether a function declares its result in its body.
pub open spec fn function_has_explicit_result_declaration(
    lines: Seq<Text>,
    s: sm::Symbol,
    result: Text,
) -> bool {
    declared_before_end(lines, result, s.range.start.line + 1)
}

// ---------------------------------------------------------------------------
// Bindings
// ---------------------------------------------------------------------------

/// Whether a type-bound procedure is bound to a procedure of its own name.
pub open spec fn is_bound_to_itself(s: sm::Symbol) -> bool {
    &&& s.kind is Method
    &&& match s.binding_target {
        Some(target) => st::same(target, s.name),
        None => true,
    }
}

/// Whether a symbol is a type-bound procedure called `name` that is bound to
/// the procedure `name`.
pub open spec fn binds_directly(s: sm::Symbol, name: Text) -> bool {
    &&& s.kind is Method
    &&& st::same(s.name, name)
    &&& st::same(
        match s.binding_target {
            Some(target) => target,
            None => s.name,
        },
        name,
    )
}

/// Whether a type-bound procedure called `name` is bound to the procedure
/// `name`.
pub open spec fn is_direct_target(symbols: Seq<sm::Symbol>, name: Text) -> bool {
    exists|k: int| 0 <= k < symbols.len() && binds_directly(#[trigger] symbols[k], name)
}

/// Whether a symbol is the result of a function that a type-bound procedure of
/// the same name is bound to.
pub open spec fn is_direct_type_bound_result(symbols: Seq<sm::Symbol>, s: sm::Symbol) -> bool {
    is_named_like_scope(s) && is_direct_target(symbols, s.scope.last())
}

/// Whether a symbol belongs to a derived type of the module around `s` and is
/// called `name`.
pub open spec fn is_type_member(
    symbols: Seq<sm::Symbol>,
    s: sm::Symbol,
    name: Text,
    candidate: sm::Symbol,
) -> bool {
    &&& s.scope.len() > 0
    &&& st::same(candidate.name, name)
    &&& candidate.scope.len() >= 2
    &&& st::same(candidate.scope[0], s.scope[0])
    &&& symbol_parent_is_type(symbols, candidate)
}

// ---------------------------------------------------------------------------
// Masking
// ---------------------------------------------------------------------------

/// Whether a symbol is a variable of the scope `scope` that `s` hides.
pub open spec fn is_hidden_variable(
    symbols: Seq<sm::Symbol>,
    s: sm::Symbol,
    scope: Scope,
    candidate: sm::Symbol,
) -> bool {
    &&& candidate.kind is Variable
    &&& st::same(candidate.name, s.name)
    &&& st::same_scope(candidate.scope, scope)
    &&& !symbol_parent_is_type(symbols, candidate) || inside_type(
        symbols,
        candidate.scope,
        s.range.start.line,
    )
}

/// Whether `s` hides a variable of the scope `scope`.
pub open spec fn hides_variable_of(symbols: Seq<sm::Symbol>, s: sm::Symbol, scope: Scope) -> bool {
    exists|k: int|
        0 <= k < symbols.len() && is_hidden_variable(symbols, s, scope, #[trigger] symbols[k])
}

/// Whether `s` hides a variable of a scope around its own.
pub open spec fn hides_variable(symbols: Seq<sm::Symbol>, s: sm::Symbol) -> bool {
    exists|n: int|
        0 <= n < s.scope.len() && hides_variable_of(symbols, s, #[trigger] s.scope.take(n))
}

/// Whether a symbol is a procedure or an interface of the module around `s`
/// that is called like `s`.
pub open spec fn is_module_callable(s: sm::Symbol, candidate: sm::Symbol) -> bool {
    &&& sm::is_procedure_kind(candidate.kind) || candidate.kind is Interface
    &&& st::same(candidate.name, s.name)
    &&& candidate.scope.len() == 1
    &&& st::same(candidate.scope[0], s.scope[0])
}

/// Whether `s` hides a procedure or an interface of its module.
pub open spec fn hides_callable(
    symbols: Seq<sm::Symbol>,
    lines: Seq<Text>,
    s: sm::Symbol,
) -> bool {
    &&& s.scope.len() > 0
    &&& !is_direct_type_bound_result(symbols, s)
    &&& !is_implicit_function_result(symbols, s)
    &&& !scope_contains_abstract_interface(symbols, s.scope)
    &&& line_interface_state(lines, s.range.start.line) is None
    &&& exists|k: int|
        0 <= k < symbols.len() && is_module_callable(s, #[trigger] symbols[k])
}

/// Whether a symbol is a member of a derived type that `s` hides.
pub open spec fn is_hidden_member(
    symbols: Seq<sm::Symbol>,
    s: sm::Symbol,
    candidate: sm::Symbol,
) -> bool {
    &&& is_bound_to_itself(candidate) || (candidate.kind is Variable
        && is_implicit_function_result(symbols, s))
    &&& is_type_member(symbols, s, s.name, candidate)
}

/// Whether `s` hides a member of a derived type of its module.
pub open spec fn hides_member(symbols: Seq<sm::Symbol>, s: sm::Symbol) -> bool {
    &&& !is_direct_type_bound_result(symbols, s)
    &&& exists|k: int|
        0 <= k < symbols.len() && is_hidden_member(symbols, s, #[trigger] symbols[k])
}

/// Whether a symbol hides something of a scope around it. A result in an
/// abstract interface hides nothing.
pub open spec fn hides_parent(symbols: Seq<sm::Symbol>, lines: Seq<Text>, s: sm::Symbol) -> bool {
    &&& s.scope.len() > 0
    &&& !(is_function_result(symbols, s) && in_abstract_interface(symbols, lines, s))
    &&& hides_variable(symbols, s) || hides_callable(symbols, lines, s) || hides_member(symbols, s)
}

/// Whether a `use` statement of a scope around `s` lists its name.
pub open spec fn use_lists(u: sm::UseStmt, s: sm::Symbol) -> bool {
    &&& u.scope.len() < s.scope.len()
    &&& st::same_scope(u.scope, s.scope.take(u.scope.len() as int))
    &&& st::has_name(u.only, s.name)
}

/// Whether `s` hides a name that a scope around it takes from a module.
pub open spec fn parent_use_only_name(uses: Seq<sm::UseStmt>, s: sm::Symbol) -> bool {
    exists|k: int| 0 <= k < uses.len() && use_lists(#[trigger] uses[k], s)
}

/// Whether another symbol than `i` has its name.
pub open spec fn shares_name(symbols: Seq<sm::Symbol>, i: int) -> bool {
    exists|k: int|
        0 <= k < symbols.len() && k != i && st::same((#[trigger] symbols[k]).name, symbols[i].name)
}

/// Whether a `use` statement lists a name.
pub open spec fn is_listed(uses: Seq<sm::UseStmt>, name: Text) -> bool {
    exists|k: int| 0 <= k < uses.len() && st::has_name((#[trigger] uses[k]).only, name)
}

/// Whether variables of a scope of a kind can hide others.
pub open spec fn can_mask(kind: Option<SymbolKind>) -> bool {
    kind == Some(SymbolKind::Subroutine) || kind == Some(SymbolKind::Function) || kind == Some(
        SymbolKind::Block,
    )
}

/// Whether the symbol `i` is a variable that hides something.
pub open spec fn is_masking_variable(p: sm::ParsedFile, lines: Seq<Text>, i: int) -> bool {
    let s = p.symbols[i];
    &&& s.kind is Variable
    &&& shares_name(p.symbols, i) || is_listed(p.uses, s.name)
    &&& can_mask(scope_owner_kind(p.symbols, s.scope))
    &&& hides_parent(p.symbols, lines, s) || parent_use_only_name(p.uses, s)
}

/// Whether a symbol is a component or a binding called `name` of a derived
/// type of the module around `s`.
pub open spec fn is_component_or_binding(
    symbols: Seq<sm::Symbol>,
    s: sm::Symbol,
    name: Text,
    candidate: sm::Symbol,
) -> bool {
    (candidate.kind is Variable || candidate.kind is Method) && is_type_member(
        symbols,
        s,
        name,
        candidate,
    )
}

/// Whether a symbol is a function that hides a member of a derived type.
pub open spec fn is_masking_function(symbols: Seq<sm::Symbol>, s: sm::Symbol) -> bool {
    &&& s.kind is Function
    &&& exists|k: int|
        0 <= k < symbols.len() && is_component_or_binding(symbols, s, s.name, #[trigger] symbols[k])
    &&& !is_direct_target(symbols, s.name)
}

/// Whether a binding called `name` of a derived type of the module around `s`
/// is bound to itself.
pub open spec fn is_self_bound_member(
    symbols: Seq<sm::Symbol>,
    s: sm::Symbol,
    name: Text,
    candidate: sm::Symbol,
) -> bool {
    is_bound_to_itself(candidate) && is_type_member(symbols, s, name, candidate)
}

/// The result of a function in a plain interface that hides a type-bound
/// procedure.
pub open spec fn masking_result(
    symbols: Seq<sm::Symbol>,
    lines: Seq<Text>,
    s: sm::Symbol,
) -> Option<Text> {
    match s.result {
        Some(result) => if s.kind is Function && line_interface_state(lines, s.range.start.line)
            == Some(false) && function_has_explicit_result_declaration(lines, s, result) && (
        exists|k: int|
            0 <= k < symbols.len() && is_self_bound_member(
                symbols,
                s,
                result,
                #[trigger] symbols[k],
            )) {
            Some(result)
        } else {
            None
        },
        None => None,
    }
}

pub open spec fn masking_diagnostic(s: sm::Symbol, name: Text) -> sm::Diagnostic {
    sm::Diagnostic {
        range: s.range,
        severity: DiagnosticSeverity::Warning,
        message: "Variable \""@ + name + "\" masks variable in parent scope"@,
    }
}

pub open spec fn variable_masks_from(
    p: sm::ParsedFile,
    lines: Seq<Text>,
    i: int,
    out: Seq<sm::Diagnostic>,
) -> Seq<sm::Diagnostic>
    decreases p.symbols.len() - i,
{
    if i >= p.symbols.len() {
        out
    } else {
        variable_masks_from(
            p,
            lines,
            i + 1,
            if is_masking_variable(p, lines, i) {
                out.push(masking_diagnostic(p.symbols[i], p.symbols[i].name))
            } else {
                out
            },
        )
    }
}

pub open spec fn function_masks_from(
    symbols: Seq<sm::Symbol>,
    i: int,
    out: Seq<sm::Diagnostic>,
) -> Seq<sm::Diagnostic>
    decreases symbols.len() - i,
{
    if i >= symbols.len() {
        out
    } else {
        function_masks_from(
            symbols,
            i + 1,
            if is_masking_function(symbols, symbols[i]) {
                out.push(masking_diagnostic(symbols[i], symbols[i].name))
            } else {
                out
            },
        )
    }
}

pub open spec fn result_masks_from(
    symbols: Seq<sm::Symbol>,
    lines: Seq<Text>,
    i: int,
    out: Seq<sm::Diagnostic>,
) -> Seq<sm::Diagnostic>
    decreases symbols.len() - i,
{
    if i >= symbols.len() {
        out
    } else {
        result_masks_from(
            symbols,
            lines,
            i + 1,
            match masking_result(symbols, lines, symbols[i]) {
                Some(result) => out.push(masking_diagnostic(symbols[i], result)),
                None => out,
            },
        )
    }
}

/// The remarks about symbols that hide others: variables first, then
/// functions, then results.
pub open spec fn masking_diagnostics(p: sm::ParsedFile) -> Seq<sm::Diagnostic> {
    let lines = st::lines(p.source);
    result_masks_from(
        p.symbols,
        lines,
        0,
        function_masks_from(p.symbols, 0, variable_masks_from(p, lines, 0, Seq::empty())),
    )
}

} // verus!
