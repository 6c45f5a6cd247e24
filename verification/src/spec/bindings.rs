//! The procedures that are bound to derived types, and what is wrong with them.

use vstd::prelude::*;

use crate::model::DiagnosticSeverity;
use crate::spec::checks as sy;
use crate::spec::model as sm;
use crate::spec::model::{Diagnostic, GenericBinding, ParsedFile, Scope, Symbol};
use crate::spec::modules as sx;
use crate::spec::names as sn;
use crate::spec::resolve as sv;
use crate::spec::resolve::Ref;
use crate::spec::scan as ss;
use crate::spec::text as st;
use crate::spec::text::Text;
use crate::spec::workspace::Workspace;

verus! {

// ---------------------------------------------------------------------------
// Types and their parents
// ---------------------------------------------------------------------------

/// The symbol that a reference leads to.
pub open spec fn symbol(ws: Workspace, r: Ref) -> Symbol {
    ws.index.files[r.0].symbols[r.1]
}

/// The first derived type from `i` on with a scope and a name.
pub open spec fn type_from(symbols: Seq<Symbol>, scope: Scope, name: Text, i: int) -> Option<int>
    decreases symbols.len() - i,
{
    if i >= symbols.len() {
        None
    } else if symbols[i].kind is Type && st::same_scope(symbols[i].scope, scope) && st::same(
        symbols[i].name,
        name,
    ) {
        Some(i)
    } else {
        type_from(symbols, scope, name, i + 1)
    }
}

/// The derived type that a name stands for in a scope of a file.
pub open spec fn lookup_type(ws: Workspace, f: int, scope: Scope, name: Text) -> Option<Ref> {
    match sv::lookup(ws, f, scope, name) {
        Some(r) => match type_from(
            ws.index.files[r.0].symbols,
            symbol(ws, r).scope,
            symbol(ws, r).name,
            0,
        ) {
            Some(k) => Some((r.0, k)),
            None => None,
        },
        None => None,
    }
}

/// The parent of a derived type.
pub open spec fn parent_of(ws: Workspace, r: Ref) -> Option<Ref> {
    match symbol(ws, r).extends {
        Some(name) => lookup_type(ws, r.0, symbol(ws, r).scope, name),
        None => None,
    }
}

/// A derived type and those that it extends behind `out`, `fuel` of them at
/// most.
pub open spec fn chain_from(ws: Workspace, r: Ref, fuel: nat, out: Seq<Ref>) -> Seq<Ref>
    decreases fuel,
{
    if fuel == 0 {
        out.push(r)
    } else {
        match parent_of(ws, r) {
            Some(q) => chain_from(ws, q, (fuel - 1) as nat, out.push(r)),
            None => out.push(r),
        }
    }
}

/// How many derived types are looked at in a row at most.
pub open spec fn chain_limit() -> nat {
    64
}

/// A derived type and those that it extends.
pub open spec fn chain(ws: Workspace, r: Ref) -> Seq<Ref> {
    chain_from(ws, r, chain_limit(), Seq::empty())
}

/// Whether a type extends one that is not known.
pub open spec fn is_open_end(ws: Workspace, r: Ref) -> bool {
    symbol(ws, r).extends is Some && parent_of(ws, r) is None
}

// ---------------------------------------------------------------------------
// Methods
// ---------------------------------------------------------------------------

/// Whether a symbol is a procedure that is bound to a type.
pub open spec fn is_method_of(m: Symbol, t: Symbol) -> bool {
    m.kind is Method && st::same_scope(m.scope, t.scope.push(t.name))
}

/// The first procedure from `i` on that is bound to a type under a name.
pub open spec fn method_from(symbols: Seq<Symbol>, t: Symbol, name: Text, i: int) -> Option<int>
    decreases symbols.len() - i,
{
    if i >= symbols.len() {
        None
    } else if is_method_of(symbols[i], t) && st::same(symbols[i].name, name) {
        Some(i)
    } else {
        method_from(symbols, t, name, i + 1)
    }
}

/// The procedure that is bound to a type itself under a name.
pub open spec fn own_method(ws: Workspace, r: Ref, name: Text) -> Option<Ref> {
    match method_from(ws.index.files[r.0].symbols, symbol(ws, r), name, 0) {
        Some(k) => Some((r.0, k)),
        None => None,
    }
}

/// The procedure that the types from `i` on bind under a name, the first of
/// them first.
pub open spec fn find_method(ws: Workspace, types: Seq<Ref>, name: Text, i: int) -> Option<Ref>
    decreases types.len() - i,
{
    if i >= types.len() {
        None
    } else {
        match own_method(ws, types[i], name) {
            Some(r) => Some(r),
            None => find_method(ws, types, name, i + 1),
        }
    }
}

// ---------------------------------------------------------------------------
// Targets
// ---------------------------------------------------------------------------

/// The name of the procedure that a binding stands for.
pub open spec fn target_name(m: Symbol) -> Text {
    match m.binding_target {
        Some(name) => name,
        None => m.name,
    }
}

pub open spec fn unknown_target(m: Symbol) -> Diagnostic {
    Diagnostic {
        range: m.selection_range,
        severity: DiagnosticSeverity::Error,
        message: "type-bound procedure `"@ + m.name + "` has unresolved target `"@ + target_name(m)
            + "`"@,
    }
}

/// Whether the target of a binding can be known.
pub open spec fn target_is_known(ws: Workspace, f: int, m: Symbol) -> bool {
    !(sv::known(ws, f, m.scope.drop_last(), target_name(m), false) is No) || sv::global_from(
        ws.index.files,
        target_name(m),
        0,
    ) is Some
}

// ---------------------------------------------------------------------------
// Interfaces of bindings
// ---------------------------------------------------------------------------

/// The name of the interface in `procedure(name)`.
pub open spec fn interface_name(m: Symbol) -> Option<Text> {
    match m.type_spec {
        Some(t) => match ss::paren_content(t) {
            Some(inner) => st::first_ident(inner),
            None => None,
        },
        None => None,
    }
}

/// The variable of a procedure with the given name.
pub open spec fn local(ws: Workspace, r: Ref, name: Text) -> Option<int> {
    sv::symbol_from(
        ws.index.files[r.0].symbols,
        symbol(ws, r).scope.push(symbol(ws, r).name),
        name,
        0,
    )
}

/// A text without white space, in lower case.
pub open spec fn plain(t: Text) -> Text {
    st::squeeze(st::lower(t))
}

/// Whether one of the texts is `t`, white space and case aside.
pub open spec fn has_plain(list: Seq<Text>, t: Text) -> bool {
    exists|i: int| 0 <= i < list.len() && plain(#[trigger] list[i]) == plain(t)
}

/// Whether all of the texts are among the others.
pub open spec fn all_plain_in(list: Seq<Text>, other: Seq<Text>) -> bool {
    forall|i: int| 0 <= i < list.len() ==> has_plain(other, #[trigger] list[i])
}

pub open spec fn plain_option(t: Option<Text>) -> Option<Text> {
    match t {
        Some(t) => Some(plain(t)),
        None => None,
    }
}

/// Whether two variables are declared alike.
pub open spec fn declared_alike(a: Symbol, b: Symbol) -> bool {
    &&& plain_option(a.type_spec) == plain_option(b.type_spec)
    &&& all_plain_in(a.attributes, b.attributes)
    &&& all_plain_in(b.attributes, a.attributes)
}

/// Whether one of the types has the name `name`.
pub open spec fn has_type_named(ws: Workspace, types: Seq<Ref>, name: Text) -> bool {
    exists|i: int| 0 <= i < types.len() && st::same(symbol(ws, #[trigger] types[i]).name, name)
}

/// Whether a passed object fits where another one is expected: that one takes
/// any type, or the type of the first extends it. What is not known fits.
pub open spec fn object_fits(ws: Workspace, f: int, expected: Symbol, given: Symbol) -> bool {
    match (expected.type_spec, given.type_spec) {
        (Some(wanted), Some(t)) => match (sn::derived_type(wanted), sn::derived_type(t)) {
            (Some(wanted_name), Some(name)) => match lookup_type(ws, f, given.scope, name) {
                Some(r) => has_type_named(ws, chain(ws, r), wanted_name),
                None => true,
            },
            _ => true,
        },
        _ => true,
    }
}

/// Which argument of a procedure the object is passed as.
pub open spec fn passed_index(m: Symbol, args: Seq<Text>) -> Option<int> {
    if st::has_name(m.attributes, "nopass"@) {
        None
    } else {
        match m.pass_arg {
            Some(name) => name_index(args, name, 0),
            None => Some(0),
        }
    }
}

/// The first index from `i` on of a name.
pub open spec fn name_index(names: Seq<Text>, name: Text, i: int) -> Option<int>
    decreases names.len() - i,
{
    if i >= names.len() {
        None
    } else if st::same(names[i], name) {
        Some(i)
    } else {
        name_index(names, name, i + 1)
    }
}

/// Whether the argument `i` of a procedure fits that of an interface. What is
/// not declared fits.
pub open spec fn argument_fits(
    ws: Workspace,
    expected: Ref,
    given: Ref,
    passed: Option<int>,
    i: int,
) -> bool {
    match (
        local(ws, expected, symbol(ws, expected).args[i]),
        local(ws, given, symbol(ws, given).args[i]),
    ) {
        (Some(a), Some(b)) => {
            let wanted = ws.index.files[expected.0].symbols[a];
            let var = ws.index.files[given.0].symbols[b];
            if passed == Some(i) {
                object_fits(ws, given.0, wanted, var)
            } else {
                declared_alike(wanted, var)
            }
        },
        _ => true,
    }
}

/// What stands before `function` in a signature.
pub open spec fn header_type(signature: Text) -> Option<Text> {
    match st::find(st::lower(signature), "function"@) {
        Some(i) => if plain(signature.take(i)).len() == 0 {
            None
        } else {
            Some(plain(signature.take(i)))
        },
        None => None,
    }
}

/// The type of the result of a function.
pub open spec fn result_type(ws: Workspace, r: Ref) -> Option<Text> {
    let s = symbol(ws, r);
    let name = match s.result {
        Some(name) => name,
        None => s.name,
    };
    match local(ws, r, name) {
        Some(k) => plain_option(ws.index.files[r.0].symbols[k].type_spec),
        None => header_type(s.signature),
    }
}

/// Whether the result of a function fits that of an interface.
pub open spec fn result_fits(ws: Workspace, expected: Ref, given: Ref) -> bool {
    if symbol(ws, expected).kind is Function {
        match (result_type(ws, expected), result_type(ws, given)) {
            (Some(wanted), Some(t)) => wanted == t,
            _ => true,
        }
    } else {
        true
    }
}

/// Whether a procedure fits an interface.
pub open spec fn procedure_fits(
    ws: Workspace,
    expected: Ref,
    given: Ref,
    passed: Option<int>,
) -> bool {
    &&& symbol(ws, expected).kind == symbol(ws, given).kind
    &&& symbol(ws, expected).args.len() == symbol(ws, given).args.len()
    &&& result_fits(ws, expected, given)
    &&& forall|i: int|
        0 <= i < symbol(ws, expected).args.len() ==> #[trigger] argument_fits(
            ws,
            expected,
            given,
            passed,
            i,
        )
}

pub open spec fn unlike_interface(m: Symbol, interface: Text) -> Diagnostic {
    Diagnostic {
        range: m.selection_range,
        severity: DiagnosticSeverity::Error,
        message: "type-bound procedure `"@ + m.name + "` target `"@ + target_name(m)
            + "` does not match interface `"@ + interface + "`"@,
    }
}

/// The procedure that a name stands for in a scope of a file.
pub open spec fn resolve_procedure(ws: Workspace, f: int, scope: Scope, name: Text) -> Option<Ref> {
    match sv::resolve(ws, f, scope, name) {
        Some(r) => if sm::is_procedure_kind(symbol(ws, r).kind) {
            Some(r)
        } else {
            None
        },
        None => None,
    }
}

/// The diagnostic for a binding whose target does not fit its interface.
pub open spec fn interface_diagnostic(ws: Workspace, f: int, m: Symbol) -> Option<Diagnostic> {
    match interface_name(m) {
        Some(name) => match (
            resolve_procedure(ws, f, m.scope.drop_last(), name),
            resolve_procedure(ws, f, m.scope.drop_last(), target_name(m)),
        ) {
            (Some(expected), Some(given)) => if procedure_fits(
                ws,
                expected,
                given,
                passed_index(m, symbol(ws, expected).args),
            ) {
                None
            } else {
                Some(unlike_interface(m, name))
            },
            _ => None,
        },
        None => None,
    }
}

/// The diagnostic for a procedure that is bound to a type.
pub open spec fn method_diagnostic(ws: Workspace, f: int, i: int) -> Option<Diagnostic> {
    let m = ws.index.files[f].symbols[i];
    if m.kind is Method && !m.is_deferred && m.scope.len() > 0 {
        if !target_is_known(ws, f, m) {
            Some(unknown_target(m))
        } else {
            interface_diagnostic(ws, f, m)
        }
    } else {
        None
    }
}

// ---------------------------------------------------------------------------
// Deferred procedures
// ---------------------------------------------------------------------------

/// Whether one of the types from `i` up to `n` defers a procedure.
pub open spec fn defers(ws: Workspace, types: Seq<Ref>, name: Text, i: int, n: int) -> bool {
    exists|k: int|
        i <= k < n && (#[trigger] own_method(ws, types[k], name) matches Some(m)
            && symbol(ws, m).is_deferred)
}

/// Whether one of the types from `i` up to `n` binds a procedure.
pub open spec fn binds(ws: Workspace, types: Seq<Ref>, name: Text, i: int, n: int) -> bool {
    exists|k: int| i <= k < n && (#[trigger] own_method(ws, types[k], name)) is Some
}

/// Whether the first of the types has to bind a procedure that the type `j`
/// defers, and does not. Where the parent is of another file, it has to bind
/// the procedure itself.
pub open spec fn lacks_method(ws: Workspace, types: Seq<Ref>, name: Text, j: int) -> bool {
    if types[1].0 == types[0].0 {
        !binds(ws, types, name, 0, j)
    } else {
        !binds(ws, types, name, 0, 1) && !defers(ws, types, name, 1, j)
    }
}

pub open spec fn unimplemented(t: Symbol, parent: Symbol, m: Symbol, near: bool) -> Diagnostic {
    Diagnostic {
        range: t.selection_range,
        severity: DiagnosticSeverity::Error,
        message: if near {
            "Deferred procedure `"@ + m.name + "` of `"@ + parent.name
                + "` is not implemented by `"@ + t.name + "`"@
        } else {
            "deferred procedure \""@ + m.name + "\" not implemented"@
        },
    }
}

/// The diagnostics for the symbols from `k` on of the file of the type `j` that
/// are deferred procedures of it and are not there, behind `out`.
pub open spec fn deferred_from(
    ws: Workspace,
    types: Seq<Ref>,
    j: int,
    k: int,
    out: Seq<Diagnostic>,
) -> Seq<Diagnostic>
    decreases ws.index.files[types[j].0].symbols.len() - k,
{
    let symbols = ws.index.files[types[j].0].symbols;
    if k >= symbols.len() {
        out
    } else {
        deferred_from(
            ws,
            types,
            j,
            k + 1,
            if is_method_of(symbols[k], symbol(ws, types[j])) && symbols[k].is_deferred
                && lacks_method(ws, types, symbols[k].name, j) {
                out.push(
                    unimplemented(
                        symbol(ws, types[0]),
                        symbol(ws, types[j]),
                        symbols[k],
                        types[1].0 == types[0].0,
                    ),
                )
            } else {
                out
            },
        )
    }
}

/// The diagnostics for what the types from `j` on defer, behind `out`.
pub open spec fn inherited_from(
    ws: Workspace,
    types: Seq<Ref>,
    j: int,
    out: Seq<Diagnostic>,
) -> Seq<Diagnostic>
    decreases types.len() - j,
{
    if j >= types.len() {
        out
    } else {
        inherited_from(ws, types, j + 1, deferred_from(ws, types, j, 0, out))
    }
}

/// Whether all modules that a file uses are known.
pub open spec fn all_resolved(index: sx::Index, p: ParsedFile) -> bool {
    forall|i: int| 0 <= i < p.uses.len() ==> sx::is_resolved(index, #[trigger] p.uses[i])
}

/// The diagnostics for the deferred procedures that a type does not bind,
/// behind `out`.
pub open spec fn deferred_diagnostics(
    ws: Workspace,
    f: int,
    i: int,
    out: Seq<Diagnostic>,
) -> Seq<Diagnostic> {
    let t = ws.index.files[f].symbols[i];
    let types = chain(ws, (f, i));
    if t.kind is Type && !t.is_abstract && types.len() > 1 && (types[1].0 == f || all_resolved(
        ws.index,
        ws.index.files[types[1].0],
    )) {
        inherited_from(ws, types, 1, out)
    } else {
        out
    }
}

// ---------------------------------------------------------------------------
// Generic bindings
// ---------------------------------------------------------------------------

pub open spec fn unknown_binding(b: GenericBinding, name: Text) -> Diagnostic {
    Diagnostic {
        range: b.range,
        severity: DiagnosticSeverity::Error,
        message: "generic binding `"@ + b.name + "` references unknown type-bound procedure `"@
            + name + "`"@,
    }
}

/// The diagnostics for the procedures from `j` on that a generic binding names
/// and the types do not bind, behind `out`.
pub open spec fn binding_from(
    ws: Workspace,
    types: Seq<Ref>,
    b: GenericBinding,
    j: int,
    out: Seq<Diagnostic>,
) -> Seq<Diagnostic>
    decreases b.procedures.len() - j,
{
    if j >= b.procedures.len() {
        out
    } else {
        binding_from(
            ws,
            types,
            b,
            j + 1,
            if find_method(ws, types, b.procedures[j], 0) is None {
                out.push(unknown_binding(b, b.procedures[j]))
            } else {
                out
            },
        )
    }
}

/// The diagnostics for a generic binding, behind `out`.
pub open spec fn binding_diagnostics(
    ws: Workspace,
    f: int,
    b: GenericBinding,
    out: Seq<Diagnostic>,
) -> Seq<Diagnostic> {
    if b.scope.len() == 0 {
        out
    } else {
        match type_from(ws.index.files[f].symbols, b.scope.drop_last(), b.scope.last(), 0) {
            Some(t) => {
                let types = chain(ws, (f, t));
                if is_open_end(ws, types.last()) {
                    out
                } else {
                    binding_from(ws, types, b, 0, out)
                }
            },
            None => out,
        }
    }
}

/// The diagnostics for the generic bindings from `i` on, behind `out`.
pub open spec fn generics_from(
    ws: Workspace,
    f: int,
    i: int,
    out: Seq<Diagnostic>,
) -> Seq<Diagnostic>
    decreases ws.index.files[f].generic_bindings.len() - i,
{
    let list = ws.index.files[f].generic_bindings;
    if i >= list.len() {
        out
    } else {
        generics_from(ws, f, i + 1, binding_diagnostics(ws, f, list[i], out))
    }
}

// ---------------------------------------------------------------------------
// All of them
// ---------------------------------------------------------------------------

/// The diagnostics for the bindings among the symbols from `i` on, behind
/// `out`.
pub open spec fn methods_from(
    ws: Workspace,
    f: int,
    i: int,
    out: Seq<Diagnostic>,
) -> Seq<Diagnostic>
    decreases ws.index.files[f].symbols.len() - i,
{
    if i >= ws.index.files[f].symbols.len() {
        out
    } else {
        methods_from(
            ws,
            f,
            i + 1,
            deferred_diagnostics(ws, f, i, sy::with_diagnostic(out, method_diagnostic(ws, f, i))),
        )
    }
}

/// The diagnostics for the bindings of a file, behind `out`.
pub open spec fn type_bound_diagnostics(
    ws: Workspace,
    f: int,
    out: Seq<Diagnostic>,
) -> Seq<Diagnostic> {
    generics_from(ws, f, 0, methods_from(ws, f, 0, out))
}

} // verus!
