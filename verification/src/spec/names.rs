//! What is wrong with the names that a file declares and refers to.

use vstd::prelude::*;

use crate::model::{DiagnosticSeverity, Position, Range};
use crate::spec::checks as sy;
use crate::spec::model as sm;
use crate::spec::model::{Diagnostic, ImportStmt, ParsedFile, Scope, Symbol, UseStmt};
use crate::spec::modules as sx;
use crate::spec::resolve as sv;
use crate::spec::scan as ss;
use crate::spec::text as st;
use crate::spec::text::Text;
use crate::spec::workspace::Workspace;

verus! {

// ---------------------------------------------------------------------------
// Types
// ---------------------------------------------------------------------------

/// Whether a word is a type that can have a kind.
pub open spec fn is_numeric_type(word: Text) -> bool {
    ||| st::same(word, "integer"@)
    ||| st::same(word, "real"@)
    ||| st::same(word, "complex"@)
    ||| st::same(word, "logical"@)
}

/// Whether a word is the name of an intrinsic type.
pub open spec fn is_intrinsic_type(word: Text) -> bool {
    ||| is_numeric_type(word)
    ||| st::same(word, "character"@)
    ||| st::same(word, "double"@)
    ||| st::same(word, "doubleprecision"@)
}

/// The value behind `kind =`.
pub open spec fn named_kind(inner: Text) -> Option<Text> {
    match st::after_keyword(inner, "kind"@) {
        Some(rest) => match st::strip_char(st::trim(rest), '=') {
            Some(value) => Some(st::trim(value)),
            None => None,
        },
        None => None,
    }
}

/// The name of the kind of a type, and whether it stands there on its own.
pub open spec fn kind_name(type_spec: Text) -> Option<(Text, bool)> {
    match st::first_ident(type_spec) {
        Some(word) => if is_numeric_type(word) {
            match ss::paren_content(type_spec) {
                Some(inner) => match named_kind(st::trim(inner)) {
                    Some(name) => if st::is_fortran_name(name) {
                        Some((name, false))
                    } else {
                        None
                    },
                    None => if st::is_fortran_name(st::trim(inner)) {
                        Some((st::trim(inner), true))
                    } else {
                        None
                    },
                },
                None => None,
            }
        } else {
            None
        },
        None => None,
    }
}

/// The name of the derived type in `type(name)` or `class(name)`.
pub open spec fn derived_type(type_spec: Text) -> Option<Text> {
    if st::first_ident_is(type_spec, "type"@) || st::first_ident_is(type_spec, "class"@) {
        match ss::paren_content(type_spec) {
            Some(inner) => st::first_ident(inner),
            None => None,
        }
    } else {
        None
    }
}

/// The name of the type that a declaration refers to.
pub open spec fn declared_type(type_spec: Text) -> Option<Text> {
    match derived_type(type_spec) {
        Some(name) => if is_intrinsic_type(name) {
            None
        } else {
            Some(name)
        },
        None => None,
    }
}

/// The type in the declaration of a variable.
pub open spec fn variable_type(s: Symbol) -> Option<Text> {
    if s.kind is Variable {
        s.type_spec
    } else {
        None
    }
}

// ---------------------------------------------------------------------------
// Kinds
// ---------------------------------------------------------------------------

/// Whether a symbol is the first variable that its line declares.
pub open spec fn is_first_on_line(symbols: Seq<Symbol>, i: int) -> bool {
    i == 0 || !(symbols[i - 1].kind is Variable) || symbols[i - 1].selection_range.start.line
        != symbols[i].selection_range.start.line
}

pub open spec fn unknown_object(range: Range, name: Text) -> Diagnostic {
    Diagnostic {
        range,
        severity: DiagnosticSeverity::Error,
        message: "object \""@ + name + "\" not found in scope"@,
    }
}

/// The diagnostic for a kind that is not known.
pub open spec fn kind_diagnostic(ws: Workspace, f: int, i: int) -> Option<Diagnostic> {
    let symbols = ws.index.files[f].symbols;
    match variable_type(symbols[i]) {
        Some(type_spec) => match kind_name(type_spec) {
            Some((name, shorthand)) => if is_first_on_line(symbols, i) && sv::known(
                ws,
                f,
                symbols[i].scope,
                name,
                shorthand,
            ) is No {
                Some(unknown_object(symbols[i].selection_range, name))
            } else {
                None
            },
            None => None,
        },
        None => None,
    }
}

// ---------------------------------------------------------------------------
// Types of declarations
// ---------------------------------------------------------------------------

/// Whether the name at a level of a scope is that of an interface, and the next
/// one is that of a procedure that it declares.
pub open spec fn is_prototype_level(symbols: Seq<Symbol>, scope: Scope, k: int) -> bool {
    &&& sv::interface_at(symbols, scope.take(k), scope[k])
    &&& sv::symbol_from(symbols, scope.take(k + 1), scope[k + 1], 0) is Some
}

/// The first level from `k` on where a scope enters an interface.
pub open spec fn interface_level(symbols: Seq<Symbol>, scope: Scope, k: int) -> Option<int>
    decreases scope.len() - k,
{
    if k + 1 >= scope.len() {
        None
    } else if is_prototype_level(symbols, scope, k) {
        Some(k)
    } else {
        interface_level(symbols, scope, k + 1)
    }
}

/// Whether a procedure of an interface is that of a module, which sees the
/// names of its host.
pub open spec fn is_module_prototype(s: Symbol) -> bool {
    st::after_keyword(s.signature, "module"@) is Some || st::contains(
        st::lower(s.signature),
        " module function"@,
    )
}

/// Whether a position lies in an abstract interface.
pub open spec fn in_abstract(symbols: Seq<Symbol>, pos: Position) -> bool {
    exists|i: int|
        0 <= i < symbols.len() && (#[trigger] symbols[i]).kind is Interface
            && symbols[i].is_abstract && sm::range_contains(symbols[i].range, pos)
}

/// Whether one of the scopes from level `n` on knows a name without those
/// around it.
pub open spec fn known_inside(ws: Workspace, f: int, scope: Scope, name: Text, n: int) -> bool
    decreases scope.len() + 1 - n,
{
    if n > scope.len() {
        false
    } else {
        !(sv::known_at(ws, f, scope.take(n), name, false, sx::Export::No) is No) || known_inside(
            ws,
            f,
            scope,
            name,
            n + 1,
        )
    }
}

/// Whether an `import` statement brings a name in.
pub open spec fn imports_name(m: ImportStmt, name: Text) -> bool {
    m.kind is All || m.kind is Only && st::has_name(m.names, name)
}

/// Whether a scope is one of those from level `n` on.
pub open spec fn is_level_from(scope: Scope, other: Scope, n: int) -> bool {
    n <= other.len() <= scope.len() && st::same_scope(other, scope.take(other.len() as int))
}

/// Whether an `import` statement of one of the scopes from level `n` on brings
/// a name in.
pub open spec fn is_imported(imports: Seq<ImportStmt>, scope: Scope, name: Text, n: int) -> bool {
    exists|i: int|
        0 <= i < imports.len() && is_level_from(scope, (#[trigger] imports[i]).scope, n)
            && imports_name(imports[i], name)
}

/// Whether an interface that is not abstract refers to a name of its host
/// without importing it.
pub open spec fn lacks_import(ws: Workspace, f: int, s: Symbol, name: Text) -> bool {
    let p = ws.index.files[f];
    let scope = s.scope;
    match interface_level(p.symbols, scope, 0) {
        Some(k) => match sv::symbol_from(p.symbols, scope.take(k + 1), scope[k + 1], 0) {
            Some(proto) => !is_module_prototype(p.symbols[proto]) && !in_abstract(
                p.symbols,
                s.selection_range.start,
            ) && !is_imported(
                p.imports,
                scope,
                name,
                k + 1,
            ) && !known_inside(ws, f, scope, name, k + 1) && sv::known(
                ws,
                f,
                scope,
                name,
                false,
            ) is Yes,
            None => false,
        },
        None => false,
    }
}

pub open spec fn missing_import(s: Symbol, name: Text) -> Diagnostic {
    Diagnostic {
        range: s.selection_range,
        severity: DiagnosticSeverity::Error,
        message: "Object \""@ + name + "\" not imported in interface"@,
    }
}

pub open spec fn unknown_type(s: Symbol, name: Text) -> Diagnostic {
    Diagnostic {
        range: s.selection_range,
        severity: DiagnosticSeverity::Error,
        message: "declared type `"@ + name + "` of `"@ + s.name + "` could not be resolved"@,
    }
}

/// The diagnostic for a declaration whose type is not known.
pub open spec fn type_diagnostic(ws: Workspace, f: int, i: int) -> Option<Diagnostic> {
    let s = ws.index.files[f].symbols[i];
    match variable_type(s) {
        Some(type_spec) => match declared_type(type_spec) {
            Some(name) => if lacks_import(ws, f, s, name) {
                Some(missing_import(s, name))
            } else if sv::known(ws, f, s.scope, name, false) is No {
                Some(unknown_type(s, name))
            } else {
                None
            },
            None => None,
        },
        None => None,
    }
}

// ---------------------------------------------------------------------------
// Imports
// ---------------------------------------------------------------------------

pub open spec fn unknown_import(m: ImportStmt, name: Text) -> Diagnostic {
    Diagnostic {
        range: m.range,
        severity: DiagnosticSeverity::Error,
        message: "host scope does not define imported name `"@ + name + "`"@,
    }
}

/// The level where the host of the scope of an `import` statement ends: before
/// the innermost interface among the first `n` names, or else before the last
/// name.
pub open spec fn host_level(symbols: Seq<Symbol>, scope: Scope, n: int) -> int
    decreases n,
{
    if n <= 0 {
        if scope.len() == 0 {
            0
        } else {
            scope.len() - 1
        }
    } else if sv::interface_at(symbols, scope.take(n - 1), scope[n - 1]) {
        n - 1
    } else {
        host_level(symbols, scope, n - 1)
    }
}

/// The diagnostics for the names from `j` on that an `import` statement names
/// and its host does not know, behind `out`.
pub open spec fn import_from(
    ws: Workspace,
    f: int,
    m: ImportStmt,
    host: Scope,
    j: int,
    out: Seq<Diagnostic>,
) -> Seq<Diagnostic>
    decreases m.names.len() - j,
{
    if j >= m.names.len() {
        out
    } else {
        import_from(
            ws,
            f,
            m,
            host,
            j + 1,
            if sv::known(ws, f, host, m.names[j], false) is No {
                out.push(unknown_import(m, m.names[j]))
            } else {
                out
            },
        )
    }
}

/// The diagnostics for the `import` statements from `i` on, behind `out`.
pub open spec fn imports_from(
    ws: Workspace,
    f: int,
    i: int,
    out: Seq<Diagnostic>,
) -> Seq<Diagnostic>
    decreases ws.index.files[f].imports.len() - i,
{
    let p = ws.index.files[f];
    if i >= p.imports.len() {
        out
    } else {
        let m = p.imports[i];
        imports_from(
            ws,
            f,
            i + 1,
            if m.kind is Only {
                import_from(
                    ws,
                    f,
                    m,
                    m.scope.take(host_level(p.symbols, m.scope, m.scope.len() as int)),
                    0,
                    out,
                )
            } else {
                out
            },
        )
    }
}

// ---------------------------------------------------------------------------
// Procedures of modules
// ---------------------------------------------------------------------------

pub open spec fn unknown_prototype(s: Symbol) -> Diagnostic {
    Diagnostic {
        range: s.selection_range,
        severity: DiagnosticSeverity::Error,
        message: "module procedure `"@ + s.name + "` has no matching ancestor interface"@,
    }
}

/// The diagnostic for a procedure of a submodule that the ancestor does not
/// declare.
pub open spec fn procedure_diagnostic(ws: Workspace, f: int, i: int) -> Option<Diagnostic> {
    let p = ws.index.files[f];
    let s = p.symbols[i];
    if s.is_module_procedure && s.scope.len() == 1 {
        match sv::ancestor_of(p, s.scope) {
            Some(module) => match sx::module_file(ws.index.files, module) {
                Some(g) => if sv::prototype_from(
                    ws.index.files[g].symbols,
                    seq![module],
                    s.name,
                    0,
                ) is None {
                    Some(unknown_prototype(s))
                } else {
                    None
                },
                None => None,
            },
            None => None,
        }
    } else {
        None
    }
}

pub open spec fn unknown_link(s: Symbol) -> Diagnostic {
    Diagnostic {
        range: s.selection_range,
        severity: DiagnosticSeverity::Error,
        message: "generic interface `"@ + s.scope.last()
            + "` references unknown module procedure `"@ + s.name + "`"@,
    }
}

/// The diagnostic for a procedure that an interface takes from its module and
/// that is not there.
pub open spec fn link_diagnostic(ws: Workspace, f: int, i: int) -> Option<Diagnostic> {
    let p = ws.index.files[f];
    let s = p.symbols[i];
    if sv::is_link(s) && s.scope.len() > 0 && sv::interface_at(
        p.symbols,
        s.scope.drop_last(),
        s.scope.last(),
    ) && sv::known(ws, f, s.scope.drop_last(), s.name, false) is No && sv::global_from(
        ws.index.files,
        s.name,
        0,
    ) is None {
        Some(unknown_link(s))
    } else {
        None
    }
}

// ---------------------------------------------------------------------------
// Names that hide others
// ---------------------------------------------------------------------------

pub open spec fn hiding(s: Symbol, name: Text) -> Diagnostic {
    Diagnostic {
        range: s.selection_range,
        severity: DiagnosticSeverity::Warning,
        message: "Variable \""@ + name + "\" masks variable in parent scope"@,
    }
}

/// Whether one of the first `n` scopes, without the one that holds everything,
/// has a variable `name`.
pub open spec fn has_variable(symbols: Seq<Symbol>, scope: Scope, name: Text, n: int) -> bool
    decreases n,
{
    if n <= 0 {
        false
    } else {
        (sv::symbol_from(symbols, scope.take(n), name, 0) matches Some(k)
            && symbols[k].kind is Variable) || has_variable(symbols, scope, name, n - 1)
    }
}

/// The diagnostic for the result of a function that is not declared and hides a
/// variable around the function.
pub open spec fn result_diagnostic(p: ParsedFile, i: int) -> Option<Diagnostic> {
    let s = p.symbols[i];
    match s.result {
        Some(name) => if s.kind is Function && sv::symbol_from(
            p.symbols,
            s.scope.push(s.name),
            name,
            0,
        ) is None && has_variable(p.symbols, s.scope, name, s.scope.len() as int) {
            Some(hiding(s, name))
        } else {
            None
        },
        None => None,
    }
}

/// Whether a use of a whole module in one of the scopes around another one
/// makes a named constant known under a name.
pub open spec fn brings_constant(ws: Workspace, u: UseStmt, scope: Scope, name: Text) -> bool {
    &&& u.only.len() == 0
    &&& !u.intrinsic
    &&& u.scope.len() < scope.len()
    &&& is_level_from(scope, u.scope, 0)
    &&& sx::brings(u, name) matches Some(remote) && (sv::exported(
        ws.index,
        u.module,
        remote,
    ) matches Some(r) && ws.index.files[r.0].symbols[r.1].is_parameter)
}

/// The diagnostic for a variable of a procedure that hides a named constant of
/// a module.
pub open spec fn constant_diagnostic(ws: Workspace, f: int, i: int) -> Option<Diagnostic> {
    let p = ws.index.files[f];
    let s = p.symbols[i];
    if s.kind is Variable && s.scope.len() > 1 && (sv::symbol_from(
        p.symbols,
        s.scope.drop_last(),
        s.scope.last(),
        0,
    ) matches Some(k) && sm::is_procedure_kind(p.symbols[k].kind)) && exists|j: int|
        0 <= j < p.uses.len() && brings_constant(ws, #[trigger] p.uses[j], s.scope, s.name) {
        Some(hiding(s, s.name))
    } else {
        None
    }
}

// ---------------------------------------------------------------------------
// Submodules
// ---------------------------------------------------------------------------

/// The procedure of a submodule around a variable.
pub open spec fn owner_from(symbols: Seq<Symbol>, s: Symbol) -> Option<int> {
    if s.kind is Variable && s.scope.len() == 2 {
        sv::symbol_from(symbols, s.scope.take(1), s.scope[1], 0)
    } else {
        None
    }
}

/// Whether a symbol is a variable of another procedure of the same submodule,
/// with the same name.
pub open spec fn is_sibling(s: Symbol, other: Symbol) -> bool {
    &&& other.kind is Variable
    &&& other.scope.len() == 2
    &&& st::same(other.scope[0], s.scope[0])
    &&& !st::same(other.scope[1], s.scope[1])
    &&& st::same(other.name, s.name)
}

/// Whether one of the first `n` symbols is such a variable.
pub open spec fn has_sibling(symbols: Seq<Symbol>, s: Symbol, n: int) -> bool {
    exists|j: int| 0 <= j < n && is_sibling(s, #[trigger] symbols[j])
}

/// The diagnostic for a variable in a procedure of a submodule that has the
/// name of an interface of the ancestor, or of a variable in a procedure before
/// it. Arguments and procedures that the ancestor does not declare are left
/// out.
pub open spec fn submodule_diagnostic(ws: Workspace, f: int, i: int) -> Option<Diagnostic> {
    let p = ws.index.files[f];
    let s = p.symbols[i];
    match owner_from(p.symbols, s) {
        Some(k) => match sv::ancestor_of(p, s.scope) {
            Some(module) => match sx::module_file(ws.index.files, module) {
                Some(g) => {
                    let symbols = ws.index.files[g].symbols;
                    if sv::prototype_from(symbols, seq![module], s.scope[1], 0) is Some
                        && !st::has_name(p.symbols[k].args, s.name) && (sv::interface_at(
                        symbols,
                        seq![module],
                        s.name,
                    ) || has_sibling(p.symbols, s, i)) {
                        Some(hiding(s, s.name))
                    } else {
                        None
                    }
                },
                None => None,
            },
            None => None,
        },
        None => None,
    }
}

/// Whether a symbol is another function that a module declares in an interface
/// with a name, and its result has the given name.
pub open spec fn is_named_result(q: Symbol, module: Text, owner: Text, name: Text) -> bool {
    &&& q.kind is Function
    &&& q.scope.len() == 2
    &&& st::same(q.scope[0], module)
    &&& !st::same(q.scope[1], "interface"@)
    &&& !st::same(q.name, owner)
    &&& (q.result matches Some(r) && st::same(r, name))
}

pub open spec fn has_named_result(
    symbols: Seq<Symbol>,
    module: Text,
    owner: Text,
    name: Text,
) -> bool {
    exists|j: int|
        0 <= j < symbols.len() && is_named_result(#[trigger] symbols[j], module, owner, name)
}

/// The diagnostic for an argument of a function of a submodule that has the
/// name of the result of another function that the ancestor declares.
pub open spec fn argument_diagnostic(ws: Workspace, f: int, i: int) -> Option<Diagnostic> {
    let p = ws.index.files[f];
    let s = p.symbols[i];
    match owner_from(p.symbols, s) {
        Some(k) => match sv::ancestor_of(p, s.scope) {
            Some(module) => match sx::module_file(ws.index.files, module) {
                Some(g) => if p.symbols[k].kind is Function && st::has_name(
                    p.symbols[k].args,
                    s.name,
                ) && has_named_result(ws.index.files[g].symbols, module, s.scope[1], s.name) {
                    Some(twice(s, s.name))
                } else {
                    None
                },
                None => None,
            },
            None => None,
        },
        None => None,
    }
}

pub open spec fn twice(s: Symbol, name: Text) -> Diagnostic {
    Diagnostic {
        range: s.selection_range,
        severity: DiagnosticSeverity::Error,
        message: "Variable \""@ + name + "\" declared twice in scope"@,
    }
}

/// The diagnostic for a function whose result has the name of an argument.
pub open spec fn twice_diagnostic(s: Symbol) -> Option<Diagnostic> {
    match s.result {
        Some(name) => if s.kind is Function && st::has_name(s.args, name) {
            Some(twice(s, name))
        } else {
            None
        },
        None => None,
    }
}

// ---------------------------------------------------------------------------
// All of them
// ---------------------------------------------------------------------------

/// The diagnostics for a symbol, behind `out`.
pub open spec fn symbol_diagnostics(
    ws: Workspace,
    f: int,
    i: int,
    out: Seq<Diagnostic>,
) -> Seq<Diagnostic> {
    let kinds = sy::with_diagnostic(out, kind_diagnostic(ws, f, i));
    let types = sy::with_diagnostic(kinds, type_diagnostic(ws, f, i));
    let procedures = sy::with_diagnostic(types, procedure_diagnostic(ws, f, i));
    let links = sy::with_diagnostic(procedures, link_diagnostic(ws, f, i));
    let results = sy::with_diagnostic(links, result_diagnostic(ws.index.files[f], i));
    let constants = sy::with_diagnostic(results, constant_diagnostic(ws, f, i));
    let submodules = sy::with_diagnostic(constants, submodule_diagnostic(ws, f, i));
    let arguments = sy::with_diagnostic(submodules, argument_diagnostic(ws, f, i));
    sy::with_diagnostic(arguments, twice_diagnostic(ws.index.files[f].symbols[i]))
}

/// The diagnostics for the symbols from `i` on, behind `out`.
pub open spec fn symbols_from(
    ws: Workspace,
    f: int,
    i: int,
    out: Seq<Diagnostic>,
) -> Seq<Diagnostic>
    decreases ws.index.files[f].symbols.len() - i,
{
    if i >= ws.index.files[f].symbols.len() {
        out
    } else {
        symbols_from(ws, f, i + 1, symbol_diagnostics(ws, f, i, out))
    }
}

/// The diagnostics for the names of a file, behind `out`.
pub open spec fn name_diagnostics(ws: Workspace, f: int, out: Seq<Diagnostic>) -> Seq<Diagnostic> {
    symbols_from(ws, f, 0, imports_from(ws, f, 0, out))
}

} // verus!
