//! What a name stands for.

use vstd::prelude::*;

use crate::spec::model as sm;
use crate::spec::model::{ParsedFile, Scope, Symbol, UseStmt};
use crate::spec::modules as sx;
use crate::spec::modules::{Export, Index};
use crate::spec::text as st;
use crate::spec::text::Text;
use crate::spec::workspace as sw;
use crate::spec::workspace::Workspace;

verus! {

/// A symbol of a workspace: the number of its file and its number there.
pub type Ref = (int, int);

// ---------------------------------------------------------------------------
// In a file
// ---------------------------------------------------------------------------

/// The first symbol from `i` on with a scope and a name.
pub open spec fn symbol_from(symbols: Seq<Symbol>, scope: Scope, name: Text, i: int) -> Option<int>
    decreases symbols.len() - i,
{
    if i >= symbols.len() {
        None
    } else if st::same_scope(symbols[i].scope, scope) && st::same(symbols[i].name, name) {
        Some(i)
    } else {
        symbol_from(symbols, scope, name, i + 1)
    }
}

/// Whether a scope has an interface `name`.
pub open spec fn interface_at(symbols: Seq<Symbol>, scope: Scope, name: Text) -> bool {
    exists|i: int|
        0 <= i < symbols.len() && (#[trigger] symbols[i]).kind is Interface && st::same_scope(
            symbols[i].scope,
            scope,
        ) && st::same(symbols[i].name, name)
}

/// Whether a symbol stands for a procedure that is defined elsewhere.
pub open spec fn is_link(s: Symbol) -> bool {
    st::starts_with(s.signature, "module procedure "@)
}

/// Whether a symbol is a procedure that an interface of a scope declares.
pub open spec fn is_prototype(symbols: Seq<Symbol>, s: Symbol, scope: Scope) -> bool {
    sm::is_procedure_kind(s.kind) && !is_link(s) && s.scope.len() == scope.len() + 1
        && st::same_scope(s.scope.drop_last(), scope) && interface_at(
        symbols,
        scope,
        s.scope.last(),
    )
}

/// The first procedure from `i` on that an interface of a scope declares under
/// a name.
pub open spec fn prototype_from(
    symbols: Seq<Symbol>,
    scope: Scope,
    name: Text,
    i: int,
) -> Option<int>
    decreases symbols.len() - i,
{
    if i >= symbols.len() {
        None
    } else if st::same(symbols[i].name, name) && is_prototype(symbols, symbols[i], scope) {
        Some(i)
    } else {
        prototype_from(symbols, scope, name, i + 1)
    }
}

/// What a name stands for among the symbols of a scope, and the procedures
/// that its interfaces declare.
pub open spec fn own_symbol(symbols: Seq<Symbol>, scope: Scope, name: Text) -> Option<int> {
    match symbol_from(symbols, scope, name, 0) {
        Some(k) => Some(k),
        None => prototype_from(symbols, scope, name, 0),
    }
}

// ---------------------------------------------------------------------------
// In files that are taken in
// ---------------------------------------------------------------------------

/// The symbol that a file has outside of any scope, or a file that it takes in
/// there, where at most `fuel` files are looked at in a row.
pub open spec fn in_included(ws: Workspace, g: int, name: Text, fuel: nat) -> Option<Ref>
    decreases fuel, 0int, 0int,
{
    match symbol_from(ws.index.files[g].symbols, Seq::empty(), name, 0) {
        Some(k) => Some((g, k)),
        None => if fuel == 0 {
            None
        } else {
            included_from(ws, g, Seq::empty(), name, 0, (fuel - 1) as nat)
        },
    }
}

/// The symbol that a file takes in with the statements of a scope from `i` on.
pub open spec fn included_from(
    ws: Workspace,
    f: int,
    scope: Scope,
    name: Text,
    i: int,
    fuel: nat,
) -> Option<Ref>
    decreases fuel, 1int, ws.index.files[f].includes.len() - i,
{
    let p = ws.index.files[f];
    if i >= p.includes.len() {
        None
    } else {
        let found = if st::same_scope(p.includes[i].scope, scope) {
            match sw::resolve_path(ws, p.path, p.includes[i].path) {
                Some(path) => match sw::find_file(ws, path) {
                    Some(g) => in_included(ws, g, name, fuel),
                    None => None,
                },
                None => None,
            }
        } else {
            None
        };
        if found is Some {
            found
        } else {
            included_from(ws, f, scope, name, i + 1, fuel)
        }
    }
}

// ---------------------------------------------------------------------------
// In modules
// ---------------------------------------------------------------------------

/// The first symbol from `i` on that a module has for others under a name.
pub open spec fn exported_from(p: ParsedFile, module: Text, name: Text, i: int) -> Option<int>
    decreases p.symbols.len() - i,
{
    if i >= p.symbols.len() {
        None
    } else if sx::is_exported(p, p.symbols[i], module, name) {
        Some(i)
    } else {
        exported_from(p, module, name, i + 1)
    }
}

/// The symbol that a module exports under a name, where the modules `open` are
/// left aside and at most `fuel` more are looked at in a row.
pub open spec fn export_ref(
    index: Index,
    module: Text,
    name: Text,
    open: Seq<Text>,
    fuel: nat,
) -> Option<Ref>
    decreases fuel, 1int, 0int,
{
    match sx::module_file(index.files, module) {
        Some(f) => match exported_from(index.files[f], module, name, 0) {
            Some(k) => Some((f, k)),
            None => if !sx::is_public(index.files[f], module, name) || fuel == 0 || st::has_name(
                open,
                module,
            ) {
                None
            } else {
                used_from(
                    index,
                    index.files[f].uses,
                    seq![module],
                    name,
                    0,
                    open.push(module),
                    (fuel - 1) as nat,
                )
            },
        },
        None => None,
    }
}

/// The symbol that the `use` statements of a scope from `i` on make known
/// under a name.
pub open spec fn used_from(
    index: Index,
    uses: Seq<UseStmt>,
    scope: Scope,
    name: Text,
    i: int,
    open: Seq<Text>,
    fuel: nat,
) -> Option<Ref>
    decreases fuel, 2int, uses.len() - i,
{
    if i >= uses.len() {
        None
    } else {
        let found = if st::same_scope(uses[i].scope, scope) && !uses[i].intrinsic {
            match sx::brings(uses[i], name) {
                Some(remote) => export_ref(index, uses[i].module, remote, open, fuel),
                None => None,
            }
        } else {
            None
        };
        if found is Some {
            found
        } else {
            used_from(index, uses, scope, name, i + 1, open, fuel)
        }
    }
}

/// How many modules are looked at in a row at most.
pub open spec fn module_fuel(index: Index) -> nat {
    sx::module_count_from(index.files, 0, 0)
}

/// The symbol that the module `module` exports under a name.
pub open spec fn exported(index: Index, module: Text, name: Text) -> Option<Ref> {
    export_ref(index, module, name, Seq::empty(), module_fuel(index))
}

// ---------------------------------------------------------------------------
// In scopes
// ---------------------------------------------------------------------------

/// What a name stands for in a scope of a file, leaving aside the scopes around
/// it.
pub open spec fn at_scope(ws: Workspace, f: int, scope: Scope, name: Text) -> Option<Ref> {
    match own_symbol(ws.index.files[f].symbols, scope, name) {
        Some(k) => Some((f, k)),
        None => match included_from(ws, f, scope, name, 0, ws.index.files.len()) {
            Some(r) => Some(r),
            None => used_from(
                ws.index,
                ws.index.files[f].uses,
                scope,
                name,
                0,
                Seq::empty(),
                module_fuel(ws.index),
            ),
        },
    }
}

/// What a name stands for in the first `n` of the scopes, the innermost first.
pub open spec fn lookup_from(
    ws: Workspace,
    f: int,
    scope: Scope,
    name: Text,
    n: nat,
) -> Option<Ref>
    decreases n,
{
    match at_scope(ws, f, scope.take(n as int), name) {
        Some(r) => Some(r),
        None => if n == 0 {
            None
        } else {
            lookup_from(ws, f, scope, name, (n - 1) as nat)
        },
    }
}

/// The ancestor of the first submodule from `i` on with a name.
pub open spec fn ancestor_from(symbols: Seq<Symbol>, name: Text, i: int) -> Option<Text>
    decreases symbols.len() - i,
{
    if i >= symbols.len() {
        None
    } else if symbols[i].kind is Submodule && symbols[i].scope.len() == 0 && st::same(
        symbols[i].name,
        name,
    ) {
        symbols[i].ancestor
    } else {
        ancestor_from(symbols, name, i + 1)
    }
}

/// The module whose names a submodule around a scope sees.
pub open spec fn ancestor_of(p: ParsedFile, scope: Scope) -> Option<Text> {
    if scope.len() == 0 {
        None
    } else {
        ancestor_from(p.symbols, scope[0], 0)
    }
}

/// What a name stands for in a scope of a file.
pub open spec fn lookup(ws: Workspace, f: int, scope: Scope, name: Text) -> Option<Ref> {
    match lookup_from(ws, f, scope, name, scope.len()) {
        Some(r) => Some(r),
        None => match ancestor_of(ws.index.files[f], scope) {
            Some(module) => match sx::module_file(ws.index.files, module) {
                Some(g) => at_scope(ws, g, seq![module], name),
                None => None,
            },
            None => None,
        },
    }
}

/// The first procedure from `i` on that stands outside of any scope.
pub open spec fn external_from(symbols: Seq<Symbol>, name: Text, i: int) -> Option<int>
    decreases symbols.len() - i,
{
    if i >= symbols.len() {
        None
    } else if sm::is_procedure_kind(symbols[i].kind) && symbols[i].scope.len() == 0 && st::same(
        symbols[i].name,
        name,
    ) {
        Some(i)
    } else {
        external_from(symbols, name, i + 1)
    }
}

/// The first procedure of the files from `i` on that stands outside of any
/// scope.
pub open spec fn global_from(files: Seq<ParsedFile>, name: Text, i: int) -> Option<Ref>
    decreases files.len() - i,
{
    if i >= files.len() {
        None
    } else {
        match external_from(files[i].symbols, name, 0) {
            Some(k) => Some((i, k)),
            None => global_from(files, name, i + 1),
        }
    }
}

/// What a name stands for in a scope of a file: what is known there, or else a
/// procedure that stands on its own.
pub open spec fn resolve(ws: Workspace, f: int, scope: Scope, name: Text) -> Option<Ref> {
    match lookup(ws, f, scope, name) {
        Some(r) => Some(r),
        None => global_from(ws.index.files, name, 0),
    }
}

// ---------------------------------------------------------------------------
// Whether a name can be known
// ---------------------------------------------------------------------------

/// Whether the `use` statements of a scope from `i` on make a name known. With
/// `strict`, a module that is named for single names and cannot be found does
/// not leave it open.
pub open spec fn used_export_from(
    index: Index,
    uses: Seq<UseStmt>,
    scope: Scope,
    name: Text,
    strict: bool,
    i: int,
    found: Export,
) -> Export
    decreases uses.len() - i,
{
    if i >= uses.len() {
        found
    } else {
        let next = if st::same_scope(uses[i].scope, scope) {
            match sx::brings(uses[i], name) {
                Some(remote) => if strict && uses[i].only.len() > 0 && !sx::is_resolved(
                    index,
                    uses[i],
                ) {
                    Export::No
                } else {
                    sx::use_exports(index, uses[i], remote)
                },
                None => Export::No,
            }
        } else {
            Export::No
        };
        if next is Yes {
            Export::Yes
        } else {
            used_export_from(
                index,
                uses,
                scope,
                name,
                strict,
                i + 1,
                if next is Unknown {
                    Export::Unknown
                } else {
                    found
                },
            )
        }
    }
}

/// Whether a name is known in a scope of a file, leaving aside the scopes
/// around it.
pub open spec fn known_at(
    ws: Workspace,
    f: int,
    scope: Scope,
    name: Text,
    strict: bool,
    found: Export,
) -> Export {
    if at_scope(ws, f, scope, name) is Some {
        Export::Yes
    } else {
        used_export_from(ws.index, ws.index.files[f].uses, scope, name, strict, 0, found)
    }
}

/// Whether a name is known in the first `n` of the scopes.
pub open spec fn known_from(
    ws: Workspace,
    f: int,
    scope: Scope,
    name: Text,
    strict: bool,
    n: nat,
    found: Export,
) -> Export
    decreases n,
{
    let next = known_at(ws, f, scope.take(n as int), name, strict, found);
    if next is Yes || n == 0 {
        next
    } else {
        known_from(ws, f, scope, name, strict, (n - 1) as nat, next)
    }
}

/// Whether a name is known in a scope of a file; it may not be known where a
/// module is not.
pub open spec fn known(ws: Workspace, f: int, scope: Scope, name: Text, strict: bool) -> Export {
    let found = known_from(ws, f, scope, name, strict, scope.len(), Export::No);
    if found is Yes {
        found
    } else {
        match ancestor_of(ws.index.files[f], scope) {
            Some(module) => match sx::module_file(ws.index.files, module) {
                Some(g) => known_at(ws, g, seq![module], name, strict, found),
                None => Export::Unknown,
            },
            None => found,
        }
    }
}

} // verus!
