//! What the modules of a workspace export.

use vstd::prelude::*;

use crate::spec::intrinsics as si;
use crate::spec::model as sm;
use crate::spec::model::{ParsedFile, Scope, Symbol, UseRename, UseStmt, VisibilityStmt};
use crate::spec::text as st;
use crate::spec::text::Text;

verus! {

/// The files of a workspace and the intrinsic symbols.
#[verifier::ext_equal]
pub struct Index {
    pub files: Seq<ParsedFile>,
    pub intrinsics: Seq<si::IntrinsicSymbol>,
}

/// Whether a module has a name for others: it may not be known where a module
/// that it uses is not.
pub enum Export {
    Yes,
    No,
    Unknown,
}

// ---------------------------------------------------------------------------
// Finding modules
// ---------------------------------------------------------------------------

/// Whether a symbol is the module `name`.
pub open spec fn is_module(s: Symbol, name: Text) -> bool {
    s.kind is Module && s.scope.len() == 0 && st::same(s.name, name)
}

/// Whether a file holds the module `name`.
pub open spec fn holds_module(p: ParsedFile, name: Text) -> bool {
    exists|i: int| 0 <= i < p.symbols.len() && is_module(#[trigger] p.symbols[i], name)
}

/// The first file from `i` on that holds the module `name`.
pub open spec fn module_file_from(files: Seq<ParsedFile>, name: Text, i: int) -> Option<int>
    decreases files.len() - i,
{
    if i >= files.len() {
        None
    } else if holds_module(files[i], name) {
        Some(i)
    } else {
        module_file_from(files, name, i + 1)
    }
}

pub open spec fn module_file(files: Seq<ParsedFile>, name: Text) -> Option<int> {
    module_file_from(files, name, 0)
}

pub open spec fn is_intrinsic_module(index: Index, name: Text) -> bool {
    si::find_module_from(index.intrinsics, name, 0) is Some
}

/// How many modules the symbols from `i` on hold, more than `n`.
pub open spec fn module_symbols_from(symbols: Seq<Symbol>, i: int, n: nat) -> nat
    decreases symbols.len() - i,
{
    if i >= symbols.len() {
        n
    } else {
        module_symbols_from(
            symbols,
            i + 1,
            if symbols[i].kind is Module {
                st::size(n + 1) as nat
            } else {
                n
            },
        )
    }
}

/// How many modules the files from `i` on hold, more than `n`.
pub open spec fn module_count_from(files: Seq<ParsedFile>, i: int, n: nat) -> nat
    decreases files.len() - i,
{
    if i >= files.len() {
        n
    } else {
        module_count_from(files, i + 1, module_symbols_from(files[i].symbols, 0, n))
    }
}

// ---------------------------------------------------------------------------
// Visibility
// ---------------------------------------------------------------------------

/// Whether a scope is that of the module `module`.
pub open spec fn in_module(scope: Scope, module: Text) -> bool {
    scope.len() == 1 && st::same(scope[0], module)
}

/// Whether names of a module are public where nothing else is said, going by
/// the first `n` statements.
pub open spec fn default_is_public(stmts: Seq<VisibilityStmt>, module: Text, n: int) -> bool
    decreases n,
{
    if n <= 0 {
        true
    } else if in_module(stmts[n - 1].scope, module) && stmts[n - 1].names.len() == 0 {
        !(stmts[n - 1].visibility is Private)
    } else {
        default_is_public(stmts, module, n - 1)
    }
}

/// Whether a name of a module is public, going by the first `n` statements
/// that name it.
pub open spec fn is_public_from(
    stmts: Seq<VisibilityStmt>,
    module: Text,
    name: Text,
    n: int,
) -> bool
    decreases n,
{
    if n <= 0 {
        default_is_public(stmts, module, stmts.len() as int)
    } else if in_module(stmts[n - 1].scope, module) && st::has_name(stmts[n - 1].names, name) {
        !(stmts[n - 1].visibility is Private)
    } else {
        is_public_from(stmts, module, name, n - 1)
    }
}

pub open spec fn is_public(p: ParsedFile, module: Text, name: Text) -> bool {
    is_public_from(p.visibility, module, name, p.visibility.len() as int)
}

/// Whether a module has an interface `name`.
pub open spec fn has_interface(p: ParsedFile, module: Text, name: Text) -> bool {
    exists|i: int|
        0 <= i < p.symbols.len() && (#[trigger] p.symbols[i]).kind is Interface && in_module(
            p.symbols[i].scope,
            module,
        ) && st::same(p.symbols[i].name, name)
}

/// Whether a symbol is something that a module has for others under `name`:
/// a symbol of the module itself, or a procedure that one of its interfaces
/// declares.
pub open spec fn is_exported(p: ParsedFile, s: Symbol, module: Text, name: Text) -> bool {
    st::same(s.name, name) && (if in_module(s.scope, module) {
        !(s.visibility is Private)
    } else {
        s.scope.len() == 2 && st::same(s.scope[0], module) && sm::is_procedure_kind(s.kind)
            && has_interface(p, module, s.scope[1]) && is_public(p, module, name)
    })
}

/// Whether a module itself has something for others under `name`.
pub open spec fn own_export(p: ParsedFile, module: Text, name: Text) -> bool {
    exists|i: int|
        0 <= i < p.symbols.len() && is_exported(p, #[trigger] p.symbols[i], module, name)
}

// ---------------------------------------------------------------------------
// Use statements
// ---------------------------------------------------------------------------

/// What the first rename from `i` on to the local name `name` renames.
pub open spec fn remote_from(renames: Seq<UseRename>, name: Text, i: int) -> Option<Text>
    decreases renames.len() - i,
{
    if i >= renames.len() {
        None
    } else if st::same(renames[i].local, name) {
        Some(renames[i].remote)
    } else {
        remote_from(renames, name, i + 1)
    }
}

/// Whether the name `name` of a module was given another one.
pub open spec fn is_renamed(renames: Seq<UseRename>, name: Text) -> bool {
    exists|i: int| 0 <= i < renames.len() && st::same((#[trigger] renames[i]).remote, name)
}

/// The name in the module that a local name stands for.
pub open spec fn remote_name(u: UseStmt, name: Text) -> Text {
    match remote_from(u.renames, name, 0) {
        Some(remote) => remote,
        None => name,
    }
}

/// The name in its module that a `use` statement makes known under `name`.
pub open spec fn brings(u: UseStmt, name: Text) -> Option<Text> {
    if u.only.len() > 0 {
        if st::has_name(u.only, name) {
            Some(remote_name(u, name))
        } else {
            None
        }
    } else {
        match remote_from(u.renames, name, 0) {
            Some(remote) => Some(remote),
            None => if is_renamed(u.renames, name) {
                None
            } else {
                Some(name)
            },
        }
    }
}

/// Whether the module of a `use` statement is known.
pub open spec fn is_resolved(index: Index, u: UseStmt) -> bool {
    (!u.intrinsic && module_file(index.files, u.module) is Some) || is_intrinsic_module(
        index,
        u.module,
    )
}

pub open spec fn intrinsic_export(index: Index, module: Text, name: Text) -> Export {
    if is_intrinsic_module(index, module) {
        if si::module_exports(index.intrinsics, module, name) {
            Export::Yes
        } else {
            Export::No
        }
    } else {
        Export::Unknown
    }
}

/// Whether the module `module` exports `name`, where the modules `open` are
/// left aside and at most `fuel` more are looked at in a row.
pub open spec fn exports_within(
    index: Index,
    module: Text,
    name: Text,
    open: Seq<Text>,
    fuel: nat,
) -> Export
    decreases fuel, 1int, 0int,
{
    match module_file(index.files, module) {
        Some(f) => if own_export(index.files[f], module, name) {
            Export::Yes
        } else if !is_public(index.files[f], module, name) || fuel == 0 || st::has_name(
            open,
            module,
        ) {
            Export::No
        } else {
            reexports_from(
                index,
                index.files[f].uses,
                module,
                name,
                0,
                Export::No,
                open.push(module),
                fuel,
            )
        },
        None => intrinsic_export(index, module, name),
    }
}

/// Whether one of the `use` statements of a module from `i` on makes `name`
/// known there.
pub open spec fn reexports_from(
    index: Index,
    uses: Seq<UseStmt>,
    module: Text,
    name: Text,
    i: int,
    found: Export,
    open: Seq<Text>,
    fuel: nat,
) -> Export
    decreases fuel, 0int, uses.len() - i,
{
    if i >= uses.len() || fuel == 0 {
        found
    } else {
        let next = if in_module(uses[i].scope, module) {
            match brings(uses[i], name) {
                Some(remote) => if uses[i].intrinsic {
                    intrinsic_export(index, uses[i].module, remote)
                } else {
                    exports_within(index, uses[i].module, remote, open, (fuel - 1) as nat)
                },
                None => Export::No,
            }
        } else {
            Export::No
        };
        if next is Yes {
            Export::Yes
        } else {
            reexports_from(
                index,
                uses,
                module,
                name,
                i + 1,
                if next is Unknown {
                    Export::Unknown
                } else {
                    found
                },
                open,
                fuel,
            )
        }
    }
}

/// Whether the module `module` exports `name`.
pub open spec fn exports(index: Index, module: Text, name: Text) -> Export {
    exports_within(index, module, name, Seq::empty(), module_count_from(index.files, 0, 0))
}

/// Whether the module of a `use` statement exports `name`.
pub open spec fn use_exports(index: Index, u: UseStmt, name: Text) -> Export {
    if u.intrinsic {
        intrinsic_export(index, u.module, name)
    } else {
        exports(index, u.module, name)
    }
}

// ---------------------------------------------------------------------------
// Modules that are known in part
// ---------------------------------------------------------------------------

/// Whether one of `names` is a public name of a module.
pub open spec fn any_public(p: ParsedFile, module: Text, names: Seq<Text>) -> bool {
    exists|i: int| 0 <= i < names.len() && is_public(p, module, #[trigger] names[i])
}

/// Whether a `use` statement of a module may make names known to others that
/// cannot be known.
pub open spec fn leaves_open(index: Index, p: ParsedFile, u: UseStmt, module: Text) -> bool {
    in_module(u.scope, module) && !is_resolved(index, u) && (u.only.len() == 0 || any_public(
        p,
        module,
        u.only,
    ))
}

/// Whether not all that a module exports can be known.
pub open spec fn is_partial(index: Index, p: ParsedFile, module: Text) -> bool {
    exists|i: int| 0 <= i < p.uses.len() && leaves_open(index, p, #[trigger] p.uses[i], module)
}

/// Whether a symbol is something that a module itself has for others.
pub open spec fn is_own(s: Symbol, module: Text) -> bool {
    in_module(s.scope, module) && !(s.visibility is Private) && !(s.kind is Use)
}

/// Whether a module itself has something for others.
pub open spec fn has_api(p: ParsedFile, module: Text) -> bool {
    exists|i: int| 0 <= i < p.symbols.len() && is_own(#[trigger] p.symbols[i], module)
}

} // verus!
