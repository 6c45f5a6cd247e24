//! What modules have for others.

use vstd::prelude::*;

use crate::spec::intrinsics as si;
use crate::spec::model as sm;
use crate::spec::model::{ParsedFile, UseStmt, VisibilityStmt};
use crate::spec::modules as sx;
use crate::spec::modules::{Export, Index};
use crate::spec::text as st;
use crate::spec::text::Text;

verus! {

/// Whether one of the names is the given one, case aside.
pub open spec fn lists(names: Seq<Text>, name: Text) -> bool {
    exists|i: int| 0 <= i < names.len() && st::lower(#[trigger] names[i]) == st::lower(name)
}

proof fn lemma_lists(names: Seq<Text>, name: Text)
    ensures
        st::has_name(names, name) == lists(names, name),
{
    if lists(names, name) {
        let i = choose|i: int|
            0 <= i < names.len() && st::lower(#[trigger] names[i]) == st::lower(name);
        assert(st::same(names[i], name));
    }
}

// ---------------------------------------------------------------------------
// Use statements
// ---------------------------------------------------------------------------

/// The first rename that gives something the local name is the one that counts.
proof fn lemma_remote(renames: Seq<sm::UseRename>, name: Text, i: int)
    requires
        0 <= i,
    ensures
        match sx::remote_from(renames, name, i) {
            Some(remote) => exists|k: int|
                i <= k < renames.len() && st::lower((#[trigger] renames[k]).local)
                    == st::lower(name)
                    && renames[k].remote == remote,
            None => forall|k: int|
                i <= k < renames.len() ==> st::lower((#[trigger] renames[k]).local) != st::lower(
                    name,
                ),
        },
    decreases renames.len() - i,
{
    if i < renames.len() {
        if st::lower(renames[i].local) != st::lower(name) {
            lemma_remote(renames, name, i + 1);
        } else {
            assert(sx::remote_from(renames, name, i) == Some(renames[i].remote));
        }
    }
}

/// A `use` statement with a list makes known the names of the list and no others,
/// each as what it renames, or as itself.
pub proof fn law_only(u: UseStmt, name: Text)
    requires
        u.only.len() > 0,
    ensures
        sx::brings(u, name) is Some <==> lists(u.only, name),
        sx::brings(u, name) matches Some(remote) ==> remote == name || exists|k: int|
            0 <= k < u.renames.len() && st::lower((#[trigger] u.renames[k]).local) == st::lower(
                name,
            ) && u.renames[k].remote == remote,
        lists(u.only, name) && (forall|k: int|
            0 <= k < u.renames.len() ==> st::lower((#[trigger] u.renames[k]).local) != st::lower(
                name,
            )) ==> sx::brings(u, name) == Some(name),
{
    lemma_lists(u.only, name);
    lemma_remote(u.renames, name, 0);
}

/// A `use` statement without a list makes known everything under its own name,
/// but for what it renames: that is known under the new name alone.
pub proof fn law_whole(u: UseStmt, name: Text)
    requires
        u.only.len() == 0,
        forall|k: int|
            0 <= k < u.renames.len() ==> st::lower((#[trigger] u.renames[k]).local) != st::lower(
                name,
            ),
    ensures
        (sx::brings(u, name) == Some(name)) <==> forall|k: int|
            0 <= k < u.renames.len() ==> st::lower((#[trigger] u.renames[k]).remote) != st::lower(
                name,
            ),
        sx::brings(u, name) is None <==> exists|k: int|
            0 <= k < u.renames.len() && st::lower((#[trigger] u.renames[k]).remote) == st::lower(
                name,
            ),
{
    lemma_remote(u.renames, name, 0);
    if sx::is_renamed(u.renames, name) {
        let k = choose|k: int|
            0 <= k < u.renames.len() && st::same((#[trigger] u.renames[k]).remote, name);
        assert(st::lower(u.renames[k].remote) == st::lower(name));
    }
    if exists|k: int|
        0 <= k < u.renames.len() && st::lower((#[trigger] u.renames[k]).remote) == st::lower(name) {
        let k = choose|k: int|
            0 <= k < u.renames.len() && st::lower((#[trigger] u.renames[k]).remote) == st::lower(
                name,
            );
        assert(st::same(u.renames[k].remote, name));
    }
}

// ---------------------------------------------------------------------------
// Visibility
// ---------------------------------------------------------------------------

/// Whether a statement stands in a module.
pub open spec fn stands_in(s: VisibilityStmt, module: Text) -> bool {
    s.scope.len() == 1 && st::lower(s.scope[0]) == st::lower(module)
}

proof fn lemma_default(stmts: Seq<VisibilityStmt>, module: Text, n: int, k: int)
    requires
        0 <= k < n <= stmts.len(),
        stands_in(stmts[k], module),
        stmts[k].names.len() == 0,
        forall|j: int|
            k < j < n ==> !(stands_in(#[trigger] stmts[j], module) && stmts[j].names.len() == 0),
    ensures
        sx::default_is_public(stmts, module, n) == !(stmts[k].visibility is Private),
    decreases n,
{
    if k < n - 1 {
        lemma_default(stmts, module, n - 1, k);
    }
}

proof fn lemma_no_default(stmts: Seq<VisibilityStmt>, module: Text, n: int)
    requires
        0 <= n <= stmts.len(),
        forall|j: int|
            0 <= j < n ==> !(stands_in(#[trigger] stmts[j], module) && stmts[j].names.len() == 0),
    ensures
        sx::default_is_public(stmts, module, n),
    decreases n,
{
    if n > 0 {
        lemma_no_default(stmts, module, n - 1);
    }
}

proof fn lemma_unnamed(stmts: Seq<VisibilityStmt>, module: Text, name: Text, n: int)
    requires
        0 <= n <= stmts.len(),
        forall|j: int|
            0 <= j < n ==> !(stands_in(#[trigger] stmts[j], module) && lists(stmts[j].names, name)),
    ensures
        sx::is_public_from(stmts, module, name, n) == sx::default_is_public(
            stmts,
            module,
            stmts.len() as int,
        ),
    decreases n,
{
    if n > 0 {
        lemma_lists(stmts[n - 1].names, name);
        lemma_unnamed(stmts, module, name, n - 1);
    }
}

proof fn lemma_named(stmts: Seq<VisibilityStmt>, module: Text, name: Text, n: int, k: int)
    requires
        0 <= k < n <= stmts.len(),
        stands_in(stmts[k], module),
        lists(stmts[k].names, name),
        forall|j: int|
            k < j < n ==> !(stands_in(#[trigger] stmts[j], module) && lists(stmts[j].names, name)),
    ensures
        sx::is_public_from(stmts, module, name, n) == !(stmts[k].visibility is Private),
    decreases n,
{
    lemma_lists(stmts[n - 1].names, name);
    if k < n - 1 {
        lemma_named(stmts, module, name, n - 1, k);
    }
}

/// A name of a module is what the last statement of the module that lists it says.
pub proof fn law_named_visibility(p: ParsedFile, module: Text, name: Text, k: int)
    requires
        0 <= k < p.visibility.len(),
        stands_in(p.visibility[k], module),
        lists(p.visibility[k].names, name),
        forall|j: int|
            k < j < p.visibility.len() ==> !(stands_in(#[trigger] p.visibility[j], module) && lists(
                p.visibility[j].names,
                name,
            )),
    ensures
        sx::is_public(p, module, name) == !(p.visibility[k].visibility is Private),
{
    lemma_named(p.visibility, module, name, p.visibility.len() as int, k);
}

/// A name that no statement lists is what the last statement without a list says,
/// and public where there is none.
pub proof fn law_default_visibility(p: ParsedFile, module: Text, name: Text, k: Option<int>)
    requires
        forall|j: int|
            0 <= j < p.visibility.len() ==> !(stands_in(#[trigger] p.visibility[j], module)
                && lists(p.visibility[j].names, name)),
        k matches Some(k) ==> 0 <= k < p.visibility.len() && stands_in(p.visibility[k], module)
            && p.visibility[k].names.len() == 0,
        forall|j: int|
            (match k {
                Some(k) => k,
                None => -1,
            }) < j < p.visibility.len() ==> !(stands_in(#[trigger] p.visibility[j], module)
                && p.visibility[j].names.len() == 0),
    ensures
        sx::is_public(p, module, name) == (match k {
            Some(k) => !(p.visibility[k].visibility is Private),
            None => true,
        }),
{
    let n = p.visibility.len() as int;
    lemma_unnamed(p.visibility, module, name, n);
    match k {
        Some(k) => lemma_default(p.visibility, module, n, k),
        None => lemma_no_default(p.visibility, module, n),
    }
}

// ---------------------------------------------------------------------------
// Exports
// ---------------------------------------------------------------------------

/// Whether a module has a symbol of its own for others under a name.
pub open spec fn has_own(p: ParsedFile, module: Text, name: Text) -> bool {
    exists|i: int|
        0 <= i < p.symbols.len() && st::lower((#[trigger] p.symbols[i]).name) == st::lower(name)
            && p.symbols[i].scope.len() == 1 && st::lower(p.symbols[i].scope[0]) == st::lower(
            module,
        ) && !(p.symbols[i].visibility is Private)
}

/// A module exports each symbol of its own that is not private.
pub proof fn law_own_export(index: Index, module: Text, name: Text, f: int)
    requires
        sx::module_file(index.files, module) == Some(f),
        has_own(index.files[f], module, name),
    ensures
        sx::exports(index, module, name) is Yes,
{
    let p = index.files[f];
    let i = choose|i: int|
        0 <= i < p.symbols.len() && st::lower((#[trigger] p.symbols[i]).name) == st::lower(name)
            && p.symbols[i].scope.len() == 1 && st::lower(p.symbols[i].scope[0]) == st::lower(
            module,
        ) && !(p.symbols[i].visibility is Private);
    assert(sx::is_exported(p, p.symbols[i], module, name));
}

/// A module exports what a module that it uses exports, under the name that the
/// `use` statement gives it, unless it makes the name private.
pub proof fn law_reexport(
    index: Index,
    module: Text,
    name: Text,
    f: int,
    k: int,
    remote: Text,
    open: Seq<Text>,
    fuel: nat,
)
    requires
        sx::module_file(index.files, module) == Some(f),
        sx::is_public(index.files[f], module, name),
        fuel > 0,
        !lists(open, module),
        0 <= k < index.files[f].uses.len(),
        !index.files[f].uses[k].intrinsic,
        index.files[f].uses[k].scope.len() == 1,
        st::lower(index.files[f].uses[k].scope[0]) == st::lower(module),
        sx::brings(index.files[f].uses[k], name) == Some(remote),
        sx::exports_within(
            index,
            index.files[f].uses[k].module,
            remote,
            open.push(module),
            (fuel - 1) as nat,
        ) is Yes,
    ensures
        sx::exports_within(index, module, name, open, fuel) is Yes,
{
    lemma_lists(open, module);
    lemma_reexport(
        index,
        index.files[f].uses,
        module,
        name,
        0,
        Export::No,
        open.push(module),
        fuel,
        k,
        remote,
    );
}

proof fn lemma_reexport(
    index: Index,
    uses: Seq<UseStmt>,
    module: Text,
    name: Text,
    i: int,
    found: Export,
    open: Seq<Text>,
    fuel: nat,
    k: int,
    remote: Text,
)
    requires
        fuel > 0,
        0 <= i <= k < uses.len(),
        !uses[k].intrinsic,
        sx::in_module(uses[k].scope, module),
        sx::brings(uses[k], name) == Some(remote),
        sx::exports_within(index, uses[k].module, remote, open, (fuel - 1) as nat) is Yes,
    ensures
        sx::reexports_from(index, uses, module, name, i, found, open, fuel) is Yes,
    decreases k - i,
{
    let next = if sx::in_module(uses[i].scope, module) {
        match sx::brings(uses[i], name) {
            Some(remote) => if uses[i].intrinsic {
                sx::intrinsic_export(index, uses[i].module, remote)
            } else {
                sx::exports_within(index, uses[i].module, remote, open, (fuel - 1) as nat)
            },
            None => Export::No,
        }
    } else {
        Export::No
    };
    if i < k && !(next is Yes) {
        lemma_reexport(
            index,
            uses,
            module,
            name,
            i + 1,
            if next is Unknown {
                Export::Unknown
            } else {
                found
            },
            open,
            fuel,
            k,
            remote,
        );
    }
}

/// A module that is known neither here nor to the processor exports what cannot
/// be known; one of the processor exports what it is said to.
pub proof fn law_foreign_module(index: Index, module: Text, name: Text)
    requires
        sx::module_file(index.files, module) is None,
    ensures
        !sx::is_intrinsic_module(index, module) ==> sx::exports(index, module, name) is Unknown,
        sx::is_intrinsic_module(index, module) ==> (sx::exports(index, module, name) is Yes
            <==> si::module_exports(index.intrinsics, module, name)),
{
}

} // verus!
