//! What names stand for.

use vstd::prelude::*;

use crate::laws::places::{is_in, lemma_symbol};
use crate::model::Position;
use crate::spec::bindings as sg;
use crate::spec::completion as sco;
use crate::spec::cursor as su;
use crate::spec::model as sm;
use crate::spec::model::{Location, Scope, UseStmt};
use crate::spec::modules as sx;
use crate::spec::modules::Index;
use crate::spec::query as sqy;
use crate::spec::resolve as sv;
use crate::spec::resolve::Ref;
use crate::spec::text as st;
use crate::spec::text::Text;
use crate::spec::workspace as sw;
use crate::spec::workspace::Workspace;

verus! {

// ---------------------------------------------------------------------------
// Scopes
// ---------------------------------------------------------------------------

proof fn lemma_lookup(ws: Workspace, f: int, scope: Scope, name: Text, n: nat, k: int)
    requires
        0 <= k <= n <= scope.len(),
        forall|m: int|
            k < m <= n ==> sv::at_scope(ws, f, #[trigger] scope.take(m), name) is None,
        sv::at_scope(ws, f, scope.take(k), name) is Some,
    ensures
        sv::lookup_from(ws, f, scope, name, n) == sv::at_scope(ws, f, scope.take(k), name),
    decreases n,
{
    if k < n {
        assert(sv::at_scope(ws, f, scope.take(n as int), name) is None);
        lemma_lookup(ws, f, scope, name, (n - 1) as nat, k);
    }
}

proof fn lemma_lookup_none(ws: Workspace, f: int, scope: Scope, name: Text, n: nat)
    requires
        n <= scope.len(),
        forall|m: int| 0 <= m <= n ==> sv::at_scope(ws, f, #[trigger] scope.take(m), name) is None,
    ensures
        sv::lookup_from(ws, f, scope, name, n) is None,
    decreases n,
{
    assert(sv::at_scope(ws, f, scope.take(n as int), name) is None);
    if n > 0 {
        lemma_lookup_none(ws, f, scope, name, (n - 1) as nat);
    }
}

/// A name stands for what the innermost scope that knows it says.
pub proof fn law_innermost(ws: Workspace, f: int, scope: Scope, name: Text, k: int)
    requires
        0 <= k <= scope.len(),
        forall|m: int|
            k < m <= scope.len() ==> sv::at_scope(ws, f, #[trigger] scope.take(m), name) is None,
        sv::at_scope(ws, f, scope.take(k), name) is Some,
    ensures
        sv::resolve(ws, f, scope, name) == sv::at_scope(ws, f, scope.take(k), name),
{
    lemma_lookup(ws, f, scope, name, scope.len(), k);
}

/// A symbol of the scope comes before everything that is taken in or used there;
/// of several with the name it is the first one, and the case of its letters does
/// not matter.
pub proof fn law_own_symbol(ws: Workspace, f: int, scope: Scope, name: Text, k: int)
    requires
        0 <= k < ws.index.files[f].symbols.len(),
        is_in(ws.index.files[f].symbols[k], scope, name),
        forall|j: int|
            0 <= j < k ==> !is_in(#[trigger] ws.index.files[f].symbols[j], scope, name),
    ensures
        sv::at_scope(ws, f, scope, name) == Some((f, k)),
        sv::resolve(ws, f, scope, name) == Some((f, k)),
{
    let symbols = ws.index.files[f].symbols;
    lemma_symbol(symbols, scope, name, 0);
    assert(scope.take(scope.len() as int) =~= scope);
    law_innermost(ws, f, scope, name, scope.len() as int);
}

/// A name that no scope knows stands for what the module above a submodule knows,
/// or else for a procedure that stands on its own.
pub proof fn law_outside(ws: Workspace, f: int, scope: Scope, name: Text)
    requires
        forall|m: int|
            0 <= m <= scope.len() ==> sv::at_scope(ws, f, #[trigger] scope.take(m), name) is None,
    ensures
        ({
            let above = match sv::ancestor_of(ws.index.files[f], scope) {
                Some(module) => match sx::module_file(ws.index.files, module) {
                    Some(g) => sv::at_scope(ws, g, seq![module], name),
                    None => None,
                },
                None => None,
            };
            &&& above is Some ==> sv::resolve(ws, f, scope, name) == above
            &&& above is None ==> (sv::resolve(ws, f, scope, name) matches Some(r) ==> is_external(
                ws,
                r,
                name,
            ))
            &&& above is None && sv::resolve(ws, f, scope, name) is None ==> forall|g: int, k: int|
                0 <= g < ws.index.files.len() && 0 <= k < ws.index.files[g].symbols.len()
                    ==> !#[trigger] is_external(ws, (g, k), name)
        }),
{
    lemma_lookup_none(ws, f, scope, name, scope.len());
    lemma_global(ws, name, 0);
}

/// Whether a symbol is a procedure that stands on its own.
pub open spec fn is_external(ws: Workspace, r: Ref, name: Text) -> bool {
    &&& 0 <= r.0 < ws.index.files.len()
    &&& 0 <= r.1 < ws.index.files[r.0].symbols.len()
    &&& sg::symbol(ws, r).kind is Subroutine || sg::symbol(ws, r).kind is Function
    &&& sg::symbol(ws, r).scope.len() == 0
    &&& st::lower(sg::symbol(ws, r).name) == st::lower(name)
}

proof fn lemma_external(ws: Workspace, g: int, name: Text, i: int)
    requires
        0 <= g < ws.index.files.len(),
        0 <= i,
    ensures
        match sv::external_from(ws.index.files[g].symbols, name, i) {
            Some(k) => i <= k && is_external(ws, (g, k), name),
            None => forall|k: int|
                i <= k < ws.index.files[g].symbols.len() ==> !#[trigger] is_external(
                    ws,
                    (g, k),
                    name,
                ),
        },
    decreases ws.index.files[g].symbols.len() - i,
{
    if i < ws.index.files[g].symbols.len() && !is_external(ws, (g, i), name) {
        lemma_external(ws, g, name, i + 1);
    }
}

proof fn lemma_global(ws: Workspace, name: Text, g: int)
    requires
        0 <= g,
    ensures
        match sv::global_from(ws.index.files, name, g) {
            Some(r) => g <= r.0 && is_external(ws, r, name),
            None => forall|h: int, k: int|
                g <= h < ws.index.files.len() && 0 <= k < ws.index.files[h].symbols.len()
                    ==> !#[trigger] is_external(ws, (h, k), name),
        },
    decreases ws.index.files.len() - g,
{
    if g < ws.index.files.len() {
        lemma_external(ws, g, name, 0);
        lemma_global(ws, name, g + 1);
        if sv::global_from(ws.index.files, name, g) is None {
            assert forall|h: int, k: int|
                g <= h < ws.index.files.len() && 0 <= k
                    < ws.index.files[h].symbols.len() implies !#[trigger] is_external(
                ws,
                (h, k),
                name,
            ) by {
                if h > g {
                    assert(g + 1 <= h);
                }
            }
        }
    }
}

// ---------------------------------------------------------------------------
// Modules
// ---------------------------------------------------------------------------

/// A name that a scope has nothing of its own under, and takes nothing in for,
/// stands for what the first `use` statement of the scope that brings it says.
pub proof fn law_used(
    ws: Workspace,
    f: int,
    scope: Scope,
    name: Text,
    k: int,
    remote: Text,
    r: Ref,
)
    requires
        sv::own_symbol(ws.index.files[f].symbols, scope, name) is None,
        sv::included_from(ws, f, scope, name, 0, ws.index.files.len()) is None,
        0 <= k < ws.index.files[f].uses.len(),
        forall|j: int|
            0 <= j < k ==> !st::same_scope((#[trigger] ws.index.files[f].uses[j]).scope, scope),
        st::same_scope(ws.index.files[f].uses[k].scope, scope),
        !ws.index.files[f].uses[k].intrinsic,
        sx::brings(ws.index.files[f].uses[k], name) == Some(remote),
        sv::exported(ws.index, ws.index.files[f].uses[k].module, remote) == Some(r),
    ensures
        sv::at_scope(ws, f, scope, name) == Some(r),
        sv::resolve(ws, f, scope, name) == Some(r),
{
    lemma_used(
        ws.index,
        ws.index.files[f].uses,
        scope,
        name,
        0,
        Seq::empty(),
        sv::module_fuel(ws.index),
        k,
    );
    assert(scope.take(scope.len() as int) =~= scope);
    law_innermost(ws, f, scope, name, scope.len() as int);
}

proof fn lemma_used(
    index: Index,
    uses: Seq<UseStmt>,
    scope: Scope,
    name: Text,
    i: int,
    open: Seq<Text>,
    fuel: nat,
    k: int,
)
    requires
        0 <= i <= k < uses.len(),
        forall|j: int| i <= j < k ==> !st::same_scope((#[trigger] uses[j]).scope, scope),
        st::same_scope(uses[k].scope, scope),
        !uses[k].intrinsic,
        sx::brings(uses[k], name) matches Some(remote) && sv::export_ref(
            index,
            uses[k].module,
            remote,
            open,
            fuel,
        ) is Some,
    ensures
        sv::used_from(index, uses, scope, name, i, open, fuel) == sv::export_ref(
            index,
            uses[k].module,
            sx::brings(uses[k], name)->0,
            open,
            fuel,
        ),
    decreases k - i,
{
    if i < k {
        lemma_used(index, uses, scope, name, i + 1, open, fuel, k);
    }
}

/// What a module exports under a name is the first of its own symbols that it has
/// for others under that name.
pub proof fn law_exported(index: Index, module: Text, name: Text, f: int, k: int)
    requires
        sx::module_file(index.files, module) == Some(f),
        0 <= k < index.files[f].symbols.len(),
        sx::is_exported(index.files[f], index.files[f].symbols[k], module, name),
        forall|j: int|
            0 <= j < k ==> !sx::is_exported(
                index.files[f],
                #[trigger] index.files[f].symbols[j],
                module,
                name,
            ),
    ensures
        sv::exported(index, module, name) == Some((f, k)),
{
    lemma_first_export(index.files[f], module, name, 0, k);
}

proof fn lemma_first_export(p: sm::ParsedFile, module: Text, name: Text, i: int, k: int)
    requires
        0 <= i <= k < p.symbols.len(),
        sx::is_exported(p, p.symbols[k], module, name),
        forall|j: int|
            i <= j < k ==> !sx::is_exported(p, #[trigger] p.symbols[j], module, name),
    ensures
        sv::exported_from(p, module, name, i) == Some(k),
    decreases k - i,
{
    if i < k {
        lemma_first_export(p, module, name, i + 1, k);
    }
}

// ---------------------------------------------------------------------------
// Types and their parts
// ---------------------------------------------------------------------------

/// The types that a type extends: each is the parent of the one before it, and the
/// type itself comes first.
pub proof fn law_chain(ws: Workspace, r: Ref)
    ensures
        sg::chain(ws, r).len() > 0,
        sg::chain(ws, r)[0] == r,
        forall|i: int|
            0 < i < sg::chain(ws, r).len() ==> sg::parent_of(ws, sg::chain(ws, r)[i - 1]) == Some(
                #[trigger] sg::chain(ws, r)[i],
            ),
        sg::chain(ws, r).len() <= 64 ==> sg::parent_of(ws, sg::chain(ws, r).last()) is None,
{
    lemma_chain(ws, r, 64, Seq::empty());
}

proof fn lemma_chain(ws: Workspace, r: Ref, fuel: nat, out: Seq<Ref>)
    requires
        forall|i: int|
            0 < i < out.len() ==> sg::parent_of(ws, out[i - 1]) == Some(#[trigger] out[i]),
        out.len() > 0 ==> sg::parent_of(ws, out.last()) == Some(r),
    ensures
        ({
            let all = sg::chain_from(ws, r, fuel, out);
            &&& out.len() < all.len() <= out.len() + fuel + 1
            &&& forall|i: int| 0 <= i < out.len() ==> #[trigger] all[i] == out[i]
            &&& all[out.len() as int] == r
            &&& forall|i: int|
                0 < i < all.len() ==> sg::parent_of(ws, all[i - 1]) == Some(#[trigger] all[i])
            &&& all.len() <= out.len() + fuel ==> sg::parent_of(ws, all.last()) is None
        }),
    decreases fuel,
{
    let next = out.push(r);
    assert forall|i: int| 0 < i < next.len() implies sg::parent_of(ws, next[i - 1]) == Some(
        #[trigger] next[i],
    ) by {
        if i < out.len() {
            assert(out[i] == next[i]);
        }
    }
    if fuel > 0 {
        if let Some(q) = sg::parent_of(ws, r) {
            lemma_chain(ws, q, (fuel - 1) as nat, next);
            let all = sg::chain_from(ws, r, fuel, out);
            assert(all[out.len() as int] == next[out.len() as int]);
            assert forall|i: int| 0 <= i < out.len() implies #[trigger] all[i] == out[i] by {
                assert(all[i] == next[i]);
            }
        }
    }
}

/// Whether a type itself has something under a name.
pub open spec fn has_part(ws: Workspace, t: Ref, name: Text) -> bool {
    exists|k: int|
        0 <= k < ws.index.files[t.0].symbols.len() && is_in(
            #[trigger] ws.index.files[t.0].symbols[k],
            sg::symbol(ws, t).scope.push(sg::symbol(ws, t).name),
            name,
        )
}

/// A component or a binding is that of the first of the types, the type itself
/// before those that it extends, that has one under the name.
pub proof fn law_part(ws: Workspace, types: Seq<Ref>, name: Text, k: int)
    requires
        0 <= k < types.len(),
        has_part(ws, types[k], name),
        forall|j: int| 0 <= j < k ==> !has_part(ws, #[trigger] types[j], name),
    ensures
        sqy::part_from(ws, types, name, 0) matches Some(r) && r.0 == types[k].0 && is_in(
            sg::symbol(ws, r),
            sg::symbol(ws, types[k]).scope.push(sg::symbol(ws, types[k]).name),
            name,
        ),
{
    lemma_part(ws, types, name, 0, k);
}

proof fn lemma_part(ws: Workspace, types: Seq<Ref>, name: Text, i: int, k: int)
    requires
        0 <= i <= k < types.len(),
        has_part(ws, types[k], name),
        forall|j: int| i <= j < k ==> !has_part(ws, #[trigger] types[j], name),
    ensures
        sqy::part_from(ws, types, name, i) matches Some(r) && r.0 == types[k].0 && is_in(
            sg::symbol(ws, r),
            sg::symbol(ws, types[k]).scope.push(sg::symbol(ws, types[k]).name),
            name,
        ),
    decreases k - i,
{
    let t = types[i];
    let scope = sg::symbol(ws, t).scope.push(sg::symbol(ws, t).name);
    lemma_symbol(ws.index.files[t.0].symbols, scope, name, 0);
    if i < k {
        if let Some(m) = sg::local(ws, t, name) {
            assert(is_in(ws.index.files[t.0].symbols[m], scope, name));
            assert(has_part(ws, t, name));
        }
        lemma_part(ws, types, name, i + 1, k);
    } else {
        let m = choose|m: int|
            0 <= m < ws.index.files[t.0].symbols.len() && is_in(
                #[trigger] ws.index.files[t.0].symbols[m],
                scope,
                name,
            );
        assert(is_in(ws.index.files[t.0].symbols[m], scope, name));
    }
}

// ---------------------------------------------------------------------------
// Positions
// ---------------------------------------------------------------------------

/// Where a plain name is defined is where the name of the symbol stands that it
/// stands for in the scope around the position, unless that symbol stands for a
/// procedure elsewhere.
pub proof fn law_definition(
    ws: Workspace,
    path: Text,
    pos: Position,
    source: Text,
    f: int,
    name: Text,
    r: Ref,
)
    requires
        sw::find_file(ws, path) == Some(f),
        su::word_at_source(source, pos) == Some(name),
        su::member_access_at_source(source, pos) is None,
        sv::resolve(ws, f, sco::scope_at(ws.index.files[f].symbols, pos), name) == Some(r),
        !(sg::symbol(ws, r).kind is Method),
        !sg::symbol(ws, r).is_module_procedure,
        !st::starts_with(sg::symbol(ws, r).signature, "module procedure "@),
    ensures
        sqy::definition_location(ws, path, pos, source) == Some(
            Location {
                file: sg::symbol(ws, r).file,
                range: sg::symbol(ws, r).selection_range,
            },
        ),
{
}

/// Behind a receiver a name stands for the part of the receiver's type that has
/// it.
pub proof fn law_member_definition(
    ws: Workspace,
    path: Text,
    pos: Position,
    source: Text,
    f: int,
    access: su::MemberAccess,
    t: Ref,
    r: Ref,
)
    requires
        sw::find_file(ws, path) == Some(f),
        su::word_at_source(source, pos) is Some,
        su::member_access_at_source(source, pos) == Some(access),
        sco::type_of(ws, f, sco::scope_at(ws.index.files[f].symbols, pos), access.receiver) == Some(
            t,
        ),
        sqy::part_from(ws, sg::chain(ws, t), access.member, 0) == Some(r),
        sg::symbol(ws, r).kind is Variable,
        !sg::symbol(ws, r).is_module_procedure,
        !st::starts_with(sg::symbol(ws, r).signature, "module procedure "@),
    ensures
        sqy::definition_location(ws, path, pos, source) == Some(
            Location {
                file: sg::symbol(ws, r).file,
                range: sg::symbol(ws, r).selection_range,
            },
        ),
{
}

/// A binding that is not deferred is defined where the procedure is that it names:
/// the one behind its arrow, or one of its own name.
pub proof fn law_binding_definition(ws: Workspace, r: Ref, q: Ref)
    requires
        sg::symbol(ws, r).kind is Method,
        !sg::symbol(ws, r).is_deferred,
        sg::symbol(ws, r).scope.len() > 0,
        ({
            let name = match sg::symbol(ws, r).binding_target {
                Some(target) => target,
                None => sg::symbol(ws, r).name,
            };
            sg::resolve_procedure(ws, r.0, sg::symbol(ws, r).scope.drop_last(), name) == Some(q)
        }),
    ensures
        sqy::linked(ws, r) == q,
        sqy::implementation_of(ws, r) == Some(q),
{
}

/// Whether a symbol of a file is a procedure of a submodule of a module.
pub open spec fn is_implementation(
    ws: Workspace,
    r: Ref,
    module: Text,
    name: Text,
) -> bool {
    let s = sg::symbol(ws, r);
    &&& 0 <= r.0 < ws.index.files.len()
    &&& 0 <= r.1 < ws.index.files[r.0].symbols.len()
    &&& s.kind is Subroutine || s.kind is Function
    &&& st::lower(s.name) == st::lower(name)
    &&& s.scope.len() == 1
    &&& sv::ancestor_of(ws.index.files[r.0], s.scope) matches Some(a) && st::lower(a) == st::lower(
        module,
    )
}

proof fn lemma_implementing(ws: Workspace, g: int, module: Text, name: Text, i: int)
    requires
        0 <= g < ws.index.files.len(),
        0 <= i,
    ensures
        match sqy::implementing_from(ws.index.files[g], module, name, i) {
            Some(k) => i <= k && is_implementation(ws, (g, k), module, name),
            None => forall|k: int|
                i <= k < ws.index.files[g].symbols.len() ==> !#[trigger] is_implementation(
                    ws,
                    (g, k),
                    module,
                    name,
                ),
        },
    decreases ws.index.files[g].symbols.len() - i,
{
    if i < ws.index.files[g].symbols.len() && !is_implementation(ws, (g, i), module, name) {
        lemma_implementing(ws, g, module, name, i + 1);
    }
}

proof fn lemma_implementation(ws: Workspace, module: Text, name: Text, g: int)
    requires
        0 <= g,
    ensures
        match sqy::implementation_from(ws.index.files, module, name, g) {
            Some(r) => g <= r.0 && is_implementation(ws, r, module, name),
            None => forall|h: int, k: int|
                g <= h < ws.index.files.len() && 0 <= k < ws.index.files[h].symbols.len()
                    ==> !#[trigger] is_implementation(ws, (h, k), module, name),
        },
    decreases ws.index.files.len() - g,
{
    if g < ws.index.files.len() {
        lemma_implementing(ws, g, module, name, 0);
        lemma_implementation(ws, module, name, g + 1);
        if sqy::implementation_from(ws.index.files, module, name, g) is None {
            assert forall|h: int, k: int|
                g <= h < ws.index.files.len() && 0 <= k
                    < ws.index.files[h].symbols.len() implies !#[trigger] is_implementation(
                ws,
                (h, k),
                module,
                name,
            ) by {
                if h > g {
                    assert(g + 1 <= h);
                }
            }
        }
    }
}

/// A procedure that a module declares is implemented by a procedure of one of its
/// submodules, where there is one.
pub proof fn law_implementation(ws: Workspace, r: Ref)
    requires
        !(sg::symbol(ws, r).kind is Method),
        sg::symbol(ws, r).scope.len() > 0,
    ensures
        ({
            let module = sg::symbol(ws, r).scope[0];
            let name = sg::symbol(ws, r).name;
            match sqy::implementation_of(ws, r) {
                Some(q) => is_implementation(ws, q, module, name),
                None => forall|g: int, k: int|
                    0 <= g < ws.index.files.len() && 0 <= k < ws.index.files[g].symbols.len()
                        ==> !#[trigger] is_implementation(ws, (g, k), module, name),
            }
        }),
{
    lemma_implementation(ws, sg::symbol(ws, r).scope[0], sg::symbol(ws, r).name, 0);
}

} // verus!
