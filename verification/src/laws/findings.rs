//! What is found about types, bindings and names that hide others.

use vstd::prelude::*;

use crate::laws::nesting::law_paren_content;
use crate::laws::places::is_in;
use crate::laws::remarks::{lemma_shows, shows};
use crate::laws::text::{
    all_space, ends_name, is_name, is_name_character, law_first_name, law_keyword, law_trim,
};
use crate::laws::units::lemma_lower_name;
use crate::model::SymbolKind;
use crate::spec::bindings as sg;
use crate::spec::masking as sk;
use crate::spec::model::{Diagnostic, GenericBinding, ImportStmt, ParsedFile, Scope, Symbol};
use crate::spec::names as sn;
use crate::spec::resolve as sv;
use crate::spec::resolve::Ref;
use crate::spec::text as st;
use crate::spec::text::Text;
use crate::spec::workspace::Workspace;

verus! {

proof fn lemma_push(out: Seq<Diagnostic>, x: Diagnostic, y: Diagnostic)
    ensures
        out.push(x).contains(y) <==> out.contains(y) || x == y,
{
    if out.contains(y) {
        let k = choose|k: int| 0 <= k < out.len() && out[k] == y;
        assert(out.push(x)[k] == y);
    }
    if x == y {
        assert(out.push(x)[out.len() as int] == y);
    }
    if out.push(x).contains(y) && x != y {
        let k = choose|k: int| 0 <= k < out.push(x).len() && out.push(x)[k] == y;
        assert(out[k] == y);
    }
}

// ---------------------------------------------------------------------------
// Types of declarations
// ---------------------------------------------------------------------------

/// The derived type of a declaration is the name in the parentheses behind `type`
/// or `class`.
pub proof fn law_derived_type(word: Text, space: Text, gap: Text, name: Text, rest: Text)
    requires
        st::lower(word) == "type"@ || st::lower(word) == "class"@,
        all_space(space),
        all_space(gap),
        is_name(name),
        ends_name(rest),
        !rest.contains(')'),
    ensures
        sn::derived_type(word + space + seq!['('] + (gap + name + rest) + seq![')']) == Some(name),
{
    reveal_strlit("type");
    reveal_strlit("class");
    let none = Seq::<char>::empty();
    if st::lower(word) == "type"@ {
        lemma_lower_name(word, "type"@);
    } else {
        lemma_lower_name(word, "class"@);
    }
    let inner = gap + name + rest;
    let lead = word + space;
    let s = lead + seq!['('] + inner + seq![')'];
    let tail = space + seq!['('] + inner + seq![')'];
    assert(tail[0] == if space.len() > 0 {
        space[0]
    } else {
        '('
    });
    law_first_name(none, word, tail);
    assert(none + word + tail =~= s);
    assert(!lead.contains('(')) by {
        assert forall|i: int| 0 <= i < lead.len() implies lead[i] != '(' by {
            if i < word.len() {
                assert(is_name_character(word[i]));
            } else {
                assert(lead[i] == space[i - word.len()]);
            }
        }
    }
    assert(!inner.contains(')')) by {
        assert forall|i: int| 0 <= i < inner.len() implies inner[i] != ')' by {
            if i < gap.len() {
                assert(inner[i] == gap[i]);
            } else if i < gap.len() + name.len() {
                assert(inner[i] == name[i - gap.len()]);
                assert(is_name_character(inner[i]));
            } else {
                assert(inner[i] == rest[i - gap.len() - name.len()]);
                assert(rest.contains(inner[i]));
            }
        }
    }
    law_paren_content(lead, inner, none);
    assert(s + none =~= s);
    assert forall|i: int| 0 <= i < gap.len() implies !(is_name_character(#[trigger] gap[i])
        && !('0' <= gap[i] <= '9')) by {}
    law_first_name(gap, name, rest);
}

/// A declaration without an interface around it whose type is not known is
/// remarked on where the variable stands, and its type is named; one whose type is
/// known is not.
pub proof fn law_unknown_type(ws: Workspace, f: int, i: int, spec: Text, name: Text)
    requires
        0 <= i < ws.index.files[f].symbols.len(),
        ws.index.files[f].symbols[i].kind is Variable,
        ws.index.files[f].symbols[i].type_spec == Some(spec),
        sn::declared_type(spec) == Some(name),
        !sn::lacks_import(ws, f, ws.index.files[f].symbols[i], name),
    ensures
        ({
            let s = ws.index.files[f].symbols[i];
            match sn::type_diagnostic(ws, f, i) {
                Some(d) => sv::known(ws, f, s.scope, name, false) is No && d.range
                    == s.selection_range,
                None => !(sv::known(ws, f, s.scope, name, false) is No),
            }
        }),
{
}

/// The names of intrinsic types need no declaration.
pub proof fn law_intrinsic_types(name: Text)
    ensures
        st::lower(name) == "integer"@ || st::lower(name) == "real"@ || st::lower(name)
            == "complex"@ || st::lower(name) == "logical"@ || st::lower(name) == "character"@
            || st::lower(name) == "double"@ ==> sn::is_intrinsic_type(name),
{
    reveal_strlit("integer");
    reveal_strlit("real");
    reveal_strlit("complex");
    reveal_strlit("logical");
    reveal_strlit("character");
    reveal_strlit("double");
    assert(st::lower("integer"@) =~= "integer"@);
    assert(st::lower("real"@) =~= "real"@);
    assert(st::lower("complex"@) =~= "complex"@);
    assert(st::lower("logical"@) =~= "logical"@);
    assert(st::lower("character"@) =~= "character"@);
    assert(st::lower("double"@) =~= "double"@);
}

/// A kind is named behind `kind =`.
pub proof fn law_named_kind(word: Text, gap: Text, gap2: Text, name: Text)
    requires
        st::lower(word) == "kind"@,
        all_space(gap),
        all_space(gap2),
        is_name(name),
    ensures
        sn::named_kind(word + (gap + seq!['='] + gap2 + name)) == Some(name),
{
    reveal_strlit("kind");
    lemma_lower_name(word, "kind"@);
    assert(is_name_character(word[0]));
    assert(is_name_character(name[0]));
    assert(is_name_character(name.last()));
    let none = Seq::<char>::empty();
    let core = seq!['='] + gap2 + name;
    let tail = gap + seq!['='] + gap2 + name;
    assert(tail =~= gap + core + none);
    assert(tail[0] == if gap.len() > 0 {
        gap[0]
    } else {
        '='
    });
    law_keyword(none, word, "kind"@, tail);
    assert(none + word + tail =~= word + tail);
    assert(core[0] == '=');
    assert(core.last() == name.last());
    law_trim(gap, core, none);
    assert(core.skip(1) =~= gap2 + name + none);
    law_trim(gap2, name, none);
}

// ---------------------------------------------------------------------------
// Imports
// ---------------------------------------------------------------------------

proof fn lemma_imports(
    ws: Workspace,
    f: int,
    m: ImportStmt,
    host: Scope,
    j: int,
    out: Seq<Diagnostic>,
    d: Diagnostic,
)
    requires
        0 <= j,
    ensures
        sn::import_from(ws, f, m, host, j, out).contains(d) <==> out.contains(d) || exists|k: int|
            j <= k < m.names.len() && sv::known(ws, f, host, #[trigger] m.names[k], false) is No
                && d == sn::unknown_import(m, m.names[k]),
    decreases m.names.len() - j,
{
    if j < m.names.len() {
        let bad = sv::known(ws, f, host, m.names[j], false) is No;
        let one = sn::unknown_import(m, m.names[j]);
        let next = if bad {
            out.push(one)
        } else {
            out
        };
        lemma_imports(ws, f, m, host, j + 1, next, d);
        lemma_push(out, one, d);
    }
}

/// An `import` statement is remarked on for exactly those of its names that the
/// scope around does not know.
pub proof fn law_imports(ws: Workspace, f: int, m: ImportStmt, host: Scope, d: Diagnostic)
    ensures
        sn::import_from(ws, f, m, host, 0, Seq::empty()).contains(d) <==> exists|k: int|
            0 <= k < m.names.len() && sv::known(ws, f, host, #[trigger] m.names[k], false) is No
                && d == sn::unknown_import(m, m.names[k]),
{
    lemma_imports(ws, f, m, host, 0, Seq::empty(), d);
    assert(!Seq::<Diagnostic>::empty().contains(d));
}

/// What is remarked on an import, a link, a binding or a target names what is
/// missing, as an error, at its place.
pub proof fn law_missing_messages(m: ImportStmt, s: Symbol, b: GenericBinding, name: Text)
    requires
        s.scope.len() > 0,
    ensures
        sn::unknown_import(m, name).range == m.range,
        sn::unknown_import(m, name).severity is Error,
        shows(sn::unknown_import(m, name).message, name),
        sn::unknown_link(s).range == s.selection_range,
        shows(sn::unknown_link(s).message, s.name),
        shows(sn::unknown_link(s).message, s.scope.last()),
        sg::unknown_binding(b, name).range == b.range,
        shows(sg::unknown_binding(b, name).message, name),
        shows(sg::unknown_binding(b, name).message, b.name),
        sg::unknown_target(s).range == s.selection_range,
        shows(sg::unknown_target(s).message, s.name),
        s.binding_target matches Some(t) ==> shows(sg::unknown_target(s).message, t),
{
    lemma_shows("host scope does not define imported name `"@, name, "`"@);
    let a = "generic interface `"@;
    let c = "` references unknown module procedure `"@;
    let m1 = sn::unknown_link(s).message;
    assert(m1 =~= a + s.scope.last() + (c + s.name + "`"@));
    lemma_shows(a, s.scope.last(), c + s.name + "`"@);
    lemma_shows(a + s.scope.last() + c, s.name, "`"@);
    let e = "generic binding `"@;
    let g = "` references unknown type-bound procedure `"@;
    let m2 = sg::unknown_binding(b, name).message;
    assert(m2 =~= e + b.name + (g + name + "`"@));
    lemma_shows(e, b.name, g + name + "`"@);
    lemma_shows(e + b.name + g, name, "`"@);
    let h = "type-bound procedure `"@;
    let i = "` has unresolved target `"@;
    let t = sg::target_name(s);
    let m3 = sg::unknown_target(s).message;
    assert(m3 =~= h + s.name + (i + t + "`"@));
    lemma_shows(h, s.name, i + t + "`"@);
    lemma_shows(h + s.name + i, t, "`"@);
}

// ---------------------------------------------------------------------------
// Bindings
// ---------------------------------------------------------------------------

/// The object of a binding is passed as the argument that `pass` names, as no
/// argument with `nopass`, and otherwise as the first one.
pub proof fn law_passed(m: Symbol, args: Seq<Text>)
    ensures
        (exists|i: int|
            0 <= i < m.attributes.len() && st::lower(#[trigger] m.attributes[i]) == "nopass"@)
            ==> sg::passed_index(m, args) is None,
        !(exists|i: int|
            0 <= i < m.attributes.len() && st::lower(#[trigger] m.attributes[i]) == "nopass"@)
            && m.pass_arg is None ==> sg::passed_index(m, args) == Some(0int),
        !(exists|i: int|
            0 <= i < m.attributes.len() && st::lower(#[trigger] m.attributes[i]) == "nopass"@) ==> (
        m.pass_arg matches Some(name) ==> match sg::passed_index(m, args) {
            Some(k) => 0 <= k < args.len() && st::lower(args[k]) == st::lower(name),
            None => forall|k: int|
                0 <= k < args.len() ==> st::lower(#[trigger] args[k]) != st::lower(name),
        }),
{
    reveal_strlit("nopass");
    assert(st::lower("nopass"@) =~= "nopass"@);
    if exists|i: int|
        0 <= i < m.attributes.len() && st::lower(#[trigger] m.attributes[i]) == "nopass"@ {
        let i = choose|i: int|
            0 <= i < m.attributes.len() && st::lower(#[trigger] m.attributes[i]) == "nopass"@;
        assert(st::same(m.attributes[i], "nopass"@));
    }
    if st::has_name(m.attributes, "nopass"@) {
        let i = choose|i: int|
            0 <= i < m.attributes.len() && st::same(#[trigger] m.attributes[i], "nopass"@);
        assert(st::lower(m.attributes[i]) == "nopass"@);
    }
    if let Some(name) = m.pass_arg {
        lemma_name_index(args, name, 0);
    }
}

proof fn lemma_name_index(names: Seq<Text>, name: Text, i: int)
    requires
        0 <= i,
    ensures
        match sg::name_index(names, name, i) {
            Some(k) => i <= k < names.len() && st::lower(names[k]) == st::lower(name),
            None => forall|k: int|
                i <= k < names.len() ==> st::lower(#[trigger] names[k]) != st::lower(name),
        },
    decreases names.len() - i,
{
    if i < names.len() && st::lower(names[i]) != st::lower(name) {
        lemma_name_index(names, name, i + 1);
    }
}

proof fn lemma_bindings(
    ws: Workspace,
    types: Seq<Ref>,
    b: GenericBinding,
    j: int,
    out: Seq<Diagnostic>,
    d: Diagnostic,
)
    requires
        0 <= j,
    ensures
        sg::binding_from(ws, types, b, j, out).contains(d) <==> out.contains(d) || exists|k: int|
            j <= k < b.procedures.len() && sg::find_method(
                ws,
                types,
                #[trigger] b.procedures[k],
                0,
            ) is None && d == sg::unknown_binding(b, b.procedures[k]),
    decreases b.procedures.len() - j,
{
    if j < b.procedures.len() {
        let bad = sg::find_method(ws, types, b.procedures[j], 0) is None;
        let one = sg::unknown_binding(b, b.procedures[j]);
        let next = if bad {
            out.push(one)
        } else {
            out
        };
        lemma_bindings(ws, types, b, j + 1, next, d);
        lemma_push(out, one, d);
    }
}

/// A generic binding is remarked on for exactly those of its procedures that
/// neither its type nor one that it extends binds.
pub proof fn law_generic_bindings(
    ws: Workspace,
    types: Seq<Ref>,
    b: GenericBinding,
    d: Diagnostic,
)
    ensures
        sg::binding_from(ws, types, b, 0, Seq::empty()).contains(d) <==> exists|k: int|
            0 <= k < b.procedures.len() && sg::find_method(
                ws,
                types,
                #[trigger] b.procedures[k],
                0,
            ) is None && d == sg::unknown_binding(b, b.procedures[k]),
{
    lemma_bindings(ws, types, b, 0, Seq::empty(), d);
    assert(!Seq::<Diagnostic>::empty().contains(d));
}

/// Whether a type itself binds a procedure under a name.
pub open spec fn binds_itself(ws: Workspace, t: Ref, name: Text) -> bool {
    exists|k: int|
        0 <= k < ws.index.files[t.0].symbols.len()
            && (#[trigger] ws.index.files[t.0].symbols[k]).kind
            is Method && is_in(
            ws.index.files[t.0].symbols[k],
            sg::symbol(ws, t).scope.push(sg::symbol(ws, t).name),
            name,
        )
}

proof fn lemma_own_method(ws: Workspace, t: Ref, name: Text, i: int)
    requires
        0 <= i,
    ensures
        ({
            let symbols = ws.index.files[t.0].symbols;
            let scope = sg::symbol(ws, t).scope.push(sg::symbol(ws, t).name);
            match sg::method_from(symbols, sg::symbol(ws, t), name, i) {
                Some(k) => i <= k < symbols.len() && symbols[k].kind is Method && is_in(
                    symbols[k],
                    scope,
                    name,
                ),
                None => forall|k: int|
                    i <= k < symbols.len() ==> !((#[trigger] symbols[k]).kind is Method && is_in(
                        symbols[k],
                        scope,
                        name,
                    )),
            }
        }),
    decreases ws.index.files[t.0].symbols.len() - i,
{
    let symbols = ws.index.files[t.0].symbols;
    let scope = sg::symbol(ws, t).scope.push(sg::symbol(ws, t).name);
    if i < symbols.len() && !(symbols[i].kind is Method && is_in(symbols[i], scope, name)) {
        lemma_own_method(ws, t, name, i + 1);
    }
}

/// A binding is found exactly where the type or one that it extends has it, and it
/// is that of the first of them.
pub proof fn law_find_method(ws: Workspace, types: Seq<Ref>, name: Text)
    ensures
        match sg::find_method(ws, types, name, 0) {
            Some(r) => exists|k: int|
                0 <= k < types.len() && binds_itself(ws, #[trigger] types[k], name) && r.0
                    == types[k].0 && sg::symbol(ws, r).kind is Method && forall|j: int|
                    0 <= j < k ==> !binds_itself(ws, #[trigger] types[j], name),
            None => forall|k: int|
                0 <= k < types.len() ==> !binds_itself(ws, #[trigger] types[k], name),
        },
{
    lemma_find_method(ws, types, name, 0);
}

proof fn lemma_find_method(ws: Workspace, types: Seq<Ref>, name: Text, i: int)
    requires
        0 <= i,
    ensures
        match sg::find_method(ws, types, name, i) {
            Some(r) => exists|k: int|
                i <= k < types.len() && binds_itself(ws, #[trigger] types[k], name) && r.0
                    == types[k].0 && sg::symbol(ws, r).kind is Method && forall|j: int|
                    i <= j < k ==> !binds_itself(ws, #[trigger] types[j], name),
            None => forall|k: int|
                i <= k < types.len() ==> !binds_itself(ws, #[trigger] types[k], name),
        },
    decreases types.len() - i,
{
    if i < types.len() {
        lemma_own_method(ws, types[i], name, 0);
        if let Some(r) = sg::own_method(ws, types[i], name) {
            assert(ws.index.files[types[i].0].symbols[r.1].kind is Method);
            assert(binds_itself(ws, types[i], name));
        } else {
            lemma_find_method(ws, types, name, i + 1);
            assert(!binds_itself(ws, types[i], name));
            if let Some(r) = sg::find_method(ws, types, name, i + 1) {
                let k = choose|k: int|
                    i + 1 <= k < types.len() && binds_itself(ws, #[trigger] types[k], name) && r.0
                        == types[k].0 && sg::symbol(ws, r).kind is Method && forall|j: int|
                        i + 1 <= j < k ==> !binds_itself(ws, #[trigger] types[j], name);
                assert(i <= k < types.len() && binds_itself(ws, types[k], name));
            }
        }
    }
}

// ---------------------------------------------------------------------------
// Names that hide others
// ---------------------------------------------------------------------------

/// Whether the first symbol that opens a scope is a procedure.
pub open spec fn in_procedure(symbols: Seq<Symbol>, scope: Scope) -> bool {
    sk::scope_owner_kind(symbols, scope) == Some(SymbolKind::Subroutine) || sk::scope_owner_kind(
        symbols,
        scope,
    ) == Some(SymbolKind::Function)
}

proof fn lemma_masks(
    p: ParsedFile,
    lines: Seq<Text>,
    i: int,
    out: Seq<Diagnostic>,
    d: Diagnostic,
)
    requires
        0 <= i,
    ensures
        sk::variable_masks_from(p, lines, i, out).contains(d) <==> out.contains(d) || exists|k: int|
            i <= k < p.symbols.len() && #[trigger] sk::is_masking_variable(p, lines, k) && d
                == sk::masking_diagnostic(p.symbols[k], p.symbols[k].name),
    decreases p.symbols.len() - i,
{
    if i < p.symbols.len() {
        let hit = sk::is_masking_variable(p, lines, i);
        let one = sk::masking_diagnostic(p.symbols[i], p.symbols[i].name);
        let next = if hit {
            out.push(one)
        } else {
            out
        };
        lemma_masks(p, lines, i + 1, next, d);
        lemma_push(out, one, d);
        if exists|k: int|
            i <= k < p.symbols.len() && #[trigger] sk::is_masking_variable(p, lines, k) && d
                == sk::masking_diagnostic(p.symbols[k], p.symbols[k].name) {
            let k = choose|k: int|
                i <= k < p.symbols.len() && #[trigger] sk::is_masking_variable(p, lines, k) && d
                    == sk::masking_diagnostic(p.symbols[k], p.symbols[k].name);
            if k > i {
                assert(i + 1 <= k && sk::is_masking_variable(p, lines, k));
            }
        }
    }
}

/// A variable of a procedure that has the name, case aside, of a variable of a
/// scope around it that belongs to no type is remarked on as a warning.
pub proof fn law_masked_variable(p: ParsedFile, lines: Seq<Text>, i: int, j: int, n: int)
    requires
        0 <= i < p.symbols.len(),
        0 <= j < p.symbols.len(),
        i != j,
        p.symbols[i].kind is Variable,
        p.symbols[j].kind is Variable,
        in_procedure(p.symbols, p.symbols[i].scope),
        0 <= n < p.symbols[i].scope.len(),
        is_in(p.symbols[j], p.symbols[i].scope.take(n), p.symbols[i].name),
        !sk::symbol_parent_is_type(p.symbols, p.symbols[j]),
        !sk::is_function_result(p.symbols, p.symbols[i]),
    ensures
        sk::variable_masks_from(p, lines, 0, Seq::empty()).contains(
            sk::masking_diagnostic(p.symbols[i], p.symbols[i].name),
        ),
        sk::masking_diagnostic(p.symbols[i], p.symbols[i].name).range == p.symbols[i].range,
        sk::masking_diagnostic(p.symbols[i], p.symbols[i].name).severity is Warning,
        shows(
            sk::masking_diagnostic(p.symbols[i], p.symbols[i].name).message,
            p.symbols[i].name,
        ),
{
    let s = p.symbols[i];
    let d = sk::masking_diagnostic(s, s.name);
    assert(st::same(p.symbols[j].name, s.name));
    assert(sk::shares_name(p.symbols, i));
    assert(sk::is_hidden_variable(p.symbols, s, s.scope.take(n), p.symbols[j]));
    assert(sk::hides_variable_of(p.symbols, s, s.scope.take(n)));
    assert(sk::hides_variable(p.symbols, s));
    assert(sk::is_masking_variable(p, lines, i));
    lemma_masks(p, lines, 0, Seq::empty(), d);
    lemma_shows("Variable \""@, s.name, "\" masks variable in parent scope"@);
}

/// A variable whose name nothing else in the file has, and that no `use` statement
/// lists, hides nothing.
pub proof fn law_unmasked(p: ParsedFile, lines: Seq<Text>, i: int)
    requires
        0 <= i < p.symbols.len(),
        forall|k: int|
            0 <= k < p.symbols.len() && k != i ==> st::lower((#[trigger] p.symbols[k]).name)
                != st::lower(p.symbols[i].name),
        forall|k: int|
            0 <= k < p.uses.len() ==> !st::has_name(
                (#[trigger] p.uses[k]).only,
                p.symbols[i].name,
            ),
    ensures
        !sk::is_masking_variable(p, lines, i),
{
}

/// A function whose result has the name of one of its arguments is remarked on as
/// an error, and no other.
pub proof fn law_twice(s: Symbol)
    ensures
        match sn::twice_diagnostic(s) {
            Some(d) => s.kind is Function && s.result is Some && st::has_name(s.args, s.result->0)
                && d.range == s.selection_range && d.severity is Error && shows(
                d.message,
                s.result->0,
            ),
            None => !(s.kind is Function && s.result is Some && st::has_name(
                s.args,
                s.result->0,
            )),
        },
{
    if let Some(name) = s.result {
        lemma_shows("Variable \""@, name, "\" declared twice in scope"@);
    }
}

} // verus!
