//! What an editor asks about a position: where a name is defined and used, what
//! is shown for it, and what it can be called.

use vstd::prelude::*;

use crate::model::{Position, Range, SymbolKind};
use crate::spec::bindings as sg;
use crate::spec::completion as sco;
use crate::spec::cursor as su;
use crate::spec::intrinsics as si;
use crate::spec::lsp::SignatureHelp;
use crate::spec::model as sm;
use crate::spec::model::{
    GenericBinding, Location, ParsedFile, PreprocessorDirective, RenameError, Scope, Symbol,
    TextEdit, UseStmt,
};
use crate::spec::modules as sx;
use crate::spec::path as sh;
use crate::spec::resolve as sv;
use crate::spec::resolve::Ref;
use crate::spec::scan as ss;
use crate::spec::table as sb;
use crate::spec::text as st;
use crate::spec::text::Text;
use crate::spec::workspace as sw;
use crate::spec::workspace::Workspace;

verus! {

// ---------------------------------------------------------------------------
// What a name stands for
// ---------------------------------------------------------------------------

/// The part that a type itself has under a name.
pub open spec fn own_part(ws: Workspace, t: Ref, name: Text) -> Option<Ref> {
    match sg::local(ws, t, name) {
        Some(k) => Some((t.0, k)),
        None => None,
    }
}

/// The part that the types from `i` on have under a name, the first of them
/// first.
pub open spec fn part_from(ws: Workspace, types: Seq<Ref>, name: Text, i: int) -> Option<Ref>
    decreases types.len() - i,
{
    if i >= types.len() {
        None
    } else {
        match own_part(ws, types[i], name) {
            Some(r) => Some(r),
            None => part_from(ws, types, name, i + 1),
        }
    }
}

/// The component or the binding behind `receiver %`.
pub open spec fn part_of(
    ws: Workspace,
    f: int,
    scope: Scope,
    receiver: Text,
    name: Text,
) -> Option<Ref> {
    match sco::type_of(ws, f, scope, receiver) {
        Some(t) => part_from(ws, sg::chain(ws, t), name, 0),
        None => None,
    }
}

/// The symbol that the name at a position of a file stands for.
pub open spec fn target(ws: Workspace, f: int, source: Text, pos: Position) -> Option<Ref> {
    let scope = sco::scope_at(ws.index.files[f].symbols, pos);
    match su::word_at_source(source, pos) {
        Some(name) => match su::member_access_at_source(source, pos) {
            Some(access) => match part_of(ws, f, scope, access.receiver, access.member) {
                Some(r) => Some(r),
                None => sv::resolve(ws, f, scope, name),
            },
            None => sv::resolve(ws, f, scope, name),
        },
        None => None,
    }
}

/// The procedure that the ancestor of a submodule declares for one of its
/// procedures.
pub open spec fn prototype_of(ws: Workspace, r: Ref) -> Option<Ref> {
    let s = sg::symbol(ws, r);
    match sv::ancestor_of(ws.index.files[r.0], s.scope) {
        Some(module) => match sx::module_file(ws.index.files, module) {
            Some(g) => match sv::prototype_from(
                ws.index.files[g].symbols,
                seq![module],
                s.name,
                0,
            ) {
                Some(k) => Some((g, k)),
                None => None,
            },
            None => None,
        },
        None => None,
    }
}

/// The binding of a name by a type that extends another one.
pub open spec fn override_by(ws: Workspace, t: Ref, name: Text, r: Ref) -> Option<Ref> {
    if sg::symbol(ws, r).kind is Type && sg::chain(ws, r).contains(t) {
        match sg::own_method(ws, r, name) {
            Some(m) => if sg::symbol(ws, m).is_deferred {
                None
            } else {
                Some(m)
            },
            None => None,
        }
    } else {
        None
    }
}

/// The bindings of a name by the types among the symbols of the file `g` from
/// `k` on that extend another one, behind `out`.
pub open spec fn overrides_in(
    ws: Workspace,
    t: Ref,
    name: Text,
    g: int,
    k: int,
    out: Seq<Ref>,
) -> Seq<Ref>
    decreases ws.index.files[g].symbols.len() - k,
{
    if k >= ws.index.files[g].symbols.len() {
        out
    } else {
        overrides_in(
            ws,
            t,
            name,
            g,
            k + 1,
            match override_by(ws, t, name, (g, k)) {
                Some(m) => out.push(m),
                None => out,
            },
        )
    }
}

/// The bindings of a name by the types of the files from `g` on that extend
/// another one, behind `out`.
pub open spec fn overrides_from(
    ws: Workspace,
    t: Ref,
    name: Text,
    g: int,
    out: Seq<Ref>,
) -> Seq<Ref>
    decreases ws.index.files.len() - g,
{
    if g >= ws.index.files.len() {
        out
    } else {
        overrides_from(ws, t, name, g + 1, overrides_in(ws, t, name, g, 0, out))
    }
}

/// The only binding that there is for a deferred one.
pub open spec fn only_override(ws: Workspace, r: Ref) -> Option<Ref> {
    let m = sg::symbol(ws, r);
    match sg::type_from(
        ws.index.files[r.0].symbols,
        m.scope.drop_last(),
        m.scope.last(),
        0,
    ) {
        Some(t) => {
            let list = overrides_from(ws, (r.0, t), m.name, 0, Seq::empty());
            if list.len() == 1 {
                Some(list[0])
            } else {
                None
            }
        },
        None => None,
    }
}

/// The procedure that a binding stands for.
pub open spec fn bound_procedure(ws: Workspace, r: Ref) -> Option<Ref> {
    let m = sg::symbol(ws, r);
    if m.scope.len() == 0 {
        None
    } else {
        sg::resolve_procedure(ws, r.0, m.scope.drop_last(), sg::target_name(m))
    }
}

/// The procedure that a binding, a link of an interface or a procedure of a
/// submodule stands for. A deferred binding stands for the only one that a type
/// puts in its place.
pub open spec fn procedure_of(ws: Workspace, r: Ref) -> Option<Ref> {
    let s = sg::symbol(ws, r);
    if s.scope.len() == 0 {
        None
    } else if s.kind is Method {
        if s.is_deferred {
            match only_override(ws, r) {
                Some(m) => bound_procedure(ws, m),
                None => None,
            }
        } else {
            bound_procedure(ws, r)
        }
    } else if s.is_module_procedure {
        prototype_of(ws, r)
    } else if sv::is_link(s) {
        sg::resolve_procedure(ws, r.0, s.scope.drop_last(), s.name)
    } else {
        None
    }
}

/// The symbol where a symbol is defined.
pub open spec fn linked(ws: Workspace, r: Ref) -> Ref {
    match procedure_of(ws, r) {
        Some(q) => q,
        None => r,
    }
}

/// Where the name at a position is defined.
pub open spec fn definition(ws: Workspace, path: Text, pos: Position, source: Text) -> Option<
    Ref,
> {
    match sw::find_file(ws, path) {
        Some(f) => match target(ws, f, source, pos) {
            Some(r) => Some(linked(ws, r)),
            None => None,
        },
        None => None,
    }
}

pub open spec fn location(s: Symbol) -> Location {
    Location { file: s.file, range: s.selection_range }
}

// ---------------------------------------------------------------------------
// Macros
// ---------------------------------------------------------------------------

/// The value of a macro that is defined at the end of a file.
pub open spec fn macro_value(p: ParsedFile, name: Text) -> Option<Text> {
    sb::find(p.preprocessor_definitions, name)
}

/// Whether one of the directives from `i` on defines a name on a line.
pub open spec fn defines_on(list: Seq<PreprocessorDirective>, name: Text, line: usize) -> bool {
    exists|i: int|
        0 <= i < list.len() && (#[trigger] list[i]).kind is Define && list[i].name == Some(name)
            && list[i].range.start.line == line
}

/// The first of the ranges from `i` on that lies on a line where a name is
/// defined.
pub open spec fn defining_from(p: ParsedFile, name: Text, list: Seq<Range>, i: int) -> Option<
    Range,
>
    decreases list.len() - i,
{
    if i >= list.len() {
        None
    } else if defines_on(p.preprocessor, name, list[i].start.line) {
        Some(list[i])
    } else {
        defining_from(p, name, list, i + 1)
    }
}

/// Where a macro is defined.
pub open spec fn macro_location(p: ParsedFile, name: Text) -> Option<Location> {
    match defining_from(p, name, su::identifier_occurrences(p.source, name), 0) {
        Some(range) => Some(Location { file: p.path, range }),
        None => None,
    }
}

/// The macro at a position, where the name there stands for no symbol.
pub open spec fn macro_at(ws: Workspace, f: int, source: Text, pos: Position) -> Option<Text> {
    match su::word_at_source(source, pos) {
        Some(name) => if macro_value(ws.index.files[f], name) is Some && target(
            ws,
            f,
            source,
            pos,
        ) is None {
            Some(name)
        } else {
            None
        },
        None => None,
    }
}

// ---------------------------------------------------------------------------
// Locations
// ---------------------------------------------------------------------------

/// Where the name at a position, or the macro there, is defined.
pub open spec fn definition_location(
    ws: Workspace,
    path: Text,
    pos: Position,
    source: Text,
) -> Option<Location> {
    match sw::find_file(ws, path) {
        Some(f) => match target(ws, f, source, pos) {
            Some(r) => Some(location(sg::symbol(ws, linked(ws, r)))),
            None => match macro_at(ws, f, source, pos) {
                Some(name) => macro_location(ws.index.files[f], name),
                None => None,
            },
        },
        None => None,
    }
}

/// Whether a symbol of a file is the procedure of a submodule that a module
/// declares under a name.
pub open spec fn implements(p: ParsedFile, s: Symbol, module: Text, name: Text) -> bool {
    sm::is_procedure_kind(s.kind) && st::same(s.name, name) && s.scope.len() == 1 && (sv::ancestor_of(
        p,
        s.scope,
    ) matches Some(a) && st::same(a, module))
}

/// The first symbol from `k` on that is the procedure of a submodule.
pub open spec fn implementing_from(p: ParsedFile, module: Text, name: Text, k: int) -> Option<int>
    decreases p.symbols.len() - k,
{
    if k >= p.symbols.len() {
        None
    } else if implements(p, p.symbols[k], module, name) {
        Some(k)
    } else {
        implementing_from(p, module, name, k + 1)
    }
}

/// The procedure of a submodule in the files from `g` on.
pub open spec fn implementation_from(
    files: Seq<ParsedFile>,
    module: Text,
    name: Text,
    g: int,
) -> Option<Ref>
    decreases files.len() - g,
{
    if g >= files.len() {
        None
    } else {
        match implementing_from(files[g], module, name, 0) {
            Some(k) => Some((g, k)),
            None => implementation_from(files, module, name, g + 1),
        }
    }
}

/// Where a symbol is implemented: the target of a binding, or else the
/// procedure of a submodule that a module declares.
pub open spec fn implementation_of(ws: Workspace, r: Ref) -> Option<Ref> {
    let s = sg::symbol(ws, r);
    if s.kind is Method {
        procedure_of(ws, r)
    } else if s.scope.len() == 0 {
        None
    } else {
        implementation_from(ws.index.files, s.scope[0], s.name, 0)
    }
}

/// Where the name at a position is implemented.
pub open spec fn implementation_location(
    ws: Workspace,
    path: Text,
    pos: Position,
    source: Text,
) -> Option<Location> {
    match sw::find_file(ws, path) {
        Some(f) => match target(ws, f, source, pos) {
            Some(r) => match implementation_of(ws, r) {
                Some(q) => Some(location(sg::symbol(ws, q))),
                None => None,
            },
            None => None,
        },
        None => None,
    }
}

// ---------------------------------------------------------------------------
// References
// ---------------------------------------------------------------------------

/// The places from `i` on of the file `g` where a name stands for a symbol,
/// behind `out`.
pub open spec fn places_from(
    ws: Workspace,
    r: Ref,
    g: int,
    list: Seq<Range>,
    i: int,
    out: Seq<Location>,
) -> Seq<Location>
    decreases list.len() - i,
{
    if i >= list.len() {
        out
    } else {
        let p = ws.index.files[g];
        places_from(
            ws,
            r,
            g,
            list,
            i + 1,
            if target(ws, g, p.source, list[i].start) == Some(r) {
                out.push(Location { file: p.path, range: list[i] })
            } else {
                out
            },
        )
    }
}

/// The places in the files from `g` on where a symbol is used, behind `out`.
pub open spec fn references_from(
    ws: Workspace,
    r: Ref,
    g: int,
    out: Seq<Location>,
) -> Seq<Location>
    decreases ws.index.files.len() - g,
{
    if g >= ws.index.files.len() {
        out
    } else {
        references_from(
            ws,
            r,
            g + 1,
            places_from(
                ws,
                r,
                g,
                su::identifier_occurrences(ws.index.files[g].source, sg::symbol(ws, r).name),
                0,
                out,
            ),
        )
    }
}

/// The places of a macro in its file.
pub open spec fn macro_places(p: ParsedFile, name: Text) -> Seq<Location> {
    let list = su::identifier_occurrences(p.source, name);
    Seq::new(list.len(), |i: int| Location { file: p.path, range: list[i] })
}

/// The places where what the name at a position stands for is used.
pub open spec fn references(ws: Workspace, path: Text, pos: Position, source: Text) -> Seq<
    Location,
> {
    match sw::find_file(ws, path) {
        Some(f) => match target(ws, f, source, pos) {
            Some(r) => references_from(ws, r, 0, Seq::empty()),
            None => match macro_at(ws, f, source, pos) {
                Some(name) => macro_places(ws.index.files[f], name),
                None => Seq::empty(),
            },
        },
        None => Seq::empty(),
    }
}

/// The places from `i` on that lie in a file, behind `out`.
pub open spec fn highlights_from(
    list: Seq<Location>,
    path: Text,
    i: int,
    out: Seq<Range>,
) -> Seq<Range>
    decreases list.len() - i,
{
    if i >= list.len() {
        out
    } else {
        highlights_from(
            list,
            path,
            i + 1,
            if sh::same_path(list[i].file, path) {
                out.push(list[i].range)
            } else {
                out
            },
        )
    }
}

/// The places in its own file of what the name at a position stands for.
pub open spec fn highlights(ws: Workspace, path: Text, pos: Position, source: Text) -> Seq<Range> {
    highlights_from(references(ws, path, pos, source), path, 0, Seq::empty())
}

// ---------------------------------------------------------------------------
// New names
// ---------------------------------------------------------------------------

/// The changes that give all places a new name.
pub open spec fn edits(places: Seq<Location>, new_name: Text) -> Seq<TextEdit> {
    Seq::new(
        places.len(),
        |i: int| TextEdit { file: places[i].file, range: places[i].range, new_text: new_name },
    )
}

pub open spec fn conflict(loc: Location) -> RenameError {
    RenameError::ConflictingSymbol { file: loc.file, range: loc.range }
}

/// The changes that give a symbol a new name. A symbol of the same scope must
/// not have that name.
pub open spec fn rename_symbol(ws: Workspace, r: Ref, new_name: Text) -> Result<
    Seq<TextEdit>,
    RenameError,
> {
    match sv::symbol_from(
        ws.index.files[r.0].symbols,
        sg::symbol(ws, r).scope,
        new_name,
        0,
    ) {
        Some(k) => if k == r.1 {
            Ok(edits(references_from(ws, r, 0, Seq::empty()), new_name))
        } else {
            Err(conflict(location(ws.index.files[r.0].symbols[k])))
        },
        None => Ok(edits(references_from(ws, r, 0, Seq::empty()), new_name)),
    }
}

/// The changes that give a macro a new name. No other macro must have that
/// name.
pub open spec fn rename_macro(p: ParsedFile, name: Text, new_name: Text) -> Result<
    Seq<TextEdit>,
    RenameError,
> {
    if name != new_name && macro_value(p, new_name) is Some {
        match macro_location(p, new_name) {
            Some(loc) => Err(conflict(loc)),
            None => Err(
                conflict(
                    Location {
                        file: p.path,
                        range: Range {
                            start: Position { line: 0, character: 0 },
                            end: Position { line: 0, character: 0 },
                        },
                    },
                ),
            ),
        }
    } else {
        Ok(edits(macro_places(p, name), new_name))
    }
}

/// The changes that give what the name at a position stands for a new name.
pub open spec fn rename(
    ws: Workspace,
    path: Text,
    pos: Position,
    source: Text,
    new_name: Text,
) -> Result<Seq<TextEdit>, RenameError> {
    if !st::is_fortran_name(new_name) {
        Err(RenameError::InvalidIdentifier)
    } else {
        match sw::find_file(ws, path) {
            Some(f) => match target(ws, f, source, pos) {
                Some(r) => rename_symbol(ws, r, new_name),
                None => match macro_at(ws, f, source, pos) {
                    Some(name) => rename_macro(ws.index.files[f], name, new_name),
                    None => Err(RenameError::UnresolvedSymbol),
                },
            },
            None => Err(RenameError::UnresolvedSymbol),
        }
    }
}

// ---------------------------------------------------------------------------
// What is called
// ---------------------------------------------------------------------------

/// The names without the one with the given index.
pub open spec fn without_index(names: Seq<Text>, passed: Option<int>) -> Seq<Text> {
    match passed {
        Some(k) => if 0 <= k < names.len() {
            names.remove(k)
        } else {
            names
        },
        None => names,
    }
}

/// What a call can go to: how it is shown, its arguments, those that cannot be
/// left out, and its text.
#[verifier::ext_equal]
pub struct Callee {
    pub label: Text,
    pub args: Seq<Text>,
    pub required: Seq<Text>,
    pub documentation: Option<Text>,
}

/// A name with its arguments in parentheses.
pub open spec fn call_label(name: Text, args: Seq<Text>) -> Text {
    name + "("@ + st::join(args, ", "@) + ")"@
}

/// The arguments from `i` on that a procedure declares and that are not
/// optional, behind `out`.
pub open spec fn required_from(
    ws: Workspace,
    r: Ref,
    args: Seq<Text>,
    i: int,
    out: Seq<Text>,
) -> Seq<Text>
    decreases args.len() - i,
{
    if i >= args.len() {
        out
    } else {
        required_from(
            ws,
            r,
            args,
            i + 1,
            match sg::local(ws, r, args[i]) {
                Some(k) => if st::has_name(
                    ws.index.files[r.0].symbols[k].attributes,
                    "optional"@,
                ) {
                    out
                } else {
                    out.push(args[i])
                },
                None => out,
            },
        )
    }
}

/// The callee that a procedure is.
pub open spec fn procedure_callee(ws: Workspace, r: Ref) -> Callee {
    let s = sg::symbol(ws, r);
    Callee {
        label: call_label(s.name, s.args),
        args: s.args,
        required: required_from(ws, r, s.args, 0, Seq::empty()),
        documentation: s.documentation,
    }
}

/// The callee that a binding is: its object is not among the arguments.
pub open spec fn method_callee(ws: Workspace, r: Ref) -> Option<Callee> {
    let m = sg::symbol(ws, r);
    match procedure_of(ws, r) {
        Some(q) => {
            let s = sg::symbol(ws, q);
            let args = without_index(s.args, sg::passed_index(m, s.args));
            Some(
                Callee {
                    label: call_label(m.name, args),
                    args,
                    required: required_from(ws, q, args, 0, Seq::empty()),
                    documentation: s.documentation,
                },
            )
        },
        None => None,
    }
}

/// The arguments from `i` on that stand there without a keyword, behind `out`.
pub open spec fn unkeyed_from(args: Seq<Text>, i: int, out: Seq<Text>) -> Seq<Text>
    decreases args.len() - i,
{
    if i >= args.len() {
        out
    } else {
        unkeyed_from(
            args,
            i + 1,
            if st::find_char(args[i], '=') is None {
                out.push(args[i])
            } else {
                out
            },
        )
    }
}

/// The callee that an intrinsic procedure is. Of a procedure that belongs to a
/// module it is not known which arguments can be left out.
pub open spec fn intrinsic_callee(x: si::IntrinsicSymbol) -> Callee {
    Callee {
        label: si::signature(x),
        args: x.args,
        required: if x.module is None {
            unkeyed_from(x.args, 0, Seq::empty())
        } else {
            Seq::empty()
        },
        documentation: if x.documentation.len() == 0 {
            None
        } else {
            Some(x.documentation)
        },
    }
}

/// The name of an argument: what stands before `=`.
pub open spec fn argument_name(arg: Text) -> Text {
    match st::split_once_char(arg, '=') {
        Some((name, value)) => st::trim(name),
        None => arg,
    }
}

/// The first argument from `i` on with a name.
pub open spec fn argument_index(args: Seq<Text>, name: Text, i: int) -> Option<int>
    decreases args.len() - i,
{
    if i >= args.len() {
        None
    } else if st::same(argument_name(args[i]), name) {
        Some(i)
    } else {
        argument_index(args, name, i + 1)
    }
}

/// Whether a callee takes so many arguments and has a keyword.
pub open spec fn takes(c: Callee, count: usize, keyword: Option<Text>) -> bool {
    c.args.len() >= count && (keyword matches Some(name) ==> argument_index(c.args, name, 0)
        is Some)
}

/// The first of the callees from `i` on that takes so many arguments and has a
/// keyword.
pub open spec fn fitting_from(
    list: Seq<Callee>,
    count: usize,
    keyword: Option<Text>,
    i: int,
) -> Option<Callee>
    decreases list.len() - i,
{
    if i >= list.len() {
        None
    } else if takes(list[i], count, keyword) {
        Some(list[i])
    } else {
        fitting_from(list, count, keyword, i + 1)
    }
}

/// The callees that the bindings from `j` on of the types are, behind `out`.
pub open spec fn bound_from(
    ws: Workspace,
    types: Seq<Ref>,
    names: Seq<Text>,
    j: int,
    out: Seq<Callee>,
) -> Seq<Callee>
    decreases names.len() - j,
{
    if j >= names.len() {
        out
    } else {
        bound_from(
            ws,
            types,
            names,
            j + 1,
            match sg::find_method(ws, types, names[j], 0) {
                Some(m) => match method_callee(ws, m) {
                    Some(c) => out.push(c),
                    None => out,
                },
                None => out,
            },
        )
    }
}

/// The first generic binding from `k` on with a name that belongs to a type.
pub open spec fn generic_from(
    list: Seq<GenericBinding>,
    t: Symbol,
    name: Text,
    k: int,
) -> Option<int>
    decreases list.len() - k,
{
    if k >= list.len() {
        None
    } else if st::same(list[k].name, name) && st::same_scope(
        list[k].scope,
        t.scope.push(t.name),
    ) {
        Some(k)
    } else {
        generic_from(list, t, name, k + 1)
    }
}

/// The procedures that the types from `i` on bind together under a name.
pub open spec fn generic_names(ws: Workspace, types: Seq<Ref>, name: Text, i: int) -> Seq<Text>
    decreases types.len() - i,
{
    if i >= types.len() {
        Seq::empty()
    } else {
        let list = ws.index.files[types[i].0].generic_bindings;
        match generic_from(list, sg::symbol(ws, types[i]), name, 0) {
            Some(k) => list[k].procedures,
            None => generic_names(ws, types, name, i + 1),
        }
    }
}

/// The callees behind `receiver % name`.
pub open spec fn member_callees(
    ws: Workspace,
    f: int,
    scope: Scope,
    receiver: Text,
    name: Text,
) -> Seq<Callee> {
    match sco::type_of(ws, f, scope, receiver) {
        Some(t) => {
            let types = sg::chain(ws, t);
            match sg::find_method(ws, types, name, 0) {
                Some(m) => match method_callee(ws, m) {
                    Some(c) => Seq::empty().push(c),
                    None => Seq::empty(),
                },
                None => bound_from(
                    ws,
                    types,
                    generic_names(ws, types, name, 0),
                    0,
                    Seq::empty(),
                ),
            }
        },
        None => Seq::empty(),
    }
}

/// The callee that a procedure of a generic interface is.
pub open spec fn specific_callee(ws: Workspace, r: Ref) -> Callee {
    let s = sg::symbol(ws, r);
    Callee {
        label: s.signature,
        args: s.args,
        required: required_from(ws, r, s.args, 0, Seq::empty()),
        documentation: s.documentation,
    }
}

/// The callees that an interface takes from its module among the symbols from
/// `k` on, behind `out`.
pub open spec fn specific_from(ws: Workspace, r: Ref, k: int, out: Seq<Callee>) -> Seq<Callee>
    decreases ws.index.files[r.0].symbols.len() - k,
{
    let symbols = ws.index.files[r.0].symbols;
    let t = sg::symbol(ws, r);
    if k >= symbols.len() {
        out
    } else {
        specific_from(
            ws,
            r,
            k + 1,
            if sm::is_procedure_kind(symbols[k].kind) && st::same_scope(
                symbols[k].scope,
                t.scope.push(t.name),
            ) {
                out.push(specific_callee(ws, linked(ws, (r.0, k))))
            } else {
                out
            },
        )
    }
}

/// The `use` statement from `i` on of a scope around another one that takes a
/// name from an intrinsic module, and the symbol there.
pub open spec fn intrinsic_from(
    ws: Workspace,
    uses: Seq<UseStmt>,
    scope: Scope,
    name: Text,
    i: int,
) -> Option<int>
    decreases uses.len() - i,
{
    if i >= uses.len() {
        None
    } else {
        let found = if sco::use_counts(uses[i], scope, sco::Context::Any) && sco::is_intrinsic_use(
            ws,
            uses[i],
        ) {
            match sx::brings(uses[i], name) {
                Some(remote) => sco::member_from(
                    ws.index.intrinsics,
                    uses[i].module,
                    remote,
                    0,
                ),
                None => None,
            }
        } else {
            None
        };
        if found is Some {
            found
        } else {
            intrinsic_from(ws, uses, scope, name, i + 1)
        }
    }
}

/// The intrinsic symbol that a name stands for in a scope of a file.
pub open spec fn intrinsic_at(ws: Workspace, f: int, scope: Scope, name: Text) -> Option<int> {
    match intrinsic_from(ws, ws.index.files[f].uses, scope, name, 0) {
        Some(k) => Some(k),
        None => si::find_global_from(ws.index.intrinsics, name, 0),
    }
}

/// The callees that a name can stand for in a scope of a file.
pub open spec fn named_callees(ws: Workspace, f: int, scope: Scope, name: Text) -> Seq<Callee> {
    match sv::resolve(ws, f, scope, name) {
        Some(r) => if sg::symbol(ws, r).kind is Interface {
            specific_from(ws, r, 0, Seq::empty())
        } else if sm::is_procedure_kind(sg::symbol(ws, linked(ws, r)).kind) {
            Seq::empty().push(procedure_callee(ws, linked(ws, r)))
        } else {
            Seq::empty()
        },
        None => match intrinsic_at(ws, f, scope, name) {
            Some(k) => Seq::empty().push(intrinsic_callee(ws.index.intrinsics[k])),
            None => Seq::empty(),
        },
    }
}

/// The callees that a call can go to.
pub open spec fn callees(
    ws: Workspace,
    f: int,
    scope: Scope,
    receiver: Option<Text>,
    name: Text,
) -> Seq<Callee> {
    match receiver {
        Some(receiver) => member_callees(ws, f, scope, receiver, name),
        None => named_callees(ws, f, scope, name),
    }
}

/// Which argument is being written.
pub open spec fn active_parameter(c: Callee, call: su::CallContext) -> usize {
    match call.active_argument_name {
        Some(name) => match argument_index(c.args, name, 0) {
            Some(k) => k as usize,
            None => call.active_parameter,
        },
        None => call.active_parameter,
    }
}

/// The procedure whose arguments stand at a position.
pub open spec fn signature_help(ws: Workspace, path: Text, pos: Position, source: Text) -> Option<
    SignatureHelp,
> {
    match sw::find_file(ws, path) {
        Some(f) => match su::call_context(source, pos) {
            Some(call) => {
                let scope = sco::scope_at(ws.index.files[f].symbols, pos);
                match fitting_from(
                    callees(ws, f, scope, call.receiver, call.name),
                    call.argument_count,
                    call.active_argument_name,
                    0,
                ) {
                    Some(c) => Some(
                        SignatureHelp {
                            label: c.label,
                            parameters: c.args,
                            active_parameter: active_parameter(c, call),
                            documentation: c.documentation,
                        },
                    ),
                    None => None,
                }
            },
            None => None,
        },
        None => None,
    }
}

// ---------------------------------------------------------------------------
// What is shown
// ---------------------------------------------------------------------------

/// The word for the kind of a procedure.
pub open spec fn procedure_word(kind: SymbolKind) -> Text {
    if kind is Function {
        "function "@
    } else {
        "subroutine "@
    }
}

/// The text that is shown for a binding: the procedure that it stands for under
/// its own name, without the object.
pub open spec fn method_markdown(ws: Workspace, r: Ref) -> Text {
    match (procedure_of(ws, r), method_callee(ws, r)) {
        (Some(q), Some(c)) => sm::hover_markdown(
            Symbol {
                signature: procedure_word(sg::symbol(ws, q).kind) + c.label,
                documentation: c.documentation,
                ..sg::symbol(ws, r)
            },
        ),
        _ => sm::hover_markdown(sg::symbol(ws, r)),
    }
}

/// The text that is shown for a symbol.
pub open spec fn symbol_markdown(ws: Workspace, r: Ref) -> Text {
    if sg::symbol(ws, r).kind is Method {
        method_markdown(ws, r)
    } else {
        sm::hover_markdown(sg::symbol(ws, linked(ws, r)))
    }
}

/// The first statement from `i` on that takes a file in at a position.
pub open spec fn statement_from(p: ParsedFile, pos: Position, i: int) -> Option<int>
    decreases p.includes.len() - i,
{
    if i >= p.includes.len() {
        None
    } else if p.includes[i].range.start.line == pos.line {
        Some(i)
    } else {
        statement_from(p, pos, i + 1)
    }
}

/// The text that is shown for a file that is taken in.
pub open spec fn file_markdown(ws: Workspace, p: ParsedFile, i: int) -> Text {
    match sw::resolve_path(ws, p.path, p.includes[i].path) {
        Some(path) => "include `"@ + p.includes[i].path + "`\n\nresolved: `"@ + path + "`"@,
        None => "unresolved include `"@ + p.includes[i].path + "`"@,
    }
}

/// Whether a character can stand in a number or a logical value.
pub open spec fn is_literal_char(c: char) -> bool {
    st::is_ident(c) || c == '.'
}

/// The first index of the literal that ends before `j`.
pub open spec fn literal_begin(s: Text, j: int) -> int
    decreases j,
{
    if 0 < j <= s.len() && is_literal_char(s[j - 1]) {
        literal_begin(s, j - 1)
    } else {
        j
    }
}

/// The end of the literal that starts at `i`.
pub open spec fn literal_end(s: Text, i: int) -> int
    decreases s.len() - i,
{
    if 0 <= i < s.len() && is_literal_char(s[i]) {
        literal_end(s, i + 1)
    } else {
        i
    }
}

/// The type of a number or a logical value.
pub open spec fn literal_type(t: Text) -> Option<Text> {
    let small = st::lower(t);
    if small == ".true."@ || small == ".false."@ {
        Some("LOGICAL"@)
    } else if t.len() == 0 || !(st::is_digit(t[0]) || t[0] == '.' && t.len() > 1 && st::is_digit(
        t[1],
    )) {
        None
    } else if st::contains(small, "."@) || st::contains(small, "e"@) || st::contains(small, "d"@) {
        Some("REAL"@)
    } else {
        Some("INTEGER"@)
    }
}

/// The last quote before index `j` that opens a text, going by the quotes
/// before it.
pub open spec fn quote_before(s: Text, q: ss::Quotes, i: int, j: int, found: Option<int>) -> Option<
    int,
>
    decreases j - i,
{
    if i >= j || i >= s.len() {
        if ss::quoted(q) {
            found
        } else {
            None
        }
    } else {
        let next = ss::quote_step(q, s[i]);
        quote_before(
            s,
            next,
            i + 1,
            j,
            if ss::quoted(next) && !ss::quoted(q) {
                Some(i)
            } else {
                found
            },
        )
    }
}

/// The type of the text in quotes around index `j`.
pub open spec fn quoted_type(s: Text, j: int) -> Option<Text> {
    match quote_before(s, ss::unquoted(), 0, j, None) {
        Some(open) => match st::find_char(s.skip(open + 1), s[open]) {
            Some(n) => Some("CHARACTER(LEN="@ + st::decimal(n as nat) + ")"@),
            None => None,
        },
        None => None,
    }
}

/// The type of the literal at a position.
pub open spec fn literal_at(source: Text, pos: Position) -> Option<Text> {
    let line = st::line(source, pos.line as int);
    let j = st::index_of_column(line, pos.character as nat);
    match quoted_type(line, j) {
        Some(t) => Some(t),
        None => {
            let start = literal_begin(line, j);
            literal_type(line.subrange(start, literal_end(line, start)))
        },
    }
}

/// The text that is shown for a literal.
pub open spec fn literal_markdown(t: Text) -> Text {
    "```fortran\n"@ + t + "\n```"@
}

/// The text that is shown for the name, the file or the literal at a position.
pub open spec fn hover(ws: Workspace, path: Text, pos: Position, source: Text) -> Option<Text> {
    match sw::find_file(ws, path) {
        Some(f) => {
            let p = ws.index.files[f];
            match statement_from(p, pos, 0) {
                Some(i) => Some(file_markdown(ws, p, i)),
                None => match target(ws, f, source, pos) {
                    Some(r) => Some(symbol_markdown(ws, r)),
                    None => match macro_at(ws, f, source, pos) {
                        Some(name) => Some(
                            sco::macro_markdown(name, macro_value(p, name)->0),
                        ),
                        None => other_hover(ws, f, pos, source),
                    },
                },
            }
        },
        None => None,
    }
}

/// The text that is shown for an intrinsic name or a literal.
pub open spec fn other_hover(ws: Workspace, f: int, pos: Position, source: Text) -> Option<Text> {
    let scope = sco::scope_at(ws.index.files[f].symbols, pos);
    let found = match su::word_at_source(source, pos) {
        Some(name) => intrinsic_at(ws, f, scope, name),
        None => None,
    };
    match found {
        Some(k) => Some(si::hover_markdown(ws.index.intrinsics[k])),
        None => match literal_at(source, pos) {
            Some(t) => Some(literal_markdown(t)),
            None => None,
        },
    }
}

} // verus!
