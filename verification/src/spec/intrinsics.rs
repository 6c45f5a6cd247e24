//! The procedures and modules that every Fortran compiler brings along.

use vstd::prelude::*;

use crate::intrinsics::IntrinsicKind;
use crate::model::{SymbolKind, Visibility};
use crate::spec::json as sj;
use crate::spec::json::Json;
use crate::spec::order as sr;
use crate::spec::text as st;
use crate::spec::text::Text;

verus! {

#[verifier::ext_equal]
pub struct IntrinsicSymbol {
    pub name: Text,
    pub kind: IntrinsicKind,
    pub args: Seq<Text>,
    pub documentation: Text,
    pub module: Option<Text>,
}

#[verifier::ext_equal]
pub struct IntrinsicCompletion {
    pub label: Text,
    pub detail: Text,
    pub kind: SymbolKind,
    pub documentation: Option<Text>,
    pub visibility: Visibility,
}

// ---------------------------------------------------------------------------
// Kinds
// ---------------------------------------------------------------------------

pub open spec fn symbol_kind(kind: IntrinsicKind) -> SymbolKind {
    match kind {
        IntrinsicKind::Function => SymbolKind::Function,
        IntrinsicKind::Subroutine => SymbolKind::Subroutine,
        IntrinsicKind::Module => SymbolKind::Module,
        IntrinsicKind::Constant => SymbolKind::Variable,
        IntrinsicKind::Type => SymbolKind::Type,
        IntrinsicKind::Keyword => SymbolKind::Variable,
    }
}

pub open spec fn kind_label(kind: IntrinsicKind) -> Text {
    match kind {
        IntrinsicKind::Function => "intrinsic function"@,
        IntrinsicKind::Subroutine => "intrinsic subroutine"@,
        IntrinsicKind::Module => "intrinsic module"@,
        IntrinsicKind::Constant => "intrinsic constant"@,
        IntrinsicKind::Type => "intrinsic type"@,
        IntrinsicKind::Keyword => "keyword"@,
    }
}

pub open spec fn kind_rank(kind: IntrinsicKind) -> u8 {
    match kind {
        IntrinsicKind::Module => 0,
        IntrinsicKind::Function => 1,
        IntrinsicKind::Subroutine => 2,
        IntrinsicKind::Type => 3,
        IntrinsicKind::Constant => 4,
        IntrinsicKind::Keyword => 5,
    }
}

// ---------------------------------------------------------------------------
// Symbols
// ---------------------------------------------------------------------------

pub open spec fn signature(s: IntrinsicSymbol) -> Text {
    if s.kind is Function || s.kind is Subroutine {
        s.name + "("@ + st::join(s.args, ", "@) + ")"@
    } else {
        s.name
    }
}

pub open spec fn hover_markdown(s: IntrinsicSymbol) -> Text {
    let head = "```fortran\n"@ + signature(s) + "\n```"@;
    let documented = if s.documentation.len() == 0 {
        head
    } else {
        head + "\n\n"@ + s.documentation
    };
    match s.module {
        Some(module) => documented + "\n\nmodule: `"@ + module + "`"@,
        None => documented,
    }
}

pub open spec fn completion(s: IntrinsicSymbol) -> IntrinsicCompletion {
    IntrinsicCompletion {
        label: s.name,
        detail: signature(s),
        kind: symbol_kind(s.kind),
        documentation: if s.documentation.len() == 0 {
            None
        } else {
            Some(s.documentation)
        },
        visibility: Visibility::Public,
    }
}

// ---------------------------------------------------------------------------
// Loading
// ---------------------------------------------------------------------------

pub open spec fn canonical_name(name: Text) -> Text {
    st::lower(st::trim(name))
}

/// The arguments from `i` on, behind `out`.
pub open spec fn args_from(parts: Seq<Text>, i: int, out: Seq<Text>) -> Seq<Text>
    decreases parts.len() - i,
{
    if i >= parts.len() {
        out
    } else {
        args_from(
            parts,
            i + 1,
            if st::is_blank(parts[i]) {
                out
            } else {
                out.push(canonical_name(st::trim(parts[i])))
            },
        )
    }
}

/// The arguments that commas separate in a text.
pub open spec fn parse_args(args: Option<Text>) -> Seq<Text> {
    args_from(
        st::split_char(
            match args {
                Some(args) => args,
                None => Seq::empty(),
            },
            ',',
        ),
        0,
        Seq::empty(),
    )
}

/// A text, or an empty one.
pub open spec fn text_or_empty(t: Option<Text>) -> Text {
    match t {
        Some(t) => t,
        None => Seq::empty(),
    }
}

/// The procedure of an entry: a subroutine or a function.
pub open spec fn procedure(name: Text, item: Json) -> Option<IntrinsicSymbol> {
    let code = sj::as_signed(sj::get(item, "type"@));
    if code == Some(2i64) || code == Some(3i64) {
        Some(
            IntrinsicSymbol {
                name: canonical_name(name),
                kind: if code == Some(2i64) {
                    IntrinsicKind::Subroutine
                } else {
                    IntrinsicKind::Function
                },
                args: parse_args(sj::as_text(sj::get(item, "args"@))),
                documentation: text_or_empty(sj::as_text(sj::get(item, "doc"@))),
                module: None,
            },
        )
    } else {
        None
    }
}

/// Puts a symbol behind the others, if there is one.
pub open spec fn add_symbol(
    out: Seq<IntrinsicSymbol>,
    s: Option<IntrinsicSymbol>,
) -> Seq<IntrinsicSymbol> {
    match s {
        Some(s) => out.push(s),
        None => out,
    }
}

/// The procedures of the entries from `i` on, behind `out`.
pub open spec fn procedures_from(
    entries: Seq<(Text, Json)>,
    i: int,
    out: Seq<IntrinsicSymbol>,
) -> Seq<IntrinsicSymbol>
    decreases entries.len() - i,
{
    if i >= entries.len() {
        out
    } else {
        procedures_from(entries, i + 1, add_symbol(out, procedure(entries[i].0, entries[i].1)))
    }
}

/// The procedures of a JSON object, behind `out`.
pub open spec fn load_procedures(
    data: Json,
    out: Seq<IntrinsicSymbol>,
) -> Seq<IntrinsicSymbol> {
    match data {
        Json::Object(entries) => procedures_from(entries, 0, out),
        _ => out,
    }
}

/// The documentation of a member of a module.
pub open spec fn module_child_doc(child: Json) -> Text {
    let result_line = match sj::as_text(sj::get(child, "return"@)) {
        Some(t) => seq!["Returns `"@ + t + "`."@],
        None => Seq::empty(),
    };
    st::join(
        match sj::as_text(sj::get(child, "desc"@)) {
            Some(t) => result_line.push(t),
            None => result_line,
        },
        "\n\n"@,
    )
}

/// The kind of a member of a module.
pub open spec fn child_kind(code: Option<i64>) -> Option<IntrinsicKind> {
    if code == Some(1i64) {
        Some(IntrinsicKind::Subroutine)
    } else if code == Some(2i64) {
        Some(IntrinsicKind::Function)
    } else if code == Some(3i64) {
        Some(IntrinsicKind::Constant)
    } else if code == Some(4i64) {
        Some(IntrinsicKind::Type)
    } else {
        None
    }
}

/// A member of a module.
pub open spec fn module_child(module: Text, child: Json) -> Option<IntrinsicSymbol> {
    match (
        sj::as_text(sj::get(child, "name"@)),
        child_kind(sj::as_signed(sj::get(child, "type"@))),
    ) {
        (Some(name), Some(kind)) => Some(
            IntrinsicSymbol {
                name: canonical_name(name),
                kind,
                args: parse_args(sj::as_text(sj::get(child, "args"@))),
                documentation: module_child_doc(child),
                module: Some(module),
            },
        ),
        _ => None,
    }
}

/// The members of a module from `i` on, behind `out`.
pub open spec fn children_from(
    module: Text,
    children: Seq<Json>,
    i: int,
    out: Seq<IntrinsicSymbol>,
) -> Seq<IntrinsicSymbol>
    decreases children.len() - i,
{
    if i >= children.len() {
        out
    } else {
        children_from(module, children, i + 1, add_symbol(out, module_child(module, children[i])))
    }
}

/// The name of a module: the one that it gives itself, or its key.
pub open spec fn module_name(key: Text, module: Json) -> Text {
    canonical_name(
        match sj::as_text(sj::get(module, "name"@)) {
            Some(name) => name,
            None => key,
        },
    )
}

/// A module and its members, behind `out`.
pub open spec fn add_module(
    key: Text,
    module: Json,
    out: Seq<IntrinsicSymbol>,
) -> Seq<IntrinsicSymbol> {
    let name = module_name(key, module);
    let with_module = out.push(
        IntrinsicSymbol {
            name,
            kind: IntrinsicKind::Module,
            args: Seq::empty(),
            documentation: "Intrinsic module `"@ + name + "`."@,
            module: None,
        },
    );
    match sj::as_array(sj::get(module, "children"@)) {
        Some(children) => children_from(name, children, 0, with_module),
        None => with_module,
    }
}

/// The modules of the entries from `i` on, behind `out`.
pub open spec fn modules_from(
    entries: Seq<(Text, Json)>,
    i: int,
    out: Seq<IntrinsicSymbol>,
) -> Seq<IntrinsicSymbol>
    decreases entries.len() - i,
{
    if i >= entries.len() {
        out
    } else {
        modules_from(entries, i + 1, add_module(entries[i].0, entries[i].1, out))
    }
}

/// The modules of a JSON object, behind `out`.
pub open spec fn load_modules(data: Json, out: Seq<IntrinsicSymbol>) -> Seq<IntrinsicSymbol> {
    match data {
        Json::Object(entries) => modules_from(entries, 0, out),
        _ => out,
    }
}

/// Whether `a` stands before `b`, or beside it: by module, those without one
/// first, then by name, kind and arguments.
pub open spec fn symbol_not_after(a: IntrinsicSymbol, b: IntrinsicSymbol) -> bool {
    if a.module != b.module {
        match (a.module, b.module) {
            (Some(x), Some(y)) => sr::text_not_after(x, y),
            (None, _) => true,
            (Some(_), None) => false,
        }
    } else if a.name != b.name {
        sr::text_not_after(a.name, b.name)
    } else if kind_rank(a.kind) != kind_rank(b.kind) {
        kind_rank(a.kind) < kind_rank(b.kind)
    } else {
        sr::texts_not_after(a.args, b.args)
    }
}

pub open spec fn symbol_order() -> sr::Order<IntrinsicSymbol> {
    |a: IntrinsicSymbol, b: IntrinsicSymbol| symbol_not_after(a, b)
}

/// Whether two symbols stand for the same thing.
pub open spec fn is_alike(a: IntrinsicSymbol, b: IntrinsicSymbol) -> bool {
    st::same(a.name, b.name) && a.module == b.module && a.kind == b.kind
}

/// The symbols from `i` on without those that are like the one before them,
/// behind `out`.
pub open spec fn distinct_from(
    symbols: Seq<IntrinsicSymbol>,
    i: int,
    out: Seq<IntrinsicSymbol>,
) -> Seq<IntrinsicSymbol>
    decreases symbols.len() - i,
{
    if i >= symbols.len() {
        out
    } else {
        distinct_from(
            symbols,
            i + 1,
            if out.len() > 0 && is_alike(symbols[i], out.last()) {
                out
            } else {
                out.push(symbols[i])
            },
        )
    }
}

/// The intrinsic symbols that two JSON values describe, in order.
pub open spec fn load_intrinsics(procedures: Json, modules: Json) -> Seq<IntrinsicSymbol> {
    distinct_from(
        sr::sorted(
            load_modules(modules, load_procedures(procedures, Seq::empty())),
            symbol_order(),
        ),
        0,
        Seq::empty(),
    )
}

// ---------------------------------------------------------------------------
// Looking up
// ---------------------------------------------------------------------------

/// Whether a symbol has a name, case aside.
pub open spec fn is_named(s: IntrinsicSymbol, name: Text) -> bool {
    st::same(s.name, name)
}

/// Whether a symbol belongs to a module.
pub open spec fn is_of_module(s: IntrinsicSymbol, module: Text) -> bool {
    s.module matches Some(scope) && st::same(scope, module)
}

/// The first symbol from `i` on with a name.
pub open spec fn find_from(table: Seq<IntrinsicSymbol>, name: Text, i: int) -> Option<int>
    decreases table.len() - i,
{
    if i >= table.len() {
        None
    } else if is_named(table[i], name) {
        Some(i)
    } else {
        find_from(table, name, i + 1)
    }
}

/// The first symbol from `i` on with a name that belongs to no module.
pub open spec fn find_global_from(table: Seq<IntrinsicSymbol>, name: Text, i: int) -> Option<int>
    decreases table.len() - i,
{
    if i >= table.len() {
        None
    } else if table[i].module is None && is_named(table[i], name) {
        Some(i)
    } else {
        find_global_from(table, name, i + 1)
    }
}

/// The first module from `i` on with a name.
pub open spec fn find_module_from(table: Seq<IntrinsicSymbol>, name: Text, i: int) -> Option<int>
    decreases table.len() - i,
{
    if i >= table.len() {
        None
    } else if table[i].kind is Module && is_named(table[i], name) {
        Some(i)
    } else {
        find_module_from(table, name, i + 1)
    }
}

/// Whether a module has a member with a name.
pub open spec fn module_exports(
    table: Seq<IntrinsicSymbol>,
    module: Text,
    name: Text,
) -> bool {
    exists|i: int|
        0 <= i < table.len() && is_of_module(#[trigger] table[i], module) && is_named(
            table[i],
            name,
        )
}

/// The members of a module.
pub open spec fn module_symbols(table: Seq<IntrinsicSymbol>, module: Text) -> Seq<
    IntrinsicSymbol,
>
    decreases table.len(),
{
    if table.len() == 0 {
        table
    } else {
        let rest = module_symbols(table.drop_last(), module);
        if is_of_module(table.last(), module) {
            rest.push(table.last())
        } else {
            rest
        }
    }
}

/// The completions of the symbols whose names start with `prefix`, case aside.
pub open spec fn completions(table: Seq<IntrinsicSymbol>, prefix: Text) -> Seq<
    IntrinsicCompletion,
>
    decreases table.len(),
{
    if table.len() == 0 {
        Seq::empty()
    } else {
        let rest = completions(table.drop_last(), prefix);
        if st::starts_with(st::lower(table.last().name), st::lower(prefix)) {
            rest.push(completion(table.last()))
        } else {
            rest
        }
    }
}

} // verus!
