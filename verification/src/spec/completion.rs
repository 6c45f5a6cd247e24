//! What can be put where the cursor stands.

use vstd::prelude::*;

use crate::model::{Position, SymbolKind};
use crate::spec::bindings as sg;
use crate::spec::checks as sy;
use crate::spec::declaration as sd;
use crate::spec::intrinsics as si;
use crate::spec::lsp::CompletionItem;
use crate::spec::model as sm;
use crate::spec::model::{GenericBinding, Scope, Symbol, UseStmt};
use crate::spec::modules as sx;
use crate::spec::names as sn;
use crate::spec::resolve as sv;
use crate::spec::resolve::Ref;
use crate::spec::scan as ss;
use crate::spec::scope as sc;
use crate::spec::statement as sp;
use crate::spec::table::Entries;
use crate::spec::text as st;
use crate::spec::text::Text;
use crate::spec::workspace as sw;
use crate::spec::workspace::Workspace;

verus! {

pub type Items = Seq<CompletionItem>;

// ---------------------------------------------------------------------------
// Where the cursor stands
// ---------------------------------------------------------------------------

/// What can stand at a place.
pub enum Context {
    /// Nothing: a new name stands there.
    Nothing,
    /// A module.
    Modules,
    /// What a module exports.
    Members(Text),
    /// What a module declares and can show or hide.
    Objects,
    /// A procedure for an interface.
    Links,
    /// What an interface can import.
    Imports,
    /// A derived type.
    Types,
    /// A procedure of an abstract interface.
    Prototypes,
    /// An attribute of a declaration.
    Attributes,
    /// A variable.
    Variables,
    /// What can be called.
    Calls,
    /// A statement, or any name.
    First,
    /// Any name.
    Any,
    /// A component or a binding of what the name before `%` stands for.
    Component(Text),
    /// Any name that is known anywhere in the file.
    Whole,
}

/// The name before the `%` that stands before the last name of a text.
pub open spec fn receiver(head: Text) -> Option<Text> {
    let before = st::trim_end(head.take(st::name_begin(head, head.len() as int)));
    if st::ends_with_char(before, '%') {
        let prefix = st::trim_end(before.drop_last());
        let name = prefix.skip(st::name_begin(prefix, prefix.len() as int));
        if name.len() == 0 {
            None
        } else {
            Some(name)
        }
    } else {
        None
    }
}

/// The name before the parenthesis that is open at the end of a text.
pub open spec fn opening_word(head: Text) -> Option<Text> {
    match ss::find_unclosed_call_paren(head) {
        Some(i) => {
            let before = st::trim_end(head.take(i as int));
            Some(before.skip(st::name_begin(before, before.len() as int)))
        },
        None => None,
    }
}

/// What can stand behind an open parenthesis, where the name before it says.
pub open spec fn opening_context(head: Text) -> Option<Context> {
    match opening_word(head) {
        Some(word) => if st::same(word, "type"@) || st::same(word, "class"@) || st::same(
            word,
            "extends"@,
        ) {
            Some(Context::Types)
        } else if st::same(word, "procedure"@) {
            Some(Context::Prototypes)
        } else {
            None
        },
        None => None,
    }
}

/// What can stand in a `use` statement.
pub open spec fn use_context(rest: Text) -> Context {
    match st::first_ident(sp::after_use_nature(rest)) {
        Some(module) => if st::contains(st::lower(rest), "only"@) {
            Context::Members(module)
        } else {
            Context::Modules
        },
        None => Context::Modules,
    }
}

/// What the first words of a statement say of what can stand there.
pub open spec fn keyword_context(head: Text) -> Option<Context> {
    match st::after_keyword(head, "use"@) {
        Some(rest) => Some(use_context(rest)),
        None => if st::after_keyword(head, "public"@) is Some || st::after_keyword(
            head,
            "private"@,
        ) is Some {
            Some(Context::Objects)
        } else if st::after_keywords(head, "module"@, "procedure"@) is Some {
            Some(Context::Links)
        } else if st::after_keyword(head, "import"@) is Some {
            Some(Context::Imports)
        } else {
            None
        },
    }
}

/// Whether a statement declares variables.
pub open spec fn is_declaration(head: Text) -> bool {
    match st::first_ident(head) {
        Some(word) => sd::is_declaration_keyword(st::lower(word)),
        None => false,
    }
}

/// What can stand at the end of a statement.
pub open spec fn statement_context(head: Text) -> Context {
    if st::first_ident_is(head, "end"@) || sc::parse_scope_start(head) is Some {
        Context::Nothing
    } else if is_declaration(head) && st::contains(head, "::"@) {
        Context::Variables
    } else if is_declaration(head) && st::contains(head, ","@) {
        Context::Attributes
    } else if st::after_keyword(head, "call"@) is Some && opening_word(head) is None {
        Context::Calls
    } else if st::name_end(head, 0) == head.len() {
        Context::First
    } else {
        Context::Any
    }
}

/// What can stand at the end of the text before the cursor.
pub open spec fn context(line: Text) -> Context {
    let head = st::trim_start(line);
    match receiver(head) {
        Some(name) => Context::Component(name),
        None => match keyword_context(head) {
            Some(c) => c,
            None => match opening_context(head) {
                Some(c) => c,
                None => statement_context(head),
            },
        },
    }
}

/// The text of a line before a position.
pub open spec fn before_cursor(source: Text, pos: Position) -> Text {
    let line = st::line(source, pos.line as int);
    line.take(st::index_of_column(line, pos.character as nat))
}

/// The scope that the deepest of the symbols from `i` on opens around a
/// position, or `found`.
pub open spec fn scope_from(symbols: Seq<Symbol>, pos: Position, i: int, found: Scope) -> Scope
    decreases symbols.len() - i,
{
    if i >= symbols.len() {
        found
    } else {
        scope_from(
            symbols,
            pos,
            i + 1,
            if sm::is_scope_kind(symbols[i].kind) && !sv::is_link(symbols[i])
                && sm::range_contains(symbols[i].range, pos) && symbols[i].scope.len()
                >= found.len() {
                symbols[i].scope.push(symbols[i].name)
            } else {
                found
            },
        )
    }
}

/// The scope around a position.
pub open spec fn scope_at(symbols: Seq<Symbol>, pos: Position) -> Scope {
    scope_from(symbols, pos, 0, Seq::empty())
}

// ---------------------------------------------------------------------------
// Items
// ---------------------------------------------------------------------------

/// Whether a label starts with a prefix, case aside.
pub open spec fn starts(label: Text, prefix: Text) -> bool {
    st::starts_with(st::lower(label), st::lower(prefix))
}

/// Puts an item behind the others if its label starts with a prefix.
pub open spec fn offer(out: Items, prefix: Text, item: CompletionItem) -> Items {
    if starts(item.label, prefix) {
        out.push(item)
    } else {
        out
    }
}

/// The item for a symbol.
pub open spec fn item(label: Text, s: Symbol) -> CompletionItem {
    CompletionItem {
        label,
        detail: s.signature,
        kind: s.kind,
        documentation: s.documentation,
    }
}

/// The item for an intrinsic symbol.
pub open spec fn intrinsic_item(label: Text, x: si::IntrinsicSymbol) -> CompletionItem {
    let c = si::completion(x);
    CompletionItem { label, detail: c.detail, kind: c.kind, documentation: c.documentation }
}

// ---------------------------------------------------------------------------
// Symbols
// ---------------------------------------------------------------------------

/// Whether the kind of a symbol is one that can stand at a place.
pub open spec fn kind_fits(ws: Workspace, c: Context, r: Ref) -> bool {
    let s = sg::symbol(ws, r);
    match c {
        Context::Types => s.kind is Type,
        Context::Variables => s.kind is Variable,
        Context::Calls => s.kind is Subroutine || s.kind is Interface,
        Context::Prototypes => sm::is_procedure_kind(s.kind) && sn::in_abstract(
            ws.index.files[r.0].symbols,
            s.selection_range.start,
        ),
        Context::First => true,
        Context::Any => true,
        Context::Whole => true,
        _ => false,
    }
}

/// Whether one of the `use` statements from `i` on makes a symbol known under a
/// name.
pub open spec fn used_anywhere(ws: Workspace, f: int, r: Ref, name: Text) -> bool {
    exists|i: int|
        0 <= i < ws.index.files[f].uses.len() && #[trigger] sv::lookup(
            ws,
            f,
            ws.index.files[f].uses[i].scope,
            name,
        ) == Some(r)
}

/// Whether a file that is taken in anywhere makes a symbol known under a name.
pub open spec fn included_anywhere(ws: Workspace, f: int, r: Ref, name: Text) -> bool {
    exists|i: int|
        0 <= i < ws.index.files[f].includes.len() && #[trigger] sv::lookup(
            ws,
            f,
            ws.index.files[f].includes[i].scope,
            name,
        ) == Some(r)
}

/// Whether a symbol is known under its name: in a scope, or anywhere in the
/// file.
pub open spec fn is_visible(ws: Workspace, f: int, scope: Scope, c: Context, r: Ref) -> bool {
    let name = sg::symbol(ws, r).name;
    if c is Whole {
        r.0 == f || used_anywhere(ws, f, r, name) || included_anywhere(ws, f, r, name)
    } else {
        sv::lookup(ws, f, scope, name) == Some(r)
    }
}

/// Whether a symbol of the file itself stands in a scope and has one of the
/// kinds that a statement can name.
pub open spec fn is_own(ws: Workspace, f: int, scope: Scope, r: Ref) -> bool {
    r.0 == f && st::same_scope(sg::symbol(ws, r).scope, scope)
}

/// Whether a symbol can stand at a place under its own name.
pub open spec fn can_stand(ws: Workspace, f: int, scope: Scope, c: Context, r: Ref) -> bool {
    let s = sg::symbol(ws, r);
    match c {
        Context::Modules => s.kind is Module,
        Context::Members(module) => sv::exported(ws.index, module, s.name) == Some(r),
        Context::Objects => is_own(ws, f, scope, r) && !sv::is_link(s) && (s.kind is Variable
            || s.kind is Type || sm::is_procedure_kind(s.kind)),
        Context::Links => scope.len() > 0 && is_own(ws, f, scope.drop_last(), r) && !sv::is_link(s)
            && sm::is_procedure_kind(s.kind),
        Context::Imports => is_own(
            ws,
            f,
            scope.take(sn::host_level(ws.index.files[f].symbols, scope, scope.len() as int)),
            r,
        ) && (s.kind is Variable || s.kind is Type),
        _ => kind_fits(ws, c, r) && is_visible(ws, f, scope, c, r),
    }
}

/// The items for the symbols of the file `g` from `k` on, behind `out`.
pub open spec fn symbol_items(
    ws: Workspace,
    f: int,
    scope: Scope,
    c: Context,
    prefix: Text,
    g: int,
    k: int,
    out: Items,
) -> Items
    decreases ws.index.files[g].symbols.len() - k,
{
    let symbols = ws.index.files[g].symbols;
    if k >= symbols.len() {
        out
    } else {
        symbol_items(
            ws,
            f,
            scope,
            c,
            prefix,
            g,
            k + 1,
            if starts(symbols[k].name, prefix) && can_stand(ws, f, scope, c, (g, k)) {
                out.push(item(symbols[k].name, symbols[k]))
            } else {
                out
            },
        )
    }
}

/// The items for the symbols of the files from `g` on, behind `out`.
pub open spec fn file_items(
    ws: Workspace,
    f: int,
    scope: Scope,
    c: Context,
    prefix: Text,
    g: int,
    out: Items,
) -> Items
    decreases ws.index.files.len() - g,
{
    if g >= ws.index.files.len() {
        out
    } else {
        file_items(
            ws,
            f,
            scope,
            c,
            prefix,
            g + 1,
            symbol_items(ws, f, scope, c, prefix, g, 0, out),
        )
    }
}

// ---------------------------------------------------------------------------
// Names that `use` statements give
// ---------------------------------------------------------------------------

/// Whether a `use` statement is looked at for a place.
pub open spec fn use_counts(u: UseStmt, scope: Scope, c: Context) -> bool {
    c is Whole || sn::is_level_from(scope, u.scope, 0)
}

/// The items for the new names from `j` on that a `use` statement gives, behind
/// `out`.
pub open spec fn rename_items(
    ws: Workspace,
    f: int,
    scope: Scope,
    c: Context,
    prefix: Text,
    u: UseStmt,
    j: int,
    out: Items,
) -> Items
    decreases u.renames.len() - j,
{
    if j >= u.renames.len() {
        out
    } else {
        let local = u.renames[j].local;
        rename_items(
            ws,
            f,
            scope,
            c,
            prefix,
            u,
            j + 1,
            match sv::lookup(
                ws,
                f,
                if c is Whole {
                    u.scope
                } else {
                    scope
                },
                local,
            ) {
                Some(r) => if starts(local, prefix) && kind_fits(ws, c, r) && !st::same(
                    sg::symbol(ws, r).name,
                    local,
                ) {
                    out.push(item(local, sg::symbol(ws, r)))
                } else {
                    out
                },
                None => out,
            },
        )
    }
}

/// The first member of an intrinsic module from `i` on with a name.
pub open spec fn member_from(
    table: Seq<si::IntrinsicSymbol>,
    module: Text,
    name: Text,
    i: int,
) -> Option<int>
    decreases table.len() - i,
{
    if i >= table.len() {
        None
    } else if si::is_of_module(table[i], module) && si::is_named(table[i], name) {
        Some(i)
    } else {
        member_from(table, module, name, i + 1)
    }
}

/// Whether an intrinsic symbol can stand at a place.
pub open spec fn intrinsic_fits(c: Context, x: si::IntrinsicSymbol) -> bool {
    match c {
        Context::Calls => x.kind is Subroutine,
        Context::First => true,
        Context::Any => true,
        Context::Whole => true,
        _ => false,
    }
}

/// The items for the names from `j` on that a `use` statement takes from an
/// intrinsic module, behind `out`.
pub open spec fn named_items(
    table: Seq<si::IntrinsicSymbol>,
    c: Context,
    prefix: Text,
    module: Text,
    names: Seq<(Text, Text)>,
    j: int,
    out: Items,
) -> Items
    decreases names.len() - j,
{
    if j >= names.len() {
        out
    } else {
        named_items(
            table,
            c,
            prefix,
            module,
            names,
            j + 1,
            match member_from(table, module, names[j].1, 0) {
                Some(k) => if intrinsic_fits(c, table[k]) {
                    offer(out, prefix, intrinsic_item(names[j].0, table[k]))
                } else {
                    out
                },
                None => out,
            },
        )
    }
}

/// The items for the members of an intrinsic module among the symbols from `i`
/// on, behind `out`. With `fits`, only those that can stand at the place.
pub open spec fn member_items(
    table: Seq<si::IntrinsicSymbol>,
    c: Context,
    fits: bool,
    prefix: Text,
    module: Text,
    i: int,
    out: Items,
) -> Items
    decreases table.len() - i,
{
    if i >= table.len() {
        out
    } else {
        member_items(
            table,
            c,
            fits,
            prefix,
            module,
            i + 1,
            if si::is_of_module(table[i], module) && (!fits || intrinsic_fits(c, table[i])) {
                offer(out, prefix, intrinsic_item(table[i].name, table[i]))
            } else {
                out
            },
        )
    }
}

/// Whether a `use` statement names an intrinsic module.
pub open spec fn is_intrinsic_use(ws: Workspace, u: UseStmt) -> bool {
    sx::is_intrinsic_module(ws.index, u.module) && (u.intrinsic || sx::module_file(
        ws.index.files,
        u.module,
    ) is None)
}

/// The items for what a `use` statement makes known, behind `out`.
pub open spec fn use_items(
    ws: Workspace,
    f: int,
    scope: Scope,
    c: Context,
    prefix: Text,
    u: UseStmt,
    out: Items,
) -> Items {
    if !use_counts(u, scope, c) {
        out
    } else if is_intrinsic_use(ws, u) {
        let named = named_items(
            ws.index.intrinsics,
            c,
            prefix,
            u.module,
            sy::named_items(u),
            0,
            out,
        );
        if u.only.len() == 0 {
            member_items(ws.index.intrinsics, c, true, prefix, u.module, 0, named)
        } else {
            named
        }
    } else {
        rename_items(ws, f, scope, c, prefix, u, 0, out)
    }
}

/// The items for the `use` statements of the file from `i` on, behind `out`.
pub open spec fn uses_items(
    ws: Workspace,
    f: int,
    scope: Scope,
    c: Context,
    prefix: Text,
    i: int,
    out: Items,
) -> Items
    decreases ws.index.files[f].uses.len() - i,
{
    let uses = ws.index.files[f].uses;
    if i >= uses.len() {
        out
    } else {
        uses_items(
            ws,
            f,
            scope,
            c,
            prefix,
            i + 1,
            use_items(ws, f, scope, c, prefix, uses[i], out),
        )
    }
}

// ---------------------------------------------------------------------------
// Intrinsic symbols, macros and words
// ---------------------------------------------------------------------------

/// Whether an intrinsic symbol is known everywhere and can stand at a place.
pub open spec fn is_offered(c: Context, x: si::IntrinsicSymbol) -> bool {
    match c {
        Context::Modules => x.kind is Module,
        _ => x.module is None && !(x.kind is Module) && intrinsic_fits(c, x),
    }
}

/// The items for the intrinsic symbols from `i` on, behind `out`.
pub open spec fn intrinsic_items(
    table: Seq<si::IntrinsicSymbol>,
    c: Context,
    prefix: Text,
    i: int,
    out: Items,
) -> Items
    decreases table.len() - i,
{
    if i >= table.len() {
        out
    } else {
        intrinsic_items(
            table,
            c,
            prefix,
            i + 1,
            if is_offered(c, table[i]) {
                offer(out, prefix, intrinsic_item(table[i].name, table[i]))
            } else {
                out
            },
        )
    }
}

/// The directive that defines a macro.
pub open spec fn directive(name: Text, value: Text) -> Text {
    if value.len() == 0 {
        "#define "@ + name
    } else {
        "#define "@ + name + " "@ + value
    }
}

/// The text that is shown for a macro.
pub open spec fn macro_markdown(name: Text, value: Text) -> Text {
    "```fortran\n"@ + directive(name, value) + "\n```"@
}

pub open spec fn macro_item(name: Text, value: Text) -> CompletionItem {
    CompletionItem {
        label: name,
        detail: directive(name, value),
        kind: SymbolKind::Variable,
        documentation: Some(macro_markdown(name, value)),
    }
}

/// The items for the macros from `i` on, behind `out`.
pub open spec fn macro_items(
    macros: Entries<Text, Text>,
    prefix: Text,
    i: int,
    out: Items,
) -> Items
    decreases macros.len() - i,
{
    if i >= macros.len() {
        out
    } else {
        macro_items(
            macros,
            prefix,
            i + 1,
            offer(out, prefix, macro_item(macros[i].0, macros[i].1)),
        )
    }
}

/// The item for a word of the language.
pub open spec fn word_item(word: Text) -> CompletionItem {
    CompletionItem {
        label: word,
        detail: "keyword"@,
        kind: SymbolKind::Use,
        documentation: None,
    }
}

/// The words that start a statement.
pub open spec fn statement_words() -> Text {
    "allocate associate backspace block call case close continue cycle deallocate do else endfile error exit flush forall format if inquire nullify open print read return rewind select stop where write"@
}

/// The attributes that a declaration can have anywhere.
pub open spec fn common_attributes() -> Text {
    "allocatable asynchronous bind contiguous dimension external intrinsic parameter pointer private protected public save target volatile"@
}

/// The attributes that only the declaration of an argument can have.
pub open spec fn argument_attributes() -> Text {
    "intent optional value"@
}

/// The attributes that the parts of a derived type can have.
pub open spec fn component_attributes() -> Text {
    "allocatable contiguous deferred dimension non_overridable nopass pass pointer private public"@
}

/// The items for the words from `i` on, behind `out`.
pub open spec fn word_items(words: Seq<Text>, prefix: Text, i: int, out: Items) -> Items
    decreases words.len() - i,
{
    if i >= words.len() {
        out
    } else {
        word_items(words, prefix, i + 1, offer(out, prefix, word_item(words[i])))
    }
}

/// The items for the words that single blanks separate, behind `out`.
pub open spec fn words(list: Text, prefix: Text, out: Items) -> Items {
    word_items(st::split_char(list, ' '), prefix, 0, out)
}

/// The kind of the symbol that opens a scope.
pub open spec fn owner_kind(symbols: Seq<Symbol>, scope: Scope) -> Option<SymbolKind> {
    if scope.len() == 0 {
        None
    } else {
        match sv::symbol_from(symbols, scope.drop_last(), scope.last(), 0) {
            Some(k) => Some(symbols[k].kind),
            None => None,
        }
    }
}

/// The items for the attributes that a declaration in a scope can have.
pub open spec fn attribute_items(symbols: Seq<Symbol>, scope: Scope, prefix: Text) -> Items {
    match owner_kind(symbols, scope) {
        Some(kind) => if kind is Type {
            words(component_attributes(), prefix, Seq::empty())
        } else if sm::is_procedure_kind(kind) {
            words(argument_attributes(), prefix, words(common_attributes(), prefix, Seq::empty()))
        } else {
            words(common_attributes(), prefix, Seq::empty())
        },
        None => words(common_attributes(), prefix, Seq::empty()),
    }
}

// ---------------------------------------------------------------------------
// Components
// ---------------------------------------------------------------------------

/// Whether an item has a label, case aside.
pub open spec fn has_label(out: Items, label: Text) -> bool {
    exists|i: int| 0 <= i < out.len() && st::same((#[trigger] out[i]).label, label)
}

/// Puts an item behind the others if its label starts with a prefix and is not
/// there yet.
pub open spec fn offer_once(out: Items, prefix: Text, item: CompletionItem) -> Items {
    if has_label(out, item.label) {
        out
    } else {
        offer(out, prefix, item)
    }
}

/// Whether a symbol is a component or a binding of a type.
pub open spec fn is_part_of(s: Symbol, t: Symbol) -> bool {
    (s.kind is Variable || s.kind is Method) && !(s.visibility is Private) && st::same_scope(
        s.scope,
        t.scope.push(t.name),
    )
}

/// The items for the parts of a type among the symbols from `k` on, behind
/// `out`.
pub open spec fn part_items(
    symbols: Seq<Symbol>,
    t: Symbol,
    prefix: Text,
    k: int,
    out: Items,
) -> Items
    decreases symbols.len() - k,
{
    if k >= symbols.len() {
        out
    } else {
        part_items(
            symbols,
            t,
            prefix,
            k + 1,
            if is_part_of(symbols[k], t) {
                offer_once(out, prefix, item(symbols[k].name, symbols[k]))
            } else {
                out
            },
        )
    }
}

pub open spec fn generic_item(b: GenericBinding) -> CompletionItem {
    CompletionItem {
        label: b.name,
        detail: "generic binding => "@ + st::join(b.procedures, ", "@),
        kind: SymbolKind::Method,
        documentation: None,
    }
}

/// The items for the generic bindings of a type from `k` on, behind `out`.
pub open spec fn generic_items(
    list: Seq<GenericBinding>,
    t: Symbol,
    prefix: Text,
    k: int,
    out: Items,
) -> Items
    decreases list.len() - k,
{
    if k >= list.len() {
        out
    } else {
        generic_items(
            list,
            t,
            prefix,
            k + 1,
            if st::same_scope(list[k].scope, t.scope.push(t.name)) && !(list[k].visibility
                is Private) {
                offer_once(out, prefix, generic_item(list[k]))
            } else {
                out
            },
        )
    }
}

/// The items for the types from `i` on, behind `out`.
pub open spec fn type_items(
    ws: Workspace,
    types: Seq<Ref>,
    prefix: Text,
    i: int,
    out: Items,
) -> Items
    decreases types.len() - i,
{
    if i >= types.len() {
        out
    } else {
        let p = ws.index.files[types[i].0];
        let t = sg::symbol(ws, types[i]);
        type_items(
            ws,
            types,
            prefix,
            i + 1,
            generic_items(
                p.generic_bindings,
                t,
                prefix,
                0,
                part_items(p.symbols, t, prefix, 0, out),
            ),
        )
    }
}

/// The derived type of the variable that a name stands for.
pub open spec fn type_of(ws: Workspace, f: int, scope: Scope, name: Text) -> Option<Ref> {
    match sv::lookup(ws, f, scope, name) {
        Some(r) => match sn::variable_type(sg::symbol(ws, r)) {
            Some(t) => match sn::derived_type(t) {
                Some(n) => sg::lookup_type(ws, r.0, sg::symbol(ws, r).scope, n),
                None => None,
            },
            None => None,
        },
        None => None,
    }
}

/// The items for what can stand behind `name %`.
pub open spec fn component_items(
    ws: Workspace,
    f: int,
    scope: Scope,
    name: Text,
    prefix: Text,
) -> Items {
    match type_of(ws, f, scope, name) {
        Some(r) => type_items(ws, sg::chain(ws, r), prefix, 0, Seq::empty()),
        None => Seq::empty(),
    }
}

// ---------------------------------------------------------------------------
// All of them
// ---------------------------------------------------------------------------

/// Whether macros are offered at a place.
pub open spec fn takes_macros(c: Context) -> bool {
    c is First || c is Any || c is Whole
}

/// The items for a place where names stand.
pub open spec fn name_items(
    ws: Workspace,
    f: int,
    scope: Scope,
    c: Context,
    prefix: Text,
) -> Items {
    let symbols = file_items(ws, f, scope, c, prefix, 0, Seq::empty());
    let used = uses_items(ws, f, scope, c, prefix, 0, symbols);
    let members = match c {
        Context::Members(module) => member_items(
            ws.index.intrinsics,
            c,
            false,
            prefix,
            module,
            0,
            used,
        ),
        _ => used,
    };
    let macros = if takes_macros(c) {
        macro_items(ws.index.files[f].preprocessor_definitions, prefix, 0, members)
    } else {
        members
    };
    let intrinsics = intrinsic_items(ws.index.intrinsics, c, prefix, 0, macros);
    if c is First {
        words(statement_words(), prefix, intrinsics)
    } else {
        intrinsics
    }
}

/// The items for a place in a scope.
pub open spec fn items(ws: Workspace, f: int, scope: Scope, c: Context, prefix: Text) -> Items {
    match c {
        Context::Nothing => Seq::empty(),
        Context::Component(name) => component_items(ws, f, scope, name, prefix),
        Context::Attributes => attribute_items(ws.index.files[f].symbols, scope, prefix),
        _ => name_items(ws, f, scope, c, prefix),
    }
}

/// What can be put at a position of a file.
pub open spec fn completions_at(ws: Workspace, path: Text, pos: Position, prefix: Text) -> Items {
    match sw::find_file(ws, path) {
        Some(f) => {
            let p = ws.index.files[f];
            items(
                ws,
                f,
                scope_at(p.symbols, pos),
                context(before_cursor(p.source, pos)),
                prefix,
            )
        },
        None => Seq::empty(),
    }
}

/// What can be put anywhere in a file.
pub open spec fn completions(ws: Workspace, path: Text, prefix: Text) -> Items {
    match sw::find_file(ws, path) {
        Some(f) => items(ws, f, Seq::empty(), Context::Whole, prefix),
        None => Seq::empty(),
    }
}

} // verus!
