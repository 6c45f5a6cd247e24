//! What can be put where the cursor stands.

use vstd::prelude::*;

use crate::bindings::inner_scope;
use crate::checks::named_items;
use crate::declaration::is_declaration_keyword;
use crate::intrinsics::{IntrinsicCompletion, IntrinsicKind, IntrinsicSymbol, is_of_module};
use crate::list::{empty, put};
use crate::lsp::CompletionItem;
use crate::model::{GenericBinding, Position, Symbol, SymbolKind, UseStmt, Visibility};
use crate::modules::module_file;
use crate::names::{about, derived_type, host_level, in_abstract, is_level_from, variable_type};
use crate::parser::source_line;
use crate::resolve::{SymbolRef, eq_scopes, is_link, outer_scopes, symbol_in};
use crate::scan::find_unclosed_call_paren;
use crate::scope::parse_scope_start;
use crate::spec::completion as sco;
use crate::spec::resolve as sv;
use crate::spec::text as st;
use crate::statement::after_use_nature;
use crate::table::Table;
use crate::text::{
    after_keyword, after_keywords, chars, contains, ends_with_char, first_ident, first_ident_is,
    index_of_column, join, lower, name_begin, name_end, owned, push_text, same_text, same_word,
    skip, split_char, starts_with, take, text, trim_end, trim_start,
};
use crate::workspace::Workspace;

verus! {

// ---------------------------------------------------------------------------
// Where the cursor stands
// ---------------------------------------------------------------------------

/// What can stand at a place.
#[derive(Debug, PartialEq, Eq)]
pub enum Context {
    /// Nothing: a new name stands there.
    Nothing,
    /// A module.
    Modules,
    /// What a module exports.
    Members(String),
    /// What a module declares and can show or hide.
    Objects,
    /// A procedure for an interface.
    Links,
    /// What an interface can import.
    Imports,
    /// A derived type.
    Types,
    /// A procedure of an abstract interface.
    Prototypes,
    /// An attribute of a declaration.
    Attributes,
    /// A variable.
    Variables,
    /// What can be called.
    Calls,
    /// A statement, or any name.
    First,
    /// Any name.
    Any,
    /// A component or a binding of what the name before `%` stands for.
    Component(String),
    /// Any name that is known anywhere in the file.
    Whole,
}

impl DeepView for Context {
    type V = sco::Context;

    open spec fn deep_view(&self) -> sco::Context {
        match self {
            Context::Nothing => sco::Context::Nothing,
            Context::Modules => sco::Context::Modules,
            Context::Members(module) => sco::Context::Members(module@),
            Context::Objects => sco::Context::Objects,
            Context::Links => sco::Context::Links,
            Context::Imports => sco::Context::Imports,
            Context::Types => sco::Context::Types,
            Context::Prototypes => sco::Context::Prototypes,
            Context::Attributes => sco::Context::Attributes,
            Context::Variables => sco::Context::Variables,
            Context::Calls => sco::Context::Calls,
            Context::First => sco::Context::First,
            Context::Any => sco::Context::Any,
            Context::Component(name) => sco::Context::Component(name@),
            Context::Whole => sco::Context::Whole,
        }
    }
}

/// The name before the `%` that stands before the last name of a text.
fn receiver(head: &[char]) -> (r: Option<String>)
    ensures
        r.deep_view() == sco::receiver(head@),
{
    let before = trim_end(take(head, name_begin(head, head.len())));
    if ends_with_char(before, '%') {
        let shorter = take(before, before.len() - 1);
        assert(shorter@ =~= before@.drop_last());
        let prefix = trim_end(shorter);
        let name = skip(prefix, name_begin(prefix, prefix.len()));
        if name.len() == 0 {
            None
        } else {
            Some(text(name))
        }
    } else {
        None
    }
}

/// The name before the parenthesis that is open at the end of a text.
fn opening_word<'a>(head: &'a [char]) -> (r: Option<&'a [char]>)
    ensures
        st::slice(r) == sco::opening_word(head@),
{
    match find_unclosed_call_paren(head) {
        Some(i) => {
            let before = trim_end(take(head, i));
            Some(skip(before, name_begin(before, before.len())))
        },
        None => None,
    }
}

/// What can stand behind an open parenthesis, where the name before it says.
fn opening_context(head: &[char]) -> (r: Option<Context>)
    ensures
        r.deep_view() == sco::opening_context(head@),
{
    match opening_word(head) {
        Some(word) => if same_word(word, "type") || same_word(word, "class") || same_word(
            word,
            "extends",
        ) {
            Some(Context::Types)
        } else if same_word(word, "procedure") {
            Some(Context::Prototypes)
        } else {
            None
        },
        None => None,
    }
}

/// What can stand in a `use` statement.
fn use_context(rest: &[char]) -> (r: Context)
    ensures
        r.deep_view() == sco::use_context(rest@),
{
    match first_ident(after_use_nature(rest)) {
        Some(module) => {
            let small = lower(rest);
            if contains(small.as_slice(), "only") {
                Context::Members(text(module))
            } else {
                Context::Modules
            }
        },
        None => Context::Modules,
    }
}

/// What the first words of a statement say of what can stand there.
fn keyword_context(head: &[char]) -> (r: Option<Context>)
    ensures
        r.deep_view() == sco::keyword_context(head@),
{
    match after_keyword(head, "use") {
        Some(rest) => Some(use_context(rest)),
        None => if after_keyword(head, "public").is_some() || after_keyword(
            head,
            "private",
        ).is_some() {
            Some(Context::Objects)
        } else if after_keywords(head, "module", "procedure").is_some() {
            Some(Context::Links)
        } else if after_keyword(head, "import").is_some() {
            Some(Context::Imports)
        } else {
            None
        },
    }
}

/// Whether a statement declares variables.
fn is_declaration(head: &[char]) -> (r: bool)
    ensures
        r == sco::is_declaration(head@),
{
    match first_ident(head) {
        Some(word) => {
            let small = lower(word);
            is_declaration_keyword(text(small.as_slice()).as_str())
        },
        None => false,
    }
}

/// What can stand at the end of a statement.
fn statement_context(head: &[char]) -> (r: Context)
    ensures
        r.deep_view() == sco::statement_context(head@),
{
    if first_ident_is(head, "end") || parse_scope_start(head).is_some() {
        return Context::Nothing;
    }
    let declares: bool = is_declaration(head);
    if declares && contains(head, "::") {
        Context::Variables
    } else if declares && contains(head, ",") {
        Context::Attributes
    } else if after_keyword(head, "call").is_some() && opening_word(head).is_none() {
        Context::Calls
    } else if name_end(head, 0) == head.len() {
        Context::First
    } else {
        Context::Any
    }
}

/// What can stand at the end of the text before the cursor.
pub fn context(line: &[char]) -> (r: Context)
    ensures
        r.deep_view() == sco::context(line@),
{
    let head = trim_start(line);
    if let Some(name) = receiver(head) {
        return Context::Component(name);
    }
    if let Some(c) = keyword_context(head) {
        return c;
    }
    match opening_context(head) {
        Some(c) => c,
        None => statement_context(head),
    }
}

/// The scope around a position.
pub fn scope_at(symbols: &Vec<Symbol>, pos: Position) -> (r: Vec<String>)
    ensures
        r.deep_view() == sco::scope_at(symbols.deep_view(), pos),
{
    let ghost all = symbols.deep_view();
    let mut found: Vec<String> = empty();
    let mut i: usize = 0;
    while i < symbols.len()
        invariant
            i <= symbols@.len(),
            all == symbols.deep_view(),
            sco::scope_at(all, pos) == sco::scope_from(all, pos, i as int, found.deep_view()),
        decreases symbols@.len() - i,
    {
        let s = &symbols[i];
        assert(all[i as int] == s.deep_view());
        assert(s.deep_view().scope.len() == s.scope@.len());
        assert(found.deep_view().len() == found@.len());
        if s.kind.is_scope() && !is_link(s) && s.range.contains(pos) && s.scope.len()
            >= found.len() {
            found = inner_scope(s);
        }
        i = i + 1;
    }
    found
}

// ---------------------------------------------------------------------------
// Items
// ---------------------------------------------------------------------------

/// Whether a label starts with a prefix, case aside.
fn starts(label: &str, prefix: &str) -> (r: bool)
    ensures
        r == sco::starts(label@, prefix@),
{
    let l = chars(label);
    let p = chars(prefix);
    let x = lower(l.as_slice());
    let y = lower(p.as_slice());
    starts_with(x.as_slice(), y.as_slice())
}

/// Puts an item behind the others if its label starts with a prefix.
fn offer(out: &mut Vec<CompletionItem>, prefix: &str, item: CompletionItem)
    ensures
        final(out).deep_view() == sco::offer(old(out).deep_view(), prefix@, item.deep_view()),
{
    if starts(item.label.as_str(), prefix) {
        put(out, item);
    }
}

/// The item for a symbol.
fn item(label: &str, s: &Symbol) -> (r: CompletionItem)
    ensures
        r.deep_view() == sco::item(label@, s.deep_view()),
{
    CompletionItem {
        label: owned(label),
        detail: s.signature.clone(),
        kind: s.kind,
        documentation: match &s.documentation {
            Some(docs) => Some(docs.clone()),
            None => None,
        },
    }
}

/// The item for an intrinsic symbol.
fn intrinsic_item(label: &str, x: &IntrinsicSymbol) -> (r: CompletionItem)
    ensures
        r.deep_view() == sco::intrinsic_item(label@, x.deep_view()),
{
    let c = IntrinsicCompletion::from_symbol(x);
    CompletionItem {
        label: owned(label),
        detail: c.detail,
        kind: c.kind,
        documentation: c.documentation,
    }
}

/// Whether an intrinsic symbol can stand at a place.
fn intrinsic_fits(c: &Context, x: &IntrinsicSymbol) -> (r: bool)
    ensures
        r == sco::intrinsic_fits(c.deep_view(), x.deep_view()),
{
    match c {
        Context::Calls => x.kind == IntrinsicKind::Subroutine,
        Context::First => true,
        Context::Any => true,
        Context::Whole => true,
        _ => false,
    }
}

/// The first member of an intrinsic module with a name.
pub fn member<'a>(table: &'a Vec<IntrinsicSymbol>, module: &str, name: &str) -> (r: Option<
    &'a IntrinsicSymbol,
>)
    ensures
        match sco::member_from(table.deep_view(), module@, name@, 0) {
            Some(k) => 0 <= k < table@.len() && r == Some(&table@[k]),
            None => r is None,
        },
{
    let ghost all = table.deep_view();
    let mut i: usize = 0;
    while i < table.len()
        invariant
            i <= table@.len(),
            all == table.deep_view(),
            sco::member_from(table.deep_view(), module@, name@, 0) == sco::member_from(
                all,
                module@,
                name@,
                i as int,
            ),
        decreases table@.len() - i,
    {
        assert(all[i as int] == table@[i as int].deep_view());
        if is_of_module(&table[i], module) && same_text(table[i].name.as_str(), name) {
            return Some(&table[i]);
        }
        i = i + 1;
    }
    None
}

/// Adds the items for the names that a `use` statement takes from an intrinsic
/// module.
fn put_named(
    table: &Vec<IntrinsicSymbol>,
    c: &Context,
    prefix: &str,
    module: &str,
    names: &Vec<(String, String)>,
    out: &mut Vec<CompletionItem>,
)
    ensures
        final(out).deep_view() == sco::named_items(
            table.deep_view(),
            c.deep_view(),
            prefix@,
            module@,
            names.deep_view(),
            0,
            old(out).deep_view(),
        ),
{
    let ghost all = names.deep_view();
    let ghost wanted = sco::named_items(
        table.deep_view(),
        c.deep_view(),
        prefix@,
        module@,
        all,
        0,
        out.deep_view(),
    );
    let mut j: usize = 0;
    while j < names.len()
        invariant
            j <= names@.len(),
            all == names.deep_view(),
            wanted == sco::named_items(
                table.deep_view(),
                c.deep_view(),
                prefix@,
                module@,
                all,
                j as int,
                out.deep_view(),
            ),
        decreases names@.len() - j,
    {
        assert(all[j as int] == names@[j as int].deep_view());
        if let Some(x) = member(table, module, names[j].1.as_str()) {
            if intrinsic_fits(c, x) {
                offer(out, prefix, intrinsic_item(names[j].0.as_str(), x));
            }
        }
        j = j + 1;
    }
}

/// Adds the items for the members of an intrinsic module.
fn put_members(
    table: &Vec<IntrinsicSymbol>,
    c: &Context,
    fits: bool,
    prefix: &str,
    module: &str,
    out: &mut Vec<CompletionItem>,
)
    ensures
        final(out).deep_view() == sco::member_items(
            table.deep_view(),
            c.deep_view(),
            fits,
            prefix@,
            module@,
            0,
            old(out).deep_view(),
        ),
{
    let ghost all = table.deep_view();
    let ghost wanted = sco::member_items(
        all,
        c.deep_view(),
        fits,
        prefix@,
        module@,
        0,
        out.deep_view(),
    );
    let mut i: usize = 0;
    while i < table.len()
        invariant
            i <= table@.len(),
            all == table.deep_view(),
            wanted == sco::member_items(
                all,
                c.deep_view(),
                fits,
                prefix@,
                module@,
                i as int,
                out.deep_view(),
            ),
        decreases table@.len() - i,
    {
        assert(all[i as int] == table@[i as int].deep_view());
        if is_of_module(&table[i], module) && (!fits || intrinsic_fits(c, &table[i])) {
            offer(out, prefix, intrinsic_item(table[i].name.as_str(), &table[i]));
        }
        i = i + 1;
    }
}

/// Whether an intrinsic symbol is known everywhere and can stand at a place.
fn is_offered(c: &Context, x: &IntrinsicSymbol) -> (r: bool)
    ensures
        r == sco::is_offered(c.deep_view(), x.deep_view()),
{
    match c {
        Context::Modules => x.kind == IntrinsicKind::Module,
        _ => x.module.is_none() && x.kind != IntrinsicKind::Module && intrinsic_fits(c, x),
    }
}

/// Adds the items for the intrinsic symbols.
fn put_intrinsics(
    table: &Vec<IntrinsicSymbol>,
    c: &Context,
    prefix: &str,
    out: &mut Vec<CompletionItem>,
)
    ensures
        final(out).deep_view() == sco::intrinsic_items(
            table.deep_view(),
            c.deep_view(),
            prefix@,
            0,
            old(out).deep_view(),
        ),
{
    let ghost all = table.deep_view();
    let ghost wanted = sco::intrinsic_items(all, c.deep_view(), prefix@, 0, out.deep_view());
    let mut i: usize = 0;
    while i < table.len()
        invariant
            i <= table@.len(),
            all == table.deep_view(),
            wanted == sco::intrinsic_items(
                all,
                c.deep_view(),
                prefix@,
                i as int,
                out.deep_view(),
            ),
        decreases table@.len() - i,
    {
        assert(all[i as int] == table@[i as int].deep_view());
        if is_offered(c, &table[i]) {
            offer(out, prefix, intrinsic_item(table[i].name.as_str(), &table[i]));
        }
        i = i + 1;
    }
}

/// The directive that defines a macro.
fn directive(name: &str, value: &str) -> (r: String)
    ensures
        r@ == sco::directive(name@, value@),
{
    let mut out = owned("#define ");
    push_text(&mut out, name);
    let v = chars(value);
    if v.len() > 0 {
        push_text(&mut out, " ");
        push_text(&mut out, value);
    }
    out
}

/// The text that is shown for a macro.
pub fn macro_markdown(name: &str, value: &str) -> (r: String)
    ensures
        r@ == sco::macro_markdown(name@, value@),
{
    about("```fortran\n", directive(name, value).as_str(), "\n```")
}

/// Adds the items for macros.
fn put_macros(macros: &Table<String, String>, prefix: &str, out: &mut Vec<CompletionItem>)
    ensures
        final(out).deep_view() == sco::macro_items(
            macros.deep_view(),
            prefix@,
            0,
            old(out).deep_view(),
        ),
{
    let ghost all = macros.deep_view();
    let ghost wanted = sco::macro_items(all, prefix@, 0, out.deep_view());
    let mut i: usize = 0;
    while i < macros.entries.len()
        invariant
            i <= macros.entries@.len(),
            all == macros.deep_view(),
            wanted == sco::macro_items(all, prefix@, i as int, out.deep_view()),
        decreases macros.entries@.len() - i,
    {
        assert(all[i as int] == macros.entries@[i as int].deep_view());
        let name = macros.entries[i].0.as_str();
        let value = macros.entries[i].1.as_str();
        offer(
            out,
            prefix,
            CompletionItem {
                label: owned(name),
                detail: directive(name, value),
                kind: SymbolKind::Variable,
                documentation: Some(macro_markdown(name, value)),
            },
        );
        i = i + 1;
    }
}

/// Adds the items for the words that single blanks separate.
fn put_words(list: &str, prefix: &str, out: &mut Vec<CompletionItem>)
    ensures
        final(out).deep_view() == sco::words(list@, prefix@, old(out).deep_view()),
{
    let l = chars(list);
    let words = split_char(l.as_slice(), ' ');
    let ghost all = words.deep_view();
    let ghost wanted = sco::word_items(all, prefix@, 0, out.deep_view());
    let mut i: usize = 0;
    while i < words.len()
        invariant
            i <= words@.len(),
            all == words.deep_view(),
            wanted == sco::word_items(all, prefix@, i as int, out.deep_view()),
        decreases words@.len() - i,
    {
        assert(all[i as int] == words@[i as int]@);
        offer(
            out,
            prefix,
            CompletionItem {
                label: words[i].clone(),
                detail: owned("keyword"),
                kind: SymbolKind::Use,
                documentation: None,
            },
        );
        i = i + 1;
    }
}

/// The kind of the symbol that opens a scope.
fn owner_kind(symbols: &Vec<Symbol>, scope: &Vec<String>) -> (r: Option<SymbolKind>)
    ensures
        r == sco::owner_kind(symbols.deep_view(), scope.deep_view()),
{
    let n: usize = scope.len();
    assert(scope.deep_view().len() == n);
    if n == 0 {
        return None;
    }
    let outer = outer_scopes(scope, n - 1);
    assert(outer.deep_view() =~= scope.deep_view().drop_last());
    assert(scope.deep_view().last() == scope@[n - 1]@);
    match symbol_in(symbols, &outer, scope[n - 1].as_str()) {
        Some(k) => {
            assert(symbols.deep_view()[k as int] == symbols@[k as int].deep_view());
            Some(symbols[k].kind)
        },
        None => None,
    }
}

/// The items for the attributes that a declaration in a scope can have.
fn attribute_items(symbols: &Vec<Symbol>, scope: &Vec<String>, prefix: &str) -> (r: Vec<
    CompletionItem,
>)
    ensures
        r.deep_view() == sco::attribute_items(symbols.deep_view(), scope.deep_view(), prefix@),
{
    let common =
        "allocatable asynchronous bind contiguous dimension external intrinsic parameter pointer private protected public save target volatile";
    let mut out: Vec<CompletionItem> = empty();
    match owner_kind(symbols, scope) {
        Some(kind) => if kind == SymbolKind::Type {
            put_words(
                "allocatable contiguous deferred dimension non_overridable nopass pass pointer private public",
                prefix,
                &mut out,
            );
        } else if kind.is_procedure() {
            put_words(common, prefix, &mut out);
            put_words("intent optional value", prefix, &mut out);
        } else {
            put_words(common, prefix, &mut out);
        },
        None => {
            put_words(common, prefix, &mut out);
        },
    }
    out
}

// ---------------------------------------------------------------------------
// Components
// ---------------------------------------------------------------------------

/// Whether an item has a label, case aside.
fn has_label(out: &Vec<CompletionItem>, label: &str) -> (r: bool)
    ensures
        r == sco::has_label(out.deep_view(), label@),
{
    let ghost all = out.deep_view();
    let mut i: usize = 0;
    while i < out.len()
        invariant
            i <= out@.len(),
            all == out.deep_view(),
            forall|k: int| 0 <= k < i ==> !st::same((#[trigger] all[k]).label, label@),
        decreases out@.len() - i,
    {
        assert(all[i as int] == out@[i as int].deep_view());
        if same_text(out[i].label.as_str(), label) {
            return true;
        }
        i = i + 1;
    }
    false
}

/// Puts an item behind the others if its label starts with a prefix and is not
/// there yet.
fn offer_once(out: &mut Vec<CompletionItem>, prefix: &str, item: CompletionItem)
    ensures
        final(out).deep_view() == sco::offer_once(old(out).deep_view(), prefix@, item.deep_view()),
{
    if !has_label(out, item.label.as_str()) {
        offer(out, prefix, item);
    }
}

/// Adds the items for the parts of a type.
fn put_parts(symbols: &Vec<Symbol>, t: &Symbol, prefix: &str, out: &mut Vec<CompletionItem>)
    ensures
        final(out).deep_view() == sco::part_items(
            symbols.deep_view(),
            t.deep_view(),
            prefix@,
            0,
            old(out).deep_view(),
        ),
{
    let ghost all = symbols.deep_view();
    let inner = inner_scope(t);
    let ghost wanted = sco::part_items(all, t.deep_view(), prefix@, 0, out.deep_view());
    let mut k: usize = 0;
    while k < symbols.len()
        invariant
            k <= symbols@.len(),
            all == symbols.deep_view(),
            inner.deep_view() == t.deep_view().scope.push(t.name@),
            wanted == sco::part_items(all, t.deep_view(), prefix@, k as int, out.deep_view()),
        decreases symbols@.len() - k,
    {
        let s = &symbols[k];
        assert(all[k as int] == s.deep_view());
        if (s.kind == SymbolKind::Variable || s.kind == SymbolKind::Method) && s.visibility
            != Visibility::Private && eq_scopes(&s.scope, &inner) {
            offer_once(out, prefix, item(s.name.as_str(), s));
        }
        k = k + 1;
    }
}

fn generic_item(b: &GenericBinding) -> (r: CompletionItem)
    ensures
        r.deep_view() == sco::generic_item(b.deep_view()),
{
    let names = b.procedures.as_slice();
    assert(names.deep_view() =~= b.procedures.deep_view());
    let mut detail = owned("generic binding => ");
    push_text(&mut detail, join(names, ", ").as_str());
    CompletionItem {
        label: b.name.clone(),
        detail,
        kind: SymbolKind::Method,
        documentation: None,
    }
}

/// Adds the items for the generic bindings of a type.
fn put_generics(
    list: &Vec<GenericBinding>,
    t: &Symbol,
    prefix: &str,
    out: &mut Vec<CompletionItem>,
)
    ensures
        final(out).deep_view() == sco::generic_items(
            list.deep_view(),
            t.deep_view(),
            prefix@,
            0,
            old(out).deep_view(),
        ),
{
    let ghost all = list.deep_view();
    let inner = inner_scope(t);
    let ghost wanted = sco::generic_items(all, t.deep_view(), prefix@, 0, out.deep_view());
    let mut k: usize = 0;
    while k < list.len()
        invariant
            k <= list@.len(),
            all == list.deep_view(),
            inner.deep_view() == t.deep_view().scope.push(t.name@),
            wanted == sco::generic_items(all, t.deep_view(), prefix@, k as int, out.deep_view()),
        decreases list@.len() - k,
    {
        let b = &list[k];
        assert(all[k as int] == b.deep_view());
        if b.visibility != Visibility::Private && eq_scopes(&b.scope, &inner) {
            offer_once(out, prefix, generic_item(b));
        }
        k = k + 1;
    }
}

// ---------------------------------------------------------------------------
// In the workspace
// ---------------------------------------------------------------------------

impl Workspace {
    /// Whether the kind of a symbol is one that can stand at a place.
    fn kind_fits(&self, c: &Context, t: SymbolRef) -> (r: bool)
        requires
            crate::bindings::holds(self.index.files@, t),
        ensures
            r == sco::kind_fits(self.deep_view(), c.deep_view(), t.model()),
    {
        let s = self.symbol(t);
        assert(self.deep_view().index.files[t.file as int]
            == self.index.files@[t.file as int].deep_view());
        match c {
            Context::Types => s.kind == SymbolKind::Type,
            Context::Variables => s.kind == SymbolKind::Variable,
            Context::Calls => s.kind == SymbolKind::Subroutine || s.kind == SymbolKind::Interface,
            Context::Prototypes => s.kind.is_procedure() && in_abstract(
                &self.index.files[t.file].symbols,
                s.selection_range.start,
            ),
            Context::First => true,
            Context::Any => true,
            Context::Whole => true,
            _ => false,
        }
    }

    /// Whether a name stands for a symbol in a scope.
    fn leads_to(&self, f: usize, scope: &Vec<String>, name: &str, t: SymbolRef) -> (r: bool)
        requires
            f < self.index.files@.len(),
        ensures
            r == (sv::lookup(self.deep_view(), f as int, scope.deep_view(), name@) == Some(
                t.model(),
            )),
    {
        match self.lookup(f, scope, name) {
            Some(found) => found.file == t.file && found.symbol == t.symbol,
            None => false,
        }
    }

    /// Whether one of the `use` statements makes a symbol known under a name.
    fn used_anywhere(&self, f: usize, t: SymbolRef, name: &str) -> (r: bool)
        requires
            f < self.index.files@.len(),
        ensures
            r == sco::used_anywhere(self.deep_view(), f as int, t.model(), name@),
    {
        let ghost ws = self.deep_view();
        let p = &self.index.files[f];
        assert(ws.index.files[f as int] == p.deep_view());
        let ghost all = p.deep_view().uses;
        let mut i: usize = 0;
        while i < p.uses.len()
            invariant
                i <= p.uses@.len(),
                f < self.index.files@.len(),
                ws == self.deep_view(),
                ws.index.files[f as int] == p.deep_view(),
                all == p.deep_view().uses,
                forall|k: int|
                    0 <= k < i ==> #[trigger] sv::lookup(ws, f as int, all[k].scope, name@)
                        != Some(t.model()),
            decreases p.uses@.len() - i,
        {
            assert(all[i as int] == p.uses@[i as int].deep_view());
            if self.leads_to(f, &p.uses[i].scope, name, t) {
                assert(sv::lookup(ws, f as int, ws.index.files[f as int].uses[i as int].scope, name@)
                    == Some(t.model()));
                return true;
            }
            i = i + 1;
        }
        false
    }

    /// Whether a file that is taken in anywhere makes a symbol known under a
    /// name.
    fn included_anywhere(&self, f: usize, t: SymbolRef, name: &str) -> (r: bool)
        requires
            f < self.index.files@.len(),
        ensures
            r == sco::included_anywhere(self.deep_view(), f as int, t.model(), name@),
    {
        let ghost ws = self.deep_view();
        let p = &self.index.files[f];
        assert(ws.index.files[f as int] == p.deep_view());
        let ghost all = p.deep_view().includes;
        let mut i: usize = 0;
        while i < p.includes.len()
            invariant
                i <= p.includes@.len(),
                f < self.index.files@.len(),
                ws == self.deep_view(),
                ws.index.files[f as int] == p.deep_view(),
                all == p.deep_view().includes,
                forall|k: int|
                    0 <= k < i ==> #[trigger] sv::lookup(ws, f as int, all[k].scope, name@)
                        != Some(t.model()),
            decreases p.includes@.len() - i,
        {
            assert(all[i as int] == p.includes@[i as int].deep_view());
            if self.leads_to(f, &p.includes[i].scope, name, t) {
                assert(sv::lookup(
                    ws,
                    f as int,
                    ws.index.files[f as int].includes[i as int].scope,
                    name@,
                ) == Some(t.model()));
                return true;
            }
            i = i + 1;
        }
        false
    }

    /// Whether a symbol is known under its name.
    fn is_visible(&self, f: usize, scope: &Vec<String>, c: &Context, t: SymbolRef) -> (r: bool)
        requires
            f < self.index.files@.len(),
            crate::bindings::holds(self.index.files@, t),
        ensures
            r == sco::is_visible(
                self.deep_view(),
                f as int,
                scope.deep_view(),
                c.deep_view(),
                t.model(),
            ),
    {
        let name = self.symbol(t).name.as_str();
        match c {
            Context::Whole => t.file == f || self.used_anywhere(f, t, name)
                || self.included_anywhere(f, t, name),
            _ => self.leads_to(f, scope, name, t),
        }
    }

    /// Whether a symbol of the file itself stands in a scope.
    fn is_own(&self, f: usize, scope: &Vec<String>, t: SymbolRef) -> (r: bool)
        requires
            crate::bindings::holds(self.index.files@, t),
        ensures
            r == sco::is_own(self.deep_view(), f as int, scope.deep_view(), t.model()),
    {
        t.file == f && eq_scopes(&self.symbol(t).scope, scope)
    }

    /// Whether a symbol can stand at a place under its own name.
    fn can_stand(&self, f: usize, scope: &Vec<String>, c: &Context, t: SymbolRef) -> (r: bool)
        requires
            f < self.index.files@.len(),
            crate::bindings::holds(self.index.files@, t),
        ensures
            r == sco::can_stand(
                self.deep_view(),
                f as int,
                scope.deep_view(),
                c.deep_view(),
                t.model(),
            ),
    {
        let s = self.symbol(t);
        assert(scope.deep_view().len() == scope@.len());
        match c {
            Context::Modules => s.kind == SymbolKind::Module,
            Context::Members(module) => match self.index.exported(
                module.as_str(),
                s.name.as_str(),
            ) {
                Some(found) => found.file == t.file && found.symbol == t.symbol,
                None => false,
            },
            Context::Objects => self.is_own(f, scope, t) && !is_link(s) && (s.kind
                == SymbolKind::Variable || s.kind == SymbolKind::Type || s.kind.is_procedure()),
            Context::Links => {
                let n: usize = scope.len();
                if n == 0 {
                    false
                } else {
                    let outer = outer_scopes(scope, n - 1);
                    assert(outer.deep_view() =~= scope.deep_view().drop_last());
                    self.is_own(f, &outer, t) && !is_link(s) && s.kind.is_procedure()
                }
            },
            Context::Imports => {
                assert(self.deep_view().index.files[f as int]
                    == self.index.files@[f as int].deep_view());
                let n: usize = host_level(&self.index.files[f].symbols, scope);
                self.is_own(f, &outer_scopes(scope, n), t) && (s.kind == SymbolKind::Variable
                    || s.kind == SymbolKind::Type)
            },
            _ => self.kind_fits(c, t) && self.is_visible(f, scope, c, t),
        }
    }

    /// Adds the items for the symbols of a file.
    fn put_symbols(
        &self,
        f: usize,
        scope: &Vec<String>,
        c: &Context,
        prefix: &str,
        g: usize,
        out: &mut Vec<CompletionItem>,
    )
        requires
            f < self.index.files@.len(),
            g < self.index.files@.len(),
        ensures
            final(out).deep_view() == sco::symbol_items(
                self.deep_view(),
                f as int,
                scope.deep_view(),
                c.deep_view(),
                prefix@,
                g as int,
                0,
                old(out).deep_view(),
            ),
    {
        let ghost ws = self.deep_view();
        let symbols = &self.index.files[g].symbols;
        assert(ws.index.files[g as int] == self.index.files@[g as int].deep_view());
        let ghost all = symbols.deep_view();
        let ghost wanted = sco::symbol_items(
            ws,
            f as int,
            scope.deep_view(),
            c.deep_view(),
            prefix@,
            g as int,
            0,
            out.deep_view(),
        );
        let mut k: usize = 0;
        while k < symbols.len()
            invariant
                k <= symbols@.len(),
                f < self.index.files@.len(),
                g < self.index.files@.len(),
                symbols == self.index.files@[g as int].symbols,
                ws == self.deep_view(),
                all == symbols.deep_view(),
                all == ws.index.files[g as int].symbols,
                wanted == sco::symbol_items(
                    ws,
                    f as int,
                    scope.deep_view(),
                    c.deep_view(),
                    prefix@,
                    g as int,
                    k as int,
                    out.deep_view(),
                ),
            decreases symbols@.len() - k,
        {
            let s = &symbols[k];
            assert(all[k as int] == s.deep_view());
            if starts(s.name.as_str(), prefix) && self.can_stand(
                f,
                scope,
                c,
                SymbolRef { file: g, symbol: k },
            ) {
                put(out, item(s.name.as_str(), s));
            }
            k = k + 1;
        }
    }

    /// Adds the items for the new names that a `use` statement gives.
    fn put_renames(
        &self,
        f: usize,
        scope: &Vec<String>,
        c: &Context,
        prefix: &str,
        u: &UseStmt,
        out: &mut Vec<CompletionItem>,
    )
        requires
            f < self.index.files@.len(),
        ensures
            final(out).deep_view() == sco::rename_items(
                self.deep_view(),
                f as int,
                scope.deep_view(),
                c.deep_view(),
                prefix@,
                u.deep_view(),
                0,
                old(out).deep_view(),
            ),
    {
        let ghost ws = self.deep_view();
        let ghost all = u.deep_view().renames;
        let ghost wanted = sco::rename_items(
            ws,
            f as int,
            scope.deep_view(),
            c.deep_view(),
            prefix@,
            u.deep_view(),
            0,
            out.deep_view(),
        );
        let place = match c {
            Context::Whole => &u.scope,
            _ => scope,
        };
        let mut j: usize = 0;
        while j < u.renames.len()
            invariant
                j <= u.renames@.len(),
                f < self.index.files@.len(),
                ws == self.deep_view(),
                all == u.deep_view().renames,
                place.deep_view() == (if c.deep_view() is Whole {
                    u.deep_view().scope
                } else {
                    scope.deep_view()
                }),
                wanted == sco::rename_items(
                    ws,
                    f as int,
                    scope.deep_view(),
                    c.deep_view(),
                    prefix@,
                    u.deep_view(),
                    j as int,
                    out.deep_view(),
                ),
            decreases u.renames@.len() - j,
        {
            assert(all[j as int] == u.renames@[j as int].deep_view());
            let local = u.renames[j].local.as_str();
            if let Some(found) = self.lookup(f, place, local) {
                if starts(local, prefix) && self.kind_fits(c, found) && !same_text(
                    self.symbol(found).name.as_str(),
                    local,
                ) {
                    put(out, item(local, self.symbol(found)));
                }
            }
            j = j + 1;
        }
    }

    /// Adds the items for what a `use` statement makes known.
    fn put_use(
        &self,
        f: usize,
        scope: &Vec<String>,
        c: &Context,
        prefix: &str,
        u: &UseStmt,
        out: &mut Vec<CompletionItem>,
    )
        requires
            f < self.index.files@.len(),
        ensures
            final(out).deep_view() == sco::use_items(
                self.deep_view(),
                f as int,
                scope.deep_view(),
                c.deep_view(),
                prefix@,
                u.deep_view(),
                old(out).deep_view(),
            ),
    {
        let whole: bool = match c {
            Context::Whole => true,
            _ => false,
        };
        if !whole && !is_level_from(scope, &u.scope, 0) {
            return ;
        }
        assert(u.deep_view().only.len() == u.only@.len());
        let module = u.module.as_str();
        if self.index.is_intrinsic_module(module) && (u.intrinsic || module_file(
            &self.index.files,
            module,
        ).is_none()) {
            put_named(&self.index.intrinsics, c, prefix, module, &named_items(u), out);
            if u.only.len() == 0 {
                put_members(&self.index.intrinsics, c, true, prefix, module, out);
            }
        } else {
            self.put_renames(f, scope, c, prefix, u, out);
        }
    }

    /// Adds the items for the `use` statements of the file.
    fn put_uses(
        &self,
        f: usize,
        scope: &Vec<String>,
        c: &Context,
        prefix: &str,
        out: &mut Vec<CompletionItem>,
    )
        requires
            f < self.index.files@.len(),
        ensures
            final(out).deep_view() == sco::uses_items(
                self.deep_view(),
                f as int,
                scope.deep_view(),
                c.deep_view(),
                prefix@,
                0,
                old(out).deep_view(),
            ),
    {
        let ghost ws = self.deep_view();
        let p = &self.index.files[f];
        assert(ws.index.files[f as int] == p.deep_view());
        let ghost wanted = sco::uses_items(
            ws,
            f as int,
            scope.deep_view(),
            c.deep_view(),
            prefix@,
            0,
            out.deep_view(),
        );
        let mut i: usize = 0;
        while i < p.uses.len()
            invariant
                i <= p.uses@.len(),
                f < self.index.files@.len(),
                ws == self.deep_view(),
                ws.index.files[f as int] == p.deep_view(),
                wanted == sco::uses_items(
                    ws,
                    f as int,
                    scope.deep_view(),
                    c.deep_view(),
                    prefix@,
                    i as int,
                    out.deep_view(),
                ),
            decreases p.uses@.len() - i,
        {
            assert(p.deep_view().uses[i as int] == p.uses@[i as int].deep_view());
            self.put_use(f, scope, c, prefix, &p.uses[i], out);
            i = i + 1;
        }
    }

    /// The items for a place where names stand.
    fn name_items(&self, f: usize, scope: &Vec<String>, c: &Context, prefix: &str) -> (r: Vec<
        CompletionItem,
    >)
        requires
            f < self.index.files@.len(),
        ensures
            r.deep_view() == sco::name_items(
                self.deep_view(),
                f as int,
                scope.deep_view(),
                c.deep_view(),
                prefix@,
            ),
    {
        let ghost ws = self.deep_view();
        let mut out: Vec<CompletionItem> = empty();
        let ghost wanted = sco::file_items(
            ws,
            f as int,
            scope.deep_view(),
            c.deep_view(),
            prefix@,
            0,
            Seq::empty(),
        );
        let mut g: usize = 0;
        assert(ws.index.files.len() == self.index.files@.len());
        while g < self.index.files.len()
            invariant
                g <= self.index.files@.len(),
                f < self.index.files@.len(),
                ws == self.deep_view(),
                ws.index.files.len() == self.index.files@.len(),
                wanted == sco::file_items(
                    ws,
                    f as int,
                    scope.deep_view(),
                    c.deep_view(),
                    prefix@,
                    g as int,
                    out.deep_view(),
                ),
            decreases self.index.files@.len() - g,
        {
            self.put_symbols(f, scope, c, prefix, g, &mut out);
            g = g + 1;
        }
        self.put_uses(f, scope, c, prefix, &mut out);
        if let Context::Members(module) = c {
            put_members(&self.index.intrinsics, c, false, prefix, module.as_str(), &mut out);
        }
        let macros: bool = match c {
            Context::First => true,
            Context::Any => true,
            Context::Whole => true,
            _ => false,
        };
        if macros {
            assert(ws.index.files[f as int] == self.index.files@[f as int].deep_view());
            put_macros(&self.index.files[f].preprocessor_definitions, prefix, &mut out);
        }
        put_intrinsics(&self.index.intrinsics, c, prefix, &mut out);
        if let Context::First = c {
            put_words(
                "allocate associate backspace block call case close continue cycle deallocate do else endfile error exit flush forall format if inquire nullify open print read return rewind select stop where write",
                prefix,
                &mut out,
            );
        }
        out
    }

    /// The derived type of the variable that a name stands for.
    pub fn type_of(&self, f: usize, scope: &Vec<String>, name: &str) -> (r: Option<SymbolRef>)
        requires
            f < self.index.files@.len(),
        ensures
            crate::resolve::ref_model(r) == sco::type_of(
                self.deep_view(),
                f as int,
                scope.deep_view(),
                name@,
            ),
            crate::resolve::is_valid(self.index.files@, r),
    {
        match self.lookup(f, scope, name) {
            Some(found) => {
                let s = self.symbol(found);
                match variable_type(s) {
                    Some(t) => match derived_type(t.as_str()) {
                        Some(n) => self.lookup_type(found.file, &s.scope, n.as_str()),
                        None => None,
                    },
                    None => None,
                }
            },
            None => None,
        }
    }

    /// The items for what can stand behind `name %`.
    fn component_items(&self, f: usize, scope: &Vec<String>, name: &str, prefix: &str) -> (r: Vec<
        CompletionItem,
    >)
        requires
            f < self.index.files@.len(),
        ensures
            r.deep_view() == sco::component_items(
                self.deep_view(),
                f as int,
                scope.deep_view(),
                name@,
                prefix@,
            ),
    {
        let ghost ws = self.deep_view();
        let mut out: Vec<CompletionItem> = empty();
        let t = match self.type_of(f, scope, name) {
            Some(t) => t,
            None => {
                return out;
            },
        };
        let types = self.chain(t);
        let ghost all = crate::bindings::ref_models(types@);
        let ghost wanted = sco::type_items(ws, all, prefix@, 0, Seq::empty());
        let mut i: usize = 0;
        while i < types.len()
            invariant
                i <= types@.len(),
                ws == self.deep_view(),
                all == crate::bindings::ref_models(types@),
                crate::bindings::all_hold(self.index.files@, types@),
                wanted == sco::type_items(ws, all, prefix@, i as int, out.deep_view()),
            decreases types@.len() - i,
        {
            assert(crate::bindings::holds(self.index.files@, types@[i as int]));
            assert(all[i as int] == types@[i as int].model());
            let s = self.symbol(types[i]);
            let p = &self.index.files[types[i].file];
            assert(ws.index.files[all[i as int].0] == p.deep_view());
            put_parts(&p.symbols, s, prefix, &mut out);
            put_generics(&p.generic_bindings, s, prefix, &mut out);
            i = i + 1;
        }
        out
    }

    /// The items for a place in a scope.
    fn items(&self, f: usize, scope: &Vec<String>, c: &Context, prefix: &str) -> (r: Vec<
        CompletionItem,
    >)
        requires
            f < self.index.files@.len(),
        ensures
            r.deep_view() == sco::items(
                self.deep_view(),
                f as int,
                scope.deep_view(),
                c.deep_view(),
                prefix@,
            ),
    {
        match c {
            Context::Nothing => empty(),
            Context::Component(name) => self.component_items(f, scope, name.as_str(), prefix),
            Context::Attributes => {
                assert(self.deep_view().index.files[f as int]
                    == self.index.files@[f as int].deep_view());
                attribute_items(&self.index.files[f].symbols, scope, prefix)
            },
            _ => self.name_items(f, scope, c, prefix),
        }
    }

    /// What can be put at a position of a file.
    pub fn completions_at(&self, path: &str, pos: Position, prefix: &str) -> (r: Vec<
        CompletionItem,
    >)
        ensures
            r.deep_view() == sco::completions_at(self.deep_view(), path@, pos, prefix@),
    {
        match self.file_number(path) {
            Some(f) => {
                let p = &self.index.files[f];
                assert(self.deep_view().index.files[f as int] == p.deep_view());
                let scope = scope_at(&p.symbols, pos);
                let here = source_line(p.source.as_str(), pos.line);
                let head = take(here.as_slice(), index_of_column(here.as_slice(), pos.character));
                let c = context(head);
                self.items(f, &scope, &c, prefix)
            },
            None => empty(),
        }
    }

    /// What can be put anywhere in a file.
    pub fn completions(&self, path: &str, prefix: &str) -> (r: Vec<CompletionItem>)
        ensures
            r.deep_view() == sco::completions(self.deep_view(), path@, prefix@),
    {
        match self.file_number(path) {
            Some(f) => self.items(f, &empty(), &Context::Whole, prefix),
            None => empty(),
        }
    }
}

} // verus!
