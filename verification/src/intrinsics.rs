//! The procedures and modules that every Fortran compiler brings along.

use vstd::prelude::*;

use crate::json::{Json, as_array, as_object, as_signed, as_text, read_json};
use crate::list::{empty, put};
use crate::model::{SymbolKind, Visibility};
use crate::order::{Ordered, sorted, text_not_after, texts_not_after};
use crate::spec::intrinsics as si;
use crate::spec::json as sj;
use crate::spec::order as sr;
use crate::spec::text as st;
use crate::text::{
    chars, copy_option, copy_texts, join, lower, lower_text, no_text, owned, push_text, same_text,
    split_char, starts_with_word, text, trim,
};

verus! {

/// What an intrinsic symbol stands for.
#[derive(Debug, Clone, Copy, PartialEq, Eq, Structural)]
pub enum IntrinsicKind {
    Function,
    Subroutine,
    Module,
    Constant,
    Type,
    Keyword,
}

impl DeepView for IntrinsicKind {
    type V = IntrinsicKind;

    #[verifier::inline]
    open spec fn deep_view(&self) -> IntrinsicKind {
        *self
    }
}

impl IntrinsicKind {
    /// The kind of symbol that it is.
    pub fn symbol_kind(self) -> (r: SymbolKind)
        ensures
            r == si::symbol_kind(self),
    {
        match self {
            IntrinsicKind::Function => SymbolKind::Function,
            IntrinsicKind::Subroutine => SymbolKind::Subroutine,
            IntrinsicKind::Module => SymbolKind::Module,
            IntrinsicKind::Constant => SymbolKind::Variable,
            IntrinsicKind::Type => SymbolKind::Type,
            IntrinsicKind::Keyword => SymbolKind::Variable,
        }
    }

    /// The words for the kind.
    pub fn label(self) -> (r: &'static str)
        ensures
            r@ == si::kind_label(self),
    {
        match self {
            IntrinsicKind::Function => "intrinsic function",
            IntrinsicKind::Subroutine => "intrinsic subroutine",
            IntrinsicKind::Module => "intrinsic module",
            IntrinsicKind::Constant => "intrinsic constant",
            IntrinsicKind::Type => "intrinsic type",
            IntrinsicKind::Keyword => "keyword",
        }
    }
}

fn kind_rank(kind: IntrinsicKind) -> (r: u8)
    ensures
        r == si::kind_rank(kind),
{
    match kind {
        IntrinsicKind::Module => 0,
        IntrinsicKind::Function => 1,
        IntrinsicKind::Subroutine => 2,
        IntrinsicKind::Type => 3,
        IntrinsicKind::Constant => 4,
        IntrinsicKind::Keyword => 5,
    }
}

/// A procedure, a module or a member of a module that a compiler brings along.
#[derive(Debug, PartialEq, Eq)]
pub struct IntrinsicSymbol {
    pub name: String,
    pub kind: IntrinsicKind,
    pub args: Vec<String>,
    pub documentation: String,
    pub module: Option<String>,
}

impl DeepView for IntrinsicSymbol {
    type V = si::IntrinsicSymbol;

    open spec fn deep_view(&self) -> si::IntrinsicSymbol {
        si::IntrinsicSymbol {
            name: self.name@,
            kind: self.kind,
            args: self.args.deep_view(),
            documentation: self.documentation@,
            module: self.module.deep_view(),
        }
    }
}

impl Clone for IntrinsicSymbol {
    fn clone(&self) -> (r: Self)
        ensures
            r.deep_view() == self.deep_view(),
    {
        IntrinsicSymbol {
            name: self.name.clone(),
            kind: self.kind,
            args: copy_texts(&self.args),
            documentation: self.documentation.clone(),
            module: copy_option(&self.module),
        }
    }
}

impl IntrinsicSymbol {
    /// The name, with the arguments of a procedure.
    pub fn signature(&self) -> (r: String)
        ensures
            r@ == si::signature(self.deep_view()),
    {
        let mut out = self.name.clone();
        if self.kind == IntrinsicKind::Function || self.kind == IntrinsicKind::Subroutine {
            let names = self.args.as_slice();
            assert(names.deep_view() =~= self.args.deep_view());
            push_text(&mut out, "(");
            push_text(&mut out, join(names, ", ").as_str());
            push_text(&mut out, ")");
        }
        out
    }

    /// The text that is shown for the symbol.
    pub fn hover_markdown(&self) -> (r: String)
        ensures
            r@ == si::hover_markdown(self.deep_view()),
    {
        let mut out = owned("```fortran\n");
        push_text(&mut out, self.signature().as_str());
        push_text(&mut out, "\n```");
        let documentation = chars(self.documentation.as_str());
        if documentation.len() > 0 {
            push_text(&mut out, "\n\n");
            push_text(&mut out, self.documentation.as_str());
        }
        if let Some(module) = &self.module {
            push_text(&mut out, "\n\nmodule: `");
            push_text(&mut out, module.as_str());
            push_text(&mut out, "`");
        }
        out
    }
}

/// An intrinsic symbol as an editor offers it.
#[derive(Debug, PartialEq, Eq)]
pub struct IntrinsicCompletion {
    pub label: String,
    pub detail: String,
    pub kind: SymbolKind,
    pub documentation: Option<String>,
    pub visibility: Visibility,
}

impl DeepView for IntrinsicCompletion {
    type V = si::IntrinsicCompletion;

    open spec fn deep_view(&self) -> si::IntrinsicCompletion {
        si::IntrinsicCompletion {
            label: self.label@,
            detail: self.detail@,
            kind: self.kind,
            documentation: self.documentation.deep_view(),
            visibility: self.visibility,
        }
    }
}

impl Clone for IntrinsicCompletion {
    fn clone(&self) -> (r: Self)
        ensures
            r.deep_view() == self.deep_view(),
    {
        IntrinsicCompletion {
            label: self.label.clone(),
            detail: self.detail.clone(),
            kind: self.kind,
            documentation: copy_option(&self.documentation),
            visibility: self.visibility,
        }
    }
}

impl IntrinsicCompletion {
    pub fn from_symbol(sym: &IntrinsicSymbol) -> (r: Self)
        ensures
            r.deep_view() == si::completion(sym.deep_view()),
    {
        let documentation = chars(sym.documentation.as_str());
        IntrinsicCompletion {
            label: sym.name.clone(),
            detail: sym.signature(),
            kind: sym.kind.symbol_kind(),
            documentation: if documentation.len() == 0 {
                None
            } else {
                Some(sym.documentation.clone())
            },
            visibility: Visibility::Public,
        }
    }
}

// ---------------------------------------------------------------------------
// Loading
// ---------------------------------------------------------------------------

fn canonical_name(name: &str) -> (r: String)
    ensures
        r@ == si::canonical_name(name@),
{
    let all = chars(name);
    let low = lower(trim(all.as_slice()));
    text(low.as_slice())
}

/// The arguments that commas separate in a text.
fn parse_args(args: Option<&String>) -> (r: Vec<String>)
    ensures
        r.deep_view() == si::parse_args(args.deep_view()),
{
    let all: Vec<char> = match args {
        Some(args) => chars(args.as_str()),
        None => Vec::new(),
    };
    assert(all@ =~= si::text_or_empty(args.deep_view()));
    let parts = split_char(all.as_slice(), ',');
    let mut out: Vec<String> = empty();
    let mut i: usize = 0;
    while i < parts.len()
        invariant
            i <= parts@.len(),
            si::parse_args(args.deep_view()) == si::args_from(
                parts.deep_view(),
                i as int,
                out.deep_view(),
            ),
        decreases parts@.len() - i,
    {
        let part = chars(parts[i].as_str());
        let arg = trim(part.as_slice());
        if arg.len() > 0 {
            put(&mut out, canonical_name(text(arg).as_str()));
        }
        i = i + 1;
    }
    out
}

/// A text, or an empty one.
fn text_or_empty(t: Option<&String>) -> (r: String)
    ensures
        r@ == si::text_or_empty(t.deep_view()),
{
    match t {
        Some(t) => t.clone(),
        None => no_text(),
    }
}

/// The procedure of an entry: a subroutine or a function.
fn procedure(name: &str, item: &Json) -> (r: Option<IntrinsicSymbol>)
    ensures
        r.deep_view() == si::procedure(name@, item.model()),
{
    let kind = match as_signed(item.get("type")) {
        Some(2) => IntrinsicKind::Subroutine,
        Some(3) => IntrinsicKind::Function,
        _ => {
            return None;
        },
    };
    Some(
        IntrinsicSymbol {
            name: canonical_name(name),
            kind,
            args: parse_args(as_text(item.get("args"))),
            documentation: text_or_empty(as_text(item.get("doc"))),
            module: None,
        },
    )
}

/// Adds the procedures of a JSON object.
fn load_procedures(data: &Json, out: &mut Vec<IntrinsicSymbol>)
    ensures
        final(out).deep_view() == si::load_procedures(data.model(), old(out).deep_view()),
{
    let entries = match as_object(data) {
        Some(entries) => entries,
        None => {
            return ;
        },
    };
    let ghost all = crate::json::entry_models(entries@);
    let ghost wanted = si::procedures_from(all, 0, out.deep_view());
    let mut i: usize = 0;
    while i < entries.len()
        invariant
            i <= entries@.len(),
            all == crate::json::entry_models(entries@),
            wanted == si::procedures_from(all, i as int, out.deep_view()),
        decreases entries@.len() - i,
    {
        if let Some(symbol) = procedure(entries[i].0.as_str(), &entries[i].1) {
            put(out, symbol);
        }
        i = i + 1;
    }
}

/// The documentation of a member of a module.
fn module_child_doc(child: &Json) -> (r: String)
    ensures
        r@ == si::module_child_doc(child.model()),
{
    let mut parts: Vec<String> = empty();
    if let Some(t) = as_text(child.get("return")) {
        let mut result_line = owned("Returns `");
        push_text(&mut result_line, t.as_str());
        push_text(&mut result_line, "`.");
        let ghost first = result_line@;
        put(&mut parts, result_line);
        assert(parts.deep_view() =~= seq![first]);
    }
    if let Some(t) = as_text(child.get("desc")) {
        put(&mut parts, t.clone());
    }
    let list = parts.as_slice();
    assert(list.deep_view() =~= parts.deep_view());
    join(list, "\n\n")
}

/// The kind of a member of a module.
fn child_kind(code: Option<i64>) -> (r: Option<IntrinsicKind>)
    ensures
        r == si::child_kind(code),
{
    match code {
        Some(1) => Some(IntrinsicKind::Subroutine),
        Some(2) => Some(IntrinsicKind::Function),
        Some(3) => Some(IntrinsicKind::Constant),
        Some(4) => Some(IntrinsicKind::Type),
        _ => None,
    }
}

/// A member of a module.
fn module_child(module: &String, child: &Json) -> (r: Option<IntrinsicSymbol>)
    ensures
        r.deep_view() == si::module_child(module@, child.model()),
{
    match (as_text(child.get("name")), child_kind(as_signed(child.get("type")))) {
        (Some(name), Some(kind)) => Some(
            IntrinsicSymbol {
                name: canonical_name(name.as_str()),
                kind,
                args: parse_args(as_text(child.get("args"))),
                documentation: module_child_doc(child),
                module: Some(module.clone()),
            },
        ),
        _ => None,
    }
}

/// Adds a module and its members.
fn add_module(key: &str, module: &Json, out: &mut Vec<IntrinsicSymbol>)
    ensures
        final(out).deep_view() == si::add_module(key@, module.model(), old(out).deep_view()),
{
    let name = match as_text(module.get("name")) {
        Some(name) => canonical_name(name.as_str()),
        None => canonical_name(key),
    };
    let mut documentation = owned("Intrinsic module `");
    push_text(&mut documentation, name.as_str());
    push_text(&mut documentation, "`.");
    put(
        out,
        IntrinsicSymbol {
            name: name.clone(),
            kind: IntrinsicKind::Module,
            args: empty(),
            documentation,
            module: None,
        },
    );
    let children = match as_array(module.get("children")) {
        Some(children) => children,
        None => {
            return ;
        },
    };
    let ghost all = crate::json::json_models(children@);
    let ghost wanted = si::children_from(name@, all, 0, out.deep_view());
    let mut i: usize = 0;
    while i < children.len()
        invariant
            i <= children@.len(),
            all == crate::json::json_models(children@),
            wanted == si::children_from(name@, all, i as int, out.deep_view()),
        decreases children@.len() - i,
    {
        if let Some(symbol) = module_child(&name, &children[i]) {
            put(out, symbol);
        }
        i = i + 1;
    }
}

/// Adds the modules of a JSON object.
fn load_modules(data: &Json, out: &mut Vec<IntrinsicSymbol>)
    ensures
        final(out).deep_view() == si::load_modules(data.model(), old(out).deep_view()),
{
    let entries = match as_object(data) {
        Some(entries) => entries,
        None => {
            return ;
        },
    };
    let ghost all = crate::json::entry_models(entries@);
    let ghost wanted = si::modules_from(all, 0, out.deep_view());
    let mut i: usize = 0;
    while i < entries.len()
        invariant
            i <= entries@.len(),
            all == crate::json::entry_models(entries@),
            wanted == si::modules_from(all, i as int, out.deep_view()),
        decreases entries@.len() - i,
    {
        add_module(entries[i].0.as_str(), &entries[i].1, out);
        i = i + 1;
    }
}

/// Whether two texts that there may be are the same.
fn eq_options(a: &Option<String>, b: &Option<String>) -> (r: bool)
    ensures
        r == (a.deep_view() == b.deep_view()),
{
    match (a, b) {
        (Some(x), Some(y)) => *x == *y,
        (None, None) => true,
        _ => false,
    }
}

impl Ordered for IntrinsicSymbol {
    type Model = si::IntrinsicSymbol;

    open spec fn order_model(&self) -> si::IntrinsicSymbol {
        self.deep_view()
    }

    open spec fn order() -> sr::Order<si::IntrinsicSymbol> {
        si::symbol_order()
    }

    fn is_not_after(&self, other: &Self) -> (r: bool) {
        if !eq_options(&self.module, &other.module) {
            match (&self.module, &other.module) {
                (Some(x), Some(y)) => text_not_after(x.as_str(), y.as_str()),
                (None, _) => true,
                (Some(_), None) => false,
            }
        } else if self.name != other.name {
            text_not_after(self.name.as_str(), other.name.as_str())
        } else if kind_rank(self.kind) != kind_rank(other.kind) {
            kind_rank(self.kind) < kind_rank(other.kind)
        } else {
            texts_not_after(&self.args, &other.args)
        }
    }
}

/// Whether two symbols stand for the same thing.
fn is_alike(a: &IntrinsicSymbol, b: &IntrinsicSymbol) -> (r: bool)
    ensures
        r == si::is_alike(a.deep_view(), b.deep_view()),
{
    same_text(a.name.as_str(), b.name.as_str()) && eq_options(&a.module, &b.module) && a.kind
        == b.kind
}

/// The intrinsic symbols that two JSON values describe, in order.
pub fn load_intrinsics(procedures: &Json, modules: &Json) -> (r: Vec<IntrinsicSymbol>)
    ensures
        r.deep_view() == si::load_intrinsics(procedures.model(), modules.model()),
{
    let mut symbols: Vec<IntrinsicSymbol> = empty();
    load_procedures(procedures, &mut symbols);
    load_modules(modules, &mut symbols);
    assert(crate::order::order_models(symbols@) =~= symbols.deep_view());
    let in_order = sorted(symbols);
    assert(crate::order::order_models(in_order@) =~= in_order.deep_view());
    let ghost all = in_order.deep_view();
    let mut out: Vec<IntrinsicSymbol> = empty();
    let mut i: usize = 0;
    while i < in_order.len()
        invariant
            i <= in_order@.len(),
            all == in_order.deep_view(),
            si::distinct_from(all, 0, Seq::empty()) == si::distinct_from(
                all,
                i as int,
                out.deep_view(),
            ),
        decreases in_order@.len() - i,
    {
        assert(all[i as int] == in_order@[i as int].deep_view());
        assert(out.deep_view().len() == out@.len());
        let n: usize = out.len();
        let repeated: bool = if n > 0 {
            assert(out.deep_view().last() == out@[n - 1].deep_view());
            is_alike(&in_order[i], &out[n - 1])
        } else {
            false
        };
        if !repeated {
            put(&mut out, in_order[i].clone());
        }
        i = i + 1;
    }
    out
}

/// The intrinsic symbols that two texts of JSON describe, in order; nothing
/// where one of them is no JSON.
pub fn intrinsics(procedures: &str, modules: &str) -> (r: Option<Vec<IntrinsicSymbol>>)
    ensures
        r.deep_view() == match (sj::json_of_text(procedures@), sj::json_of_text(modules@)) {
            (Some(p), Some(m)) => Some(si::load_intrinsics(p, m)),
            _ => None,
        },
{
    match (read_json(procedures), read_json(modules)) {
        (Some(p), Some(m)) => Some(load_intrinsics(&p, &m)),
        _ => None,
    }
}

// ---------------------------------------------------------------------------
// Looking up
// ---------------------------------------------------------------------------

/// Whether a symbol belongs to a module.
pub fn is_of_module(s: &IntrinsicSymbol, module: &str) -> (r: bool)
    ensures
        r == si::is_of_module(s.deep_view(), module@),
{
    match &s.module {
        Some(scope) => same_text(scope.as_str(), module),
        None => false,
    }
}

/// The first symbol with a name.
pub fn find_intrinsic<'a>(table: &'a Vec<IntrinsicSymbol>, name: &str) -> (r: Option<
    &'a IntrinsicSymbol,
>)
    ensures
        match si::find_from(table.deep_view(), name@, 0) {
            Some(k) => 0 <= k < table@.len() && r == Some(&table@[k]),
            None => r is None,
        },
{
    let mut i: usize = 0;
    while i < table.len()
        invariant
            i <= table@.len(),
            si::find_from(table.deep_view(), name@, 0) == si::find_from(
                table.deep_view(),
                name@,
                i as int,
            ),
        decreases table@.len() - i,
    {
        assert(table.deep_view()[i as int] == table@[i as int].deep_view());
        if same_text(table[i].name.as_str(), name) {
            return Some(&table[i]);
        }
        i = i + 1;
    }
    None
}

/// The first symbol with a name that belongs to no module.
pub fn find_global_intrinsic<'a>(table: &'a Vec<IntrinsicSymbol>, name: &str) -> (r: Option<
    &'a IntrinsicSymbol,
>)
    ensures
        match si::find_global_from(table.deep_view(), name@, 0) {
            Some(k) => 0 <= k < table@.len() && r == Some(&table@[k]),
            None => r is None,
        },
{
    let mut i: usize = 0;
    while i < table.len()
        invariant
            i <= table@.len(),
            si::find_global_from(table.deep_view(), name@, 0) == si::find_global_from(
                table.deep_view(),
                name@,
                i as int,
            ),
        decreases table@.len() - i,
    {
        assert(table.deep_view()[i as int] == table@[i as int].deep_view());
        if table[i].module.is_none() && same_text(table[i].name.as_str(), name) {
            return Some(&table[i]);
        }
        i = i + 1;
    }
    None
}

/// The first module with a name.
pub fn find_intrinsic_module<'a>(table: &'a Vec<IntrinsicSymbol>, name: &str) -> (r: Option<
    &'a IntrinsicSymbol,
>)
    ensures
        match si::find_module_from(table.deep_view(), name@, 0) {
            Some(k) => 0 <= k < table@.len() && r == Some(&table@[k]),
            None => r is None,
        },
{
    let mut i: usize = 0;
    while i < table.len()
        invariant
            i <= table@.len(),
            si::find_module_from(table.deep_view(), name@, 0) == si::find_module_from(
                table.deep_view(),
                name@,
                i as int,
            ),
        decreases table@.len() - i,
    {
        assert(table.deep_view()[i as int] == table@[i as int].deep_view());
        if table[i].kind == IntrinsicKind::Module && same_text(table[i].name.as_str(), name) {
            return Some(&table[i]);
        }
        i = i + 1;
    }
    None
}

/// Whether a module has a member with a name.
pub fn module_exports(table: &Vec<IntrinsicSymbol>, module: &str, name: &str) -> (r: bool)
    ensures
        r == si::module_exports(table.deep_view(), module@, name@),
{
    let ghost all = table.deep_view();
    let mut i: usize = 0;
    while i < table.len()
        invariant
            i <= table@.len(),
            all == table.deep_view(),
            forall|k: int|
                0 <= k < i ==> !(si::is_of_module(#[trigger] all[k], module@) && si::is_named(
                    all[k],
                    name@,
                )),
        decreases table@.len() - i,
    {
        assert(all[i as int] == table@[i as int].deep_view());
        if is_of_module(&table[i], module) && same_text(table[i].name.as_str(), name) {
            return true;
        }
        i = i + 1;
    }
    false
}

/// The members of a module.
pub fn module_symbols(table: &Vec<IntrinsicSymbol>, module: &str) -> (r: Vec<IntrinsicSymbol>)
    ensures
        r.deep_view() == si::module_symbols(table.deep_view(), module@),
{
    let ghost all = table.deep_view();
    let mut out: Vec<IntrinsicSymbol> = empty();
    let mut i: usize = 0;
    assert(out.deep_view() =~= si::module_symbols(all.take(0), module@));
    while i < table.len()
        invariant
            i <= table@.len(),
            all == table.deep_view(),
            out.deep_view() == si::module_symbols(all.take(i as int), module@),
        decreases table@.len() - i,
    {
        assert(all.take(i + 1).drop_last() =~= all.take(i as int));
        assert(all.take(i + 1).last() == table@[i as int].deep_view());
        if is_of_module(&table[i], module) {
            put(&mut out, table[i].clone());
        }
        i = i + 1;
    }
    assert(all.take(i as int) =~= all);
    out
}

/// The completions of the symbols whose names start with `prefix`, case aside.
pub fn completions(table: &Vec<IntrinsicSymbol>, prefix: &str) -> (r: Vec<IntrinsicCompletion>)
    ensures
        r.deep_view() == si::completions(table.deep_view(), prefix@),
{
    let ghost all = table.deep_view();
    let low = lower_text(prefix);
    let mut out: Vec<IntrinsicCompletion> = empty();
    let mut i: usize = 0;
    while i < table.len()
        invariant
            i <= table@.len(),
            low@ == st::lower(prefix@),
            all == table.deep_view(),
            out.deep_view() == si::completions(all.take(i as int), prefix@),
        decreases table@.len() - i,
    {
        assert(all.take(i + 1).drop_last() =~= all.take(i as int));
        assert(all.take(i + 1).last() == table@[i as int].deep_view());
        let name = chars(lower_text(table[i].name.as_str()).as_str());
        if starts_with_word(name.as_slice(), low.as_str()) {
            put(&mut out, IntrinsicCompletion::from_symbol(&table[i]));
        }
        i = i + 1;
    }
    assert(all.take(i as int) =~= all);
    out
}

} // verus!
