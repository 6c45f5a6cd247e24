//! The procedures that are bound to derived types, and what is wrong with them.

use vstd::prelude::*;

use crate::list::put;
use crate::model::{Diagnostic, DiagnosticSeverity, GenericBinding, ParsedFile, Symbol, SymbolKind};
use crate::modules::Export;
use crate::names::{about, derived_type, put_some};
use crate::resolve::{SymbolRef, eq_scopes, outer_scopes, symbol_in};
use crate::scan::paren_content;
use crate::spec::bindings as sg;
use crate::spec::modules as sx;
use crate::spec::resolve as sv;
use crate::spec::text as st;
use crate::text::{
    chars, copy_texts, eq_chars, find, first_ident, has_name, lower, push_text, same_text, squeeze,
    take, text,
};
use crate::workspace::Workspace;

verus! {

/// Whether a reference leads to a symbol of a list of files.
pub open spec fn holds(files: Seq<ParsedFile>, r: SymbolRef) -> bool {
    r.file < files.len() && r.symbol < files[r.file as int].symbols@.len()
}

/// The models of references.
pub open spec fn ref_models(list: Seq<SymbolRef>) -> Seq<sv::Ref> {
    Seq::new(list.len(), |i: int| list[i].model())
}

/// Whether all references lead to symbols of a list of files.
pub open spec fn all_hold(files: Seq<ParsedFile>, list: Seq<SymbolRef>) -> bool {
    forall|i: int| 0 <= i < list.len() ==> holds(files, #[trigger] list[i])
}

// ---------------------------------------------------------------------------
// Symbols
// ---------------------------------------------------------------------------

/// The first derived type with a scope and a name.
pub fn type_in(symbols: &Vec<Symbol>, scope: &Vec<String>, name: &str) -> (r: Option<usize>)
    ensures
        st::at(r) == sg::type_from(symbols.deep_view(), scope.deep_view(), name@, 0),
        r matches Some(k) ==> k < symbols@.len(),
{
    let ghost all = symbols.deep_view();
    let mut i: usize = 0;
    while i < symbols.len()
        invariant
            i <= symbols@.len(),
            all == symbols.deep_view(),
            sg::type_from(symbols.deep_view(), scope.deep_view(), name@, 0) == sg::type_from(
                all,
                scope.deep_view(),
                name@,
                i as int,
            ),
        decreases symbols@.len() - i,
    {
        let s = &symbols[i];
        assert(all[i as int] == s.deep_view());
        if s.kind == SymbolKind::Type && same_text(s.name.as_str(), name) && eq_scopes(
            &s.scope,
            scope,
        ) {
            return Some(i);
        }
        i = i + 1;
    }
    None
}

/// The scope that a symbol opens.
pub fn inner_scope(s: &Symbol) -> (r: Vec<String>)
    ensures
        r.deep_view() == s.deep_view().scope.push(s.name@),
{
    let mut out = copy_texts(&s.scope);
    put(&mut out, s.name.clone());
    out
}

/// Whether a symbol is a procedure that is bound to a type.
pub fn is_method_of(m: &Symbol, t: &Symbol) -> (r: bool)
    ensures
        r == sg::is_method_of(m.deep_view(), t.deep_view()),
{
    m.kind == SymbolKind::Method && eq_scopes(&m.scope, &inner_scope(t))
}

/// The first procedure that is bound to a type under a name.
fn method_in(symbols: &Vec<Symbol>, t: &Symbol, name: &str) -> (r: Option<usize>)
    ensures
        st::at(r) == sg::method_from(symbols.deep_view(), t.deep_view(), name@, 0),
        r matches Some(k) ==> k < symbols@.len(),
{
    let ghost all = symbols.deep_view();
    let mut i: usize = 0;
    while i < symbols.len()
        invariant
            i <= symbols@.len(),
            all == symbols.deep_view(),
            sg::method_from(symbols.deep_view(), t.deep_view(), name@, 0) == sg::method_from(
                all,
                t.deep_view(),
                name@,
                i as int,
            ),
        decreases symbols@.len() - i,
    {
        assert(all[i as int] == symbols@[i as int].deep_view());
        if same_text(symbols[i].name.as_str(), name) && is_method_of(&symbols[i], t) {
            return Some(i);
        }
        i = i + 1;
    }
    None
}

/// The name of the procedure that a binding stands for.
pub fn target_name(m: &Symbol) -> (r: String)
    ensures
        r@ == sg::target_name(m.deep_view()),
{
    match &m.binding_target {
        Some(name) => name.clone(),
        None => m.name.clone(),
    }
}

/// The name of the interface in `procedure(name)`.
fn interface_name(m: &Symbol) -> (r: Option<String>)
    ensures
        r.deep_view() == sg::interface_name(m.deep_view()),
{
    match &m.type_spec {
        Some(t) => {
            let t = chars(t.as_str());
            match paren_content(t.as_slice()) {
                Some(inner) => match first_ident(inner) {
                    Some(name) => Some(text(name)),
                    None => None,
                },
                None => None,
            }
        },
        None => None,
    }
}

/// The first index of a name.
pub fn name_index(names: &Vec<String>, name: &str) -> (r: Option<usize>)
    ensures
        st::at(r) == sg::name_index(names.deep_view(), name@, 0),
        r matches Some(k) ==> k < names@.len(),
{
    let ghost all = names.deep_view();
    let mut i: usize = 0;
    while i < names.len()
        invariant
            i <= names@.len(),
            all == names.deep_view(),
            sg::name_index(names.deep_view(), name@, 0) == sg::name_index(all, name@, i as int),
        decreases names@.len() - i,
    {
        assert(all[i as int] == names@[i as int]@);
        if same_text(names[i].as_str(), name) {
            return Some(i);
        }
        i = i + 1;
    }
    None
}

/// Which argument of a procedure the object is passed as.
pub fn passed_index(m: &Symbol, args: &Vec<String>) -> (r: Option<usize>)
    ensures
        st::at(r) == sg::passed_index(m.deep_view(), args.deep_view()),
{
    let attributes = m.attributes.as_slice();
    assert(attributes.deep_view() =~= m.attributes.deep_view());
    if has_name(attributes, "nopass") {
        None
    } else {
        match &m.pass_arg {
            Some(name) => name_index(args, name.as_str()),
            None => Some(0),
        }
    }
}

// ---------------------------------------------------------------------------
// Declarations
// ---------------------------------------------------------------------------

/// A text without white space, in lower case.
fn plain(t: &str) -> (r: Vec<char>)
    ensures
        r@ == sg::plain(t@),
{
    let t = chars(t);
    let small = lower(t.as_slice());
    squeeze(small.as_slice())
}

/// Whether two texts are the same, white space and case aside.
fn same_plain(a: &str, b: &str) -> (r: bool)
    ensures
        r == (sg::plain(a@) == sg::plain(b@)),
{
    let x = plain(a);
    let y = plain(b);
    eq_chars(x.as_slice(), y.as_slice())
}

/// Whether one of the texts is `t`, white space and case aside.
fn has_plain(list: &Vec<String>, t: &str) -> (r: bool)
    ensures
        r == sg::has_plain(list.deep_view(), t@),
{
    let ghost all = list.deep_view();
    let mut i: usize = 0;
    while i < list.len()
        invariant
            i <= list@.len(),
            all == list.deep_view(),
            forall|k: int| 0 <= k < i ==> sg::plain(#[trigger] all[k]) != sg::plain(t@),
        decreases list@.len() - i,
    {
        assert(all[i as int] == list@[i as int]@);
        if same_plain(list[i].as_str(), t) {
            return true;
        }
        i = i + 1;
    }
    false
}

/// Whether all of the texts are among the others.
fn all_plain_in(list: &Vec<String>, other: &Vec<String>) -> (r: bool)
    ensures
        r == sg::all_plain_in(list.deep_view(), other.deep_view()),
{
    let ghost all = list.deep_view();
    let mut i: usize = 0;
    while i < list.len()
        invariant
            i <= list@.len(),
            all == list.deep_view(),
            forall|k: int| 0 <= k < i ==> sg::has_plain(other.deep_view(), #[trigger] all[k]),
        decreases list@.len() - i,
    {
        assert(all[i as int] == list@[i as int]@);
        if !has_plain(other, list[i].as_str()) {
            return false;
        }
        i = i + 1;
    }
    true
}

/// Whether two variables are declared alike.
fn declared_alike(a: &Symbol, b: &Symbol) -> (r: bool)
    ensures
        r == sg::declared_alike(a.deep_view(), b.deep_view()),
{
    let same_type: bool = match (&a.type_spec, &b.type_spec) {
        (Some(x), Some(y)) => same_plain(x.as_str(), y.as_str()),
        (None, None) => true,
        _ => false,
    };
    same_type && all_plain_in(&a.attributes, &b.attributes) && all_plain_in(
        &b.attributes,
        &a.attributes,
    )
}

/// What stands before `function` in a signature.
fn header_type(signature: &str) -> (r: Option<Vec<char>>)
    ensures
        r.deep_view() == sg::header_type(signature@),
{
    let s = chars(signature);
    let small = lower(s.as_slice());
    let word = chars("function");
    match find(small.as_slice(), word.as_slice()) {
        Some(i) => {
            let head = take(s.as_slice(), i);
            let low = lower(head);
            let out = squeeze(low.as_slice());
            if out.len() == 0 {
                None
            } else {
                assert(out.deep_view() =~= out@);
                Some(out)
            }
        },
        None => None,
    }
}

// ---------------------------------------------------------------------------
// Messages
// ---------------------------------------------------------------------------

fn unknown_target(m: &Symbol) -> (r: Diagnostic)
    ensures
        r.deep_view() == sg::unknown_target(m.deep_view()),
{
    let mut message = about(
        "type-bound procedure `",
        m.name.as_str(),
        "` has unresolved target `",
    );
    push_text(&mut message, target_name(m).as_str());
    push_text(&mut message, "`");
    Diagnostic { range: m.selection_range, severity: DiagnosticSeverity::Error, message }
}

fn unlike_interface(m: &Symbol, interface: &str) -> (r: Diagnostic)
    ensures
        r.deep_view() == sg::unlike_interface(m.deep_view(), interface@),
{
    let mut message = about("type-bound procedure `", m.name.as_str(), "` target `");
    push_text(&mut message, target_name(m).as_str());
    push_text(&mut message, "` does not match interface `");
    push_text(&mut message, interface);
    push_text(&mut message, "`");
    Diagnostic { range: m.selection_range, severity: DiagnosticSeverity::Error, message }
}

fn unimplemented_method(t: &Symbol, parent: &Symbol, m: &Symbol, near: bool) -> (r: Diagnostic)
    ensures
        r.deep_view() == sg::unimplemented(t.deep_view(), parent.deep_view(), m.deep_view(), near),
{
    let message = if near {
        let mut message = about("Deferred procedure `", m.name.as_str(), "` of `");
        push_text(&mut message, parent.name.as_str());
        push_text(&mut message, "` is not implemented by `");
        push_text(&mut message, t.name.as_str());
        push_text(&mut message, "`");
        message
    } else {
        about("deferred procedure \"", m.name.as_str(), "\" not implemented")
    };
    Diagnostic { range: t.selection_range, severity: DiagnosticSeverity::Error, message }
}

fn unknown_binding(b: &GenericBinding, name: &str) -> (r: Diagnostic)
    ensures
        r.deep_view() == sg::unknown_binding(b.deep_view(), name@),
{
    let mut message = about(
        "generic binding `",
        b.name.as_str(),
        "` references unknown type-bound procedure `",
    );
    push_text(&mut message, name);
    push_text(&mut message, "`");
    Diagnostic { range: b.range, severity: DiagnosticSeverity::Error, message }
}

// ---------------------------------------------------------------------------
// In the workspace
// ---------------------------------------------------------------------------

impl Workspace {
    /// The symbol that a reference leads to.
    pub fn symbol(&self, r: SymbolRef) -> (s: &Symbol)
        requires
            holds(self.index.files@, r),
        ensures
            s.deep_view() == sg::symbol(self.deep_view(), r.model()),
            s == self.index.files@[r.file as int].symbols@[r.symbol as int],
    {
        assert(self.deep_view().index.files[r.file as int]
            == self.index.files@[r.file as int].deep_view());
        assert(self.index.files@[r.file as int].deep_view().symbols[r.symbol as int]
            == self.index.files@[r.file as int].symbols@[r.symbol as int].deep_view());
        &self.index.files[r.file].symbols[r.symbol]
    }

    /// The derived type that a name stands for in a scope of a file.
    pub fn lookup_type(&self, f: usize, scope: &Vec<String>, name: &str) -> (r: Option<SymbolRef>)
        requires
            f < self.index.files@.len(),
        ensures
            crate::resolve::ref_model(r) == sg::lookup_type(self.deep_view(), f as int, scope.deep_view(), name@),
            crate::resolve::is_valid(self.index.files@, r),
    {
        match self.lookup(f, scope, name) {
            Some(found) => {
                let s = self.symbol(found);
                assert(self.deep_view().index.files[found.file as int]
                    == self.index.files@[found.file as int].deep_view());
                match type_in(&self.index.files[found.file].symbols, &s.scope, s.name.as_str()) {
                    Some(k) => Some(SymbolRef { file: found.file, symbol: k }),
                    None => None,
                }
            },
            None => None,
        }
    }

    /// The parent of a derived type.
    pub fn parent_of(&self, t: SymbolRef) -> (r: Option<SymbolRef>)
        requires
            holds(self.index.files@, t),
        ensures
            crate::resolve::ref_model(r) == sg::parent_of(self.deep_view(), t.model()),
            crate::resolve::is_valid(self.index.files@, r),
    {
        let s = self.symbol(t);
        match &s.extends {
            Some(name) => self.lookup_type(t.file, &s.scope, name.as_str()),
            None => None,
        }
    }

    /// A derived type and those that it extends.
    pub fn chain(&self, t: SymbolRef) -> (r: Vec<SymbolRef>)
        requires
            holds(self.index.files@, t),
        ensures
            ref_models(r@) == sg::chain(self.deep_view(), t.model()),
            all_hold(self.index.files@, r@),
            r@.len() > 0,
            r@[0] == t,
    {
        let mut out: Vec<SymbolRef> = Vec::new();
        let mut at: SymbolRef = t;
        let mut fuel: usize = 64;
        assert(ref_models(out@) =~= Seq::empty());
        while fuel > 0
            invariant
                holds(self.index.files@, at),
                all_hold(self.index.files@, out@),
                out@.len() == 0 ==> at == t,
                out@.len() > 0 ==> out@[0] == t,
                sg::chain(self.deep_view(), t.model()) == sg::chain_from(
                    self.deep_view(),
                    at.model(),
                    fuel as nat,
                    ref_models(out@),
                ),
            decreases fuel,
        {
            match self.parent_of(at) {
                Some(q) => {
                    let ghost before = ref_models(out@);
                    out.push(at);
                    assert(ref_models(out@) =~= before.push(at.model()));
                    at = q;
                    fuel = fuel - 1;
                },
                None => {
                    let ghost before = ref_models(out@);
                    out.push(at);
                    assert(ref_models(out@) =~= before.push(at.model()));
                    return out;
                },
            }
        }
        let ghost before = ref_models(out@);
        out.push(at);
        assert(ref_models(out@) =~= before.push(at.model()));
        out
    }

    /// The procedure that is bound to a type itself under a name.
    pub fn own_method(&self, t: SymbolRef, name: &str) -> (r: Option<SymbolRef>)
        requires
            holds(self.index.files@, t),
        ensures
            crate::resolve::ref_model(r) == sg::own_method(self.deep_view(), t.model(), name@),
            crate::resolve::is_valid(self.index.files@, r),
    {
        assert(self.deep_view().index.files[t.file as int]
            == self.index.files@[t.file as int].deep_view());
        match method_in(&self.index.files[t.file].symbols, self.symbol(t), name) {
            Some(k) => Some(SymbolRef { file: t.file, symbol: k }),
            None => None,
        }
    }

    /// The procedure that the types bind under a name, the first of them first.
    pub fn find_method(&self, types: &Vec<SymbolRef>, name: &str) -> (r: Option<SymbolRef>)
        requires
            all_hold(self.index.files@, types@),
        ensures
            crate::resolve::ref_model(r) == sg::find_method(self.deep_view(), ref_models(types@), name@, 0),
            crate::resolve::is_valid(self.index.files@, r),
    {
        let mut i: usize = 0;
        while i < types.len()
            invariant
                i <= types@.len(),
                all_hold(self.index.files@, types@),
                sg::find_method(self.deep_view(), ref_models(types@), name@, 0) == sg::find_method(
                    self.deep_view(),
                    ref_models(types@),
                    name@,
                    i as int,
                ),
            decreases types@.len() - i,
        {
            assert(holds(self.index.files@, types@[i as int]));
            let found = self.own_method(types[i], name);
            if found.is_some() {
                return found;
            }
            i = i + 1;
        }
        None
    }

    // -----------------------------------------------------------------------
    // Targets
    // -----------------------------------------------------------------------

    /// Whether the target of a binding can be known.
    fn target_is_known(&self, f: usize, m: &Symbol, outer: &Vec<String>) -> (r: bool)
        requires
            f < self.index.files@.len(),
            outer.deep_view() == m.deep_view().scope.drop_last(),
        ensures
            r == sg::target_is_known(self.deep_view(), f as int, m.deep_view()),
    {
        let target = target_name(m);
        self.known(f, outer, target.as_str(), false) != Export::No || self.index.global(
            target.as_str(),
        ).is_some()
    }

    /// The variable of a procedure with the given name.
    pub fn local(&self, p: SymbolRef, name: &str) -> (r: Option<usize>)
        requires
            holds(self.index.files@, p),
        ensures
            st::at(r) == sg::local(self.deep_view(), p.model(), name@),
            r matches Some(k) ==> k < self.index.files@[p.file as int].symbols@.len(),
    {
        assert(self.deep_view().index.files[p.file as int]
            == self.index.files@[p.file as int].deep_view());
        symbol_in(
            &self.index.files[p.file].symbols,
            &inner_scope(self.symbol(p)),
            name,
        )
    }

    /// Whether one of the types has the name `name`.
    fn has_type_named(&self, types: &Vec<SymbolRef>, name: &str) -> (r: bool)
        requires
            all_hold(self.index.files@, types@),
        ensures
            r == sg::has_type_named(self.deep_view(), ref_models(types@), name@),
    {
        let ghost all = ref_models(types@);
        let mut i: usize = 0;
        while i < types.len()
            invariant
                i <= types@.len(),
                all == ref_models(types@),
                all_hold(self.index.files@, types@),
                forall|k: int|
                    0 <= k < i ==> !st::same(
                        sg::symbol(self.deep_view(), #[trigger] all[k]).name,
                        name@,
                    ),
            decreases types@.len() - i,
        {
            assert(holds(self.index.files@, types@[i as int]));
            assert(all[i as int] == types@[i as int].model());
            if same_text(self.symbol(types[i]).name.as_str(), name) {
                return true;
            }
            i = i + 1;
        }
        false
    }

    /// Whether a passed object fits where another one is expected.
    fn object_fits(&self, f: usize, expected: &Symbol, given: &Symbol) -> (r: bool)
        requires
            f < self.index.files@.len(),
        ensures
            r == sg::object_fits(
                self.deep_view(),
                f as int,
                expected.deep_view(),
                given.deep_view(),
            ),
    {
        match (&expected.type_spec, &given.type_spec) {
            (Some(wanted), Some(t)) => match (
                derived_type(wanted.as_str()),
                derived_type(t.as_str()),
            ) {
                (Some(wanted_name), Some(name)) => match self.lookup_type(
                    f,
                    &given.scope,
                    name.as_str(),
                ) {
                    Some(r) => self.has_type_named(&self.chain(r), wanted_name.as_str()),
                    None => true,
                },
                _ => true,
            },
            _ => true,
        }
    }

    /// Whether the argument `i` of a procedure fits that of an interface.
    fn argument_fits(
        &self,
        expected: SymbolRef,
        given: SymbolRef,
        passed: Option<usize>,
        i: usize,
    ) -> (r: bool)
        requires
            holds(self.index.files@, expected),
            holds(self.index.files@, given),
            i < sg::symbol(self.deep_view(), expected.model()).args.len(),
            i < sg::symbol(self.deep_view(), given.model()).args.len(),
        ensures
            r == sg::argument_fits(
                self.deep_view(),
                expected.model(),
                given.model(),
                st::at(passed),
                i as int,
            ),
    {
        let a = self.symbol(expected);
        let b = self.symbol(given);
        assert(a.deep_view().args.len() == a.args@.len());
        assert(b.deep_view().args.len() == b.args@.len());
        assert(a.deep_view().args[i as int] == a.args@[i as int]@);
        assert(b.deep_view().args[i as int] == b.args@[i as int]@);
        match (
            self.local(expected, a.args[i].as_str()),
            self.local(given, b.args[i].as_str()),
        ) {
            (Some(x), Some(y)) => {
                let wanted = self.symbol(SymbolRef { file: expected.file, symbol: x });
                let var = self.symbol(SymbolRef { file: given.file, symbol: y });
                let object: bool = match passed {
                    Some(k) => k == i,
                    None => false,
                };
                if object {
                    self.object_fits(given.file, wanted, var)
                } else {
                    declared_alike(wanted, var)
                }
            },
            _ => true,
        }
    }

    /// The type of the result of a function.
    fn result_type(&self, p: SymbolRef) -> (r: Option<Vec<char>>)
        requires
            holds(self.index.files@, p),
        ensures
            r.deep_view() == sg::result_type(self.deep_view(), p.model()),
    {
        let s = self.symbol(p);
        let name = match &s.result {
            Some(name) => name.as_str(),
            None => s.name.as_str(),
        };
        match self.local(p, name) {
            Some(k) => match &self.symbol(SymbolRef { file: p.file, symbol: k }).type_spec {
                Some(t) => {
                    let out = plain(t.as_str());
                    assert(out.deep_view() =~= out@);
                    Some(out)
                },
                None => None,
            },
            None => header_type(s.signature.as_str()),
        }
    }

    /// Whether the result of a function fits that of an interface.
    fn result_fits(&self, expected: SymbolRef, given: SymbolRef) -> (r: bool)
        requires
            holds(self.index.files@, expected),
            holds(self.index.files@, given),
        ensures
            r == sg::result_fits(self.deep_view(), expected.model(), given.model()),
    {
        if self.symbol(expected).kind != SymbolKind::Function {
            return true;
        }
        match (self.result_type(expected), self.result_type(given)) {
            (Some(wanted), Some(t)) => {
                assert(wanted.deep_view() =~= wanted@);
                assert(t.deep_view() =~= t@);
                eq_chars(wanted.as_slice(), t.as_slice())
            },
            _ => true,
        }
    }

    /// Whether a procedure fits an interface.
    fn procedure_fits(&self, expected: SymbolRef, given: SymbolRef, passed: Option<usize>) -> (r:
        bool)
        requires
            holds(self.index.files@, expected),
            holds(self.index.files@, given),
        ensures
            r == sg::procedure_fits(
                self.deep_view(),
                expected.model(),
                given.model(),
                st::at(passed),
            ),
    {
        let a = self.symbol(expected);
        let b = self.symbol(given);
        assert(a.deep_view().args.len() == a.args@.len());
        assert(b.deep_view().args.len() == b.args@.len());
        if a.kind != b.kind || a.args.len() != b.args.len() || !self.result_fits(expected, given) {
            return false;
        }
        let n: usize = a.args.len();
        let mut i: usize = 0;
        while i < n
            invariant
                i <= n,
                holds(self.index.files@, expected),
                holds(self.index.files@, given),
                n == sg::symbol(self.deep_view(), expected.model()).args.len(),
                n == sg::symbol(self.deep_view(), given.model()).args.len(),
                forall|k: int|
                    0 <= k < i ==> #[trigger] sg::argument_fits(
                        self.deep_view(),
                        expected.model(),
                        given.model(),
                        st::at(passed),
                        k,
                    ),
            decreases n - i,
        {
            if !self.argument_fits(expected, given, passed, i) {
                return false;
            }
            i = i + 1;
        }
        true
    }

    /// The procedure that a name stands for in a scope of a file.
    pub fn resolve_procedure(&self, f: usize, scope: &Vec<String>, name: &str) -> (r: Option<
        SymbolRef,
    >)
        requires
            f < self.index.files@.len(),
        ensures
            crate::resolve::ref_model(r) == sg::resolve_procedure(
                self.deep_view(),
                f as int,
                scope.deep_view(),
                name@,
            ),
            crate::resolve::is_valid(self.index.files@, r),
    {
        match self.resolve(f, scope, name) {
            Some(found) => if self.symbol(found).kind.is_procedure() {
                Some(found)
            } else {
                None
            },
            None => None,
        }
    }

    /// The diagnostic for a binding whose target does not fit its interface.
    fn interface_diagnostic(&self, f: usize, m: &Symbol, outer: &Vec<String>) -> (r: Option<
        Diagnostic,
    >)
        requires
            f < self.index.files@.len(),
            outer.deep_view() == m.deep_view().scope.drop_last(),
        ensures
            r.deep_view() == sg::interface_diagnostic(self.deep_view(), f as int, m.deep_view()),
    {
        match interface_name(m) {
            Some(name) => match (
                self.resolve_procedure(f, outer, name.as_str()),
                self.resolve_procedure(f, outer, target_name(m).as_str()),
            ) {
                (Some(expected), Some(given)) => {
                    let passed = passed_index(m, &self.symbol(expected).args);
                    if self.procedure_fits(expected, given, passed) {
                        None
                    } else {
                        Some(unlike_interface(m, name.as_str()))
                    }
                },
                _ => None,
            },
            None => None,
        }
    }

    /// The diagnostic for a procedure that is bound to a type.
    fn method_diagnostic(&self, f: usize, i: usize) -> (r: Option<Diagnostic>)
        requires
            f < self.index.files@.len(),
            i < self.index.files@[f as int].symbols@.len(),
        ensures
            r.deep_view() == sg::method_diagnostic(self.deep_view(), f as int, i as int),
    {
        let m = self.symbol(SymbolRef { file: f, symbol: i });
        let n: usize = m.scope.len();
        assert(m.deep_view().scope.len() == n);
        if m.kind != SymbolKind::Method || m.is_deferred || n == 0 {
            return None;
        }
        let outer = outer_scopes(&m.scope, n - 1);
        assert(outer.deep_view() =~= m.deep_view().scope.drop_last());
        if !self.target_is_known(f, m, &outer) {
            Some(unknown_target(m))
        } else {
            self.interface_diagnostic(f, m, &outer)
        }
    }

    // -----------------------------------------------------------------------
    // Deferred procedures
    // -----------------------------------------------------------------------

    /// Whether one of the types up to `n` binds a procedure.
    fn binds(&self, types: &Vec<SymbolRef>, name: &str, n: usize) -> (r: bool)
        requires
            n <= types@.len(),
            all_hold(self.index.files@, types@),
        ensures
            r == sg::binds(self.deep_view(), ref_models(types@), name@, 0, n as int),
    {
        let ghost all = ref_models(types@);
        let mut k: usize = 0;
        while k < n
            invariant
                k <= n <= types@.len(),
                all == ref_models(types@),
                all_hold(self.index.files@, types@),
                forall|j: int|
                    0 <= j < k ==> (#[trigger] sg::own_method(
                        self.deep_view(),
                        all[j],
                        name@,
                    )) is None,
            decreases n - k,
        {
            assert(holds(self.index.files@, types@[k as int]));
            assert(all[k as int] == types@[k as int].model());
            if self.own_method(types[k], name).is_some() {
                assert(sg::own_method(self.deep_view(), all[k as int], name@) is Some);
                return true;
            }
            k = k + 1;
        }
        false
    }

    /// Whether one of the types from the second up to `n` defers a procedure.
    fn defers(&self, types: &Vec<SymbolRef>, name: &str, n: usize) -> (r: bool)
        requires
            n <= types@.len(),
            all_hold(self.index.files@, types@),
        ensures
            r == sg::defers(self.deep_view(), ref_models(types@), name@, 1, n as int),
    {
        let ghost all = ref_models(types@);
        let mut k: usize = 1;
        while k < n
            invariant
                1 <= k,
                n <= types@.len(),
                all == ref_models(types@),
                all_hold(self.index.files@, types@),
                forall|j: int|
                    1 <= j < k && j < n ==> !(#[trigger] sg::own_method(
                        self.deep_view(),
                        all[j],
                        name@,
                    ) matches Some(m) && sg::symbol(self.deep_view(), m).is_deferred),
            decreases n - k,
        {
            assert(holds(self.index.files@, types@[k as int]));
            assert(all[k as int] == types@[k as int].model());
            if let Some(m) = self.own_method(types[k], name) {
                if self.symbol(m).is_deferred {
                    assert(sg::own_method(self.deep_view(), all[k as int], name@) == Some(
                        m.model(),
                    ));
                    return true;
                }
            }
            k = k + 1;
        }
        false
    }

    /// Whether the first of the types has to bind a procedure that the type
    /// `j` defers, and does not.
    pub fn lacks_method(&self, types: &Vec<SymbolRef>, name: &str, j: usize) -> (r: bool)
        requires
            1 <= j < types@.len(),
            all_hold(self.index.files@, types@),
        ensures
            r == sg::lacks_method(self.deep_view(), ref_models(types@), name@, j as int),
    {
        let ghost all = ref_models(types@);
        assert(all[0] == types@[0].model() && all[1] == types@[1].model());
        if types[1].file == types[0].file {
            !self.binds(types, name, j)
        } else {
            !self.binds(types, name, 1) && !self.defers(types, name, j)
        }
    }

    /// Adds the diagnostics for the procedures that the type `j` defers and
    /// that are not there.
    fn check_deferred(&self, types: &Vec<SymbolRef>, j: usize, out: &mut Vec<Diagnostic>)
        requires
            1 <= j < types@.len(),
            all_hold(self.index.files@, types@),
        ensures
            final(out).deep_view() == sg::deferred_from(
                self.deep_view(),
                ref_models(types@),
                j as int,
                0,
                old(out).deep_view(),
            ),
    {
        let ghost ws = self.deep_view();
        let ghost all = ref_models(types@);
        assert(all[0] == types@[0].model() && all[1] == types@[1].model());
        assert(all[j as int] == types@[j as int].model());
        assert(holds(self.index.files@, types@[0]) && holds(self.index.files@, types@[j as int]));
        let first = self.symbol(types[0]);
        let parent = self.symbol(types[j]);
        let near: bool = types[1].file == types[0].file;
        let symbols = &self.index.files[types[j].file].symbols;
        let ghost list = ws.index.files[all[j as int].0].symbols;
        assert(ws.index.files[all[j as int].0]
            == self.index.files@[types@[j as int].file as int].deep_view());
        let ghost wanted = sg::deferred_from(ws, all, j as int, 0, out.deep_view());
        let mut k: usize = 0;
        while k < symbols.len()
            invariant
                k <= symbols@.len(),
                1 <= j < types@.len(),
                ws == self.deep_view(),
                all == ref_models(types@),
                all_hold(self.index.files@, types@),
                list == symbols.deep_view(),
                list == ws.index.files[all[j as int].0].symbols,
                first.deep_view() == sg::symbol(ws, all[0]),
                parent.deep_view() == sg::symbol(ws, all[j as int]),
                near == (all[1].0 == all[0].0),
                wanted == sg::deferred_from(ws, all, j as int, k as int, out.deep_view()),
            decreases symbols@.len() - k,
        {
            let m = &symbols[k];
            assert(list[k as int] == m.deep_view());
            if m.is_deferred && is_method_of(m, parent) && self.lacks_method(
                types,
                m.name.as_str(),
                j,
            ) {
                put(out, unimplemented_method(first, parent, m, near));
            }
            k = k + 1;
        }
    }

    /// Whether all modules that a file uses are known.
    fn all_resolved(&self, p: &ParsedFile) -> (r: bool)
        ensures
            r == sg::all_resolved(self.index.deep_view(), p.deep_view()),
    {
        let ghost all = p.deep_view().uses;
        let mut i: usize = 0;
        while i < p.uses.len()
            invariant
                i <= p.uses@.len(),
                all == p.deep_view().uses,
                forall|k: int|
                    0 <= k < i ==> sx::is_resolved(self.index.deep_view(), #[trigger] all[k]),
            decreases p.uses@.len() - i,
        {
            assert(all[i as int] == p.uses@[i as int].deep_view());
            if !self.index.is_resolved(&p.uses[i]) {
                return false;
            }
            i = i + 1;
        }
        true
    }

    /// Adds the diagnostics for the deferred procedures that a type does not
    /// bind.
    fn check_type(&self, f: usize, i: usize, out: &mut Vec<Diagnostic>)
        requires
            f < self.index.files@.len(),
            i < self.index.files@[f as int].symbols@.len(),
        ensures
            final(out).deep_view() == sg::deferred_diagnostics(
                self.deep_view(),
                f as int,
                i as int,
                old(out).deep_view(),
            ),
    {
        let ghost ws = self.deep_view();
        let t = SymbolRef { file: f, symbol: i };
        let s = self.symbol(t);
        if s.kind != SymbolKind::Type || s.is_abstract {
            return ;
        }
        let types = self.chain(t);
        let ghost all = ref_models(types@);
        if types.len() < 2 {
            return ;
        }
        assert(all[1] == types@[1].model());
        assert(holds(self.index.files@, types@[1]));
        assert(ws.index.files[all[1].0] == self.index.files@[types@[1].file as int].deep_view());
        if types[1].file != f && !self.all_resolved(&self.index.files[types[1].file]) {
            return ;
        }
        let ghost wanted = sg::inherited_from(ws, all, 1, out.deep_view());
        let mut j: usize = 1;
        while j < types.len()
            invariant
                1 <= j <= types@.len(),
                ws == self.deep_view(),
                all == ref_models(types@),
                all_hold(self.index.files@, types@),
                wanted == sg::inherited_from(ws, all, j as int, out.deep_view()),
            decreases types@.len() - j,
        {
            self.check_deferred(&types, j, out);
            j = j + 1;
        }
    }

    // -----------------------------------------------------------------------
    // Generic bindings
    // -----------------------------------------------------------------------

    /// Adds the diagnostics for the procedures that a generic binding names
    /// and the types do not bind.
    fn check_procedures(
        &self,
        types: &Vec<SymbolRef>,
        b: &GenericBinding,
        out: &mut Vec<Diagnostic>,
    )
        requires
            all_hold(self.index.files@, types@),
        ensures
            final(out).deep_view() == sg::binding_from(
                self.deep_view(),
                ref_models(types@),
                b.deep_view(),
                0,
                old(out).deep_view(),
            ),
    {
        let ghost all = b.deep_view().procedures;
        let ghost wanted = sg::binding_from(
            self.deep_view(),
            ref_models(types@),
            b.deep_view(),
            0,
            out.deep_view(),
        );
        let mut j: usize = 0;
        while j < b.procedures.len()
            invariant
                j <= b.procedures@.len(),
                all == b.deep_view().procedures,
                all_hold(self.index.files@, types@),
                wanted == sg::binding_from(
                    self.deep_view(),
                    ref_models(types@),
                    b.deep_view(),
                    j as int,
                    out.deep_view(),
                ),
            decreases b.procedures@.len() - j,
        {
            assert(all[j as int] == b.procedures@[j as int]@);
            if self.find_method(types, b.procedures[j].as_str()).is_none() {
                put(out, unknown_binding(b, b.procedures[j].as_str()));
            }
            j = j + 1;
        }
    }

    /// Adds the diagnostics for a generic binding.
    fn check_binding(&self, f: usize, b: &GenericBinding, out: &mut Vec<Diagnostic>)
        requires
            f < self.index.files@.len(),
        ensures
            final(out).deep_view() == sg::binding_diagnostics(
                self.deep_view(),
                f as int,
                b.deep_view(),
                old(out).deep_view(),
            ),
    {
        let n: usize = b.scope.len();
        assert(b.deep_view().scope.len() == n);
        if n == 0 {
            return ;
        }
        let outer = outer_scopes(&b.scope, n - 1);
        assert(outer.deep_view() =~= b.deep_view().scope.drop_last());
        assert(b.deep_view().scope.last() == b.scope@[n - 1]@);
        assert(self.deep_view().index.files[f as int] == self.index.files@[f as int].deep_view());
        if let Some(t) = type_in(&self.index.files[f].symbols, &outer, b.scope[n - 1].as_str()) {
            let types = self.chain(SymbolRef { file: f, symbol: t });
            let last = types[types.len() - 1];
            assert(holds(self.index.files@, last));
            assert(ref_models(types@).last() == last.model());
            if self.symbol(last).extends.is_some() && self.parent_of(last).is_none() {
                return ;
            }
            self.check_procedures(&types, b, out);
        }
    }

    /// Adds the diagnostics for the bindings of a file.
    pub fn check_bindings(&self, f: usize, out: &mut Vec<Diagnostic>)
        requires
            f < self.index.files@.len(),
        ensures
            final(out).deep_view() == sg::type_bound_diagnostics(
                self.deep_view(),
                f as int,
                old(out).deep_view(),
            ),
    {
        let ghost ws = self.deep_view();
        let p = &self.index.files[f];
        assert(ws.index.files[f as int] == p.deep_view());
        let ghost wanted = sg::methods_from(ws, f as int, 0, out.deep_view());
        let mut i: usize = 0;
        while i < p.symbols.len()
            invariant
                i <= p.symbols@.len(),
                ws == self.deep_view(),
                f < self.index.files@.len(),
                p == self.index.files@[f as int],
                ws.index.files[f as int] == p.deep_view(),
                wanted == sg::methods_from(ws, f as int, i as int, out.deep_view()),
            decreases p.symbols@.len() - i,
        {
            put_some(out, self.method_diagnostic(f, i));
            self.check_type(f, i, out);
            i = i + 1;
        }
        let ghost rest = sg::generics_from(ws, f as int, 0, out.deep_view());
        let mut k: usize = 0;
        while k < p.generic_bindings.len()
            invariant
                k <= p.generic_bindings@.len(),
                ws == self.deep_view(),
                f < self.index.files@.len(),
                ws.index.files[f as int] == p.deep_view(),
                rest == sg::generics_from(ws, f as int, k as int, out.deep_view()),
            decreases p.generic_bindings@.len() - k,
        {
            assert(p.deep_view().generic_bindings[k as int]
                == p.generic_bindings@[k as int].deep_view());
            self.check_binding(f, &p.generic_bindings[k], out);
            k = k + 1;
        }
    }
}

} // verus!
