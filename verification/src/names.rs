//! What is wrong with the names that a file declares and refers to.

use vstd::prelude::*;

use crate::list::put;
use crate::model::{
    Diagnostic, DiagnosticSeverity, ImportKind, ImportStmt, ParsedFile, Position, Range, Symbol,
    SymbolKind, UseStmt,
};
use crate::modules::{Export, brings, module_file};
use crate::resolve::{
    ancestor_of, eq_scopes, interface_at, is_link, outer_scopes, prototype_in, scope_of, symbol_in,
};
use crate::scan::paren_content;
use crate::spec::checks as sy;
use crate::spec::model as sm;
use crate::spec::names as sn;
use crate::spec::text as st;
use crate::text::{
    after_keyword, chars, contains, copy_texts, first_ident, first_ident_is, has_name,
    is_fortran_name, lower, owned, push_text, same_text, same_word, strip_char, text, trim,
};
use crate::workspace::Workspace;

verus! {

// ---------------------------------------------------------------------------
// Types
// ---------------------------------------------------------------------------

/// Whether a word is a type that can have a kind.
fn is_numeric_type(word: &[char]) -> (r: bool)
    ensures
        r == sn::is_numeric_type(word@),
{
    same_word(word, "integer") || same_word(word, "real") || same_word(word, "complex")
        || same_word(word, "logical")
}

/// Whether a word is the name of an intrinsic type.
pub fn is_intrinsic_type(word: &[char]) -> (r: bool)
    ensures
        r == sn::is_intrinsic_type(word@),
{
    is_numeric_type(word) || same_word(word, "character") || same_word(word, "double") || same_word(
        word,
        "doubleprecision",
    )
}

/// The value behind `kind =`.
fn named_kind<'a>(inner: &'a [char]) -> (r: Option<&'a [char]>)
    ensures
        st::slice(r) == sn::named_kind(inner@),
{
    match after_keyword(inner, "kind") {
        Some(rest) => match strip_char(trim(rest), '=') {
            Some(value) => Some(trim(value)),
            None => None,
        },
        None => None,
    }
}

/// The name of the kind of a type, and whether it stands there on its own.
fn kind_name(type_spec: &str) -> (r: Option<(String, bool)>)
    ensures
        r.deep_view() == sn::kind_name(type_spec@),
{
    let t = chars(type_spec);
    match first_ident(t.as_slice()) {
        Some(word) => if is_numeric_type(word) {
            match paren_content(t.as_slice()) {
                Some(inner) => match named_kind(trim(inner)) {
                    Some(name) => if is_fortran_name(name) {
                        Some((text(name), false))
                    } else {
                        None
                    },
                    None => if is_fortran_name(trim(inner)) {
                        Some((text(trim(inner)), true))
                    } else {
                        None
                    },
                },
                None => None,
            }
        } else {
            None
        },
        None => None,
    }
}

/// The name of the derived type in `type(name)` or `class(name)`.
pub fn derived_type(type_spec: &str) -> (r: Option<String>)
    ensures
        r.deep_view() == sn::derived_type(type_spec@),
{
    let t = chars(type_spec);
    if first_ident_is(t.as_slice(), "type") || first_ident_is(t.as_slice(), "class") {
        match paren_content(t.as_slice()) {
            Some(inner) => match first_ident(inner) {
                Some(name) => Some(text(name)),
                None => None,
            },
            None => None,
        }
    } else {
        None
    }
}

/// The name of the type that a declaration refers to.
pub fn declared_type(type_spec: &str) -> (r: Option<String>)
    ensures
        r.deep_view() == sn::declared_type(type_spec@),
{
    match derived_type(type_spec) {
        Some(name) => {
            let word = chars(name.as_str());
            if is_intrinsic_type(word.as_slice()) {
                None
            } else {
                Some(name)
            }
        },
        None => None,
    }
}

/// The type in the declaration of a variable.
pub fn variable_type<'a>(s: &'a Symbol) -> (r: Option<&'a String>)
    ensures
        r.deep_view() == sn::variable_type(s.deep_view()),
{
    if s.kind == SymbolKind::Variable {
        match &s.type_spec {
            Some(t) => Some(t),
            None => None,
        }
    } else {
        None
    }
}

// ---------------------------------------------------------------------------
// Messages
// ---------------------------------------------------------------------------

/// A message about a name.
pub fn about(before: &str, name: &str, after: &str) -> (r: String)
    ensures
        r@ == before@ + name@ + after@,
{
    let mut out = owned(before);
    push_text(&mut out, name);
    push_text(&mut out, after);
    out
}

fn unknown_object(range: Range, name: &str) -> (r: Diagnostic)
    ensures
        r.deep_view() == sn::unknown_object(range, name@),
{
    Diagnostic {
        range,
        severity: DiagnosticSeverity::Error,
        message: about("object \"", name, "\" not found in scope"),
    }
}

fn missing_import(s: &Symbol, name: &str) -> (r: Diagnostic)
    ensures
        r.deep_view() == sn::missing_import(s.deep_view(), name@),
{
    Diagnostic {
        range: s.selection_range,
        severity: DiagnosticSeverity::Error,
        message: about("Object \"", name, "\" not imported in interface"),
    }
}

fn unknown_type(s: &Symbol, name: &str) -> (r: Diagnostic)
    ensures
        r.deep_view() == sn::unknown_type(s.deep_view(), name@),
{
    let mut message = about("declared type `", name, "` of `");
    push_text(&mut message, s.name.as_str());
    push_text(&mut message, "` could not be resolved");
    Diagnostic { range: s.selection_range, severity: DiagnosticSeverity::Error, message }
}

fn unknown_import(m: &ImportStmt, name: &str) -> (r: Diagnostic)
    ensures
        r.deep_view() == sn::unknown_import(m.deep_view(), name@),
{
    Diagnostic {
        range: m.range,
        severity: DiagnosticSeverity::Error,
        message: about("host scope does not define imported name `", name, "`"),
    }
}

fn unknown_prototype(s: &Symbol) -> (r: Diagnostic)
    ensures
        r.deep_view() == sn::unknown_prototype(s.deep_view()),
{
    Diagnostic {
        range: s.selection_range,
        severity: DiagnosticSeverity::Error,
        message: about(
            "module procedure `",
            s.name.as_str(),
            "` has no matching ancestor interface",
        ),
    }
}

fn unknown_link(s: &Symbol, interface: &str) -> (r: Diagnostic)
    requires
        s.deep_view().scope.last() == interface@,
    ensures
        r.deep_view() == sn::unknown_link(s.deep_view()),
{
    let mut message = about(
        "generic interface `",
        interface,
        "` references unknown module procedure `",
    );
    push_text(&mut message, s.name.as_str());
    push_text(&mut message, "`");
    Diagnostic { range: s.selection_range, severity: DiagnosticSeverity::Error, message }
}

fn hiding(s: &Symbol, name: &str) -> (r: Diagnostic)
    ensures
        r.deep_view() == sn::hiding(s.deep_view(), name@),
{
    Diagnostic {
        range: s.selection_range,
        severity: DiagnosticSeverity::Warning,
        message: about("Variable \"", name, "\" masks variable in parent scope"),
    }
}

/// Puts a diagnostic behind the others, if there is one.
pub fn put_some(out: &mut Vec<Diagnostic>, d: Option<Diagnostic>)
    ensures
        final(out).deep_view() == sy::with_diagnostic(old(out).deep_view(), d.deep_view()),
{
    if let Some(d) = d {
        put(out, d);
    }
}

// ---------------------------------------------------------------------------
// Scopes
// ---------------------------------------------------------------------------

/// Whether a symbol is the first variable that its line declares.
fn is_first_on_line(symbols: &Vec<Symbol>, i: usize) -> (r: bool)
    requires
        i < symbols@.len(),
    ensures
        r == sn::is_first_on_line(symbols.deep_view(), i as int),
{
    let ghost all = symbols.deep_view();
    assert(all[i as int] == symbols@[i as int].deep_view());
    if i == 0 {
        return true;
    }
    assert(all[i - 1] == symbols@[i - 1].deep_view());
    symbols[i - 1].kind != SymbolKind::Variable || symbols[i - 1].selection_range.start.line
        != symbols[i].selection_range.start.line
}

/// The first level where a scope enters an interface.
fn interface_level(symbols: &Vec<Symbol>, scope: &Vec<String>) -> (r: Option<usize>)
    ensures
        st::at(r) == sn::interface_level(symbols.deep_view(), scope.deep_view(), 0),
        r matches Some(k) ==> k + 1 < scope@.len(),
{
    let n: usize = scope.len();
    let mut k: usize = 0;
    while k < n && k + 1 < n
        invariant
            k <= n == scope@.len(),
            scope.deep_view().len() == scope@.len(),
            sn::interface_level(symbols.deep_view(), scope.deep_view(), 0) == sn::interface_level(
                symbols.deep_view(),
                scope.deep_view(),
                k as int,
            ),
        decreases n - k,
    {
        assert(scope.deep_view()[k as int] == scope@[k as int]@);
        assert(scope.deep_view()[k + 1] == scope@[k + 1]@);
        if interface_at(symbols, &outer_scopes(scope, k), scope[k].as_str()) && symbol_in(
            symbols,
            &outer_scopes(scope, k + 1),
            scope[k + 1].as_str(),
        ).is_some() {
            return Some(k);
        }
        k = k + 1;
    }
    None
}

/// Whether a procedure of an interface is that of a module.
fn is_module_prototype(s: &Symbol) -> (r: bool)
    ensures
        r == sn::is_module_prototype(s.deep_view()),
{
    let signature = chars(s.signature.as_str());
    if after_keyword(signature.as_slice(), "module").is_some() {
        return true;
    }
    let small = lower(signature.as_slice());
    contains(small.as_slice(), " module function")
}

/// Whether a position lies in an abstract interface.
pub fn in_abstract(symbols: &Vec<Symbol>, pos: Position) -> (r: bool)
    ensures
        r == sn::in_abstract(symbols.deep_view(), pos),
{
    let ghost all = symbols.deep_view();
    let mut i: usize = 0;
    while i < symbols.len()
        invariant
            i <= symbols@.len(),
            all == symbols.deep_view(),
            forall|k: int|
                0 <= k < i ==> !((#[trigger] all[k]).kind is Interface && all[k].is_abstract
                    && sm::range_contains(all[k].range, pos)),
        decreases symbols@.len() - i,
    {
        let s = &symbols[i];
        assert(all[i as int] == s.deep_view());
        if s.kind == SymbolKind::Interface && s.is_abstract && s.range.contains(pos) {
            return true;
        }
        i = i + 1;
    }
    false
}

/// Whether a scope is one of those from level `n` on.
pub fn is_level_from(scope: &Vec<String>, other: &Vec<String>, n: usize) -> (r: bool)
    ensures
        r == sn::is_level_from(scope.deep_view(), other.deep_view(), n as int),
{
    assert(scope.deep_view().len() == scope@.len());
    assert(other.deep_view().len() == other@.len());
    n <= other.len() && other.len() <= scope.len() && eq_scopes(
        other,
        &outer_scopes(scope, other.len()),
    )
}

/// Whether an `import` statement of one of the scopes from level `n` on brings
/// a name in.
fn is_imported(imports: &Vec<ImportStmt>, scope: &Vec<String>, name: &str, n: usize) -> (r: bool)
    ensures
        r == sn::is_imported(imports.deep_view(), scope.deep_view(), name@, n as int),
{
    let ghost all = imports.deep_view();
    let mut i: usize = 0;
    while i < imports.len()
        invariant
            i <= imports@.len(),
            all == imports.deep_view(),
            forall|k: int|
                0 <= k < i ==> !(sn::is_level_from(
                    scope.deep_view(),
                    (#[trigger] all[k]).scope,
                    n as int,
                ) && sn::imports_name(all[k], name@)),
        decreases imports@.len() - i,
    {
        let m = &imports[i];
        assert(all[i as int] == m.deep_view());
        let names = m.names.as_slice();
        assert(names.deep_view() =~= m.names.deep_view());
        let brought: bool = m.kind == ImportKind::All || m.kind == ImportKind::Only && has_name(
            names,
            name,
        );
        if brought && is_level_from(scope, &m.scope, n) {
            return true;
        }
        i = i + 1;
    }
    false
}

/// The level where the host of the scope of an `import` statement ends.
pub fn host_level(symbols: &Vec<Symbol>, scope: &Vec<String>) -> (r: usize)
    ensures
        r == sn::host_level(symbols.deep_view(), scope.deep_view(), scope@.len() as int),
        r <= scope@.len(),
{
    assert(scope.deep_view().len() == scope@.len());
    let mut n: usize = scope.len();
    while n > 0
        invariant
            n <= scope@.len(),
            scope.deep_view().len() == scope@.len(),
            sn::host_level(symbols.deep_view(), scope.deep_view(), scope@.len() as int)
                == sn::host_level(symbols.deep_view(), scope.deep_view(), n as int),
        decreases n,
    {
        assert(scope.deep_view()[n - 1] == scope@[n - 1]@);
        if interface_at(symbols, &outer_scopes(scope, n - 1), scope[n - 1].as_str()) {
            return n - 1;
        }
        n = n - 1;
    }
    if scope.len() == 0 {
        0
    } else {
        scope.len() - 1
    }
}

/// Whether one of the scopes, without the one that holds everything, has a
/// variable `name`.
fn has_variable(symbols: &Vec<Symbol>, scope: &Vec<String>, name: &str) -> (r: bool)
    ensures
        r == sn::has_variable(
            symbols.deep_view(),
            scope.deep_view(),
            name@,
            scope@.len() as int,
        ),
{
    let mut n: usize = scope.len();
    while n > 0
        invariant
            n <= scope@.len(),
            sn::has_variable(symbols.deep_view(), scope.deep_view(), name@, scope@.len() as int)
                == sn::has_variable(symbols.deep_view(), scope.deep_view(), name@, n as int),
        decreases n,
    {
        if let Some(k) = symbol_in(symbols, &outer_scopes(scope, n), name) {
            assert(symbols.deep_view()[k as int] == symbols@[k as int].deep_view());
            if symbols[k].kind == SymbolKind::Variable {
                return true;
            }
        }
        n = n - 1;
    }
    false
}

/// The diagnostic for the result of a function that is not declared and hides a
/// variable around the function.
fn result_diagnostic(p: &ParsedFile, i: usize) -> (r: Option<Diagnostic>)
    requires
        i < p.symbols@.len(),
    ensures
        r.deep_view() == sn::result_diagnostic(p.deep_view(), i as int),
{
    let s = &p.symbols[i];
    assert(p.deep_view().symbols[i as int] == s.deep_view());
    assert(s.deep_view().scope.len() == s.scope@.len());
    match &s.result {
        Some(name) => {
            let mut inner = copy_texts(&s.scope);
            put(&mut inner, s.name.clone());
            if s.kind == SymbolKind::Function && symbol_in(
                &p.symbols,
                &inner,
                name.as_str(),
            ).is_none() && has_variable(&p.symbols, &s.scope, name.as_str()) {
                Some(hiding(s, name.as_str()))
            } else {
                None
            }
        },
        None => None,
    }
}

/// Whether one of the first `n` symbols is a variable of another procedure of
/// the same submodule, with the same name.
fn has_sibling(symbols: &Vec<Symbol>, s: &Symbol, n: usize) -> (r: bool)
    requires
        n <= symbols@.len(),
        s.scope@.len() == 2,
    ensures
        r == sn::has_sibling(symbols.deep_view(), s.deep_view(), n as int),
{
    let ghost all = symbols.deep_view();
    assert(s.deep_view().scope[0] == s.scope@[0]@ && s.deep_view().scope[1] == s.scope@[1]@);
    let mut j: usize = 0;
    while j < n
        invariant
            j <= n <= symbols@.len(),
            s.scope@.len() == 2,
            s.deep_view().scope[0] == s.scope@[0]@,
            s.deep_view().scope[1] == s.scope@[1]@,
            all == symbols.deep_view(),
            forall|k: int| 0 <= k < j ==> !sn::is_sibling(s.deep_view(), #[trigger] all[k]),
        decreases n - j,
    {
        let other = &symbols[j];
        assert(all[j as int] == other.deep_view());
        assert(other.deep_view().scope.len() == other.scope@.len());
        if other.kind == SymbolKind::Variable && other.scope.len() == 2 {
            assert(other.deep_view().scope[0] == other.scope@[0]@);
            assert(other.deep_view().scope[1] == other.scope@[1]@);
            if same_text(other.scope[0].as_str(), s.scope[0].as_str()) && !same_text(
                other.scope[1].as_str(),
                s.scope[1].as_str(),
            ) && same_text(other.name.as_str(), s.name.as_str()) {
                assert(sn::is_sibling(s.deep_view(), all[j as int]));
                return true;
            }
        }
        j = j + 1;
    }
    false
}

/// Whether another function that a module declares in an interface with a name
/// has a result with the given name.
fn has_named_result(symbols: &Vec<Symbol>, module: &str, owner: &str, name: &str) -> (r: bool)
    ensures
        r == sn::has_named_result(symbols.deep_view(), module@, owner@, name@),
{
    let ghost all = symbols.deep_view();
    let mut j: usize = 0;
    while j < symbols.len()
        invariant
            j <= symbols@.len(),
            all == symbols.deep_view(),
            forall|k: int|
                0 <= k < j ==> !sn::is_named_result(#[trigger] all[k], module@, owner@, name@),
        decreases symbols@.len() - j,
    {
        let q = &symbols[j];
        assert(all[j as int] == q.deep_view());
        assert(q.deep_view().scope.len() == q.scope@.len());
        if q.kind == SymbolKind::Function && q.scope.len() == 2 {
            assert(q.deep_view().scope[0] == q.scope@[0]@);
            assert(q.deep_view().scope[1] == q.scope@[1]@);
            let named: bool = match &q.result {
                Some(r) => same_text(r.as_str(), name),
                None => false,
            };
            if named && same_text(q.scope[0].as_str(), module) && !same_text(
                q.scope[1].as_str(),
                "interface",
            ) && !same_text(q.name.as_str(), owner) {
                assert(sn::is_named_result(all[j as int], module@, owner@, name@));
                return true;
            }
        }
        j = j + 1;
    }
    false
}

fn twice(s: &Symbol, name: &str) -> (r: Diagnostic)
    ensures
        r.deep_view() == sn::twice(s.deep_view(), name@),
{
    Diagnostic {
        range: s.selection_range,
        severity: DiagnosticSeverity::Error,
        message: about("Variable \"", name, "\" declared twice in scope"),
    }
}

/// The diagnostic for a function whose result has the name of an argument.
fn twice_diagnostic(s: &Symbol) -> (r: Option<Diagnostic>)
    ensures
        r.deep_view() == sn::twice_diagnostic(s.deep_view()),
{
    let args = s.args.as_slice();
    assert(args.deep_view() =~= s.args.deep_view());
    match &s.result {
        Some(name) => if s.kind == SymbolKind::Function && has_name(args, name.as_str()) {
            Some(twice(s, name.as_str()))
        } else {
            None
        },
        None => None,
    }
}

// ---------------------------------------------------------------------------
// In the workspace
// ---------------------------------------------------------------------------

impl Workspace {
    /// The diagnostic for a kind that is not known.
    fn kind_diagnostic(&self, f: usize, i: usize) -> (r: Option<Diagnostic>)
        requires
            f < self.index.files@.len(),
            i < self.index.files@[f as int].symbols@.len(),
        ensures
            r.deep_view() == sn::kind_diagnostic(self.deep_view(), f as int, i as int),
    {
        let p = &self.index.files[f];
        let s = &p.symbols[i];
        assert(self.deep_view().index.files[f as int] == p.deep_view());
        assert(p.deep_view().symbols[i as int] == s.deep_view());
        match variable_type(s) {
            Some(type_spec) => match kind_name(type_spec.as_str()) {
                Some((name, shorthand)) => if is_first_on_line(&p.symbols, i) && self.known(
                    f,
                    &s.scope,
                    name.as_str(),
                    shorthand,
                ) == Export::No {
                    Some(unknown_object(s.selection_range, name.as_str()))
                } else {
                    None
                },
                None => None,
            },
            None => None,
        }
    }

    /// Whether one of the scopes from level `n` on knows a name without those
    /// around it.
    fn known_inside(&self, f: usize, scope: &Vec<String>, name: &str, n: usize) -> (r: bool)
        requires
            f < self.index.files@.len(),
        ensures
            r == sn::known_inside(
                self.deep_view(),
                f as int,
                scope.deep_view(),
                name@,
                n as int,
            ),
    {
        assert(scope.deep_view().len() == scope@.len());
        if n > scope.len() {
            return false;
        }
        let mut k: usize = n;
        while k < scope.len()
            invariant
                n <= k <= scope@.len(),
                scope.deep_view().len() == scope@.len(),
                f < self.index.files@.len(),
                sn::known_inside(self.deep_view(), f as int, scope.deep_view(), name@, n as int)
                    == sn::known_inside(
                    self.deep_view(),
                    f as int,
                    scope.deep_view(),
                    name@,
                    k as int,
                ),
            decreases scope@.len() - k,
        {
            if self.known_at(f, &outer_scopes(scope, k), name, false, Export::No) != Export::No {
                return true;
            }
            k = k + 1;
        }
        assert(!sn::known_inside(
            self.deep_view(),
            f as int,
            scope.deep_view(),
            name@,
            k + 1,
        ));
        self.known_at(f, &outer_scopes(scope, k), name, false, Export::No) != Export::No
    }

    /// Whether an interface that is not abstract refers to a name of its host
    /// without importing it.
    fn lacks_import(&self, f: usize, s: &Symbol, name: &str) -> (r: bool)
        requires
            f < self.index.files@.len(),
        ensures
            r == sn::lacks_import(self.deep_view(), f as int, s.deep_view(), name@),
    {
        let scope = &s.scope;
        let p = &self.index.files[f];
        assert(self.deep_view().index.files[f as int] == p.deep_view());
        match interface_level(&p.symbols, scope) {
            Some(k) => {
                assert(k + 1 < scope@.len() == scope.len());
                assert(scope.deep_view()[k + 1] == scope@[k + 1]@);
                match symbol_in(&p.symbols, &outer_scopes(scope, k + 1), scope[k + 1].as_str()) {
                    Some(proto) => {
                        assert(p.deep_view().symbols[proto as int]
                            == p.symbols@[proto as int].deep_view());
                        !is_module_prototype(&p.symbols[proto]) && !in_abstract(
                            &p.symbols,
                            s.selection_range.start,
                        ) && !is_imported(
                            &p.imports,
                            scope,
                            name,
                            k + 1,
                        ) && !self.known_inside(f, scope, name, k + 1) && self.known(
                            f,
                            scope,
                            name,
                            false,
                        ) == Export::Yes
                    },
                    None => false,
                }
            },
            None => false,
        }
    }

    /// The diagnostic for a declaration whose type is not known.
    fn type_diagnostic(&self, f: usize, i: usize) -> (r: Option<Diagnostic>)
        requires
            f < self.index.files@.len(),
            i < self.index.files@[f as int].symbols@.len(),
        ensures
            r.deep_view() == sn::type_diagnostic(self.deep_view(), f as int, i as int),
    {
        let p = &self.index.files[f];
        let s = &p.symbols[i];
        assert(self.deep_view().index.files[f as int] == p.deep_view());
        assert(p.deep_view().symbols[i as int] == s.deep_view());
        match variable_type(s) {
            Some(type_spec) => match declared_type(type_spec.as_str()) {
                Some(name) => if self.lacks_import(f, s, name.as_str()) {
                    Some(missing_import(s, name.as_str()))
                } else if self.known(f, &s.scope, name.as_str(), false) == Export::No {
                    Some(unknown_type(s, name.as_str()))
                } else {
                    None
                },
                None => None,
            },
            None => None,
        }
    }

    /// Adds the diagnostics for the names that an `import` statement names and
    /// its host does not know.
    fn check_import(&self, f: usize, m: &ImportStmt, host: &Vec<String>, out: &mut Vec<Diagnostic>)
        requires
            f < self.index.files@.len(),
        ensures
            final(out).deep_view() == sn::import_from(
                self.deep_view(),
                f as int,
                m.deep_view(),
                host.deep_view(),
                0,
                old(out).deep_view(),
            ),
    {
        let ghost all = m.deep_view().names;
        let ghost wanted = sn::import_from(
            self.deep_view(),
            f as int,
            m.deep_view(),
            host.deep_view(),
            0,
            out.deep_view(),
        );
        let mut j: usize = 0;
        while j < m.names.len()
            invariant
                j <= m.names@.len(),
                f < self.index.files@.len(),
                all == m.deep_view().names,
                wanted == sn::import_from(
                    self.deep_view(),
                    f as int,
                    m.deep_view(),
                    host.deep_view(),
                    j as int,
                    out.deep_view(),
                ),
            decreases m.names@.len() - j,
        {
            assert(all[j as int] == m.names@[j as int]@);
            if self.known(f, host, m.names[j].as_str(), false) == Export::No {
                put(out, unknown_import(m, m.names[j].as_str()));
            }
            j = j + 1;
        }
    }

    /// Adds the diagnostics for the `import` statements.
    fn check_imports(&self, f: usize, out: &mut Vec<Diagnostic>)
        requires
            f < self.index.files@.len(),
        ensures
            final(out).deep_view() == sn::imports_from(
                self.deep_view(),
                f as int,
                0,
                old(out).deep_view(),
            ),
    {
        let ghost ws = self.deep_view();
        let p = &self.index.files[f];
        assert(ws.index.files[f as int] == p.deep_view());
        let ghost wanted = sn::imports_from(ws, f as int, 0, out.deep_view());
        let mut i: usize = 0;
        while i < p.imports.len()
            invariant
                i <= p.imports@.len(),
                ws == self.deep_view(),
                f < self.index.files@.len(),
                ws.index.files[f as int] == p.deep_view(),
                wanted == sn::imports_from(ws, f as int, i as int, out.deep_view()),
            decreases p.imports@.len() - i,
        {
            let m = &p.imports[i];
            assert(p.deep_view().imports[i as int] == m.deep_view());
            assert(m.deep_view().scope.len() == m.scope@.len());
            if m.kind == ImportKind::Only {
                let n: usize = host_level(&p.symbols, &m.scope);
                self.check_import(f, m, &outer_scopes(&m.scope, n), out);
            }
            i = i + 1;
        }
    }

    /// The diagnostic for a procedure of a submodule that the ancestor does
    /// not declare.
    fn procedure_diagnostic(&self, f: usize, i: usize) -> (r: Option<Diagnostic>)
        requires
            f < self.index.files@.len(),
            i < self.index.files@[f as int].symbols@.len(),
        ensures
            r.deep_view() == sn::procedure_diagnostic(self.deep_view(), f as int, i as int),
    {
        let p = &self.index.files[f];
        let s = &p.symbols[i];
        assert(self.deep_view().index.files[f as int] == p.deep_view());
        assert(p.deep_view().symbols[i as int] == s.deep_view());
        assert(s.deep_view().scope.len() == s.scope@.len());
        if !s.is_module_procedure || s.scope.len() != 1 {
            return None;
        }
        match ancestor_of(p, &s.scope) {
            Some(module) => match module_file(&self.index.files, module.as_str()) {
                Some(g) => {
                    assert(self.deep_view().index.files[g as int]
                        == self.index.files@[g as int].deep_view());
                    if prototype_in(
                        &self.index.files[g].symbols,
                        &scope_of(module.as_str()),
                        s.name.as_str(),
                    ).is_none() {
                        Some(unknown_prototype(s))
                    } else {
                        None
                    }
                },
                None => None,
            },
            None => None,
        }
    }

    /// The diagnostic for a procedure that an interface takes from its module
    /// and that is not there.
    fn link_diagnostic(&self, f: usize, i: usize) -> (r: Option<Diagnostic>)
        requires
            f < self.index.files@.len(),
            i < self.index.files@[f as int].symbols@.len(),
        ensures
            r.deep_view() == sn::link_diagnostic(self.deep_view(), f as int, i as int),
    {
        let p = &self.index.files[f];
        let s = &p.symbols[i];
        assert(self.deep_view().index.files[f as int] == p.deep_view());
        assert(p.deep_view().symbols[i as int] == s.deep_view());
        let n: usize = s.scope.len();
        assert(s.deep_view().scope.len() == n);
        if n == 0 || !is_link(s) {
            return None;
        }
        let outer = outer_scopes(&s.scope, n - 1);
        assert(outer.deep_view() =~= s.deep_view().scope.drop_last());
        assert(s.deep_view().scope.last() == s.scope@[n - 1]@);
        let interface = s.scope[n - 1].as_str();
        if interface_at(&p.symbols, &outer, interface) && self.known(
            f,
            &outer,
            s.name.as_str(),
            false,
        ) == Export::No && self.index.global(s.name.as_str()).is_none() {
            Some(unknown_link(s, interface))
        } else {
            None
        }
    }

    /// Whether a use of a whole module in one of the scopes around another one
    /// makes a named constant known under a name.
    fn brings_constant(&self, u: &UseStmt, scope: &Vec<String>, name: &str) -> (r: bool)
        ensures
            r == sn::brings_constant(self.deep_view(), u.deep_view(), scope.deep_view(), name@),
    {
        assert(u.deep_view().only.len() == u.only@.len());
        assert(u.deep_view().scope.len() == u.scope@.len());
        assert(scope.deep_view().len() == scope@.len());
        if u.only.len() > 0 || u.intrinsic || u.scope.len() >= scope.len() || !is_level_from(
            scope,
            &u.scope,
            0,
        ) {
            return false;
        }
        match brings(u, name) {
            Some(remote) => match self.index.exported(u.module.as_str(), remote.as_str()) {
                Some(r) => {
                    assert(self.deep_view().index.files[r.file as int]
                        == self.index.files@[r.file as int].deep_view());
                    assert(self.index.files@[r.file as int].deep_view().symbols[r.symbol as int]
                        == self.index.files@[r.file as int].symbols@[r.symbol as int].deep_view());
                    self.index.files[r.file].symbols[r.symbol].is_parameter
                },
                None => false,
            },
            None => false,
        }
    }

    /// The diagnostic for a variable of a procedure that hides a named
    /// constant of a module.
    fn constant_diagnostic(&self, f: usize, i: usize) -> (r: Option<Diagnostic>)
        requires
            f < self.index.files@.len(),
            i < self.index.files@[f as int].symbols@.len(),
        ensures
            r.deep_view() == sn::constant_diagnostic(self.deep_view(), f as int, i as int),
    {
        let ghost ws = self.deep_view();
        let p = &self.index.files[f];
        let s = &p.symbols[i];
        assert(ws.index.files[f as int] == p.deep_view());
        assert(p.deep_view().symbols[i as int] == s.deep_view());
        let n: usize = s.scope.len();
        assert(s.deep_view().scope.len() == n);
        if n < 2 || s.kind != SymbolKind::Variable {
            return None;
        }
        let outer = outer_scopes(&s.scope, n - 1);
        assert(outer.deep_view() =~= s.deep_view().scope.drop_last());
        assert(s.deep_view().scope.last() == s.scope@[n - 1]@);
        let local: bool = match symbol_in(&p.symbols, &outer, s.scope[n - 1].as_str()) {
            Some(k) => {
                assert(p.deep_view().symbols[k as int] == p.symbols@[k as int].deep_view());
                p.symbols[k].kind.is_procedure()
            },
            None => false,
        };
        if !local {
            return None;
        }
        let ghost all = p.deep_view().uses;
        let mut j: usize = 0;
        while j < p.uses.len()
            invariant
                j <= p.uses@.len(),
                i < p.symbols@.len(),
                ws == self.deep_view(),
                ws.index.files[f as int] == p.deep_view(),
                p.deep_view().symbols[i as int] == s.deep_view(),
                all == p.deep_view().uses,
                (exists|k: int|
                    0 <= k < all.len() && sn::brings_constant(
                        ws,
                        #[trigger] all[k],
                        s.deep_view().scope,
                        s.name@,
                    )) ==> sn::constant_diagnostic(ws, f as int, i as int) == Some(
                    sn::hiding(s.deep_view(), s.name@),
                ),
                forall|k: int|
                    0 <= k < j ==> !sn::brings_constant(
                        ws,
                        #[trigger] all[k],
                        s.deep_view().scope,
                        s.name@,
                    ),
            decreases p.uses@.len() - j,
        {
            assert(all[j as int] == p.uses@[j as int].deep_view());
            if self.brings_constant(&p.uses[j], &s.scope, s.name.as_str()) {
                return Some(hiding(s, s.name.as_str()));
            }
            j = j + 1;
        }
        None
    }

    /// The diagnostic for a variable in a procedure of a submodule that has
    /// the name of an interface of the ancestor, or of a variable in a
    /// procedure before it.
    fn submodule_diagnostic(&self, f: usize, i: usize) -> (r: Option<Diagnostic>)
        requires
            f < self.index.files@.len(),
            i < self.index.files@[f as int].symbols@.len(),
        ensures
            r.deep_view() == sn::submodule_diagnostic(self.deep_view(), f as int, i as int),
    {
        let p = &self.index.files[f];
        let s = &p.symbols[i];
        assert(self.deep_view().index.files[f as int] == p.deep_view());
        assert(p.deep_view().symbols[i as int] == s.deep_view());
        assert(s.deep_view().scope.len() == s.scope@.len());
        if s.kind != SymbolKind::Variable || s.scope.len() != 2 {
            return None;
        }
        assert(s.deep_view().scope[1] == s.scope@[1]@);
        let owner = s.scope[1].as_str();
        let k = match symbol_in(&p.symbols, &outer_scopes(&s.scope, 1), owner) {
            Some(k) => k,
            None => {
                return None;
            },
        };
        assert(p.deep_view().symbols[k as int] == p.symbols@[k as int].deep_view());
        let module = match ancestor_of(p, &s.scope) {
            Some(module) => module.as_str(),
            None => {
                return None;
            },
        };
        let g = match module_file(&self.index.files, module) {
            Some(g) => g,
            None => {
                return None;
            },
        };
        assert(self.deep_view().index.files[g as int] == self.index.files@[g as int].deep_view());
        let symbols = &self.index.files[g].symbols;
        let args = p.symbols[k].args.as_slice();
        assert(args.deep_view() =~= p.symbols@[k as int].args.deep_view());
        let place = scope_of(module);
        if prototype_in(symbols, &place, owner).is_some() && !has_name(args, s.name.as_str()) && (
        interface_at(symbols, &place, s.name.as_str()) || has_sibling(&p.symbols, s, i)) {
            Some(hiding(s, s.name.as_str()))
        } else {
            None
        }
    }

    /// The diagnostic for an argument of a function of a submodule that has
    /// the name of the result of another function that the ancestor declares.
    fn argument_diagnostic(&self, f: usize, i: usize) -> (r: Option<Diagnostic>)
        requires
            f < self.index.files@.len(),
            i < self.index.files@[f as int].symbols@.len(),
        ensures
            r.deep_view() == sn::argument_diagnostic(self.deep_view(), f as int, i as int),
    {
        let p = &self.index.files[f];
        let s = &p.symbols[i];
        assert(self.deep_view().index.files[f as int] == p.deep_view());
        assert(p.deep_view().symbols[i as int] == s.deep_view());
        assert(s.deep_view().scope.len() == s.scope@.len());
        if s.kind != SymbolKind::Variable || s.scope.len() != 2 {
            return None;
        }
        assert(s.deep_view().scope[1] == s.scope@[1]@);
        let owner = s.scope[1].as_str();
        let k = match symbol_in(&p.symbols, &outer_scopes(&s.scope, 1), owner) {
            Some(k) => k,
            None => {
                return None;
            },
        };
        assert(p.deep_view().symbols[k as int] == p.symbols@[k as int].deep_view());
        let args = p.symbols[k].args.as_slice();
        assert(args.deep_view() =~= p.symbols@[k as int].args.deep_view());
        match ancestor_of(p, &s.scope) {
            Some(module) => match module_file(&self.index.files, module.as_str()) {
                Some(g) => {
                    assert(self.deep_view().index.files[g as int]
                        == self.index.files@[g as int].deep_view());
                    if p.symbols[k].kind == SymbolKind::Function && has_name(
                        args,
                        s.name.as_str(),
                    ) && has_named_result(
                        &self.index.files[g].symbols,
                        module.as_str(),
                        owner,
                        s.name.as_str(),
                    ) {
                        Some(twice(s, s.name.as_str()))
                    } else {
                        None
                    }
                },
                None => None,
            },
            None => None,
        }
    }

    /// Adds the diagnostics for the names of a file.
    pub fn check_names(&self, f: usize, out: &mut Vec<Diagnostic>)
        requires
            f < self.index.files@.len(),
        ensures
            final(out).deep_view() == sn::name_diagnostics(
                self.deep_view(),
                f as int,
                old(out).deep_view(),
            ),
    {
        let ghost ws = self.deep_view();
        self.check_imports(f, out);
        let p = &self.index.files[f];
        assert(ws.index.files[f as int] == p.deep_view());
        let ghost wanted = sn::symbols_from(ws, f as int, 0, out.deep_view());
        let mut i: usize = 0;
        while i < p.symbols.len()
            invariant
                i <= p.symbols@.len(),
                ws == self.deep_view(),
                f < self.index.files@.len(),
                p == self.index.files@[f as int],
                ws.index.files[f as int] == p.deep_view(),
                wanted == sn::symbols_from(ws, f as int, i as int, out.deep_view()),
            decreases p.symbols@.len() - i,
        {
            put_some(out, self.kind_diagnostic(f, i));
            put_some(out, self.type_diagnostic(f, i));
            put_some(out, self.procedure_diagnostic(f, i));
            put_some(out, self.link_diagnostic(f, i));
            put_some(out, result_diagnostic(p, i));
            put_some(out, self.constant_diagnostic(f, i));
            put_some(out, self.submodule_diagnostic(f, i));
            put_some(out, self.argument_diagnostic(f, i));
            assert(p.deep_view().symbols[i as int] == p.symbols@[i as int].deep_view());
            put_some(out, twice_diagnostic(&p.symbols[i]));
            i = i + 1;
        }
    }
}

} // verus!
