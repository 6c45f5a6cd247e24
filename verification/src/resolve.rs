//! What a name stands for.

use vstd::prelude::*;

use crate::list::{empty, put};
use crate::model::{ParsedFile, Symbol, SymbolKind, UseStmt};
use crate::modules::{Export, Index, brings, is_exported, is_public, module_count, module_file};
use crate::spec::modules as sx;
use crate::spec::resolve as sv;
use crate::spec::text as st;
use crate::text::{chars, copy_texts, has_name, owned, same_scope, same_text, starts_with_word};
use crate::workspace::Workspace;

verus! {

/// A symbol of a workspace: the number of its file and its number there.
#[derive(Debug, Clone, Copy, PartialEq, Eq, Structural)]
pub struct SymbolRef {
    pub file: usize,
    pub symbol: usize,
}

impl SymbolRef {
    /// The model of a reference.
    pub open spec fn model(self) -> sv::Ref {
        (self.file as int, self.symbol as int)
    }
}

/// The model of a reference that there may be.
pub open spec fn ref_model(r: Option<SymbolRef>) -> Option<sv::Ref> {
    match r {
        Some(r) => Some(r.model()),
        None => None,
    }
}

/// Whether a reference leads to a symbol of a list of files.
pub open spec fn is_valid(files: Seq<ParsedFile>, r: Option<SymbolRef>) -> bool {
    r matches Some(r) ==> r.file < files.len() && r.symbol < files[r.file as int].symbols@.len()
}

// ---------------------------------------------------------------------------
// In a file
// ---------------------------------------------------------------------------

/// Whether two scopes are equal, case aside.
pub fn eq_scopes(a: &Vec<String>, b: &Vec<String>) -> (r: bool)
    ensures
        r == st::same_scope(a.deep_view(), b.deep_view()),
{
    let x = a.as_slice();
    let y = b.as_slice();
    assert(x.deep_view() =~= a.deep_view());
    assert(y.deep_view() =~= b.deep_view());
    same_scope(x, y)
}

/// The first symbol with a scope and a name.
pub fn symbol_in(symbols: &Vec<Symbol>, scope: &Vec<String>, name: &str) -> (r: Option<usize>)
    ensures
        st::at(r) == sv::symbol_from(symbols.deep_view(), scope.deep_view(), name@, 0),
        r matches Some(k) ==> k < symbols@.len(),
{
    let ghost all = symbols.deep_view();
    let mut i: usize = 0;
    while i < symbols.len()
        invariant
            i <= symbols@.len(),
            all == symbols.deep_view(),
            sv::symbol_from(symbols.deep_view(), scope.deep_view(), name@, 0) == sv::symbol_from(
                all,
                scope.deep_view(),
                name@,
                i as int,
            ),
        decreases symbols@.len() - i,
    {
        assert(all[i as int] == symbols@[i as int].deep_view());
        if same_text(symbols[i].name.as_str(), name) && eq_scopes(&symbols[i].scope, scope) {
            return Some(i);
        }
        i = i + 1;
    }
    None
}

/// Whether a scope has an interface `name`.
pub fn interface_at(symbols: &Vec<Symbol>, scope: &Vec<String>, name: &str) -> (r: bool)
    ensures
        r == sv::interface_at(symbols.deep_view(), scope.deep_view(), name@),
{
    let ghost all = symbols.deep_view();
    let mut i: usize = 0;
    while i < symbols.len()
        invariant
            i <= symbols@.len(),
            all == symbols.deep_view(),
            forall|k: int|
                0 <= k < i ==> !((#[trigger] all[k]).kind is Interface && st::same_scope(
                    all[k].scope,
                    scope.deep_view(),
                ) && st::same(all[k].name, name@)),
        decreases symbols@.len() - i,
    {
        let s = &symbols[i];
        assert(all[i as int] == s.deep_view());
        if s.kind == SymbolKind::Interface && same_text(s.name.as_str(), name) && eq_scopes(
            &s.scope,
            scope,
        ) {
            return true;
        }
        i = i + 1;
    }
    false
}

/// Whether a symbol stands for a procedure that is defined elsewhere.
pub fn is_link(s: &Symbol) -> (r: bool)
    ensures
        r == sv::is_link(s.deep_view()),
{
    let signature = chars(s.signature.as_str());
    starts_with_word(signature.as_slice(), "module procedure ")
}

/// The names of the first `n` scopes.
pub fn outer_scopes(scope: &Vec<String>, n: usize) -> (r: Vec<String>)
    requires
        n <= scope@.len(),
    ensures
        r.deep_view() == scope.deep_view().take(n as int),
{
    let ghost all = scope.deep_view();
    let mut out: Vec<String> = empty();
    let mut i: usize = 0;
    while i < n
        invariant
            i <= n <= scope@.len(),
            all == scope.deep_view(),
            out.deep_view() == all.take(i as int),
        decreases n - i,
    {
        assert(all[i as int] == scope@[i as int]@);
        put(&mut out, scope[i].clone());
        i = i + 1;
        assert(out.deep_view() =~= all.take(i as int));
    }
    out
}

/// Whether a symbol is a procedure that an interface of a scope declares.
pub fn is_prototype(symbols: &Vec<Symbol>, s: &Symbol, scope: &Vec<String>) -> (r: bool)
    ensures
        r == sv::is_prototype(symbols.deep_view(), s.deep_view(), scope.deep_view()),
{
    let n: usize = s.scope.len();
    assert(s.deep_view().scope.len() == n);
    assert(scope.deep_view().len() == scope@.len());
    if n == 0 || !s.kind.is_procedure() || is_link(s) || n - 1 != scope.len() {
        return false;
    }
    let around = outer_scopes(&s.scope, n - 1);
    assert(around.deep_view() =~= s.deep_view().scope.drop_last());
    assert(s.deep_view().scope.last() == s.scope@[n - 1]@);
    eq_scopes(&around, scope) && interface_at(symbols, scope, s.scope[n - 1].as_str())
}

/// The first procedure that an interface of a scope declares under a name.
pub fn prototype_in(symbols: &Vec<Symbol>, scope: &Vec<String>, name: &str) -> (r: Option<usize>)
    ensures
        st::at(r) == sv::prototype_from(symbols.deep_view(), scope.deep_view(), name@, 0),
        r matches Some(k) ==> k < symbols@.len(),
{
    let ghost all = symbols.deep_view();
    let mut i: usize = 0;
    while i < symbols.len()
        invariant
            i <= symbols@.len(),
            all == symbols.deep_view(),
            sv::prototype_from(symbols.deep_view(), scope.deep_view(), name@, 0)
                == sv::prototype_from(all, scope.deep_view(), name@, i as int),
        decreases symbols@.len() - i,
    {
        assert(all[i as int] == symbols@[i as int].deep_view());
        if same_text(symbols[i].name.as_str(), name) && is_prototype(symbols, &symbols[i], scope) {
            return Some(i);
        }
        i = i + 1;
    }
    None
}

/// What a name stands for among the symbols of a scope, and the procedures
/// that its interfaces declare.
pub fn own_symbol(symbols: &Vec<Symbol>, scope: &Vec<String>, name: &str) -> (r: Option<usize>)
    ensures
        st::at(r) == sv::own_symbol(symbols.deep_view(), scope.deep_view(), name@),
        r matches Some(k) ==> k < symbols@.len(),
{
    match symbol_in(symbols, scope, name) {
        Some(k) => Some(k),
        None => prototype_in(symbols, scope, name),
    }
}

/// The first symbol that a module has for others under a name.
fn exported_in(p: &ParsedFile, module: &str, name: &str) -> (r: Option<usize>)
    ensures
        st::at(r) == sv::exported_from(p.deep_view(), module@, name@, 0),
        r matches Some(k) ==> k < p.symbols@.len(),
{
    let ghost all = p.deep_view().symbols;
    let mut i: usize = 0;
    while i < p.symbols.len()
        invariant
            i <= p.symbols@.len(),
            all == p.deep_view().symbols,
            sv::exported_from(p.deep_view(), module@, name@, 0) == sv::exported_from(
                p.deep_view(),
                module@,
                name@,
                i as int,
            ),
        decreases p.symbols@.len() - i,
    {
        assert(all[i as int] == p.symbols@[i as int].deep_view());
        if is_exported(p, &p.symbols[i], module, name) {
            return Some(i);
        }
        i = i + 1;
    }
    None
}

/// The ancestor of the submodule around a scope.
pub fn ancestor_of<'a>(p: &'a ParsedFile, scope: &Vec<String>) -> (r: Option<&'a String>)
    ensures
        r.deep_view() == sv::ancestor_of(p.deep_view(), scope.deep_view()),
{
    assert(scope.deep_view().len() == scope@.len());
    if scope.len() == 0 {
        return None;
    }
    let ghost all = p.deep_view().symbols;
    let ghost outer = scope.deep_view()[0];
    assert(outer == scope@[0]@);
    let mut i: usize = 0;
    while i < p.symbols.len()
        invariant
            i <= p.symbols@.len(),
            scope@.len() > 0,
            outer == scope@[0]@,
            all == p.deep_view().symbols,
            sv::ancestor_of(p.deep_view(), scope.deep_view()) == sv::ancestor_from(
                all,
                outer,
                i as int,
            ),
        decreases p.symbols@.len() - i,
    {
        let s = &p.symbols[i];
        assert(all[i as int] == s.deep_view());
        assert(s.deep_view().scope.len() == s.scope@.len());
        if s.kind == SymbolKind::Submodule && s.scope.len() == 0 && same_text(
            s.name.as_str(),
            scope[0].as_str(),
        ) {
            return match &s.ancestor {
                Some(module) => Some(module),
                None => None,
            };
        }
        i = i + 1;
    }
    None
}

/// The first procedure that stands outside of any scope.
fn external_in(symbols: &Vec<Symbol>, name: &str) -> (r: Option<usize>)
    ensures
        st::at(r) == sv::external_from(symbols.deep_view(), name@, 0),
        r matches Some(k) ==> k < symbols@.len(),
{
    let ghost all = symbols.deep_view();
    let mut i: usize = 0;
    while i < symbols.len()
        invariant
            i <= symbols@.len(),
            all == symbols.deep_view(),
            sv::external_from(symbols.deep_view(), name@, 0) == sv::external_from(
                all,
                name@,
                i as int,
            ),
        decreases symbols@.len() - i,
    {
        let s = &symbols[i];
        assert(all[i as int] == s.deep_view());
        assert(s.deep_view().scope.len() == s.scope@.len());
        if s.kind.is_procedure() && s.scope.len() == 0 && same_text(s.name.as_str(), name) {
            return Some(i);
        }
        i = i + 1;
    }
    None
}

/// A scope of one name.
pub fn scope_of(name: &str) -> (r: Vec<String>)
    ensures
        r.deep_view() == seq![name@],
{
    let mut out: Vec<String> = empty();
    put(&mut out, owned(name));
    out
}

// ---------------------------------------------------------------------------
// In modules
// ---------------------------------------------------------------------------

impl Index {
    /// The symbol that a module exports under a name.
    fn export_ref(&self, module: &str, name: &str, open: &Vec<String>, fuel: usize) -> (r: Option<
        SymbolRef,
    >)
        ensures
            ref_model(r) == sv::export_ref(
                self.deep_view(),
                module@,
                name@,
                open.deep_view(),
                fuel as nat,
            ),
            is_valid(self.files@, r),
        decreases fuel, 1int,
    {
        let ghost index = self.deep_view();
        let f = match module_file(&self.files, module) {
            Some(f) => f,
            None => {
                return None;
            },
        };
        let p = &self.files[f];
        assert(index.files[f as int] == p.deep_view());
        if let Some(k) = exported_in(p, module, name) {
            return Some(SymbolRef { file: f, symbol: k });
        }
        let names = open.as_slice();
        assert(names.deep_view() =~= open.deep_view());
        if !is_public(p, module, name) || fuel == 0 || has_name(names, module) {
            return None;
        }
        let mut path = copy_texts(open);
        put(&mut path, owned(module));
        self.used_ref(&p.uses, &scope_of(module), name, &path, fuel - 1)
    }

    /// The symbol that the `use` statements of a scope make known under a
    /// name.
    fn used_ref(
        &self,
        uses: &Vec<UseStmt>,
        scope: &Vec<String>,
        name: &str,
        open: &Vec<String>,
        fuel: usize,
    ) -> (r: Option<SymbolRef>)
        ensures
            ref_model(r) == sv::used_from(
                self.deep_view(),
                uses.deep_view(),
                scope.deep_view(),
                name@,
                0,
                open.deep_view(),
                fuel as nat,
            ),
            is_valid(self.files@, r),
        decreases fuel, 2int,
    {
        let ghost all = uses.deep_view();
        let mut i: usize = 0;
        while i < uses.len()
            invariant
                i <= uses@.len(),
                all == uses.deep_view(),
                sv::used_from(
                    self.deep_view(),
                    uses.deep_view(),
                    scope.deep_view(),
                    name@,
                    0,
                    open.deep_view(),
                    fuel as nat,
                ) == sv::used_from(
                    self.deep_view(),
                    all,
                    scope.deep_view(),
                    name@,
                    i as int,
                    open.deep_view(),
                    fuel as nat,
                ),
            decreases uses@.len() - i,
        {
            let u = &uses[i];
            assert(all[i as int] == u.deep_view());
            if !u.intrinsic && eq_scopes(&u.scope, scope) {
                if let Some(remote) = brings(u, name) {
                    let found = self.export_ref(u.module.as_str(), remote.as_str(), open, fuel);
                    if found.is_some() {
                        return found;
                    }
                }
            }
            i = i + 1;
        }
        None
    }

    /// The symbol that the module `module` exports under a name.
    pub fn exported(&self, module: &str, name: &str) -> (r: Option<SymbolRef>)
        ensures
            ref_model(r) == sv::exported(self.deep_view(), module@, name@),
            is_valid(self.files@, r),
    {
        self.export_ref(module, name, &empty(), module_count(&self.files))
    }

    /// Whether the `use` statements of a scope make a name known.
    pub fn used_export(
        &self,
        uses: &Vec<UseStmt>,
        scope: &Vec<String>,
        name: &str,
        strict: bool,
        known: Export,
    ) -> (r: Export)
        ensures
            r.model() == sv::used_export_from(
                self.deep_view(),
                uses.deep_view(),
                scope.deep_view(),
                name@,
                strict,
                0,
                known.model(),
            ),
    {
        let ghost all = uses.deep_view();
        let mut found = known;
        let mut i: usize = 0;
        while i < uses.len()
            invariant
                i <= uses@.len(),
                all == uses.deep_view(),
                sv::used_export_from(
                    self.deep_view(),
                    uses.deep_view(),
                    scope.deep_view(),
                    name@,
                    strict,
                    0,
                    known.model(),
                ) == sv::used_export_from(
                    self.deep_view(),
                    all,
                    scope.deep_view(),
                    name@,
                    strict,
                    i as int,
                    found.model(),
                ),
            decreases uses@.len() - i,
        {
            let u = &uses[i];
            assert(all[i as int] == u.deep_view());
            assert(u.deep_view().only.len() == u.only@.len());
            let next = if eq_scopes(&u.scope, scope) {
                match brings(u, name) {
                    Some(remote) => if strict && u.only.len() > 0 && !self.is_resolved(u) {
                        Export::No
                    } else {
                        self.use_exports(u, remote.as_str())
                    },
                    None => Export::No,
                }
            } else {
                Export::No
            };
            if next == Export::Yes {
                return Export::Yes;
            }
            if next == Export::Unknown {
                found = Export::Unknown;
            }
            i = i + 1;
        }
        found
    }

    /// The first procedure that stands outside of any scope.
    pub fn global(&self, name: &str) -> (r: Option<SymbolRef>)
        ensures
            ref_model(r) == sv::global_from(self.deep_view().files, name@, 0),
            is_valid(self.files@, r),
    {
        let ghost all = self.deep_view().files;
        let mut i: usize = 0;
        while i < self.files.len()
            invariant
                i <= self.files@.len(),
                all == self.deep_view().files,
                sv::global_from(self.deep_view().files, name@, 0) == sv::global_from(
                    all,
                    name@,
                    i as int,
                ),
            decreases self.files@.len() - i,
        {
            assert(all[i as int] == self.files@[i as int].deep_view());
            if let Some(k) = external_in(&self.files[i].symbols, name) {
                return Some(SymbolRef { file: i, symbol: k });
            }
            i = i + 1;
        }
        None
    }
}

// ---------------------------------------------------------------------------
// In scopes
// ---------------------------------------------------------------------------

impl Workspace {
    /// The symbol that a file has outside of any scope, or a file that it
    /// takes in there.
    fn in_included(&self, g: usize, name: &str, fuel: usize) -> (r: Option<SymbolRef>)
        requires
            g < self.index.files@.len(),
        ensures
            ref_model(r) == sv::in_included(self.deep_view(), g as int, name@, fuel as nat),
            is_valid(self.index.files@, r),
        decreases fuel, 0int,
    {
        assert(self.deep_view().index.files[g as int] == self.index.files@[g as int].deep_view());
        if let Some(k) = symbol_in(&self.index.files[g].symbols, &empty(), name) {
            return Some(SymbolRef { file: g, symbol: k });
        }
        if fuel == 0 {
            None
        } else {
            self.included_ref(g, &empty(), name, fuel - 1)
        }
    }

    /// The symbol that a file takes in with the statements of a scope.
    fn included_ref(&self, f: usize, scope: &Vec<String>, name: &str, fuel: usize) -> (r: Option<
        SymbolRef,
    >)
        requires
            f < self.index.files@.len(),
        ensures
            ref_model(r) == sv::included_from(
                self.deep_view(),
                f as int,
                scope.deep_view(),
                name@,
                0,
                fuel as nat,
            ),
            is_valid(self.index.files@, r),
        decreases fuel, 1int,
    {
        let ghost ws = self.deep_view();
        let p = &self.index.files[f];
        assert(ws.index.files[f as int] == p.deep_view());
        let mut i: usize = 0;
        while i < p.includes.len()
            invariant
                i <= p.includes@.len(),
                ws == self.deep_view(),
                f < self.index.files@.len(),
                ws.index.files[f as int] == p.deep_view(),
                sv::included_from(
                    ws,
                    f as int,
                    scope.deep_view(),
                    name@,
                    0,
                    fuel as nat,
                ) == sv::included_from(
                    ws,
                    f as int,
                    scope.deep_view(),
                    name@,
                    i as int,
                    fuel as nat,
                ),
            decreases p.includes@.len() - i,
        {
            let stmt = &p.includes[i];
            assert(p.deep_view().includes[i as int] == stmt.deep_view());
            if eq_scopes(&stmt.scope, scope) {
                if let Some(path) = self.resolve_path(p.path.as_str(), stmt.path.as_str()) {
                    if let Some(g) = self.file_number(path.as_str()) {
                        let found = self.in_included(g, name, fuel);
                        if found.is_some() {
                            return found;
                        }
                    }
                }
            }
            i = i + 1;
        }
        None
    }

    /// What a name stands for in a scope of a file, leaving aside the scopes
    /// around it.
    pub fn at_scope(&self, f: usize, scope: &Vec<String>, name: &str) -> (r: Option<SymbolRef>)
        requires
            f < self.index.files@.len(),
        ensures
            ref_model(r) == sv::at_scope(self.deep_view(), f as int, scope.deep_view(), name@),
            is_valid(self.index.files@, r),
    {
        let p = &self.index.files[f];
        assert(self.deep_view().index.files[f as int] == p.deep_view());
        assert(self.deep_view().index.files.len() == self.index.files@.len());
        if let Some(k) = own_symbol(&p.symbols, scope, name) {
            return Some(SymbolRef { file: f, symbol: k });
        }
        let found = self.included_ref(f, scope, name, self.index.files.len());
        if found.is_some() {
            return found;
        }
        self.index.used_ref(&p.uses, scope, name, &empty(), module_count(&self.index.files))
    }

    /// What a name stands for in a scope of a file and the scopes around it.
    fn lookup_scopes(&self, f: usize, scope: &Vec<String>, name: &str) -> (r: Option<SymbolRef>)
        requires
            f < self.index.files@.len(),
        ensures
            ref_model(r) == sv::lookup_from(
                self.deep_view(),
                f as int,
                scope.deep_view(),
                name@,
                scope@.len(),
            ),
            is_valid(self.index.files@, r),
    {
        let mut n: usize = scope.len();
        while n > 0
            invariant
                n <= scope@.len(),
                f < self.index.files@.len(),
                sv::lookup_from(
                    self.deep_view(),
                    f as int,
                    scope.deep_view(),
                    name@,
                    scope@.len(),
                ) == sv::lookup_from(
                    self.deep_view(),
                    f as int,
                    scope.deep_view(),
                    name@,
                    n as nat,
                ),
            decreases n,
        {
            let found = self.at_scope(f, &outer_scopes(scope, n), name);
            if found.is_some() {
                return found;
            }
            n = n - 1;
        }
        self.at_scope(f, &outer_scopes(scope, 0), name)
    }

    /// What a name stands for in a scope of a file.
    pub fn lookup(&self, f: usize, scope: &Vec<String>, name: &str) -> (r: Option<SymbolRef>)
        requires
            f < self.index.files@.len(),
        ensures
            ref_model(r) == sv::lookup(self.deep_view(), f as int, scope.deep_view(), name@),
            is_valid(self.index.files@, r),
    {
        assert(scope.deep_view().len() == scope@.len());
        assert(self.deep_view().index.files[f as int] == self.index.files@[f as int].deep_view());
        let found = self.lookup_scopes(f, scope, name);
        if found.is_some() {
            return found;
        }
        match ancestor_of(&self.index.files[f], scope) {
            Some(module) => match module_file(&self.index.files, module.as_str()) {
                Some(g) => self.at_scope(g, &scope_of(module.as_str()), name),
                None => None,
            },
            None => None,
        }
    }

    /// What a name stands for in a scope of a file: what is known there, or
    /// else a procedure that stands on its own.
    pub fn resolve(&self, f: usize, scope: &Vec<String>, name: &str) -> (r: Option<SymbolRef>)
        requires
            f < self.index.files@.len(),
        ensures
            ref_model(r) == sv::resolve(self.deep_view(), f as int, scope.deep_view(), name@),
            is_valid(self.index.files@, r),
    {
        let found = self.lookup(f, scope, name);
        if found.is_some() {
            return found;
        }
        self.index.global(name)
    }

    // -----------------------------------------------------------------------
    // Whether a name can be known
    // -----------------------------------------------------------------------

    /// Whether a name is known in a scope of a file, leaving aside the scopes
    /// around it.
    pub fn known_at(
        &self,
        f: usize,
        scope: &Vec<String>,
        name: &str,
        strict: bool,
        found: Export,
    ) -> (r: Export)
        requires
            f < self.index.files@.len(),
        ensures
            r.model() == sv::known_at(
                self.deep_view(),
                f as int,
                scope.deep_view(),
                name@,
                strict,
                found.model(),
            ),
    {
        assert(self.deep_view().index.files[f as int] == self.index.files@[f as int].deep_view());
        if self.at_scope(f, scope, name).is_some() {
            Export::Yes
        } else {
            self.index.used_export(&self.index.files[f].uses, scope, name, strict, found)
        }
    }

    /// Whether a name is known in a scope of a file; it may not be known where
    /// a module is not.
    pub fn known(&self, f: usize, scope: &Vec<String>, name: &str, strict: bool) -> (r: Export)
        requires
            f < self.index.files@.len(),
        ensures
            r.model() == sv::known(
                self.deep_view(),
                f as int,
                scope.deep_view(),
                name@,
                strict,
            ),
    {
        let ghost ws = self.deep_view();
        assert(scope.deep_view().len() == scope@.len());
        assert(ws.index.files[f as int] == self.index.files@[f as int].deep_view());
        let ghost wanted = sv::known_from(
            ws,
            f as int,
            scope.deep_view(),
            name@,
            strict,
            scope@.len(),
            sx::Export::No,
        );
        let mut found = Export::No;
        let mut n: usize = scope.len();
        while n > 0
            invariant
                n <= scope@.len(),
                f < self.index.files@.len(),
                ws == self.deep_view(),
                wanted == sv::known_from(
                    ws,
                    f as int,
                    scope.deep_view(),
                    name@,
                    strict,
                    n as nat,
                    found.model(),
                ),
                sv::known(ws, f as int, scope.deep_view(), name@, strict) is Yes || !(
                wanted is Yes),
            decreases n,
        {
            found = self.known_at(f, &outer_scopes(scope, n), name, strict, found);
            if found == Export::Yes {
                return Export::Yes;
            }
            n = n - 1;
        }
        found = self.known_at(f, &outer_scopes(scope, 0), name, strict, found);
        if found == Export::Yes {
            return Export::Yes;
        }
        match ancestor_of(&self.index.files[f], scope) {
            Some(module) => match module_file(&self.index.files, module.as_str()) {
                Some(g) => self.known_at(g, &scope_of(module.as_str()), name, strict, found),
                None => Export::Unknown,
            },
            None => found,
        }
    }
}

} // verus!
