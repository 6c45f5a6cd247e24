//! What the modules of a workspace export.

use vstd::prelude::*;

use crate::intrinsics::{IntrinsicSymbol, find_intrinsic_module, module_exports};
use crate::list::{empty, put};
use crate::model::{ParsedFile, Symbol, SymbolKind, UseRename, UseStmt, Visibility, VisibilityStmt};
use crate::spec::modules as sx;
use crate::spec::text as st;
use crate::text::{copy_texts, has_name, owned, same_text, sum};

verus! {

/// The files of a workspace and the intrinsic symbols.
#[derive(Debug, PartialEq, Eq)]
pub struct Index {
    pub files: Vec<ParsedFile>,
    pub intrinsics: Vec<IntrinsicSymbol>,
}

impl DeepView for Index {
    type V = sx::Index;

    open spec fn deep_view(&self) -> sx::Index {
        sx::Index { files: self.files.deep_view(), intrinsics: self.intrinsics.deep_view() }
    }
}

/// Whether a module has a name for others: it may not be known where a module
/// that it uses is not.
#[derive(Debug, Clone, Copy, PartialEq, Eq, Structural)]
pub enum Export {
    Yes,
    No,
    Unknown,
}

impl Export {
    /// The model of an answer.
    pub open spec fn model(self) -> sx::Export {
        match self {
            Export::Yes => sx::Export::Yes,
            Export::No => sx::Export::No,
            Export::Unknown => sx::Export::Unknown,
        }
    }
}

// ---------------------------------------------------------------------------
// Finding modules
// ---------------------------------------------------------------------------

/// Whether a file holds the module `name`.
fn holds_module(p: &ParsedFile, name: &str) -> (r: bool)
    ensures
        r == sx::holds_module(p.deep_view(), name@),
{
    let ghost all = p.deep_view().symbols;
    let mut i: usize = 0;
    while i < p.symbols.len()
        invariant
            i <= p.symbols@.len(),
            all == p.deep_view().symbols,
            forall|k: int| 0 <= k < i ==> !sx::is_module(#[trigger] all[k], name@),
        decreases p.symbols@.len() - i,
    {
        let s = &p.symbols[i];
        assert(all[i as int] == s.deep_view());
        assert(s.deep_view().scope.len() == s.scope@.len());
        if s.kind == SymbolKind::Module && s.scope.len() == 0 && same_text(s.name.as_str(), name) {
            assert(sx::is_module(all[i as int], name@));
            return true;
        }
        i = i + 1;
    }
    false
}

/// The first file that holds the module `name`.
pub fn module_file(files: &Vec<ParsedFile>, name: &str) -> (r: Option<usize>)
    ensures
        st::at(r) == sx::module_file(files.deep_view(), name@),
        r matches Some(k) ==> k < files@.len(),
{
    let mut i: usize = 0;
    while i < files.len()
        invariant
            i <= files@.len(),
            sx::module_file(files.deep_view(), name@) == sx::module_file_from(
                files.deep_view(),
                name@,
                i as int,
            ),
        decreases files@.len() - i,
    {
        assert(files.deep_view()[i as int] == files@[i as int].deep_view());
        if holds_module(&files[i], name) {
            return Some(i);
        }
        i = i + 1;
    }
    None
}

/// How many modules the files hold.
pub fn module_count(files: &Vec<ParsedFile>) -> (r: usize)
    ensures
        r == sx::module_count_from(files.deep_view(), 0, 0),
{
    let ghost all = files.deep_view();
    let mut n: usize = 0;
    let mut i: usize = 0;
    while i < files.len()
        invariant
            i <= files@.len(),
            all == files.deep_view(),
            sx::module_count_from(all, 0, 0) == sx::module_count_from(all, i as int, n as nat),
        decreases files@.len() - i,
    {
        assert(all[i as int] == files@[i as int].deep_view());
        let symbols = &files[i].symbols;
        let ghost list = all[i as int].symbols;
        let ghost wanted = sx::module_symbols_from(list, 0, n as nat);
        let mut k: usize = 0;
        while k < symbols.len()
            invariant
                k <= symbols@.len(),
                list == symbols.deep_view(),
                wanted == sx::module_symbols_from(list, k as int, n as nat),
            decreases symbols@.len() - k,
        {
            assert(list[k as int] == symbols@[k as int].deep_view());
            if symbols[k].kind == SymbolKind::Module {
                n = sum(n, 1);
            }
            k = k + 1;
        }
        i = i + 1;
    }
    n
}

// ---------------------------------------------------------------------------
// Visibility
// ---------------------------------------------------------------------------

/// Whether a scope is that of the module `module`.
fn in_module(scope: &Vec<String>, module: &str) -> (r: bool)
    ensures
        r == sx::in_module(scope.deep_view(), module@),
{
    assert(scope.deep_view().len() == scope@.len());
    scope.len() == 1 && same_text(scope[0].as_str(), module)
}

/// Whether names of a module are public where nothing else is said.
fn default_is_public(stmts: &Vec<VisibilityStmt>, module: &str) -> (r: bool)
    ensures
        r == sx::default_is_public(stmts.deep_view(), module@, stmts@.len() as int),
{
    let ghost all = stmts.deep_view();
    let mut n: usize = stmts.len();
    while n > 0
        invariant
            n <= stmts@.len(),
            all == stmts.deep_view(),
            sx::default_is_public(all, module@, stmts@.len() as int) == sx::default_is_public(
                all,
                module@,
                n as int,
            ),
        decreases n,
    {
        let stmt = &stmts[n - 1];
        assert(all[n - 1] == stmt.deep_view());
        assert(stmt.deep_view().names.len() == stmt.names@.len());
        if in_module(&stmt.scope, module) && stmt.names.len() == 0 {
            return stmt.visibility != Visibility::Private;
        }
        n = n - 1;
    }
    true
}

/// Whether a name of a module is public.
pub fn is_public(p: &ParsedFile, module: &str, name: &str) -> (r: bool)
    ensures
        r == sx::is_public(p.deep_view(), module@, name@),
{
    let ghost all = p.deep_view().visibility;
    assert(all.len() == p.visibility@.len());
    let mut n: usize = p.visibility.len();
    while n > 0
        invariant
            n <= p.visibility@.len(),
            all == p.deep_view().visibility,
            sx::is_public(p.deep_view(), module@, name@) == sx::is_public_from(
                all,
                module@,
                name@,
                n as int,
            ),
        decreases n,
    {
        let stmt = &p.visibility[n - 1];
        assert(all[n - 1] == stmt.deep_view());
        let names = stmt.names.as_slice();
        assert(names.deep_view() =~= stmt.names.deep_view());
        if in_module(&stmt.scope, module) && has_name(names, name) {
            return stmt.visibility != Visibility::Private;
        }
        n = n - 1;
    }
    assert(p.deep_view().visibility == p.visibility.deep_view());
    default_is_public(&p.visibility, module)
}

/// Whether a module has an interface `name`.
pub fn has_interface(p: &ParsedFile, module: &str, name: &str) -> (r: bool)
    ensures
        r == sx::has_interface(p.deep_view(), module@, name@),
{
    let ghost all = p.deep_view().symbols;
    let mut i: usize = 0;
    while i < p.symbols.len()
        invariant
            i <= p.symbols@.len(),
            all == p.deep_view().symbols,
            forall|k: int|
                0 <= k < i ==> !((#[trigger] all[k]).kind is Interface && sx::in_module(
                    all[k].scope,
                    module@,
                ) && st::same(all[k].name, name@)),
        decreases p.symbols@.len() - i,
    {
        let s = &p.symbols[i];
        assert(all[i as int] == s.deep_view());
        if s.kind == SymbolKind::Interface && in_module(&s.scope, module) && same_text(
            s.name.as_str(),
            name,
        ) {
            return true;
        }
        i = i + 1;
    }
    false
}

/// Whether a symbol is something that a module has for others under `name`.
pub fn is_exported(p: &ParsedFile, s: &Symbol, module: &str, name: &str) -> (r: bool)
    ensures
        r == sx::is_exported(p.deep_view(), s.deep_view(), module@, name@),
{
    if !same_text(s.name.as_str(), name) {
        return false;
    }
    assert(s.deep_view().scope.len() == s.scope@.len());
    if in_module(&s.scope, module) {
        s.visibility != Visibility::Private
    } else {
        s.scope.len() == 2 && same_text(s.scope[0].as_str(), module) && s.kind.is_procedure()
            && has_interface(p, module, s.scope[1].as_str()) && is_public(p, module, name)
    }
}

/// Whether a module itself has something for others under `name`.
pub fn own_export(p: &ParsedFile, module: &str, name: &str) -> (r: bool)
    ensures
        r == sx::own_export(p.deep_view(), module@, name@),
{
    let ghost all = p.deep_view().symbols;
    let mut i: usize = 0;
    while i < p.symbols.len()
        invariant
            i <= p.symbols@.len(),
            all == p.deep_view().symbols,
            forall|k: int|
                0 <= k < i ==> !sx::is_exported(p.deep_view(), #[trigger] all[k], module@, name@),
        decreases p.symbols@.len() - i,
    {
        assert(all[i as int] == p.symbols@[i as int].deep_view());
        if is_exported(p, &p.symbols[i], module, name) {
            return true;
        }
        i = i + 1;
    }
    false
}

// ---------------------------------------------------------------------------
// Use statements
// ---------------------------------------------------------------------------

/// What the first rename to the local name `name` renames.
fn remote_of<'a>(renames: &'a Vec<UseRename>, name: &str) -> (r: Option<&'a String>)
    ensures
        r.deep_view() == sx::remote_from(renames.deep_view(), name@, 0),
{
    let ghost all = renames.deep_view();
    let mut i: usize = 0;
    while i < renames.len()
        invariant
            i <= renames@.len(),
            all == renames.deep_view(),
            sx::remote_from(renames.deep_view(), name@, 0) == sx::remote_from(
                all,
                name@,
                i as int,
            ),
        decreases renames@.len() - i,
    {
        assert(all[i as int] == renames@[i as int].deep_view());
        if same_text(renames[i].local.as_str(), name) {
            return Some(&renames[i].remote);
        }
        i = i + 1;
    }
    None
}

/// Whether the name `name` of a module was given another one.
fn is_renamed(renames: &Vec<UseRename>, name: &str) -> (r: bool)
    ensures
        r == sx::is_renamed(renames.deep_view(), name@),
{
    let ghost all = renames.deep_view();
    let mut i: usize = 0;
    while i < renames.len()
        invariant
            i <= renames@.len(),
            all == renames.deep_view(),
            forall|k: int| 0 <= k < i ==> !st::same((#[trigger] all[k]).remote, name@),
        decreases renames@.len() - i,
    {
        assert(all[i as int] == renames@[i as int].deep_view());
        if same_text(renames[i].remote.as_str(), name) {
            return true;
        }
        i = i + 1;
    }
    false
}

/// The name in the module that a local name stands for.
pub fn remote_name(u: &UseStmt, name: &str) -> (r: String)
    ensures
        r@ == sx::remote_name(u.deep_view(), name@),
{
    match remote_of(&u.renames, name) {
        Some(remote) => remote.clone(),
        None => owned(name),
    }
}

/// The name in its module that a `use` statement makes known under `name`.
pub fn brings(u: &UseStmt, name: &str) -> (r: Option<String>)
    ensures
        r.deep_view() == sx::brings(u.deep_view(), name@),
{
    assert(u.deep_view().only.len() == u.only@.len());
    if u.only.len() > 0 {
        let names = u.only.as_slice();
        assert(names.deep_view() =~= u.only.deep_view());
        if has_name(names, name) {
            Some(remote_name(u, name))
        } else {
            None
        }
    } else {
        match remote_of(&u.renames, name) {
            Some(remote) => Some(remote.clone()),
            None => if is_renamed(&u.renames, name) {
                None
            } else {
                Some(owned(name))
            },
        }
    }
}

impl Index {
    /// Whether an intrinsic module is called `name`.
    pub fn is_intrinsic_module(&self, name: &str) -> (r: bool)
        ensures
            r == sx::is_intrinsic_module(self.deep_view(), name@),
    {
        find_intrinsic_module(&self.intrinsics, name).is_some()
    }

    /// Whether the module of a `use` statement is known.
    pub fn is_resolved(&self, u: &UseStmt) -> (r: bool)
        ensures
            r == sx::is_resolved(self.deep_view(), u.deep_view()),
    {
        (!u.intrinsic && module_file(&self.files, u.module.as_str()).is_some())
            || self.is_intrinsic_module(u.module.as_str())
    }

    fn intrinsic_export(&self, module: &str, name: &str) -> (r: Export)
        ensures
            r.model() == sx::intrinsic_export(self.deep_view(), module@, name@),
    {
        if self.is_intrinsic_module(module) {
            if module_exports(&self.intrinsics, module, name) {
                Export::Yes
            } else {
                Export::No
            }
        } else {
            Export::Unknown
        }
    }

    /// Whether the module `module` exports `name`, where the modules `open`
    /// are left aside and at most `fuel` more are looked at in a row.
    fn exports_within(&self, module: &str, name: &str, open: &Vec<String>, fuel: usize) -> (r:
        Export)
        ensures
            r.model() == sx::exports_within(
                self.deep_view(),
                module@,
                name@,
                open.deep_view(),
                fuel as nat,
            ),
        decreases fuel,
    {
        let ghost index = self.deep_view();
        let f = match module_file(&self.files, module) {
            Some(f) => f,
            None => {
                return self.intrinsic_export(module, name);
            },
        };
        let p = &self.files[f];
        assert(index.files[f as int] == p.deep_view());
        if own_export(p, module, name) {
            return Export::Yes;
        }
        let names = open.as_slice();
        assert(names.deep_view() =~= open.deep_view());
        if !is_public(p, module, name) || fuel == 0 || has_name(names, module) {
            return Export::No;
        }
        let mut path = copy_texts(open);
        put(&mut path, owned(module));
        let ghost uses = p.deep_view().uses;
        let ghost wanted = sx::reexports_from(
            index,
            uses,
            module@,
            name@,
            0,
            sx::Export::No,
            path.deep_view(),
            fuel as nat,
        );
        let mut found = Export::No;
        let mut i: usize = 0;
        while i < p.uses.len()
            invariant
                i <= p.uses@.len(),
                fuel > 0,
                index == self.deep_view(),
                uses == p.deep_view().uses,
                wanted == sx::reexports_from(
                    index,
                    uses,
                    module@,
                    name@,
                    i as int,
                    found.model(),
                    path.deep_view(),
                    fuel as nat,
                ),
                sx::exports_within(index, module@, name@, open.deep_view(), fuel as nat) == wanted,
            decreases p.uses@.len() - i,
        {
            let u = &p.uses[i];
            assert(uses[i as int] == u.deep_view());
            let next = if in_module(&u.scope, module) {
                match brings(u, name) {
                    Some(remote) => if u.intrinsic {
                        self.intrinsic_export(u.module.as_str(), remote.as_str())
                    } else {
                        self.exports_within(u.module.as_str(), remote.as_str(), &path, fuel - 1)
                    },
                    None => Export::No,
                }
            } else {
                Export::No
            };
            if next == Export::Yes {
                return Export::Yes;
            }
            if next == Export::Unknown {
                found = Export::Unknown;
            }
            i = i + 1;
        }
        found
    }

    /// Whether the module `module` exports `name`.
    pub fn exports(&self, module: &str, name: &str) -> (r: Export)
        ensures
            r.model() == sx::exports(self.deep_view(), module@, name@),
    {
        self.exports_within(module, name, &empty(), module_count(&self.files))
    }

    /// Whether the module of a `use` statement exports `name`.
    pub fn use_exports(&self, u: &UseStmt, name: &str) -> (r: Export)
        ensures
            r.model() == sx::use_exports(self.deep_view(), u.deep_view(), name@),
    {
        if u.intrinsic {
            self.intrinsic_export(u.module.as_str(), name)
        } else {
            self.exports(u.module.as_str(), name)
        }
    }

    /// Whether a `use` statement of a module may make names known to others
    /// that cannot be known.
    fn leaves_open(&self, p: &ParsedFile, u: &UseStmt, module: &str) -> (r: bool)
        ensures
            r == sx::leaves_open(self.deep_view(), p.deep_view(), u.deep_view(), module@),
    {
        assert(u.deep_view().only.len() == u.only@.len());
        in_module(&u.scope, module) && !self.is_resolved(u) && (u.only.len() == 0 || any_public(
            p,
            module,
            &u.only,
        ))
    }

    /// Whether not all that a module exports can be known.
    pub fn is_partial(&self, p: &ParsedFile, module: &str) -> (r: bool)
        ensures
            r == sx::is_partial(self.deep_view(), p.deep_view(), module@),
    {
        let ghost all = p.deep_view().uses;
        let mut i: usize = 0;
        while i < p.uses.len()
            invariant
                i <= p.uses@.len(),
                all == p.deep_view().uses,
                forall|k: int|
                    0 <= k < i ==> !sx::leaves_open(
                        self.deep_view(),
                        p.deep_view(),
                        #[trigger] all[k],
                        module@,
                    ),
            decreases p.uses@.len() - i,
        {
            assert(all[i as int] == p.uses@[i as int].deep_view());
            if self.leaves_open(p, &p.uses[i], module) {
                return true;
            }
            i = i + 1;
        }
        false
    }
}

// ---------------------------------------------------------------------------
// Modules that are known in part
// ---------------------------------------------------------------------------

/// Whether one of `names` is a public name of a module.
fn any_public(p: &ParsedFile, module: &str, names: &Vec<String>) -> (r: bool)
    ensures
        r == sx::any_public(p.deep_view(), module@, names.deep_view()),
{
    let ghost all = names.deep_view();
    let mut i: usize = 0;
    while i < names.len()
        invariant
            i <= names@.len(),
            all == names.deep_view(),
            forall|k: int|
                0 <= k < i ==> !sx::is_public(p.deep_view(), module@, #[trigger] all[k]),
        decreases names@.len() - i,
    {
        assert(all[i as int] == names@[i as int]@);
        if is_public(p, module, names[i].as_str()) {
            return true;
        }
        i = i + 1;
    }
    false
}

/// Whether a module itself has something for others.
pub fn has_api(p: &ParsedFile, module: &str) -> (r: bool)
    ensures
        r == sx::has_api(p.deep_view(), module@),
{
    let ghost all = p.deep_view().symbols;
    let mut i: usize = 0;
    while i < p.symbols.len()
        invariant
            i <= p.symbols@.len(),
            all == p.deep_view().symbols,
            forall|k: int| 0 <= k < i ==> !sx::is_own(#[trigger] all[k], module@),
        decreases p.symbols@.len() - i,
    {
        let s = &p.symbols[i];
        assert(all[i as int] == s.deep_view());
        if in_module(&s.scope, module) && s.visibility != Visibility::Private && s.kind
            != SymbolKind::Use {
            assert(sx::is_own(all[i as int], module@));
            return true;
        }
        i = i + 1;
    }
    false
}

} // verus!
