//! What an editor asks about a position: where a name is defined and used, what
//! is shown for it, and what it can be called.

use vstd::prelude::*;

use crate::bindings::{inner_scope, passed_index, target_name, type_in};
use crate::completion::{macro_markdown, member, scope_at};
use crate::cursor::{
    CallContext, call_context, identifier_occurrences, member_access_at_source, word_at_source,
};
use crate::intrinsics::{IntrinsicSymbol, find_global_intrinsic};
use crate::list::{empty, put};
use crate::lsp::SignatureHelp;
use crate::model::{
    GenericBinding, Location, ParsedFile, Position, PreprocessorDirective, PreprocessorKind, Range,
    RenameError, Symbol, SymbolKind, TextEdit,
};
use crate::modules::{brings, module_file};
use crate::names::{about, is_level_from};
use crate::parser::source_line;
use crate::path::{components, has_components};
use crate::resolve::{
    SymbolRef, ancestor_of, eq_scopes, is_link, outer_scopes, prototype_in, scope_of, symbol_in,
};
use crate::scan::Quotes;
use crate::spec::bindings as sg;
use crate::spec::cursor as su;
use crate::spec::model as sm;
use crate::spec::path as sh;
use crate::spec::query as sqy;
use crate::spec::scan as ss;
use crate::spec::text as st;
use crate::text::{
    chars, contains, copy_texts, decimal, eq_chars, find_char, has_name, index_of_column, is_digit,
    is_fortran_name, is_ident, join, lower, owned, push_text, same_text, skip, split_once_char,
    text, trim,
};
use crate::workspace::Workspace;

verus! {

// ---------------------------------------------------------------------------
// Macros
// ---------------------------------------------------------------------------

/// Whether one of the directives defines a name on a line.
fn defines_on(list: &Vec<PreprocessorDirective>, name: &str, line: usize) -> (r: bool)
    ensures
        r == sqy::defines_on(list.deep_view(), name@, line),
{
    let ghost all = list.deep_view();
    let wanted = owned(name);
    let mut i: usize = 0;
    while i < list.len()
        invariant
            i <= list@.len(),
            wanted@ == name@,
            all == list.deep_view(),
            forall|k: int|
                0 <= k < i ==> !((#[trigger] all[k]).kind is Define && all[k].name == Some(name@)
                    && all[k].range.start.line == line),
        decreases list@.len() - i,
    {
        let d = &list[i];
        assert(all[i as int] == d.deep_view());
        let named: bool = match &d.name {
            Some(n) => *n == wanted,
            None => false,
        };
        if d.kind == PreprocessorKind::Define && named && d.range.start.line == line {
            return true;
        }
        i = i + 1;
    }
    false
}

/// Where a macro is defined.
fn macro_location(p: &ParsedFile, name: &str) -> (r: Option<Location>)
    ensures
        r.deep_view() == sqy::macro_location(p.deep_view(), name@),
{
    let list = identifier_occurrences(p.source.as_str(), name);
    let ghost all = list.deep_view();
    let mut i: usize = 0;
    while i < list.len()
        invariant
            i <= list@.len(),
            all == list.deep_view(),
            all == su::identifier_occurrences(p.source@, name@),
            sqy::defining_from(p.deep_view(), name@, all, 0) == sqy::defining_from(
                p.deep_view(),
                name@,
                all,
                i as int,
            ),
        decreases list@.len() - i,
    {
        assert(all[i as int] == list@[i as int]);
        if defines_on(&p.preprocessor, name, list[i].start.line) {
            return Some(Location { file: p.path.clone(), range: list[i] });
        }
        i = i + 1;
    }
    None
}

/// The places of a macro in its file.
fn macro_places(p: &ParsedFile, name: &str) -> (r: Vec<Location>)
    ensures
        r.deep_view() == sqy::macro_places(p.deep_view(), name@),
{
    let list = identifier_occurrences(p.source.as_str(), name);
    let ghost all = sqy::macro_places(p.deep_view(), name@);
    let mut out: Vec<Location> = empty();
    let mut i: usize = 0;
    while i < list.len()
        invariant
            i <= list@.len(),
            list.deep_view() == su::identifier_occurrences(p.source@, name@),
            all == sqy::macro_places(p.deep_view(), name@),
            out.deep_view() == all.take(i as int),
        decreases list@.len() - i,
    {
        assert(list.deep_view()[i as int] == list@[i as int]);
        put(&mut out, Location { file: p.path.clone(), range: list[i] });
        i = i + 1;
        assert(out.deep_view() =~= all.take(i as int));
    }
    assert(out.deep_view() =~= all);
    out
}

fn location(s: &Symbol) -> (r: Location)
    ensures
        r.deep_view() == sqy::location(s.deep_view()),
{
    Location { file: s.file.clone(), range: s.selection_range }
}

// ---------------------------------------------------------------------------
// Submodules
// ---------------------------------------------------------------------------

/// The first symbol that is the procedure of a submodule.
fn implementing_in(p: &ParsedFile, module: &str, name: &str) -> (r: Option<usize>)
    ensures
        st::at(r) == sqy::implementing_from(p.deep_view(), module@, name@, 0),
        r matches Some(k) ==> k < p.symbols@.len(),
{
    let ghost all = p.deep_view().symbols;
    let mut k: usize = 0;
    while k < p.symbols.len()
        invariant
            k <= p.symbols@.len(),
            all == p.deep_view().symbols,
            sqy::implementing_from(p.deep_view(), module@, name@, 0) == sqy::implementing_from(
                p.deep_view(),
                module@,
                name@,
                k as int,
            ),
        decreases p.symbols@.len() - k,
    {
        let s = &p.symbols[k];
        assert(all[k as int] == s.deep_view());
        assert(s.deep_view().scope.len() == s.scope@.len());
        if s.kind.is_procedure() && s.scope.len() == 1 && same_text(s.name.as_str(), name) {
            if let Some(a) = ancestor_of(p, &s.scope) {
                if same_text(a.as_str(), module) {
                    return Some(k);
                }
            }
        }
        k = k + 1;
    }
    None
}

// ---------------------------------------------------------------------------
// New names
// ---------------------------------------------------------------------------

/// The model of the changes, or of what stands against them.
pub open spec fn rename_model(r: Result<Vec<TextEdit>, RenameError>) -> Result<
    Seq<sm::TextEdit>,
    sm::RenameError,
> {
    match r {
        Ok(edits) => Ok(edits.deep_view()),
        Err(e) => Err(e.deep_view()),
    }
}

/// The changes that give all places a new name.
fn edits(places: &Vec<Location>, new_name: &str) -> (r: Vec<TextEdit>)
    ensures
        r.deep_view() == sqy::edits(places.deep_view(), new_name@),
{
    let ghost all = sqy::edits(places.deep_view(), new_name@);
    let mut out: Vec<TextEdit> = empty();
    let mut i: usize = 0;
    while i < places.len()
        invariant
            i <= places@.len(),
            all == sqy::edits(places.deep_view(), new_name@),
            out.deep_view() == all.take(i as int),
        decreases places@.len() - i,
    {
        assert(places.deep_view()[i as int] == places@[i as int].deep_view());
        put(
            &mut out,
            TextEdit {
                file: places[i].file.clone(),
                range: places[i].range,
                new_text: owned(new_name),
            },
        );
        i = i + 1;
        assert(out.deep_view() =~= all.take(i as int));
    }
    assert(out.deep_view() =~= all);
    out
}

/// The changes that give a macro a new name.
fn rename_macro(p: &ParsedFile, name: &str, new_name: &str) -> (r: Result<
    Vec<TextEdit>,
    RenameError,
>)
    ensures
        rename_model(r) == sqy::rename_macro(p.deep_view(), name@, new_name@),
{
    if owned(name) != owned(new_name) && p.preprocessor_definitions.get(new_name).is_some() {
        match macro_location(p, new_name) {
            Some(loc) => Err(RenameError::ConflictingSymbol { file: loc.file, range: loc.range }),
            None => Err(
                RenameError::ConflictingSymbol {
                    file: p.path.clone(),
                    range: Range {
                        start: Position { line: 0, character: 0 },
                        end: Position { line: 0, character: 0 },
                    },
                },
            ),
        }
    } else {
        Ok(edits(&macro_places(p, name), new_name))
    }
}

// ---------------------------------------------------------------------------
// What is called
// ---------------------------------------------------------------------------

/// What a call can go to: how it is shown, its arguments, those that cannot be
/// left out, and its text.
#[derive(Debug, PartialEq, Eq)]
pub struct Callee {
    pub label: String,
    pub args: Vec<String>,
    pub required: Vec<String>,
    pub documentation: Option<String>,
}

impl DeepView for Callee {
    type V = sqy::Callee;

    open spec fn deep_view(&self) -> sqy::Callee {
        sqy::Callee {
            label: self.label@,
            args: self.args.deep_view(),
            required: self.required.deep_view(),
            documentation: self.documentation.deep_view(),
        }
    }
}

/// A text that there may be.
fn copy_option(t: &Option<String>) -> (r: Option<String>)
    ensures
        r.deep_view() == t.deep_view(),
{
    match t {
        Some(t) => Some(t.clone()),
        None => None,
    }
}

/// The names without the one with the given index.
fn without_index(names: &Vec<String>, passed: Option<usize>) -> (r: Vec<String>)
    ensures
        r.deep_view() == sqy::without_index(names.deep_view(), st::at(passed)),
{
    let mut out = copy_texts(names);
    if let Some(k) = passed {
        assert(out.deep_view().len() == out@.len());
        if k < out.len() {
            let ghost before = out.deep_view();
            let dropped = out.remove(k);
            assert(out.deep_view() =~= before.remove(k as int));
        }
    }
    out
}

/// A name with its arguments in parentheses.
fn call_label(name: &str, args: &Vec<String>) -> (r: String)
    ensures
        r@ == sqy::call_label(name@, args.deep_view()),
{
    let names = args.as_slice();
    assert(names.deep_view() =~= args.deep_view());
    let mut out = owned(name);
    push_text(&mut out, "(");
    push_text(&mut out, join(names, ", ").as_str());
    push_text(&mut out, ")");
    out
}

/// The arguments that stand there without a keyword.
fn unkeyed(args: &Vec<String>) -> (r: Vec<String>)
    ensures
        r.deep_view() == sqy::unkeyed_from(args.deep_view(), 0, Seq::empty()),
{
    let ghost all = args.deep_view();
    let mut out: Vec<String> = empty();
    let mut i: usize = 0;
    while i < args.len()
        invariant
            i <= args@.len(),
            all == args.deep_view(),
            sqy::unkeyed_from(all, 0, Seq::empty()) == sqy::unkeyed_from(
                all,
                i as int,
                out.deep_view(),
            ),
        decreases args@.len() - i,
    {
        assert(all[i as int] == args@[i as int]@);
        let a = chars(args[i].as_str());
        if find_char(a.as_slice(), '=').is_none() {
            put(&mut out, args[i].clone());
        }
        i = i + 1;
    }
    out
}

/// The callee that an intrinsic procedure is.
fn intrinsic_callee(x: &IntrinsicSymbol) -> (r: Callee)
    ensures
        r.deep_view() == sqy::intrinsic_callee(x.deep_view()),
{
    let docs = chars(x.documentation.as_str());
    Callee {
        label: x.signature(),
        args: copy_texts(&x.args),
        required: if x.module.is_none() {
            unkeyed(&x.args)
        } else {
            empty()
        },
        documentation: if docs.len() == 0 {
            None
        } else {
            Some(x.documentation.clone())
        },
    }
}

/// The name of an argument: what stands before `=`.
pub fn argument_name(arg: &str) -> (r: String)
    ensures
        r@ == sqy::argument_name(arg@),
{
    let a = chars(arg);
    match split_once_char(a.as_slice(), '=') {
        Some((name, value)) => text(trim(name)),
        None => owned(arg),
    }
}

/// The first argument with a name.
pub fn argument_index(args: &Vec<String>, name: &str) -> (r: Option<usize>)
    ensures
        st::at(r) == sqy::argument_index(args.deep_view(), name@, 0),
        r matches Some(k) ==> k < args@.len(),
{
    let ghost all = args.deep_view();
    let mut i: usize = 0;
    while i < args.len()
        invariant
            i <= args@.len(),
            all == args.deep_view(),
            sqy::argument_index(args.deep_view(), name@, 0) == sqy::argument_index(
                all,
                name@,
                i as int,
            ),
        decreases args@.len() - i,
    {
        assert(all[i as int] == args@[i as int]@);
        if same_text(argument_name(args[i].as_str()).as_str(), name) {
            return Some(i);
        }
        i = i + 1;
    }
    None
}

/// Whether a callee takes so many arguments and has a keyword.
fn takes(c: &Callee, count: usize, keyword: &Option<String>) -> (r: bool)
    ensures
        r == sqy::takes(c.deep_view(), count, keyword.deep_view()),
{
    assert(c.deep_view().args.len() == c.args@.len());
    c.args.len() >= count && match keyword {
        Some(name) => argument_index(&c.args, name.as_str()).is_some(),
        None => true,
    }
}

/// The first of the callees that takes so many arguments and has a keyword.
fn fitting<'a>(list: &'a Vec<Callee>, count: usize, keyword: &Option<String>) -> (r: Option<
    &'a Callee,
>)
    ensures
        r.deep_view() == sqy::fitting_from(list.deep_view(), count, keyword.deep_view(), 0),
{
    let ghost all = list.deep_view();
    let mut i: usize = 0;
    while i < list.len()
        invariant
            i <= list@.len(),
            all == list.deep_view(),
            sqy::fitting_from(list.deep_view(), count, keyword.deep_view(), 0)
                == sqy::fitting_from(all, count, keyword.deep_view(), i as int),
        decreases list@.len() - i,
    {
        assert(all[i as int] == list@[i as int].deep_view());
        if takes(&list[i], count, keyword) {
            return Some(&list[i]);
        }
        i = i + 1;
    }
    None
}

/// The first generic binding with a name that belongs to a type.
fn generic_in(list: &Vec<GenericBinding>, t: &Symbol, name: &str) -> (r: Option<usize>)
    ensures
        st::at(r) == sqy::generic_from(list.deep_view(), t.deep_view(), name@, 0),
        r matches Some(k) ==> k < list@.len(),
{
    let ghost all = list.deep_view();
    let inner = inner_scope(t);
    let mut k: usize = 0;
    while k < list.len()
        invariant
            k <= list@.len(),
            all == list.deep_view(),
            inner.deep_view() == t.deep_view().scope.push(t.name@),
            sqy::generic_from(list.deep_view(), t.deep_view(), name@, 0) == sqy::generic_from(
                all,
                t.deep_view(),
                name@,
                k as int,
            ),
        decreases list@.len() - k,
    {
        assert(all[k as int] == list@[k as int].deep_view());
        if same_text(list[k].name.as_str(), name) && eq_scopes(&list[k].scope, &inner) {
            return Some(k);
        }
        k = k + 1;
    }
    None
}

/// Which argument is being written.
fn active_parameter(c: &Callee, call: &CallContext) -> (r: usize)
    ensures
        r == sqy::active_parameter(c.deep_view(), call.deep_view()),
{
    match &call.active_argument_name {
        Some(name) => match argument_index(&c.args, name.as_str()) {
            Some(k) => k,
            None => call.active_parameter,
        },
        None => call.active_parameter,
    }
}

// ---------------------------------------------------------------------------
// Literals
// ---------------------------------------------------------------------------

/// Whether a character can stand in a number or a logical value.
fn is_literal_char(c: char) -> (r: bool)
    ensures
        r == sqy::is_literal_char(c),
{
    is_ident(c) || c == '.'
}

/// The literal around an index.
fn literal_around<'a>(s: &'a [char], j: usize) -> (r: &'a [char])
    requires
        j <= s@.len(),
    ensures
        r@ == s@.subrange(
            sqy::literal_begin(s@, j as int),
            sqy::literal_end(s@, sqy::literal_begin(s@, j as int)),
        ),
{
    let mut start: usize = j;
    while start > 0 && is_literal_char(s[start - 1])
        invariant
            start <= j <= s@.len(),
            sqy::literal_begin(s@, j as int) == sqy::literal_begin(s@, start as int),
        decreases start,
    {
        start = start - 1;
    }
    let mut end: usize = start;
    while end < s.len() && is_literal_char(s[end])
        invariant
            start <= end <= s@.len(),
            sqy::literal_end(s@, start as int) == sqy::literal_end(s@, end as int),
        decreases s@.len() - end,
    {
        end = end + 1;
    }
    vstd::slice::slice_subrange(s, start, end)
}

/// The type of a number or a logical value.
fn literal_type(t: &[char]) -> (r: Option<&'static str>)
    ensures
        match r {
            Some(x) => sqy::literal_type(t@) == Some(x@),
            None => sqy::literal_type(t@) is None,
        },
{
    let small = lower(t);
    let s = small.as_slice();
    let yes = chars(".true.");
    let no = chars(".false.");
    if eq_chars(s, yes.as_slice()) || eq_chars(s, no.as_slice()) {
        Some("LOGICAL")
    } else if t.len() == 0 || !(is_digit(t[0]) || t[0] == '.' && t.len() > 1 && is_digit(t[1])) {
        None
    } else if contains(s, ".") || contains(s, "e") || contains(s, "d") {
        Some("REAL")
    } else {
        Some("INTEGER")
    }
}

/// The type of the text in quotes around an index.
fn quoted_type(s: &[char], j: usize) -> (r: Option<String>)
    ensures
        r.deep_view() == sqy::quoted_type(s@, j as int),
{
    let mut q = Quotes { single: false, double: false };
    let mut found: Option<usize> = None;
    let mut i: usize = 0;
    while i < j && i < s.len()
        invariant
            i <= s@.len(),
            found matches Some(k) ==> k < s@.len(),
            sqy::quote_before(s@, ss::unquoted(), 0, j as int, None) == sqy::quote_before(
                s@,
                q@,
                i as int,
                j as int,
                st::at(found),
            ),
        decreases s@.len() - i,
    {
        let next = q.step(s[i]);
        if next.quoted() && !q.quoted() {
            found = Some(i);
        }
        q = next;
        i = i + 1;
    }
    if !q.quoted() {
        return None;
    }
    let n: usize = s.len();
    match found {
        Some(open) => match find_char(skip(s, open + 1), s[open]) {
            Some(n) => Some(about("CHARACTER(LEN=", decimal(n).as_str(), ")")),
            None => None,
        },
        None => None,
    }
}

/// The type of the literal at a position.
fn literal_at(source: &str, pos: Position) -> (r: Option<String>)
    ensures
        r.deep_view() == sqy::literal_at(source@, pos),
{
    let here = source_line(source, pos.line);
    let line = here.as_slice();
    let j: usize = index_of_column(line, pos.character);
    match quoted_type(line, j) {
        Some(t) => Some(t),
        None => match literal_type(literal_around(line, j)) {
            Some(t) => Some(owned(t)),
            None => None,
        },
    }
}

/// The first statement that takes a file in at a position.
fn statement_at(p: &ParsedFile, pos: Position) -> (r: Option<usize>)
    ensures
        st::at(r) == sqy::statement_from(p.deep_view(), pos, 0),
        r matches Some(k) ==> k < p.includes@.len(),
{
    let ghost all = p.deep_view().includes;
    let mut i: usize = 0;
    while i < p.includes.len()
        invariant
            i <= p.includes@.len(),
            all == p.deep_view().includes,
            sqy::statement_from(p.deep_view(), pos, 0) == sqy::statement_from(
                p.deep_view(),
                pos,
                i as int,
            ),
        decreases p.includes@.len() - i,
    {
        assert(all[i as int] == p.includes@[i as int].deep_view());
        if p.includes[i].range.start.line == pos.line {
            return Some(i);
        }
        i = i + 1;
    }
    None
}

// ---------------------------------------------------------------------------
// In the workspace
// ---------------------------------------------------------------------------

impl Workspace {
    /// The part that the types have under a name, the first of them first.
    fn find_part(&self, types: &Vec<SymbolRef>, name: &str) -> (r: Option<SymbolRef>)
        requires
            crate::bindings::all_hold(self.index.files@, types@),
        ensures
            crate::resolve::ref_model(r) == sqy::part_from(
                self.deep_view(),
                crate::bindings::ref_models(types@),
                name@,
                0,
            ),
            crate::resolve::is_valid(self.index.files@, r),
    {
        let mut i: usize = 0;
        while i < types.len()
            invariant
                i <= types@.len(),
                crate::bindings::all_hold(self.index.files@, types@),
                sqy::part_from(self.deep_view(), crate::bindings::ref_models(types@), name@, 0)
                    == sqy::part_from(
                    self.deep_view(),
                    crate::bindings::ref_models(types@),
                    name@,
                    i as int,
                ),
            decreases types@.len() - i,
        {
            assert(crate::bindings::holds(self.index.files@, types@[i as int]));
            if let Some(k) = self.local(types[i], name) {
                return Some(SymbolRef { file: types[i].file, symbol: k });
            }
            i = i + 1;
        }
        None
    }

    /// The component or the binding behind `receiver %`.
    fn part_of(&self, f: usize, scope: &Vec<String>, receiver: &str, name: &str) -> (r: Option<
        SymbolRef,
    >)
        requires
            f < self.index.files@.len(),
        ensures
            crate::resolve::ref_model(r) == sqy::part_of(
                self.deep_view(),
                f as int,
                scope.deep_view(),
                receiver@,
                name@,
            ),
            crate::resolve::is_valid(self.index.files@, r),
    {
        match self.type_of(f, scope, receiver) {
            Some(t) => self.find_part(&self.chain(t), name),
            None => None,
        }
    }

    /// The symbol that the name at a position of a file stands for.
    pub fn target(&self, f: usize, source: &str, pos: Position) -> (r: Option<SymbolRef>)
        requires
            f < self.index.files@.len(),
        ensures
            crate::resolve::ref_model(r) == sqy::target(self.deep_view(), f as int, source@, pos),
            crate::resolve::is_valid(self.index.files@, r),
    {
        assert(self.deep_view().index.files[f as int] == self.index.files@[f as int].deep_view());
        let scope = scope_at(&self.index.files[f].symbols, pos);
        match word_at_source(source, pos) {
            Some(name) => {
                if let Some(access) = member_access_at_source(source, pos) {
                    let found = self.part_of(
                        f,
                        &scope,
                        access.receiver.as_str(),
                        access.member.as_str(),
                    );
                    if found.is_some() {
                        return found;
                    }
                }
                self.resolve(f, &scope, name.as_str())
            },
            None => None,
        }
    }

    /// The procedure that the ancestor of a submodule declares for one of its
    /// procedures.
    fn prototype_of(&self, t: SymbolRef) -> (r: Option<SymbolRef>)
        requires
            crate::bindings::holds(self.index.files@, t),
        ensures
            crate::resolve::ref_model(r) == sqy::prototype_of(self.deep_view(), t.model()),
            crate::resolve::is_valid(self.index.files@, r),
    {
        let s = self.symbol(t);
        assert(self.deep_view().index.files[t.file as int]
            == self.index.files@[t.file as int].deep_view());
        match ancestor_of(&self.index.files[t.file], &s.scope) {
            Some(module) => match module_file(&self.index.files, module.as_str()) {
                Some(g) => {
                    assert(self.deep_view().index.files[g as int]
                        == self.index.files@[g as int].deep_view());
                    match prototype_in(
                        &self.index.files[g].symbols,
                        &scope_of(module.as_str()),
                        s.name.as_str(),
                    ) {
                        Some(k) => Some(SymbolRef { file: g, symbol: k }),
                        None => None,
                    }
                },
                None => None,
            },
            None => None,
        }
    }

    /// The binding of a name by a type that extends another one.
    fn override_by(&self, t: SymbolRef, name: &str, q: SymbolRef) -> (r: Option<SymbolRef>)
        requires
            crate::bindings::holds(self.index.files@, q),
        ensures
            crate::resolve::ref_model(r) == sqy::override_by(
                self.deep_view(),
                t.model(),
                name@,
                q.model(),
            ),
            crate::resolve::is_valid(self.index.files@, r),
    {
        if self.symbol(q).kind != SymbolKind::Type {
            return None;
        }
        let types = self.chain(q);
        let ghost all = crate::bindings::ref_models(types@);
        let mut below: bool = false;
        let mut i: usize = 0;
        while i < types.len()
            invariant
                i <= types@.len(),
                all == crate::bindings::ref_models(types@),
                below == exists|k: int| 0 <= k < i && #[trigger] all[k] == t.model(),
            decreases types@.len() - i,
        {
            assert(all[i as int] == types@[i as int].model());
            if types[i].file == t.file && types[i].symbol == t.symbol {
                assert(all[i as int] == t.model());
                below = true;
            }
            i = i + 1;
        }
        assert(below == all.contains(t.model()));
        if !below {
            return None;
        }
        match self.own_method(q, name) {
            Some(m) => if self.symbol(m).is_deferred {
                None
            } else {
                Some(m)
            },
            None => None,
        }
    }

    /// The bindings of a name by the types that extend another one.
    fn overrides(&self, t: SymbolRef, name: &str) -> (r: Vec<SymbolRef>)
        ensures
            crate::bindings::ref_models(r@) == sqy::overrides_from(
                self.deep_view(),
                t.model(),
                name@,
                0,
                Seq::empty(),
            ),
            crate::bindings::all_hold(self.index.files@, r@),
    {
        let ghost ws = self.deep_view();
        assert(ws.index.files.len() == self.index.files@.len());
        let mut out: Vec<SymbolRef> = Vec::new();
        assert(crate::bindings::ref_models(out@) =~= Seq::empty());
        let mut g: usize = 0;
        while g < self.index.files.len()
            invariant
                g <= self.index.files@.len(),
                ws == self.deep_view(),
                ws.index.files.len() == self.index.files@.len(),
                crate::bindings::all_hold(self.index.files@, out@),
                sqy::overrides_from(ws, t.model(), name@, 0, Seq::empty()) == sqy::overrides_from(
                    ws,
                    t.model(),
                    name@,
                    g as int,
                    crate::bindings::ref_models(out@),
                ),
            decreases self.index.files@.len() - g,
        {
            assert(ws.index.files[g as int] == self.index.files@[g as int].deep_view());
            let n: usize = self.index.files[g].symbols.len();
            let ghost wanted = sqy::overrides_in(
                ws,
                t.model(),
                name@,
                g as int,
                0,
                crate::bindings::ref_models(out@),
            );
            let mut k: usize = 0;
            while k < n
                invariant
                    k <= n,
                    g < self.index.files@.len(),
                    n == self.index.files@[g as int].symbols@.len(),
                    n == ws.index.files[g as int].symbols.len(),
                    ws == self.deep_view(),
                    crate::bindings::all_hold(self.index.files@, out@),
                    wanted == sqy::overrides_in(
                        ws,
                        t.model(),
                        name@,
                        g as int,
                        k as int,
                        crate::bindings::ref_models(out@),
                    ),
                decreases n - k,
            {
                let q = SymbolRef { file: g, symbol: k };
                if let Some(m) = self.override_by(t, name, q) {
                    let ghost before = crate::bindings::ref_models(out@);
                    out.push(m);
                    assert(crate::bindings::ref_models(out@) =~= before.push(m.model()));
                }
                k = k + 1;
            }
            g = g + 1;
        }
        out
    }

    /// The only binding that there is for a deferred one.
    fn only_override(&self, t: SymbolRef, outer: &Vec<String>) -> (r: Option<SymbolRef>)
        requires
            crate::bindings::holds(self.index.files@, t),
            sg::symbol(self.deep_view(), t.model()).scope.len() > 0,
            outer.deep_view() == sg::symbol(self.deep_view(), t.model()).scope.drop_last(),
        ensures
            crate::resolve::ref_model(r) == sqy::only_override(self.deep_view(), t.model()),
            crate::resolve::is_valid(self.index.files@, r),
    {
        let m = self.symbol(t);
        let n: usize = m.scope.len();
        assert(m.deep_view().scope.len() == n);
        assert(m.deep_view().scope.last() == m.scope@[n - 1]@);
        assert(self.deep_view().index.files[t.file as int]
            == self.index.files@[t.file as int].deep_view());
        match type_in(&self.index.files[t.file].symbols, outer, m.scope[n - 1].as_str()) {
            Some(k) => {
                let list = self.overrides(SymbolRef { file: t.file, symbol: k }, m.name.as_str());
                if list.len() == 1 {
                    assert(crate::bindings::ref_models(list@)[0] == list@[0].model());
                    assert(crate::bindings::holds(self.index.files@, list@[0]));
                    Some(list[0])
                } else {
                    None
                }
            },
            None => None,
        }
    }

    /// The procedure that a binding stands for.
    fn bound_procedure(&self, t: SymbolRef) -> (r: Option<SymbolRef>)
        requires
            crate::bindings::holds(self.index.files@, t),
        ensures
            crate::resolve::ref_model(r) == sqy::bound_procedure(self.deep_view(), t.model()),
            crate::resolve::is_valid(self.index.files@, r),
    {
        let m = self.symbol(t);
        let n: usize = m.scope.len();
        assert(m.deep_view().scope.len() == n);
        if n == 0 {
            return None;
        }
        let outer = outer_scopes(&m.scope, n - 1);
        assert(outer.deep_view() =~= m.deep_view().scope.drop_last());
        self.resolve_procedure(t.file, &outer, target_name(m).as_str())
    }

    /// The procedure that a binding, a link of an interface or a procedure of
    /// a submodule stands for.
    fn procedure_of(&self, t: SymbolRef) -> (r: Option<SymbolRef>)
        requires
            crate::bindings::holds(self.index.files@, t),
        ensures
            crate::resolve::ref_model(r) == sqy::procedure_of(self.deep_view(), t.model()),
            crate::resolve::is_valid(self.index.files@, r),
    {
        let s = self.symbol(t);
        let n: usize = s.scope.len();
        assert(s.deep_view().scope.len() == n);
        if n == 0 {
            return None;
        }
        let outer = outer_scopes(&s.scope, n - 1);
        assert(outer.deep_view() =~= s.deep_view().scope.drop_last());
        if s.kind == SymbolKind::Method {
            if s.is_deferred {
                match self.only_override(t, &outer) {
                    Some(m) => self.bound_procedure(m),
                    None => None,
                }
            } else {
                self.bound_procedure(t)
            }
        } else if s.is_module_procedure {
            self.prototype_of(t)
        } else if is_link(s) {
            self.resolve_procedure(t.file, &outer, s.name.as_str())
        } else {
            None
        }
    }

    /// The symbol where a symbol is defined.
    fn linked(&self, t: SymbolRef) -> (r: SymbolRef)
        requires
            crate::bindings::holds(self.index.files@, t),
        ensures
            r.model() == sqy::linked(self.deep_view(), t.model()),
            crate::bindings::holds(self.index.files@, r),
    {
        match self.procedure_of(t) {
            Some(q) => q,
            None => t,
        }
    }

    /// Where the name at a position is defined.
    pub fn definition(&self, path: &str, pos: Position, source: &str) -> (r: Option<&Symbol>)
        ensures
            match sqy::definition(self.deep_view(), path@, pos, source@) {
                Some(q) => r matches Some(s) && s.deep_view() == sg::symbol(self.deep_view(), q),
                None => r is None,
            },
    {
        match self.file_number(path) {
            Some(f) => match self.target(f, source, pos) {
                Some(t) => Some(self.symbol(self.linked(t))),
                None => None,
            },
            None => None,
        }
    }

    /// The macro at a position, where the name there stands for no symbol.
    fn macro_at(&self, f: usize, source: &str, pos: Position) -> (r: Option<String>)
        requires
            f < self.index.files@.len(),
        ensures
            r.deep_view() == sqy::macro_at(self.deep_view(), f as int, source@, pos),
    {
        assert(self.deep_view().index.files[f as int] == self.index.files@[f as int].deep_view());
        match word_at_source(source, pos) {
            Some(name) => if self.index.files[f].preprocessor_definitions.get(
                name.as_str(),
            ).is_some() && self.target(f, source, pos).is_none() {
                Some(name)
            } else {
                None
            },
            None => None,
        }
    }

    /// Where the name at a position, or the macro there, is defined.
    pub fn definition_location(&self, path: &str, pos: Position, source: &str) -> (r: Option<
        Location,
    >)
        ensures
            r.deep_view() == sqy::definition_location(self.deep_view(), path@, pos, source@),
    {
        match self.file_number(path) {
            Some(f) => {
                assert(self.deep_view().index.files[f as int]
                    == self.index.files@[f as int].deep_view());
                match self.target(f, source, pos) {
                    Some(t) => Some(location(self.symbol(self.linked(t)))),
                    None => match self.macro_at(f, source, pos) {
                        Some(name) => macro_location(&self.index.files[f], name.as_str()),
                        None => None,
                    },
                }
            },
            None => None,
        }
    }

    /// The procedure of a submodule that a module declares.
    fn implementation(&self, module: &str, name: &str) -> (r: Option<SymbolRef>)
        ensures
            crate::resolve::ref_model(r) == sqy::implementation_from(
                self.deep_view().index.files,
                module@,
                name@,
                0,
            ),
            crate::resolve::is_valid(self.index.files@, r),
    {
        let ghost all = self.deep_view().index.files;
        let mut g: usize = 0;
        while g < self.index.files.len()
            invariant
                g <= self.index.files@.len(),
                all == self.deep_view().index.files,
                sqy::implementation_from(self.deep_view().index.files, module@, name@, 0)
                    == sqy::implementation_from(all, module@, name@, g as int),
            decreases self.index.files@.len() - g,
        {
            assert(all[g as int] == self.index.files@[g as int].deep_view());
            if let Some(k) = implementing_in(&self.index.files[g], module, name) {
                return Some(SymbolRef { file: g, symbol: k });
            }
            g = g + 1;
        }
        None
    }

    /// Where a symbol is implemented.
    fn implementation_of(&self, t: SymbolRef) -> (r: Option<SymbolRef>)
        requires
            crate::bindings::holds(self.index.files@, t),
        ensures
            crate::resolve::ref_model(r) == sqy::implementation_of(self.deep_view(), t.model()),
            crate::resolve::is_valid(self.index.files@, r),
    {
        let s = self.symbol(t);
        assert(s.deep_view().scope.len() == s.scope@.len());
        if s.kind == SymbolKind::Method {
            self.procedure_of(t)
        } else if s.scope.len() == 0 {
            None
        } else {
            assert(s.deep_view().scope[0] == s.scope@[0]@);
            self.implementation(s.scope[0].as_str(), s.name.as_str())
        }
    }

    /// Where the name at a position is implemented.
    pub fn implementation_location(&self, path: &str, pos: Position, source: &str) -> (r: Option<
        Location,
    >)
        ensures
            r.deep_view() == sqy::implementation_location(self.deep_view(), path@, pos, source@),
    {
        match self.file_number(path) {
            Some(f) => match self.target(f, source, pos) {
                Some(t) => match self.implementation_of(t) {
                    Some(q) => Some(location(self.symbol(q))),
                    None => None,
                },
                None => None,
            },
            None => None,
        }
    }

    // -----------------------------------------------------------------------
    // References
    // -----------------------------------------------------------------------

    /// Adds the places of a file where a name stands for a symbol.
    fn put_places(&self, t: SymbolRef, g: usize, list: &Vec<Range>, out: &mut Vec<Location>)
        requires
            g < self.index.files@.len(),
        ensures
            final(out).deep_view() == sqy::places_from(
                self.deep_view(),
                t.model(),
                g as int,
                list.deep_view(),
                0,
                old(out).deep_view(),
            ),
    {
        let ghost ws = self.deep_view();
        let p = &self.index.files[g];
        assert(ws.index.files[g as int] == p.deep_view());
        let ghost all = list.deep_view();
        let ghost wanted = sqy::places_from(ws, t.model(), g as int, all, 0, out.deep_view());
        let mut i: usize = 0;
        while i < list.len()
            invariant
                i <= list@.len(),
                g < self.index.files@.len(),
                ws == self.deep_view(),
                ws.index.files[g as int] == p.deep_view(),
                all == list.deep_view(),
                wanted == sqy::places_from(
                    ws,
                    t.model(),
                    g as int,
                    all,
                    i as int,
                    out.deep_view(),
                ),
            decreases list@.len() - i,
        {
            assert(all[i as int] == list@[i as int]);
            let same: bool = match self.target(g, p.source.as_str(), list[i].start) {
                Some(found) => found.file == t.file && found.symbol == t.symbol,
                None => false,
            };
            if same {
                put(out, Location { file: p.path.clone(), range: list[i] });
            }
            i = i + 1;
        }
    }

    /// The places where a symbol is used.
    fn places(&self, t: SymbolRef) -> (r: Vec<Location>)
        requires
            crate::bindings::holds(self.index.files@, t),
        ensures
            r.deep_view() == sqy::references_from(self.deep_view(), t.model(), 0, Seq::empty()),
    {
        let ghost ws = self.deep_view();
        assert(ws.index.files.len() == self.index.files@.len());
        let name = self.symbol(t).name.as_str();
        let mut out: Vec<Location> = empty();
        let mut g: usize = 0;
        while g < self.index.files.len()
            invariant
                g <= self.index.files@.len(),
                ws == self.deep_view(),
                ws.index.files.len() == self.index.files@.len(),
                name@ == sg::symbol(ws, t.model()).name,
                sqy::references_from(ws, t.model(), 0, Seq::empty()) == sqy::references_from(
                    ws,
                    t.model(),
                    g as int,
                    out.deep_view(),
                ),
            decreases self.index.files@.len() - g,
        {
            assert(ws.index.files[g as int] == self.index.files@[g as int].deep_view());
            let list = identifier_occurrences(self.index.files[g].source.as_str(), name);
            self.put_places(t, g, &list, &mut out);
            g = g + 1;
        }
        out
    }

    /// The places where what the name at a position stands for is used.
    pub fn references(&self, path: &str, pos: Position, source: &str) -> (r: Vec<Location>)
        ensures
            r.deep_view() == sqy::references(self.deep_view(), path@, pos, source@),
    {
        match self.file_number(path) {
            Some(f) => {
                assert(self.deep_view().index.files[f as int]
                    == self.index.files@[f as int].deep_view());
                match self.target(f, source, pos) {
                    Some(t) => self.places(t),
                    None => match self.macro_at(f, source, pos) {
                        Some(name) => macro_places(&self.index.files[f], name.as_str()),
                        None => empty(),
                    },
                }
            },
            None => empty(),
        }
    }

    /// The places in its own file of what the name at a position stands for.
    pub fn highlights(&self, path: &str, pos: Position, source: &str) -> (r: Vec<Range>)
        ensures
            r.deep_view() == sqy::highlights(self.deep_view(), path@, pos, source@),
    {
        let list = self.references(path, pos, source);
        let ghost all = list.deep_view();
        let wanted = components(path);
        let mut out: Vec<Range> = empty();
        let mut i: usize = 0;
        while i < list.len()
            invariant
                i <= list@.len(),
                wanted.deep_view() == sh::components(path@),
                all == list.deep_view(),
                sqy::highlights_from(all, path@, 0, Seq::empty()) == sqy::highlights_from(
                    all,
                    path@,
                    i as int,
                    out.deep_view(),
                ),
            decreases list@.len() - i,
        {
            assert(all[i as int] == list@[i as int].deep_view());
            if has_components(list[i].file.as_str(), &wanted) {
                put(&mut out, list[i].range);
            }
            i = i + 1;
        }
        out
    }

    /// The changes that give a symbol a new name.
    fn rename_symbol(&self, t: SymbolRef, new_name: &str) -> (r: Result<
        Vec<TextEdit>,
        RenameError,
    >)
        requires
            crate::bindings::holds(self.index.files@, t),
        ensures
            rename_model(r) == sqy::rename_symbol(self.deep_view(), t.model(), new_name@),
    {
        assert(self.deep_view().index.files[t.file as int]
            == self.index.files@[t.file as int].deep_view());
        let symbols = &self.index.files[t.file].symbols;
        if let Some(k) = symbol_in(symbols, &self.symbol(t).scope, new_name) {
            if k != t.symbol {
                assert(symbols.deep_view()[k as int] == symbols@[k as int].deep_view());
                return Err(
                    RenameError::ConflictingSymbol {
                        file: symbols[k].file.clone(),
                        range: symbols[k].selection_range,
                    },
                );
            }
        }
        Ok(edits(&self.places(t), new_name))
    }

    /// The changes that give what the name at a position stands for a new
    /// name.
    pub fn rename(&self, path: &str, pos: Position, source: &str, new_name: &str) -> (r: Result<
        Vec<TextEdit>,
        RenameError,
    >)
        ensures
            rename_model(r) == sqy::rename(self.deep_view(), path@, pos, source@, new_name@),
    {
        let name = chars(new_name);
        if !is_fortran_name(name.as_slice()) {
            return Err(RenameError::InvalidIdentifier);
        }
        match self.file_number(path) {
            Some(f) => {
                assert(self.deep_view().index.files[f as int]
                    == self.index.files@[f as int].deep_view());
                match self.target(f, source, pos) {
                    Some(t) => self.rename_symbol(t, new_name),
                    None => match self.macro_at(f, source, pos) {
                        Some(name) => rename_macro(&self.index.files[f], name.as_str(), new_name),
                        None => Err(RenameError::UnresolvedSymbol),
                    },
                }
            },
            None => Err(RenameError::UnresolvedSymbol),
        }
    }

    // -----------------------------------------------------------------------
    // What is called
    // -----------------------------------------------------------------------

    /// The arguments that a procedure declares and that are not optional.
    fn required(&self, p: SymbolRef, args: &Vec<String>) -> (r: Vec<String>)
        requires
            crate::bindings::holds(self.index.files@, p),
        ensures
            r.deep_view() == sqy::required_from(
                self.deep_view(),
                p.model(),
                args.deep_view(),
                0,
                Seq::empty(),
            ),
    {
        let ghost all = args.deep_view();
        let mut out: Vec<String> = empty();
        let mut i: usize = 0;
        while i < args.len()
            invariant
                i <= args@.len(),
                all == args.deep_view(),
                crate::bindings::holds(self.index.files@, p),
                sqy::required_from(self.deep_view(), p.model(), all, 0, Seq::empty())
                    == sqy::required_from(
                    self.deep_view(),
                    p.model(),
                    all,
                    i as int,
                    out.deep_view(),
                ),
            decreases args@.len() - i,
        {
            assert(all[i as int] == args@[i as int]@);
            if let Some(k) = self.local(p, args[i].as_str()) {
                let s = self.symbol(SymbolRef { file: p.file, symbol: k });
                let attributes = s.attributes.as_slice();
                assert(attributes.deep_view() =~= s.attributes.deep_view());
                if !has_name(attributes, "optional") {
                    put(&mut out, args[i].clone());
                }
            }
            i = i + 1;
        }
        out
    }

    /// The callee that a procedure is.
    fn procedure_callee(&self, p: SymbolRef) -> (r: Callee)
        requires
            crate::bindings::holds(self.index.files@, p),
        ensures
            r.deep_view() == sqy::procedure_callee(self.deep_view(), p.model()),
    {
        let s = self.symbol(p);
        Callee {
            label: call_label(s.name.as_str(), &s.args),
            args: copy_texts(&s.args),
            required: self.required(p, &s.args),
            documentation: copy_option(&s.documentation),
        }
    }

    /// The callee that a procedure of a generic interface is.
    fn specific_callee(&self, p: SymbolRef) -> (r: Callee)
        requires
            crate::bindings::holds(self.index.files@, p),
        ensures
            r.deep_view() == sqy::specific_callee(self.deep_view(), p.model()),
    {
        let s = self.symbol(p);
        Callee {
            label: s.signature.clone(),
            args: copy_texts(&s.args),
            required: self.required(p, &s.args),
            documentation: copy_option(&s.documentation),
        }
    }

    /// The callee that a binding is.
    fn method_callee(&self, t: SymbolRef) -> (r: Option<Callee>)
        requires
            crate::bindings::holds(self.index.files@, t),
        ensures
            r.deep_view() == sqy::method_callee(self.deep_view(), t.model()),
    {
        let m = self.symbol(t);
        match self.procedure_of(t) {
            Some(q) => {
                let s = self.symbol(q);
                let args = without_index(&s.args, passed_index(m, &s.args));
                Some(
                    Callee {
                        label: call_label(m.name.as_str(), &args),
                        required: self.required(q, &args),
                        args,
                        documentation: copy_option(&s.documentation),
                    },
                )
            },
            None => None,
        }
    }

    /// The callees that the bindings of the types are.
    fn bound(&self, types: &Vec<SymbolRef>, names: &Vec<String>) -> (r: Vec<Callee>)
        requires
            crate::bindings::all_hold(self.index.files@, types@),
        ensures
            r.deep_view() == sqy::bound_from(
                self.deep_view(),
                crate::bindings::ref_models(types@),
                names.deep_view(),
                0,
                Seq::empty(),
            ),
    {
        let ghost all = names.deep_view();
        let ghost list = crate::bindings::ref_models(types@);
        let mut out: Vec<Callee> = empty();
        let mut j: usize = 0;
        while j < names.len()
            invariant
                j <= names@.len(),
                all == names.deep_view(),
                list == crate::bindings::ref_models(types@),
                crate::bindings::all_hold(self.index.files@, types@),
                sqy::bound_from(self.deep_view(), list, all, 0, Seq::empty()) == sqy::bound_from(
                    self.deep_view(),
                    list,
                    all,
                    j as int,
                    out.deep_view(),
                ),
            decreases names@.len() - j,
        {
            assert(all[j as int] == names@[j as int]@);
            if let Some(m) = self.find_method(types, names[j].as_str()) {
                if let Some(c) = self.method_callee(m) {
                    put(&mut out, c);
                }
            }
            j = j + 1;
        }
        out
    }

    /// The procedures that the types bind together under a name.
    fn generic_names(&self, types: &Vec<SymbolRef>, name: &str) -> (r: Vec<String>)
        requires
            crate::bindings::all_hold(self.index.files@, types@),
        ensures
            r.deep_view() == sqy::generic_names(
                self.deep_view(),
                crate::bindings::ref_models(types@),
                name@,
                0,
            ),
    {
        let ghost ws = self.deep_view();
        let ghost all = crate::bindings::ref_models(types@);
        let mut i: usize = 0;
        while i < types.len()
            invariant
                i <= types@.len(),
                ws == self.deep_view(),
                all == crate::bindings::ref_models(types@),
                crate::bindings::all_hold(self.index.files@, types@),
                sqy::generic_names(
                    self.deep_view(),
                    crate::bindings::ref_models(types@),
                    name@,
                    0,
                ) == sqy::generic_names(ws, all, name@, i as int),
            decreases types@.len() - i,
        {
            assert(crate::bindings::holds(self.index.files@, types@[i as int]));
            assert(all[i as int] == types@[i as int].model());
            let p = &self.index.files[types[i].file];
            assert(ws.index.files[all[i as int].0] == p.deep_view());
            if let Some(k) = generic_in(&p.generic_bindings, self.symbol(types[i]), name) {
                assert(p.deep_view().generic_bindings[k as int]
                    == p.generic_bindings@[k as int].deep_view());
                return copy_texts(&p.generic_bindings[k].procedures);
            }
            i = i + 1;
        }
        empty()
    }

    /// The callees behind `receiver % name`.
    fn member_callees(&self, f: usize, scope: &Vec<String>, receiver: &str, name: &str) -> (r: Vec<
        Callee,
    >)
        requires
            f < self.index.files@.len(),
        ensures
            r.deep_view() == sqy::member_callees(
                self.deep_view(),
                f as int,
                scope.deep_view(),
                receiver@,
                name@,
            ),
    {
        let mut out: Vec<Callee> = empty();
        match self.type_of(f, scope, receiver) {
            Some(t) => {
                let types = self.chain(t);
                match self.find_method(&types, name) {
                    Some(m) => {
                        if let Some(c) = self.method_callee(m) {
                            put(&mut out, c);
                        }
                        out
                    },
                    None => self.bound(&types, &self.generic_names(&types, name)),
                }
            },
            None => out,
        }
    }

    /// The callees that an interface takes from its module.
    fn specifics(&self, t: SymbolRef) -> (r: Vec<Callee>)
        requires
            crate::bindings::holds(self.index.files@, t),
        ensures
            r.deep_view() == sqy::specific_from(self.deep_view(), t.model(), 0, Seq::empty()),
    {
        let ghost ws = self.deep_view();
        let symbols = &self.index.files[t.file].symbols;
        assert(ws.index.files[t.file as int] == self.index.files@[t.file as int].deep_view());
        let ghost all = symbols.deep_view();
        let inner = inner_scope(self.symbol(t));
        let mut out: Vec<Callee> = empty();
        let mut k: usize = 0;
        while k < symbols.len()
            invariant
                k <= symbols@.len(),
                crate::bindings::holds(self.index.files@, t),
                symbols == self.index.files@[t.file as int].symbols,
                ws == self.deep_view(),
                all == symbols.deep_view(),
                all == ws.index.files[t.file as int].symbols,
                inner.deep_view() == sg::symbol(ws, t.model()).scope.push(
                    sg::symbol(ws, t.model()).name,
                ),
                sqy::specific_from(ws, t.model(), 0, Seq::empty()) == sqy::specific_from(
                    ws,
                    t.model(),
                    k as int,
                    out.deep_view(),
                ),
            decreases symbols@.len() - k,
        {
            assert(all[k as int] == symbols@[k as int].deep_view());
            if symbols[k].kind.is_procedure() && eq_scopes(&symbols[k].scope, &inner) {
                let q = self.linked(SymbolRef { file: t.file, symbol: k });
                put(&mut out, self.specific_callee(q));
            }
            k = k + 1;
        }
        out
    }

    /// The intrinsic symbol that a name stands for in a scope of a file.
    pub fn intrinsic_at(&self, f: usize, scope: &Vec<String>, name: &str) -> (r: Option<
        &IntrinsicSymbol,
    >)
        requires
            f < self.index.files@.len(),
        ensures
            match sqy::intrinsic_at(self.deep_view(), f as int, scope.deep_view(), name@) {
                Some(k) => 0 <= k < self.index.intrinsics@.len() && r == Some(
                    &self.index.intrinsics@[k],
                ),
                None => r is None,
            },
    {
        let ghost ws = self.deep_view();
        let p = &self.index.files[f];
        assert(ws.index.files[f as int] == p.deep_view());
        let ghost all = p.deep_view().uses;
        let mut i: usize = 0;
        while i < p.uses.len()
            invariant
                i <= p.uses@.len(),
                ws == self.deep_view(),
                ws.index.files[f as int] == p.deep_view(),
                all == p.deep_view().uses,
                sqy::intrinsic_from(
                    self.deep_view(),
                    ws.index.files[f as int].uses,
                    scope.deep_view(),
                    name@,
                    0,
                ) == sqy::intrinsic_from(ws, all, scope.deep_view(), name@, i as int),
            decreases p.uses@.len() - i,
        {
            let u = &p.uses[i];
            assert(all[i as int] == u.deep_view());
            let module = u.module.as_str();
            if is_level_from(scope, &u.scope, 0) && self.index.is_intrinsic_module(module) && (
            u.intrinsic || module_file(&self.index.files, module).is_none()) {
                if let Some(remote) = brings(u, name) {
                    let found = member(&self.index.intrinsics, module, remote.as_str());
                    if found.is_some() {
                        return found;
                    }
                }
            }
            i = i + 1;
        }
        find_global_intrinsic(&self.index.intrinsics, name)
    }

    /// The callees that a name can stand for in a scope of a file.
    fn named_callees(&self, f: usize, scope: &Vec<String>, name: &str) -> (r: Vec<Callee>)
        requires
            f < self.index.files@.len(),
        ensures
            r.deep_view() == sqy::named_callees(
                self.deep_view(),
                f as int,
                scope.deep_view(),
                name@,
            ),
    {
        let mut out: Vec<Callee> = empty();
        match self.resolve(f, scope, name) {
            Some(t) => if self.symbol(t).kind == SymbolKind::Interface {
                self.specifics(t)
            } else {
                let q = self.linked(t);
                if self.symbol(q).kind.is_procedure() {
                    put(&mut out, self.procedure_callee(q));
                }
                out
            },
            None => {
                if let Some(x) = self.intrinsic_at(f, scope, name) {
                    put(&mut out, intrinsic_callee(x));
                }
                out
            },
        }
    }

    /// The callees that a call can go to.
    pub fn callees(
        &self,
        f: usize,
        scope: &Vec<String>,
        receiver: &Option<String>,
        name: &str,
    ) -> (r: Vec<Callee>)
        requires
            f < self.index.files@.len(),
        ensures
            r.deep_view() == sqy::callees(
                self.deep_view(),
                f as int,
                scope.deep_view(),
                receiver.deep_view(),
                name@,
            ),
    {
        match receiver {
            Some(receiver) => self.member_callees(f, scope, receiver.as_str(), name),
            None => self.named_callees(f, scope, name),
        }
    }

    /// The procedure whose arguments stand at a position.
    pub fn signature_help(&self, path: &str, pos: Position, source: &str) -> (r: Option<
        SignatureHelp,
    >)
        ensures
            r.deep_view() == sqy::signature_help(self.deep_view(), path@, pos, source@),
    {
        match self.file_number(path) {
            Some(f) => match call_context(source, pos) {
                Some(call) => {
                    assert(self.deep_view().index.files[f as int]
                        == self.index.files@[f as int].deep_view());
                    let scope = scope_at(&self.index.files[f].symbols, pos);
                    let list = self.callees(f, &scope, &call.receiver, call.name.as_str());
                    match fitting(&list, call.argument_count, &call.active_argument_name) {
                        Some(c) => Some(
                            SignatureHelp {
                                label: c.label.clone(),
                                parameters: copy_texts(&c.args),
                                active_parameter: active_parameter(c, &call),
                                documentation: copy_option(&c.documentation),
                            },
                        ),
                        None => None,
                    }
                },
                None => None,
            },
            None => None,
        }
    }

    // -----------------------------------------------------------------------
    // What is shown
    // -----------------------------------------------------------------------

    /// The text that is shown for a binding.
    fn method_markdown(&self, t: SymbolRef) -> (r: String)
        requires
            crate::bindings::holds(self.index.files@, t),
        ensures
            r@ == sqy::method_markdown(self.deep_view(), t.model()),
    {
        let m = self.symbol(t);
        match (self.procedure_of(t), self.method_callee(t)) {
            (Some(q), Some(c)) => {
                let mut signature = if self.symbol(q).kind == SymbolKind::Function {
                    owned("function ")
                } else {
                    owned("subroutine ")
                };
                push_text(&mut signature, c.label.as_str());
                let mut shown = m.clone();
                shown.signature = signature;
                shown.documentation = c.documentation;
                shown.hover_markdown()
            },
            _ => m.hover_markdown(),
        }
    }

    /// The text that is shown for a symbol.
    fn symbol_markdown(&self, t: SymbolRef) -> (r: String)
        requires
            crate::bindings::holds(self.index.files@, t),
        ensures
            r@ == sqy::symbol_markdown(self.deep_view(), t.model()),
    {
        if self.symbol(t).kind == SymbolKind::Method {
            self.method_markdown(t)
        } else {
            self.symbol(self.linked(t)).hover_markdown()
        }
    }

    /// The text that is shown for a file that is taken in.
    fn file_markdown(&self, p: &ParsedFile, i: usize) -> (r: String)
        requires
            i < p.includes@.len(),
        ensures
            r@ == sqy::file_markdown(self.deep_view(), p.deep_view(), i as int),
    {
        assert(p.deep_view().includes[i as int] == p.includes@[i as int].deep_view());
        let name = p.includes[i].path.as_str();
        match self.resolve_path(p.path.as_str(), name) {
            Some(path) => {
                let mut out = about("include `", name, "`\n\nresolved: `");
                push_text(&mut out, path.as_str());
                push_text(&mut out, "`");
                out
            },
            None => about("unresolved include `", name, "`"),
        }
    }

    /// The text that is shown for an intrinsic name or a literal.
    fn other_hover(&self, f: usize, pos: Position, source: &str) -> (r: Option<String>)
        requires
            f < self.index.files@.len(),
        ensures
            r.deep_view() == sqy::other_hover(self.deep_view(), f as int, pos, source@),
    {
        assert(self.deep_view().index.files[f as int] == self.index.files@[f as int].deep_view());
        let scope = scope_at(&self.index.files[f].symbols, pos);
        if let Some(name) = word_at_source(source, pos) {
            if let Some(x) = self.intrinsic_at(f, &scope, name.as_str()) {
                return Some(x.hover_markdown());
            }
        }
        match literal_at(source, pos) {
            Some(t) => Some(about("```fortran\n", t.as_str(), "\n```")),
            None => None,
        }
    }

    /// The text that is shown for the name, the file or the literal at a
    /// position.
    pub fn hover(&self, path: &str, pos: Position, source: &str) -> (r: Option<String>)
        ensures
            r.deep_view() == sqy::hover(self.deep_view(), path@, pos, source@),
    {
        match self.file_number(path) {
            Some(f) => {
                let p = &self.index.files[f];
                assert(self.deep_view().index.files[f as int] == p.deep_view());
                if let Some(i) = statement_at(p, pos) {
                    return Some(self.file_markdown(p, i));
                }
                if let Some(t) = self.target(f, source, pos) {
                    return Some(self.symbol_markdown(t));
                }
                if let Some(name) = self.macro_at(f, source, pos) {
                    if let Some(value) = p.preprocessor_definitions.get(name.as_str()) {
                        return Some(macro_markdown(name.as_str(), value.as_str()));
                    }
                }
                self.other_hover(f, pos, source)
            },
            None => None,
        }
    }
}

} // verus!
