//! The files of a workspace and what is known of them.

use vstd::prelude::*;

use crate::checks::{check_line_lengths, within_lines};
use crate::cursor::word_range_at_source;
use crate::intrinsics::IntrinsicSymbol;
use crate::list::{empty, put};
use crate::model::{
    Diagnostic, DiagnosticSeverity, IncludeStmt, ParsedFile, Position, Range, ResolvedInclude,
    SelectionRange, Symbol,
};
use crate::modules::Index;
use crate::order::{Ordered, sorted};
use crate::outline::DocumentSymbol;
use crate::path::{components, has_components, is_fixed_form_path, join_path};
use crate::source::{SourceFile, candidate, find_source, source_lines};
use crate::spec::model as sm;
use crate::spec::modules as sx;
use crate::spec::order as sr;
use crate::spec::path as sh;
use crate::spec::text as st;
use crate::spec::workspace as sw;
use crate::text::{chars, contains, eq_texts, lower_text, owned, push_text, same_text};

verus! {

/// A workspace: its files, the settings, and the files outside it that can be
/// taken in.
#[derive(Debug, PartialEq, Eq)]
pub struct Workspace {
    pub index: Index,
    pub include_roots: Vec<String>,
    pub macros: Vec<(String, String)>,
    pub max_line_length: Option<usize>,
    pub max_comment_line_length: Option<usize>,
    pub sources: Vec<SourceFile>,
}

impl DeepView for Workspace {
    type V = sw::Workspace;

    open spec fn deep_view(&self) -> sw::Workspace {
        sw::Workspace {
            index: self.index.deep_view(),
            include_roots: self.include_roots.deep_view(),
            macros: self.macros.deep_view(),
            max_line_length: self.max_line_length,
            max_comment_line_length: self.max_comment_line_length,
            sources: self.sources.deep_view(),
        }
    }
}

/// The first file with the path `path`.
fn file_at(files: &Vec<ParsedFile>, path: &str) -> (r: Option<usize>)
    ensures
        st::at(r) == sw::file_from(files.deep_view(), path@, 0),
        r matches Some(k) ==> k < files@.len(),
{
    let wanted = components(path);
    let ghost all = files.deep_view();
    let mut i: usize = 0;
    while i < files.len()
        invariant
            i <= files@.len(),
            wanted.deep_view() == sh::components(path@),
            all == files.deep_view(),
            sw::file_from(files.deep_view(), path@, 0) == sw::file_from(all, path@, i as int),
        decreases files@.len() - i,
    {
        assert(all[i as int] == files@[i as int].deep_view());
        if has_components(files[i].path.as_str(), &wanted) {
            return Some(i);
        }
        i = i + 1;
    }
    None
}

// ---------------------------------------------------------------------------
// Settings and files
// ---------------------------------------------------------------------------

impl Workspace {
    /// A workspace without files.
    pub fn new() -> (r: Self)
        ensures
            r.deep_view() == (sw::Workspace {
                index: sx::Index { files: Seq::empty(), intrinsics: Seq::empty() },
                include_roots: Seq::empty(),
                macros: Seq::empty(),
                max_line_length: None,
                max_comment_line_length: None,
                sources: Seq::empty(),
            }),
    {
        Workspace {
            index: Index { files: empty(), intrinsics: empty() },
            include_roots: empty(),
            macros: empty(),
            max_line_length: None,
            max_comment_line_length: None,
            sources: empty(),
        }
    }

    /// Sets the intrinsic symbols.
    pub fn set_intrinsics(&mut self, intrinsics: Vec<IntrinsicSymbol>)
        ensures
            final(self).deep_view() == (sw::Workspace {
                index: sx::Index {
                    intrinsics: intrinsics.deep_view(),
                    ..old(self).deep_view().index
                },
                ..old(self).deep_view()
            }),
    {
        self.index.intrinsics = intrinsics;
    }

    /// Sets the directories where files that are taken in are looked for.
    pub fn set_include_roots(&mut self, roots: Vec<String>)
        ensures
            final(self).deep_view() == (sw::Workspace {
                include_roots: roots.deep_view(),
                ..old(self).deep_view()
            }),
    {
        self.include_roots = roots;
    }

    /// Sets how long lines and comments may be.
    pub fn set_line_length_limits(&mut self, line: Option<usize>, comment: Option<usize>)
        ensures
            final(self).deep_view() == (sw::Workspace {
                max_line_length: line,
                max_comment_line_length: comment,
                ..old(self).deep_view()
            }),
    {
        self.max_line_length = line;
        self.max_comment_line_length = comment;
    }

    /// Reads a file with the settings of the workspace.
    fn parse(&self, path: &str, source: &str) -> (r: ParsedFile)
        ensures
            r.deep_view() == sw::parse(self.deep_view(), path@, source@),
    {
        let macros = self.macros.as_slice();
        assert(macros.deep_view() =~= self.macros.deep_view());
        ParsedFile::parse_with_files(path, source, macros, &self.sources)
    }

    /// Reads all files again.
    fn reparse(&mut self)
        ensures
            final(self).deep_view() == sw::reparsed(old(self).deep_view()),
    {
        let ghost ws = self.deep_view();
        let mut files: Vec<ParsedFile> = empty();
        let mut i: usize = 0;
        while i < self.index.files.len()
            invariant
                i <= self.index.files@.len(),
                ws == self.deep_view(),
                files.deep_view() == Seq::new(
                    i as nat,
                    |k: int| sw::parse(ws, ws.index.files[k].path, ws.index.files[k].source),
                ),
            decreases self.index.files@.len() - i,
        {
            let p = &self.index.files[i];
            assert(ws.index.files[i as int] == p.deep_view());
            put(&mut files, self.parse(p.path.as_str(), p.source.as_str()));
            i = i + 1;
            assert(files.deep_view() =~= Seq::new(
                i as nat,
                |k: int| sw::parse(ws, ws.index.files[k].path, ws.index.files[k].source),
            ));
        }
        assert(files.deep_view() =~= sw::reparsed(ws).index.files);
        self.index.files = files;
    }

    /// Sets the macros that are defined from outside, and reads all files
    /// again.
    pub fn set_predefined_macros(&mut self, macros: Vec<(String, String)>)
        ensures
            final(self).deep_view() == sw::reparsed(
                (sw::Workspace { macros: macros.deep_view(), ..old(self).deep_view() }),
            ),
    {
        self.macros = macros;
        self.reparse();
    }

    /// Sets the files that can be taken in, and reads all files again.
    pub fn set_source_files(&mut self, sources: Vec<SourceFile>)
        ensures
            final(self).deep_view() == sw::reparsed(
                (sw::Workspace { sources: sources.deep_view(), ..old(self).deep_view() }),
            ),
    {
        self.sources = sources;
        self.reparse();
    }

    /// The file with the path `path`.
    pub fn file(&self, path: &str) -> (r: Option<&ParsedFile>)
        ensures
            match sw::find_file(self.deep_view(), path@) {
                Some(k) => 0 <= k < self.index.files@.len() && r == Some(&self.index.files@[k]),
                None => r is None,
            },
    {
        match file_at(&self.index.files, path) {
            Some(k) => Some(&self.index.files[k]),
            None => None,
        }
    }

    /// The number of the file with the path `path`.
    pub fn file_number(&self, path: &str) -> (r: Option<usize>)
        ensures
            st::at(r) == sw::find_file(self.deep_view(), path@),
            r matches Some(k) ==> k < self.index.files@.len(),
    {
        file_at(&self.index.files, path)
    }

    /// Puts a file that was read into the workspace.
    pub fn upsert_parsed(&mut self, p: ParsedFile)
        ensures
            final(self).deep_view() == sw::upsert_parsed(old(self).deep_view(), p.deep_view()),
    {
        let ghost before = self.deep_view();
        let ghost wanted = sw::put_file(before.index.files, p.deep_view());
        match file_at(&self.index.files, p.path.as_str()) {
            Some(k) => {
                self.index.files.set(k, p);
            },
            None => {
                self.index.files.push(p);
            },
        }
        assert(self.index.files.deep_view() =~= wanted);
        assert(self.deep_view() =~= sw::with_files(before, wanted));
    }

    /// Puts a file into the workspace, and says whether anything changed.
    pub fn upsert_file(&mut self, path: &str, source: &str) -> (r: bool)
        ensures
            r == !sw::is_unchanged(old(self).deep_view(), path@, source@),
            final(self).deep_view() == sw::upsert_file(old(self).deep_view(), path@, source@),
    {
        if let Some(p) = self.file(path) {
            if p.source == owned(source) {
                return false;
            }
        }
        let p = self.parse(path, source);
        self.upsert_parsed(p);
        true
    }

    /// Takes a file out of the workspace.
    pub fn remove_file(&mut self, path: &str)
        ensures
            final(self).deep_view() == sw::remove_file(old(self).deep_view(), path@),
    {
        let ghost before = self.deep_view();
        if let Some(k) = file_at(&self.index.files, path) {
            self.index.files.remove(k);
            assert(self.index.files.deep_view() =~= before.index.files.remove(k as int));
            assert(self.deep_view() =~= sw::remove_file(before, path@));
        }
    }
}

// ---------------------------------------------------------------------------
// Symbols
// ---------------------------------------------------------------------------

/// Adds the symbols that a query finds.
fn add_found(symbols: &Vec<Symbol>, query: &str, out: &mut Vec<Symbol>)
    ensures
        final(out).deep_view() == sw::found_from(
            symbols.deep_view(),
            query@,
            0,
            old(out).deep_view(),
        ),
{
    let ghost all = symbols.deep_view();
    let ghost wanted = sw::found_from(all, query@, 0, out.deep_view());
    let low = lower_text(query);
    let mut i: usize = 0;
    while i < symbols.len()
        invariant
            i <= symbols@.len(),
            all == symbols.deep_view(),
            low@ == st::lower(query@),
            wanted == sw::found_from(all, query@, i as int, out.deep_view()),
        decreases symbols@.len() - i,
    {
        assert(all[i as int] == symbols@[i as int].deep_view());
        let name = chars(lower_text(symbols[i].name.as_str()).as_str());
        if contains(name.as_slice(), low.as_str()) {
            put(out, symbols[i].clone());
        }
        i = i + 1;
    }
}

impl Workspace {
    /// The symbols whose names hold `query`, case aside.
    pub fn workspace_symbols(&self, query: &str) -> (r: Vec<Symbol>)
        ensures
            r.deep_view() == sw::workspace_symbols(self.deep_view(), query@),
    {
        let ghost all = self.deep_view().index.files;
        let mut out: Vec<Symbol> = empty();
        let mut i: usize = 0;
        while i < self.index.files.len()
            invariant
                i <= self.index.files@.len(),
                all == self.deep_view().index.files,
                sw::workspace_symbols(self.deep_view(), query@) == sw::workspace_symbols_from(
                    all,
                    query@,
                    i as int,
                    out.deep_view(),
                ),
            decreases self.index.files@.len() - i,
        {
            assert(all[i as int] == self.index.files@[i as int].deep_view());
            add_found(&self.index.files[i].symbols, query, &mut out);
            i = i + 1;
        }
        out
    }

    /// The symbols of a file as a tree.
    pub fn document_symbols(&self, path: &str) -> (r: Vec<DocumentSymbol>)
        ensures
            crate::outline::models(r@) == sw::document_symbols(self.deep_view(), path@),
    {
        match self.file(path) {
            Some(p) => p.document_symbols(),
            None => {
                let nothing: Vec<DocumentSymbol> = Vec::new();
                assert(crate::outline::models(nothing@) =~= Seq::empty());
                nothing
            },
        }
    }
}

// ---------------------------------------------------------------------------
// Files that are taken in
// ---------------------------------------------------------------------------

/// Whether a path ends in a name.
fn ends_in(path: &str, name: &str) -> (r: bool)
    ensures
        r == sw::ends_in(path@, name@),
{
    let mut all = components(path);
    let wanted = components(name);
    let ghost parts = sh::components(path@);
    if wanted.len() == 0 || all.len() < wanted.len() {
        return false;
    }
    let start: usize = all.len() - wanted.len();
    let last = all.split_off(start);
    assert(last.deep_view() =~= parts.skip(start as int));
    eq_texts(&last, &wanted)
}

fn unresolved_file(stmt: &IncludeStmt) -> (r: Diagnostic)
    ensures
        r.deep_view() == sw::unresolved_file(stmt.deep_view()),
{
    let mut message = owned("include file `");
    push_text(&mut message, stmt.path.as_str());
    push_text(&mut message, "` could not be resolved");
    Diagnostic { range: stmt.range, severity: DiagnosticSeverity::Warning, message }
}

impl Workspace {
    /// Whether there is a file with the path `path`.
    fn exists_file(&self, path: &str) -> (r: bool)
        ensures
            r == sw::exists_file(self.deep_view(), path@),
    {
        self.file(path).is_some() || find_source(&self.sources, path).is_some()
    }

    /// Where the roots have a file.
    fn in_roots(&self, name: &str) -> (r: Option<String>)
        ensures
            r.deep_view() == sw::in_roots_from(self.deep_view(), name@, 0),
    {
        let ghost all = self.deep_view().include_roots;
        let mut i: usize = 0;
        while i < self.include_roots.len()
            invariant
                i <= self.include_roots@.len(),
                all == self.deep_view().include_roots,
                sw::in_roots_from(self.deep_view(), name@, 0) == sw::in_roots_from(
                    self.deep_view(),
                    name@,
                    i as int,
                ),
            decreases self.include_roots@.len() - i,
        {
            assert(all[i as int] == self.include_roots@[i as int]@);
            let path = join_path(self.include_roots[i].as_str(), name);
            if self.exists_file(path.as_str()) {
                return Some(path);
            }
            i = i + 1;
        }
        None
    }

    /// The first file of the workspace whose path ends in a name.
    fn in_files(&self, name: &str) -> (r: Option<String>)
        ensures
            r.deep_view() == sw::in_files_from(self.deep_view().index.files, name@, 0),
    {
        let ghost all = self.deep_view().index.files;
        let mut i: usize = 0;
        while i < self.index.files.len()
            invariant
                i <= self.index.files@.len(),
                all == self.deep_view().index.files,
                sw::in_files_from(self.deep_view().index.files, name@, 0) == sw::in_files_from(
                    all,
                    name@,
                    i as int,
                ),
            decreases self.index.files@.len() - i,
        {
            assert(all[i as int] == self.index.files@[i as int].deep_view());
            if ends_in(self.index.files[i].path.as_str(), name) {
                return Some(self.index.files[i].path.clone());
            }
            i = i + 1;
        }
        None
    }

    /// Where the file that a file names is found.
    pub fn resolve_path(&self, from: &str, name: &str) -> (r: Option<String>)
        ensures
            r.deep_view() == sw::resolve_path(self.deep_view(), from@, name@),
    {
        if let Some(path) = candidate(from, name) {
            if self.exists_file(path.as_str()) {
                return Some(path);
            }
        }
        match self.in_roots(name) {
            Some(path) => Some(path),
            None => self.in_files(name),
        }
    }

    pub fn resolved_of(&self, p: &ParsedFile) -> (r: Vec<ResolvedInclude>)
        ensures
            r.deep_view() == sw::resolved_of(self.deep_view(), p.deep_view()),
    {
        let ghost all = sw::resolved_of(self.deep_view(), p.deep_view());
        let mut out: Vec<ResolvedInclude> = empty();
        let mut i: usize = 0;
        while i < p.includes.len()
            invariant
                i <= p.includes@.len(),
                all == sw::resolved_of(self.deep_view(), p.deep_view()),
                all.len() == p.includes@.len(),
                out.deep_view() == all.take(i as int),
            decreases p.includes@.len() - i,
        {
            let stmt = &p.includes[i];
            assert(p.deep_view().includes[i as int] == stmt.deep_view());
            let resolved_path = self.resolve_path(p.path.as_str(), stmt.path.as_str());
            put(&mut out, ResolvedInclude { include_stmt: stmt.clone(), resolved_path });
            i = i + 1;
            assert(out.deep_view() =~= all.take(i as int));
        }
        assert(out.deep_view() =~= all);
        out
    }

    /// The files that a file takes in, and where they are found.
    pub fn resolved_includes(&self, path: &str) -> (r: Vec<ResolvedInclude>)
        ensures
            r.deep_view() == sw::resolved_includes(self.deep_view(), path@),
    {
        match self.file(path) {
            Some(p) => self.resolved_of(p),
            None => empty(),
        }
    }

    // -----------------------------------------------------------------------
    // Diagnostics
    // -----------------------------------------------------------------------

    /// Adds the diagnostics for the files that are not found.
    fn check_resolved(&self, list: &Vec<ResolvedInclude>, out: &mut Vec<Diagnostic>)
        ensures
            final(out).deep_view() == sw::unresolved_from(
                list.deep_view(),
                0,
                old(out).deep_view(),
            ),
    {
        let ghost all = list.deep_view();
        let ghost wanted = sw::unresolved_from(all, 0, out.deep_view());
        let mut i: usize = 0;
        while i < list.len()
            invariant
                i <= list@.len(),
                all == list.deep_view(),
                wanted == sw::unresolved_from(all, i as int, out.deep_view()),
            decreases list@.len() - i,
        {
            let stmt = &list[i].include_stmt;
            assert(all[i as int] == list@[i as int].deep_view());
            if list[i].resolved_path.is_none() && !same_text(stmt.path.as_str(), "mpif.h") {
                put(out, unresolved_file(stmt));
            }
            i = i + 1;
        }
    }

    fn file_diagnostics(&self, f: usize) -> (r: Vec<Diagnostic>)
        requires
            f < self.index.files@.len(),
        ensures
            r.deep_view() == sw::file_diagnostics(self.deep_view(), f as int),
    {
        let p = &self.index.files[f];
        assert(self.deep_view().index.files[f as int] == p.deep_view());
        let lines = source_lines(p.source.as_str());
        assert(lines.deep_view().len() == lines@.len());
        let mut out = within_lines(&p.diagnostics, lines.len());
        check_line_lengths(
            &lines,
            is_fixed_form_path(p.path.as_str()),
            self.max_line_length,
            self.max_comment_line_length,
            &mut out,
        );
        self.check_resolved(&self.resolved_of(p), &mut out);
        self.index.check_uses(p, &mut out);
        self.check_names(f, &mut out);
        self.check_bindings(f, &mut out);
        self.check_calls(f, &mut out);
        out
    }

    /// The diagnostics for a file of the workspace.
    pub fn diagnostics(&self, path: &str) -> (r: Vec<Diagnostic>)
        ensures
            r.deep_view() == sw::diagnostics(self.deep_view(), path@),
    {
        match self.file_number(path) {
            Some(f) => self.file_diagnostics(f),
            None => empty(),
        }
    }
}

// ---------------------------------------------------------------------------
// Selections
// ---------------------------------------------------------------------------

/// A symbol around a position: how deep it lies, its name and all of it.
struct Enclosing {
    depth: usize,
    name: Range,
    whole: Range,
}

impl Ordered for Enclosing {
    type Model = sw::Enclosing;

    closed spec fn order_model(&self) -> sw::Enclosing {
        sw::Enclosing { depth: self.depth as nat, name: self.name, whole: self.whole }
    }

    open spec fn order() -> sr::Order<sw::Enclosing> {
        sw::depth_order()
    }

    fn is_not_after(&self, other: &Self) -> (r: bool) {
        self.depth <= other.depth
    }
}

/// The model of a stretch that there may be.
pub open spec fn selection_model(s: Option<SelectionRange>) -> Option<sm::SelectionRange> {
    match s {
        Some(s) => Some(s.model()),
        None => None,
    }
}

/// A stretch inside another one, unless it is that one.
fn nested(range: Range, parent: Option<SelectionRange>) -> (r: Option<SelectionRange>)
    ensures
        selection_model(r) == sw::nested(range, selection_model(parent)),
{
    match parent {
        Some(outer) => if outer.range == range {
            Some(outer)
        } else {
            Some(SelectionRange { range, parent: Some(Box::new(outer)) })
        },
        None => Some(SelectionRange { range, parent: None }),
    }
}

/// The symbols that open a scope around a position.
fn enclosing(symbols: &Vec<Symbol>, pos: Position) -> (r: Vec<Enclosing>)
    ensures
        crate::order::order_models(r@) == sw::enclosing_from(
            symbols.deep_view(),
            pos,
            0,
            Seq::empty(),
        ),
{
    let ghost all = symbols.deep_view();
    let mut out: Vec<Enclosing> = Vec::new();
    assert(crate::order::order_models(out@) =~= Seq::empty());
    let mut i: usize = 0;
    while i < symbols.len()
        invariant
            i <= symbols@.len(),
            all == symbols.deep_view(),
            sw::enclosing_from(all, pos, 0, Seq::empty()) == sw::enclosing_from(
                all,
                pos,
                i as int,
                crate::order::order_models(out@),
            ),
        decreases symbols@.len() - i,
    {
        let s = &symbols[i];
        assert(all[i as int] == s.deep_view());
        assert(s.deep_view().scope.len() == s.scope@.len());
        if s.kind.is_scope() && s.range.contains(pos) {
            let item = Enclosing {
                depth: s.scope.len(),
                name: s.selection_range,
                whole: s.range,
            };
            let ghost wanted = crate::order::order_models(out@).push(item.order_model());
            out.push(item);
            assert(crate::order::order_models(out@) =~= wanted);
        }
        i = i + 1;
    }
    out
}

impl Workspace {
    /// What can be selected at a position.
    pub fn selection_range(&self, path: &str, pos: Position, source: &str) -> (r: Option<
        SelectionRange,
    >)
        ensures
            selection_model(r) == sw::selection_range(self.deep_view(), path@, pos, source@),
    {
        let p = match self.file(path) {
            Some(p) => p,
            None => {
                return None;
            },
        };
        let list = sorted(enclosing(&p.symbols, pos));
        let ghost all = crate::order::order_models(list@);
        let mut around: Option<SelectionRange> = None;
        let mut n: usize = 0;
        while n < list.len()
            invariant
                n <= list@.len(),
                all == crate::order::order_models(list@),
                selection_model(around) == sw::nested_symbols(all, n as int),
            decreases list@.len() - n,
        {
            assert(all[n as int] == list@[n as int].order_model());
            around = nested(list[n].name, nested(list[n].whole, around));
            n = n + 1;
        }
        match word_range_at_source(source, pos) {
            Some(word) => nested(word, around),
            None => around,
        }
    }
}

} // verus!
