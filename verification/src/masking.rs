//! Remarks about symbols that stand in each other's way.

use vstd::prelude::*;
use vstd::slice::slice_subrange;

use crate::declaration::is_module_procedure_link_symbol;
use crate::list::{empty, put};
use crate::model::{Diagnostic, DiagnosticSeverity, ParsedFile, Symbol, SymbolKind, UseStmt};
use crate::scan::{split_statement_line, strip_inline_comment};
use crate::source::source_lines;
use crate::spec::masking as sk;
use crate::spec::model as sm;
use crate::spec::text as st;
use crate::text::{
    after_keyword, after_keywords, chars, decimal, eq_texts, first_ident_is, has_name,
    is_name_start, lower, owned, push_text, same_scope, same_text, split_char, split_once,
    starts_with_word, sum, trim,
};

verus! {

/// Whether one of the symbols fulfils a condition.
fn any_symbol<F: Fn(&Symbol) -> bool>(
    symbols: &Vec<Symbol>,
    condition: F,
    Ghost(p): Ghost<spec_fn(sm::Symbol) -> bool>,
) -> (r: bool)
    requires
        forall|s: &Symbol| condition.requires((s,)),
        forall|s: &Symbol, b: bool|
            condition.ensures((s,), b) ==> b == p(s.deep_view()),
    ensures
        r == (exists|k: int| 0 <= k < symbols@.len() && p(#[trigger] symbols.deep_view()[k])),
{
    let ghost all = symbols.deep_view();
    let mut i: usize = 0;
    while i < symbols.len()
        invariant
            i <= symbols@.len(),
            all == symbols.deep_view(),
            forall|s: &Symbol| condition.requires((s,)),
            forall|s: &Symbol, b: bool| condition.ensures((s,), b) ==> b == p(s.deep_view()),
            forall|k: int| 0 <= k < i ==> !p(#[trigger] all[k]),
        decreases symbols@.len() - i,
    {
        assert(all[i as int] == symbols@[i as int].deep_view());
        if condition(&symbols[i]) {
            assert(p(all[i as int]));
            return true;
        }
        i = i + 1;
    }
    false
}

// ---------------------------------------------------------------------------
// Duplicates
// ---------------------------------------------------------------------------

/// Whether a symbol can stand beside others of its name.
fn may_repeat(s: &Symbol) -> (r: bool)
    ensures
        r == sk::may_repeat(s.deep_view()),
{
    s.kind == SymbolKind::Interface || is_module_procedure_link_symbol(s)
}

/// Whether two symbols have the same scope and name, case of the name aside.
fn same_key(a: &Symbol, b: &Symbol) -> (r: bool)
    ensures
        r == sk::same_key(a.deep_view(), b.deep_view()),
{
    eq_texts(&a.scope, &b.scope) && same_text(a.name.as_str(), b.name.as_str())
}

/// The first symbol before the symbol `i` that has its scope and name.
fn first_definition(symbols: &Vec<Symbol>, i: usize) -> (r: Option<usize>)
    requires
        i < symbols@.len(),
    ensures
        st::at(r) == sk::first_definition(symbols.deep_view(), i as int, 0),
        r matches Some(j) ==> j < i,
{
    let mut j: usize = 0;
    while j < i
        invariant
            j <= i < symbols@.len(),
            sk::first_definition(symbols.deep_view(), i as int, 0) == sk::first_definition(
                symbols.deep_view(),
                i as int,
                j as int,
            ),
        decreases i - j,
    {
        if !may_repeat(&symbols[j]) && same_key(&symbols[j], &symbols[i]) {
            return Some(j);
        }
        j = j + 1;
    }
    None
}

fn duplicate_diagnostic(s: &Symbol, first: &Symbol) -> (r: Diagnostic)
    ensures
        r.deep_view() == sk::duplicate_diagnostic(s.deep_view(), first.deep_view()),
{
    let mut message = owned("symbol `");
    push_text(&mut message, s.name.as_str());
    push_text(&mut message, "` is already defined in this scope at line ");
    push_text(&mut message, decimal(sum(first.range.start.line, 1)).as_str());
    Diagnostic { range: s.range, severity: DiagnosticSeverity::Error, message }
}

/// The remarks about symbols that are defined twice in a scope.
pub fn duplicate_diagnostics(symbols: &Vec<Symbol>) -> (r: Vec<Diagnostic>)
    ensures
        r.deep_view() == sk::duplicate_diagnostics(symbols.deep_view()),
{
    let mut out: Vec<Diagnostic> = empty();
    let mut i: usize = 0;
    while i < symbols.len()
        invariant
            i <= symbols@.len(),
            sk::duplicate_diagnostics(symbols.deep_view()) == sk::duplicates_from(
                symbols.deep_view(),
                i as int,
                out.deep_view(),
            ),
        decreases symbols@.len() - i,
    {
        if !may_repeat(&symbols[i]) {
            match first_definition(symbols, i) {
                Some(j) => {
                    put(&mut out, duplicate_diagnostic(&symbols[i], &symbols[j]));
                },
                None => {
                },
            }
        }
        i = i + 1;
    }
    out
}

// ---------------------------------------------------------------------------
// Interfaces by line
// ---------------------------------------------------------------------------

/// Whether a statement is the word `interface` with what can follow it, given
/// what stands behind that word.
fn is_interface(rest: Option<&[char]>) -> (r: bool)
    ensures
        r == sk::is_interface(st::slice(rest)),
{
    match rest {
        Some(rest) => {
            let t = trim(rest);
            t.len() == 0 || is_name_start(t[0])
        },
        None => false,
    }
}

/// Takes in a statement: the interfaces that are open behind it.
fn interface_step(open: &mut Vec<bool>, statement: &[char])
    ensures
        final(open)@ == sk::interface_step(old(open)@, statement@),
{
    if is_interface(after_keywords(statement, "end", "interface")) || is_interface(
        after_keyword(statement, "endinterface"),
    ) {
        let ghost before = open@;
        let _ = open.pop();
        assert(before.len() > 0 ==> open@ =~= before.drop_last());
        assert(before.len() == 0 ==> open@ =~= before);
    } else if is_interface(after_keywords(statement, "abstract", "interface")) {
        open.push(true);
    } else if is_interface(after_keyword(statement, "interface")) {
        open.push(false);
    }
}

/// Takes in a line: the interfaces that are open behind it.
fn line_step(open: &mut Vec<bool>, line: &[char])
    ensures
        final(open)@ == sk::line_step(old(open)@, line@),
{
    let statements = split_statement_line(strip_inline_comment(line));
    let ghost all = statements.deep_view();
    let mut i: usize = 0;
    while i < statements.len()
        invariant
            i <= statements@.len(),
            all == statements.deep_view(),
            sk::statements_step(old(open)@, all, 0) == sk::statements_step(open@, all, i as int),
        decreases statements@.len() - i,
    {
        let statement = chars(statements[i].as_str());
        assert(statement@ == all[i as int]);
        interface_step(open, statement.as_slice());
        i = i + 1;
    }
}

/// The innermost interface that is open before each line.
pub fn interface_states(lines: &Vec<String>) -> (r: Vec<Option<bool>>)
    ensures
        r@.len() == lines@.len(),
        forall|i: int|
            #![trigger r@[i]]
            0 <= i < r@.len() && i <= usize::MAX ==> r@[i] == sk::line_interface_state(
                lines.deep_view(),
                i as usize,
            ),
{
    let mut states: Vec<Option<bool>> = Vec::new();
    let mut open: Vec<bool> = Vec::new();
    let mut i: usize = 0;
    assert(open@ =~= Seq::empty());
    while i < lines.len()
        invariant
            i <= lines@.len(),
            states@.len() == i,
            open@ == sk::open_interfaces(lines.deep_view(), i as nat),
            forall|k: int|
                #![trigger states@[k]]
                0 <= k < i ==> states@[k] == sk::line_interface_state(
                    lines.deep_view(),
                    k as usize,
                ),
        decreases lines@.len() - i,
    {
        let state: Option<bool> = if open.len() > 0 {
            Some(open[open.len() - 1])
        } else {
            None
        };
        assert(lines.deep_view().len() == lines@.len());
        states.push(state);
        let line = chars(lines[i].as_str());
        line_step(&mut open, line.as_slice());
        i = i + 1;
    }
    states
}

// ---------------------------------------------------------------------------
// Masking
// ---------------------------------------------------------------------------

/// Whether a symbol is the one that opens a scope.
fn owns(s: &Symbol, scope: &[String]) -> (r: bool)
    ensures
        r == sk::owns(s.deep_view(), scope.deep_view()),
{
    let n: usize = scope.len();
    assert(scope.deep_view().len() == scope@.len());
    if n == 0 {
        return false;
    }
    let outer = slice_subrange(scope, 0, n - 1);
    assert(outer.deep_view() =~= scope.deep_view().drop_last());
    assert(scope.deep_view().last() == scope@[n - 1]@);
    same_text(s.name.as_str(), scope[n - 1].as_str()) && same_scope(s.scope.as_slice(), outer)
}

/// Whether a symbol has the name of the scope around it.
fn is_named_like_scope(s: &Symbol) -> (r: bool)
    ensures
        r == sk::is_named_like_scope(s.deep_view()),
{
    let n: usize = s.scope.len();
    assert(s.deep_view().scope.len() == n);
    n > 0 && same_text(s.name.as_str(), s.scope[n - 1].as_str())
}

/// Whether a type-bound procedure is bound to a procedure of its own name.
fn is_bound_to_itself(s: &Symbol) -> (r: bool)
    ensures
        r == sk::is_bound_to_itself(s.deep_view()),
{
    s.kind == SymbolKind::Method && match &s.binding_target {
        Some(target) => same_text(target.as_str(), s.name.as_str()),
        None => true,
    }
}

/// Whether a symbol is a type-bound procedure called `name` that is bound to
/// the procedure `name`.
fn binds_directly(s: &Symbol, name: &str) -> (r: bool)
    ensures
        r == sk::binds_directly(s.deep_view(), name@),
{
    s.kind == SymbolKind::Method && same_text(s.name.as_str(), name) && match &s.binding_target {
        Some(target) => same_text(target.as_str(), name),
        None => same_text(s.name.as_str(), name),
    }
}

/// Whether one of the items of a list starts with `name`.
fn lists_name(items: &Vec<String>, name: &str) -> (r: bool)
    ensures
        r == sk::lists_name(items.deep_view(), name@),
{
    let ghost all = items.deep_view();
    let mut i: usize = 0;
    while i < items.len()
        invariant
            i <= items@.len(),
            all == items.deep_view(),
            forall|k: int| 0 <= k < i ==> !st::first_ident_is(st::trim(#[trigger] all[k]), name@),
        decreases items@.len() - i,
    {
        let item = chars(items[i].as_str());
        assert(item@ == all[i as int]);
        if first_ident_is(trim(item.as_slice()), name) {
            return true;
        }
        i = i + 1;
    }
    false
}

/// Whether a line declares `name` behind colons.
fn declares_name(code: &[char], name: &str) -> (r: bool)
    ensures
        r == sk::declares_name(code@, name@),
{
    match split_once(code, "::") {
        Some((_, rhs)) => lists_name(&split_char(rhs, ','), name),
        None => false,
    }
}

/// Whether variables of a scope of a kind can hide others.
fn can_mask(kind: Option<SymbolKind>) -> (r: bool)
    ensures
        r == sk::can_mask(kind),
{
    match kind {
        Some(kind) => kind == SymbolKind::Subroutine || kind == SymbolKind::Function || kind
            == SymbolKind::Block,
        None => false,
    }
}

/// Whether a `use` statement of a scope around `s` lists its name.
fn use_lists(u: &UseStmt, s: &Symbol) -> (r: bool)
    ensures
        r == sk::use_lists(u.deep_view(), s.deep_view()),
{
    assert(u.deep_view().scope.len() == u.scope@.len());
    assert(s.deep_view().scope.len() == s.scope@.len());
    if u.scope.len() >= s.scope.len() {
        return false;
    }
    let outer = slice_subrange(s.scope.as_slice(), 0, u.scope.len());
    assert(outer.deep_view() =~= s.scope.deep_view().take(u.scope@.len() as int));
    same_scope(u.scope.as_slice(), outer) && has_name(u.only.as_slice(), s.name.as_str())
}

fn masking_diagnostic(s: &Symbol, name: &str) -> (r: Diagnostic)
    ensures
        r.deep_view() == sk::masking_diagnostic(s.deep_view(), name@),
{
    let mut message = owned("Variable \"");
    push_text(&mut message, name);
    push_text(&mut message, "\" masks variable in parent scope");
    Diagnostic { range: s.range, severity: DiagnosticSeverity::Warning, message }
}

/// The symbols of a file and what masking depends on beside them.
struct Masking<'a> {
    parsed: &'a ParsedFile,
    lines: Vec<String>,
    states: Vec<Option<bool>>,
}

impl<'a> Masking<'a> {
    spec fn wf(&self) -> bool {
        &&& self.lines.deep_view() == st::lines(self.parsed.source@)
        &&& self.states@.len() == self.lines@.len()
        &&& forall|i: int|
            #![trigger self.states@[i]]
            0 <= i < self.states@.len() && i <= usize::MAX ==> self.states@[i]
                == sk::line_interface_state(self.lines.deep_view(), i as usize)
    }

    spec fn symbols(&self) -> Seq<sm::Symbol> {
        self.parsed.symbols.deep_view()
    }

    fn new(parsed: &'a ParsedFile) -> (r: Masking<'a>)
        ensures
            r.wf(),
            r.parsed == parsed,
    {
        let lines = source_lines(parsed.source.as_str());
        let states = interface_states(&lines);
        Masking { parsed, lines, states }
    }

    /// The innermost interface that is open before a line.
    fn line_interface_state(&self, line: usize) -> (r: Option<bool>)
        requires
            self.wf(),
        ensures
            r == sk::line_interface_state(self.lines.deep_view(), line),
    {
        assert(self.lines.deep_view().len() == self.lines@.len());
        if line < self.states.len() {
            assert(self.states@[line as int] == sk::line_interface_state(
                self.lines.deep_view(),
                (line as int) as usize,
            ));
            self.states[line]
        } else {
            None
        }
    }

    /// The kind of the symbol that opens a scope.
    fn scope_owner_kind(&self, scope: &Vec<String>) -> (r: Option<SymbolKind>)
        ensures
            r == sk::scope_owner_kind(self.symbols(), scope.deep_view()),
    {
        let names = scope.as_slice();
        assert(names.deep_view() =~= scope.deep_view());
        let mut i: usize = 0;
        while i < self.parsed.symbols.len()
            invariant
                i <= self.parsed.symbols@.len(),
                names.deep_view() == scope.deep_view(),
                sk::scope_owner_kind(self.symbols(), scope.deep_view()) == sk::owner_kind_from(
                    self.symbols(),
                    scope.deep_view(),
                    i as int,
                ),
            decreases self.parsed.symbols@.len() - i,
        {
            let s = &self.parsed.symbols[i];
            assert(self.symbols()[i as int] == s.deep_view());
            if owns(s, names) && s.kind.is_scope() {
                return Some(s.kind);
            }
            i = i + 1;
        }
        None
    }

    /// Whether a scope or one around it is that of an abstract interface.
    fn scope_contains_abstract_interface(&self, scope: &Vec<String>) -> (r: bool)
        ensures
            r == sk::scope_contains_abstract_interface(self.symbols(), scope.deep_view()),
    {
        let ghost symbols = self.symbols();
        let ghost names = scope.deep_view();
        assert(names.len() == scope@.len());
        let mut n: usize = 0;
        assert(!sk::is_abstract_interface(symbols, names.take(0)));
        while n < scope.len()
            invariant
                n <= scope@.len(),
                names == scope.deep_view(),
                names.len() == scope@.len(),
                symbols == self.symbols(),
                forall|k: int|
                    0 <= k <= n ==> !sk::is_abstract_interface(symbols, #[trigger] names.take(k)),
            decreases scope@.len() - n,
        {
            n = n + 1;
            let prefix = slice_subrange(scope.as_slice(), 0, n);
            assert(prefix.deep_view() =~= names.take(n as int));
            let condition = |s: &Symbol| -> (b: bool)
                ensures
                    b == sk::opens_abstract_interface(s.deep_view(), prefix.deep_view()),
                { s.kind == SymbolKind::Interface && s.is_abstract && owns(s, prefix) };
            let found: bool = any_symbol(
                &self.parsed.symbols,
                condition,
                Ghost(|s: sm::Symbol| sk::opens_abstract_interface(s, prefix.deep_view())),
            );
            assert(found == sk::is_abstract_interface(symbols, names.take(n as int)));
            if found {
                return true;
            }
        }
        false
    }

    /// Whether a line lies in a derived type that opens a scope.
    fn inside_type(&self, scope: &Vec<String>, line: usize) -> (r: bool)
        ensures
            r == sk::inside_type(self.symbols(), scope.deep_view(), line),
    {
        let names = scope.as_slice();
        assert(names.deep_view() =~= scope.deep_view());
        let condition = |s: &Symbol| -> (b: bool)
            ensures
                b == sk::is_type_around(s.deep_view(), names.deep_view(), line),
            {
                s.kind == SymbolKind::Type && owns(s, names) && s.range.start.line <= line
                    && line <= s.range.end.line
            };
        any_symbol(
            &self.parsed.symbols,
            condition,
            Ghost(|s: sm::Symbol| sk::is_type_around(s, names.deep_view(), line)),
        )
    }

    /// Whether a symbol is a component or a binding of a derived type.
    fn symbol_parent_is_type(&self, s: &Symbol) -> (r: bool)
        ensures
            r == sk::symbol_parent_is_type(self.symbols(), s.deep_view()),
    {
        self.inside_type(&s.scope, s.range.start.line)
    }

    /// Whether a symbol stands in an abstract interface.
    fn in_abstract_interface(&self, s: &Symbol) -> (r: bool)
        requires
            self.wf(),
        ensures
            r == sk::in_abstract_interface(
                self.symbols(),
                self.lines.deep_view(),
                s.deep_view(),
            ),
    {
        self.scope_contains_abstract_interface(&s.scope) || match self.line_interface_state(
            s.range.start.line,
        ) {
            Some(is_abstract) => is_abstract,
            None => false,
        }
    }

    /// Whether a function that opens the scope around `s` names `s` its
    /// result.
    fn function_names_result(&self, s: &Symbol) -> (r: bool)
        ensures
            r == sk::function_names_result(self.symbols(), s.deep_view().scope, s.name@),
    {
        let names = s.scope.as_slice();
        assert(names.deep_view() =~= s.scope.deep_view());
        let name = s.name.as_str();
        let condition = |f: &Symbol| -> (b: bool)
            ensures
                b == sk::has_result(f.deep_view(), names.deep_view(), name@),
            {
                f.kind == SymbolKind::Function && owns(f, names) && match &f.result {
                    Some(result) => same_text(result.as_str(), name),
                    None => false,
                }
            };
        any_symbol(
            &self.parsed.symbols,
            condition,
            Ghost(|f: sm::Symbol| sk::has_result(f, names.deep_view(), name@)),
        )
    }

    /// Whether a symbol is the result of the function around it.
    fn is_function_result(&self, s: &Symbol) -> (r: bool)
        ensures
            r == sk::is_function_result(self.symbols(), s.deep_view()),
    {
        assert(s.deep_view().scope.len() == s.scope@.len());
        if s.scope.len() == 0 {
            return false;
        }
        let is_function: bool = match self.scope_owner_kind(&s.scope) {
            Some(kind) => kind == SymbolKind::Function,
            None => false,
        };
        is_function && (is_named_like_scope(s) || self.function_names_result(s))
    }

    /// Whether a symbol is a result that has the name of its function.
    fn is_implicit_function_result(&self, s: &Symbol) -> (r: bool)
        ensures
            r == sk::is_implicit_function_result(self.symbols(), s.deep_view()),
    {
        is_named_like_scope(s) && self.is_function_result(s)
    }

    /// Whether a function declares its result in its body.
    fn function_has_explicit_result_declaration(&self, s: &Symbol, result: &str) -> (r: bool)
        ensures
            r == sk::function_has_explicit_result_declaration(
                self.lines.deep_view(),
                s.deep_view(),
                result@,
            ),
    {
        let ghost all = self.lines.deep_view();
        assert(all.len() == self.lines@.len());
        if s.range.start.line >= self.lines.len() {
            return false;
        }
        let mut i: usize = s.range.start.line + 1;
        while i < self.lines.len()
            invariant
                s.range.start.line + 1 <= i <= self.lines@.len(),
                all == self.lines.deep_view(),
                sk::declared_before_end(all, result@, s.range.start.line + 1)
                    == sk::declared_before_end(all, result@, i as int),
            decreases self.lines@.len() - i,
        {
            let line = chars(self.lines[i].as_str());
            assert(line@ == all[i as int]);
            let code = trim(strip_inline_comment(line.as_slice()));
            let low = lower(code);
            if starts_with_word(low.as_slice(), "end function") {
                return false;
            }
            if declares_name(code, result) {
                return true;
            }
            i = i + 1;
        }
        false
    }

    /// Whether a type-bound procedure called `name` is bound to the procedure
    /// `name`.
    fn is_direct_target(&self, name: &str) -> (r: bool)
        ensures
            r == sk::is_direct_target(self.symbols(), name@),
    {
        let condition = |s: &Symbol| -> (b: bool)
            ensures
                b == sk::binds_directly(s.deep_view(), name@),
            { binds_directly(s, name) };
        any_symbol(
            &self.parsed.symbols,
            condition,
            Ghost(|s: sm::Symbol| sk::binds_directly(s, name@)),
        )
    }

    /// Whether a symbol is the result of a function that a type-bound
    /// procedure of the same name is bound to.
    fn is_direct_type_bound_result(&self, s: &Symbol) -> (r: bool)
        ensures
            r == sk::is_direct_type_bound_result(self.symbols(), s.deep_view()),
    {
        let n: usize = s.scope.len();
        assert(s.deep_view().scope.len() == n);
        is_named_like_scope(s) && self.is_direct_target(s.scope[n - 1].as_str())
    }

    /// Whether a symbol belongs to a derived type of the module around `s` and
    /// is called `name`.
    fn is_type_member(&self, s: &Symbol, name: &str, candidate: &Symbol) -> (r: bool)
        ensures
            r == sk::is_type_member(
                self.symbols(),
                s.deep_view(),
                name@,
                candidate.deep_view(),
            ),
    {
        assert(s.deep_view().scope.len() == s.scope@.len());
        assert(candidate.deep_view().scope.len() == candidate.scope@.len());
        s.scope.len() > 0 && same_text(candidate.name.as_str(), name) && candidate.scope.len() >= 2
            && same_text(candidate.scope[0].as_str(), s.scope[0].as_str())
            && self.symbol_parent_is_type(candidate)
    }

    /// Whether `s` hides a variable of a scope around its own.
    fn hides_variable(&self, s: &Symbol) -> (r: bool)
        ensures
            r == sk::hides_variable(self.symbols(), s.deep_view()),
    {
        let ghost symbols = self.symbols();
        let ghost view = s.deep_view();
        assert(view.scope.len() == s.scope@.len());
        let mut n: usize = 0;
        while n < s.scope.len()
            invariant
                n <= s.scope@.len(),
                symbols == self.symbols(),
                view == s.deep_view(),
                view.scope.len() == s.scope@.len(),
                forall|k: int|
                    0 <= k < n ==> !sk::hides_variable_of(
                        symbols,
                        view,
                        #[trigger] view.scope.take(k),
                    ),
            decreases s.scope@.len() - n,
        {
            let outer = slice_subrange(s.scope.as_slice(), 0, n);
            assert(outer.deep_view() =~= view.scope.take(n as int));
            let condition = |c: &Symbol| -> (b: bool)
                ensures
                    b == sk::is_hidden_variable(
                        self.symbols(),
                        s.deep_view(),
                        outer.deep_view(),
                        c.deep_view(),
                    ),
                {
                    c.kind == SymbolKind::Variable && same_text(
                        c.name.as_str(),
                        s.name.as_str(),
                    ) && same_scope(c.scope.as_slice(), outer) && (!self.symbol_parent_is_type(
                        c,
                    ) || self.inside_type(&c.scope, s.range.start.line))
                };
            let found: bool = any_symbol(
                &self.parsed.symbols,
                condition,
                Ghost(
                    |c: sm::Symbol|
                        sk::is_hidden_variable(symbols, view, outer.deep_view(), c),
                ),
            );
            assert(found == sk::hides_variable_of(symbols, view, view.scope.take(n as int)));
            if found {
                return true;
            }
            n = n + 1;
        }
        false
    }

    /// Whether `s` hides a procedure or an interface of its module.
    fn hides_callable(&self, s: &Symbol) -> (r: bool)
        requires
            self.wf(),
        ensures
            r == sk::hides_callable(self.symbols(), self.lines.deep_view(), s.deep_view()),
    {
        assert(s.deep_view().scope.len() == s.scope@.len());
        if s.scope.len() == 0 || self.is_direct_type_bound_result(s)
            || self.is_implicit_function_result(s) || self.scope_contains_abstract_interface(
            &s.scope,
        ) || self.line_interface_state(s.range.start.line).is_some() {
            return false;
        }
        let condition = |c: &Symbol| -> (b: bool)
            ensures
                b == sk::is_module_callable(s.deep_view(), c.deep_view()),
            {
                assert(c.deep_view().scope.len() == c.scope@.len());
                (c.kind.is_procedure() || c.kind == SymbolKind::Interface) && same_text(
                    c.name.as_str(),
                    s.name.as_str(),
                ) && c.scope.len() == 1 && same_text(c.scope[0].as_str(), s.scope[0].as_str())
            };
        any_symbol(
            &self.parsed.symbols,
            condition,
            Ghost(|c: sm::Symbol| sk::is_module_callable(s.deep_view(), c)),
        )
    }

    /// Whether `s` hides a member of a derived type of its module.
    fn hides_member(&self, s: &Symbol) -> (r: bool)
        ensures
            r == sk::hides_member(self.symbols(), s.deep_view()),
    {
        if self.is_direct_type_bound_result(s) {
            return false;
        }
        let implicit: bool = self.is_implicit_function_result(s);
        let condition = |c: &Symbol| -> (b: bool)
            ensures
                b == sk::is_hidden_member(self.symbols(), s.deep_view(), c.deep_view()),
            {
                (is_bound_to_itself(c) || (c.kind == SymbolKind::Variable && implicit))
                    && self.is_type_member(s, s.name.as_str(), c)
            };
        any_symbol(
            &self.parsed.symbols,
            condition,
            Ghost(|c: sm::Symbol| sk::is_hidden_member(self.symbols(), s.deep_view(), c)),
        )
    }

    /// Whether a symbol hides something of a scope around it.
    fn hides_parent(&self, s: &Symbol) -> (r: bool)
        requires
            self.wf(),
        ensures
            r == sk::hides_parent(self.symbols(), self.lines.deep_view(), s.deep_view()),
    {
        assert(s.deep_view().scope.len() == s.scope@.len());
        s.scope.len() > 0 && !(self.is_function_result(s) && self.in_abstract_interface(s)) && (
        self.hides_variable(s) || self.hides_callable(s) || self.hides_member(s))
    }

    /// Whether `s` hides a name that a scope around it takes from a module.
    fn parent_use_only_name(&self, s: &Symbol) -> (r: bool)
        ensures
            r == sk::parent_use_only_name(self.parsed.uses.deep_view(), s.deep_view()),
    {
        let ghost uses = self.parsed.uses.deep_view();
        let mut i: usize = 0;
        while i < self.parsed.uses.len()
            invariant
                i <= self.parsed.uses@.len(),
                uses == self.parsed.uses.deep_view(),
                forall|k: int| 0 <= k < i ==> !sk::use_lists(#[trigger] uses[k], s.deep_view()),
            decreases self.parsed.uses@.len() - i,
        {
            assert(uses[i as int] == self.parsed.uses@[i as int].deep_view());
            if use_lists(&self.parsed.uses[i], s) {
                return true;
            }
            i = i + 1;
        }
        false
    }

    /// Whether another symbol than `i` has its name.
    fn shares_name(&self, i: usize) -> (r: bool)
        requires
            i < self.parsed.symbols@.len(),
        ensures
            r == sk::shares_name(self.symbols(), i as int),
    {
        let ghost all = self.symbols();
        let mut k: usize = 0;
        while k < self.parsed.symbols.len()
            invariant
                k <= self.parsed.symbols@.len(),
                i < self.parsed.symbols@.len(),
                all == self.symbols(),
                forall|j: int|
                    0 <= j < k && j != i ==> !st::same(
                        (#[trigger] all[j]).name,
                        all[i as int].name,
                    ),
            decreases self.parsed.symbols@.len() - k,
        {
            assert(all[k as int] == self.parsed.symbols@[k as int].deep_view());
            assert(all[i as int] == self.parsed.symbols@[i as int].deep_view());
            if k != i && same_text(
                self.parsed.symbols[k].name.as_str(),
                self.parsed.symbols[i].name.as_str(),
            ) {
                return true;
            }
            k = k + 1;
        }
        false
    }

    /// Whether a `use` statement lists a name.
    fn is_listed(&self, name: &str) -> (r: bool)
        ensures
            r == sk::is_listed(self.parsed.uses.deep_view(), name@),
    {
        let ghost uses = self.parsed.uses.deep_view();
        let mut i: usize = 0;
        while i < self.parsed.uses.len()
            invariant
                i <= self.parsed.uses@.len(),
                uses == self.parsed.uses.deep_view(),
                forall|k: int| 0 <= k < i ==> !st::has_name((#[trigger] uses[k]).only, name@),
            decreases self.parsed.uses@.len() - i,
        {
            assert(uses[i as int] == self.parsed.uses@[i as int].deep_view());
            let only = self.parsed.uses[i].only.as_slice();
            assert(only.deep_view() =~= uses[i as int].only);
            if has_name(only, name) {
                return true;
            }
            i = i + 1;
        }
        false
    }

    /// Whether the symbol `i` is a variable that hides something.
    fn is_masking_variable(&self, i: usize) -> (r: bool)
        requires
            self.wf(),
            i < self.parsed.symbols@.len(),
        ensures
            r == sk::is_masking_variable(
                self.parsed.deep_view(),
                self.lines.deep_view(),
                i as int,
            ),
    {
        let s = &self.parsed.symbols[i];
        assert(self.parsed.deep_view().symbols[i as int] == s.deep_view());
        s.kind == SymbolKind::Variable && (self.shares_name(i) || self.is_listed(s.name.as_str()))
            && can_mask(self.scope_owner_kind(&s.scope)) && (self.hides_parent(s)
            || self.parent_use_only_name(s))
    }

    /// Whether a symbol is a function that hides a member of a derived type.
    fn is_masking_function(&self, s: &Symbol) -> (r: bool)
        ensures
            r == sk::is_masking_function(self.symbols(), s.deep_view()),
    {
        if s.kind != SymbolKind::Function {
            return false;
        }
        let condition = |c: &Symbol| -> (b: bool)
            ensures
                b == sk::is_component_or_binding(
                    self.symbols(),
                    s.deep_view(),
                    s.name@,
                    c.deep_view(),
                ),
            {
                (c.kind == SymbolKind::Variable || c.kind == SymbolKind::Method)
                    && self.is_type_member(s, s.name.as_str(), c)
            };
        let found: bool = any_symbol(
            &self.parsed.symbols,
            condition,
            Ghost(
                |c: sm::Symbol|
                    sk::is_component_or_binding(self.symbols(), s.deep_view(), s.name@, c),
            ),
        );
        found && !self.is_direct_target(s.name.as_str())
    }

    /// The result of a function in a plain interface that hides a type-bound
    /// procedure.
    fn masking_result(&self, s: &Symbol) -> (r: Option<String>)
        requires
            self.wf(),
        ensures
            r.deep_view() == sk::masking_result(
                self.symbols(),
                self.lines.deep_view(),
                s.deep_view(),
            ),
    {
        let result = match &s.result {
            Some(result) => result,
            None => {
                return None;
            },
        };
        let plain: bool = match self.line_interface_state(s.range.start.line) {
            Some(is_abstract) => !is_abstract,
            None => false,
        };
        if s.kind != SymbolKind::Function || !plain
            || !self.function_has_explicit_result_declaration(s, result.as_str()) {
            return None;
        }
        let condition = |c: &Symbol| -> (b: bool)
            ensures
                b == sk::is_self_bound_member(
                    self.symbols(),
                    s.deep_view(),
                    result@,
                    c.deep_view(),
                ),
            { is_bound_to_itself(c) && self.is_type_member(s, result.as_str(), c) };
        let found: bool = any_symbol(
            &self.parsed.symbols,
            condition,
            Ghost(
                |c: sm::Symbol|
                    sk::is_self_bound_member(self.symbols(), s.deep_view(), result@, c),
            ),
        );
        if found {
            Some(result.clone())
        } else {
            None
        }
    }
}

/// The remarks about symbols that hide others.
pub fn masking_diagnostics(parsed: &ParsedFile) -> (r: Vec<Diagnostic>)
    ensures
        r.deep_view() == sk::masking_diagnostics(parsed.deep_view()),
{
    let m = Masking::new(parsed);
    let ghost p = parsed.deep_view();
    let ghost lines = m.lines.deep_view();
    let mut out: Vec<Diagnostic> = empty();
    let mut i: usize = 0;
    while i < parsed.symbols.len()
        invariant
            i <= parsed.symbols@.len(),
            m.wf(),
            m.parsed == parsed,
            p == parsed.deep_view(),
            lines == m.lines.deep_view(),
            sk::variable_masks_from(p, lines, 0, Seq::empty()) == sk::variable_masks_from(
                p,
                lines,
                i as int,
                out.deep_view(),
            ),
        decreases parsed.symbols@.len() - i,
    {
        assert(p.symbols[i as int] == parsed.symbols@[i as int].deep_view());
        if m.is_masking_variable(i) {
            let s = &parsed.symbols[i];
            put(&mut out, masking_diagnostic(s, s.name.as_str()));
        }
        i = i + 1;
    }
    let ghost variables = out.deep_view();
    i = 0;
    while i < parsed.symbols.len()
        invariant
            i <= parsed.symbols@.len(),
            m.parsed == parsed,
            p == parsed.deep_view(),
            sk::function_masks_from(p.symbols, 0, variables) == sk::function_masks_from(
                p.symbols,
                i as int,
                out.deep_view(),
            ),
        decreases parsed.symbols@.len() - i,
    {
        let s = &parsed.symbols[i];
        assert(p.symbols[i as int] == s.deep_view());
        if m.is_masking_function(s) {
            put(&mut out, masking_diagnostic(s, s.name.as_str()));
        }
        i = i + 1;
    }
    let ghost functions = out.deep_view();
    i = 0;
    while i < parsed.symbols.len()
        invariant
            i <= parsed.symbols@.len(),
            m.wf(),
            m.parsed == parsed,
            p == parsed.deep_view(),
            lines == m.lines.deep_view(),
            sk::result_masks_from(p.symbols, lines, 0, functions) == sk::result_masks_from(
                p.symbols,
                lines,
                i as int,
                out.deep_view(),
            ),
        decreases parsed.symbols@.len() - i,
    {
        let s = &parsed.symbols[i];
        assert(p.symbols[i as int] == s.deep_view());
        if let Some(result) = m.masking_result(s) {
            put(&mut out, masking_diagnostic(s, result.as_str()));
        }
        i = i + 1;
    }
    out
}

} // verus!
