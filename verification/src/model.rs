//! The model of a source file: symbols, statements, directives and
//! diagnostics.

use vstd::prelude::*;

use crate::list::empty;
use crate::spec::model as sm;
use crate::table::Table;
use crate::text::{copy_option, copy_texts, join, owned, push_text};

verus! {

/// A place in a source file: a line and a column, both counted from 0.
#[derive(Debug, Clone, Copy, PartialEq, Eq, Structural)]
pub struct Position {
    pub line: usize,
    pub character: usize,
}

impl Position {
    pub fn new(line: usize, character: usize) -> (r: Self)
        ensures
            r == (Position { line, character }),
    {
        Position { line, character }
    }
}

/// A stretch of a source file; both ends belong to it.
#[derive(Debug, Clone, Copy, PartialEq, Eq, Structural)]
pub struct Range {
    pub start: Position,
    pub end: Position,
}

impl Range {
    /// Whether `pos` lies in the range.
    pub fn contains(&self, pos: Position) -> (r: bool)
        ensures
            r == sm::range_contains(*self, pos),
    {
        (self.start.line < pos.line || (self.start.line == pos.line && self.start.character
            <= pos.character)) && (pos.line < self.end.line || (pos.line == self.end.line
            && pos.character <= self.end.character))
    }

    /// The range between two columns of a line.
    pub fn on_line(line: usize, from: usize, to: usize) -> (r: Range)
        ensures
            r == sm::on_line(line, from, to),
    {
        Range { start: Position::new(line, from), end: Position::new(line, to) }
    }
}

/// What a symbol stands for.
#[derive(Debug, Clone, Copy, PartialEq, Eq, Structural)]
pub enum SymbolKind {
    Module,
    Program,
    Submodule,
    Subroutine,
    Function,
    Type,
    Interface,
    Block,
    Associate,
    SelectType,
    Variable,
    Method,
    Use,
}

impl SymbolKind {
    /// The word for the kind.
    pub fn label(self) -> (r: &'static str)
        ensures
            r@ == sm::kind_label(self),
    {
        match self {
            SymbolKind::Module => "module",
            SymbolKind::Program => "program",
            SymbolKind::Submodule => "submodule",
            SymbolKind::Subroutine => "subroutine",
            SymbolKind::Function => "function",
            SymbolKind::Type => "type",
            SymbolKind::Interface => "interface",
            SymbolKind::Block => "block",
            SymbolKind::Associate => "associate",
            SymbolKind::SelectType => "select type",
            SymbolKind::Variable => "variable",
            SymbolKind::Method => "method",
            SymbolKind::Use => "use",
        }
    }

    /// Whether symbols of the kind open a scope.
    pub fn is_scope(self) -> (r: bool)
        ensures
            r == sm::is_scope_kind(self),
    {
        !(self == SymbolKind::Variable || self == SymbolKind::Method || self == SymbolKind::Use)
    }

    /// Whether the kind is that of a construct inside a program unit.
    pub fn is_construct(self) -> (r: bool)
        ensures
            r == sm::is_construct_kind(self),
    {
        self == SymbolKind::Block || self == SymbolKind::Associate || self == SymbolKind::SelectType
    }

    /// Whether the kind is that of a procedure.
    pub fn is_procedure(self) -> (r: bool)
        ensures
            r == sm::is_procedure_kind(self),
    {
        self == SymbolKind::Subroutine || self == SymbolKind::Function
    }

    /// The visibility that names in a scope of the kind have by default.
    pub fn default_visibility(self) -> (r: Visibility)
        ensures
            r == sm::default_visibility_for_scope(self),
    {
        if self == SymbolKind::Module {
            Visibility::Public
        } else {
            Visibility::Default
        }
    }
}

/// Who can see a name of a module or a derived type.
#[derive(Debug, Clone, Copy, PartialEq, Eq, Structural)]
pub enum Visibility {
    Public,
    Private,
    Default,
}

impl Visibility {
    /// The word for the visibility.
    pub fn label(self) -> (r: &'static str)
        ensures
            r@ == sm::visibility_label(self),
    {
        match self {
            Visibility::Public => "public",
            Visibility::Private => "private",
            Visibility::Default => "default",
        }
    }
}

/// What an `import` statement takes from the host.
#[derive(Debug, Clone, Copy, PartialEq, Eq, Structural)]
pub enum ImportKind {
    All,
    Nothing,
    Only,
}

/// What a generic binding binds.
#[derive(Debug, Clone, Copy, PartialEq, Eq, Structural)]
pub enum GenericBindingKind {
    Named,
    Operator,
    Assignment,
}

/// What a preprocessor directive does.
#[derive(Debug, Clone, Copy, PartialEq, Eq, Structural)]
pub enum PreprocessorKind {
    If,
    Ifdef,
    Ifndef,
    Elif,
    Else,
    Endif,
    Define,
    Undef,
    Include,
}

/// A branch of a preprocessor conditional.
#[derive(Debug, Clone, Copy, PartialEq, Eq, Structural)]
pub struct PreprocessorRegion {
    pub start: Position,
    pub end: Position,
}

/// How much a diagnostic matters.
#[derive(Debug, Clone, Copy, PartialEq, Eq, Structural)]
pub enum DiagnosticSeverity {
    Error,
    Warning,
    Information,
}

impl DeepView for Position {
    type V = Position;

    #[verifier::inline]
    open spec fn deep_view(&self) -> Position {
        *self
    }
}

impl DeepView for Range {
    type V = Range;

    #[verifier::inline]
    open spec fn deep_view(&self) -> Range {
        *self
    }
}

impl DeepView for SymbolKind {
    type V = SymbolKind;

    #[verifier::inline]
    open spec fn deep_view(&self) -> SymbolKind {
        *self
    }
}

impl DeepView for Visibility {
    type V = Visibility;

    #[verifier::inline]
    open spec fn deep_view(&self) -> Visibility {
        *self
    }
}

impl DeepView for ImportKind {
    type V = ImportKind;

    #[verifier::inline]
    open spec fn deep_view(&self) -> ImportKind {
        *self
    }
}

impl DeepView for GenericBindingKind {
    type V = GenericBindingKind;

    #[verifier::inline]
    open spec fn deep_view(&self) -> GenericBindingKind {
        *self
    }
}

impl DeepView for PreprocessorKind {
    type V = PreprocessorKind;

    #[verifier::inline]
    open spec fn deep_view(&self) -> PreprocessorKind {
        *self
    }
}

impl DeepView for PreprocessorRegion {
    type V = PreprocessorRegion;

    #[verifier::inline]
    open spec fn deep_view(&self) -> PreprocessorRegion {
        *self
    }
}

impl DeepView for DiagnosticSeverity {
    type V = DiagnosticSeverity;

    #[verifier::inline]
    open spec fn deep_view(&self) -> DiagnosticSeverity {
        *self
    }
}

/// A named thing of a source file.
#[derive(Debug, PartialEq, Eq)]
pub struct Symbol {
    pub name: String,
    pub kind: SymbolKind,
    pub file: String,
    pub range: Range,
    pub selection_range: Range,
    pub scope: Vec<String>,
    pub signature: String,
    pub args: Vec<String>,
    pub documentation: Option<String>,
    pub visibility: Visibility,
    pub type_spec: Option<String>,
    pub attributes: Vec<String>,
    pub result: Option<String>,
    pub is_parameter: bool,
    pub is_external: bool,
    pub extends: Option<String>,
    pub is_abstract: bool,
    pub binding_target: Option<String>,
    pub pass_arg: Option<String>,
    pub is_deferred: bool,
    pub is_module_procedure: bool,
    pub ancestor: Option<String>,
}

impl DeepView for Symbol {
    type V = sm::Symbol;

    open spec fn deep_view(&self) -> sm::Symbol {
        sm::Symbol {
            name: self.name@,
            kind: self.kind,
            file: self.file@,
            range: self.range,
            selection_range: self.selection_range,
            scope: self.scope.deep_view(),
            signature: self.signature@,
            args: self.args.deep_view(),
            documentation: self.documentation.deep_view(),
            visibility: self.visibility,
            type_spec: self.type_spec.deep_view(),
            attributes: self.attributes.deep_view(),
            result: self.result.deep_view(),
            is_parameter: self.is_parameter,
            is_external: self.is_external,
            extends: self.extends.deep_view(),
            is_abstract: self.is_abstract,
            binding_target: self.binding_target.deep_view(),
            pass_arg: self.pass_arg.deep_view(),
            is_deferred: self.is_deferred,
            is_module_procedure: self.is_module_procedure,
            ancestor: self.ancestor.deep_view(),
        }
    }
}

impl Clone for Symbol {
    fn clone(&self) -> (r: Self)
        ensures
            r.deep_view() == self.deep_view(),
    {
        Symbol {
            name: self.name.clone(),
            kind: self.kind,
            file: self.file.clone(),
            range: self.range,
            selection_range: self.selection_range,
            scope: copy_texts(&self.scope),
            signature: self.signature.clone(),
            args: copy_texts(&self.args),
            documentation: copy_option(&self.documentation),
            visibility: self.visibility,
            type_spec: copy_option(&self.type_spec),
            attributes: copy_texts(&self.attributes),
            result: copy_option(&self.result),
            is_parameter: self.is_parameter,
            is_external: self.is_external,
            extends: copy_option(&self.extends),
            is_abstract: self.is_abstract,
            binding_target: copy_option(&self.binding_target),
            pass_arg: copy_option(&self.pass_arg),
            is_deferred: self.is_deferred,
            is_module_procedure: self.is_module_procedure,
            ancestor: copy_option(&self.ancestor),
        }
    }
}

/// A name that a `use` statement gives to a name of the module.
#[derive(Debug, PartialEq, Eq)]
pub struct UseRename {
    pub local: String,
    pub remote: String,
}

impl DeepView for UseRename {
    type V = sm::UseRename;

    open spec fn deep_view(&self) -> sm::UseRename {
        sm::UseRename {
            local: self.local@,
            remote: self.remote@,
        }
    }
}

impl Clone for UseRename {
    fn clone(&self) -> (r: Self)
        ensures
            r.deep_view() == self.deep_view(),
    {
        UseRename {
            local: self.local.clone(),
            remote: self.remote.clone(),
        }
    }
}

/// A `use` statement.
#[derive(Debug, PartialEq, Eq)]
pub struct UseStmt {
    pub module: String,
    pub only: Vec<String>,
    pub renames: Vec<UseRename>,
    pub intrinsic: bool,
    pub file: String,
    pub range: Range,
    pub scope: Vec<String>,
}

impl DeepView for UseStmt {
    type V = sm::UseStmt;

    open spec fn deep_view(&self) -> sm::UseStmt {
        sm::UseStmt {
            module: self.module@,
            only: self.only.deep_view(),
            renames: self.renames.deep_view(),
            intrinsic: self.intrinsic,
            file: self.file@,
            range: self.range,
            scope: self.scope.deep_view(),
        }
    }
}

impl Clone for UseStmt {
    fn clone(&self) -> (r: Self)
        ensures
            r.deep_view() == self.deep_view(),
    {
        let r = UseStmt {
            module: self.module.clone(),
            only: copy_texts(&self.only),
            renames: self.renames.clone(),
            intrinsic: self.intrinsic,
            file: self.file.clone(),
            range: self.range,
            scope: copy_texts(&self.scope),
        };
        assert(r.renames.deep_view() =~= self.renames.deep_view());
        r
    }
}

/// An `import` statement of an interface body.
#[derive(Debug, PartialEq, Eq)]
pub struct ImportStmt {
    pub kind: ImportKind,
    pub names: Vec<String>,
    pub file: String,
    pub range: Range,
    pub scope: Vec<String>,
}

impl DeepView for ImportStmt {
    type V = sm::ImportStmt;

    open spec fn deep_view(&self) -> sm::ImportStmt {
        sm::ImportStmt {
            kind: self.kind,
            names: self.names.deep_view(),
            file: self.file@,
            range: self.range,
            scope: self.scope.deep_view(),
        }
    }
}

impl Clone for ImportStmt {
    fn clone(&self) -> (r: Self)
        ensures
            r.deep_view() == self.deep_view(),
    {
        ImportStmt {
            kind: self.kind,
            names: copy_texts(&self.names),
            file: self.file.clone(),
            range: self.range,
            scope: copy_texts(&self.scope),
        }
    }
}

/// A `generic` statement of a derived type.
#[derive(Debug, PartialEq, Eq)]
pub struct GenericBinding {
    pub name: String,
    pub kind: GenericBindingKind,
    pub procedures: Vec<String>,
    pub visibility: Visibility,
    pub file: String,
    pub range: Range,
    pub scope: Vec<String>,
}

impl DeepView for GenericBinding {
    type V = sm::GenericBinding;

    open spec fn deep_view(&self) -> sm::GenericBinding {
        sm::GenericBinding {
            name: self.name@,
            kind: self.kind,
            procedures: self.procedures.deep_view(),
            visibility: self.visibility,
            file: self.file@,
            range: self.range,
            scope: self.scope.deep_view(),
        }
    }
}

impl Clone for GenericBinding {
    fn clone(&self) -> (r: Self)
        ensures
            r.deep_view() == self.deep_view(),
    {
        GenericBinding {
            name: self.name.clone(),
            kind: self.kind,
            procedures: copy_texts(&self.procedures),
            visibility: self.visibility,
            file: self.file.clone(),
            range: self.range,
            scope: copy_texts(&self.scope),
        }
    }
}

/// A `public` or `private` statement.
#[derive(Debug, PartialEq, Eq)]
pub struct VisibilityStmt {
    pub visibility: Visibility,
    pub names: Vec<String>,
    pub file: String,
    pub range: Range,
    pub scope: Vec<String>,
}

impl DeepView for VisibilityStmt {
    type V = sm::VisibilityStmt;

    open spec fn deep_view(&self) -> sm::VisibilityStmt {
        sm::VisibilityStmt {
            visibility: self.visibility,
            names: self.names.deep_view(),
            file: self.file@,
            range: self.range,
            scope: self.scope.deep_view(),
        }
    }
}

impl Clone for VisibilityStmt {
    fn clone(&self) -> (r: Self)
        ensures
            r.deep_view() == self.deep_view(),
    {
        VisibilityStmt {
            visibility: self.visibility,
            names: copy_texts(&self.names),
            file: self.file.clone(),
            range: self.range,
            scope: copy_texts(&self.scope),
        }
    }
}

/// A statement or directive that takes in another file.
#[derive(Debug, PartialEq, Eq)]
pub struct IncludeStmt {
    pub path: String,
    pub file: String,
    pub range: Range,
    pub scope: Vec<String>,
}

impl DeepView for IncludeStmt {
    type V = sm::IncludeStmt;

    open spec fn deep_view(&self) -> sm::IncludeStmt {
        sm::IncludeStmt {
            path: self.path@,
            file: self.file@,
            range: self.range,
            scope: self.scope.deep_view(),
        }
    }
}

impl Clone for IncludeStmt {
    fn clone(&self) -> (r: Self)
        ensures
            r.deep_view() == self.deep_view(),
    {
        IncludeStmt {
            path: self.path.clone(),
            file: self.file.clone(),
            range: self.range,
            scope: copy_texts(&self.scope),
        }
    }
}

/// Where the file of an [`IncludeStmt`] was found.
#[derive(Debug, PartialEq, Eq)]
pub struct ResolvedInclude {
    pub include_stmt: IncludeStmt,
    pub resolved_path: Option<String>,
}

impl DeepView for ResolvedInclude {
    type V = sm::ResolvedInclude;

    open spec fn deep_view(&self) -> sm::ResolvedInclude {
        sm::ResolvedInclude {
            include_stmt: self.include_stmt.deep_view(),
            resolved_path: self.resolved_path.deep_view(),
        }
    }
}

impl Clone for ResolvedInclude {
    fn clone(&self) -> (r: Self)
        ensures
            r.deep_view() == self.deep_view(),
    {
        ResolvedInclude {
            include_stmt: self.include_stmt.clone(),
            resolved_path: copy_option(&self.resolved_path),
        }
    }
}

/// A line for the preprocessor.
#[derive(Debug, PartialEq, Eq)]
pub struct PreprocessorDirective {
    pub kind: PreprocessorKind,
    pub name: Option<String>,
    pub argument: Option<String>,
    pub file: String,
    pub range: Range,
    pub scope: Vec<String>,
}

impl DeepView for PreprocessorDirective {
    type V = sm::PreprocessorDirective;

    open spec fn deep_view(&self) -> sm::PreprocessorDirective {
        sm::PreprocessorDirective {
            kind: self.kind,
            name: self.name.deep_view(),
            argument: self.argument.deep_view(),
            file: self.file@,
            range: self.range,
            scope: self.scope.deep_view(),
        }
    }
}

impl Clone for PreprocessorDirective {
    fn clone(&self) -> (r: Self)
        ensures
            r.deep_view() == self.deep_view(),
    {
        PreprocessorDirective {
            kind: self.kind,
            name: copy_option(&self.name),
            argument: copy_option(&self.argument),
            file: self.file.clone(),
            range: self.range,
            scope: copy_texts(&self.scope),
        }
    }
}

/// A remark about a stretch of source.
#[derive(Debug, PartialEq, Eq)]
pub struct Diagnostic {
    pub range: Range,
    pub severity: DiagnosticSeverity,
    pub message: String,
}

impl DeepView for Diagnostic {
    type V = sm::Diagnostic;

    open spec fn deep_view(&self) -> sm::Diagnostic {
        sm::Diagnostic {
            range: self.range,
            severity: self.severity,
            message: self.message@,
        }
    }
}

impl Clone for Diagnostic {
    fn clone(&self) -> (r: Self)
        ensures
            r.deep_view() == self.deep_view(),
    {
        Diagnostic {
            range: self.range,
            severity: self.severity,
            message: self.message.clone(),
        }
    }
}

/// A source file and what was read out of it.
#[derive(Debug, PartialEq, Eq)]
pub struct ParsedFile {
    pub path: String,
    pub source: String,
    pub symbols: Vec<Symbol>,
    pub uses: Vec<UseStmt>,
    pub imports: Vec<ImportStmt>,
    pub generic_bindings: Vec<GenericBinding>,
    pub includes: Vec<IncludeStmt>,
    pub preprocessor: Vec<PreprocessorDirective>,
    pub preprocessor_regions: Vec<PreprocessorRegion>,
    pub preprocessor_definitions: Table<String, String>,
    pub visibility: Vec<VisibilityStmt>,
    pub diagnostics: Vec<Diagnostic>,
}

impl DeepView for ParsedFile {
    type V = sm::ParsedFile;

    open spec fn deep_view(&self) -> sm::ParsedFile {
        sm::ParsedFile {
            path: self.path@,
            source: self.source@,
            symbols: self.symbols.deep_view(),
            uses: self.uses.deep_view(),
            imports: self.imports.deep_view(),
            generic_bindings: self.generic_bindings.deep_view(),
            includes: self.includes.deep_view(),
            preprocessor: self.preprocessor.deep_view(),
            preprocessor_regions: self.preprocessor_regions.deep_view(),
            preprocessor_definitions: self.preprocessor_definitions.deep_view(),
            visibility: self.visibility.deep_view(),
            diagnostics: self.diagnostics.deep_view(),
        }
    }
}

impl Default for ParsedFile {
    /// A file without a path and without anything in it.
    fn default() -> (r: Self)
        ensures
            r.deep_view() == sm::no_file(),
    {
        let r = ParsedFile {
            path: String::new(),
            source: String::new(),
            symbols: empty(),
            uses: empty(),
            imports: empty(),
            generic_bindings: empty(),
            includes: empty(),
            preprocessor: empty(),
            preprocessor_regions: empty(),
            preprocessor_definitions: Table::new(),
            visibility: empty(),
            diagnostics: empty(),
        };
        assert(r.deep_view() =~= sm::no_file());
        r
    }
}

impl Clone for ParsedFile {
    fn clone(&self) -> (r: Self)
        ensures
            r.deep_view() == self.deep_view(),
    {
        let r = ParsedFile {
            path: self.path.clone(),
            source: self.source.clone(),
            symbols: self.symbols.clone(),
            uses: self.uses.clone(),
            imports: self.imports.clone(),
            generic_bindings: self.generic_bindings.clone(),
            includes: self.includes.clone(),
            preprocessor: self.preprocessor.clone(),
            preprocessor_regions: self.preprocessor_regions.clone(),
            preprocessor_definitions: self.preprocessor_definitions.clone(),
            visibility: self.visibility.clone(),
            diagnostics: self.diagnostics.clone(),
        };
        assert(r.symbols.deep_view() =~= self.symbols.deep_view());
        assert(r.uses.deep_view() =~= self.uses.deep_view());
        assert(r.imports.deep_view() =~= self.imports.deep_view());
        assert(r.generic_bindings.deep_view() =~= self.generic_bindings.deep_view());
        assert(r.includes.deep_view() =~= self.includes.deep_view());
        assert(r.preprocessor.deep_view() =~= self.preprocessor.deep_view());
        assert(r.preprocessor_regions.deep_view() =~= self.preprocessor_regions.deep_view());
        assert(r.visibility.deep_view() =~= self.visibility.deep_view());
        assert(r.diagnostics.deep_view() =~= self.diagnostics.deep_view());
        r
    }
}

impl Symbol {
    /// A symbol of which nothing is known but its name, its kind, its place
    /// and its signature.
    pub fn bare(
        name: String,
        kind: SymbolKind,
        file: &str,
        range: Range,
        selection_range: Range,
        scope: &Vec<String>,
        signature: String,
    ) -> (r: Symbol)
        ensures
            r.deep_view() == sm::bare_symbol(
                name@,
                kind,
                file@,
                range,
                selection_range,
                scope.deep_view(),
                signature@,
            ),
    {
        Symbol {
            name,
            kind,
            file: owned(file),
            range,
            selection_range,
            scope: copy_texts(scope),
            signature,
            args: empty(),
            documentation: None,
            visibility: Visibility::Default,
            type_spec: None,
            attributes: empty(),
            result: None,
            is_parameter: false,
            is_external: false,
            extends: None,
            is_abstract: false,
            binding_target: None,
            pass_arg: None,
            is_deferred: false,
            is_module_procedure: false,
            ancestor: None,
        }
    }

    /// The name of the symbol behind the names of the scopes around it.
    pub fn qualified_name(&self) -> (r: String)
        ensures
            r@ == sm::qualified_name(self.deep_view()),
    {
        if self.scope.len() == 0 {
            return self.name.clone();
        }
        let mut out = join(self.scope.as_slice(), "::");
        push_text(&mut out, "::");
        push_text(&mut out, self.name.as_str());
        out
    }

    /// The text that is shown for the symbol.
    pub fn hover_markdown(&self) -> (r: String)
        ensures
            r@ == sm::hover_markdown(self.deep_view()),
    {
        let mut out = owned("```fortran\n");
        push_text(&mut out, self.signature.as_str());
        push_text(&mut out, "\n```");
        if self.scope.len() > 0 {
            push_text(&mut out, "\n\nscope: `");
            push_text(&mut out, join(self.scope.as_slice(), "::").as_str());
            push_text(&mut out, "`");
        }
        if let Some(docs) = &self.documentation {
            push_text(&mut out, "\n\n");
            push_text(&mut out, docs.as_str());
        }
        if self.visibility != Visibility::Default {
            push_text(&mut out, "\n\nvisibility: `");
            push_text(&mut out, self.visibility.label());
            push_text(&mut out, "`");
        }
        out
    }
}

/// A change of a stretch of a file.
#[derive(Debug, PartialEq, Eq)]
pub struct TextEdit {
    pub file: String,
    pub range: Range,
    pub new_text: String,
}

impl DeepView for TextEdit {
    type V = sm::TextEdit;

    open spec fn deep_view(&self) -> sm::TextEdit {
        sm::TextEdit { file: self.file@, range: self.range, new_text: self.new_text@ }
    }
}

impl Clone for TextEdit {
    fn clone(&self) -> (r: Self)
        ensures
            r.deep_view() == self.deep_view(),
    {
        TextEdit {
            file: self.file.clone(),
            range: self.range,
            new_text: self.new_text.clone(),
        }
    }
}

/// An action that an editor can offer.
#[derive(Debug, PartialEq, Eq)]
pub struct CodeAction {
    pub title: String,
    pub kind: String,
    pub edits: Vec<TextEdit>,
}

impl DeepView for CodeAction {
    type V = sm::CodeAction;

    open spec fn deep_view(&self) -> sm::CodeAction {
        sm::CodeAction {
            title: self.title@,
            kind: self.kind@,
            edits: self.edits.deep_view(),
        }
    }
}

impl Clone for CodeAction {
    fn clone(&self) -> (r: Self)
        ensures
            r.deep_view() == self.deep_view(),
    {
        let r = CodeAction {
            title: self.title.clone(),
            kind: self.kind.clone(),
            edits: self.edits.clone(),
        };
        assert(r.edits.deep_view() =~= self.edits.deep_view());
        r
    }
}

/// A stretch of source and the class of what stands there.
#[derive(Debug, Clone, Copy, PartialEq, Eq, Structural)]
pub struct SemanticToken {
    pub range: Range,
    pub token_type: u32,
}

impl DeepView for SemanticToken {
    type V = SemanticToken;

    #[verifier::inline]
    open spec fn deep_view(&self) -> SemanticToken {
        *self
    }
}

/// A remark that an editor shows inside a line.
#[derive(Debug, PartialEq, Eq)]
pub struct InlayHint {
    pub position: Position,
    pub label: String,
}

impl DeepView for InlayHint {
    type V = sm::InlayHint;

    open spec fn deep_view(&self) -> sm::InlayHint {
        sm::InlayHint { position: self.position, label: self.label@ }
    }
}

impl Clone for InlayHint {
    fn clone(&self) -> (r: Self)
        ensures
            r.deep_view() == self.deep_view(),
    {
        InlayHint { position: self.position, label: self.label.clone() }
    }
}

/// A stretch that can be selected, and the next larger one.
#[derive(Debug, PartialEq, Eq)]
pub struct SelectionRange {
    pub range: Range,
    pub parent: Option<Box<SelectionRange>>,
}

impl SelectionRange {
    /// The model of a stretch.
    pub open spec fn model(self) -> sm::SelectionRange
        decreases self,
    {
        sm::SelectionRange {
            range: self.range,
            parent: match self.parent {
                Some(parent) => Some(Box::new(parent.model())),
                None => None,
            },
        }
    }
}

impl Clone for SelectionRange {
    fn clone(&self) -> (r: Self)
        ensures
            r.model() == self.model(),
        decreases self,
    {
        SelectionRange {
            range: self.range,
            parent: match &self.parent {
                Some(parent) => Some(Box::new((&**parent).clone())),
                None => None,
            },
        }
    }
}

/// Why a symbol cannot be renamed.
#[derive(Debug, PartialEq, Eq)]
pub enum RenameError {
    UnresolvedSymbol,
    InvalidIdentifier,
    ConflictingSymbol { file: String, range: Range },
}

impl DeepView for RenameError {
    type V = sm::RenameError;

    open spec fn deep_view(&self) -> sm::RenameError {
        match self {
            RenameError::UnresolvedSymbol => sm::RenameError::UnresolvedSymbol,
            RenameError::InvalidIdentifier => sm::RenameError::InvalidIdentifier,
            RenameError::ConflictingSymbol { file, range } => sm::RenameError::ConflictingSymbol {
                file: file@,
                range: *range,
            },
        }
    }
}

impl Clone for RenameError {
    fn clone(&self) -> (r: Self)
        ensures
            r.deep_view() == self.deep_view(),
    {
        match self {
            RenameError::UnresolvedSymbol => RenameError::UnresolvedSymbol,
            RenameError::InvalidIdentifier => RenameError::InvalidIdentifier,
            RenameError::ConflictingSymbol { file, range } => RenameError::ConflictingSymbol {
                file: file.clone(),
                range: *range,
            },
        }
    }
}

/// A stretch of a file.
#[derive(Debug, PartialEq, Eq)]
pub struct Location {
    pub file: String,
    pub range: Range,
}

impl DeepView for Location {
    type V = sm::Location;

    open spec fn deep_view(&self) -> sm::Location {
        sm::Location { file: self.file@, range: self.range }
    }
}

impl Clone for Location {
    fn clone(&self) -> (r: Self)
        ensures
            r.deep_view() == self.deep_view(),
    {
        Location { file: self.file.clone(), range: self.range }
    }
}

} // verus!
