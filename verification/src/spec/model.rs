//! The model of a source file: symbols, statements, directives and
//! diagnostics.

use vstd::prelude::*;

use crate::model::{
    DiagnosticSeverity, GenericBindingKind, ImportKind, Position, PreprocessorKind,
    PreprocessorRegion, Range, SymbolKind, Visibility,
};
use crate::spec::table::Entries;
use crate::spec::text as st;
use crate::spec::text::Text;

verus! {

/// The names of the scopes around something, outermost first.
pub type Scope = Seq<Text>;

#[verifier::ext_equal]
pub struct Symbol {
    pub name: Text,
    pub kind: SymbolKind,
    pub file: Text,
    pub range: Range,
    pub selection_range: Range,
    pub scope: Scope,
    pub signature: Text,
    pub args: Seq<Text>,
    pub documentation: Option<Text>,
    pub visibility: Visibility,
    pub type_spec: Option<Text>,
    pub attributes: Seq<Text>,
    pub result: Option<Text>,
    pub is_parameter: bool,
    pub is_external: bool,
    pub extends: Option<Text>,
    pub is_abstract: bool,
    pub binding_target: Option<Text>,
    pub pass_arg: Option<Text>,
    pub is_deferred: bool,
    pub is_module_procedure: bool,
    pub ancestor: Option<Text>,
}

#[verifier::ext_equal]
pub struct UseRename {
    pub local: Text,
    pub remote: Text,
}

#[verifier::ext_equal]
pub struct UseStmt {
    pub module: Text,
    pub only: Seq<Text>,
    pub renames: Seq<UseRename>,
    pub intrinsic: bool,
    pub file: Text,
    pub range: Range,
    pub scope: Scope,
}

#[verifier::ext_equal]
pub struct ImportStmt {
    pub kind: ImportKind,
    pub names: Seq<Text>,
    pub file: Text,
    pub range: Range,
    pub scope: Scope,
}

#[verifier::ext_equal]
pub struct GenericBinding {
    pub name: Text,
    pub kind: GenericBindingKind,
    pub procedures: Seq<Text>,
    pub visibility: Visibility,
    pub file: Text,
    pub range: Range,
    pub scope: Scope,
}

#[verifier::ext_equal]
pub struct VisibilityStmt {
    pub visibility: Visibility,
    pub names: Seq<Text>,
    pub file: Text,
    pub range: Range,
    pub scope: Scope,
}

#[verifier::ext_equal]
pub struct IncludeStmt {
    pub path: Text,
    pub file: Text,
    pub range: Range,
    pub scope: Scope,
}

#[verifier::ext_equal]
pub struct ResolvedInclude {
    pub include_stmt: IncludeStmt,
    pub resolved_path: Option<Text>,
}

#[verifier::ext_equal]
pub struct PreprocessorDirective {
    pub kind: PreprocessorKind,
    pub name: Option<Text>,
    pub argument: Option<Text>,
    pub file: Text,
    pub range: Range,
    pub scope: Scope,
}

#[verifier::ext_equal]
pub struct Diagnostic {
    pub range: Range,
    pub severity: DiagnosticSeverity,
    pub message: Text,
}

#[verifier::ext_equal]
pub struct ParsedFile {
    pub path: Text,
    pub source: Text,
    pub symbols: Seq<Symbol>,
    pub uses: Seq<UseStmt>,
    pub imports: Seq<ImportStmt>,
    pub generic_bindings: Seq<GenericBinding>,
    pub includes: Seq<IncludeStmt>,
    pub preprocessor: Seq<PreprocessorDirective>,
    pub preprocessor_regions: Seq<PreprocessorRegion>,
    pub preprocessor_definitions: Entries<Text, Text>,
    pub visibility: Seq<VisibilityStmt>,
    pub diagnostics: Seq<Diagnostic>,
}

/// A file without a path and without anything in it.
pub open spec fn no_file() -> ParsedFile {
    ParsedFile {
        path: Seq::empty(),
        source: Seq::empty(),
        symbols: Seq::empty(),
        uses: Seq::empty(),
        imports: Seq::empty(),
        generic_bindings: Seq::empty(),
        includes: Seq::empty(),
        preprocessor: Seq::empty(),
        preprocessor_regions: Seq::empty(),
        preprocessor_definitions: Seq::empty(),
        visibility: Seq::empty(),
        diagnostics: Seq::empty(),
    }
}

#[verifier::ext_equal]
pub struct TextEdit {
    pub file: Text,
    pub range: Range,
    pub new_text: Text,
}

#[verifier::ext_equal]
pub struct CodeAction {
    pub title: Text,
    pub kind: Text,
    pub edits: Seq<TextEdit>,
}

#[verifier::ext_equal]
pub struct InlayHint {
    pub position: Position,
    pub label: Text,
}

#[verifier::ext_equal]
pub struct SelectionRange {
    pub range: Range,
    pub parent: Option<Box<SelectionRange>>,
}

#[verifier::ext_equal]
pub enum RenameError {
    UnresolvedSymbol,
    InvalidIdentifier,
    ConflictingSymbol { file: Text, range: Range },
}

#[verifier::ext_equal]
pub struct Location {
    pub file: Text,
    pub range: Range,
}

// ---------------------------------------------------------------------------
// Positions
// ---------------------------------------------------------------------------

/// Whether `a` stands before `b` or is `b`.
pub open spec fn not_after(a: Position, b: Position) -> bool {
    a.line < b.line || (a.line == b.line && a.character <= b.character)
}

/// Whether a position lies in a range; both ends belong to it.
pub open spec fn range_contains(r: Range, p: Position) -> bool {
    not_after(r.start, p) && not_after(p, r.end)
}

/// The range between two columns of a line.
pub open spec fn on_line(line: usize, from: usize, to: usize) -> Range {
    Range {
        start: Position { line, character: from },
        end: Position { line, character: to },
    }
}

/// The range of `len` columns from the column `from` on.
pub open spec fn span(line: usize, from: usize, len: nat) -> Range {
    on_line(line, from, st::size((from + len) as nat))
}

// ---------------------------------------------------------------------------
// Kinds
// ---------------------------------------------------------------------------

pub open spec fn kind_label(kind: SymbolKind) -> Text {
    match kind {
        SymbolKind::Module => "module"@,
        SymbolKind::Program => "program"@,
        SymbolKind::Submodule => "submodule"@,
        SymbolKind::Subroutine => "subroutine"@,
        SymbolKind::Function => "function"@,
        SymbolKind::Type => "type"@,
        SymbolKind::Interface => "interface"@,
        SymbolKind::Block => "block"@,
        SymbolKind::Associate => "associate"@,
        SymbolKind::SelectType => "select type"@,
        SymbolKind::Variable => "variable"@,
        SymbolKind::Method => "method"@,
        SymbolKind::Use => "use"@,
    }
}

pub open spec fn visibility_label(visibility: Visibility) -> Text {
    match visibility {
        Visibility::Public => "public"@,
        Visibility::Private => "private"@,
        Visibility::Default => "default"@,
    }
}

/// Whether symbols of a kind open a scope.
pub open spec fn is_scope_kind(kind: SymbolKind) -> bool {
    !(kind is Variable || kind is Method || kind is Use)
}

/// Whether a kind is that of a construct inside a program unit.
pub open spec fn is_construct_kind(kind: SymbolKind) -> bool {
    kind is Block || kind is Associate || kind is SelectType
}

/// Whether a kind is that of a procedure.
pub open spec fn is_procedure_kind(kind: SymbolKind) -> bool {
    kind is Subroutine || kind is Function
}

/// The visibility that names in a scope of a kind have by default.
pub open spec fn default_visibility_for_scope(kind: SymbolKind) -> Visibility {
    if kind is Module {
        Visibility::Public
    } else {
        Visibility::Default
    }
}

// ---------------------------------------------------------------------------
// Symbols
// ---------------------------------------------------------------------------

/// A symbol of which nothing is known but its name, its kind, its place and
/// its signature.
pub open spec fn bare_symbol(
    name: Text,
    kind: SymbolKind,
    file: Text,
    range: Range,
    selection_range: Range,
    scope: Scope,
    signature: Text,
) -> Symbol {
    Symbol {
        name,
        kind,
        file,
        range,
        selection_range,
        scope,
        signature,
        args: Seq::empty(),
        documentation: None,
        visibility: Visibility::Default,
        type_spec: None,
        attributes: Seq::empty(),
        result: None,
        is_parameter: false,
        is_external: false,
        extends: None,
        is_abstract: false,
        binding_target: None,
        pass_arg: None,
        is_deferred: false,
        is_module_procedure: false,
        ancestor: None,
    }
}

/// The name of a symbol behind the names of the scopes around it.
pub open spec fn qualified_name(s: Symbol) -> Text {
    if s.scope.len() == 0 {
        s.name
    } else {
        st::join(s.scope, "::"@) + "::"@ + s.name
    }
}

/// The text that is shown for a symbol: its signature, then its scope, its
/// documentation and its visibility, where there is anything to say.
pub open spec fn hover_markdown(s: Symbol) -> Text {
    let head = "```fortran\n"@ + s.signature + "\n```"@;
    let scoped = if s.scope.len() == 0 {
        head
    } else {
        head + "\n\nscope: `"@ + st::join(s.scope, "::"@) + "`"@
    };
    let documented = match s.documentation {
        Some(docs) => scoped + "\n\n"@ + docs,
        None => scoped,
    };
    if s.visibility is Default {
        documented
    } else {
        documented + "\n\nvisibility: `"@ + visibility_label(s.visibility) + "`"@
    }
}

} // verus!
