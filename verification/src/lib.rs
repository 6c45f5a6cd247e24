//! Fortran language intelligence primitives.

pub mod actions;
pub mod bindings;
pub mod calls;
pub mod checks;
pub mod completion;
pub mod cursor;
pub mod declaration;
pub mod expression;
pub mod intrinsics;
pub mod json;
pub mod laws;
pub mod list;
pub mod lsp;
pub mod masking;
pub mod model;
pub mod modules;
pub mod names;
pub mod order;
pub mod outline;
pub mod parser;
pub mod path;
pub mod preproc;
pub mod protocol;
pub mod query;
pub mod resolve;
pub mod scan;
pub mod scope;
pub mod semantic_token_type;
pub mod server;
pub mod source;
pub mod spec;
pub mod statement;
pub mod table;
pub mod text;
pub mod tokens;
pub mod workspace;

pub use intrinsics::{IntrinsicCompletion, IntrinsicKind, IntrinsicSymbol};
pub use lsp::{CompletionItem, SignatureHelp};
pub use model::{
    CodeAction, Diagnostic, DiagnosticSeverity, GenericBinding, GenericBindingKind, ImportKind,
    ImportStmt, IncludeStmt, InlayHint, Location, ParsedFile, Position, PreprocessorDirective,
    PreprocessorKind, PreprocessorRegion, Range, RenameError, ResolvedInclude, SelectionRange,
    SemanticToken, Symbol, SymbolKind, TextEdit, UseRename, UseStmt, Visibility, VisibilityStmt,
};
pub use outline::DocumentSymbol;
pub use server::{Outcome, Outside, Server};
pub use source::SourceFile;
pub use workspace::Workspace;
