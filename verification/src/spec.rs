//! What the functions of the library compute, as mathematics.

pub mod actions;
pub mod bindings;
pub mod calls;
pub mod checks;
pub mod completion;
pub mod cursor;
pub mod declaration;
pub mod expression;
pub mod intrinsics;
pub mod json;
pub mod lsp;
pub mod masking;
pub mod model;
pub mod modules;
pub mod names;
pub mod order;
pub mod outline;
pub mod parser;
pub mod path;
pub mod preproc;
pub mod protocol;
pub mod query;
pub mod resolve;
pub mod scan;
pub mod scope;
pub mod server;
pub mod source;
pub mod statement;
pub mod table;
pub mod text;
pub mod tokens;
pub mod workspace;
