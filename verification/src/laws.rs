//! What holds of the library as a whole.

pub mod conditionals;
pub mod cursor;
pub mod declarations;
pub mod documents;
pub mod exports;
pub mod expressions;
pub mod findings;
pub mod forms;
pub mod help;
pub mod intrinsics;
pub mod lines;
pub mod lsp;
pub mod macros;
pub mod nesting;
pub mod offers;
pub mod outline;
pub mod parsing;
pub mod path;
pub mod places;
pub mod preprocessor;
pub mod problems;
pub mod protocol;
pub mod queries;
pub mod remarks;
pub mod reports;
pub mod requests;
pub mod resolution;
pub mod scanning;
pub mod scopes;
pub mod server;
pub mod sources;
pub mod statements;
pub mod storage;
pub mod text;
pub mod units;
pub mod workspace;
