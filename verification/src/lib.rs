//! A unifying access layer over incremental parsing engines.
//!
//! The facade exposes one parsing API — positions, spans, edits, trees,
//! nodes, cursors, queries, and a parser configuration state machine —
//! whose observable behaviour does not depend on which engine backs it.

pub mod error;
pub mod input_edit;
pub mod language;
pub mod logger;
pub mod node;
pub mod parser;
pub mod point;
pub mod query;
pub mod range;
pub mod tasks;
pub mod text;
pub mod tree;
pub mod tree_cursor;

pub use error::Error;
pub use input_edit::InputEdit;
pub use language::Language;
pub use logger::{LogEntry, LogKind, Logger};
pub use node::Node;
pub use parser::{ParseOutcome, Parser};
pub use point::Point;
pub use query::{Query, QueryMatch};
pub use range::Range;
pub use tasks::Task;
pub use tree::Tree;
pub use tree_cursor::TreeCursor;
