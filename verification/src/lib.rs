//! Grammar-agnostic extraction of structural and semantic facts from
//! source files, a call-graph index with bounded chain discovery over
//! those facts, and a capacity-bounded cache that makes repeated
//! extraction cheap. Parsing is delegated to tree-sitter grammars behind
//! a small trusted boundary; everything else is specified and verified.

pub mod analyze;
pub mod lang;
pub mod text;

pub use analyze::analyze;
pub use analyze::AnalyzeOutput;
pub use analyze::CodeAnalyzer;
pub use analyze::FileInput;
