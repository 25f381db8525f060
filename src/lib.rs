//! Translation of single-node graph patterns into relational statements.
//!
//! Pattern text is tokenized (`lexer`), parsed into a node pattern
//! (`pattern`), its literals coerced into typed values (`value`), the
//! pattern turned into a select or insert plan (`translate`), and the plan
//! handed to sqlparser's statement model (`sql`). `convert` holds the entry
//! points from text to statement, `laws` what holds across them.

pub mod error;
pub mod lexer;
mod text;
pub mod value;
pub mod pattern;
pub mod translate;
pub mod sql;
pub mod convert;
pub mod laws;
