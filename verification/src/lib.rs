//! Building blocks for shell-like command line interfaces.
//!
//! The crate offers three pieces that build on one another: an
//! escape-aware tokenizer that turns a raw command line into argument
//! words ([`split`]), a completion resolver that suggests the next
//! word against a declared command tree ([`completion::complete`]),
//! and an interactive line-editing state machine ([`prompt::Prompt`])
//! that consumes decoded key events one at a time. Terminal I/O is
//! left to the embedding application: the editor reports what to draw
//! as data, and the caller performs the drawing.

pub mod completion;
pub mod error;
pub mod prompt;
pub mod split;

pub use completion::Command;
pub use error::Error;
pub use prompt::Prompt;
pub use split::split;
