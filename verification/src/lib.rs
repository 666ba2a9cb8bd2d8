//! An interactive command-line interpreter's core: a quote-aware line
//! tokenizer with a continuation protocol, a session state record, exact-name
//! dispatch to a closed set of internal commands, and a first-match search
//! over path directories for external commands.
//!
//! Input reading, process spawning and every other side effect live outside
//! this crate; the functions here compute the decisions and carry contracts
//! for each of them.

pub mod builtins;
pub mod input;
pub mod resolver;
pub mod state;
pub mod tokenizer;
pub mod vars;

pub use state::ShellError;
pub use state::State;
pub use tokenizer::parse_args;
pub use tokenizer::ParseResult;
pub use tokenizer::QuoteState;
