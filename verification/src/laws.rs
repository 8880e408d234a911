//! What the operations of this library are for, stated of every input.
//!
//! The laws here speak of whatever a function returns: `call_ensures(f, args, r)`
//! says that `f` may return `r` for these arguments. They relate the result to the
//! fields of the arguments, or the results of two calls to each other.

pub mod calls;
pub mod crowds;
pub mod personas;
pub mod policies;
pub mod prompts;
pub mod refusals;
pub mod runs;
pub mod tasks;
pub mod texts;
pub mod tools;
pub mod wordings;
