//! Connection management and response routing for a pool of live
//! REPL sessions driven from an editor.
//!
//! The pool keeps any number of named connections, each with three
//! request/response channels (evaluation, definition lookup, completion
//! refresh), and routes editor requests to the connections whose
//! path pattern matches the current file.

pub mod lang;
pub mod pattern;
pub mod pool;
pub mod response;
pub mod text;
