//! A todo list: records keyed by a one-byte identifier, an identifier
//! allocator that never reuses a value, and a line-oriented command parser.
mod text;
pub mod todo;
pub mod store;
pub mod laws;
pub mod parse;
pub mod cmd;
