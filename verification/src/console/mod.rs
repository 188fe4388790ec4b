//! The interactive console: line editing with history and completion.
pub mod completion;
pub mod editing;
pub mod input;
