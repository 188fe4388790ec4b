//! Client-side logic for driving the Revolution Idle game bridge: the pause
//! gate shared with the hotkey worker, the script lifecycle, console command
//! parsing and line editing, window geometry, mouse capture decisions and the
//! bridge wire helpers.
pub mod command;
pub mod history;
pub mod parsing;
pub mod pause;
pub mod text;

pub use command::ScriptCommand;
pub use parsing::parse_command;
pub mod app;
pub mod lines;
pub mod status;
pub mod numbers;
pub mod window;
pub mod probe;
pub mod capture;
pub mod lifecycle;
pub mod bridge;
pub mod seqs;
pub mod console;
pub mod bindings;
pub mod global_state;
pub mod ownership;
pub mod hotkey;
pub mod session;
pub mod loader;
