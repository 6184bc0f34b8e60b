//! The core of redis-pane: a terminal browser for a Redis keyspace, written as
//! a pure function from state and message to state and commands.

pub mod area;
pub mod command;
pub mod input;
pub mod json;
pub mod key;
pub mod keymap;
pub mod layout;
pub mod msg;
pub mod mutation;
pub mod purpose;
pub mod render;
pub mod score;
pub mod state;
pub mod text;
pub mod update;

pub use command::Command;
pub use msg::Msg;
pub use state::session::State;
pub use update::update;
