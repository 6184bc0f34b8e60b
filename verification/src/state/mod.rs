//! The state of a session.

pub mod loaded;
pub mod view;
pub mod tree;
pub mod value;
pub mod pending;
pub mod editor;
pub mod open;
pub mod copy;
pub mod palette;
pub mod status;
pub mod session;
