//! A single-process supervisor, as a verified library.
//!
//! The supervisor keeps one program running: it starts the program, waits
//! for it to exit, waits for the respawn delay and starts it again. A control
//! channel takes commands that stop, start and restart the program and change
//! the delay.
//!
//! This library holds the decisions, and none of the waiting: the commands
//! and their wire format, the shared state and what each command does to it,
//! and the respawn loop as a state machine. A caller owns the sockets, the
//! processes, the lock around the state and the pause condition.

pub mod command;
pub mod history;
pub mod respawn;
pub mod state;
pub mod text;
pub mod wire;

pub use crate::command::Command;
pub use crate::respawn::{Event, Notice, Phase};
pub use crate::state::{Fault, Reply, Runner, State};
