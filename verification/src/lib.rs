//! Sans-I/O core of a task-queue connection: the length-prefixed wire framing
//! and the per-connection decision logic, with machine-checked contracts.

pub mod handler;
pub mod messaging;
pub mod trace;
pub mod wire;
