//! Detached runs: ids, the state directory, and the records written at
//! the start and end of a run on Linux (systemd) and macOS.

pub mod id;
pub mod state;
pub mod linux;
pub mod macos;
