//! Core of a terminal front-end for a long-running build worker: a bounded
//! scrollback log, the splitting of subprocess output into log lines, and the
//! prompt widgets that a worker thread hands to the render loop.

pub mod log;
pub mod text;
pub mod demux;
pub mod user;
pub mod choices;
pub mod ui;
pub mod process;
pub mod download;
