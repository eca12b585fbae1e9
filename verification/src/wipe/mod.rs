//! The three-pass overwrite: its passes, its configuration and the state
//! machine that decides every seek, write and flush of a run.

pub mod engine;
pub mod progress;
pub mod session;


