//! Verified core of a removable-drive wiping tool: the three-pass overwrite
//! plan, the signed audit trail, device selection rules and the text that
//! the tool shows to its operator.

pub mod text;
pub mod wipe;
pub mod format;
pub mod error;
pub mod device;
pub mod audit;
pub mod tui;
pub mod session;
