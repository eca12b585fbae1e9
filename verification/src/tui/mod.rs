//! The interactive terminal interface: its screens and how keys move
//! between them. Drawing and the event loop are the caller's.

pub mod app;
