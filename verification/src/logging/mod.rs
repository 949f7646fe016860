//! The application's structured logging system: the console window and the format of its lines.

pub mod console;
pub mod formatter;
pub mod setup;
