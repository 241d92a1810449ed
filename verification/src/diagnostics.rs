//! Diagnostic commands: their grammar over TCP and the serial console, and the
//! engine that executes them.

pub mod command;
pub mod console;
pub mod dump;
pub mod engine;
pub mod request;

pub use command::{parse_diag_u16, parse_diag_u32, parse_scan_command, DiagnosticCommand};
