//! Verified logic of an optical diagnostic adapter for household appliances.
//!
//! The library holds everything the firmware and the desktop tool decide: the
//! crash-safe key-scan journal and its partition migration, the scanner and
//! diagnostic command engines, the network request grammars, vibration
//! statistics, memory tracing and the dryer profile. It performs no input or
//! output. Where a decision depends on a device, a step function takes what
//! the device answered and says what to do next.

pub mod accelerometer;
pub mod backlog;
pub mod bridge;
pub mod buffers;
pub mod device;
pub mod diagnostics;
pub mod header;
pub mod keyscan;
pub mod known_read_keys;
pub mod laws;
pub mod link;
pub mod monitor;
pub mod netlog;
pub mod optical;
pub mod ota;
pub mod publish;
pub mod stream;
pub mod text;
pub mod trace;
pub mod tui;
