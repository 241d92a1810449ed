//! The desktop tool: how it reaches an adapter, its worker and its raw session
//! with an unknown device.

pub mod app;
pub mod raw_session;
pub mod transport;
pub mod worker;
