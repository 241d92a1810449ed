//! What the library promises, stated over the results of its modules: each law says
//! in plain terms what an operation is for, or how two of them relate.

pub mod commands;
pub mod dryer;
pub mod dumping;
pub mod line;
pub mod logging;
pub mod reading;
pub mod reporting;
pub mod requests;
pub mod scanning;
pub mod storage;
pub mod terminal;
pub mod tracing;
pub mod updating;
pub mod vibration;
