//! Persistent autonomous scan state: its record format, the flash journal that
//! survives power loss, the partition that holds it, and the scanner itself.

pub mod job;
pub mod journal;
pub mod migration;
pub mod partition;
pub mod record;
pub mod recovery;
pub mod scanner;
pub mod state;
pub mod tearing;

pub use journal::{Error, Journal};
pub use migration::install_partition;
pub use record::{crc, decode, encode};
pub use state::{Phase, State};
