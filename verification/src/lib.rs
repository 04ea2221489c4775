//! Verified core of a TCP port scanner that also fingerprints the HTTP,
//! FTP and SSH services it finds.
//!
//! The library decides everything the scanner does and reports; the
//! program around it performs the network and terminal input/output.

pub mod custom_errors;
pub mod features;
pub mod ftp;
pub mod http;
pub mod input;
pub mod ports;
pub mod probe;
pub mod scan;
pub mod ssh;
pub mod text;
pub mod traits;

pub use custom_errors::Errors;
pub use features::Features;
pub use input::ParseInput;
pub use ports::{Port, PortType};
pub use probe::{ProbeAction, ProbeEvent, ProbeSession};
pub use traits::{ProtocolOperation, ProtocolOperations};

use vstd::prelude::*;

verus! {

/// Seconds allowed for a connection or an HTTP request.
pub const TIME_OUT_PROGRAMS: u64 = 3;

/// How many port connections may be attempted at the same time.
pub const DEFAULT_MAX_PARALLEL_TCP_CONNECTIONS: usize = 1000;

} // verus!
