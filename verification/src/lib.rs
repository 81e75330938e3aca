//! Builds the host-and-path strings that a remote-copy command expects:
//! resolves an optional trailing path argument against the current
//! directory, and filters the machine's interface records by address
//! family and loopback status before they are formatted for printing.

pub mod args;
pub mod ifaces;
pub mod path;
pub mod report;
pub mod text;
