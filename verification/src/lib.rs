//! Toolboxer: a developer command-line toolkit.
//!
//! The crate's core is the port-ownership pipeline: parsing the tabular
//! output of the OS connection-enumeration tool into connection records,
//! resolving owning-process identities through a memoizing resolver, and
//! rendering the result as a styled table. A directory-tree command's
//! configuration and pure display helpers round it out.

pub mod cli;
pub mod config;
pub mod error;
pub mod portown;
pub mod render;
pub mod resolve;
pub mod text;
pub mod tree;
pub mod utils;

pub use config::Config;
pub use error::Error;
pub use error::Result;
