//! Command-line surface of the toolkit: the subcommands and their
//! argument records. The structures here are plain data; the binary
//! front end maps its parsed flags onto them.

use vstd::prelude::*;

verus! {

/// Top-level invocation: one chosen subcommand.
pub struct Cli {
    pub command: Commands,
}

/// The available subcommands.
pub enum Commands {
    /// Display a directory structure as a tree.
    Tree(TreeArgs),
    /// Display port ownership information.
    Portown(PortownArgs),
}

/// Arguments for the tree subcommand.
pub struct TreeArgs {
    /// Root directory to start building the tree from.
    pub path: std::path::PathBuf,
    /// Maximum depth to display.
    pub max_depth: Option<usize>,
    /// Include hidden files.
    pub all: bool,
    /// Show file permissions.
    pub permissions: bool,
    /// Show human-readable sizes.
    pub human_size: bool,
    /// Show last modified date.
    pub modified: bool,
    /// Sort by type.
    pub sort_type: bool,
    /// Sort by size.
    pub sort_size: bool,
    /// Sort by modification date.
    pub sort_date: bool,
    /// Filter by pattern.
    pub filter: Option<String>,
}

/// Arguments for the portown subcommand.
pub struct PortownArgs {
    /// Keep only listening ports.
    pub listen: bool,
    /// Keep only TCP connections.
    pub tcp_only: bool,
    /// Keep only UDP connections.
    pub udp_only: bool,
    /// Cap on the number of rows shown.
    pub depth: Option<usize>,
    /// Keep only established connections.
    pub established_only: bool,
}

impl PortownArgs {
    /// A configuration with no restriction: every parsed record is kept.
    pub open spec fn unrestricted() -> PortownArgs {
        PortownArgs {
            listen: false,
            tcp_only: false,
            udp_only: false,
            depth: None,
            established_only: false,
        }
    }
}

} // verus!
