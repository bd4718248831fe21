//! Configuration for command execution: the settings that control how
//! the tree command selects, sorts and annotates its entries, built up
//! with chained `with_*` methods from a default state.

use vstd::prelude::*;
use crate::error::Result;

verus! {

/// Settings that control how commands operate, particularly the tree
/// command's display options.
pub struct Config {
    /// Show directories only.
    pub directories_only: bool,
    /// Root directory path for operations.
    pub root: std::path::PathBuf,
    /// Maximum depth to traverse (`None` for unlimited).
    pub max_depth: Option<usize>,
    /// Show hidden files.
    pub show_hidden: bool,
    /// How to sort the directory entries.
    pub sort_by: SortBy,
    /// Show file permissions.
    pub show_permissions: bool,
    /// Show file sizes.
    pub show_size: bool,
    /// Show modification dates.
    pub show_date: bool,
    /// Optional pattern for filtering files.
    pub pattern: Option<String>,
}

/// The available sorting methods.
#[derive(Debug, Clone, Copy, PartialEq, Eq, Structural)]
pub enum SortBy {
    /// Sort by file or directory name.
    Name,
    /// Sort by entry type, directories first.
    Type,
    /// Sort by file size.
    Size,
    /// Sort by modification date.
    Date,
}

impl Config {
    /// All settings a `Config` starts from: nothing shown beyond names,
    /// no depth limit, sorted by name.
    pub open spec fn is_default_for(self, root: std::path::PathBuf) -> bool {
        &&& self.directories_only == false
        &&& self.root == root
        &&& self.max_depth == Option::<usize>::None
        &&& self.show_hidden == false
        &&& self.sort_by == SortBy::Name
        &&& self.show_permissions == false
        &&& self.show_size == false
        &&& self.show_date == false
        &&& self.pattern == Option::<String>::None
    }

    /// Creates a configuration with default settings rooted at `root`.
    pub fn new(root: std::path::PathBuf) -> (r: Self)
        ensures
            r.is_default_for(root),
    {
        Self {
            directories_only: false,
            root,
            max_depth: None,
            show_hidden: false,
            sort_by: SortBy::Name,
            show_permissions: false,
            show_size: false,
            show_date: false,
            pattern: None,
        }
    }

    /// Sets the maximum depth for directory traversal. Every depth is
    /// acceptable, so this always succeeds.
    pub fn with_max_depth(self, depth: usize) -> (r: Result<Self>)
        ensures
            r matches Ok(c) && c == (Self { max_depth: Some(depth), ..self }),
    {
        Ok(Self { max_depth: Some(depth), ..self })
    }

    /// Sets whether hidden files and directories are shown.
    pub fn with_show_hidden(self, show_hidden: bool) -> (r: Self)
        ensures
            r == (Self { show_hidden, ..self }),
    {
        Self { show_hidden, ..self }
    }

    /// Sets the sorting method for directory entries.
    pub fn with_sort_by(self, sort_by: SortBy) -> (r: Self)
        ensures
            r == (Self { sort_by, ..self }),
    {
        Self { sort_by, ..self }
    }

    /// Sets whether file permissions are displayed.
    pub fn with_show_permissions(self, show_permissions: bool) -> (r: Self)
        ensures
            r == (Self { show_permissions, ..self }),
    {
        Self { show_permissions, ..self }
    }

    /// Sets whether file sizes are displayed.
    pub fn with_show_size(self, show_size: bool) -> (r: Self)
        ensures
            r == (Self { show_size, ..self }),
    {
        Self { show_size, ..self }
    }

    /// Sets whether modification dates are displayed.
    pub fn with_show_date(self, show_date: bool) -> (r: Self)
        ensures
            r == (Self { show_date, ..self }),
    {
        Self { show_date, ..self }
    }

    /// Sets whether only directories are listed.
    pub fn with_directories_only(self, directories_only: bool) -> (r: Self)
        ensures
            r == (Self { directories_only, ..self }),
    {
        Self { directories_only, ..self }
    }

    /// Sets a pattern for filtering files. Any pattern text is accepted;
    /// `None` leaves the current pattern in place.
    pub fn with_pattern(self, pattern: Option<String>) -> (r: Result<Self>)
        ensures
            r matches Ok(c) && c == (Self {
                pattern: if pattern is Some {
                    pattern
                } else {
                    self.pattern
                },
                ..self
            }),
    {
        match pattern {
            Some(p) => Ok(Self { pattern: Some(p), ..self }),
            None => Ok(self),
        }
    }
}

} // verus!
