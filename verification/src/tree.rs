//! The pure part of the tree command: which entries are visible under
//! the configuration, the branch connectors and indentation prefixes
//! of the tree drawing, and the assembly of one printed line. The
//! filesystem walk that feeds these, and the terminal output, happen
//! outside the library.

use vstd::prelude::*;
use crate::text::has_substring;
use crate::text::str_contains;

verus! {

/// Whether an entry is shown: a hidden entry only when hidden files
/// are requested, and — when a filter pattern is set — only an entry
/// whose name is readable and contains the pattern.
pub open spec fn entry_visible_spec(
    show_hidden: bool,
    hidden: bool,
    name: Option<Seq<char>>,
    pattern: Option<Seq<char>>,
) -> bool {
    if !show_hidden && hidden {
        false
    } else {
        match pattern {
            Some(p) => match name {
                Some(n) => has_substring(n, p),
                None => false,
            },
            None => true,
        }
    }
}

/// Decides whether an entry is shown, from its hidden flag, its name
/// as far as it is readable, and the configured pattern.
pub fn entry_visible(
    show_hidden: bool,
    hidden: bool,
    name: Option<&str>,
    pattern: &Option<String>,
) -> (b: bool)
    ensures
        b == entry_visible_spec(
            show_hidden,
            hidden,
            match name {
                Some(n) => Some(n@),
                None => None,
            },
            match pattern {
                Some(p) => Some(p@),
                None => None,
            },
        ),
{
    if !show_hidden && hidden {
        return false;
    }
    match pattern {
        Some(p) => match name {
            Some(n) => str_contains(n, p.as_str()),
            None => false,
        },
        None => true,
    }
}

/// The text standing before an entry's name: nothing at the root, and
/// below it the accumulated indentation with the branch connector —
/// the closing one for a last sibling.
pub open spec fn entry_prefix_text(prefix: Seq<char>, depth: int, is_last: bool) -> Seq<char> {
    if depth == 0 {
        Seq::empty()
    } else if is_last {
        prefix + "└── "@
    } else {
        prefix + "├── "@
    }
}

/// Builds the connector text standing before an entry's name.
pub fn entry_prefix(prefix: &str, depth: usize, is_last: bool) -> (r: String)
    ensures
        r@ == entry_prefix_text(prefix@, depth as int, is_last),
{
    if depth == 0 {
        let r = String::new();
        proof {
            assert(r@ =~= Seq::<char>::empty());
        }
        r
    } else if is_last {
        let mut r = prefix.to_owned();
        r.append("└── ");
        r
    } else {
        let mut r = prefix.to_owned();
        r.append("├── ");
        r
    }
}

/// The indentation the children of an entry inherit: nothing at the
/// root, and below it the entry's own indentation extended by a blank
/// column after a last sibling, a guide-line column otherwise.
pub open spec fn child_prefix_text(prefix: Seq<char>, depth: int, is_last: bool) -> Seq<char> {
    if depth == 0 {
        Seq::empty()
    } else if is_last {
        prefix + "    "@
    } else {
        prefix + "│   "@
    }
}

/// Builds the indentation the children of an entry inherit.
pub fn child_prefix(prefix: &str, depth: usize, is_last: bool) -> (r: String)
    ensures
        r@ == child_prefix_text(prefix@, depth as int, is_last),
{
    if depth == 0 {
        let r = String::new();
        proof {
            assert(r@ =~= Seq::<char>::empty());
        }
        r
    } else if is_last {
        let mut r = prefix.to_owned();
        r.append("    ");
        r
    } else {
        let mut r = prefix.to_owned();
        r.append("│   ");
        r
    }
}

/// The human-readable text humansize gives a byte count under the
/// binary (IEC) options. A function of the count alone; its exact
/// wording is the formatting library's own.
pub uninterp spec fn human_size_text(bytes: u64) -> Seq<char>;

/// Relies on humansize's `format_size` with the `BINARY` options:
/// renders a byte count as a human-readable size. The result depends
/// on the count alone.
#[verifier::external_body]
fn format_size_binary(bytes: u64) -> (r: String)
    ensures
        r@ == human_size_text(bytes),
{
    humansize::format_size(bytes, humansize::BINARY)
}

/// The size annotation an entry receives: the human-readable size of a
/// file when sizes are shown, and nothing for a directory or when they
/// are not.
pub fn size_annotation(show_size: bool, is_dir: bool, len: u64) -> (r: Option<String>)
    ensures
        show_size && !is_dir ==> (r matches Some(t) && t@ == human_size_text(len)),
        !(show_size && !is_dir) ==> r is None,
{
    if show_size && !is_dir {
        Some(format_size_binary(len))
    } else {
        None
    }
}

/// One printed line of the tree: the permission text first when shown,
/// then the connected (possibly styled) name, then the size and date
/// annotations in that order when shown, each part separated by a
/// single space.
pub open spec fn composed_entry_line(
    base: Seq<char>,
    permissions: Option<Seq<char>>,
    size: Option<Seq<char>>,
    date: Option<Seq<char>>,
) -> Seq<char> {
    let with_perms = match permissions {
        Some(p) => p + " "@ + base,
        None => base,
    };
    let with_size = match size {
        Some(s) => with_perms + " "@ + s,
        None => with_perms,
    };
    match date {
        Some(d) => with_size + " "@ + d,
        None => with_size,
    }
}

/// Assembles one printed line of the tree from its finished parts.
pub fn compose_entry_line(
    base: &str,
    permissions: &Option<String>,
    size: &Option<String>,
    date: &Option<String>,
) -> (r: String)
    ensures
        r@ == composed_entry_line(
            base@,
            match permissions {
                Some(p) => Some(p@),
                None => None,
            },
            match size {
                Some(s) => Some(s@),
                None => None,
            },
            match date {
                Some(d) => Some(d@),
                None => None,
            },
        ),
{
    let mut r = String::new();
    match permissions {
        Some(p) => {
            r.append(p.as_str());
            r.append(" ");
        },
        None => {},
    }
    r.append(base);
    match size {
        Some(s) => {
            r.append(" ");
            r.append(s.as_str());
        },
        None => {},
    }
    match date {
        Some(d) => {
            r.append(" ");
            r.append(d.as_str());
        },
        None => {},
    }
    proof {
        assert(r@ =~= composed_entry_line(
            base@,
            match permissions {
                Some(p) => Some(p@),
                None => None,
            },
            match size {
                Some(s) => Some(s@),
                None => None,
            },
            match date {
                Some(d) => Some(d@),
                None => None,
            },
        ));
    }
    r
}

} // verus!
