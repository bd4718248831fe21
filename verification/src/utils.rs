//! Helper functions shared across the toolkit: permission-text and
//! time formatting, name classification and coloring, and the metrics
//! hook.

use vstd::prelude::*;
use crate::text::dec_rep;
use crate::text::has_suffix;
use crate::text::has_suffix_spec;
use crate::text::u64_to_string;

verus! {

/// The time column's text: the seconds since the epoch in decimal, or
/// "Unknown" for a reading the clock could not express (one from
/// before the epoch).
pub open spec fn formatted_time(secs_since_epoch: Option<u64>) -> Seq<char> {
    match secs_since_epoch {
        Some(s) => dec_rep(s as nat),
        None => "Unknown"@,
    }
}

/// Formats a clock reading, given as whole seconds since the epoch
/// when the clock could express it, for display.
pub fn format_time(secs_since_epoch: Option<u64>) -> (r: String)
    ensures
        r@ == formatted_time(secs_since_epoch),
{
    match secs_since_epoch {
        Some(s) => u64_to_string(s),
        None => String::from_str("Unknown"),
    }
}

/// Records command execution metrics. The hook is disabled: it
/// deliberately does nothing.
#[allow(unused_variables)]
pub fn log_command_metrics(
    command: &str,
    duration: u128,
    status: &str,
    output_size: Option<usize>,
) {
}

/// One position of a permission text: the flag character when the
/// permission is held, a dash when it is not.
pub open spec fn perm_flag(held: bool, c: char) -> Seq<char> {
    if held {
        seq![c]
    } else {
        seq!['-']
    }
}

/// The nine-character permission text for a Unix mode word: read,
/// write and execute for owner, group and others.
pub open spec fn mode_permission_text(mode: u32) -> Seq<char> {
    perm_flag(mode & 0o400 != 0, 'r') + perm_flag(mode & 0o200 != 0, 'w') + perm_flag(
        mode & 0o100 != 0,
        'x',
    ) + perm_flag(mode & 0o040 != 0, 'r') + perm_flag(mode & 0o020 != 0, 'w') + perm_flag(
        mode & 0o010 != 0,
        'x',
    ) + perm_flag(mode & 0o004 != 0, 'r') + perm_flag(mode & 0o002 != 0, 'w') + perm_flag(
        mode & 0o001 != 0,
        'x',
    )
}

/// One permission flag as a printable string.
fn perm_flag_str(held: bool, c: &'static str) -> (r: &'static str)
    requires
        c@.len() == 1,
    ensures
        r@ == perm_flag(held, c@[0]),
{
    proof {
        reveal_strlit("-");
    }
    let r = if held {
        c
    } else {
        "-"
    };
    proof {
        assert(r@ =~= perm_flag(held, c@[0]));
    }
    r
}

/// Builds the nine-character permission text for a Unix mode word.
pub fn mode_permissions(mode: u32) -> (r: String)
    ensures
        r@ == mode_permission_text(mode),
{
    proof {
        reveal_strlit("r");
        reveal_strlit("w");
        reveal_strlit("x");
    }
    let mut r = String::new();
    r.append(perm_flag_str(mode & 0o400 != 0, "r"));
    r.append(perm_flag_str(mode & 0o200 != 0, "w"));
    r.append(perm_flag_str(mode & 0o100 != 0, "x"));
    r.append(perm_flag_str(mode & 0o040 != 0, "r"));
    r.append(perm_flag_str(mode & 0o020 != 0, "w"));
    r.append(perm_flag_str(mode & 0o010 != 0, "x"));
    r.append(perm_flag_str(mode & 0o004 != 0, "r"));
    r.append(perm_flag_str(mode & 0o002 != 0, "w"));
    r.append(perm_flag_str(mode & 0o001 != 0, "x"));
    proof {
        assert(r@ =~= mode_permission_text(mode));
    }
    r
}

/// The simple permission text used where only a read-only flag is
/// known: read and write for a writable file, dashes otherwise, and
/// nothing beyond that.
pub open spec fn readonly_permission_text(readonly: bool) -> Seq<char> {
    perm_flag(!readonly, 'r') + perm_flag(!readonly, 'w') + seq!['-'] + "------"@
}

/// Builds the permission text from a bare read-only flag.
pub fn readonly_permissions(readonly: bool) -> (r: String)
    ensures
        r@ == readonly_permission_text(readonly),
{
    proof {
        reveal_strlit("r");
        reveal_strlit("w");
        reveal_strlit("-");
        reveal_strlit("------");
    }
    let mut r = String::new();
    r.append(perm_flag_str(!readonly, "r"));
    r.append(perm_flag_str(!readonly, "w"));
    r.append("-");
    r.append("------");
    proof {
        assert(r@ =~= readonly_permission_text(readonly));
    }
    r
}

/// A name counts as hidden by convention when it starts with a dot.
pub open spec fn dot_named(name: Seq<char>) -> bool {
    name.len() > 0 && name[0] == '.'
}

/// Reports whether a file name marks its entry hidden by convention.
pub fn hidden_by_name(name: &str) -> (b: bool)
    ensures
        b == dot_named(name@),
{
    if name.unicode_len() == 0 {
        return false;
    }
    let c = name.get_char(0);
    c == '.'
}

/// How a file or directory name is styled in listings.
#[derive(Debug, Clone, Copy, PartialEq, Eq, Structural)]
pub enum NameStyle {
    /// A directory: blue and bold.
    Directory,
    /// An executable or script: green.
    Executable,
    /// A source or manifest file: yellow.
    Source,
    /// Anything else: unstyled.
    Plain,
}

/// The style a name receives: directories first, then executables and
/// scripts by suffix, then source and manifest files by suffix,
/// everything else plain.
pub open spec fn name_style_spec(name: Seq<char>, is_dir: bool) -> NameStyle {
    if is_dir {
        NameStyle::Directory
    } else if has_suffix_spec(name, ".exe"@) || has_suffix_spec(name, ".bat"@) || has_suffix_spec(
        name,
        ".cmd"@,
    ) {
        NameStyle::Executable
    } else if has_suffix_spec(name, ".rs"@) || has_suffix_spec(name, ".toml"@) {
        NameStyle::Source
    } else {
        NameStyle::Plain
    }
}

/// Picks the style for a file or directory name.
pub fn classify_name(name: &str, is_dir: bool) -> (s: NameStyle)
    ensures
        s == name_style_spec(name@, is_dir),
{
    if is_dir {
        NameStyle::Directory
    } else if has_suffix(name, ".exe") || has_suffix(name, ".bat") || has_suffix(name, ".cmd") {
        NameStyle::Executable
    } else if has_suffix(name, ".rs") || has_suffix(name, ".toml") {
        NameStyle::Source
    } else {
        NameStyle::Plain
    }
}

/// Relies on colored's `Colorize::blue` and `bold`: wraps the text in
/// the blue bold ANSI style. Whether style codes are actually emitted
/// depends on the terminal and environment, so nothing is promised of
/// the result.
#[verifier::external_body]
fn style_blue_bold(s: &str) -> String {
    colored::Colorize::bold(colored::Colorize::blue(s)).to_string()
}

/// Relies on colored's `Colorize::green`: wraps the text in the green
/// ANSI style. Whether style codes are actually emitted depends on the
/// terminal and environment, so nothing is promised of the result.
#[verifier::external_body]
fn style_green(s: &str) -> String {
    colored::Colorize::green(s).to_string()
}

/// Relies on colored's `Colorize::yellow`: wraps the text in the
/// yellow ANSI style. Whether style codes are actually emitted depends
/// on the terminal and environment, so nothing is promised of the
/// result.
#[verifier::external_body]
fn style_yellow(s: &str) -> String {
    colored::Colorize::yellow(s).to_string()
}

/// Colors a file or directory name for display according to its style
/// class. A plain name is returned as it is; a styled one is wrapped
/// in terminal style codes whose presence depends on the environment.
pub fn colorize_name(name: &str, is_dir: bool) -> (r: String)
    ensures
        name_style_spec(name@, is_dir) == NameStyle::Plain ==> r@ == name@,
{
    match classify_name(name, is_dir) {
        NameStyle::Directory => style_blue_bold(name),
        NameStyle::Executable => style_green(name),
        NameStyle::Source => style_yellow(name),
        NameStyle::Plain => name.to_owned(),
    }
}

} // verus!
