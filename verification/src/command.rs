//! The command of a run: which transformation to apply, and with what
//! parameters.

use vstd::prelude::*;
use crate::substitution::{removed, replaced};
use crate::transform::{
    add_prefix, add_suffix, prefixed, regex_replace, regex_rewritten, remove_string,
    replace_string, suffixed,
};

verus! {

/// One transformation with its parameters.
#[derive(Clone, Debug, PartialEq, Eq)]
pub enum Command {
    /// Delete every occurrence of `pattern`.
    Remove { pattern: String },
    /// Exchange every occurrence of `old` for `new`.
    Replace { old: String, new: String },
    /// Put `prefix` before the name.
    AddPrefix { prefix: String },
    /// Set `suffix` in before the last `.` of the name.
    AddSuffix { suffix: String },
    /// Exchange every match of the regular expression `pattern` for
    /// `replacement`.
    RegexReplace { pattern: String, replacement: String },
}

/// A [`Command`] over character sequences.
pub enum CommandView {
    Remove { pattern: Seq<char> },
    Replace { old: Seq<char>, new: Seq<char> },
    AddPrefix { prefix: Seq<char> },
    AddSuffix { suffix: Seq<char> },
    RegexReplace { pattern: Seq<char>, replacement: Seq<char> },
}

impl CommandView {
    /// The name that the command makes of `name`.
    pub open spec fn apply(self, name: Seq<char>) -> Seq<char> {
        match self {
            CommandView::Remove { pattern } => removed(name, pattern),
            CommandView::Replace { old, new } => replaced(name, old, new),
            CommandView::AddPrefix { prefix } => prefixed(name, prefix),
            CommandView::AddSuffix { suffix } => suffixed(name, suffix),
            CommandView::RegexReplace { pattern, replacement } => regex_rewritten(
                name,
                pattern,
                replacement,
            ),
        }
    }
}

impl View for Command {
    type V = CommandView;

    open spec fn view(&self) -> CommandView {
        match self {
            Command::Remove { pattern } => CommandView::Remove { pattern: pattern@ },
            Command::Replace { old, new } => CommandView::Replace { old: old@, new: new@ },
            Command::AddPrefix { prefix } => CommandView::AddPrefix { prefix: prefix@ },
            Command::AddSuffix { suffix } => CommandView::AddSuffix { suffix: suffix@ },
            Command::RegexReplace { pattern, replacement } => CommandView::RegexReplace {
                pattern: pattern@,
                replacement: replacement@,
            },
        }
    }
}

impl Command {
    /// Applies the command's transformation to `name`.
    pub fn apply(&self, name: &str) -> (renamed: String)
        ensures
            renamed@ == self@.apply(name@),
    {
        match self {
            Command::Remove { pattern } => remove_string(name, pattern.as_str()),
            Command::Replace { old, new } => replace_string(name, old.as_str(), new.as_str()),
            Command::AddPrefix { prefix } => add_prefix(name, prefix.as_str()),
            Command::AddSuffix { suffix } => add_suffix(name, suffix.as_str()),
            Command::RegexReplace { pattern, replacement } => regex_replace(
                name,
                pattern.as_str(),
                replacement.as_str(),
            ),
        }
    }
}

} // verus!
