//! The rename plan: which scanned entries change their name, and to what.

use vstd::prelude::*;
use crate::command::{Command, CommandView};
use crate::pattern::regex_compiles;
use crate::substitution::lemma_replace_changes_exactly_when;
use crate::text::occurs;
use crate::transform::{lemma_prefixed_length, lemma_suffixed_length};

verus! {

/// One entry found directly inside the target directory.
#[derive(Clone, Debug, PartialEq, Eq)]
pub struct Entry {
    /// The entry's name, or `None` where it is no valid text.
    pub name: Option<String>,
    /// The entry's full path.
    pub path: String,
}

/// An [`Entry`] over character sequences.
pub struct EntryView {
    pub name: Option<Seq<char>>,
    pub path: Seq<char>,
}

impl View for Entry {
    type V = EntryView;

    open spec fn view(&self) -> EntryView {
        EntryView {
            name: match self.name {
                Some(name) => Some(name@),
                None => None,
            },
            path: self.path@,
        }
    }
}

/// One pending rename: the entry at `path`, now called `old_name`, is to be
/// called `new_name`.
#[derive(Clone, Debug, PartialEq, Eq)]
pub struct PlannedRename {
    pub old_name: String,
    pub new_name: String,
    pub path: String,
}

/// A [`PlannedRename`] over character sequences.
pub struct PlannedRenameView {
    pub old_name: Seq<char>,
    pub new_name: Seq<char>,
    pub path: Seq<char>,
}

impl View for PlannedRename {
    type V = PlannedRenameView;

    open spec fn view(&self) -> PlannedRenameView {
        PlannedRenameView { old_name: self.old_name@, new_name: self.new_name@, path: self.path@ }
    }
}

/// The views of scanned entries, in order.
pub open spec fn entry_views(entries: Seq<Entry>) -> Seq<EntryView> {
    entries.map_values(|entry: Entry| entry@)
}

/// The views of planned renames, in order.
pub open spec fn plan_views(plan: Seq<PlannedRename>) -> Seq<PlannedRenameView> {
    plan.map_values(|rename: PlannedRename| rename@)
}

/// The rename that `command` asks of `entry`: none where the entry's name is
/// no valid text, and none where the command leaves the name as it is.
pub open spec fn change_for(entry: EntryView, command: CommandView) -> Option<PlannedRenameView> {
    match entry.name {
        Some(name) => if command.apply(name) != name {
            Some(
                PlannedRenameView {
                    old_name: name,
                    new_name: command.apply(name),
                    path: entry.path,
                },
            )
        } else {
            None
        },
        None => None,
    }
}

/// The plan for `entries` under `command`: the renames of the entries whose
/// name changes, in the order of the scan.
pub open spec fn planned(entries: Seq<EntryView>, command: CommandView) -> Seq<PlannedRenameView> {
    entries.filter_map(|entry: EntryView| change_for(entry, command))
}

/// Builds the rename plan for the scanned `entries` under `command`.
pub fn build_plan(entries: &Vec<Entry>, command: &Command) -> (plan: Vec<PlannedRename>)
    ensures
        plan_views(plan@) == planned(entry_views(entries@), command@),
{
    let ghost scanned = entry_views(entries@);
    let ghost change = |entry: EntryView| change_for(entry, command@);
    let mut plan: Vec<PlannedRename> = Vec::new();
    let mut i: usize = 0;
    while i < entries.len()
        invariant
            i <= entries.len(),
            scanned == entry_views(entries@),
            change == |entry: EntryView| change_for(entry, command@),
            plan_views(plan@) == scanned.take(i as int).filter_map(change),
        decreases entries.len() - i,
    {
        proof {
            scanned.lemma_filter_map_take_succ(change, i as int);
        }
        let entry = &entries[i];
        match &entry.name {
            Some(name) => {
                let new_name = command.apply(name.as_str());
                if !(new_name == *name) {
                    let rename = PlannedRename {
                        old_name: name.clone(),
                        new_name,
                        path: entry.path.clone(),
                    };
                    plan.push(rename);
                }
            },
            None => {},
        }
        i += 1;
    }
    assert(scanned.take(entries.len() as int) == scanned);
    plan
}

/// Which entries a command plans to rename: a removal or a replacement those in
/// whose name the pattern occurs, unless it is exchanged for itself; a prefix
/// or a suffix every entry, unless it is empty; a regular expression that does
/// not compile none. No command plans an entry whose name is no valid text.
pub proof fn lemma_planned_exactly_when(entry: EntryView, command: CommandView)
    ensures
        entry.name is None ==> change_for(entry, command) is None,
        entry.name matches Some(name) ==> match command {
            CommandView::Remove { pattern } => change_for(entry, command) is Some <==> occurs(
                name,
                pattern,
            ) && pattern.len() > 0,
            CommandView::Replace { old, new } => change_for(entry, command) is Some <==> occurs(
                name,
                old,
            ) && new != old,
            CommandView::AddPrefix { prefix } => change_for(entry, command) is Some
                <==> prefix.len() > 0,
            CommandView::AddSuffix { suffix } => change_for(entry, command) is Some
                <==> suffix.len() > 0,
            CommandView::RegexReplace { pattern, .. } => !regex_compiles(pattern) ==> change_for(
                entry,
                command,
            ) is None,
        },
{
    if let Some(name) = entry.name {
        match command {
            CommandView::Remove { pattern } => {
                lemma_replace_changes_exactly_when(name, pattern, Seq::empty());
                assert(pattern != Seq::<char>::empty() <==> pattern.len() > 0) by {
                    if pattern.len() == 0 {
                        assert(pattern =~= Seq::<char>::empty());
                    }
                }
            },
            CommandView::Replace { old, new } => {
                lemma_replace_changes_exactly_when(name, old, new);
            },
            CommandView::AddPrefix { prefix } => {
                lemma_prefixed_length(name, prefix);
            },
            CommandView::AddSuffix { suffix } => {
                lemma_suffixed_length(name, suffix);
            },
            CommandView::RegexReplace { .. } => {},
        }
    }
}

/// Every planned rename stands for one scanned entry: it carries that entry's
/// name and path, its new name is what the command makes of the old one, and
/// the two names differ.
pub proof fn lemma_planned_rename_has_source(
    entries: Seq<EntryView>,
    command: CommandView,
    k: int,
)
    requires
        0 <= k < planned(entries, command).len(),
    ensures
        planned(entries, command)[k].new_name == command.apply(
            planned(entries, command)[k].old_name,
        ),
        planned(entries, command)[k].new_name != planned(entries, command)[k].old_name,
        exists|i: int|
            0 <= i < entries.len() && (#[trigger] entries[i]).name == Some(
                planned(entries, command)[k].old_name,
            ) && entries[i].path == planned(entries, command)[k].path,
{
    let change = |entry: EntryView| change_for(entry, command);
    let rename = planned(entries, command)[k];
    entries.lemma_filter_map_contains(change, rename);
    let source = choose|entry: EntryView| #[trigger]
        entries.contains(entry) && change(entry) == Some(rename);
    let i: int = choose|i: int| 0 <= i < entries.len() && entries[i] == source;
    assert(entries[i].name == Some(rename.old_name) && entries[i].path == rename.path);
}

/// The plan of one entry is its rename, if it has one.
pub proof fn lemma_plan_of_one_entry(entry: EntryView, command: CommandView)
    ensures
        planned(seq![entry], command) == match change_for(entry, command) {
            Some(rename) => seq![rename],
            None => Seq::empty(),
        },
{
    Seq::lemma_filter_map_singleton(entry, |entry: EntryView| change_for(entry, command));
}

/// The plan follows the order of the scan: the plan of two scans, one after
/// the other, is the plan of the first followed by the plan of the second.
pub proof fn lemma_plan_follows_scan(
    front: Seq<EntryView>,
    back: Seq<EntryView>,
    command: CommandView,
)
    ensures
        planned(front + back, command) == planned(front, command) + planned(back, command),
    decreases back.len(),
{
    if back.len() > 0 {
        assert((front + back).drop_last() == front + back.drop_last());
        lemma_plan_follows_scan(front, back.drop_last(), command);
    }
}

/// The plan holds at most one rename for each scanned entry.
pub proof fn lemma_plan_no_longer_than_scan(entries: Seq<EntryView>, command: CommandView)
    ensures
        planned(entries, command).len() <= entries.len(),
    decreases entries.len(),
{
    if entries.len() > 0 {
        lemma_plan_no_longer_than_scan(entries.drop_last(), command);
    }
}

/// Where the command leaves every name as it is, the plan is empty.
pub proof fn lemma_unchanged_names_plan_nothing(entries: Seq<EntryView>, command: CommandView)
    requires
        forall|i: int|
            0 <= i < entries.len() ==> ((#[trigger] entries[i]).name matches Some(name)
                ==> command.apply(name) == name),
    ensures
        planned(entries, command).len() == 0,
    decreases entries.len(),
{
    if entries.len() > 0 {
        let rest = entries.drop_last();
        assert forall|i: int| 0 <= i < rest.len() implies ((#[trigger] rest[i]).name matches Some(
            name,
        ) ==> command.apply(name) == name) by {
            assert(rest[i] == entries[i]);
        }
        lemma_unchanged_names_plan_nothing(rest, command);
        assert(change_for(entries.last(), command) is None);
    }
}

/// A regular expression that does not compile plans nothing, whatever was
/// scanned.
pub proof fn lemma_invalid_regex_plans_nothing(
    entries: Seq<EntryView>,
    pattern: Seq<char>,
    replacement: Seq<char>,
)
    requires
        !regex_compiles(pattern),
    ensures
        planned(entries, CommandView::RegexReplace { pattern, replacement }).len() == 0,
{
    lemma_unchanged_names_plan_nothing(
        entries,
        CommandView::RegexReplace { pattern, replacement },
    );
}

} // verus!
