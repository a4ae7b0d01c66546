//! Launcher entries: a label, an action, and a record of where the entry came from.
use vstd::prelude::*;
use crate::action::Action;

verus! {

/// Whether a domain is attached.
#[derive(Clone, Copy, Debug, PartialEq, Eq, Structural)]
pub enum DomainState {
    Detached,
    Attached,
}

/// Where a key-assignment entry came from.
#[derive(Clone, Debug)]
pub struct LauncherKeyEntry {
    pub code: String,
    pub mods: String,
    pub assignment: Action,
}

/// Where a tab entry came from.
#[derive(Clone, Debug)]
pub struct LauncherTabEntry {
    pub title: String,
    pub tab_id: usize,
    pub tab_idx: usize,
    pub pane_count: usize,
}

/// Where a domain entry came from.
#[derive(Clone, Debug)]
pub struct LauncherDomainEntry {
    pub domain_id: usize,
    pub name: String,
    pub state: DomainState,
    pub label: String,
}

/// Where a command-palette entry came from.
#[derive(Clone, Debug)]
pub struct LauncherCommandEntry {
    pub brief: String,
    pub doc: String,
    pub keys: String,
    pub action: Action,
}

/// The provenance of an entry.
#[derive(Clone, Debug)]
pub enum LauncherEntryType {
    Tab(LauncherTabEntry),
    Domain(LauncherDomainEntry),
    KeyAssignment(LauncherKeyEntry),
    Command(LauncherCommandEntry),
}

/// One selectable row of the launcher.
#[derive(Clone, Debug)]
pub struct LauncherEntry {
    pub label: String,
    pub action: Action,
    pub launch_type: LauncherEntryType,
}

impl LauncherEntry {
    /// An entry with these parts.
    pub fn new(label: String, action: Action, launch_type: LauncherEntryType) -> (r: Self)
        ensures
            r.label == label,
            r.action == action,
            r.launch_type == launch_type,
    {
        LauncherEntry { label, action, launch_type }
    }

    /// Applies the result of the label-formatting hook: a non-empty formatted
    /// label replaces the current one; a failed hook (`None`) or an empty
    /// result keeps it.
    pub fn apply_formatted_label(&mut self, formatted: Option<String>)
        ensures
            final(self).action == old(self).action,
            final(self).launch_type == old(self).launch_type,
            final(self).label@ == (match formatted {
                Some(f) => if f@.len() > 0 { f@ } else { old(self).label@ },
                None => old(self).label@,
            }),
    {
        match formatted {
            Some(f) => {
                if !f.as_str().is_empty() {
                    self.label = f;
                }
            },
            None => {},
        }
    }
}

} // verus!
