//! A scrollable, fuzzy-filterable selector menu: a catalog of launchable
//! entries, a filtered and ranked view of it, a cursor with scrolling, an
//! input-event state machine and the description of each rendered frame.
pub mod text;
pub mod sort;
pub mod action;
pub mod entry;
pub mod filter;
pub mod event;
pub mod state;
pub mod catalog;
pub mod render;

pub use action::Action;
pub use catalog::{CommandInfo, DomainInfo, KeyBinding, LauncherArgs, LauncherFlags, TabInfo};
pub use entry::{
    DomainState, LauncherCommandEntry, LauncherDomainEntry, LauncherEntry, LauncherEntryType,
    LauncherKeyEntry, LauncherTabEntry,
};
pub use event::{Command, InputEvent, KeyCode, MouseButtons};
pub use filter::filter_entries;
pub use render::{Frame, FrameRow};
pub use state::{LauncherState, Outcome, ROW_OVERHEAD};
