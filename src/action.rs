//! The dispatchable action that an entry resolves to.
use vstd::prelude::*;

verus! {

/// An action handed to the window when an entry is launched.
#[derive(Clone, Debug)]
pub enum Action {
    /// Spawn a new tab in the named domain.
    SpawnCommandInNewTab { domain_name: String },
    /// Attach the named domain.
    AttachDomain(String),
    /// Activate the tab at this position.
    ActivateTab(isize),
    /// Activate the tab at this offset from the current one.
    ActivateTabRelative(isize),
    /// Any other assignment, identified by its canonical text.
    Other(String),
}

/// The mathematical value of an [`Action`].
pub enum ActionView {
    SpawnCommandInNewTab(Seq<char>),
    AttachDomain(Seq<char>),
    ActivateTab(int),
    ActivateTabRelative(int),
    Other(Seq<char>),
}

impl View for Action {
    type V = ActionView;

    open spec fn view(&self) -> ActionView {
        match self {
            Action::SpawnCommandInNewTab { domain_name } => ActionView::SpawnCommandInNewTab(domain_name@),
            Action::AttachDomain(n) => ActionView::AttachDomain(n@),
            Action::ActivateTab(i) => ActionView::ActivateTab(*i as int),
            Action::ActivateTabRelative(i) => ActionView::ActivateTabRelative(*i as int),
            Action::Other(s) => ActionView::Other(s@),
        }
    }
}

impl Action {
    /// Whether this action activates a tab, absolutely or relatively.
    pub open spec fn spec_is_tab_activation(&self) -> bool {
        self@ is ActivateTab || self@ is ActivateTabRelative
    }

    /// Whether this action activates a tab, absolutely or relatively.
    pub fn is_tab_activation(&self) -> (r: bool)
        ensures
            r == self.spec_is_tab_activation(),
    {
        match self {
            Action::ActivateTab(_) | Action::ActivateTabRelative(_) => true,
            _ => false,
        }
    }
}

impl Action {
    /// A copy of this action.
    pub fn cloned(&self) -> (r: Action)
        ensures
            r@ == self@,
    {
        match self {
            Action::SpawnCommandInNewTab { domain_name } => Action::SpawnCommandInNewTab { domain_name: domain_name.clone() },
            Action::AttachDomain(n) => Action::AttachDomain(n.clone()),
            Action::ActivateTab(i) => Action::ActivateTab(*i),
            Action::ActivateTabRelative(i) => Action::ActivateTabRelative(*i),
            Action::Other(s) => Action::Other(s.clone()),
        }
    }
}

impl PartialEq for Action {
    fn eq(&self, o: &Action) -> (r: bool) {
        match (self, o) {
            (Action::SpawnCommandInNewTab { domain_name: a }, Action::SpawnCommandInNewTab { domain_name: b }) => *a == *b,
            (Action::AttachDomain(a), Action::AttachDomain(b)) => *a == *b,
            (Action::ActivateTab(a), Action::ActivateTab(b)) => *a == *b,
            (Action::ActivateTabRelative(a), Action::ActivateTabRelative(b)) => *a == *b,
            (Action::Other(a), Action::Other(b)) => *a == *b,
            _ => false,
        }
    }
}

impl vstd::std_specs::cmp::PartialEqSpecImpl for Action {
    open spec fn obeys_eq_spec() -> bool {
        true
    }

    open spec fn eq_spec(&self, o: &Action) -> bool {
        self@ == o@
    }
}

} // verus!
