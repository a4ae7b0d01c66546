//! The interactive session: the catalog, the filtered view, the cursor and
//! the scroll position, and the transition made for each command.
use vstd::prelude::*;
use crate::entry::LauncherEntry;
use crate::action::Action;
use crate::event::{Command, InputEvent, decode, command_of};
use crate::filter::{filter_entries, is_filtered_view};
use crate::catalog::LauncherArgs;

verus! {

/// Screen rows taken by the header and the footer.
pub const ROW_OVERHEAD: usize = 3;

/// How a transition ends.
#[derive(Clone, Copy, Debug, PartialEq, Eq, Structural)]
pub enum Outcome {
    /// The session goes on.
    Continue,
    /// Launch the entry at this row of the filtered view, then end.
    Launch(usize),
    /// End with no action.
    Cancel,
}

/// The state of one launcher session.
pub struct LauncherState {
    /// The cursor, a row of the filtered view.
    pub active_idx: usize,
    /// The number of rows below the top row that fit on screen.
    pub max_items: usize,
    /// The first row of the filtered view on screen.
    pub top_row: usize,
    /// The catalog.
    pub entries: Vec<LauncherEntry>,
    /// The filter text.
    pub filter_term: Vec<char>,
    /// The filtered view, as positions into `entries`.
    pub filtered: Vec<usize>,
    /// Whether the filter text is being typed.
    pub filtering: bool,
    /// Whether the session stays in filter mode when the text is empty.
    pub always_filtering: bool,
}

/// The cursor and scroll position fit a view of `len` rows with `vis` rows
/// below the top row: the cursor is on screen and on a row, and the top row
/// leaves no more empty space than needed.
pub open spec fn cursor_ok(active: int, top: int, vis: int, len: int) -> bool {
    &&& 0 <= top <= active <= top + vis
    &&& len > 0 ==> active < len
    &&& len == 0 ==> active == 0 && top == 0
    &&& top == 0 || top + vis <= len
}

/// Cursor and top row after a move down.
pub open spec fn down_spec(active: int, top: int, vis: int, len: int) -> (int, int) {
    let a = if active + 1 < len { active + 1 } else { active };
    (a, if a > top + vis { a - vis } else { top })
}

/// Cursor and top row after a move up.
pub open spec fn up_spec(active: int, top: int) -> (int, int) {
    let a = if active > 0 { active - 1 } else { 0 };
    (a, if a < top { a } else { top })
}

/// The largest top row: the view's length less the rows below the top row,
/// and never past the last row.
pub open spec fn max_top(vis: int, len: int) -> int {
    if len > vis { if vis > 0 { len - vis } else { len - 1 } } else { 0 }
}

/// The top row after one turn of the wheel.
pub open spec fn wheel_top(top: int, vis: int, len: int, up: bool) -> int {
    if up {
        if top > 0 { top - 1 } else { 0 }
    } else {
        let bound = max_top(vis, len);
        if top + 1 < bound { top + 1 } else { bound }
    }
}

/// The row of the filtered view that screen row `y` points at, if any.
pub open spec fn row_under(top: int, len: int, y: int) -> Option<int> {
    if 1 <= y && top + y - 1 < len {
        Some(top + y - 1)
    } else {
        None
    }
}

/// The row of the filtered view under screen row `y`, if any, within the
/// rows `top..=top + vis` that keep the cursor on screen.
pub open spec fn row_at(top: int, vis: int, len: int, y: int) -> Option<int> {
    if 1 <= y && y - 1 <= vis && top + y - 1 < len {
        Some(top + y - 1)
    } else {
        None
    }
}

/// `active`, moved into the rows `top..=top + vis`.
pub open spec fn clamp_into(active: int, top: int, vis: int) -> int {
    if active < top { top } else if active > top + vis { top + vis } else { active }
}

/// The rows below the top row for a screen of `rows` rows.
pub open spec fn visible_for(rows: int) -> int {
    if rows >= ROW_OVERHEAD { rows - ROW_OVERHEAD } else { 0 }
}

/// The top row after a resize to `vis` rows below it.
pub open spec fn resize_top(active: int, top: int, vis: int, len: int) -> int {
    let bound = if len > vis { len - vis } else { 0 };
    let t = if top <= bound { top } else { bound };
    if active > t + vis { active - vis } else { t }
}

/// Away from the last row, a move down followed by a move up puts the cursor
/// back where it was; away from the first row, so does a move up followed by
/// a move down.
pub proof fn lemma_down_up_inverse(active: int, top: int, vis: int, len: int)
    requires
        0 <= len,
        cursor_ok(active, top, vis, len),
    ensures
        active + 1 < len ==> ({
            let (a1, t1) = down_spec(active, top, vis, len);
            up_spec(a1, t1).0 == active
        }),
        active > 0 ==> ({
            let (a1, t1) = up_spec(active, top);
            down_spec(a1, t1, vis, len).0 == active
        }),
{
}

impl LauncherState {
    /// Number of rows in the filtered view.
    pub open spec fn len(&self) -> int {
        self.filtered@.len() as int
    }

    /// The state is consistent: the view is the filtered view of the catalog
    /// for the filter text, and the cursor fits it.
    pub open spec fn wf(&self) -> bool {
        &&& is_filtered_view(self.entries@, self.filter_term@, self.filtered@)
        &&& cursor_ok(self.active_idx as int, self.top_row as int, self.max_items as int, self.len())
    }

    /// Everything but the cursor and the top row is as in `o`.
    pub open spec fn same_but_cursor(&self, o: &LauncherState) -> bool {
        &&& self.entries == o.entries
        &&& self.filter_term == o.filter_term
        &&& self.filtered == o.filtered
        &&& self.filtering == o.filtering
        &&& self.always_filtering == o.always_filtering
        &&& self.max_items == o.max_items
    }

    /// The state is `o` with the view recomputed for the filter text `term`
    /// and the cursor back on the first row.
    pub open spec fn refiltered(&self, o: &LauncherState, term: Seq<char>, filtering: bool) -> bool {
        &&& self.entries == o.entries
        &&& self.filter_term@ == term
        &&& self.filtering == filtering
        &&& self.always_filtering == o.always_filtering
        &&& self.max_items == o.max_items
        &&& self.active_idx == 0
        &&& self.top_row == 0
    }

    /// What a transition on `cmd` from `s` leads to: the state `t` and the outcome `r`.
    pub open spec fn transition(s: LauncherState, cmd: Command, t: LauncherState, r: Outcome) -> bool {
        let a = s.active_idx as int;
        let top = s.top_row as int;
        let vis = s.max_items as int;
        let len = s.len();
        match cmd {
            Command::QuickSelect(off) => t == s && r == (if top + off < len {
                Outcome::Launch((top + off) as usize)
            } else {
                Outcome::Continue
            }),
            Command::MoveDown => t.same_but_cursor(&s) && r == Outcome::Continue
                && (t.active_idx as int, t.top_row as int) == down_spec(a, top, vis, len),
            Command::MoveUp => t.same_but_cursor(&s) && r == Outcome::Continue
                && (t.active_idx as int, t.top_row as int) == up_spec(a, top),
            Command::StartFilter => r == Outcome::Continue && t.entries == s.entries
                && t.filter_term == s.filter_term && t.filtered == s.filtered
                && t.always_filtering == s.always_filtering && t.max_items == s.max_items
                && t.active_idx == s.active_idx && t.top_row == s.top_row && t.filtering,
            Command::DeleteChar => r == Outcome::Continue && if s.filter_term@.len() == 0 {
                t.refiltered(&s, s.filter_term@, s.filtering && s.always_filtering)
            } else {
                t.refiltered(&s, s.filter_term@.drop_last(), s.filtering)
            },
            Command::Cancel => t == s && r == Outcome::Cancel,
            Command::AppendChar(c) => r == Outcome::Continue
                && t.refiltered(&s, s.filter_term@.push(c), s.filtering),
            Command::Wheel { y, up } => {
                let nt = wheel_top(top, vis, len, up);
                t.same_but_cursor(&s) && r == Outcome::Continue && t.top_row == nt
                    && t.active_idx as int == match row_at(nt, vis, len, y as int) {
                        Some(row) => row,
                        None => clamp_into(a, nt, vis),
                    }
            },
            Command::Pointer { y, buttons } => {
                let target = row_under(top, len, y as int);
                let row = row_at(top, vis, len, y as int);
                if target is Some && buttons.spec_is_left_only() {
                    let rw = target->0;
                    t.same_but_cursor(&s) && t.active_idx as int == rw
                        && t.top_row as int == (if rw > top + vis { rw - vis } else { top })
                        && r == Outcome::Launch(rw as usize)
                } else {
                    t.same_but_cursor(&s) && t.top_row == s.top_row
                        && t.active_idx as int == match row { Some(rw) => rw, None => a }
                        && r == (if !buttons.spec_is_none() { Outcome::Cancel } else { Outcome::Continue })
                }
            },
            Command::Launch => t == s && r == (if len > 0 {
                Outcome::Launch(s.active_idx)
            } else {
                Outcome::Continue
            }),
            Command::Resize(rows) => {
                let nv = visible_for(rows as int);
                r == Outcome::Continue && t.entries == s.entries && t.filter_term == s.filter_term
                    && t.filtered == s.filtered && t.filtering == s.filtering
                    && t.always_filtering == s.always_filtering
                    && t.max_items as int == nv && t.active_idx == s.active_idx
                    && t.top_row as int == resize_top(a, top, nv, len)
            },
            Command::Ignore => t == s && r == Outcome::Continue,
        }
    }

    /// A session over `entries` on a screen of `rows` rows; in filter mode
    /// from the start when `always_filtering` holds.
    pub fn from_entries(entries: Vec<LauncherEntry>, rows: usize, always_filtering: bool) -> (r: Self)
        ensures
            r.wf(),
            r.entries == entries,
            r.filter_term@.len() == 0,
            r.filtering == always_filtering,
            r.always_filtering == always_filtering,
            r.max_items as int == visible_for(rows as int),
            r.active_idx == 0,
            r.top_row == 0,
    {
        let mut s = LauncherState {
            active_idx: 0,
            max_items: if rows >= ROW_OVERHEAD { rows - ROW_OVERHEAD } else { 0 },
            top_row: 0,
            entries,
            filter_term: Vec::new(),
            filtered: Vec::new(),
            filtering: always_filtering,
            always_filtering,
        };
        s.update_filter();
        s
    }

    /// The session for the catalog of `args` on a screen of `rows` rows,
    /// in filter mode from the start when its flags ask for it.
    pub fn new(args: LauncherArgs, rows: usize) -> (r: Self)
        ensures
            r.wf(),
            r.entries@ == args.catalog_spec(),
            r.filter_term@.len() == 0,
            r.filtering == args.flags.fuzzy,
            r.always_filtering == args.flags.fuzzy,
            r.max_items as int == visible_for(rows as int),
            r.active_idx == 0,
            r.top_row == 0,
    {
        let fuzzy = args.flags.fuzzy;
        let entries = args.build_entries();
        LauncherState::from_entries(entries, rows, fuzzy)
    }

    /// Recomputes the filtered view for the filter text and puts the cursor
    /// on its first row.
    pub fn update_filter(&mut self)
        ensures
            final(self).wf(),
            final(self).refiltered(&*old(self), old(self).filter_term@, old(self).filtering),
            final(self).filter_term == old(self).filter_term,
    {
        self.filtered = filter_entries(&self.entries, &self.filter_term);
        self.active_idx = 0;
        self.top_row = 0;
    }

    /// The action of the entry at `row` of the filtered view.
    pub fn action_at(&self, row: usize) -> (r: &Action)
        requires
            self.wf(),
            row < self.len(),
        ensures
            *r == self.entries@[self.filtered@[row as int] as int].action,
    {
        proof {
            if self.filter_term@.len() == 0 {
                assert(self.filtered@[row as int] == row);
            }
        }
        &self.entries[self.filtered[row]].action
    }

    /// Moves the cursor down one row, stopping at the last, and scrolls so
    /// that it stays on screen.
    pub fn move_down(&mut self)
        requires
            old(self).wf(),
        ensures
            final(self).wf(),
            final(self).same_but_cursor(&*old(self)),
            (final(self).active_idx as int, final(self).top_row as int) == down_spec(
                old(self).active_idx as int,
                old(self).top_row as int,
                old(self).max_items as int,
                old(self).len(),
            ),
    {
        if self.active_idx < self.filtered.len() && self.filtered.len() - self.active_idx > 1 {
            self.active_idx = self.active_idx + 1;
        }
        if self.active_idx - self.top_row > self.max_items {
            self.top_row = self.active_idx - self.max_items;
        }
    }

    /// Moves the cursor up one row, stopping at the first, and scrolls so
    /// that it stays on screen.
    pub fn move_up(&mut self)
        requires
            old(self).wf(),
        ensures
            final(self).wf(),
            final(self).same_but_cursor(&*old(self)),
            (final(self).active_idx as int, final(self).top_row as int) == up_spec(
                old(self).active_idx as int,
                old(self).top_row as int,
            ),
    {
        if self.active_idx > 0 {
            self.active_idx = self.active_idx - 1;
        }
        if self.active_idx < self.top_row {
            self.top_row = self.active_idx;
        }
    }

    fn scroll_wheel(&mut self, y: u16, up: bool)
        requires
            old(self).wf(),
        ensures
            LauncherState::transition(*old(self), Command::Wheel { y, up }, *final(self), Outcome::Continue),
            final(self).wf(),
    {
        let len = self.filtered.len();
        let vis = self.max_items;
        if up {
            if self.top_row > 0 {
                self.top_row = self.top_row - 1;
            }
        } else {
            let bound: usize = if len > vis { if vis > 0 { len - vis } else { len - 1 } } else { 0 };
            self.top_row = if self.top_row < bound && bound - self.top_row > 1 { self.top_row + 1 } else { bound };
        }
        let top = self.top_row;
        let yy = y as usize;
        if 1 <= yy && yy - 1 <= vis && top < len && yy - 1 < len - top {
            self.active_idx = top + yy - 1;
        } else if self.active_idx < top {
            self.active_idx = top;
        } else if self.active_idx - top > vis {
            self.active_idx = top + vis;
        }
    }

    fn pointer(&mut self, y: u16, buttons: crate::event::MouseButtons) -> (r: Outcome)
        requires
            old(self).wf(),
        ensures
            LauncherState::transition(*old(self), Command::Pointer { y, buttons }, *final(self), r),
            final(self).wf(),
    {
        let len = self.filtered.len();
        let vis = self.max_items;
        let top = self.top_row;
        let yy = y as usize;
        let points_at_row = 1 <= yy && top < len && yy - 1 < len - top;
        if points_at_row && buttons.is_left_only() {
            let row = top + yy - 1;
            self.active_idx = row;
            if row - top > vis {
                self.top_row = row - vis;
            }
            return Outcome::Launch(row);
        }
        if points_at_row && yy - 1 <= vis {
            self.active_idx = top + yy - 1;
        }
        if !buttons.is_none() {
            Outcome::Cancel
        } else {
            Outcome::Continue
        }
    }

    fn resize(&mut self, rows: usize)
        requires
            old(self).wf(),
        ensures
            LauncherState::transition(*old(self), Command::Resize(rows), *final(self), Outcome::Continue),
            final(self).wf(),
    {
        let len = self.filtered.len();
        let vis: usize = if rows >= ROW_OVERHEAD { rows - ROW_OVERHEAD } else { 0 };
        self.max_items = vis;
        let bound: usize = if len > vis { len - vis } else { 0 };
        if self.top_row > bound {
            self.top_row = bound;
        }
        if self.active_idx - self.top_row > vis {
            self.top_row = self.active_idx - vis;
        }
    }

    fn delete_char(&mut self)
        requires
            old(self).wf(),
        ensures
            LauncherState::transition(*old(self), Command::DeleteChar, *final(self), Outcome::Continue),
            final(self).wf(),
    {
        match self.filter_term.pop() {
            Some(_) => {},
            None => {
                if !self.always_filtering {
                    self.filtering = false;
                }
            },
        }
        self.update_filter();
    }

    /// Carries out `cmd`.
    pub fn apply(&mut self, cmd: Command) -> (r: Outcome)
        requires
            old(self).wf(),
        ensures
            final(self).wf(),
            LauncherState::transition(*old(self), cmd, *final(self), r),
    {
        match cmd {
            Command::QuickSelect(off) => {
                if off < self.filtered.len() && self.top_row < self.filtered.len() - off {
                    Outcome::Launch(self.top_row + off)
                } else {
                    Outcome::Continue
                }
            },
            Command::MoveDown => {
                self.move_down();
                Outcome::Continue
            },
            Command::MoveUp => {
                self.move_up();
                Outcome::Continue
            },
            Command::StartFilter => {
                self.filtering = true;
                Outcome::Continue
            },
            Command::DeleteChar => {
                self.delete_char();
                Outcome::Continue
            },
            Command::Cancel => Outcome::Cancel,
            Command::AppendChar(c) => {
                self.filter_term.push(c);
                self.update_filter();
                Outcome::Continue
            },
            Command::Wheel { y, up } => {
                self.scroll_wheel(y, up);
                Outcome::Continue
            },
            Command::Pointer { y, buttons } => self.pointer(y, buttons),
            Command::Launch => {
                if self.filtered.len() > 0 {
                    Outcome::Launch(self.active_idx)
                } else {
                    Outcome::Continue
                }
            },
            Command::Resize(rows) => {
                self.resize(rows);
                Outcome::Continue
            },
            Command::Ignore => Outcome::Continue,
        }
    }

    /// Carries out what `ev` means in the current mode.
    pub fn handle_event(&mut self, ev: &InputEvent) -> (r: Outcome)
        requires
            old(self).wf(),
        ensures
            final(self).wf(),
            LauncherState::transition(*old(self), command_of(*ev, old(self).filtering), *final(self), r),
    {
        let cmd = decode(ev, self.filtering);
        self.apply(cmd)
    }
}

} // verus!
