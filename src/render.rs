//! The content of one frame: the header line and the visible rows.
use vstd::prelude::*;
use crate::state::LauncherState;
use crate::text::{chars_of, push_all};

verus! {

/// Columns kept free at the right edge.
pub const WIDTH_MARGIN: usize = 6;

/// One visible row.
pub struct FrameRow {
    /// Position of the entry in the catalog.
    pub entry: usize,
    /// The entry's label, cut to the frame width.
    pub label: Vec<char>,
    /// The quick-select digit shown before the row, if any.
    pub quick_select: Option<usize>,
    /// Whether the row is the cursor row, drawn in reverse video.
    pub active: bool,
}

/// A frame: clear, header line at the origin, then one line per row.
pub struct Frame {
    /// The header line, cut to `width`.
    pub header: Vec<char>,
    pub rows: Vec<FrameRow>,
    /// The width that text is cut to.
    pub width: usize,
}

/// The first `w` characters of `s`, or all of them.
pub open spec fn truncated(s: Seq<char>, w: nat) -> Seq<char> {
    if s.len() <= w { s } else { s.subrange(0, w as int) }
}

/// The header text: the filter text while filtering or when it is not
/// empty, else the instructions.
pub open spec fn header_text(s: LauncherState) -> Seq<char> {
    if s.filtering || s.filter_term@.len() > 0 {
        "Fuzzy matching: "@ + s.filter_term@
    } else {
        "Select an item and press Enter=launch  Esc=cancel  /=filter"@
    }
}

/// The number of rows shown: from the top row, at most `max_items + 1`.
pub open spec fn shown_rows(s: LauncherState) -> int {
    let left = s.len() - s.top_row;
    if left <= s.max_items + 1 { left } else { s.max_items + 1 }
}

/// `row` is the `k`-th visible row of `s` in a frame of width `w`.
pub open spec fn is_frame_row(s: LauncherState, w: nat, k: int, row: FrameRow) -> bool {
    let pos = s.top_row + k;
    &&& row.entry == s.filtered@[pos]
    &&& row.label@ == truncated(s.entries@[row.entry as int].label@, w)
    &&& row.quick_select == (if k < 9 && !s.filtering { Some((k + 1) as usize) } else { None })
    &&& row.active == (pos == s.active_idx)
}

fn truncate(s: &Vec<char>, w: usize) -> (r: Vec<char>)
    ensures
        r@ == truncated(s@, w as nat),
{
    let mut r: Vec<char> = Vec::new();
    let mut i: usize = 0;
    while i < s.len() && i < w
        invariant
            i <= s@.len(),
            i <= w,
            r@ == s@.subrange(0, i as int),
        decreases s@.len() - i,
    {
        r.push(s[i]);
        i = i + 1;
        assert(r@ =~= s@.subrange(0, i as int));
    }
    assert(s@.len() <= w ==> s@.subrange(0, s@.len() as int) =~= s@);
    r
}

impl LauncherState {
    /// The frame for a screen `cols` columns wide.
    pub fn render(&self, cols: usize) -> (r: Frame)
        requires
            self.wf(),
        ensures
            r.width as int == (if cols >= WIDTH_MARGIN { cols - WIDTH_MARGIN } else { 0 }),
            r.header@ == truncated(header_text(*self), r.width as nat),
            r.rows@.len() == shown_rows(*self),
            forall|k: int| 0 <= k < r.rows@.len() ==> is_frame_row(*self, r.width as nat, k, #[trigger] r.rows@[k]),
    {
        let width: usize = if cols >= WIDTH_MARGIN { cols - WIDTH_MARGIN } else { 0 };
        let mut header = if self.filtering || self.filter_term.len() > 0 {
            let mut h = chars_of("Fuzzy matching: ");
            push_all(&mut h, &self.filter_term);
            h
        } else {
            chars_of("Select an item and press Enter=launch  Esc=cancel  /=filter")
        };
        header = truncate(&header, width);
        let mut rows: Vec<FrameRow> = Vec::new();
        let mut k: usize = 0;
        let len = self.filtered.len();
        while k <= self.max_items && self.top_row < len && k < len - self.top_row
            invariant
                self.wf(),
                len == self.len(),
                self.top_row <= len || len == 0,
                k <= shown_rows(*self),
                rows@.len() == k,
                forall|t: int| 0 <= t < k ==> is_frame_row(*self, width as nat, t, #[trigger] rows@[t]),
            decreases len - k,
        {
            let pos = self.top_row + k;
            let entry = self.filtered[pos];
            proof {
                if self.filter_term@.len() == 0 {
                    assert(self.filtered@[pos as int] == pos);
                }
            }
            let label = crate::text::chars_of(self.entries[entry].label.as_str());
            let quick_select = if k < 9 && !self.filtering { Some(k + 1) } else { None };
            rows.push(FrameRow {
                entry,
                label: truncate(&label, width),
                quick_select,
                active: pos == self.active_idx,
            });
            k = k + 1;
        }
        Frame { header, rows, width }
    }
}

} // verus!
