//! Frame-at-T: replaying a prefix of a recording's events through the
//! virtual terminal and snapshotting the visible screen.
use vstd::prelude::*;

use crate::cast::{CodeView, Event, EventCode};
use crate::terminal::{
    cursor_after, feed_output, grid_after, grid_matches_size, grid_well_formed, new_terminal,
    blank_cell, blank_grid, row_well_formed, screen_history, tracks_history, TermHistory, TermOp, resize_terminal, screen_cells, screen_cursor,
    screen_size, terminal_cursor, terminal_size, view_cell_attrs, view_cell_colors, view_row_count,
    view_cell_glyph, view_row_len,
};
use crate::text::{
    chars_of, find_in, first_index, parse_unsigned, push_char, trim, trim_range, unsigned_text,
};

verus! {

/// A terminal colour: a 256-colour palette index or a 24-bit RGB triple.
#[derive(Clone, Copy, Debug, PartialEq, Eq)]
pub enum Color {
    Indexed(u8),
    Rgb(u8, u8, u8),
}

/// The visual style of a cell: colours and text attributes.
#[derive(Clone, Copy, Debug, PartialEq, Eq)]
pub struct Style {
    pub foreground: Option<Color>,
    pub background: Option<Color>,
    pub bold: bool,
    pub faint: bool,
    pub italic: bool,
    pub underline: bool,
    pub strikethrough: bool,
    pub blink: bool,
    pub inverse: bool,
}

impl Default for Style {
    fn default() -> (s: Style)
        ensures
            s.foreground is None,
            s.background is None,
            !s.bold && !s.faint && !s.italic && !s.underline,
            !s.strikethrough && !s.blink && !s.inverse,
    {
        Style {
            foreground: None,
            background: None,
            bold: false,
            faint: false,
            italic: false,
            underline: false,
            strikethrough: false,
            blink: false,
            inverse: false,
        }
    }
}

/// One grid cell: its character, display width (1, or 2 for the head of a
/// wide character) and style.
#[derive(Clone, Copy, Debug, PartialEq, Eq)]
pub struct Cell {
    pub ch: char,
    pub width: u8,
    pub style: Style,
}

/// The cursor's 0-based column and row and its visibility.
#[derive(Clone, Copy, Debug, PartialEq, Eq)]
pub struct Cursor {
    pub col: u16,
    pub row: u16,
    pub visible: bool,
}

/// An owned snapshot of the visible screen.
#[derive(Clone, Debug, PartialEq, Eq)]
pub struct Frame {
    width: u16,
    height: u16,
    rows: Vec<String>,
    cells: Vec<Vec<Cell>>,
    cursor: Cursor,
    marker: Option<String>,
}

/// `value` saturated to the `u16` range.
pub open spec fn clamp16(value: nat) -> u16 {
    if value > u16::MAX {
        u16::MAX
    } else {
        value as u16
    }
}

/// Widens a small terminal coordinate to `u16`, saturating.
pub fn clamp_u16(value: usize) -> (r: u16)
    ensures
        r == clamp16(value as nat),
{
    if value > 0xffff {
        0xffff
    } else {
        value as u16
    }
}

/// The cells of a grid row that are drawn: wide-character tails (width 0)
/// are left out.
pub open spec fn drawn_cells(row: Seq<Cell>) -> Seq<Cell>
    decreases row.len(),
{
    if row.len() == 0 {
        Seq::empty()
    } else if row.last().width != 0 {
        drawn_cells(row.drop_last()).push(row.last())
    } else {
        drawn_cells(row.drop_last())
    }
}

/// The display columns `cells` occupy.
pub open spec fn used_columns(cells: Seq<Cell>) -> nat
    decreases cells.len(),
{
    if cells.len() == 0 {
        0
    } else {
        used_columns(cells.drop_last()) + cells.last().width as nat
    }
}

/// The characters of `cells`, in order.
pub open spec fn cell_chars(cells: Seq<Cell>) -> Seq<char> {
    cells.map_values(|c: Cell| c.ch)
}

/// `n` spaces.
pub open spec fn spaces(n: nat) -> Seq<char> {
    Seq::new(n, |i: int| ' ')
}

/// The text of a row of drawn cells on a screen `cols` wide: the cells'
/// characters, padded with spaces to `cols` display columns when short.
pub open spec fn row_text(cells: Seq<Cell>, cols: nat) -> Seq<char> {
    let used = used_columns(cells);
    cell_chars(cells) + if used < cols {
        spaces((cols - used) as nat)
    } else {
        Seq::empty()
    }
}

/// The mathematical content of a frame.
pub struct FrameView {
    pub width: u16,
    pub height: u16,
    pub rows: Seq<Seq<char>>,
    pub cells: Seq<Seq<Cell>>,
    pub cursor: Cursor,
    pub marker: Option<Seq<char>>,
}

impl View for Frame {
    type V = FrameView;

    closed spec fn view(&self) -> FrameView {
        FrameView {
            width: self.width,
            height: self.height,
            rows: self.rows@.map_values(|s: String| s@),
            cells: self.cells@.map_values(|v: Vec<Cell>| v@),
            cursor: self.cursor,
            marker: match self.marker {
                Some(s) => Some(s@),
                None => None,
            },
        }
    }
}

impl FrameView {
    /// Whether the text and cell views describe the same screen: as many
    /// text rows as cell rows, each text row the characters of its cells
    /// padded with spaces to the frame's width.
    pub open spec fn consistent(&self) -> bool {
        &&& self.rows.len() == self.cells.len()
        &&& forall|r: int|
            0 <= r < self.rows.len() ==> #[trigger] self.rows[r] == row_text(
                self.cells[r],
                self.width as nat,
            )
    }
}

impl Frame {
    /// The visible grid as one space-padded string per row.
    pub fn text(&self) -> (r: &[String])
        ensures
            r@.map_values(|s: String| s@) == self@.rows,
    {
        self.rows.as_slice()
    }

    /// The visible grid as drawn cells, row by row.
    pub fn cells(&self) -> (r: &[Vec<Cell>])
        ensures
            r@.map_values(|v: Vec<Cell>| v@) == self@.cells,
    {
        self.cells.as_slice()
    }

    /// The effective width in columns.
    pub fn width(&self) -> (r: u16)
        ensures
            r == self@.width,
    {
        self.width
    }

    /// The effective height in rows.
    pub fn height(&self) -> (r: u16)
        ensures
            r == self@.height,
    {
        self.height
    }

    /// The cursor position and visibility.
    pub fn cursor(&self) -> (r: Cursor)
        ensures
            r == self@.cursor,
    {
        self.cursor
    }

    /// The most recent marker label at or before the frame's time.
    pub fn marker(&self) -> (r: Option<&str>)
        ensures
            match r {
                Some(s) => self@.marker == Some(s@),
                None => self@.marker is None,
            },
    {
        match &self.marker {
            Some(s) => Some(s.as_str()),
            None => None,
        }
    }
}

/// The `(columns, rows)` of a resize payload `"<cols>x<rows>"`: split at the
/// first `x`, each side trimmed and read as a `u16`; `None` when either side
/// does not read or is zero.
pub open spec fn resize_dims(data: Seq<char>) -> Option<(nat, nat)> {
    match first_index(data, 'x') {
        None => None,
        Some(i) => {
            let c = unsigned_text(trim(data.subrange(0, i)));
            let r = unsigned_text(trim(data.subrange(i + 1, data.len() as int)));
            match (c, r) {
                (Some(c), Some(r)) => if 1 <= c <= 0xffff && 1 <= r <= 0xffff {
                    Some((c, r))
                } else {
                    None
                },
                _ => None,
            }
        },
    }
}

/// Parses a resize payload into non-zero `(columns, rows)`.
pub fn parse_resize(data: &str) -> (r: Option<(usize, usize)>)
    ensures
        match resize_dims(data@) {
            Some((c, w)) => r == Some((c as usize, w as usize)),
            None => r is None,
        },
{
    let v = chars_of(data);
    let n = v.len();
    assert(v@.subrange(0, n as int) =~= v@);
    let i = match find_in(&v, 0, n, 'x') {
        Some(i) => i,
        None => {
            return None;
        },
    };
    let (a, b) = trim_range(&v, 0, i);
    let cols = parse_unsigned(&v, a, b, 0xffff);
    let (c, d) = trim_range(&v, i + 1, n);
    let rows = parse_unsigned(&v, c, d, 0xffff);
    match (cols, rows) {
        (Some(x), Some(y)) => {
            if x == 0 || y == 0 {
                None
            } else {
                Some((x as usize, y as usize))
            }
        },
        _ => None,
    }
}

/// The larger of `v` and 1.
pub open spec fn at_least_one(v: u16) -> nat {
    if v == 0 {
        1
    } else {
        v as nat
    }
}

/// An event as the replay sees it: its code and payload.
pub open spec fn event_views(events: Seq<Event>) -> Seq<(CodeView, Seq<char>)> {
    events.map_values(|e: Event| (e.code@, e.data@))
}

/// Whether a resize to `cols` columns is taken on a terminal `cur` columns
/// wide: any resize to two or more columns, and a resize to one column only
/// when the terminal is one column wide already. Narrowing to a single
/// column is skipped (the terminal cannot split a wide character there).
pub open spec fn resize_applies(cur: nat, cols: nat) -> bool {
    cols >= 2 || cols == cur
}

/// The terminal dimensions after replaying `evs` over a header of `width` x
/// `height`: the header's, each raised to at least 1, replaced by every
/// resize whose payload reads and that is taken.
pub open spec fn replay_dims(width: u16, height: u16, evs: Seq<(CodeView, Seq<char>)>) -> (
    nat,
    nat,
)
    decreases evs.len(),
{
    if evs.len() == 0 {
        (at_least_one(width), at_least_one(height))
    } else {
        let prev = replay_dims(width, height, evs.drop_last());
        let (code, data) = evs.last();
        match code {
            CodeView::Resize => match resize_dims(data) {
                Some(d) => if resize_applies(prev.0, d.0) {
                    d
                } else {
                    prev
                },
                None => prev,
            },
            _ => prev,
        }
    }
}

/// The terminal operations a list of events makes over a `width` x
/// `height` header: each output payload is fed, each resize whose payload
/// reads and that is taken resizes, everything else (markers, input,
/// unknown codes, skipped resizes) makes none.
pub open spec fn replay_ops(width: u16, height: u16, evs: Seq<(CodeView, Seq<char>)>) -> Seq<TermOp>
    decreases evs.len(),
{
    if evs.len() == 0 {
        Seq::empty()
    } else {
        let prev = replay_ops(width, height, evs.drop_last());
        let cur = replay_dims(width, height, evs.drop_last());
        let (code, data) = evs.last();
        match code {
            CodeView::Output => prev.push(TermOp::Feed(data)),
            CodeView::Resize => match resize_dims(data) {
                Some((c, r)) => if resize_applies(cur.0, c) {
                    prev.push(TermOp::Resize(c, r))
                } else {
                    prev
                },
                None => prev,
            },
            _ => prev,
        }
    }
}

/// The label of the last marker among `evs`.
pub open spec fn replay_marker(evs: Seq<(CodeView, Seq<char>)>) -> Option<Seq<char>>
    decreases evs.len(),
{
    if evs.len() == 0 {
        None
    } else {
        match evs.last().0 {
            CodeView::Marker => Some(evs.last().1),
            _ => replay_marker(evs.drop_last()),
        }
    }
}

/// The frame a replay of `evs` over a `width` x `height` header shows: the
/// grid `avt` holds after the events' operations on a fresh terminal of the
/// header's size (each raised to at least 1), each row's drawn cells and
/// their text padded to the width, the cursor, and the last marker.
pub open spec fn replay_view(width: u16, height: u16, evs: Seq<(CodeView, Seq<char>)>) -> FrameView {
    let dims = replay_dims(width, height, evs);
    let grid = grid_after(at_least_one(width), at_least_one(height), replay_ops(width, height, evs));
    let cur = cursor_after(at_least_one(width), at_least_one(height), replay_ops(width, height, evs));
    FrameView {
        width: clamp16(dims.0),
        height: clamp16(dims.1),
        rows: grid.map_values(|row: Seq<Cell>| row_text(drawn_cells(row), dims.0)),
        cells: grid.map_values(|row: Seq<Cell>| drawn_cells(row)),
        cursor: Cursor { col: clamp16(cur.0 as nat), row: clamp16(cur.1 as nat), visible: cur.2 },
        marker: replay_marker(evs),
    }
}

/// The active marker is the last marker's label: a marker event sets it to
/// its own label, and any other event leaves it as it was.
pub proof fn lemma_marker_is_last_marker(
    evs: Seq<(CodeView, Seq<char>)>,
    code: CodeView,
    data: Seq<char>,
)
    ensures
        code is Marker ==> replay_marker(evs.push((code, data))) == Some(data),
        !(code is Marker) ==> replay_marker(evs.push((code, data))) == replay_marker(evs),
        replay_marker(Seq::<(CodeView, Seq<char>)>::empty()) is None,
{
    assert(evs.push((code, data)).drop_last() =~= evs);
}

/// Replay dimensions are never zero and always fit a `u16`.
pub proof fn lemma_dims_bounded(width: u16, height: u16, evs: Seq<(CodeView, Seq<char>)>)
    ensures
        1 <= replay_dims(width, height, evs).0 <= 0xffff,
        1 <= replay_dims(width, height, evs).1 <= 0xffff,
    decreases evs.len(),
{
    if evs.len() > 0 {
        lemma_dims_bounded(width, height, evs.drop_last());
    }
}

/// The frame depends only on the header and the events replayed: two
/// replays over the same header and the same replayed events show the same
/// frame.
pub proof fn lemma_replay_depends_on_prefix(
    width: u16,
    height: u16,
    a: Seq<Event>,
    na: int,
    b: Seq<Event>,
    nb: int,
)
    requires
        event_views(a).take(na) == event_views(b).take(nb),
    ensures
        replay_view(width, height, event_views(a).take(na)) == replay_view(
            width,
            height,
            event_views(b).take(nb),
        ),
{
}

/// The display columns of the cells in `s`, tails included (they add 0).
pub open spec fn width_sum(s: Seq<Cell>) -> nat
    decreases s.len(),
{
    if s.len() == 0 {
        0
    } else {
        width_sum(s.drop_last()) + s.last().width as nat
    }
}

proof fn lemma_drawn_width(s: Seq<Cell>)
    ensures
        used_columns(drawn_cells(s)) == width_sum(s),
        forall|k: int|
            0 <= k < drawn_cells(s).len() ==> exists|j: int|
                0 <= j < s.len() && #[trigger] drawn_cells(s)[k] == s[j] && s[j].width != 0,
    decreases s.len(),
{
    if s.len() > 0 {
        lemma_drawn_width(s.drop_last());
        let d = drawn_cells(s.drop_last());
        if s.last().width != 0 {
            assert(d.push(s.last()).drop_last() =~= d);
            assert forall|k: int| 0 <= k < drawn_cells(s).len() implies exists|j: int|
                0 <= j < s.len() && #[trigger] drawn_cells(s)[k] == s[j] && s[j].width != 0 by {
                if k < d.len() {
                    let j = choose|j: int|
                        0 <= j < s.drop_last().len() && #[trigger] d[k] == s.drop_last()[j]
                            && s.drop_last()[j].width != 0;
                    assert(drawn_cells(s)[k] == s[j]);
                } else {
                    assert(drawn_cells(s)[k] == s[s.len() - 1]);
                }
            }
        } else {
            assert forall|k: int| 0 <= k < drawn_cells(s).len() implies exists|j: int|
                0 <= j < s.len() && #[trigger] drawn_cells(s)[k] == s[j] && s[j].width != 0 by {
                let j = choose|j: int|
                    0 <= j < s.drop_last().len() && #[trigger] d[k] == s.drop_last()[j]
                        && s.drop_last()[j].width != 0;
                assert(drawn_cells(s)[k] == s[j]);
            }
        }
    }
}

proof fn lemma_prefix_width(row: Seq<Cell>, k: int)
    requires
        row_well_formed(row, row.len()),
        0 <= k <= row.len(),
    ensures
        width_sum(row.take(k)) == k + if k > 0 && row[k - 1].width == 2 {
            1int
        } else {
            0int
        },
    decreases k,
{
    if k > 0 {
        lemma_prefix_width(row, k - 1);
        assert(row.take(k).drop_last() =~= row.take(k - 1));
        let w = row[k - 1].width;
        assert(w <= 2);
        if k >= 2 && row[k - 2].width == 2 {
            assert(row[k - 1].width == 0);
        }
        if w == 0 {
            assert(k - 1 > 0 && row[k - 2].width == 2);
        }
    }
}

/// A well-formed row's drawn cells are each 1 or 2 columns wide and fill
/// exactly the row's width.
pub proof fn lemma_row_fills_width(row: Seq<Cell>, cols: nat)
    requires
        row_well_formed(row, cols),
    ensures
        used_columns(drawn_cells(row)) == cols,
        forall|k: int|
            0 <= k < drawn_cells(row).len() ==> 1 <= (#[trigger] drawn_cells(row)[k]).width <= 2,
{
    lemma_drawn_width(row);
    lemma_prefix_width(row, row.len() as int);
    assert(row.take(row.len() as int) =~= row);
    if row.len() > 0 && row[row.len() - 1].width == 2 {
        assert(false);
    }
    assert forall|k: int| 0 <= k < drawn_cells(row).len() implies 1 <= (
    #[trigger] drawn_cells(row)[k]).width <= 2 by {
        let j = choose|j: int|
            0 <= j < row.len() && #[trigger] drawn_cells(row)[k] == row[j] && row[j].width != 0;
        assert(row[j].width <= 2);
    }
}

proof fn lemma_drawn_push(row: Seq<Cell>, k: int)
    requires
        0 <= k < row.len(),
    ensures
        drawn_cells(row.take(k + 1)) == if row[k].width != 0 {
            drawn_cells(row.take(k)).push(row[k])
        } else {
            drawn_cells(row.take(k))
        },
{
    assert(row.take(k + 1).drop_last() =~= row.take(k));
}

/// Snapshots the visible screen of `vt` into a frame: for each visible row,
/// its drawn cells and its text padded to the terminal width.
pub fn snapshot(vt: &avt::Vt, marker: Option<String>) -> (f: Frame)
    ensures
        f@.width == clamp16(screen_size(*vt).0),
        f@.height == clamp16(screen_size(*vt).1),
        f@.cells.len() == screen_cells(*vt).len(),
        f@.rows.len() == screen_cells(*vt).len(),
        forall|r: int|
            0 <= r < f@.cells.len() ==> #[trigger] f@.cells[r] == drawn_cells(
                screen_cells(*vt)[r],
            ),
        forall|r: int|
            0 <= r < f@.rows.len() ==> #[trigger] f@.rows[r] == row_text(
                f@.cells[r],
                screen_size(*vt).0,
            ),
        f@.cursor == (Cursor {
            col: clamp16(screen_cursor(*vt).0 as nat),
            row: clamp16(screen_cursor(*vt).1 as nat),
            visible: screen_cursor(*vt).2,
        }),
        f@.marker == match marker {
            Some(s) => Some(s@),
            None => None::<Seq<char>>,
        },
{
    let (cols, rows_n) = terminal_size(vt);
    let count = view_row_count(vt);
    let ghost grid = screen_cells(*vt);
    let mut rows: Vec<String> = Vec::new();
    let mut cells: Vec<Vec<Cell>> = Vec::new();
    let mut r: usize = 0;
    while r < count
        invariant
            count == grid.len(),
            grid == screen_cells(*vt),
            cols == screen_size(*vt).0,
            r <= count,
            rows@.len() == r,
            cells@.len() == r,
            forall|k: int| 0 <= k < r ==> #[trigger] cells@[k]@ == drawn_cells(grid[k]),
            forall|k: int|
                0 <= k < r ==> #[trigger] rows@[k]@ == row_text(cells@[k]@, cols as nat),
        decreases count - r,
    {
        let len = view_row_len(vt, r);
        let mut text = String::new();
        let mut row_cells: Vec<Cell> = Vec::new();
        let mut used: u128 = 0;
        let mut c: usize = 0;
        assert(grid[r as int].take(0) =~= Seq::<Cell>::empty());
        while c < len
            invariant
                grid == screen_cells(*vt),
                r < grid.len(),
                len == grid[r as int].len(),
                c <= len,
                row_cells@ == drawn_cells(grid[r as int].take(c as int)),
                text@ == cell_chars(row_cells@),
                used == used_columns(row_cells@),
                used <= 2 * c,
            decreases len - c,
        {
            let (ch, w) = view_cell_glyph(vt, r, c);
            proof {
                lemma_drawn_push(grid[r as int], c as int);
            }
            if w != 0 {
                let attrs = view_cell_attrs(vt, r, c);
                let (fg, bg) = view_cell_colors(vt, r, c);
                let cell = Cell { ch, width: w, style: Style { foreground: fg, background: bg, ..attrs } };
                assert(cell == grid[r as int][c as int]);
                let ghost before = row_cells@;
                push_char(&mut text, ch);
                row_cells.push(cell);
                assert(row_cells@.drop_last() == before);
                assert(cell_chars(row_cells@) =~= cell_chars(before).push(ch));
                used = used + w as u128;
            }
            c = c + 1;
        }
        assert(grid[r as int].take(len as int) =~= grid[r as int]);
        let ghost body = text@;
        if used < cols as u128 {
            let gap = cols - used as usize;
            let mut pad: usize = 0;
            while pad < gap
                invariant
                    pad <= gap,
                    text@ == body + spaces(pad as nat),
                decreases gap - pad,
            {
                push_char(&mut text, ' ');
                assert(spaces((pad + 1) as nat) =~= spaces(pad as nat).push(' '));
                pad = pad + 1;
            }
        } else {
            assert(body + Seq::<char>::empty() =~= body);
        }
        rows.push(text);
        cells.push(row_cells);
        r = r + 1;
    }
    let (ccol, crow, cvis) = terminal_cursor(vt);
    let cursor = Cursor { col: clamp_u16(ccol), row: clamp_u16(crow), visible: cvis };
    let f = Frame {
        width: clamp_u16(cols),
        height: clamp_u16(rows_n),
        rows,
        cells,
        cursor,
        marker,
    };
    assert(f@.cells.len() == count);
    f
}

proof fn lemma_no_ops_dims(width: u16, height: u16, evs: Seq<(CodeView, Seq<char>)>)
    requires
        replay_ops(width, height, evs).len() == 0,
    ensures
        replay_dims(width, height, evs) == (at_least_one(width), at_least_one(height)),
    decreases evs.len(),
{
    if evs.len() > 0 {
        let prev = replay_ops(width, height, evs.drop_last());
        let cur = replay_dims(width, height, evs.drop_last());
        match evs.last().0 {
            CodeView::Output => {
                assert(replay_ops(width, height, evs).len() == prev.len() + 1);
            },
            CodeView::Resize => {
                match resize_dims(evs.last().1) {
                    Some(d) => {
                        if resize_applies(cur.0, d.0) {
                            assert(replay_ops(width, height, evs).len() == prev.len() + 1);
                        }
                    },
                    None => {},
                }
            },
            _ => {},
        }
        lemma_no_ops_dims(width, height, evs.drop_last());
    }
}

proof fn lemma_all_drawn(s: Seq<Cell>)
    requires
        forall|i: int| 0 <= i < s.len() ==> #[trigger] s[i].width != 0,
    ensures
        drawn_cells(s) == s,
    decreases s.len(),
{
    if s.len() > 0 {
        lemma_all_drawn(s.drop_last());
        assert(s.drop_last().push(s.last()) =~= s);
    }
}

proof fn lemma_blank_row_text(cols: nat)
    ensures
        row_text(drawn_cells(Seq::new(cols, |c: int| blank_cell())), cols) == spaces(cols),
{
    let row = Seq::new(cols, |c: int| blank_cell());
    lemma_all_drawn(row);
    assert(row_well_formed(row, cols));
    lemma_row_fills_width(row, cols);
    assert(cell_chars(row) =~= spaces(cols));
    assert(cell_chars(row) + Seq::<char>::empty() =~= spaces(cols));
}

/// Replays the first `upto` events over a fresh terminal of the header's
/// dimensions (each raised to at least 1) and snapshots the screen: output
/// is fed to the terminal, a resize whose payload reads changes the
/// dimensions unless it would narrow the terminal to a single column (then
/// it is skipped, so a hostile recording cannot make the replay panic),
/// markers are remembered and never fed, other codes are
/// skipped. The frame is the replay view of those events: its grid is the
/// one `avt` holds after exactly their operations, every row's drawn cells
/// are 1 or 2 columns wide and fill exactly the frame's width, and the text
/// rows are those cells' characters.
pub fn replay_frame(width: u16, height: u16, events: &Vec<Event>, upto: usize) -> (f: Frame)
    requires
        upto <= events@.len(),
    ensures
        f@ == replay_view(width, height, event_views(events@).take(upto as int)),
        f@.width >= 1,
        f@.height >= 1,
        f@.rows.len() == f@.height,
        f@.consistent(),
        forall|r: int|
            0 <= r < f@.cells.len() ==> used_columns(#[trigger] f@.cells[r]) == f@.width,
        forall|r: int, k: int|
            0 <= r < f@.cells.len() && 0 <= k < f@.cells[r].len() ==> 1 <= (
            #[trigger] f@.cells[r][k]).width <= 2,
        f@.rows.len() == f@.cells.len(),
        replay_ops(width, height, event_views(events@).take(upto as int)).len() == 0 ==> forall|r: int|
            0 <= r < f@.rows.len() ==> #[trigger] f@.rows[r] == spaces(f@.width as nat),
{
    let seed_cols: usize = if width == 0 {
        1
    } else {
        width as usize
    };
    let seed_rows: usize = if height == 0 {
        1
    } else {
        height as usize
    };
    let ghost evs = event_views(events@);
    let mut vt = new_terminal(seed_cols, seed_rows);
    assert(grid_after(seed_cols as nat, seed_rows as nat, Seq::empty()) == blank_grid(
        seed_cols as nat,
        seed_rows as nat,
    ));
    let mut marker: Option<String> = None;
    let mut k: usize = 0;
    assert(evs.take(0) =~= Seq::<(CodeView, Seq<char>)>::empty());
    while k < upto
        invariant
            upto <= events@.len(),
            evs == event_views(events@),
            k <= upto,
            seed_cols == at_least_one(width),
            seed_rows == at_least_one(height),
            grid_matches_size(vt),
            grid_well_formed(vt),
            tracks_history(vt),
            screen_history(vt) == (TermHistory {
                cols: seed_cols as nat,
                rows: seed_rows as nat,
                ops: replay_ops(width, height, evs.take(k as int)),
            }),
            screen_size(vt) == replay_dims(width, height, evs.take(k as int)),
            match marker {
                Some(s) => replay_marker(evs.take(k as int)) == Some(s@),
                None => replay_marker(evs.take(k as int)) is None,
            },
        decreases upto - k,
    {
        let ev = &events[k];
        assert(evs.take(k + 1).drop_last() =~= evs.take(k as int));
        assert(evs.take(k + 1).last() == (ev.code@, ev.data@));
        match &ev.code {
            EventCode::Output => {
                feed_output(&mut vt, ev.data.as_str());
            },
            EventCode::Resize => {
                match parse_resize(ev.data.as_str()) {
                    Some((c, r)) => {
                        let (cur_cols, _) = terminal_size(&vt);
                        if c >= 2 || c == cur_cols {
                            resize_terminal(&mut vt, c, r);
                        }
                    },
                    None => {},
                }
            },
            EventCode::Marker => {
                marker = Some(ev.data.clone());
            },
            EventCode::Other(_) => {},
        }
        k = k + 1;
    }
    let ghost taken = evs.take(upto as int);
    proof {
        lemma_dims_bounded(width, height, taken);
    }
    let f = snapshot(&vt, marker);
    let ghost want = replay_view(width, height, taken);
    let ghost grid = screen_cells(vt);
    assert(f@.cells =~= want.cells);
    assert(f@.rows =~= want.rows);
    assert(f@ == want);
    assert forall|r: int| 0 <= r < f@.cells.len() implies used_columns(#[trigger] f@.cells[r])
        == f@.width && forall|k: int|
        0 <= k < f@.cells[r].len() ==> 1 <= (#[trigger] f@.cells[r][k]).width <= 2 by {
        lemma_row_fills_width(grid[r], screen_size(vt).0);
    }
    assert forall|r: int| 0 <= r < f@.rows.len() implies #[trigger] f@.rows[r] == row_text(
        f@.cells[r],
        f@.width as nat,
    ) by {}
    proof {
        if replay_ops(width, height, taken).len() == 0 {
            lemma_no_ops_dims(width, height, taken);
            lemma_blank_row_text(seed_cols as nat);
            assert(replay_ops(width, height, taken) =~= Seq::<TermOp>::empty());
            assert forall|r: int| 0 <= r < f@.rows.len() implies #[trigger] f@.rows[r] == spaces(
                f@.width as nat,
            ) by {
                assert(grid[r] == Seq::new(seed_cols as nat, |c: int| blank_cell()));
            }
        }
    }
    f
}

} // verus!
