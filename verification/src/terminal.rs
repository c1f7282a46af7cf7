//! The virtual terminal that recordings are replayed through: `avt::Vt`,
//! seen through the size, visible grid and cursor it exposes, and the
//! history of operations it was built from.
use vstd::prelude::*;

use crate::frame::{Cell, Color, Style};

verus! {

/// `avt::Vt`, held opaquely.
#[verifier::external_type_specification]
#[verifier::external_body]
pub struct ExVt(avt::Vt);

/// One operation applied to a terminal.
pub enum TermOp {
    /// Output text fed through `Vt::feed_str`.
    Feed(Seq<char>),
    /// A `Vt::resize` to `(columns, rows)`.
    Resize(nat, nat),
}

/// How a terminal came to be: the size it was built with and the
/// operations applied since, in order.
pub struct TermHistory {
    pub cols: nat,
    pub rows: nat,
    pub ops: Seq<TermOp>,
}

/// The terminal's `(columns, rows)`, as `Vt::size` reports them.
pub uninterp spec fn screen_size(vt: avt::Vt) -> (nat, nat);

/// The cells of the visible grid (`Vt::view`), row by row, each as the
/// character, display width and style that `avt` holds for it.
pub uninterp spec fn screen_cells(vt: avt::Vt) -> Seq<Seq<Cell>>;

/// The cursor `(column, row, visible)`, as `Vt::cursor` reports it.
pub uninterp spec fn screen_cursor(vt: avt::Vt) -> (usize, usize, bool);

/// The history of a terminal built and changed through this module.
pub uninterp spec fn screen_history(vt: avt::Vt) -> TermHistory;

/// The visible grid `avt` shows after building a `cols` x `rows` terminal
/// and applying `ops` to it: `avt` is deterministic, so the grid is a
/// function of the history.
pub uninterp spec fn grid_after(cols: nat, rows: nat, ops: Seq<TermOp>) -> Seq<Seq<Cell>>;

/// The cursor `avt` reports after the same history.
pub uninterp spec fn cursor_after(cols: nat, rows: nat, ops: Seq<TermOp>) -> (usize, usize, bool);

/// Whether the grid and cursor of `vt` are those of its history.
pub open spec fn tracks_history(vt: avt::Vt) -> bool {
    let h = screen_history(vt);
    &&& screen_cells(vt) == grid_after(h.cols, h.rows, h.ops)
    &&& screen_cursor(vt) == cursor_after(h.cols, h.rows, h.ops)
}

/// Whether the visible grid has exactly one line per terminal row, which
/// `avt` keeps for every terminal it builds (`Buffer::view` skips
/// `lines.len() - rows` lines).
pub open spec fn grid_matches_size(vt: avt::Vt) -> bool {
    screen_cells(vt).len() == screen_size(vt).1
}

/// Whether a grid row is one `avt` keeps (its own `Terminal::verify`): it
/// has exactly `cols` cells of width 0, 1 or 2, every wide head (width 2)
/// is directly followed by its tail (width 0) and every tail directly
/// follows its head.
pub open spec fn row_well_formed(row: Seq<Cell>, cols: nat) -> bool {
    &&& row.len() == cols
    &&& forall|i: int| 0 <= i < row.len() ==> #[trigger] row[i].width <= 2
    &&& forall|i: int|
        0 <= i < row.len() && #[trigger] row[i].width == 0 ==> i > 0 && row[i - 1].width == 2
    &&& forall|i: int|
        0 <= i < row.len() && #[trigger] row[i].width == 2 ==> i + 1 < row.len() && row[i
            + 1].width == 0
}

/// Whether every visible row of `vt` is well formed at its width.
pub open spec fn grid_well_formed(vt: avt::Vt) -> bool {
    forall|r: int|
        0 <= r < screen_cells(vt).len() ==> row_well_formed(
            #[trigger] screen_cells(vt)[r],
            screen_size(vt).0,
        )
}

/// A blank cell: a space of width 1 in the default style.
pub open spec fn blank_cell() -> Cell {
    Cell {
        ch: ' ',
        width: 1,
        style: Style {
            foreground: None,
            background: None,
            bold: false,
            faint: false,
            italic: false,
            underline: false,
            strikethrough: false,
            blink: false,
            inverse: false,
        },
    }
}

/// A `cols` x `rows` grid of blank cells.
pub open spec fn blank_grid(cols: nat, rows: nat) -> Seq<Seq<Cell>> {
    Seq::new(rows, |r: int| Seq::new(cols, |c: int| blank_cell()))
}

/// A fresh terminal of `cols` x `rows` (`Vt::builder().size(..).build()`):
/// every line blank in the default pen, the cursor visible at the origin.
/// `avt` panics on a zero row count (it computes `rows - 1`), so both are at
/// least 1.
#[verifier::external_body]
pub(crate) fn new_terminal(cols: usize, rows: usize) -> (vt: avt::Vt)
    requires
        cols >= 1,
        rows >= 1,
    ensures
        screen_size(vt) == (cols as nat, rows as nat),
        screen_history(vt) == (TermHistory { cols: cols as nat, rows: rows as nat, ops: Seq::empty() }),
        tracks_history(vt),
        screen_cells(vt) == grid_after(cols as nat, rows as nat, Seq::empty()),
        screen_cursor(vt) == cursor_after(cols as nat, rows as nat, Seq::empty()),
        screen_cells(vt) == blank_grid(cols as nat, rows as nat),
        screen_cursor(vt) == (0usize, 0usize, true),
        grid_matches_size(vt),
        grid_well_formed(vt),
{
    avt::Vt::builder().size(cols, rows).build()
}

/// Feeds output text to the terminal (`Vt::feed_str`): one more operation
/// in its history. The size never changes: the only escape that could
/// resize (XTWINOPS) is disabled in every terminal `avt` builds.
#[verifier::external_body]
pub(crate) fn feed_output(vt: &mut avt::Vt, data: &str)
    ensures
        screen_size(*final(vt)) == screen_size(*old(vt)),
        screen_history(*final(vt)) == (TermHistory {
            ops: screen_history(*old(vt)).ops.push(TermOp::Feed(data@)),
            ..screen_history(*old(vt))
        }),
        tracks_history(*old(vt)) ==> tracks_history(*final(vt)),
        grid_matches_size(*old(vt)) ==> grid_matches_size(*final(vt)),
        grid_well_formed(*final(vt)),
{
    let _ = vt.feed_str(data);
}

/// Resizes the terminal (`Vt::resize`): one more operation in its history.
/// `avt` panics on a zero row count, and when it narrows lines to a single
/// column while a line starts with a wide character (`Line::contract`
/// splits the pair and indexes an empty line), so a resize to one column is
/// only taken from a terminal that already has one column.
#[verifier::external_body]
pub(crate) fn resize_terminal(vt: &mut avt::Vt, cols: usize, rows: usize)
    requires
        cols >= 2 || cols == screen_size(*old(vt)).0,
        rows >= 1,
    ensures
        screen_size(*final(vt)) == (cols as nat, rows as nat),
        screen_history(*final(vt)) == (TermHistory {
            ops: screen_history(*old(vt)).ops.push(TermOp::Resize(cols as nat, rows as nat)),
            ..screen_history(*old(vt))
        }),
        tracks_history(*old(vt)) ==> tracks_history(*final(vt)),
        grid_matches_size(*old(vt)) ==> grid_matches_size(*final(vt)),
        grid_well_formed(*final(vt)),
{
    let _ = vt.resize(cols, rows);
}

/// The terminal's `(columns, rows)` (`Vt::size`).
#[verifier::external_body]
pub(crate) fn terminal_size(vt: &avt::Vt) -> (r: (usize, usize))
    ensures
        (r.0 as nat, r.1 as nat) == screen_size(*vt),
{
    vt.size()
}

/// The cursor column, row and visibility (`Vt::cursor`).
#[verifier::external_body]
pub(crate) fn terminal_cursor(vt: &avt::Vt) -> (r: (usize, usize, bool))
    ensures
        r == screen_cursor(*vt),
{
    let c = vt.cursor();
    (c.col, c.row, c.visible)
}

/// The number of visible rows (`Vt::view`).
#[verifier::external_body]
pub(crate) fn view_row_count(vt: &avt::Vt) -> (n: usize)
    ensures
        n == screen_cells(*vt).len(),
{
    vt.view().count()
}

/// The number of cells in visible row `row` (`Line::len`).
#[verifier::external_body]
pub(crate) fn view_row_len(vt: &avt::Vt, row: usize) -> (n: usize)
    requires
        row < screen_cells(*vt).len(),
    ensures
        n == screen_cells(*vt)[row as int].len(),
{
    vt.view().nth(row).unwrap().len()
}

/// The character and display width of one visible cell (`Cell::char`,
/// `Cell::width`); the width is 0 (wide tail), 1 or 2 (wide head).
#[verifier::external_body]
pub(crate) fn view_cell_glyph(vt: &avt::Vt, row: usize, col: usize) -> (r: (char, u8))
    requires
        row < screen_cells(*vt).len(),
        col < screen_cells(*vt)[row as int].len(),
    ensures
        r.0 == screen_cells(*vt)[row as int][col as int].ch,
        r.1 == screen_cells(*vt)[row as int][col as int].width,
        r.1 <= 2,
{
    let cell = vt.view().nth(row).unwrap().cells()[col];
    (cell.char(), cell.width())
}

/// The text attributes of one visible cell's pen (`Pen::is_bold` and the
/// other flags); the colours are left at `None`.
#[verifier::external_body]
pub(crate) fn view_cell_attrs(vt: &avt::Vt, row: usize, col: usize) -> (r: Style)
    requires
        row < screen_cells(*vt).len(),
        col < screen_cells(*vt)[row as int].len(),
    ensures
        r == (Style {
            foreground: None,
            background: None,
            ..screen_cells(*vt)[row as int][col as int].style
        }),
{
    let p = *vt.view().nth(row).unwrap().cells()[col].pen();
    Style {
        foreground: None,
        background: None,
        bold: p.is_bold(),
        faint: p.is_faint(),
        italic: p.is_italic(),
        underline: p.is_underline(),
        strikethrough: p.is_strikethrough(),
        blink: p.is_blink(),
        inverse: p.is_inverse(),
    }
}

/// The foreground and background colours of one visible cell's pen
/// (`Pen::foreground`, `Pen::background`), each variant moved across.
#[verifier::external_body]
pub(crate) fn view_cell_colors(vt: &avt::Vt, row: usize, col: usize) -> (r: (Option<Color>, Option<Color>))
    requires
        row < screen_cells(*vt).len(),
        col < screen_cells(*vt)[row as int].len(),
    ensures
        r.0 == screen_cells(*vt)[row as int][col as int].style.foreground,
        r.1 == screen_cells(*vt)[row as int][col as int].style.background,
{
    let p = *vt.view().nth(row).unwrap().cells()[col].pen();
    let conv = |c: Option<avt::Color>| match c {
        Some(avt::Color::Indexed(i)) => Some(Color::Indexed(i)),
        Some(avt::Color::RGB(rgb)) => Some(Color::Rgb(rgb.r, rgb.g, rgb.b)),
        None => None,
    };
    (conv(p.foreground()), conv(p.background()))
}

} // verus!
