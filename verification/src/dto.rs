//! Wire shapes of frames, mapped from the frame model. Serialization itself
//! is done by the transports on copies of these types.
use vstd::prelude::*;

use crate::frame::{Cell, Color, Cursor, Frame, Style};
use crate::paths::opt_view;

verus! {

/// A cell as sent over the wire.
#[derive(Clone, Copy, Debug, PartialEq, Eq)]
pub struct CellDto {
    pub ch: char,
    pub width: u8,
    pub style: StyleDto,
}

/// A style as sent over the wire.
#[derive(Clone, Copy, Debug, PartialEq, Eq)]
pub struct StyleDto {
    pub foreground: Option<ColorDto>,
    pub background: Option<ColorDto>,
    pub bold: bool,
    pub faint: bool,
    pub italic: bool,
    pub underline: bool,
    pub strikethrough: bool,
    pub blink: bool,
    pub inverse: bool,
}

/// A colour as sent over the wire.
#[derive(Clone, Copy, Debug, PartialEq, Eq)]
pub enum ColorDto {
    Indexed { index: u8 },
    Rgb { r: u8, g: u8, b: u8 },
}

/// A cursor as sent over the wire.
#[derive(Clone, Copy, Debug, PartialEq, Eq)]
pub struct CursorDto {
    pub col: u16,
    pub row: u16,
    pub visible: bool,
}

/// A frame as sent over the wire.
#[derive(Clone, Debug, PartialEq, Eq)]
pub struct FrameDto {
    pub width: u16,
    pub height: u16,
    pub text: Vec<String>,
    pub cells: Vec<Vec<CellDto>>,
    pub cursor: CursorDto,
    pub marker: Option<String>,
}

/// The wire form of a colour.
pub open spec fn color_dto_of(c: Color) -> ColorDto {
    match c {
        Color::Indexed(i) => ColorDto::Indexed { index: i },
        Color::Rgb(r, g, b) => ColorDto::Rgb { r, g, b },
    }
}

/// The wire form of an optional colour.
pub open spec fn opt_color_dto_of(c: Option<Color>) -> Option<ColorDto> {
    match c {
        Some(c) => Some(color_dto_of(c)),
        None => None,
    }
}

/// The wire form of a style.
pub open spec fn style_dto_of(s: Style) -> StyleDto {
    StyleDto {
        foreground: opt_color_dto_of(s.foreground),
        background: opt_color_dto_of(s.background),
        bold: s.bold,
        faint: s.faint,
        italic: s.italic,
        underline: s.underline,
        strikethrough: s.strikethrough,
        blink: s.blink,
        inverse: s.inverse,
    }
}

/// The wire form of a cell.
pub open spec fn cell_dto_of(c: Cell) -> CellDto {
    CellDto { ch: c.ch, width: c.width, style: style_dto_of(c.style) }
}

/// The wire form of a cursor.
pub open spec fn cursor_dto_of(c: Cursor) -> CursorDto {
    CursorDto { col: c.col, row: c.row, visible: c.visible }
}

/// Maps a colour to its wire form.
pub fn color_dto(c: Color) -> (d: ColorDto)
    ensures
        d == color_dto_of(c),
{
    match c {
        Color::Indexed(index) => ColorDto::Indexed { index },
        Color::Rgb(r, g, b) => ColorDto::Rgb { r, g, b },
    }
}

fn opt_color_dto(c: Option<Color>) -> (d: Option<ColorDto>)
    ensures
        d == opt_color_dto_of(c),
{
    match c {
        Some(c) => Some(color_dto(c)),
        None => None,
    }
}

/// Maps a style to its wire form.
pub fn style_dto(s: Style) -> (d: StyleDto)
    ensures
        d == style_dto_of(s),
{
    StyleDto {
        foreground: opt_color_dto(s.foreground),
        background: opt_color_dto(s.background),
        bold: s.bold,
        faint: s.faint,
        italic: s.italic,
        underline: s.underline,
        strikethrough: s.strikethrough,
        blink: s.blink,
        inverse: s.inverse,
    }
}

/// Maps a cell to its wire form.
pub fn cell_dto(c: &Cell) -> (d: CellDto)
    ensures
        d == cell_dto_of(*c),
{
    CellDto { ch: c.ch, width: c.width, style: style_dto(c.style) }
}

/// Maps a cursor to its wire form.
pub fn cursor_dto(c: Cursor) -> (d: CursorDto)
    ensures
        d == cursor_dto_of(c),
{
    CursorDto { col: c.col, row: c.row, visible: c.visible }
}

fn row_dto(row: &Vec<Cell>) -> (d: Vec<CellDto>)
    ensures
        d@ == row@.map_values(|c: Cell| cell_dto_of(c)),
{
    let mut d: Vec<CellDto> = Vec::new();
    let mut i: usize = 0;
    while i < row.len()
        invariant
            i <= row@.len(),
            d@ == row@.take(i as int).map_values(|c: Cell| cell_dto_of(c)),
        decreases row@.len() - i,
    {
        d.push(cell_dto(&row[i]));
        assert(row@.take(i + 1).map_values(|c: Cell| cell_dto_of(c)) =~= row@.take(
            i as int,
        ).map_values(|c: Cell| cell_dto_of(c)).push(cell_dto_of(row@[i as int])));
        i = i + 1;
    }
    assert(row@.take(row@.len() as int) =~= row@);
    d
}

/// Maps a frame to its wire form: the same dimensions, rows, cells (each
/// mapped), cursor and marker.
pub fn frame_dto(frame: &Frame) -> (d: FrameDto)
    ensures
        d.width == frame@.width,
        d.height == frame@.height,
        d.text@.map_values(|s: String| s@) == frame@.rows,
        d.cells@.len() == frame@.cells.len(),
        forall|r: int|
            0 <= r < d.cells@.len() ==> #[trigger] d.cells@[r]@ == frame@.cells[r].map_values(
                |c: Cell| cell_dto_of(c),
            ),
        d.cursor == cursor_dto_of(frame@.cursor),
        opt_view(d.marker) == frame@.marker,
{
    let rows = frame.text();
    let mut text: Vec<String> = Vec::new();
    let mut i: usize = 0;
    while i < rows.len()
        invariant
            i <= rows@.len(),
            rows@.map_values(|s: String| s@) == frame@.rows,
            text@.map_values(|s: String| s@) == rows@.take(i as int).map_values(|s: String| s@),
        decreases rows@.len() - i,
    {
        text.push(rows[i].clone());
        assert(rows@.take(i + 1).map_values(|s: String| s@) =~= rows@.take(i as int).map_values(
            |s: String| s@,
        ).push(rows@[i as int]@));
        assert(text@.map_values(|s: String| s@) =~= rows@.take(i + 1).map_values(|s: String| s@));
        i = i + 1;
    }
    assert(rows@.take(rows@.len() as int) =~= rows@);
    let grid = frame.cells();
    let mut cells: Vec<Vec<CellDto>> = Vec::new();
    let mut j: usize = 0;
    while j < grid.len()
        invariant
            j <= grid@.len(),
            grid@.map_values(|v: Vec<Cell>| v@) == frame@.cells,
            cells@.len() == j,
            forall|r: int|
                0 <= r < j ==> #[trigger] cells@[r]@ == frame@.cells[r].map_values(
                    |c: Cell| cell_dto_of(c),
                ),
        decreases grid@.len() - j,
    {
        let row = row_dto(&grid[j]);
        assert(frame@.cells[j as int] == grid@[j as int]@);
        cells.push(row);
        j = j + 1;
    }
    let marker = match frame.marker() {
        Some(m) => Some(String::from_str(m)),
        None => None,
    };
    FrameDto {
        width: frame.width(),
        height: frame.height(),
        text,
        cells,
        cursor: cursor_dto(frame.cursor()),
        marker,
    }
}

} // verus!
