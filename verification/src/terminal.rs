use vstd::arithmetic::div_mod::{
    lemma_add_mod_noop, lemma_fundamental_div_mod_converse_div,
    lemma_fundamental_div_mod_converse_mod, lemma_small_mod,
};
use vstd::prelude::*;

verus! {

/// The 16 colors of the text-mode palette. Indices 0 through 7 are valid
/// backgrounds; all 16 are valid foregrounds.
#[derive(Clone, Copy, Debug)]
pub enum Color {
    Black,
    Blue,
    Green,
    Cyan,
    Red,
    Magenta,
    Brown,
    LightGrey,
    DarkGrey,
    LightBlue,
    LightGreen,
    LightCyan,
    LightRed,
    LightMagenta,
    LightBrown,
    White,
}

impl Color {
    /// The palette index of the color, in 0..16.
    pub open spec fn index(self) -> u8 {
        match self {
            Color::Black => 0,
            Color::Blue => 1,
            Color::Green => 2,
            Color::Cyan => 3,
            Color::Red => 4,
            Color::Magenta => 5,
            Color::Brown => 6,
            Color::LightGrey => 7,
            Color::DarkGrey => 8,
            Color::LightBlue => 9,
            Color::LightGreen => 10,
            Color::LightCyan => 11,
            Color::LightRed => 12,
            Color::LightMagenta => 13,
            Color::LightBrown => 14,
            Color::White => 15,
        }
    }

    /// The color positioned as the foreground nibble of an attribute byte.
    pub fn to_foreground(self) -> (r: u8)
        ensures
            r == self.index(),
            r < 16,
    {
        match self {
            Color::Black => 0,
            Color::Blue => 1,
            Color::Green => 2,
            Color::Cyan => 3,
            Color::Red => 4,
            Color::Magenta => 5,
            Color::Brown => 6,
            Color::LightGrey => 7,
            Color::DarkGrey => 8,
            Color::LightBlue => 9,
            Color::LightGreen => 10,
            Color::LightCyan => 11,
            Color::LightRed => 12,
            Color::LightMagenta => 13,
            Color::LightBrown => 14,
            Color::White => 15,
        }
    }

    /// The color positioned as the background nibble of an attribute byte.
    pub fn to_background(self) -> (r: u8)
        ensures
            r == self.index() << 4,
            r == self.index() * 16,
    {
        let idx = self.to_foreground();
        proof {
            let i = self.index();
            assert(i < 16 ==> (i << 4) == i * 16 && i * 16 < 256) by (bit_vector);
        }
        idx << 4
    }
}

/// A 16-bit character cell: character byte in the low half, attribute byte
/// in the high half.
pub open spec fn cell_of(character: u8, attribute: u8) -> u16 {
    (character as u16) | ((attribute as u16) << 8)
}

/// The character byte stored in a cell.
pub open spec fn cell_char(cell: u16) -> u8 {
    (cell & 0xFF) as u8
}

/// The attribute byte stored in a cell.
pub open spec fn cell_attr(cell: u16) -> u8 {
    (cell >> 8) as u8
}

/// A cell gives back exactly the character and attribute packed into it.
pub proof fn lemma_cell_parts(character: u8, attribute: u8)
    by (bit_vector)
    ensures
        cell_char(cell_of(character, attribute)) == character,
        cell_attr(cell_of(character, attribute)) == attribute,
{
}

/// An attribute byte with its foreground nibble replaced.
pub open spec fn with_foreground(attribute: u8, foreground: u8) -> u8 {
    (attribute & 0xF0) | foreground
}

/// An attribute byte with its background nibble replaced.
pub open spec fn with_background(attribute: u8, background: u8) -> u8 {
    (attribute & 0x0F) | (background << 4)
}

/// Setting one nibble of the attribute byte never alters the other: the
/// foreground survives a background change and the background survives a
/// foreground change, for every pair of palette indices.
pub proof fn lemma_nibbles_independent(attribute: u8, foreground: u8, background: u8)
    by (bit_vector)
    requires
        foreground < 16,
        background < 16,
    ensures
        with_background(with_foreground(attribute, foreground), background) & 0x0F == foreground,
        with_foreground(with_background(attribute, background), foreground) >> 4 == background,
        with_foreground(attribute, foreground) >> 4 == attribute >> 4,
        with_background(attribute, background) & 0x0F == attribute & 0x0F,
{
}

pub const VGA_WIDTH: u8 = 80;

pub const VGA_HEIGHT: u8 = 25;

/// Total number of character cells on the screen.
pub const VGA_CELLS: usize = 2000;

/// The abstract state of the display driver: the 2000 cells of the mapped
/// character grid in row-major order, the attribute byte, the in-driver
/// position, and the linear position last pushed to the CRT controller.
#[verifier::ext_equal]
pub struct VgaState {
    pub cells: Seq<u16>,
    pub x: int,
    pub y: int,
    pub color: u8,
    pub cursor: int,
}

/// The driver invariant: the position is strictly inside the grid and the
/// grid holds exactly one cell per screen position.
pub open spec fn wf_state(s: VgaState) -> bool {
    &&& 0 <= s.x < 80
    &&& 0 <= s.y < 25
    &&& s.cells.len() == 2000
}

/// The linear screen offset of a position, row-major.
pub open spec fn lin(x: int, y: int) -> int {
    y * 80 + x
}

/// One cursor increment: advance a column, wrap to the next row at the right
/// edge, wrap to the top row past the bottom, and push the new position to
/// the hardware cursor.
pub open spec fn step_advance(s: VgaState) -> VgaState {
    let nx = if s.x + 1 < 80 {
        s.x + 1
    } else {
        0
    };
    let ny = if s.x + 1 < 80 {
        s.y
    } else if s.y + 1 < 25 {
        s.y + 1
    } else {
        0
    };
    VgaState { x: nx, y: ny, cursor: lin(nx, ny), ..s }
}

/// The grid with one cell replaced by `character` under attribute `attribute`.
pub open spec fn written(cells: Seq<u16>, row: int, col: int, character: u8, attribute: u8) -> Seq<
    u16,
> {
    cells.update(lin(col, row), cell_of(character, attribute))
}

/// Writing a character at the current position: store the cell, then advance.
pub open spec fn step_write(s: VgaState, character: u8) -> VgaState {
    step_advance(VgaState { cells: written(s.cells, s.y, s.x, character, s.color), ..s })
}

/// Scanning row `row` from column `col` leftward for the first cell whose
/// character byte is non-zero; 0 if the scanned part is blank.
pub open spec fn scan_row(cells: Seq<u16>, row: int, col: int) -> int
    decreases col,
{
    if col <= 0 {
        0
    } else if cell_char(cells[lin(col, row)]) != 0 {
        col
    } else {
        scan_row(cells, row, col - 1)
    }
}

/// The column the cursor lands in when it retreats onto `row`: the rightmost
/// column of the row holding a non-zero character byte, or 0 for a blank row
/// or an out-of-range row.
pub open spec fn last_used_col(cells: Seq<u16>, row: int) -> int {
    if 0 <= row < 25 {
        scan_row(cells, row, 79)
    } else {
        0
    }
}

/// One cursor decrement: a no-op at the origin; from column 0 of a lower
/// row, up to the last used column of the previous row; otherwise one column
/// left. Except at the origin, the new position is pushed to the hardware
/// cursor.
pub open spec fn step_retreat(s: VgaState) -> VgaState {
    if s.x == 0 && s.y == 0 {
        s
    } else if s.x == 0 {
        let ny = s.y - 1;
        let nx = last_used_col(s.cells, ny);
        VgaState { x: nx, y: ny, cursor: lin(nx, ny), ..s }
    } else {
        VgaState { x: s.x - 1, cursor: lin(s.x - 1, s.y), ..s }
    }
}

/// A destructive backspace: retreat, then blank the cell now under the
/// cursor.
pub open spec fn step_delete(s: VgaState) -> VgaState {
    let t = step_retreat(s);
    VgaState { cells: written(t.cells, t.y, t.x, 0, t.color), ..t }
}

/// A new line: column 0 of the next row, wrapping to the top past the bottom
/// row.
pub open spec fn step_newline(s: VgaState) -> VgaState {
    let ny = if s.y + 1 < 25 {
        s.y + 1
    } else {
        0
    };
    VgaState { x: 0, y: ny, cursor: lin(0, ny), ..s }
}

/// Writing a byte sequence character by character, halting at the first zero
/// byte even if further bytes remain.
pub open spec fn write_seq(s: VgaState, bytes: Seq<u8>) -> VgaState
    decreases bytes.len(),
{
    if bytes.len() == 0 || bytes[0] == 0 {
        s
    } else {
        write_seq(step_write(s, bytes[0]), bytes.subrange(1, bytes.len() as int))
    }
}

/// The position after `n` cursor increments.
pub open spec fn advance_n(s: VgaState, n: nat) -> VgaState
    decreases n,
{
    if n == 0 {
        s
    } else {
        step_advance(advance_n(s, (n - 1) as nat))
    }
}

/// Signalled by a single-cell write whose target lies outside the grid.
/// Defensive only: callers discard it, and in-range cursor movement never
/// produces one.
pub struct OutOfBoundsError;

/// The driver's handle on the CRT controller's cursor registers. It records
/// the linear screen offset most recently programmed into the controller;
/// the boot layer owns the actual port writes.
///
/// <https://wiki.osdev.org/Text_Mode_Cursor>
#[derive(Clone, Copy)]
pub struct Cursor {
    position: u16,
}

impl Cursor {
    /// The linear screen offset the controller currently shows.
    pub closed spec fn spec_position(self) -> int {
        self.position as int
    }

    pub fn new() -> (c: Cursor)
        ensures
            c.spec_position() == 0,
    {
        Cursor { position: 0 }
    }

    /// The low and high bytes of the programmed offset, in the order the
    /// register-select protocol sends them.
    pub fn position_bytes(&self) -> (r: (u8, u8))
        ensures
            r.0 as int == self.spec_position() % 256,
            r.1 as int == self.spec_position() / 256,
    {
        let p = self.position;
        proof {
            assert((p & 0xFF) == p % 256 && (p >> 8) == p / 256 && p % 256 < 256 && p / 256 < 256)
                by (bit_vector);
        }
        ((p & 0xFF) as u8, (p >> 8) as u8)
    }

    /// Moves the recorded cursor to position `(x, y)`; out-of-range
    /// coordinates are ignored as a second line of defense.
    pub fn update(&mut self, x: usize, y: usize)
        ensures
            x < 80 && y < 25 ==> final(self).spec_position() == lin(x as int, y as int),
            !(x < 80 && y < 25) ==> *final(self) == *old(self),
    {
        let out_of_bounds: bool = y >= VGA_HEIGHT as usize || x >= VGA_WIDTH as usize;
        if out_of_bounds {
            return;
        }
        let pos: usize = y * (VGA_WIDTH as usize) + x;
        self.position = pos as u16;
    }
}

/// The text-mode display driver. It owns the character grid and the cursor
/// handle, keeps its position inside the grid, and funnels every cell write
/// and cursor move through its own operations.
#[derive(Clone)]
pub struct Vga {
    color: u8,
    x: u8,
    y: u8,
    cursor: Cursor,
    cells: Vec<u16>,
}

impl View for Vga {
    type V = VgaState;

    closed spec fn view(&self) -> VgaState {
        VgaState {
            cells: self.cells@,
            x: self.x as int,
            y: self.y as int,
            color: self.color,
            cursor: self.cursor.spec_position(),
        }
    }
}

impl Vga {
    pub open spec fn wf(&self) -> bool {
        wf_state(self@)
    }

    /// The current column.
    pub fn x(&self) -> (r: u8)
        ensures
            r as int == self@.x,
    {
        self.x
    }

    /// The current row.
    pub fn y(&self) -> (r: u8)
        ensures
            r as int == self@.y,
    {
        self.y
    }

    /// The current attribute byte.
    pub fn color(&self) -> (r: u8)
        ensures
            r == self@.color,
    {
        self.color
    }

    /// The cell stored at `(row, col)`.
    pub fn cell_at(&self, row: u8, col: u8) -> (cell: u16)
        requires
            self.wf(),
            row < 25,
            col < 80,
        ensures
            cell == self@.cells[lin(col as int, row as int)],
    {
        self.cells[(row as usize) * 80 + (col as usize)]
    }

    /// The linear offset the hardware cursor was last synchronized to.
    pub fn cursor_position(&self) -> (r: u16)
        requires
            self.wf(),
            0 <= self@.cursor < 2000,
        ensures
            r as int == self@.cursor,
    {
        self.cursor.position
    }

    /// Initializes the driver: a blank grid, position (0,0), white on black,
    /// hardware cursor synchronized to the origin.
    pub fn new() -> (v: Vga)
        ensures
            v.wf(),
            v@.x == 0,
            v@.y == 0,
            v@.color == 0x0F,
            v@.cursor == 0,
            v@.cells == Seq::new(2000, |i: int| 0u16),
    {
        let mut cells: Vec<u16> = Vec::new();
        while cells.len() < VGA_CELLS
            invariant
                cells@.len() <= 2000,
                forall|i: int| 0 <= i < cells@.len() ==> cells@[i] == 0u16,
            decreases 2000 - cells@.len(),
        {
            cells.push(0);
        }
        let mut t = Vga { color: 0, x: 0, y: 0, cursor: Cursor::new(), cells };

        t.set_foreground_color(Color::White);
        t.set_background_color(Color::Black);
        t.cursor.update(0, 0);

        proof {
            assert(with_background(with_foreground(0u8, 15u8), 0u8) == 0x0Fu8) by (bit_vector);
            assert(t@.cells =~= Seq::new(2000, |i: int| 0u16));
        }
        t
    }

    /// Writes `character` with the current attribute into the cell at
    /// `(row, column)`; a target outside the grid changes nothing and is
    /// reported, never propagated further by the driver itself.
    pub fn write_char_at(&mut self, row: u8, column: u8, character: u8) -> (r: Result<
        (),
        OutOfBoundsError,
    >)
        requires
            old(self).wf(),
        ensures
            final(self).wf(),
            row < 25 && column < 80 ==> r is Ok && final(self)@ == (VgaState {
                cells: written(old(self)@.cells, row as int, column as int, character, old(
                    self,
                )@.color),
                ..old(self)@
            }),
            !(row < 25 && column < 80) ==> r is Err && final(self)@ == old(self)@,
    {
        if row >= VGA_HEIGHT || column >= VGA_WIDTH {
            return Err(OutOfBoundsError);
        }
        let entry: u16 = (character as u16) | ((self.color as u16) << 8);
        let index: usize = (row as usize) * (VGA_WIDTH as usize) + (column as usize);
        self.cells.set(index, entry);
        Ok(())
    }

    /// Overwrites the foreground nibble of the attribute byte; the
    /// background nibble is untouched.
    pub fn set_foreground_color(&mut self, foreground: Color)
        ensures
            final(self)@ == (VgaState {
                color: with_foreground(old(self)@.color, foreground.index()),
                ..old(self)@
            }),
            final(self).wf() == old(self).wf(),
    {
        self.color = self.color & 0xF0;
        self.color = self.color | foreground.to_foreground();
    }

    /// Overwrites the background nibble of the attribute byte; the
    /// foreground nibble is untouched.
    pub fn set_background_color(&mut self, background: Color)
        ensures
            final(self)@ == (VgaState {
                color: with_background(old(self)@.color, background.index()),
                ..old(self)@
            }),
            final(self).wf() == old(self).wf(),
    {
        self.color = self.color & 0x0F;
        self.color = self.color | background.to_background();
    }

    /// Advances the cursor one cell, wrapping at the right edge and at the
    /// bottom of the screen, and pushes the new position to the hardware
    /// cursor.
    pub fn inc_cursor(&mut self)
        requires
            old(self).wf(),
        ensures
            final(self).wf(),
            final(self)@ == step_advance(old(self)@),
    {
        self.x = self.x + 1;
        if self.x >= VGA_WIDTH {
            self.x = 0;
            self.y = self.y + 1;
        }
        if self.y >= VGA_HEIGHT {
            self.y = 0;
        }

        self.cursor.update(self.x as usize, self.y as usize);
        proof {
            assert(self@ =~= step_advance(old(self)@));
        }
    }

    /// The column of the last written character of `row`: the grid is
    /// scanned from the rightmost column leftward for a non-zero character
    /// byte, so that backspacing onto the row lands after its content.
    fn get_row_pos_for_col(&self, row: usize) -> (r: usize)
        requires
            self.wf(),
        ensures
            r as int == last_used_col(self@.cells, row as int),
            r < 80,
    {
        if row >= VGA_HEIGHT as usize {
            return 0;
        }
        let mut col: usize = (VGA_WIDTH as usize) - 1;
        while col > 0
            invariant
                self.wf(),
                row < 25,
                col < 80,
                scan_row(self@.cells, row as int, 79) == scan_row(
                    self@.cells,
                    row as int,
                    col as int,
                ),
            decreases col,
        {
            let cell: u16 = self.cells[row * 80 + col];
            if cell & 0xFF != 0 {
                proof {
                    assert((cell & 0xFF != 0) == (((cell & 0xFF) as u8) != 0)) by (bit_vector);
                }
                return col;
            }
            proof {
                assert((cell & 0xFF == 0) == (((cell & 0xFF) as u8) == 0)) by (bit_vector);
            }
            col = col - 1;
        }
        0
    }

    /// Moves the cursor back one cell: a no-op at the origin; from column 0,
    /// up to the last used column of the previous row; otherwise one column
    /// left. The hardware cursor follows.
    pub fn dec_cursor(&mut self)
        requires
            old(self).wf(),
        ensures
            final(self).wf(),
            final(self)@ == step_retreat(old(self)@),
    {
        let on_first_col = self.x == 0;
        let on_first_row = self.y == 0;

        if on_first_col && on_first_row {
            return;
        } else if on_first_col {
            self.y = self.y - 1;
            self.x = self.get_row_pos_for_col(self.y as usize) as u8;
        } else {
            self.x = self.x - 1;
        }

        self.cursor.update(self.x as usize, self.y as usize);
        proof {
            assert(self@ =~= step_retreat(old(self)@));
        }
    }

    /// Writes `character` at the current position with the current
    /// attribute, then advances the cursor.
    pub fn write_char(&mut self, c: u8)
        requires
            old(self).wf(),
        ensures
            final(self).wf(),
            final(self)@ == step_write(old(self)@, c),
    {
        let row = self.y;
        let col = self.x;
        let _ = self.write_char_at(row, col, c);
        self.inc_cursor();
        proof {
            assert(self@ =~= step_write(old(self)@, c));
        }
    }

    /// A destructive backspace: the cursor moves back one cell and that cell
    /// is blanked.
    pub fn delete_char(&mut self)
        requires
            old(self).wf(),
        ensures
            final(self).wf(),
            final(self)@ == step_delete(old(self)@),
    {
        self.dec_cursor();
        let row = self.y;
        let col = self.x;
        let _ = self.write_char_at(row, col, 0);
        proof {
            assert(self@ =~= step_delete(old(self)@));
        }
    }

    /// Writes successive bytes until a zero byte, which terminates the
    /// output even if further bytes remain.
    pub fn write_u8_arr(&mut self, s: &[u8])
        requires
            old(self).wf(),
        ensures
            final(self).wf(),
            final(self)@ == write_seq(old(self)@, s@),
    {
        let n = s.len();
        let mut i: usize = 0;
        proof {
            assert(s@.subrange(0, n as int) =~= s@);
        }
        while i < n
            invariant
                self.wf(),
                n == s@.len(),
                i <= n,
                write_seq(old(self)@, s@) == write_seq(self@, s@.subrange(i as int, n as int)),
            decreases n - i,
        {
            let c = s[i];
            if c == 0 {
                return;
            }
            proof {
                let rest = s@.subrange(i as int, n as int);
                assert(rest[0] == c);
                assert(rest.subrange(1, rest.len() as int) =~= s@.subrange(i + 1, n as int));
            }
            self.write_char(c);
            i = i + 1;
        }
        proof {
            assert(s@.subrange(n as int, n as int) =~= Seq::<u8>::empty());
        }
    }

    /// Moves to column 0 of the next row, whatever the starting column, by
    /// advancing cell by cell until the row changes; past the bottom row the
    /// cursor wraps to the top.
    pub fn new_line(&mut self)
        requires
            old(self).wf(),
        ensures
            final(self).wf(),
            final(self)@ == step_newline(old(self)@),
    {
        let current_row = self.y;
        while current_row == self.y
            invariant
                self.wf(),
                current_row as int == old(self)@.y,
                self@.cells == old(self)@.cells,
                self@.color == old(self)@.color,
                self@.y == current_row as int ==> self@.x >= old(self)@.x,
                self@.y != current_row as int ==> self@ == step_newline(old(self)@),
            decreases (if self@.y == current_row as int {
                80 - self@.x
            } else {
                0
            }),
        {
            self.inc_cursor();
            proof {
                if self@.y != current_row as int {
                    assert(self@ =~= step_newline(old(self)@));
                }
            }
        }

        self.cursor.update(self.x as usize, self.y as usize);
        proof {
            assert(self@ =~= step_newline(old(self)@));
        }
    }

    /// Blanks every cell of the grid through the single-cell write; the
    /// cursor position and the attribute byte stay where they are.
    pub fn clear_screen(&mut self)
        requires
            old(self).wf(),
        ensures
            final(self).wf(),
            final(self)@.x == old(self)@.x,
            final(self)@.y == old(self)@.y,
            final(self)@.color == old(self)@.color,
            final(self)@.cursor == old(self)@.cursor,
            final(self)@.cells.len() == 2000,
            forall|i: int|
                0 <= i < 2000 ==> final(self)@.cells[i] == cell_of(0, old(self)@.color),
            forall|i: int| 0 <= i < 2000 ==> cell_char(final(self)@.cells[i]) == 0,
    {
        let mut row: u8 = 0;
        while row < VGA_HEIGHT
            invariant
                self.wf(),
                row <= 25,
                self@.x == old(self)@.x,
                self@.y == old(self)@.y,
                self@.color == old(self)@.color,
                self@.cursor == old(self)@.cursor,
                forall|i: int|
                    0 <= i < (row as int) * 80 ==> self@.cells[i] == cell_of(0, old(self)@.color),
                forall|i: int|
                    (row as int) * 80 <= i < 2000 ==> self@.cells[i] == old(self)@.cells[i],
            decreases 25 - row,
        {
            let mut col: u8 = 0;
            while col < VGA_WIDTH
                invariant
                    self.wf(),
                    row < 25,
                    col <= 80,
                    self@.x == old(self)@.x,
                    self@.y == old(self)@.y,
                    self@.color == old(self)@.color,
                    self@.cursor == old(self)@.cursor,
                    forall|i: int|
                        0 <= i < (row as int) * 80 + (col as int) ==> self@.cells[i] == cell_of(
                            0,
                            old(self)@.color,
                        ),
                    forall|i: int|
                        (row as int) * 80 + (col as int) <= i < 2000 ==> self@.cells[i] == old(
                            self,
                        )@.cells[i],
                decreases 80 - col,
            {
                let _ = self.write_char_at(row, col, 0);
                col = col + 1;
            }
            row = row + 1;
        }
        proof {
            lemma_cell_parts(0, old(self)@.color);
        }
    }
}

impl Default for Vga {
    /// A freshly initialized driver.
    fn default() -> (v: Vga)
        ensures
            v.wf(),
            v@.x == 0,
            v@.y == 0,
            v@.color == 0x0F,
            v@.cursor == 0,
            v@.cells == Seq::new(2000, |i: int| 0u16),
    {
        Vga::new()
    }
}

/// Writing a cell and reading it back yields the written character and the
/// attribute active at write time, for every in-range position.
pub proof fn lemma_cell_write_read(
    cells: Seq<u16>,
    row: int,
    col: int,
    character: u8,
    attribute: u8,
)
    requires
        cells.len() == 2000,
        0 <= row < 25,
        0 <= col < 80,
    ensures
        cell_char(written(cells, row, col, character, attribute)[lin(col, row)]) == character,
        cell_attr(written(cells, row, col, character, attribute)[lin(col, row)]) == attribute,
{
    lemma_cell_parts(character, attribute);
}

/// Retreating at the origin changes nothing.
pub proof fn lemma_retreat_origin_noop(s: VgaState)
    requires
        s.x == 0,
        s.y == 0,
    ensures
        step_retreat(s) == s,
{
}

/// One cursor increment moves the linear screen offset forward by one,
/// modulo the size of the grid, and touches neither the cells nor the
/// attribute.
pub proof fn lemma_step_advance_lin(s: VgaState)
    requires
        wf_state(s),
    ensures
        wf_state(step_advance(s)),
        lin(step_advance(s).x, step_advance(s).y) == (lin(s.x, s.y) + 1) % 2000,
        step_advance(s).cells == s.cells,
        step_advance(s).color == s.color,
        step_advance(s).cursor == lin(step_advance(s).x, step_advance(s).y),
{
    let t = step_advance(s);
    if s.x + 1 < 80 || s.y + 1 < 25 {
        assert(lin(t.x, t.y) == lin(s.x, s.y) + 1);
        lemma_small_mod((lin(s.x, s.y) + 1) as nat, 2000);
    } else {
        assert(lin(s.x, s.y) == 1999);
        assert(lin(t.x, t.y) == 0);
    }
}

/// `n` cursor increments move the linear screen offset forward by `n`,
/// modulo the size of the grid.
pub proof fn lemma_advance_n_lin(s: VgaState, n: nat)
    requires
        wf_state(s),
    ensures
        wf_state(advance_n(s, n)),
        advance_n(s, n).cells == s.cells,
        advance_n(s, n).color == s.color,
        lin(advance_n(s, n).x, advance_n(s, n).y) == (lin(s.x, s.y) + n) % 2000,
    decreases n,
{
    if n == 0 {
        lemma_small_mod(lin(s.x, s.y) as nat, 2000);
    } else {
        lemma_advance_n_lin(s, (n - 1) as nat);
        let t = advance_n(s, (n - 1) as nat);
        lemma_step_advance_lin(t);
        lemma_add_mod_noop(lin(s.x, s.y) + (n - 1), 1, 2000);
        lemma_small_mod(1, 2000);
    }
}

/// A well-formed position is recovered from its linear screen offset.
pub proof fn lemma_lin_coords(s: VgaState)
    requires
        wf_state(s),
    ensures
        s.x == lin(s.x, s.y) % 80,
        s.y == lin(s.x, s.y) / 80,
{
    lemma_fundamental_div_mod_converse_mod(lin(s.x, s.y), 80, s.y, s.x);
    lemma_fundamental_div_mod_converse_div(lin(s.x, s.y), 80, s.y, s.x);
}

/// Eighty consecutive cursor increments from the origin land at the start
/// of the second row.
pub proof fn lemma_eighty_advances_reach_row_one(s: VgaState)
    requires
        wf_state(s),
        s.x == 0,
        s.y == 0,
    ensures
        advance_n(s, 80).x == 0,
        advance_n(s, 80).y == 1,
{
    lemma_advance_n_lin(s, 80);
    let t = advance_n(s, 80);
    lemma_small_mod(80, 2000);
    lemma_lin_coords(t);
}

/// Two thousand consecutive cursor increments from the origin wrap the full
/// screen and land back at the origin; no cell is disturbed on the way.
pub proof fn lemma_full_wraparound(s: VgaState)
    requires
        wf_state(s),
        s.x == 0,
        s.y == 0,
    ensures
        advance_n(s, 2000).x == 0,
        advance_n(s, 2000).y == 0,
        advance_n(s, 2000).cells == s.cells,
{
    lemma_advance_n_lin(s, 2000);
    let t = advance_n(s, 2000);
    lemma_lin_coords(t);
}

/// The leftward row scan finds exactly the rightmost column whose character
/// byte is non-zero (column 0 if the scanned part is blank).
proof fn lemma_scan_row_finds_last(cells: Seq<u16>, row: int, col: int, c: int)
    requires
        0 <= c <= col < 80,
        c > 0 ==> cell_char(cells[lin(c, row)]) != 0,
        forall|j: int| c < j <= col ==> cell_char(cells[#[trigger] lin(j, row)]) == 0,
    ensures
        scan_row(cells, row, col) == c,
    decreases col,
{
    if col > c {
        lemma_scan_row_finds_last(cells, row, col - 1, c);
    }
}

/// If row `y - 1` holds a non-zero character byte in column `c` and none to
/// the right of it, retreating from column 0 of row `y` lands exactly at
/// column `c` of row `y - 1`.
pub proof fn lemma_retreat_lands_after_content(s: VgaState, c: int)
    requires
        wf_state(s),
        s.x == 0,
        s.y >= 1,
        0 <= c < 80,
        c > 0 ==> cell_char(s.cells[lin(c, s.y - 1)]) != 0,
        forall|j: int| c < j < 80 ==> cell_char(s.cells[#[trigger] lin(j, s.y - 1)]) == 0,
    ensures
        step_retreat(s).x == c,
        step_retreat(s).y == s.y - 1,
{
    lemma_scan_row_finds_last(s.cells, s.y - 1, 79, c);
}

/// Writing a byte sequence with its first zero byte at index `k` writes
/// exactly the `k` characters before it: the trailing content changes
/// nothing.
pub proof fn lemma_write_stops_at_zero(s: VgaState, bytes: Seq<u8>, k: int)
    requires
        0 <= k < bytes.len(),
        bytes[k] == 0,
        forall|j: int| 0 <= j < k ==> bytes[j] != 0,
    ensures
        write_seq(s, bytes) == write_seq(s, bytes.subrange(0, k)),
    decreases k,
{
    if k == 0 {
        assert(bytes.subrange(0, 0) =~= Seq::<u8>::empty());
    } else {
        let t = step_write(s, bytes[0]);
        let rest = bytes.subrange(1, bytes.len() as int);
        lemma_write_stops_at_zero(t, rest, k - 1);
        assert(bytes.subrange(0, k)[0] == bytes[0]);
        assert(bytes.subrange(0, k).subrange(1, k) =~= rest.subrange(0, k - 1));
    }
}

} // verus!
