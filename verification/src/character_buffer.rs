//! The grid: a fixed number of cells in row-major order, a cursor at which the
//! next cell is written, and the range of cells written since the last flush.

use crate::character::{
    cell_words, cells_as_bytes, glyphs, is_memory_image, Character, CELL_BYTES, CHANNEL_MAX,
    CHANNEL_MIN,
};
use crate::dirty_range::{merge, Span};
use std::ops::Range;
use vstd::prelude::*;
use vstd::std_specs::iter::IteratorSpec;

verus! {

/// What a grid is, as mathematics.
pub ghost struct GridModel {
    /// The cells, row after row.
    pub cells: Seq<Character>,
    /// Number of cells in a row.
    pub columns: nat,
    /// Number of rows.
    pub rows: nat,
    /// Column and row at which the next cell is written.
    pub cursor: (nat, nat),
    /// The cells written since the last flush, if any.
    pub dirty: Option<Span>,
}

/// Address mapping: the linear index of the cell at `column` and `row` in a
/// grid with `columns` cells in a row.
pub open spec fn linear_index(columns: nat, column: nat, row: nat) -> nat {
    row * columns + column
}

impl GridModel {
    /// The linear index of the cell under the cursor.
    pub open spec fn cursor_index(self) -> nat {
        linear_index(self.columns, self.cursor.0, self.cursor.1)
    }

    /// The cursor is on a cell of the grid.
    pub open spec fn has_room(self) -> bool {
        self.cursor.0 < self.columns && self.cursor.1 < self.rows
    }

    /// The invariant of the grid. There is a cell for every position. The
    /// cursor is on a cell, or at the start of the row after the last one. A
    /// pending range is not empty and lies within the cells.
    pub open spec fn wf(self) -> bool {
        &&& self.cells.len() == self.columns * self.rows
        &&& self.has_room() || (self.cursor.0 == 0 && self.cursor.1 <= self.rows)
        &&& self.dirty matches Some(span) ==> span.start < span.end <= self.cells.len()
    }

    /// Where the cursor stands after one cell is written: one column further,
    /// or at the start of the next row when that column does not exist.
    pub open spec fn advanced(self) -> (nat, nat) {
        if self.cursor.0 + 1 >= self.columns {
            (0, self.cursor.1 + 1)
        } else {
            (self.cursor.0 + 1, self.cursor.1)
        }
    }

    /// The grid after `cell` is written at the cursor.
    pub open spec fn append(self, cell: Character) -> GridModel {
        GridModel {
            cells: self.cells.update(self.cursor_index() as int, cell),
            cursor: self.advanced(),
            dirty: merge(self.dirty, self.cursor_index()),
            ..self
        }
    }

    /// The grid after the cursor is sent to `column` and `row`: it goes there
    /// if that is a cell of the grid, and stays where it is otherwise.
    pub open spec fn moved(self, column: nat, row: nat) -> GridModel {
        if column < self.columns && row < self.rows {
            GridModel { cursor: (column, row), ..self }
        } else {
            self
        }
    }

    /// The grid after `cells` are written one after the other, each at the
    /// cursor that the one before it left.
    pub open spec fn append_all(self, cells: Seq<Character>) -> GridModel
        decreases cells.len(),
    {
        if cells.len() == 0 {
            self
        } else {
            self.append_all(cells.drop_last()).append(cells.last())
        }
    }

    /// Number of cells from the cursor to the end of the grid.
    pub open spec fn room(self) -> nat {
        (self.cells.len() - self.cursor_index()) as nat
    }

    /// The grid after a flush: nothing is pending, nothing else changed.
    pub open spec fn flushed(self) -> GridModel {
        GridModel { dirty: None, ..self }
    }
}

/// A cell of a grid lies before the end of the grid: a position with
/// `column < columns` and `row < rows` has a linear index below
/// `columns * rows`.
pub proof fn lemma_index_in_grid(columns: nat, rows: nat, column: nat, row: nat)
    requires
        column < columns,
        row < rows,
    ensures
        linear_index(columns, column, row) < columns * rows,
{
    assert(row * columns + columns <= rows * columns) by (nonlinear_arith)
        requires
            row + 1 <= rows,
    ;
    assert(rows * columns == columns * rows) by (nonlinear_arith);
}

/// A cursor that is on a cell, or just past the last one, is at the column and
/// the row that its linear index gives: the remainder and the quotient of the
/// index by the number of columns.
pub proof fn lemma_cursor_of_index(grid: GridModel)
    requires
        grid.wf(),
        grid.columns > 0,
    ensures
        grid.cursor.0 == grid.cursor_index() % grid.columns,
        grid.cursor.1 == grid.cursor_index() / grid.columns,
{
    vstd::arithmetic::div_mod::lemma_fundamental_div_mod_converse(
        grid.cursor_index() as int,
        grid.columns as int,
        grid.cursor.1 as int,
        grid.cursor.0 as int,
    );
}

/// Writing a cell keeps the grid well formed and moves the cursor to the next
/// linear index, whether or not it wraps to the next row.
pub proof fn lemma_append_advances(grid: GridModel, cell: Character)
    requires
        grid.wf(),
        grid.has_room(),
    ensures
        grid.append(cell).wf(),
        grid.append(cell).cursor_index() == grid.cursor_index() + 1,
        grid.append(cell).cells.len() == grid.cells.len(),
        grid.cursor_index() < grid.cells.len(),
{
    lemma_index_in_grid(grid.columns, grid.rows, grid.cursor.0, grid.cursor.1);
    let (column, row) = grid.cursor;
    if column + 1 >= grid.columns {
        assert((row + 1) * grid.columns == row * grid.columns + grid.columns)
            by (nonlinear_arith);
    }
}

/// The cursor of a well-formed grid is on a cell exactly when its linear index
/// is below the number of cells. Otherwise the index is the number of cells.
pub proof fn lemma_room(grid: GridModel)
    requires
        grid.wf(),
    ensures
        grid.cursor_index() <= grid.cells.len(),
        grid.has_room() <==> grid.cursor_index() < grid.cells.len(),
{
    if grid.has_room() {
        lemma_index_in_grid(grid.columns, grid.rows, grid.cursor.0, grid.cursor.1);
    } else if grid.cursor.1 == grid.rows {
        assert(grid.rows * grid.columns == grid.columns * grid.rows) by (nonlinear_arith);
    } else {
        assert(grid.columns == 0);
        assert(grid.cursor.1 * grid.columns == 0) by (nonlinear_arith)
            requires
                grid.columns == 0,
        ;
        assert(grid.columns * grid.rows == 0) by (nonlinear_arith)
            requires
                grid.columns == 0,
        ;
    }
}

/// Cursor wrap. Writing `cells` one after the other, where the grid has room
/// for them all, moves the cursor on by their number, to the column and row of
/// its new linear index; puts each cell at the index that the cursor had when
/// its turn came; leaves every other cell as it was; and, if the grid had
/// nothing pending, leaves exactly the written cells pending.
pub proof fn lemma_append_all(grid: GridModel, cells: Seq<Character>)
    requires
        grid.wf(),
        cells.len() <= grid.room(),
    ensures
        grid.append_all(cells).wf(),
        grid.append_all(cells).columns == grid.columns,
        grid.append_all(cells).rows == grid.rows,
        grid.append_all(cells).cursor_index() == grid.cursor_index() + cells.len(),
        grid.columns > 0 ==> grid.append_all(cells).cursor == (
            ((grid.cursor_index() + cells.len()) % grid.columns) as nat,
            ((grid.cursor_index() + cells.len()) / grid.columns) as nat,
        ),
        grid.append_all(cells).cells == Seq::new(
            grid.cells.len(),
            |i: int|
                if grid.cursor_index() <= i < grid.cursor_index() + cells.len() {
                    cells[i - grid.cursor_index()]
                } else {
                    grid.cells[i]
                },
        ),
        grid.dirty is None && cells.len() > 0 ==> grid.append_all(cells).dirty == Some(
            Span { start: grid.cursor_index(), end: grid.cursor_index() + cells.len() },
        ),
        cells.len() == 0 ==> grid.append_all(cells) == grid,
    decreases cells.len(),
{
    lemma_room(grid);
    if cells.len() > 0 {
        let front = cells.drop_last();
        let before = grid.append_all(front);
        lemma_append_all(grid, front);
        lemma_room(before);
        lemma_append_advances(before, cells.last());
        let after = grid.append_all(cells);
        if grid.columns > 0 {
            lemma_cursor_of_index(after);
        }
        assert(after.cells =~= Seq::new(
            grid.cells.len(),
            |i: int|
                if grid.cursor_index() <= i < grid.cursor_index() + cells.len() {
                    cells[i - grid.cursor_index()]
                } else {
                    grid.cells[i]
                },
        ));
    } else {
        if grid.columns > 0 {
            lemma_cursor_of_index(grid);
        }
        assert(grid.cells =~= Seq::new(grid.cells.len(), |i: int| grid.cells[i]));
    }
}

/// Flush clears state. After a flush nothing is pending, so a second flush
/// with no write in between finds nothing to hand out and changes nothing.
pub proof fn lemma_flush_twice(grid: GridModel)
    ensures
        grid.flushed().dirty is None,
        grid.flushed().flushed() == grid.flushed(),
        grid.wf() ==> grid.flushed().wf(),
{
}

/// What a flush hands to the renderer: bytes, and where in the renderer's
/// buffer they belong.
#[derive(Debug, Clone, PartialEq, Eq)]
pub struct BufferWrite {
    /// Offset of the first byte in the renderer's buffer.
    pub offset: u64,
    /// The bytes of the cells that changed.
    pub data: Vec<u8>,
}

/// A fixed-capacity grid of cells with a cursor and a pending dirty range.
pub struct CharacterBuffer {
    characters: Vec<Character>,
    bounds: (u32, u32),
    cursor_position: (u32, u32),
    pending_change: Option<(usize, usize)>,
}

impl View for CharacterBuffer {
    type V = GridModel;

    closed spec fn view(&self) -> GridModel {
        GridModel {
            cells: self.characters@,
            columns: self.bounds.0 as nat,
            rows: self.bounds.1 as nat,
            cursor: (self.cursor_position.0 as nat, self.cursor_position.1 as nat),
            dirty: match self.pending_change {
                None => None,
                Some((start, end)) => Some(Span { start: start as nat, end: end as nat }),
            },
        }
    }
}

impl CharacterBuffer {
    /// The grid is well formed, and its bytes can be addressed.
    pub open spec fn wf(&self) -> bool {
        self@.wf() && self@.cells.len() * CELL_BYTES <= isize::MAX
    }

    /// A grid of `bounds.0` columns and `bounds.1` rows. Every cell is white
    /// on black with code point 0, the cursor is at the top left, and nothing
    /// is pending. The bytes of the cells must fit in the address space.
    pub fn new(bounds: (u32, u32)) -> (grid: Self)
        requires
            bounds.0 * bounds.1 * CELL_BYTES <= isize::MAX,
        ensures
            grid.wf(),
            grid@.columns == bounds.0,
            grid@.rows == bounds.1,
            grid@.cells == Seq::new(
                (bounds.0 * bounds.1) as nat,
                |i: int| Character::blank(),
            ),
            grid@.cursor == (0nat, 0nat),
            grid@.dirty is None,
    {
        assert(bounds.0 * bounds.1 <= bounds.0 * bounds.1 * CELL_BYTES) by (nonlinear_arith)
            requires
                CELL_BYTES == 32,
        ;
        let count: usize = bounds.0 as usize * bounds.1 as usize;
        let blank = Character::new(
            [CHANNEL_MIN, CHANNEL_MIN, CHANNEL_MIN],
            [CHANNEL_MAX, CHANNEL_MAX, CHANNEL_MAX],
            0,
        );
        let characters = vec![blank; count];
        Self { characters, bounds, cursor_position: (0, 0), pending_change: None }
    }

    /// Number of columns and number of rows.
    pub fn bounds(&self) -> (bounds: (u32, u32))
        ensures
            bounds.0 == self@.columns,
            bounds.1 == self@.rows,
    {
        self.bounds
    }

    /// Column and row of the cursor.
    pub fn cursor_position(&self) -> (position: (u32, u32))
        ensures
            position.0 == self@.cursor.0,
            position.1 == self@.cursor.1,
    {
        self.cursor_position
    }

    /// The cells, row after row.
    pub fn buffer(&self) -> (cells: &[Character])
        ensures
            cells@ == self@.cells,
    {
        self.characters.as_slice()
    }

    /// The range of cells written since the last flush, if any.
    pub fn pending_change(&self) -> (pending: Option<Range<usize>>)
        ensures
            match pending {
                None => self@.dirty is None,
                Some(range) => self@.dirty == Some(
                    Span { start: range.start as nat, end: range.end as nat },
                ),
            },
    {
        match self.pending_change {
            Some((start, end)) => Some(Range { start, end }),
            None => None,
        }
    }

    /// Whether the cursor is on a cell, so that a cell can be written.
    pub fn has_room(&self) -> (room: bool)
        ensures
            room == self@.has_room(),
    {
        self.cursor_position.0 < self.bounds.0 && self.cursor_position.1 < self.bounds.1
    }

    /// Address mapping: the linear index of the cell at column `pos.0` and row
    /// `pos.1` in a grid with `columns` cells in a row.
    pub fn vec_coord(columns: u32, pos: (u32, u32)) -> (index: usize)
        requires
            linear_index(columns as nat, pos.0 as nat, pos.1 as nat) <= usize::MAX,
        ensures
            index == linear_index(columns as nat, pos.0 as nat, pos.1 as nat),
    {
        assert(pos.1 * columns >= 0) by (nonlinear_arith);
        pos.1 as usize * columns as usize + pos.0 as usize
    }

    /// Puts the cursor at column `position.0` and row `position.1` if that is
    /// a cell of the grid, and says whether it did. Otherwise nothing changes.
    pub fn set_cursor_position(&mut self, position: (u32, u32)) -> (moved: bool)
        requires
            old(self).wf(),
        ensures
            final(self).wf(),
            moved == (position.0 < old(self)@.columns && position.1 < old(self)@.rows),
            final(self)@ == old(self)@.moved(position.0 as nat, position.1 as nat),
    {
        if position.0 < self.bounds.0 && position.1 < self.bounds.1 {
            self.cursor_position = position;
            true
        } else {
            false
        }
    }

    /// Writes `c` at the cursor, moves the cursor one cell on, wrapping to the
    /// next row at the end of a row, and widens the pending range so that it
    /// holds the written cell.
    ///
    /// The cursor must be on a cell. After the last cell of the grid is
    /// written it is not, until `set_cursor_position` puts it back.
    pub fn push_char(&mut self, c: Character)
        requires
            old(self).wf(),
            old(self)@.has_room(),
        ensures
            final(self).wf(),
            final(self)@ == old(self)@.append(c),
    {
        proof {
            lemma_index_in_grid(
                self@.columns,
                self@.rows,
                self@.cursor.0,
                self@.cursor.1,
            );
        }
        let index = Self::vec_coord(self.bounds.0, self.cursor_position);
        self.characters.set(index, c);
        self.cursor_position.0 += 1;

        if self.cursor_position.0 >= self.bounds.0 {
            self.cursor_position.1 += 1;
            self.cursor_position.0 = 0;
        }

        match self.pending_change {
            Some((start, end)) => {
                if index >= end {
                    self.pending_change = Some((start, index + 1));
                } else if index < start {
                    self.pending_change = Some((index, end));
                }
            },
            None => {
                self.pending_change = Some((index, index + 1));
            },
        }
    }

    /// Writes the code points of `text` from the cursor on, one cell for each,
    /// in the given colours, and says how many it wrote: all of them, or as
    /// many as fit between the cursor and the end of the grid.
    pub fn push_str(&mut self, text: &str, bg: [u32; 3], fg: [u32; 3]) -> (count: usize)
        requires
            old(self).wf(),
        ensures
            final(self).wf(),
            count == if text@.len() <= old(self)@.room() {
                text@.len()
            } else {
                old(self)@.room()
            },
            final(self)@ == old(self)@.append_all(glyphs(bg, fg, text@.take(count as int))),
    {
        let mut chars = text.chars();
        let mut count: usize = 0;
        proof {
            lemma_room(self@);
            assert(text@.skip(0) == text@);
            assert(glyphs(bg, fg, text@.take(0)).len() == 0);
        }
        loop
            invariant
                self.wf(),
                chars.remaining() == text@.skip(count as int),
                count <= text@.len(),
                count <= old(self)@.room(),
                self@.cursor_index() == old(self)@.cursor_index() + count,
                self@.cells.len() == old(self)@.cells.len(),
                self@ == old(self)@.append_all(glyphs(bg, fg, text@.take(count as int))),
            ensures
                count == text@.len() || count == old(self)@.room(),
            decreases text@.len() - count,
        {
            proof {
                lemma_room(self@);
            }
            if !self.has_room() {
                break;
            }
            match chars.next() {
                None => {
                    break;
                },
                Some(c) => {
                    proof {
                        lemma_append_advances(self@, Character::spec_glyph(bg, fg, c));
                        let done = glyphs(bg, fg, text@.take(count + 1));
                        assert(done.drop_last() == glyphs(bg, fg, text@.take(count as int)));
                        assert(done.last() == Character::spec_glyph(bg, fg, c));
                    }
                    self.push_char(Character::glyph(bg, fg, c));
                    count += 1;
                },
            }
        }
        count
    }

    /// Flush. If cells were written since the last flush, hands back the bytes
    /// of the pending range and the offset of its first byte, for the caller
    /// to copy into the renderer's buffer. Nothing is pending afterwards,
    /// whatever the caller does with the bytes. With nothing pending, hands
    /// back nothing and changes nothing.
    pub fn write_changes(&mut self) -> (out: Option<BufferWrite>)
        requires
            old(self).wf(),
        ensures
            final(self).wf(),
            final(self)@ == old(self)@.flushed(),
            match old(self)@.dirty {
                None => out is None,
                Some(span) => {
                    &&& out matches Some(write)
                    &&& write.offset == span.start * CELL_BYTES
                    &&& is_memory_image(
                        write.data@,
                        cell_words(old(self)@.cells.subrange(span.start as int, span.end as int)),
                    )
                },
            },
    {
        match self.pending_change {
            Some((start, end)) => {
                assert(start * CELL_BYTES <= self@.cells.len() * CELL_BYTES) by (nonlinear_arith)
                    requires
                        start <= self@.cells.len(),
                        CELL_BYTES == 32,
                ;
                let cells = vstd::slice::slice_subrange(self.characters.as_slice(), start, end);
                let data = cells_as_bytes(cells);
                let offset = (start * CELL_BYTES) as u64;
                self.pending_change = None;
                Some(BufferWrite { offset, data })
            },
            None => None,
        }
    }
}

} // verus!
