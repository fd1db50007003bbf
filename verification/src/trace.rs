//! What holds of a grid after any number of writes and cursor moves.

use crate::character::Character;
use crate::character_buffer::{lemma_append_advances, lemma_append_all, lemma_room, GridModel};
use crate::dirty_range::{highest, lemma_coalescing, lowest, merge_all, Span};
use vstd::prelude::*;

verus! {

/// One thing a caller does to a grid between two flushes.
pub ghost enum GridOp {
    /// Write a cell at the cursor.
    Append(Character),
    /// Send the cursor to a column and a row.
    MoveCursor(nat, nat),
}

impl GridModel {
    /// Whether `op` may be done to this grid: a cell is written only while the
    /// cursor is on a cell.
    pub open spec fn accepts(self, op: GridOp) -> bool {
        op is Append ==> self.has_room()
    }

    /// The grid after `op`.
    pub open spec fn step(self, op: GridOp) -> GridModel {
        match op {
            GridOp::Append(cell) => self.append(cell),
            GridOp::MoveCursor(column, row) => self.moved(column, row),
        }
    }

    /// The grid after `ops`, done in order.
    pub open spec fn run(self, ops: Seq<GridOp>) -> GridModel
        decreases ops.len(),
    {
        if ops.len() == 0 {
            self
        } else {
            self.run(ops.drop_last()).step(ops.last())
        }
    }

    /// Whether each of `ops` may be done when its turn comes.
    pub open spec fn admits(self, ops: Seq<GridOp>) -> bool {
        forall|k: int| 0 <= k < ops.len() ==> #[trigger] self.run(ops.take(k)).accepts(ops[k])
    }

    /// The linear indices that `ops` write to, in the order of the writes.
    pub open spec fn written(self, ops: Seq<GridOp>) -> Seq<nat>
        decreases ops.len(),
    {
        if ops.len() == 0 {
            Seq::empty()
        } else if ops.last() is Append {
            self.written(ops.drop_last()).push(self.run(ops.drop_last()).cursor_index())
        } else {
            self.written(ops.drop_last())
        }
    }
}

/// The operations that write `cells`, one after the other.
pub open spec fn appends(cells: Seq<Character>) -> Seq<GridOp> {
    Seq::new(cells.len(), |k: int| GridOp::Append(cells[k]))
}

/// Writing cells one after the other is a run of writes, and a grid with room
/// for them all admits it.
pub proof fn lemma_run_appends(grid: GridModel, cells: Seq<Character>)
    ensures
        grid.run(appends(cells)) == grid.append_all(cells),
        grid.wf() && cells.len() <= grid.room() ==> grid.admits(appends(cells)),
    decreases cells.len(),
{
    if cells.len() > 0 {
        lemma_run_appends(grid, cells.drop_last());
        assert(appends(cells).drop_last() == appends(cells.drop_last()));
    }
    if grid.wf() && cells.len() <= grid.room() {
        assert forall|k: int| 0 <= k < cells.len() implies #[trigger] grid.run(
            appends(cells).take(k),
        ).accepts(appends(cells)[k]) by {
            assert(appends(cells).take(k) == appends(cells.take(k)));
            lemma_run_appends(grid, cells.take(k));
            lemma_append_all(grid, cells.take(k));
            lemma_room(grid.append_all(cells.take(k)));
        }
    }
}

/// If a grid admits `ops`, it admits all but the last of them.
proof fn lemma_admits_front(grid: GridModel, ops: Seq<GridOp>)
    requires
        grid.admits(ops),
        ops.len() > 0,
    ensures
        grid.admits(ops.drop_last()),
        grid.run(ops.drop_last()).accepts(ops.last()),
{
    let front = ops.drop_last();
    assert forall|k: int| 0 <= k < front.len() implies #[trigger] grid.run(front.take(k)).accepts(
        front[k],
    ) by {
        assert(front.take(k) == ops.take(k));
        assert(grid.run(ops.take(k)).accepts(ops[k]));
    }
    assert(ops.take(ops.len() - 1) == front);
    assert(grid.run(ops.take(ops.len() - 1)).accepts(ops[ops.len() - 1]));
}

/// Writes and cursor moves keep a grid well formed and keep its size.
pub proof fn lemma_run_wf(grid: GridModel, ops: Seq<GridOp>)
    requires
        grid.wf(),
        grid.admits(ops),
    ensures
        grid.run(ops).wf(),
        grid.run(ops).columns == grid.columns,
        grid.run(ops).rows == grid.rows,
        grid.run(ops).cells.len() == grid.cells.len(),
    decreases ops.len(),
{
    if ops.len() > 0 {
        lemma_admits_front(grid, ops);
        lemma_run_wf(grid, ops.drop_last());
        if let GridOp::Append(cell) = ops.last() {
            lemma_append_advances(grid.run(ops.drop_last()), cell);
        }
    }
}

/// The pending range after `ops` is the range before them, widened by each
/// written index in turn.
pub proof fn lemma_run_dirty(grid: GridModel, ops: Seq<GridOp>)
    ensures
        grid.run(ops).dirty == merge_all(grid.dirty, grid.written(ops)),
    decreases ops.len(),
{
    if ops.len() > 0 {
        lemma_run_dirty(grid, ops.drop_last());
        if ops.last() is Append {
            let indices = grid.written(ops);
            assert(indices.drop_last() == grid.written(ops.drop_last()));
        }
    }
}

/// Dirty-range coalescing. Starting with nothing pending, after any writes
/// and cursor moves that wrote at least one cell, the pending range runs from
/// the least written index up to and including the greatest one.
pub proof fn lemma_writes_coalesce(grid: GridModel, ops: Seq<GridOp>)
    requires
        grid.dirty is None,
        grid.written(ops).len() > 0,
    ensures
        grid.run(ops).dirty == Some(
            Span { start: lowest(grid.written(ops)), end: highest(grid.written(ops)) + 1 },
        ),
{
    lemma_run_dirty(grid, ops);
    lemma_coalescing(grid.written(ops));
}

/// Whether the cell at `index` lies outside the pending range.
pub open spec fn is_clean(dirty: Option<Span>, index: int) -> bool {
    dirty matches Some(span) ==> !(span.start <= index < span.end)
}

/// The pending range holds every cell that changed. A cell that is outside
/// the range after `ops`, and was outside it before them, is what it was.
pub proof fn lemma_clean_cells_unchanged(grid: GridModel, ops: Seq<GridOp>)
    requires
        grid.wf(),
        grid.admits(ops),
    ensures
        forall|i: int|
            0 <= i < grid.cells.len() && #[trigger] is_clean(grid.run(ops).dirty, i) ==> is_clean(
                grid.dirty,
                i,
            ) && grid.run(ops).cells[i] == grid.cells[i],
    decreases ops.len(),
{
    if ops.len() > 0 {
        let front = ops.drop_last();
        lemma_admits_front(grid, ops);
        lemma_clean_cells_unchanged(grid, front);
        lemma_run_wf(grid, front);
        let before = grid.run(front);
        if let GridOp::Append(cell) = ops.last() {
            lemma_append_advances(before, cell);
        }
        assert forall|i: int|
            0 <= i < grid.cells.len() && #[trigger] is_clean(
                grid.run(ops).dirty,
                i,
            ) implies is_clean(grid.dirty, i) && grid.run(ops).cells[i] == grid.cells[i] by {
            assert(is_clean(before.dirty, i));
        }
    }
}

/// The renderer's copy of the cells after it has taken in what a flush of
/// `grid` hands out: the cells of the pending range, copied over `copy`.
pub open spec fn synced(copy: Seq<Character>, grid: GridModel) -> Seq<Character> {
    match grid.dirty {
        None => copy,
        Some(span) => Seq::new(
            copy.len(),
            |i: int|
                if span.start <= i < span.end {
                    grid.cells[i]
                } else {
                    copy[i]
                },
        ),
    }
}

/// Flushing the pending range is enough. A copy of the cells taken when
/// nothing was pending, with the pending range copied over it after any
/// writes and cursor moves, holds the cells of the grid again.
pub proof fn lemma_flush_is_enough(grid: GridModel, ops: Seq<GridOp>)
    requires
        grid.wf(),
        grid.dirty is None,
        grid.admits(ops),
    ensures
        synced(grid.cells, grid.run(ops)) == grid.run(ops).cells,
{
    lemma_run_wf(grid, ops);
    lemma_clean_cells_unchanged(grid, ops);
    let after = grid.run(ops);
    assert forall|i: int| 0 <= i < grid.cells.len() implies synced(grid.cells, after)[i]
        == after.cells[i] by {
        if is_clean(after.dirty, i) {
            assert(after.cells[i] == grid.cells[i]);
        }
    }
    assert(synced(grid.cells, after) =~= after.cells);
}

} // verus!
