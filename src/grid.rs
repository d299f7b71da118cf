//! Structural edits and cursor moves on the grid model, with the laws they
//! keep: a rectangular grid stays rectangular and a cursor in bounds stays in
//! bounds.
use vstd::prelude::*;
use crate::codec::{Table, set_cell};

verus! {

/// A structural edit of a grid.
#[derive(Clone, Copy, PartialEq, Eq, Debug)]
pub enum GridEdit {
    AddRow,
    RemoveRow,
    AddCol,
    RemoveCol,
}

/// A cursor move by one cell.
#[derive(Clone, Copy, PartialEq, Eq, Debug)]
pub enum Direction {
    Up,
    Down,
    Left,
    Right,
}

/// Every row has as many cells as the first.
pub open spec fn rectangular(g: Table) -> bool {
    forall|r: int| 0 <= r < g.len() ==> #[trigger] g[r].len() == g[0].len()
}

/// The cells of an added row or column.
pub open spec fn blank() -> Seq<char> {
    seq![' ']
}

pub open spec fn width_of(g: Table) -> nat {
    if g.len() > 0 {
        g[0].len()
    } else {
        0
    }
}

/// The grid after one structural edit. Adding appends a row or column of
/// blank cells; removing drops the last row or column, unless that would
/// leave no row or no column.
pub open spec fn edited(g: Table, e: GridEdit) -> Table {
    match e {
        GridEdit::AddRow => g.push(Seq::new(width_of(g), |c: int| blank())),
        GridEdit::RemoveRow => if g.len() > 1 {
            g.drop_last()
        } else {
            g
        },
        GridEdit::AddCol => g.map_values(|row: Seq<Seq<char>>| row.push(blank())),
        GridEdit::RemoveCol => if width_of(g) > 1 {
            g.map_values(
                |row: Seq<Seq<char>>|
                    if row.len() > 0 {
                        row.drop_last()
                    } else {
                        row
                    },
            )
        } else {
            g
        },
    }
}

/// The grid after a sequence of structural edits, in order.
pub open spec fn edited_all(g: Table, es: Seq<GridEdit>) -> Table
    decreases es.len(),
{
    if es.len() == 0 {
        g
    } else {
        edited(edited_all(g, es.drop_last()), es.last())
    }
}

pub proof fn lemma_edit_keeps_rectangular(g: Table, e: GridEdit)
    requires
        rectangular(g),
    ensures
        rectangular(edited(g, e)),
{
    let h = edited(g, e);
    match e {
        GridEdit::AddRow => {
            assert forall|r: int| 0 <= r < h.len() implies #[trigger] h[r].len() == h[0].len() by {
                if g.len() > 0 {
                    assert(h[0] == g[0]);
                }
            }
        },
        GridEdit::RemoveRow => {
            assert forall|r: int| 0 <= r < h.len() implies #[trigger] h[r].len() == h[0].len() by {
                if g.len() > 1 {
                    assert(h[r] == g[r]);
                    assert(h[0] == g[0]);
                }
            }
        },
        GridEdit::AddCol => {
            assert forall|r: int| 0 <= r < h.len() implies #[trigger] h[r].len() == h[0].len() by {
                assert(g[r].len() == g[0].len());
            }
        },
        GridEdit::RemoveCol => {
            assert forall|r: int| 0 <= r < h.len() implies #[trigger] h[r].len() == h[0].len() by {
                assert(g[r].len() == g[0].len());
            }
        },
    }
}

/// Starting from a rectangular grid, any sequence of structural edits leaves
/// it rectangular.
pub proof fn lemma_edits_keep_rectangular(g: Table, es: Seq<GridEdit>)
    requires
        rectangular(g),
    ensures
        rectangular(edited_all(g, es)),
    decreases es.len(),
{
    if es.len() > 0 {
        lemma_edits_keep_rectangular(g, es.drop_last());
        lemma_edit_keeps_rectangular(edited_all(g, es.drop_last()), es.last());
    }
}

/// Replacing one cell keeps every row's length.
pub proof fn lemma_set_cell_keeps_shape(g: Table, c: int, r: int, v: Seq<char>)
    ensures
        set_cell(g, c, r, v).len() == g.len(),
        forall|k: int| 0 <= k < g.len() ==> #[trigger] set_cell(g, c, r, v)[k].len() == g[k].len(),
        rectangular(g) ==> rectangular(set_cell(g, c, r, v)),
{
    let h = set_cell(g, c, r, v);
    assert forall|k: int| 0 <= k < g.len() implies #[trigger] h[k].len() == g[k].len() by {
    }
    if rectangular(g) && g.len() > 0 {
        assert forall|k: int| 0 <= k < h.len() implies #[trigger] h[k].len() == h[0].len() by {
            assert(h[k].len() == g[k].len());
            assert(h[0].len() == g[0].len());
        }
    }
}

/// The cursor `(column, row)` after one move in a grid of `w` columns and
/// `h` rows: one step in the direction, or none at an edge.
pub open spec fn moved(loc: (usize, usize), d: Direction, w: nat, h: nat) -> (usize, usize) {
    let (c, r) = loc;
    match d {
        Direction::Up => (c, if r > 0 { (r - 1) as usize } else { r }),
        Direction::Down => (c, if r + 1 < h { (r + 1) as usize } else { r }),
        Direction::Left => (if c > 0 { (c - 1) as usize } else { c }, r),
        Direction::Right => (if c + 1 < w { (c + 1) as usize } else { c }, r),
    }
}

/// The cursor after a sequence of moves, in order.
pub open spec fn moved_all(loc: (usize, usize), ds: Seq<Direction>, w: nat, h: nat) -> (usize, usize)
    decreases ds.len(),
{
    if ds.len() == 0 {
        loc
    } else {
        moved(moved_all(loc, ds.drop_last(), w, h), ds.last(), w, h)
    }
}

pub open spec fn in_bounds(loc: (usize, usize), w: nat, h: nat) -> bool {
    loc.0 < w && loc.1 < h
}

/// From a cursor within a grid of `w` columns and `h` rows, any sequence of
/// moves keeps the cursor within it.
pub proof fn lemma_moves_stay_in_bounds(loc: (usize, usize), ds: Seq<Direction>, w: nat, h: nat)
    requires
        in_bounds(loc, w, h),
    ensures
        in_bounds(moved_all(loc, ds, w, h), w, h),
    decreases ds.len(),
{
    if ds.len() > 0 {
        lemma_moves_stay_in_bounds(loc, ds.drop_last(), w, h);
    }
}

} // verus!
