//! The editor's state: the grid, the cursor, the edit buffer, the view flags
//! and the undo stack of whole-file snapshots. Every persist goes to
//! `file_body`, the content of the backing file, which the caller writes out.
use vstd::prelude::*;
use crate::codec::{
    Table, cell_or_empty, cell_text, decode, decode_spec, encode, encode_spec, grid_view,
    lemma_encode_decode, lemma_split_nonempty, overridden, set_cell, FIELD_SEP, LINE_SEP, split,
};
use crate::grid::{Direction, GridEdit, edited, lemma_set_cell_keeps_shape, moved, rectangular};
use crate::text::{append_range, chars_of};

verus! {

/// The editor.
pub struct App {
    /// Whether the editor keeps running.
    pub running: bool,
    /// The grid, row by row.
    pub value_matrix: Vec<Vec<String>>,
    /// The insertion offset within the edit buffer, in characters.
    pub cursor_pos: usize,
    /// The edit buffer: the text of the cell under the cursor.
    pub current_value: String,
    /// The cursor, as `(column, row)`.
    pub current_location: (usize, usize),
    /// Whether an edit is in progress.
    pub editing: bool,
    /// The backing file.
    pub path: String,
    /// Whether the first row holds the series names.
    pub has_header_row: bool,
    /// Whether the first column holds the x labels.
    pub has_label_col: bool,
    /// Whether the chart is shown instead of the table.
    pub is_graph: bool,
    /// The undo stack, oldest first: whole file bodies.
    pub previous_matrices: Vec<String>,
    /// The content of the backing file as last persisted.
    pub file_body: String,
}

impl Default for App {
    /// An editor with no grid, no file and empty history. It is not
    /// well formed: the editing methods need an editor made by `new`.
    fn default() -> (app: Self)
        ensures
            app.value_matrix@.len() == 0,
            app.current_value@.len() == 0,
            app.cursor_pos == 0,
            app.current_location == (0usize, 0usize),
            app.path@.len() == 0,
            app.previous_matrices@.len() == 0,
            app.file_body@.len() == 0,
            app.running,
            !app.editing,
            !app.has_header_row,
            !app.has_label_col,
            !app.is_graph,
    {
        App {
            running: true,
            value_matrix: Vec::new(),
            cursor_pos: 0,
            current_value: String::new(),
            current_location: (0, 0),
            editing: false,
            path: String::new(),
            has_header_row: false,
            has_label_col: false,
            is_graph: false,
            previous_matrices: Vec::new(),
            file_body: String::new(),
        }
    }
}

impl App {
    pub open spec fn grid(&self) -> Table {
        grid_view(&self.value_matrix)
    }

    pub open spec fn height(&self) -> nat {
        self.value_matrix.len() as nat
    }

    /// The width of the grid, that of its first row.
    pub open spec fn width(&self) -> nat {
        if self.value_matrix.len() > 0 {
            self.value_matrix[0].len() as nat
        } else {
            0
        }
    }

    pub open spec fn snapshots(&self) -> Seq<Seq<char>> {
        self.previous_matrices@.map_values(|s: String| s@)
    }

    /// The text of the cell under the cursor.
    pub open spec fn cell(&self) -> Seq<char> {
        cell_or_empty(self.grid(), self.current_location.0 as int, self.current_location.1 as int)
    }

    /// The grid with the edit buffer written into the cell under the cursor.
    pub open spec fn committed(&self) -> Table {
        set_cell(
            self.grid(),
            self.current_location.0 as int,
            self.current_location.1 as int,
            self.current_value@,
        )
    }

    /// The file body for the grid of `self`: the edit buffer overrides the
    /// cell under the cursor, an empty buffer being written as a space.
    pub open spec fn written(&self) -> Seq<char> {
        encode_spec(overridden(self.grid(), Some((self.current_location, self.current_value@))))
    }

    /// The file body that a persist writes: the grid with the edit buffer
    /// written in, and an empty buffer written as a space.
    pub open spec fn persisted(&self) -> Seq<char> {
        encode_spec(overridden(self.committed(), Some((self.current_location, self.current_value@))))
    }

    /// At least one row and one column, the cursor within them and the
    /// insertion offset within the edit buffer.
    pub open spec fn wf(&self) -> bool {
        &&& self.value_matrix.len() >= 1
        &&& self.value_matrix[0].len() >= 1
        &&& self.current_location.1 < self.value_matrix.len()
        &&& self.current_location.0 < self.value_matrix[0].len()
        &&& self.cursor_pos <= self.current_value@.len()
    }

    /// Whether `next` has the same path, run state and view flags.
    pub open spec fn keeps_settings(&self, next: &App) -> bool {
        &&& next.running == self.running
        &&& next.path == self.path
        &&& next.has_header_row == self.has_header_row
        &&& next.has_label_col == self.has_label_col
        &&& next.is_graph == self.is_graph
    }

    /// Whether `next` holds the same grid, undo stack and file.
    pub open spec fn keeps_data(&self, next: &App) -> bool {
        &&& next.grid() == self.grid()
        &&& next.snapshots() == self.snapshots()
        &&& next.file_body@ == self.file_body@
    }

    /// Whether the edit buffer of `self` holds the cell under the cursor,
    /// with the offset at its end.
    pub open spec fn refreshed(&self) -> bool {
        &&& self.current_value@ == self.cell()
        &&& self.cursor_pos == self.current_value@.len()
    }

    /// Whether `next` is `self` after entering edit mode: the grid with the
    /// edit buffer written in is persisted as an undoable step, and editing
    /// starts unless the chart is shown.
    pub open spec fn entered(&self, next: &App) -> bool {
        &&& next.grid() == self.committed()
        &&& next.file_body@ == self.persisted()
        &&& next.snapshots() == self.snapshots().push(self.file_body@)
        &&& next.current_location == self.current_location
        &&& next.current_value@ == self.current_value@
        &&& next.cursor_pos == self.cursor_pos
        &&& next.editing == (self.editing || !self.is_graph)
        &&& self.keeps_settings(next)
    }

    /// Whether `next` is `self` after leaving edit mode: the grid with the
    /// edit buffer written in is persisted, not as an undoable step, and the
    /// buffer is loaded again from the cell under the cursor.
    pub open spec fn exited(&self, next: &App) -> bool {
        &&& next.grid() == self.committed()
        &&& next.file_body@ == self.persisted()
        &&& next.snapshots() == self.snapshots()
        &&& next.current_location == self.current_location
        &&& next.refreshed()
        &&& !next.editing
        &&& self.keeps_settings(next)
    }

    /// Whether `next` is `self` after an undo. With an empty stack nothing
    /// changes. Otherwise the newest snapshot is popped and becomes the file,
    /// the grid is read from it, the cursor is kept within the new grid, the
    /// buffer is loaded from the cell under it, and the file is persisted
    /// again, not as an undoable step.
    pub open spec fn undone(&self, next: &App) -> bool {
        if self.previous_matrices.len() == 0 {
            *next == *self
        } else {
            let g = decode_spec(self.snapshots().last());
            let loc = clamped(self.current_location, g);
            &&& next.snapshots() == self.snapshots().drop_last()
            &&& next.grid() == g
            &&& next.current_location == loc
            &&& next.refreshed()
            &&& next.file_body@ == encode_spec(overridden(g, Some((loc, next.current_value@))))
            &&& next.editing == self.editing
            &&& self.keeps_settings(next)
        }
    }

    /// Whether `next` is `self` after the structural edit `e`: the file's
    /// content is pushed onto the undo stack, the edit buffer is written into
    /// the grid, the grid is edited and the result is persisted.
    pub open spec fn restructured(&self, next: &App, e: GridEdit) -> bool {
        &&& next.grid() == edited(self.committed(), e)
        &&& next.file_body@ == next.written()
        &&& next.snapshots() == self.snapshots().push(self.file_body@)
        &&& next.current_location == self.current_location
        &&& next.current_value@ == self.current_value@
        &&& next.cursor_pos == self.cursor_pos
        &&& next.editing == self.editing
        &&& self.keeps_settings(next)
    }

    /// Whether `next` is `self` after removing a row or column by `e`: the
    /// cursor goes to the first cell, whose text is loaded into the buffer,
    /// the file's content is pushed onto the undo stack, and the grid after
    /// the removal is persisted.
    pub open spec fn removed(&self, next: &App, e: GridEdit) -> bool {
        &&& next.grid() == edited(self.grid(), e)
        &&& next.file_body@ == next.written()
        &&& next.snapshots() == self.snapshots().push(self.file_body@)
        &&& next.current_location == (0usize, 0usize)
        &&& next.current_value@ == self.grid()[0][0]
        &&& next.cursor_pos == next.current_value@.len()
        &&& next.editing == self.editing
        &&& self.keeps_settings(next)
    }

    /// An editor on the grid read from `body`, the content of the file at
    /// `path`; that content is also the first undo snapshot.
    pub fn new(path: String, body: String) -> (app: App)
        ensures
            app.wf(),
            app.grid() == decode_spec(body@),
            app.current_location == (0usize, 0usize),
            app.refreshed(),
            app.snapshots() == seq![body@],
            app.file_body@ == body@,
            app.path == path,
            app.running,
            !app.editing,
            !app.has_header_row,
            !app.has_label_col,
            !app.is_graph,
    {
        let value_matrix = decode(body.as_str());
        proof {
            lemma_decoded_nonempty(body@);
        }
        let current_value = cell_text(&value_matrix, 0, 0);
        let cursor_pos = current_value.as_str().unicode_len();
        let mut previous_matrices: Vec<String> = Vec::new();
        previous_matrices.push(body.clone());
        let app = App {
            running: true,
            value_matrix,
            cursor_pos,
            current_value,
            current_location: (0, 0),
            editing: false,
            path,
            has_header_row: false,
            has_label_col: false,
            is_graph: false,
            previous_matrices,
            file_body: body,
        };
        proof {
            assert(app.snapshots() =~= seq![body@]);
        }
        app
    }

    /// The text of the cell under the cursor, or an empty string where the
    /// cursor's row is shorter than the first.
    pub fn current_cell(&self) -> (t: String)
        ensures
            t@ == self.cell(),
    {
        cell_text(&self.value_matrix, self.current_location.0, self.current_location.1)
    }

    /// Does nothing: the editor has no timed work.
    pub fn tick(&self) {
    }

    /// Stops the editor.
    pub fn quit(&mut self)
        ensures
            !final(self).running,
            final(self).path == old(self).path,
            final(self).has_header_row == old(self).has_header_row,
            final(self).has_label_col == old(self).has_label_col,
            final(self).is_graph == old(self).is_graph,
            final(self).value_matrix == old(self).value_matrix,
            final(self).current_value == old(self).current_value,
            final(self).cursor_pos == old(self).cursor_pos,
            final(self).current_location == old(self).current_location,
            final(self).editing == old(self).editing,
            final(self).previous_matrices == old(self).previous_matrices,
            final(self).file_body == old(self).file_body,
    {
        self.running = false;
    }

    /// Loads the cell under the cursor into the edit buffer, with the offset
    /// at its end.
    pub fn update_curr(&mut self)
        requires
            old(self).wf(),
        ensures
            final(self).wf(),
            final(self).refreshed(),
            final(self).current_location == old(self).current_location,
            final(self).editing == old(self).editing,
            old(self).keeps_settings(&*final(self)),
            old(self).keeps_data(&*final(self)),
    {
        let (c, r) = self.current_location;
        self.current_value = cell_text(&self.value_matrix, c, r);
        self.cursor_pos = self.current_value.as_str().unicode_len();
    }

    /// Moves the cursor one cell, staying within the grid, and loads the
    /// cell under it into the edit buffer.
    pub fn move_cursor(&mut self, d: Direction)
        requires
            old(self).wf(),
        ensures
            final(self).wf(),
            final(self).current_location == moved(
                old(self).current_location,
                d,
                old(self).width(),
                old(self).height(),
            ),
            final(self).refreshed(),
            final(self).editing == old(self).editing,
            old(self).keeps_settings(&*final(self)),
            old(self).keeps_data(&*final(self)),
    {
        let (c, r) = self.current_location;
        let w = self.value_matrix[0].len();
        let h = self.value_matrix.len();
        self.current_location = match d {
            Direction::Up => (c, if r > 0 { r - 1 } else { r }),
            Direction::Down => (c, if r + 1 < h { r + 1 } else { r }),
            Direction::Left => (if c > 0 { c - 1 } else { c }, r),
            Direction::Right => (if c + 1 < w { c + 1 } else { c }, r),
        };
        self.update_curr();
    }

    /// Writes the edit buffer into the cell under the cursor and persists
    /// the grid, an empty buffer being written as a space. An undoable
    /// persist first pushes the file's content onto the undo stack.
    pub fn save(&mut self, undoable: bool)
        requires
            old(self).wf(),
        ensures
            final(self).wf(),
            final(self).grid() == old(self).committed(),
            final(self).file_body@ == old(self).persisted(),
            final(self).snapshots() == if undoable {
                old(self).snapshots().push(old(self).file_body@)
            } else {
                old(self).snapshots()
            },
            final(self).current_location == old(self).current_location,
            final(self).current_value == old(self).current_value,
            final(self).cursor_pos == old(self).cursor_pos,
            final(self).editing == old(self).editing,
            old(self).keeps_settings(&*final(self)),
    {
        let ghost before = *self;
        if undoable {
            self.previous_matrices.push(self.file_body.clone());
            proof {
                assert(self.snapshots() =~= before.snapshots().push(before.file_body@));
            }
        }
        let (c, r) = self.current_location;
        if c < self.value_matrix[r].len() {
            let mut row = self.value_matrix.remove(r);
            row.set(c, self.current_value.clone());
            self.value_matrix.insert(r, row);
            proof {
                assert(self.value_matrix@ =~= before.value_matrix@.update(
                    r as int,
                    self.value_matrix[r as int],
                ));
                assert forall|k: int| 0 <= k < self.grid().len() implies #[trigger] self.grid()[k]
                    == before.committed()[k] by {
                    if k == r {
                        assert(self.grid()[k] =~= before.committed()[k]);
                    } else {
                        assert(self.value_matrix[k] == before.value_matrix[k]);
                        assert(self.grid()[k] =~= before.committed()[k]);
                    }
                }
            }
        }
        proof {
            assert(self.grid() =~= before.committed());
            lemma_set_cell_len(before.grid(), c as int, r as int, before.current_value@);
        }
        self.persist();
    }

    /// Writes the file body for the current grid, cursor and edit buffer.
    fn persist(&mut self)
        requires
            old(self).wf(),
        ensures
            final(self).file_body@ == old(self).written(),
            final(self).value_matrix == old(self).value_matrix,
            final(self).previous_matrices == old(self).previous_matrices,
            final(self).current_location == old(self).current_location,
            final(self).current_value == old(self).current_value,
            final(self).cursor_pos == old(self).cursor_pos,
            final(self).editing == old(self).editing,
            old(self).keeps_settings(&*final(self)),
    {
        let over = Some((self.current_location, self.current_value.clone()));
        self.file_body = encode(&self.value_matrix, &over);
    }
    /// Moves the cursor one row up; see `move_cursor`.
    pub fn move_up(&mut self)
        requires
            old(self).wf(),
        ensures
            final(self).wf(),
            final(self).current_location == moved(
                old(self).current_location,
                Direction::Up,
                old(self).width(),
                old(self).height(),
            ),
            final(self).refreshed(),
            final(self).editing == old(self).editing,
            old(self).keeps_settings(&*final(self)),
            old(self).keeps_data(&*final(self)),
    {
        self.move_cursor(Direction::Up);
    }

    /// Moves the cursor one row down; see `move_cursor`.
    pub fn move_down(&mut self)
        requires
            old(self).wf(),
        ensures
            final(self).wf(),
            final(self).current_location == moved(
                old(self).current_location,
                Direction::Down,
                old(self).width(),
                old(self).height(),
            ),
            final(self).refreshed(),
            final(self).editing == old(self).editing,
            old(self).keeps_settings(&*final(self)),
            old(self).keeps_data(&*final(self)),
    {
        self.move_cursor(Direction::Down);
    }

    /// Moves the cursor one column right; see `move_cursor`.
    pub fn move_right(&mut self)
        requires
            old(self).wf(),
        ensures
            final(self).wf(),
            final(self).current_location == moved(
                old(self).current_location,
                Direction::Right,
                old(self).width(),
                old(self).height(),
            ),
            final(self).refreshed(),
            final(self).editing == old(self).editing,
            old(self).keeps_settings(&*final(self)),
            old(self).keeps_data(&*final(self)),
    {
        self.move_cursor(Direction::Right);
    }

    /// Moves the cursor one column left; see `move_cursor`.
    pub fn move_left(&mut self)
        requires
            old(self).wf(),
        ensures
            final(self).wf(),
            final(self).current_location == moved(
                old(self).current_location,
                Direction::Left,
                old(self).width(),
                old(self).height(),
            ),
            final(self).refreshed(),
            final(self).editing == old(self).editing,
            old(self).keeps_settings(&*final(self)),
            old(self).keeps_data(&*final(self)),
    {
        self.move_cursor(Direction::Left);
    }

    /// Inserts `ch` into the edit buffer at the offset and advances the
    /// offset past it.
    pub fn edit(&mut self, ch: char)
        requires
            old(self).wf(),
            old(self).current_value@.len() < usize::MAX,
        ensures
            final(self).wf(),
            final(self).current_value@ == old(self).current_value@.insert(
                old(self).cursor_pos as int,
                ch,
            ),
            final(self).cursor_pos == old(self).cursor_pos + 1,
            final(self).current_location == old(self).current_location,
            final(self).editing == old(self).editing,
            old(self).keeps_settings(&*final(self)),
            old(self).keeps_data(&*final(self)),
    {
        let cs = chars_of(self.current_value.as_str());
        let pos = self.cursor_pos;
        let mut out = String::new();
        append_range(&mut out, &cs, 0, pos);
        out.push(ch);
        append_range(&mut out, &cs, pos, cs.len());
        proof {
            assert(out@ =~= self.current_value@.insert(pos as int, ch));
        }
        self.current_value = out;
        self.cursor_pos = pos + 1;
    }

    /// Removes the character just before the offset and moves the offset
    /// back over it; does nothing at offset 0.
    pub fn backspace(&mut self)
        requires
            old(self).wf(),
        ensures
            final(self).wf(),
            old(self).cursor_pos == 0 ==> final(self).current_value == old(self).current_value
                && final(self).cursor_pos == 0,
            old(self).cursor_pos > 0 ==> final(self).current_value@ == old(
                self,
            ).current_value@.remove(old(self).cursor_pos - 1) && final(self).cursor_pos == old(
                self,
            ).cursor_pos - 1,
            final(self).current_location == old(self).current_location,
            final(self).editing == old(self).editing,
            old(self).keeps_settings(&*final(self)),
            old(self).keeps_data(&*final(self)),
    {
        let pos = self.cursor_pos;
        if pos > 0 {
            let cs = chars_of(self.current_value.as_str());
            let mut out = String::new();
            append_range(&mut out, &cs, 0, pos - 1);
            append_range(&mut out, &cs, pos, cs.len());
            proof {
                assert(out@ =~= self.current_value@.remove(pos - 1));
            }
            self.current_value = out;
            self.cursor_pos = pos - 1;
        }
    }

    /// Persists the grid as an undoable step and, unless the chart is
    /// shown, starts editing the cell under the cursor.
    pub fn enter_editing(&mut self)
        requires
            old(self).wf(),
        ensures
            final(self).wf(),
            old(self).entered(&*final(self)),
    {
        self.save(true);
        if !self.is_graph {
            self.editing = true;
        }
    }

    /// Writes the edit buffer into the cell under the cursor, persists the
    /// grid (not as an undoable step) and stops editing.
    pub fn exit_editing(&mut self)
        requires
            old(self).wf(),
        ensures
            final(self).wf(),
            old(self).exited(&*final(self)),
    {
        self.save(false);
        self.update_curr();
        self.editing = false;
    }

    /// Flips whether the first row holds the series names.
    pub fn toggle_header_row(&mut self)
        ensures
            final(self).has_header_row == !old(self).has_header_row,
            final(self).has_label_col == old(self).has_label_col,
            final(self).is_graph == old(self).is_graph,
            final(self).running == old(self).running,
            final(self).value_matrix == old(self).value_matrix,
            final(self).current_value == old(self).current_value,
            final(self).cursor_pos == old(self).cursor_pos,
            final(self).current_location == old(self).current_location,
            final(self).editing == old(self).editing,
            final(self).previous_matrices == old(self).previous_matrices,
            final(self).file_body == old(self).file_body,
    {
        self.has_header_row = !self.has_header_row;
    }

    /// Flips whether the first column holds the x labels.
    pub fn toggle_label_col(&mut self)
        ensures
            final(self).has_label_col == !old(self).has_label_col,
            final(self).has_header_row == old(self).has_header_row,
            final(self).is_graph == old(self).is_graph,
            final(self).running == old(self).running,
            final(self).value_matrix == old(self).value_matrix,
            final(self).current_value == old(self).current_value,
            final(self).cursor_pos == old(self).cursor_pos,
            final(self).current_location == old(self).current_location,
            final(self).editing == old(self).editing,
            final(self).previous_matrices == old(self).previous_matrices,
            final(self).file_body == old(self).file_body,
    {
        self.has_label_col = !self.has_label_col;
    }

    /// Flips between the table and the chart.
    pub fn toggle_graph_mode(&mut self)
        ensures
            final(self).is_graph == !old(self).is_graph,
            final(self).has_header_row == old(self).has_header_row,
            final(self).has_label_col == old(self).has_label_col,
            final(self).running == old(self).running,
            final(self).value_matrix == old(self).value_matrix,
            final(self).current_value == old(self).current_value,
            final(self).cursor_pos == old(self).cursor_pos,
            final(self).current_location == old(self).current_location,
            final(self).editing == old(self).editing,
            final(self).previous_matrices == old(self).previous_matrices,
            final(self).file_body == old(self).file_body,
    {
        self.is_graph = !self.is_graph;
    }

    /// Pushes the file's content onto the undo stack and writes the edit
    /// buffer into the grid, appends a row of blank cells as wide as the
    /// first row, and persists the result.
    pub fn add_row(&mut self)
        requires
            old(self).wf(),
        ensures
            final(self).wf(),
            old(self).restructured(&*final(self), GridEdit::AddRow),
            rectangular(old(self).grid()) ==> rectangular(final(self).grid()),
    {
        self.save(true);
        let w = self.value_matrix[0].len();
        let mut row: Vec<String> = Vec::new();
        for k in 0..w
            invariant
                row@.len() == k,
                forall|x: int| 0 <= x < k ==> #[trigger] row@[x]@ == seq![' '],
        {
            row.push(blank_cell());
        }
        let ghost before = self.value_matrix;
        self.value_matrix.push(row);
        proof {
            let g = grid_view(&before);
            assert forall|k: int| 0 <= k < g.len() implies #[trigger] self.grid()[k] == g[k] by {
                assert(self.value_matrix[k] == before[k]);
                assert(self.grid()[k] =~= g[k]);
            }
            assert(self.grid()[g.len() as int] =~= Seq::new(w as nat, |c: int| seq![' ']));
            assert(self.grid() =~= edited(g, GridEdit::AddRow));
        }
        proof {
            lemma_rectangular_after(*old(self), GridEdit::AddRow, self.grid());
            lemma_view_lens(&self.value_matrix);
        }
        self.persist();
    }

    /// Pushes the file's content onto the undo stack and writes the edit
    /// buffer into the grid, appends a blank cell to every row, and persists
    /// the result.
    pub fn add_col(&mut self)
        requires
            old(self).wf(),
        ensures
            final(self).wf(),
            old(self).restructured(&*final(self), GridEdit::AddCol),
            rectangular(old(self).grid()) ==> rectangular(final(self).grid()),
    {
        self.save(true);
        let ghost mid = self.value_matrix;
        push_blank_col(&mut self.value_matrix);
        proof {
            lemma_view_lens(&mid);
            lemma_view_lens(&self.value_matrix);
            assert(self.grid()[0] == grid_view(&mid)[0].push(seq![' ']));
            lemma_rectangular_after(*old(self), GridEdit::AddCol, self.grid());
        }
        self.persist();
    }

    /// Unless the grid has a single row: moves the cursor to the first
    /// cell, loads it into the edit buffer, pushes the file's content onto the
    /// undo stack, drops the last row and persists the result.
    pub fn remove_row(&mut self)
        requires
            old(self).wf(),
        ensures
            final(self).wf(),
            old(self).height() > 1 ==> old(self).removed(&*final(self), GridEdit::RemoveRow),
            old(self).height() <= 1 ==> *final(self) == *old(self),
            rectangular(old(self).grid()) ==> rectangular(final(self).grid()),
    {
        if self.value_matrix.len() > 1 {
            self.current_location = (0, 0);
            self.update_curr();
            proof {
                lemma_set_cell_same(self.grid(), 0, 0);
            }
            self.save(true);
            let ghost before = self.value_matrix;
            self.value_matrix.pop();
            proof {
                assert(self.grid() =~= grid_view(&before).drop_last());
                lemma_rectangular_after(*old(self), GridEdit::RemoveRow, self.grid());
            }
            self.persist();
        }
    }

    /// Unless the grid has a single column: moves the cursor to the first
    /// cell, loads it into the edit buffer, pushes the file's content onto the
    /// undo stack, drops the last cell of every row and persists the result.
    pub fn remove_col(&mut self)
        requires
            old(self).wf(),
        ensures
            final(self).wf(),
            old(self).width() > 1 ==> old(self).removed(&*final(self), GridEdit::RemoveCol),
            old(self).width() <= 1 ==> *final(self) == *old(self),
            rectangular(old(self).grid()) ==> rectangular(final(self).grid()),
    {
        if self.value_matrix[0].len() > 1 {
            self.current_location = (0, 0);
            self.update_curr();
            proof {
                lemma_set_cell_same(self.grid(), 0, 0);
            }
            self.save(true);
            let ghost mid = self.value_matrix;
            pop_last_col(&mut self.value_matrix);
            proof {
                lemma_view_lens(&mid);
                lemma_view_lens(&self.value_matrix);
                assert(self.grid()[0] == grid_view(&mid)[0].drop_last());
                lemma_rectangular_after(*old(self), GridEdit::RemoveCol, self.grid());
            }
            self.persist();
        }
    }

    /// Restores the newest undo snapshot, if there is one: it becomes the
    /// file, the grid is read from it, the cursor is kept within the new
    /// grid, the buffer is loaded from the cell under it, and the file is
    /// persisted again (not as an undoable step). With an empty stack
    /// nothing changes.
    pub fn undo(&mut self)
        requires
            old(self).wf(),
        ensures
            final(self).wf(),
            old(self).undone(&*final(self)),
    {
        let ghost before = *self;
        if self.previous_matrices.len() > 0 {
            let last = self.previous_matrices.len() - 1;
            let snap = self.previous_matrices.remove(last);
            proof {
                assert(self.snapshots() =~= before.snapshots().drop_last());
                assert(snap@ == before.snapshots().last());
                lemma_decoded_nonempty(snap@);
            }
            self.value_matrix = decode(snap.as_str());
            self.file_body = snap;
            let (c, r) = self.current_location;
            let h = self.value_matrix.len();
            let w = self.value_matrix[0].len();
            self.current_location = (if c < w { c } else { w - 1 }, if r < h { r } else { h - 1 });
            self.update_curr();
            proof {
                lemma_view_lens(&self.value_matrix);
                lemma_set_cell_same(
                    self.grid(),
                    self.current_location.0 as int,
                    self.current_location.1 as int,
                );
            }
            self.save(false);
        }
    }
}

/// The cursor moved into a grid: each coordinate at most the last index.
pub open spec fn clamped(loc: (usize, usize), g: Table) -> (usize, usize) {
    (
        if (loc.0 as int) < g[0].len() { loc.0 } else { (g[0].len() - 1) as usize },
        if (loc.1 as int) < g.len() { loc.1 } else { (g.len() - 1) as usize },
    )
}

/// Writing a cell's own text into it changes nothing.
pub proof fn lemma_set_cell_same(g: Table, c: int, r: int)
    ensures
        set_cell(g, c, r, cell_or_empty(g, c, r)) == g,
{
    if 0 <= r < g.len() && 0 <= c < g[r].len() {
        assert(g[r].update(c, g[r][c]) =~= g[r]);
        assert(g.update(r, g[r]) =~= g);
    }
}

/// Writing the same text into a cell twice is writing it once.
pub proof fn lemma_set_cell_twice(g: Table, c: int, r: int, v: Seq<char>)
    ensures
        set_cell(set_cell(g, c, r, v), c, r, v) == set_cell(g, c, r, v),
{
    let h = set_cell(g, c, r, v);
    if 0 <= r < g.len() && 0 <= c < g[r].len() {
        assert(h[r][c] == v);
        lemma_set_cell_same(h, c, r);
    }
}

/// Entering edit mode and leaving it again without a change leaves the file
/// as entering wrote it: the grid with the edit buffer in the cell under the
/// cursor, an empty buffer written as a single space.
pub proof fn lemma_edit_commit(a: App, b: App, c: App)
    requires
        a.wf(),
        a.entered(&b),
        b.exited(&c),
    ensures
        b.file_body@ == encode_spec(
            overridden(b.grid(), Some((a.current_location, a.current_value@))),
        ),
        c.file_body@ == b.file_body@,
{
    let (col, row) = (a.current_location.0 as int, a.current_location.1 as int);
    lemma_set_cell_twice(a.grid(), col, row, a.current_value@);
    assert(b.committed() == b.grid());
}

/// Undoing right after an undoable step writes back the file content that
/// the step found, unless the restored cell under the cursor is empty (it
/// is then written as a single space).
pub proof fn lemma_undo_restores(a: App, b: App, c: App)
    requires
        b.snapshots() == a.snapshots().push(a.file_body@),
        b.undone(&c),
    ensures
        c.current_value@.len() > 0 ==> c.file_body@ == a.file_body@,
{
    assert(b.snapshots().len() == b.previous_matrices.len());
    assert(b.snapshots().last() == a.file_body@);
    let g = decode_spec(a.file_body@);
    lemma_set_cell_same(g, c.current_location.0 as int, c.current_location.1 as int);
    lemma_encode_decode(a.file_body@);
}

/// A cell holding a single space.
fn blank_cell() -> (r: String)
    ensures
        r@ == seq![' '],
{
    let mut r = String::new();
    r.push(' ');
    r
}

/// Appends a blank cell to every row.
fn push_blank_col(m: &mut Vec<Vec<String>>)
    ensures
        grid_view(final(m)) == edited(grid_view(old(m)), GridEdit::AddCol),
{
    let ghost g = grid_view(m);
    let ghost want = edited(g, GridEdit::AddCol);
    let n = m.len();
    for k in 0..n
        invariant
            n == m.len(),
            n == g.len(),
            want.len() == n,
            want == edited(g, GridEdit::AddCol),
            forall|x: int| 0 <= x < k ==> #[trigger] grid_view(m)[x] == want[x],
            forall|x: int| k <= x < n ==> #[trigger] grid_view(m)[x] == g[x],
    {
        let ghost before = *m;
        let mut row = m.remove(k);
        row.push(blank_cell());
        m.insert(k, row);
        proof {
            assert(m@ =~= before@.update(k as int, m[k as int]));
            assert forall|x: int| 0 <= x < n && x != k implies #[trigger] grid_view(m)[x]
                == grid_view(&before)[x] by {
                assert(m[x] == before[x]);
                assert(grid_view(m)[x] =~= grid_view(&before)[x]);
            }
            assert(grid_view(&before)[k as int] == g[k as int]);
            lemma_view_lens(&before);
            lemma_view_lens(m);
            assert(grid_view(m)[k as int] =~= want[k as int]);
        }
    }
    proof {
        assert(grid_view(m) =~= want);
    }
}

/// Drops the last cell of every row.
fn pop_last_col(m: &mut Vec<Vec<String>>)
    requires
        old(m).len() >= 1,
        old(m)[0].len() > 1,
    ensures
        grid_view(final(m)) == edited(grid_view(old(m)), GridEdit::RemoveCol),
{
    let ghost g = grid_view(m);
    let ghost want = edited(g, GridEdit::RemoveCol);
    let n = m.len();
    for k in 0..n
        invariant
            n == m.len(),
            n == g.len(),
            want.len() == n,
            want == edited(g, GridEdit::RemoveCol),
            crate::grid::width_of(g) > 1,
            forall|x: int| 0 <= x < k ==> #[trigger] grid_view(m)[x] == want[x],
            forall|x: int| k <= x < n ==> #[trigger] grid_view(m)[x] == g[x],
    {
        let ghost before = *m;
        let mut row = m.remove(k);
        row.pop();
        m.insert(k, row);
        proof {
            assert(m@ =~= before@.update(k as int, m[k as int]));
            assert forall|x: int| 0 <= x < n && x != k implies #[trigger] grid_view(m)[x]
                == grid_view(&before)[x] by {
                assert(m[x] == before[x]);
                assert(grid_view(m)[x] =~= grid_view(&before)[x]);
            }
            assert(grid_view(&before)[k as int] == g[k as int]);
            lemma_view_lens(&before);
            lemma_view_lens(m);
            assert(grid_view(m)[k as int] =~= want[k as int]);
        }
    }
    proof {
        assert(grid_view(m) =~= want);
    }
}

proof fn lemma_view_lens(m: &Vec<Vec<String>>)
    ensures
        grid_view(m).len() == m.len(),
        forall|k: int| 0 <= k < m.len() ==> #[trigger] grid_view(m)[k].len() == m[k].len(),
        forall|k: int, c: int|
            0 <= k < m.len() && 0 <= c < m[k].len() ==> #[trigger] grid_view(m)[k][c] == m[k][c]@,
{
}

proof fn lemma_rectangular_after(a: App, e: GridEdit, g: Table)
    requires
        g == edited(a.committed(), e) || g == edited(a.grid(), e),
    ensures
        rectangular(a.grid()) ==> rectangular(g),
{
    if rectangular(a.grid()) {
        lemma_set_cell_keeps_shape(
            a.grid(),
            a.current_location.0 as int,
            a.current_location.1 as int,
            a.current_value@,
        );
        crate::grid::lemma_edit_keeps_rectangular(a.committed(), e);
        crate::grid::lemma_edit_keeps_rectangular(a.grid(), e);
    }
}

proof fn lemma_set_cell_len(g: Table, c: int, r: int, v: Seq<char>)
    ensures
        set_cell(g, c, r, v).len() == g.len(),
        g.len() > 0 ==> set_cell(g, c, r, v)[0].len() == g[0].len(),
{
}

/// A decoded body has at least one row, and its first row at least one cell.
pub proof fn lemma_decoded_nonempty(s: Seq<char>)
    ensures
        decode_spec(s).len() >= 1,
        decode_spec(s)[0].len() >= 1,
{
    lemma_split_nonempty(s, LINE_SEP);
    lemma_split_nonempty(split(s, LINE_SEP)[0], FIELD_SEP);
}

} // verus!
