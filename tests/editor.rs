use csv_editor::{App, Direction};

fn app(body: &str) -> App {
    App::new("data.csv".to_string(), body.to_string())
}

fn grid(rows: &[&[&str]]) -> Vec<Vec<String>> {
    rows.iter().map(|r| r.iter().map(|c| c.to_string()).collect()).collect()
}

#[test]
fn new_loads_grid_and_first_cell() {
    let a = app("ab,c\nd,e");
    assert_eq!(a.value_matrix, grid(&[&["ab", "c"], &["d", "e"]]));
    assert_eq!(a.current_location, (0, 0));
    assert_eq!(a.current_value, "ab");
    assert_eq!(a.cursor_pos, 2);
    assert_eq!(a.previous_matrices, vec!["ab,c\nd,e".to_string()]);
    assert_eq!(a.file_body, "ab,c\nd,e");
    assert!(a.running && !a.editing && !a.is_graph);
}

#[test]
fn new_on_empty_file() {
    let a = app("");
    assert_eq!(a.value_matrix, grid(&[&[""]]));
    assert_eq!(a.current_value, "");
}

#[test]
fn moves_are_clamped_at_edges() {
    let mut a = app("a,b\nc,d");
    a.move_up();
    a.move_left();
    assert_eq!(a.current_location, (0, 0));
    a.move_right();
    a.move_right();
    a.move_down();
    a.move_down();
    assert_eq!(a.current_location, (1, 1));
    assert_eq!(a.current_value, "d");
    a.move_cursor(Direction::Up);
    assert_eq!(a.current_location, (1, 0));
    assert_eq!(a.current_value, "b");
}

#[test]
fn moves_on_single_cell_stay_put() {
    let mut a = app("only");
    for d in [Direction::Up, Direction::Down, Direction::Left, Direction::Right] {
        a.move_cursor(d);
        assert_eq!(a.current_location, (0, 0));
    }
}

#[test]
fn edit_inserts_at_offset_and_backspace_removes() {
    let mut a = app("ac");
    a.cursor_pos = 1;
    a.edit('b');
    assert_eq!(a.current_value, "abc");
    assert_eq!(a.cursor_pos, 2);
    a.backspace();
    a.backspace();
    assert_eq!(a.current_value, "c");
    assert_eq!(a.cursor_pos, 0);
    a.backspace();
    assert_eq!(a.current_value, "c");
    assert_eq!(a.cursor_pos, 0);
}

#[test]
fn edit_handles_multibyte_text() {
    let mut a = app("é");
    a.edit('ß');
    assert_eq!(a.current_value, "éß");
    assert_eq!(a.cursor_pos, 2);
}

#[test]
fn enter_and_exit_commit_edit() {
    let mut a = app("a,b\nc,d");
    a.move_right();
    a.enter_editing();
    assert!(a.editing);
    assert_eq!(a.previous_matrices.len(), 2);
    a.edit('!');
    a.exit_editing();
    assert!(!a.editing);
    assert_eq!(a.file_body, "a,b!\nc,d");
    assert_eq!(a.value_matrix[0][1], "b!");
    assert_eq!(a.previous_matrices.len(), 2);
}

#[test]
fn enter_then_exit_without_change_keeps_file() {
    let mut a = app("a,b\nc,d");
    a.enter_editing();
    let entered = a.file_body.clone();
    a.exit_editing();
    assert_eq!(a.file_body, entered);
    assert_eq!(a.file_body, "a,b\nc,d");
}

#[test]
fn emptied_cell_is_written_as_space() {
    let mut a = app("a,b");
    a.enter_editing();
    a.backspace();
    a.exit_editing();
    assert_eq!(a.file_body, " ,b");
    assert_eq!(a.value_matrix[0][0], "");
}

#[test]
fn enter_editing_in_chart_mode_only_persists() {
    let mut a = app("1,2");
    a.toggle_graph_mode();
    a.enter_editing();
    assert!(!a.editing);
    assert_eq!(a.previous_matrices.len(), 2);
}

#[test]
fn toggles_flip_flags() {
    let mut a = app("1");
    a.toggle_header_row();
    a.toggle_label_col();
    assert!(a.has_header_row && a.has_label_col);
    a.toggle_header_row();
    assert!(!a.has_header_row);
    a.quit();
    assert!(!a.running);
    a.tick();
}

#[test]
fn add_row_and_col_append_blank_cells() {
    let mut a = app("a,b\nc,d");
    a.add_row();
    assert_eq!(a.value_matrix, grid(&[&["a", "b"], &["c", "d"], &[" ", " "]]));
    a.add_col();
    assert_eq!(
        a.value_matrix,
        grid(&[&["a", "b", " "], &["c", "d", " "], &[" ", " ", " "]])
    );
    assert_eq!(a.previous_matrices.len(), 3);
    assert_eq!(a.previous_matrices[2], "a,b\nc,d\n , ");
    assert_eq!(a.file_body, "a,b, \nc,d, \n , , ");
}

#[test]
fn remove_row_and_col_reset_cursor() {
    let mut a = app("a,b\nc,d");
    a.move_down();
    a.move_right();
    a.remove_row();
    assert_eq!(a.current_location, (0, 0));
    assert_eq!(a.current_value, "a");
    assert_eq!(a.value_matrix, grid(&[&["a", "b"]]));
    assert_eq!(a.file_body, "a,b");
    assert_eq!(a.previous_matrices[1], "a,b\nc,d");
    a.remove_col();
    assert_eq!(a.value_matrix, grid(&[&["a"]]));
    assert_eq!(a.file_body, "a");
    assert_eq!(a.previous_matrices[2], "a,b");
}

#[test]
fn removal_on_minimal_grid_is_noop() {
    let mut a = app("a");
    a.remove_row();
    a.remove_col();
    assert_eq!(a.value_matrix, grid(&[&["a"]]));
    assert_eq!(a.previous_matrices.len(), 1);
}

#[test]
fn structural_edits_keep_grid_rectangular() {
    let mut a = app("a,b\nc,d");
    a.add_col();
    a.add_row();
    a.remove_col();
    a.add_row();
    a.remove_row();
    let w = a.value_matrix[0].len();
    assert!(a.value_matrix.iter().all(|r| r.len() == w));
    assert_eq!(w, 2);
    assert_eq!(a.value_matrix.len(), 3);
}

#[test]
fn undo_restores_snapshot_before_mutation() {
    let mut a = app("a,b\nc,d");
    a.move_right();
    a.enter_editing();
    a.edit('x');
    a.exit_editing();
    let before = a.file_body.clone();
    assert_eq!(before, "a,bx\nc,d");
    a.add_row();
    assert_eq!(a.file_body, "a,bx\nc,d\n , ");
    a.add_col();
    assert_eq!(a.file_body, "a,bx, \nc,d, \n , , ");
    a.undo();
    assert_eq!(a.file_body, "a,bx\nc,d\n , ");
    assert_eq!(a.value_matrix, grid(&[&["a", "bx"], &["c", "d"], &[" ", " "]]));
    assert_eq!(a.current_value, "bx");
    a.undo();
    assert_eq!(a.file_body, before);
    assert_eq!(a.value_matrix, grid(&[&["a", "bx"], &["c", "d"]]));
    a.undo();
    assert_eq!(a.file_body, "a,b\nc,d");
}

#[test]
fn undo_clamps_cursor_into_restored_grid() {
    let mut a = app("a\nb");
    a.add_row();
    a.move_down();
    a.move_down();
    assert_eq!(a.current_location, (0, 2));
    a.undo();
    assert_eq!(a.current_location, (0, 1));
    assert_eq!(a.current_value, "b");
    assert_eq!(a.value_matrix, grid(&[&["a"], &["b"]]));
}

#[test]
fn undo_on_empty_stack_is_noop() {
    let mut a = app("a,b");
    a.undo();
    assert_eq!(a.previous_matrices.len(), 0);
    let body = a.file_body.clone();
    a.undo();
    assert_eq!(a.file_body, body);
    assert_eq!(a.value_matrix, grid(&[&["a", "b"]]));
}

#[test]
fn current_cell_reads_grid_not_buffer() {
    let mut a = app("a,b\nc");
    a.edit('z');
    assert_eq!(a.current_value, "az");
    assert_eq!(a.current_cell(), "a");
    a.move_down();
    a.move_right();
    assert_eq!(a.current_location, (1, 1));
    assert_eq!(a.current_cell(), "");
    assert_eq!(a.current_value, "");
}

#[test]
fn save_undoable_pushes_file_and_keeps_empty_cell() {
    let mut a = app("a,b");
    a.backspace();
    a.save(true);
    assert_eq!(a.file_body, " ,b");
    assert_eq!(a.previous_matrices, vec!["a,b".to_string(), "a,b".to_string()]);
    a.save(false);
    assert_eq!(a.file_body, " ,b");
    assert_eq!(a.previous_matrices.len(), 2);
}

#[test]
fn default_is_empty_and_running() {
    let a = App::default();
    assert!(a.value_matrix.is_empty());
    assert!(a.previous_matrices.is_empty());
    assert_eq!(a.current_location, (0, 0));
    assert!(a.running && !a.editing);
}

#[test]
fn add_row_persists_new_row() {
    let mut a = app("x");
    a.add_row();
    assert_eq!(a.file_body, "x\n ");
    assert_eq!(a.previous_matrices, vec!["x".to_string(), "x".to_string()]);
}

#[test]
fn undoable_save_writes_empty_cell_as_space() {
    let mut a = app("q");
    a.backspace();
    a.save(true);
    assert_eq!(a.file_body, " ");
    assert_eq!(a.value_matrix, grid(&[&[""]]));
}
