use csv_editor::{project, Chart};

fn grid(rows: &[&[&str]]) -> Vec<Vec<String>> {
    rows.iter().map(|r| r.iter().map(|c| c.to_string()).collect()).collect()
}

fn numeric(g: &[Vec<String>]) -> Vec<Vec<bool>> {
    g.iter()
        .map(|r| r.iter().map(|c| c.parse::<f64>().is_ok()).collect())
        .collect()
}

fn run(g: &[Vec<String>], hh: bool, hl: bool) -> Result<Chart, csv_editor::ChartError> {
    let ok = numeric(g);
    project(&g.to_vec(), hh, hl, &ok)
}

#[test]
fn chart_aborts_on_first_unparsable_cell() {
    let g = grid(&[&["a", "b"], &["1", "x"], &["2", "3"]]);
    let e = run(&g, false, false).err().expect("a cell is not a number");
    assert_eq!(e.text, "a");
    assert_eq!((e.series, e.point), (0, 0));
    assert_eq!(e.message(), "a");
}

#[test]
fn chart_error_names_offending_text() {
    let g = grid(&[&["a", "b"], &["1", "x"], &["2", "3"]]);
    let e = run(&g, true, false).err().expect("a cell is not a number");
    assert_eq!(e.text, "x");
    assert_eq!((e.series, e.point), (1, 0));
}

#[test]
fn chart_happy_path() {
    let g = grid(&[&["t", "A", "B"], &["0", "1", "4"], &["1", "2", "5"]]);
    let c = run(&g, true, true).ok().expect("all numbers");
    assert_eq!(c.names, vec!["A".to_string(), "B".to_string()]);
    assert_eq!(c.series, grid(&[&["1", "2"], &["4", "5"]]));
    assert_eq!(c.x_labels, vec!["0".to_string(), "1".to_string()]);
    assert_eq!(c.x_upper, 1);
}

#[test]
fn chart_without_flags_uses_blank_names() {
    let g = grid(&[&["1", "2"], &["3", "4"]]);
    let c = run(&g, false, false).ok().expect("all numbers");
    assert_eq!(c.names, vec![" ".to_string(), " ".to_string()]);
    assert_eq!(c.series, grid(&[&["1", "3"], &["2", "4"]]));
    assert!(c.x_labels.is_empty());
    assert_eq!(c.x_upper, 1);
}

#[test]
fn chart_missing_cell_of_ragged_row_fails() {
    let g = grid(&[&["1", "2"], &["3"]]);
    let e = run(&g, false, false).err().expect("missing cell");
    assert_eq!(e.text, "");
    assert_eq!((e.series, e.point), (1, 1));
}

#[test]
fn chart_of_header_only_grid_has_no_points() {
    let g = grid(&[&["A", "B"]]);
    let c = run(&g, true, false).ok().expect("nothing to parse");
    assert_eq!(c.series, vec![Vec::<String>::new(), Vec::new()]);
    assert_eq!(c.x_upper, 0);
}
