use csv_editor::{decode, encode};

fn grid(rows: &[&[&str]]) -> Vec<Vec<String>> {
    rows.iter().map(|r| r.iter().map(|c| c.to_string()).collect()).collect()
}

#[test]
fn decode_splits_lines_and_commas() {
    assert_eq!(decode("a,b\nc,d"), grid(&[&["a", "b"], &["c", "d"]]));
}

#[test]
fn decode_empty_body_is_one_empty_cell() {
    assert_eq!(decode(""), grid(&[&[""]]));
}

#[test]
fn decode_keeps_ragged_rows() {
    assert_eq!(decode("a,b,c\nd\n"), grid(&[&["a", "b", "c"], &["d"], &[""]]));
}

#[test]
fn encode_joins_rows_and_cells() {
    let g = grid(&[&["a", "b"], &["", "d"]]);
    assert_eq!(encode(&g, &None), "a,b\n,d");
}

#[test]
fn encode_override_replaces_cell() {
    let g = grid(&[&["a", "b"], &["c", "d"]]);
    assert_eq!(encode(&g, &Some(((1, 0), "zz".to_string()))), "a,zz\nc,d");
}

#[test]
fn encode_empty_override_is_a_space() {
    let g = grid(&[&["a", "b"], &["c", "d"]]);
    assert_eq!(encode(&g, &Some(((0, 1), String::new()))), "a,b\n ,d");
}

#[test]
fn encode_override_outside_grid_is_ignored() {
    let g = grid(&[&["a"]]);
    assert_eq!(encode(&g, &Some(((3, 3), "q".to_string()))), "a");
}

#[test]
fn round_trip_rectangular_grid() {
    let g = grid(&[&["x", "1.5", ""], &["é", " ", "z"]]);
    assert_eq!(decode(&encode(&g, &None)), g);
}

#[test]
fn round_trip_body() {
    let body = "a,,b\n\n,c\n";
    assert_eq!(encode(&decode(body), &None), body);
}
