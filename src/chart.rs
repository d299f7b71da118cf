//! Projection of a grid into line-chart series: the header row and the label
//! column are set aside, every other column becomes one series of points,
//! and the first cell that is not a number aborts the projection.
use vstd::prelude::*;
use crate::codec::{Table, cell_or_empty, cell_text, grid_view};

verus! {

/// The series of a chart, as the cell texts that make their points.
pub struct Chart {
    /// One name per series: the header cell above it, or a single space.
    pub names: Vec<String>,
    /// Series `j`, point `i`: the text of that cell.
    pub series: Vec<Vec<String>>,
    /// The labels of the x axis: the label column below the header row.
    pub x_labels: Vec<String>,
    /// The upper bound of the x axis; the lower bound is 0.
    pub x_upper: usize,
}

/// The first cell, in scan order, that is not a number.
pub struct ChartError {
    /// The text of that cell.
    pub text: String,
    /// Its series.
    pub series: usize,
    /// Its point within the series.
    pub point: usize,
}

impl ChartError {
    /// The message shown in place of the chart.
    pub fn message(&self) -> (r: String)
        ensures
            r@ == self.text@,
    {
        self.text.clone()
    }
}

/// The length of the longest row.
pub open spec fn max_width(g: Table) -> nat
    decreases g.len(),
{
    if g.len() == 0 {
        0
    } else {
        let w = max_width(g.drop_last());
        if g.last().len() > w {
            g.last().len()
        } else {
            w
        }
    }
}

pub open spec fn skip(flag: bool) -> nat {
    if flag {
        1
    } else {
        0
    }
}

/// How many series a projection has.
pub open spec fn series_count(g: Table, has_label_col: bool) -> nat {
    if max_width(g) >= skip(has_label_col) {
        (max_width(g) - skip(has_label_col)) as nat
    } else {
        0
    }
}

/// How many points each series has.
pub open spec fn point_count(g: Table, has_header_row: bool) -> nat {
    if g.len() >= skip(has_header_row) {
        (g.len() - skip(has_header_row)) as nat
    } else {
        0
    }
}

/// The text of point `i` of series `j`.
pub open spec fn point_text(g: Table, hh: bool, hl: bool, j: int, i: int) -> Seq<char> {
    cell_or_empty(g, j + skip(hl), i + skip(hh))
}

/// Whether the caller judged the cell at column `c` of row `r` a number; a
/// cell outside `ok` is not one.
pub open spec fn numeric_at(ok: Seq<Seq<bool>>, c: int, r: int) -> bool {
    0 <= r < ok.len() && 0 <= c < ok[r].len() && ok[r][c]
}

pub open spec fn point_fails(ok: Seq<Seq<bool>>, hh: bool, hl: bool, j: int, i: int) -> bool {
    !numeric_at(ok, j + skip(hl), i + skip(hh))
}

pub open spec fn bools_view(ok: &Vec<Vec<bool>>) -> Seq<Seq<bool>> {
    Seq::new(ok.len() as nat, |r: int| ok[r]@)
}

/// Whether point `(j, i)` comes before point `(j2, i2)`: series by series,
/// point by point within a series.
pub open spec fn scanned_before(j: int, i: int, j2: int, i2: int) -> bool {
    j < j2 || (j == j2 && i < i2)
}

pub open spec fn series_view(c: &Chart) -> Table {
    grid_view(&c.series)
}

pub open spec fn strings_view(v: &Vec<String>) -> Seq<Seq<char>> {
    Seq::new(v.len() as nat, |k: int| v[k]@)
}

/// The series that a projection without failure yields.
pub open spec fn expected_series(g: Table, hh: bool, hl: bool) -> Table {
    Seq::new(
        series_count(g, hl),
        |j: int| Seq::new(point_count(g, hh), |i: int| point_text(g, hh, hl, j, i)),
    )
}

pub open spec fn expected_names(g: Table, hh: bool, hl: bool) -> Seq<Seq<char>> {
    Seq::new(
        series_count(g, hl),
        |j: int|
            if hh {
                cell_or_empty(g, j + skip(hl), 0)
            } else {
                seq![' ']
            },
    )
}

pub open spec fn expected_labels(g: Table, hh: bool, hl: bool) -> Seq<Seq<char>> {
    if hl {
        Seq::new(point_count(g, hh), |i: int| cell_or_empty(g, 0, i + skip(hh)))
    } else {
        Seq::empty()
    }
}

pub open spec fn expected_x_upper(g: Table, hh: bool) -> nat {
    if point_count(g, hh) > 0 {
        (point_count(g, hh) - 1) as nat
    } else {
        0
    }
}

/// The length of the longest row.
fn widest(g: &Vec<Vec<String>>) -> (w: usize)
    ensures
        w == max_width(grid_view(g)),
{
    let mut w: usize = 0;
    for k in 0..g.len()
        invariant
            w == max_width(grid_view(g).take(k as int)),
    {
        proof {
            let t = grid_view(g).take(k + 1);
            assert(t.drop_last() =~= grid_view(g).take(k as int));
            assert(t.last().len() == g[k as int].len());
        }
        if g[k].len() > w {
            w = g[k].len();
        }
    }
    proof {
        assert(grid_view(g).take(g.len() as int) =~= grid_view(g));
    }
    w
}

fn is_numeric(ok: &Vec<Vec<bool>>, c: usize, r: usize) -> (b: bool)
    ensures
        b == numeric_at(bools_view(ok), c as int, r as int),
{
    r < ok.len() && c < ok[r].len() && ok[r][c]
}

/// Projects a grid into chart series. The header row (when `has_header_row`)
/// names the series and the label column (when `has_label_col`) labels the x
/// axis; each remaining column is one series, each remaining row one point.
/// `numeric[r][c]` says whether the cell at column `c` of row `r` reads as a
/// number. The first point, series by series, whose cell is not a number
/// aborts the projection with that cell's text.
pub fn project(
    grid: &Vec<Vec<String>>,
    has_header_row: bool,
    has_label_col: bool,
    numeric: &Vec<Vec<bool>>,
) -> (res: Result<Chart, ChartError>)
    ensures
        ({
            let g = grid_view(grid);
            let ok = bools_view(numeric);
            let (hh, hl) = (has_header_row, has_label_col);
            match res {
                Ok(ch) => {
                    &&& forall|j: int, i: int|
                        0 <= j < series_count(g, hl) && 0 <= i < point_count(g, hh)
                            ==> !#[trigger] point_fails(ok, hh, hl, j, i)
                    &&& series_view(&ch) == expected_series(g, hh, hl)
                    &&& strings_view(&ch.names) == expected_names(g, hh, hl)
                    &&& strings_view(&ch.x_labels) == expected_labels(g, hh, hl)
                    &&& ch.x_upper == expected_x_upper(g, hh)
                },
                Err(e) => {
                    &&& e.series < series_count(g, hl)
                    &&& e.point < point_count(g, hh)
                    &&& point_fails(ok, hh, hl, e.series as int, e.point as int)
                    &&& forall|j: int, i: int|
                        0 <= j < series_count(g, hl) && 0 <= i < point_count(g, hh)
                            && scanned_before(j, i, e.series as int, e.point as int)
                            ==> !#[trigger] point_fails(ok, hh, hl, j, i)
                    &&& e.text@ == point_text(g, hh, hl, e.series as int, e.point as int)
                },
            }
        }),
{
    let ghost g = grid_view(grid);
    let ghost ok = bools_view(numeric);
    let ghost hh = has_header_row;
    let ghost hl = has_label_col;
    let skip_r: usize = if has_header_row { 1 } else { 0 };
    let skip_c: usize = if has_label_col { 1 } else { 0 };
    let width = widest(grid);
    let n_series: usize = if width >= skip_c { width - skip_c } else { 0 };
    let n_points: usize = if grid.len() >= skip_r { grid.len() - skip_r } else { 0 };
    let mut series: Vec<Vec<String>> = Vec::new();
    for j in 0..n_series
        invariant
            g == grid_view(grid),
            ok == bools_view(numeric),
            hh == has_header_row,
            hl == has_label_col,
            skip_r == skip(hh),
            skip_c == skip(hl),
            n_series == series_count(g, hl),
            n_points == point_count(g, hh),
            width == max_width(g),
            grid_view(&series) == expected_series(g, hh, hl).take(j as int),
            forall|j2: int, i2: int|
                0 <= j2 < j && 0 <= i2 < n_points ==> !#[trigger] point_fails(ok, hh, hl, j2, i2),
    {
        let mut points: Vec<String> = Vec::new();
        for i in 0..n_points
            invariant
                g == grid_view(grid),
                ok == bools_view(numeric),
                hh == has_header_row,
                hl == has_label_col,
                skip_r == skip(hh),
                skip_c == skip(hl),
                n_series == series_count(g, hl),
                n_points == point_count(g, hh),
                width == max_width(g),
                j < n_series,
                points@.len() == i,
                forall|x: int| 0 <= x < i ==> #[trigger] points@[x]@ == point_text(g, hh, hl, j as int, x),
                forall|j2: int, i2: int|
                    0 <= j2 < j && 0 <= i2 < n_points ==> !#[trigger] point_fails(ok, hh, hl, j2, i2),
                forall|i2: int| 0 <= i2 < i ==> !#[trigger] point_fails(ok, hh, hl, j as int, i2),
        {
            let c = j + skip_c;
            let r = i + skip_r;
            let text = cell_text(grid, c, r);
            if !is_numeric(numeric, c, r) {
                return Err(ChartError { text, series: j, point: i });
            }
            points.push(text);
        }
        let ghost prev = series;
        proof {
            assert(grid_view(&prev).len() == prev.len());
        }
        series.push(points);
        proof {
            assert forall|r: int| 0 <= r < j implies #[trigger] grid_view(&series)[r] == grid_view(&prev)[r] by {
                assert(series[r] == prev[r]);
                assert(grid_view(&series)[r] =~= grid_view(&prev)[r]);
            }
            assert(grid_view(&series)[j as int] =~= expected_series(g, hh, hl)[j as int]);
            assert(grid_view(&series) =~= expected_series(g, hh, hl).take(j + 1));
        }
    }
    proof {
        assert(expected_series(g, hh, hl).take(n_series as int) =~= expected_series(g, hh, hl));
    }
    let mut names: Vec<String> = Vec::new();
    for j in 0..n_series
        invariant
            g == grid_view(grid),
            hh == has_header_row,
            hl == has_label_col,
            skip_c == skip(hl),
            n_series == series_count(g, hl),
            width == max_width(g),
            names@.len() == j,
            forall|x: int| 0 <= x < j ==> #[trigger] names@[x]@ == expected_names(g, hh, hl)[x],
    {
        if has_header_row {
            names.push(cell_text(grid, j + skip_c, 0));
        } else {
            let mut blank = String::new();
            blank.push(' ');
            names.push(blank);
        }
    }
    proof {
        assert(strings_view(&names) =~= expected_names(g, hh, hl));
    }
    let mut x_labels: Vec<String> = Vec::new();
    if has_label_col {
        for i in 0..n_points
            invariant
                g == grid_view(grid),
                hh == has_header_row,
                hl == has_label_col,
                hl,
                skip_r == skip(hh),
                n_points == point_count(g, hh),
                x_labels@.len() == i,
                forall|x: int| 0 <= x < i ==> #[trigger] x_labels@[x]@ == expected_labels(g, hh, hl)[x],
        {
            x_labels.push(cell_text(grid, 0, i + skip_r));
        }
    }
    proof {
        assert(strings_view(&x_labels) =~= expected_labels(g, hh, hl));
    }
    let x_upper: usize = if n_points > 0 { n_points - 1 } else { 0 };
    Ok(Chart { names, series, x_labels, x_upper })
}

} // verus!
