//! The file format: rows separated by a newline, cells within a row by a
//! comma, with no quoting or escaping of either.
use vstd::prelude::*;
use crate::text::{chars_of, string_of};

verus! {

/// A grid as text: rows of cells, each cell a sequence of characters.
pub type Table = Seq<Seq<Seq<char>>>;

pub const FIELD_SEP: char = ',';

pub const LINE_SEP: char = '\n';

/// `parts` joined with `sep` between consecutive parts.
pub open spec fn join(parts: Seq<Seq<char>>, sep: char) -> Seq<char>
    decreases parts.len(),
{
    if parts.len() == 0 {
        Seq::empty()
    } else if parts.len() == 1 {
        parts[0]
    } else {
        join(parts.drop_last(), sep) + seq![sep] + parts.last()
    }
}

/// `s` cut at every occurrence of `sep`; always at least one part.
pub open spec fn split(s: Seq<char>, sep: char) -> Seq<Seq<char>>
    decreases s.len(),
{
    if s.len() == 0 {
        seq![Seq::empty()]
    } else {
        let head = split(s.drop_last(), sep);
        if s.last() == sep {
            head.push(Seq::empty())
        } else {
            head.update(head.len() - 1, head.last().push(s.last()))
        }
    }
}

pub open spec fn free_of(s: Seq<char>, c: char) -> bool {
    forall|k: int| 0 <= k < s.len() ==> s[k] != c
}

/// The view of a grid of strings.
pub open spec fn grid_view(g: &Vec<Vec<String>>) -> Table {
    Seq::new(g.len() as nat, |r: int| Seq::new(g[r].len() as nat, |c: int| g[r][c]@))
}

/// The cell at column `c` of row `r`, or the empty text where there is none.
pub open spec fn cell_or_empty(g: Table, c: int, r: int) -> Seq<char> {
    if 0 <= r < g.len() && 0 <= c < g[r].len() {
        g[r][c]
    } else {
        Seq::empty()
    }
}

/// `g` with the cell at column `c` of row `r` replaced by `v`; unchanged where
/// that cell does not exist.
pub open spec fn set_cell(g: Table, c: int, r: int, v: Seq<char>) -> Table {
    if 0 <= r < g.len() && 0 <= c < g[r].len() {
        g.update(r, g[r].update(c, v))
    } else {
        g
    }
}

/// The text written for an overriding cell value: an empty one becomes a
/// single space.
pub open spec fn nonblank(v: Seq<char>) -> Seq<char> {
    if v.len() == 0 {
        seq![' ']
    } else {
        v
    }
}

/// The file body of a grid.
pub open spec fn encode_spec(g: Table) -> Seq<char> {
    join(g.map_values(|row: Seq<Seq<char>>| join(row, FIELD_SEP)), LINE_SEP)
}

/// The grid read from a file body.
pub open spec fn decode_spec(s: Seq<char>) -> Table {
    split(s, LINE_SEP).map_values(|line: Seq<char>| split(line, FIELD_SEP))
}

/// The grid that `encode` writes for an optional override.
pub open spec fn overridden(g: Table, over: Option<((usize, usize), Seq<char>)>) -> Table {
    match over {
        Some(((c, r), v)) => set_cell(g, c as int, r as int, nonblank(v)),
        None => g,
    }
}

pub open spec fn override_view(over: &Option<((usize, usize), String)>) -> Option<((usize, usize), Seq<char>)> {
    match over {
        Some((pos, v)) => Some((*pos, v@)),
        None => None,
    }
}

pub proof fn lemma_split_nonempty(s: Seq<char>, sep: char)
    ensures
        split(s, sep).len() >= 1,
    decreases s.len(),
{
    if s.len() > 0 {
        lemma_split_nonempty(s.drop_last(), sep);
    }
}

/// Joining the parts of a split gives the text back.
pub proof fn lemma_join_split(s: Seq<char>, sep: char)
    ensures
        join(split(s, sep), sep) == s,
    decreases s.len(),
{
    if s.len() > 0 {
        let init = s.drop_last();
        let head = split(init, sep);
        lemma_split_nonempty(init, sep);
        lemma_join_split(init, sep);
        if s.last() == sep {
            let p = head.push(Seq::<char>::empty());
            assert(p.drop_last() =~= head);
            assert(s =~= init + seq![sep] + Seq::<char>::empty());
        } else {
            let p = head.update(head.len() - 1, head.last().push(s.last()));
            if head.len() == 1 {
                assert(s =~= init.push(s.last()));
            } else {
                assert(p.drop_last() =~= head.drop_last());
                assert(init == join(head.drop_last(), sep) + seq![sep] + head.last());
                assert(s =~= init.push(s.last()));
                assert(s =~= join(head.drop_last(), sep) + seq![sep] + head.last().push(s.last()));
            }
        }
    }
}

/// A text without `sep` splits into itself alone.
pub proof fn lemma_split_free(b: Seq<char>, sep: char)
    requires
        free_of(b, sep),
    ensures
        split(b, sep) == seq![b],
    decreases b.len(),
{
    if b.len() > 0 {
        lemma_split_free(b.drop_last(), sep);
        assert(b.drop_last().push(b.last()) =~= b);
        assert(seq![b.drop_last()].update(0, b.drop_last().push(b.last())) =~= seq![b]);
    } else {
        assert(b =~= Seq::<char>::empty());
    }
}

pub proof fn lemma_split_after_sep(a: Seq<char>, b: Seq<char>, sep: char)
    requires
        free_of(b, sep),
    ensures
        split(a + seq![sep] + b, sep) == split(a, sep).push(b),
    decreases b.len(),
{
    let s = a + seq![sep] + b;
    if b.len() == 0 {
        assert(s.drop_last() =~= a);
        assert(b =~= Seq::<char>::empty());
    } else {
        let bi = b.drop_last();
        lemma_split_after_sep(a, bi, sep);
        assert(s.drop_last() =~= a + seq![sep] + bi);
        assert(bi.push(b.last()) =~= b);
        assert(split(a, sep).push(bi).update(split(a, sep).len() as int, b) =~= split(a, sep).push(b));
    }
}

/// Splitting the join of parts without `sep` gives the parts back.
pub proof fn lemma_split_join(parts: Seq<Seq<char>>, sep: char)
    requires
        parts.len() >= 1,
        forall|i: int| 0 <= i < parts.len() ==> free_of(#[trigger] parts[i], sep),
    ensures
        split(join(parts, sep), sep) == parts,
    decreases parts.len(),
{
    if parts.len() == 1 {
        lemma_split_free(parts[0], sep);
        assert(seq![parts[0]] =~= parts);
    } else {
        let init = parts.drop_last();
        assert forall|i: int| 0 <= i < init.len() implies free_of(#[trigger] init[i], sep) by {
            assert(init[i] == parts[i]);
        }
        lemma_split_join(init, sep);
        assert(free_of(parts[parts.len() - 1], sep));
        lemma_split_after_sep(join(init, sep), parts.last(), sep);
        assert(init.push(parts.last()) =~= parts);
    }
}

/// Joining parts without `c` by a separator other than `c` gives a text without `c`.
pub proof fn lemma_join_free(parts: Seq<Seq<char>>, sep: char, c: char)
    requires
        sep != c,
        forall|i: int| 0 <= i < parts.len() ==> free_of(#[trigger] parts[i], c),
    ensures
        free_of(join(parts, sep), c),
    decreases parts.len(),
{
    if parts.len() > 1 {
        let init = parts.drop_last();
        assert forall|i: int| 0 <= i < init.len() implies free_of(#[trigger] init[i], c) by {
            assert(init[i] == parts[i]);
        }
        lemma_join_free(init, sep, c);
        assert(free_of(parts[parts.len() - 1], c));
    } else if parts.len() == 1 {
        assert(free_of(parts[0], c));
    }
}

/// Reading a grid back from the body written for it gives the same grid, for
/// any grid with at least one row, at least one cell in each row, and no
/// comma or newline inside a cell.
pub proof fn lemma_decode_encode(g: Table)
    requires
        g.len() >= 1,
        forall|r: int| 0 <= r < g.len() ==> #[trigger] g[r].len() >= 1,
        forall|r: int, c: int|
            0 <= r < g.len() && 0 <= c < g[r].len() ==> free_of(#[trigger] g[r][c], FIELD_SEP)
                && free_of(g[r][c], LINE_SEP),
    ensures
        decode_spec(encode_spec(g)) == g,
{
    let lines = g.map_values(|row: Seq<Seq<char>>| join(row, FIELD_SEP));
    assert forall|r: int| 0 <= r < lines.len() implies free_of(#[trigger] lines[r], LINE_SEP) by {
        assert forall|c: int| 0 <= c < g[r].len() implies free_of(#[trigger] g[r][c], LINE_SEP) by {
        }
        lemma_join_free(g[r], FIELD_SEP, LINE_SEP);
    }
    lemma_split_join(lines, LINE_SEP);
    assert forall|r: int| 0 <= r < g.len() implies split(#[trigger] lines[r], FIELD_SEP) == g[r] by {
        assert forall|c: int| 0 <= c < g[r].len() implies free_of(#[trigger] g[r][c], FIELD_SEP) by {
        }
        lemma_split_join(g[r], FIELD_SEP);
    }
    assert(decode_spec(encode_spec(g)) =~= g);
}

/// Writing the grid read from any body gives that body back.
pub proof fn lemma_encode_decode(s: Seq<char>)
    ensures
        encode_spec(decode_spec(s)) == s,
{
    let lines = split(s, LINE_SEP);
    let g = decode_spec(s);
    assert forall|r: int| 0 <= r < lines.len() implies join(#[trigger] g[r], FIELD_SEP) == lines[r] by {
        lemma_join_split(lines[r], FIELD_SEP);
    }
    assert(g.map_values(|row: Seq<Seq<char>>| join(row, FIELD_SEP)) =~= lines);
    lemma_join_split(s, LINE_SEP);
}

/// A copy of the cell at column `c` of row `r`, or an empty string where
/// there is none.
pub fn cell_text(g: &Vec<Vec<String>>, c: usize, r: usize) -> (t: String)
    ensures
        t@ == cell_or_empty(grid_view(g), c as int, r as int),
{
    if r < g.len() && c < g[r].len() {
        g[r][c].clone()
    } else {
        String::new()
    }
}

/// Writes a grid as a file body: rows joined by newlines, cells by commas.
/// An override `((column, row), text)` replaces the cell at that position in
/// the output, an empty text by a single space; it has no effect where that
/// cell does not exist.
pub fn encode(grid: &Vec<Vec<String>>, over: &Option<((usize, usize), String)>) -> (r: String)
    ensures
        r@ == encode_spec(overridden(grid_view(grid), override_view(over))),
{
    let ghost h = overridden(grid_view(grid), override_view(over));
    let ghost lines = h.map_values(|row: Seq<Seq<char>>| join(row, FIELD_SEP));
    let mut out = String::new();
    for j in 0..grid.len()
        invariant
            h == overridden(grid_view(grid), override_view(over)),
            lines == h.map_values(|row: Seq<Seq<char>>| join(row, FIELD_SEP)),
            h.len() == grid.len(),
            out@ == join(lines.take(j as int), LINE_SEP),
    {
        let row = &grid[j];
        let mut line = String::new();
        proof {
            assert(h[j as int].len() == row.len());
        }
        for i in 0..row.len()
            invariant
                row == grid[j as int],
                j < grid.len(),
                h == overridden(grid_view(grid), override_view(over)),
                h[j as int].len() == row.len(),
                line@ == join(h[j as int].take(i as int), FIELD_SEP),
        {
            let ghost before = line@;
            if i > 0 {
                line.push(FIELD_SEP);
            }
            let mut from_override = false;
            match over {
                Some(((c, r), v)) => {
                    if *c == i && *r == j {
                        if v.as_str().is_empty() {
                            line.push(' ');
                        } else {
                            line.append(v.as_str());
                        }
                        from_override = true;
                    }
                },
                None => {},
            }
            if !from_override {
                line.append(row[i].as_str());
            }
            proof {
                let t = h[j as int].take(i + 1);
                assert(t.drop_last() =~= h[j as int].take(i as int));
                assert(t.last() == h[j as int][i as int]);
                if i == 0 {
                    assert(line@ =~= t[0]);
                } else {
                    assert(line@ =~= before + seq![FIELD_SEP] + t.last());
                }
            }
        }
        proof {
            assert(h[j as int].take(row.len() as int) =~= h[j as int]);
        }
        let ghost before = out@;
        if j > 0 {
            out.push(LINE_SEP);
        }
        out.append(line.as_str());
        proof {
            let t = lines.take(j + 1);
            assert(t.drop_last() =~= lines.take(j as int));
            if j == 0 {
                assert(out@ =~= t[0]);
            } else {
                assert(out@ =~= before + seq![LINE_SEP] + t.last());
            }
        }
    }
    proof {
        assert(lines.take(grid.len() as int) =~= lines);
    }
    out
}

/// The parts of `cs` between occurrences of `sep`.
fn split_chars(cs: &Vec<char>, sep: char) -> (r: Vec<Vec<char>>)
    ensures
        r@.map_values(|p: Vec<char>| p@) == split(cs@, sep),
{
    let mut done: Vec<Vec<char>> = Vec::new();
    let mut cur: Vec<char> = Vec::new();
    for i in 0..cs.len()
        invariant
            done@.map_values(|p: Vec<char>| p@).push(cur@) == split(cs@.take(i as int), sep),
    {
        let c = cs[i];
        proof {
            assert(cs@.take(i + 1).drop_last() =~= cs@.take(i as int));
        }
        if c == sep {
            done.push(cur);
            cur = Vec::new();
            proof {
                assert(done@.map_values(|p: Vec<char>| p@).push(cur@) =~= split(cs@.take(i + 1), sep));
            }
        } else {
            let ghost before = done@.map_values(|p: Vec<char>| p@).push(cur@);
            cur.push(c);
            proof {
                assert(done@.map_values(|p: Vec<char>| p@).push(cur@) =~= before.update(
                    before.len() - 1,
                    before.last().push(c),
                ));
            }
        }
    }
    proof {
        assert(cs@.take(cs.len() as int) =~= cs@);
    }
    done.push(cur);
    proof {
        assert(done@.map_values(|p: Vec<char>| p@) =~= split(cs@, sep));
    }
    done
}

/// Reads a grid from a file body: lines become rows and commas separate
/// cells. Rows of differing lengths are kept as they are.
pub fn decode(body: &str) -> (g: Vec<Vec<String>>)
    ensures
        grid_view(&g) == decode_spec(body@),
{
    let cs = chars_of(body);
    let lines = split_chars(&cs, LINE_SEP);
    let ghost want = decode_spec(body@);
    let mut g: Vec<Vec<String>> = Vec::new();
    for k in 0..lines.len()
        invariant
            lines@.map_values(|p: Vec<char>| p@) == split(cs@, LINE_SEP),
            cs@ == body@,
            want == decode_spec(body@),
            want.len() == lines.len(),
            grid_view(&g) == want.take(k as int),
    {
        let parts = split_chars(&lines[k], FIELD_SEP);
        let mut row: Vec<String> = Vec::new();
        for m in 0..parts.len()
            invariant
                k < lines.len(),
                parts@.map_values(|p: Vec<char>| p@) == split(lines@[k as int]@, FIELD_SEP),
                row@.len() == m,
                forall|x: int| 0 <= x < m ==> #[trigger] row@[x]@ == parts@[x]@,
        {
            let cell = string_of(&parts[m]);
            row.push(cell);
        }
        proof {
            assert(lines@.map_values(|p: Vec<char>| p@)[k as int] == lines@[k as int]@);
            assert(want[k as int] == split(lines@[k as int]@, FIELD_SEP));
            assert(Seq::new(row.len() as nat, |c: int| row[c]@) =~= want[k as int]);
        }
        let ghost prev = g;
        proof {
            assert(grid_view(&prev).len() == prev.len());
            assert(prev.len() == k);
        }
        g.push(row);
        proof {
            assert forall|r: int| 0 <= r < k implies #[trigger] grid_view(&g)[r] == grid_view(&prev)[r] by {
                assert(g[r] == prev[r]);
                assert(grid_view(&g)[r] =~= grid_view(&prev)[r]);
            }
            assert(grid_view(&g)[k as int] =~= want[k as int]);
            assert(grid_view(&g) =~= want.take(k + 1));
        }
    }
    proof {
        assert(want.take(lines.len() as int) =~= want);
    }
    g
}

} // verus!
