//! Reading a rendered screen back: the screen as text, the colour of the
//! status line, and whether a piece of text shows in bold. The renderer hands
//! over its cells as plain values; these functions decide what the checks see.
use vstd::prelude::*;

use crate::text::{
    chars_of, contains_chars, contains_seq, find_chars, find_from, join_lines,
    join_with_newlines, lines_view,
    push_all, string_from_chars, trim, trim_chars, trim_end, trim_end_chars,
};

verus! {

/// The foreground colour of a screen cell, as far as the checks tell colours apart.
#[derive(Debug, Clone, Copy, PartialEq, Eq, Structural)]
pub enum CellColor {
    Yellow,
    LightYellow,
    Red,
    LightRed,
    Green,
    LightGreen,
    Other,
}

/// One cell of a rendered screen.
#[derive(Debug, Clone)]
pub struct ScreenCell {
    /// What the cell shows (usually one character; empty behind a wide one).
    pub symbol: String,
    pub bold: bool,
    pub color: CellColor,
}

/// The mathematical value of a [`ScreenCell`].
pub struct CellView {
    pub symbol: Seq<char>,
    pub bold: bool,
    pub color: CellColor,
}

impl View for ScreenCell {
    type V = CellView;

    open spec fn view(&self) -> CellView {
        CellView { symbol: self.symbol@, bold: self.bold, color: self.color }
    }
}

pub open spec fn cells_view(row: Seq<ScreenCell>) -> Seq<CellView> {
    row.map_values(|c: ScreenCell| c@)
}

pub open spec fn rows_view(rows: Seq<Vec<ScreenCell>>) -> Seq<Seq<CellView>> {
    rows.map_values(|r: Vec<ScreenCell>| cells_view(r@))
}

/// The text of a row: the cells' symbols one after the other.
pub open spec fn row_chars(row: Seq<CellView>) -> Seq<char>
    decreases row.len(),
{
    if row.len() == 0 {
        seq![]
    } else {
        row_chars(row.drop_last()) + row.last().symbol
    }
}

/// Each row's text without its trailing whitespace.
pub open spec fn trimmed_rows(rows: Seq<Seq<CellView>>) -> Seq<Seq<char>> {
    Seq::new(rows.len(), |i: int| trim_end(row_chars(rows[i])))
}

/// The lines without the empty ones at the end.
pub open spec fn drop_trailing_empty(ls: Seq<Seq<char>>) -> Seq<Seq<char>>
    decreases ls.len(),
{
    if ls.len() > 0 && ls.last().len() == 0 {
        drop_trailing_empty(ls.drop_last())
    } else {
        ls
    }
}

/// The screen as text: every row trimmed at the end, the empty rows at the
/// bottom dropped, the rest joined by newlines.
pub open spec fn spec_screen_text(rows: Seq<Seq<CellView>>) -> Seq<char> {
    join_lines(drop_trailing_empty(trimmed_rows(rows)))
}

/// The name of an accent colour; the light shades count as the colour itself.
pub open spec fn accent_name(c: CellColor) -> Option<Seq<char>> {
    match c {
        CellColor::Yellow | CellColor::LightYellow => Some("yellow"@),
        CellColor::Red | CellColor::LightRed => Some("red"@),
        CellColor::Green | CellColor::LightGreen => Some("green"@),
        CellColor::Other => None,
    }
}

/// The accent colour of the first cell that is not blank and has one, or `"none"`.
pub open spec fn first_accent(row: Seq<CellView>) -> Seq<char>
    decreases row.len(),
{
    if row.len() == 0 {
        "none"@
    } else if trim(row[0].symbol).len() > 0 && accent_name(row[0].color) is Some {
        accent_name(row[0].color).unwrap()
    } else {
        first_accent(row.drop_first())
    }
}

/// Whether the first cell among `x .. end` that is not blank is bold (false
/// when all are blank).
pub open spec fn first_nonblank_bold(row: Seq<CellView>, x: int, end: int) -> bool
    decreases end - x,
{
    if x >= end || x < 0 || x >= row.len() {
        false
    } else if trim(row[x].symbol).len() == 0 {
        first_nonblank_bold(row, x + 1, end)
    } else {
        row[x].bold
    }
}

/// The index of the cell that shows character `k` of the row's text (the
/// number of cells when the text has no such character); a cell with an
/// empty symbol shows no character.
pub open spec fn cell_of(row: Seq<CellView>, k: int) -> int
    decreases row.len(),
{
    if row.len() == 0 {
        0
    } else if k < row[0].symbol.len() {
        0
    } else {
        1 + cell_of(row.drop_first(), k - row[0].symbol.len())
    }
}

/// Whether `needle` shows in bold on the row. The row's text is searched for
/// the first occurrence of `needle`; among the cells that show its
/// characters, the first one that is not blank decides. An empty needle
/// shows in no cell.
pub open spec fn spec_bold_text(row: Seq<CellView>, needle: Seq<char>) -> bool {
    let text = row_chars(row);
    match find_from(text, needle, 0) {
        None => false,
        Some(k) => if needle.len() == 0 {
            false
        } else {
            let last = cell_of(row, k + needle.len() - 1);
            let end = if last < row.len() {
                last + 1
            } else {
                row.len() as int
            };
            first_nonblank_bold(row, cell_of(row, k), end)
        },
    }
}

/// The text of a row of cells.
pub fn row_text(row: &Vec<ScreenCell>) -> (r: Vec<char>)
    ensures
        r@ == row_chars(cells_view(row@)),
{
    let ghost cv = cells_view(row@);
    let mut r: Vec<char> = Vec::new();
    let mut i: usize = 0;
    assert(cv.take(0) =~= Seq::<CellView>::empty());
    while i < row.len()
        invariant
            i <= row.len(),
            cv == cells_view(row@),
            r@ == row_chars(cv.take(i as int)),
        decreases row.len() - i,
    {
        push_all(&mut r, &chars_of(row[i].symbol.as_str()));
        proof {
            assert(cv.take(i + 1).drop_last() =~= cv.take(i as int));
        }
        i += 1;
    }
    assert(cv.take(row.len() as int) =~= cv);
    r
}

/// A row as one string, without trailing whitespace: what the status line
/// shows at a moment.
pub fn row_snapshot(row: &Vec<ScreenCell>) -> (s: String)
    ensures
        s@ == trim_end(row_chars(cells_view(row@))),
{
    string_from_chars(&trim_end_chars(&row_text(row)))
}

/// The whole screen as text (see [`spec_screen_text`]).
pub fn screen_text(rows: &Vec<Vec<ScreenCell>>) -> (s: String)
    ensures
        s@ == spec_screen_text(rows_view(rows@)),
{
    let ghost rv = rows_view(rows@);
    let ghost tr = trimmed_rows(rv);
    let mut lines: Vec<Vec<char>> = Vec::new();
    let mut i: usize = 0;
    while i < rows.len()
        invariant
            i <= rows.len(),
            rv == rows_view(rows@),
            tr == trimmed_rows(rv),
            lines_view(lines@) =~= tr.take(i as int),
        decreases rows.len() - i,
    {
        let line = trim_end_chars(&row_text(&rows[i]));
        let ghost before = lines_view(lines@);
        lines.push(line);
        assert(lines_view(lines@) =~= before.push(tr[i as int]));
        i += 1;
    }
    assert(tr.take(rows.len() as int) =~= tr);
    while lines.len() > 0 && lines[lines.len() - 1].len() == 0
        invariant
            drop_trailing_empty(lines_view(lines@)) == drop_trailing_empty(tr),
        decreases lines.len(),
    {
        let ghost before = lines_view(lines@);
        let _ = lines.pop();
        assert(lines_view(lines@) =~= before.drop_last());
    }
    assert(drop_trailing_empty(lines_view(lines@)) == lines_view(lines@));
    string_from_chars(&join_with_newlines(&lines))
}

/// Whether `needle` appears anywhere in the screen's text.
pub fn screen_contains(rows: &Vec<Vec<ScreenCell>>, needle: &str) -> (b: bool)
    ensures
        b == contains_seq(spec_screen_text(rows_view(rows@)), needle@),
{
    let s = screen_text(rows);
    contains_chars(&chars_of(s.as_str()), &chars_of(needle))
}

/// The accent colour of the status line (see [`first_accent`]).
pub fn status_line_color_name(row: &Vec<ScreenCell>) -> (s: String)
    ensures
        s@ == first_accent(cells_view(row@)),
{
    let ghost cv = cells_view(row@);
    let mut i: usize = 0;
    assert(cv.skip(0) =~= cv);
    while i < row.len()
        invariant
            i <= row.len(),
            cv == cells_view(row@),
            first_accent(cv) == first_accent(cv.skip(i as int)),
        decreases row.len() - i,
    {
        proof {
            assert(cv.skip(i as int)[0] == cv[i as int]);
            assert(cv.skip(i as int).drop_first() =~= cv.skip(i + 1));
        }
        if trim_chars(&chars_of(row[i].symbol.as_str())).len() > 0 {
            match row[i].color {
                CellColor::Yellow | CellColor::LightYellow => return "yellow".to_string(),
                CellColor::Red | CellColor::LightRed => return "red".to_string(),
                CellColor::Green | CellColor::LightGreen => return "green".to_string(),
                CellColor::Other => {},
            }
        }
        i += 1;
    }
    assert(cv.skip(row.len() as int).len() == 0);
    "none".to_string()
}

/// The cell that shows character `k` of the row's text (see [`cell_of`]).
fn cell_of_char(cells: &Vec<ScreenCell>, k: usize) -> (r: usize)
    ensures
        r == cell_of(cells_view(cells@), k as int),
        r <= cells.len(),
{
    let ghost cv = cells_view(cells@);
    let mut i: usize = 0;
    let mut rem: usize = k;
    assert(cv.skip(0) =~= cv);
    while i < cells.len()
        invariant
            i <= cells.len(),
            cv == cells_view(cells@),
            cell_of(cv, k as int) == i + cell_of(cv.skip(i as int), rem as int),
        decreases cells.len() - i,
    {
        let l = chars_of(cells[i].symbol.as_str()).len();
        proof {
            assert(cv.skip(i as int)[0] == cv[i as int]);
            assert(cv.skip(i as int).drop_first() =~= cv.skip(i + 1));
        }
        if rem < l {
            return i;
        }
        rem = rem - l;
        i += 1;
    }
    assert(cv.skip(i as int).len() == 0);
    i
}

/// Whether `needle` shows in bold on row `row` of the screen (false for a row
/// below the screen; see [`spec_bold_text`]).
pub fn has_bold_text_on_row(rows: &Vec<Vec<ScreenCell>>, row: usize, needle: &str) -> (b: bool)
    ensures
        b == (row < rows.len() && spec_bold_text(cells_view(rows@[row as int]@), needle@)),
{
    if row >= rows.len() {
        return false;
    }
    let cells = &rows[row];
    let ghost cv = cells_view(cells@);
    let text = row_text(cells);
    let n = chars_of(needle);
    match find_chars(&text, &n) {
        None => false,
        Some(k) => {
            if n.len() == 0 {
                return false;
            }
            assert(k + n.len() <= text.len());
            let width = cells.len();
            let start = cell_of_char(cells, k);
            let last = cell_of_char(cells, k + n.len() - 1);
            let end = if last < width {
                last + 1
            } else {
                width
            };
            assert(spec_bold_text(cv, needle@) == first_nonblank_bold(cv, start as int, end as int));
            if start >= end {
                return false;
            }
            let mut x = start;
            while x < end
                invariant
                    start <= x <= end <= width,
                    width == cells.len(),
                    cv == cells_view(cells@),
                    row < rows.len(),
                    cv == cells_view(rows@[row as int]@),
                    spec_bold_text(cv, needle@) == first_nonblank_bold(cv, start as int, end as int),
                    first_nonblank_bold(cv, start as int, end as int) == first_nonblank_bold(
                        cv,
                        x as int,
                        end as int,
                    ),
                decreases end - x,
            {
                if trim_chars(&chars_of(cells[x].symbol.as_str())).len() == 0 {
                    x += 1;
                } else {
                    assert(cv[x as int] == cells@[x as int]@);
                    return cells[x].bold;
                }
            }
            false
        },
    }
}

} // verus!
