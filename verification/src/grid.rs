//! Worksheet cells as the schedule reads them: a rectangle of cells with
//! its top-left position in the sheet, as `calamine::Range` holds it.

use calamine::{Data, Range};
use vstd::prelude::*;

verus! {

#[verifier::external_type_specification]
#[verifier::external_body]
#[verifier::reject_recursive_types(T)]
pub struct ExRange<T>(Range<T>);

#[verifier::external_type_specification]
#[verifier::external_body]
pub struct ExData(Data);

/// The value of a worksheet cell, as far as the schedule tells values
/// apart.
#[derive(Clone, Debug, PartialEq)]
pub enum Cell {
    /// No value.
    Empty,
    /// An integer.
    Int(i64),
    /// A floating-point number, held as the text `{:.0}` writes of it (the
    /// number rounded to a whole one).
    Float(String),
    /// A text.
    String(String),
    /// A boolean, a date or time, a duration, or an error value.
    Other,
}

impl Cell {
    /// Whether the cell holds no value (`calamine::DataType::is_empty`).
    pub open spec fn is_empty_cell(self) -> bool {
        self is Empty
    }
}

/// A rectangle of cells: `start` is the sheet position (row, column) of its
/// top-left cell, `rows` its rows, all of one width.
pub struct Grid {
    pub start: (u32, u32),
    pub rows: Vec<Vec<Cell>>,
}

/// The rows of cells of a range, seen as sequences.
pub open spec fn rows_view(rows: Seq<Vec<Cell>>) -> Seq<Seq<Cell>> {
    rows.map_values(|r: Vec<Cell>| r@)
}

/// Rows that form a rectangle: all of one width, and not of width zero when
/// there is a row.
pub open spec fn is_rectangle(rows: Seq<Seq<Cell>>) -> bool {
    &&& forall|i: int| 0 <= i < rows.len() ==> (#[trigger] rows[i]).len() == rows[0].len()
    &&& rows.len() > 0 ==> rows[0].len() > 0
}

/// The width of rectangular rows.
pub open spec fn rows_width(rows: Seq<Seq<Cell>>) -> int {
    if rows.len() == 0 {
        0
    } else {
        rows[0].len() as int
    }
}

/// The cell at `(row, col)` counted from the top-left cell, or `None` out of
/// the rectangle (`calamine::Range::get`).
pub open spec fn cell_at(rows: Seq<Seq<Cell>>, row: int, col: int) -> Option<Cell> {
    if 0 <= row < rows.len() && 0 <= col < rows_width(rows) {
        Some(rows[row][col])
    } else {
        None
    }
}

/// The cell at the sheet position `(row, col)`, `Empty` outside the
/// rectangle (what `calamine::Range::range` copies into a new range).
pub open spec fn cell_at_position(start: (u32, u32), rows: Seq<Seq<Cell>>, row: int, col: int) -> Cell {
    match cell_at(rows, row - start.0, col - start.1) {
        Some(c) => c,
        None => Cell::Empty,
    }
}

impl Grid {
    pub open spec fn view_rows(self) -> Seq<Seq<Cell>> {
        rows_view(self.rows@)
    }

    pub open spec fn wf(self) -> bool {
        is_rectangle(self.view_rows())
    }

    /// A grid with top-left cell at `start` and the given rows, or `None`
    /// where the rows are not all of one non-zero width.
    pub fn new(start: (u32, u32), rows: Vec<Vec<Cell>>) -> (res: Option<Grid>)
        ensures
            res is Some <==> is_rectangle(rows_view(rows@)),
            res matches Some(g) ==> g.start == start && g.view_rows() == rows_view(rows@),
    {
        let n = rows.len();
        if n > 0 {
            let w = rows[0].len();
            if w == 0 {
                return None;
            }
            let mut i: usize = 0;
            while i < n
                invariant
                    0 <= i <= n,
                    n == rows@.len(),
                    n > 0,
                    w == rows@[0].len(),
                    forall|k: int| 0 <= k < i ==> (#[trigger] rows@[k]).len() == w,
                decreases n - i,
            {
                if rows[i].len() != w {
                    assert(rows_view(rows@)[i as int].len() != rows_view(rows@)[0].len());
                    return None;
                }
                i = i + 1;
            }
        }
        Some(Grid { start, rows })
    }

    /// The cell at `(row, col)` counted from the top-left cell, or `None`
    /// outside the grid (as `calamine::Range::get` answers).
    pub fn get(&self, row: usize, col: usize) -> (res: Option<&Cell>)
        requires
            self.wf(),
        ensures
            res == match cell_at(self.view_rows(), row as int, col as int) {
                Some(c) => Some(&c),
                None => None,
            },
    {
        let h = self.rows.len();
        if row >= h {
            return None;
        }
        let r = &self.rows[row];
        assert(self.view_rows()[row as int] == r@);
        assert(self.view_rows()[row as int].len() == rows_width(self.view_rows()));
        if col >= r.len() {
            return None;
        }
        Some(&r[col])
    }

    /// The cell at the sheet position `(row, col)`, `Empty` outside the grid.
    pub fn at_position(&self, row: u32, col: u32) -> (res: &Cell)
        requires
            self.wf(),
        ensures
            *res == cell_at_position(self.start, self.view_rows(), row as int, col as int),
    {
        if row < self.start.0 || col < self.start.1 {
            return &Cell::Empty;
        }
        match self.get((row - self.start.0) as usize, (col - self.start.1) as usize) {
            Some(c) => c,
            None => &Cell::Empty,
        }
    }
}

/// What a `calamine::Range<Data>` holds: its rows of cells, all of one
/// width (top row first).
pub uninterp spec fn range_rows(r: Range<Data>) -> Seq<Seq<Cell>>;

/// The sheet position (row, column) of the top-left cell of a non-empty
/// `calamine::Range<Data>`.
pub uninterp spec fn range_origin(r: Range<Data>) -> (u32, u32);

/// `calamine::Range::height`: the number of rows.
#[verifier::external_body]
fn range_height(r: &Range<Data>) -> (res: usize)
    ensures
        res == range_rows(*r).len(),
{
    r.height()
}

/// `calamine::Range::width`: the width of the rows, 0 for an empty range;
/// the rows of a range are all of that width.
#[verifier::external_body]
fn range_width(r: &Range<Data>) -> (res: usize)
    ensures
        res == rows_width(range_rows(*r)),
        forall|i: int|
            0 <= i < range_rows(*r).len() ==> (#[trigger] range_rows(*r)[i]).len() == res,
        range_rows(*r).len() > 0 ==> res > 0,
{
    r.width()
}

/// `calamine::Range::start`: the position of the top-left cell, `None` for
/// an empty range.
#[verifier::external_body]
fn range_start(r: &Range<Data>) -> (res: Option<(u32, u32)>)
    ensures
        res == if range_rows(*r).len() == 0 {
            None
        } else {
            Some(range_origin(*r))
        },
{
    r.start()
}

/// `calamine::Range::get` at `(row, col)` counted from the top-left cell,
/// the `calamine::Data` read as a `Cell`, variant for variant: a float is
/// kept as the text `{:.0}` writes of it (the schedule shows a room number
/// held as a float that way, and a float cannot be held here otherwise);
/// the five variants the schedule never tells apart (boolean, date and
/// time, ISO date and time, duration, error) all become `Cell::Other`.
#[verifier::external_body]
fn range_get(r: &Range<Data>, row: usize, col: usize) -> (res: Option<Cell>)
    ensures
        res == cell_at(range_rows(*r), row as int, col as int),
{
    match r.get((row, col)) {
        Some(Data::Empty) => Some(Cell::Empty),
        Some(Data::Int(v)) => Some(Cell::Int(*v)),
        Some(Data::Float(f)) => Some(Cell::Float(format!("{:.0}", f))),
        Some(Data::String(s)) => Some(Cell::String(s.clone())),
        Some(_) => Some(Cell::Other),
        None => None,
    }
}

impl Grid {
    /// The cells of a worksheet range, as a grid.
    pub fn from_range(r: &Range<Data>) -> (res: Grid)
        ensures
            res.wf(),
            res.view_rows() == range_rows(*r),
            res.start == if range_rows(*r).len() == 0 {
                (0u32, 0u32)
            } else {
                range_origin(*r)
            },
    {
        let h = range_height(r);
        let w = range_width(r);
        let start = match range_start(r) {
            Some(s) => s,
            None => (0, 0),
        };
        let ghost rr = range_rows(*r);
        let mut rows: Vec<Vec<Cell>> = Vec::new();
        let mut i: usize = 0;
        while i < h
            invariant
                0 <= i <= h,
                h == rr.len(),
                w == rows_width(rr),
                is_rectangle(rr),
                rr == range_rows(*r),
                rows@.len() == i,
                forall|k: int| 0 <= k < i ==> (#[trigger] rows@[k])@ == rr[k],
            decreases h - i,
        {
            let mut row: Vec<Cell> = Vec::new();
            let mut j: usize = 0;
            while j < w
                invariant
                    0 <= i < h,
                    0 <= j <= w,
                    h == rr.len(),
                    w == rows_width(rr),
                    is_rectangle(rr),
                    rr == range_rows(*r),
                    row@.len() == j,
                    forall|k: int| 0 <= k < j ==> row@[k] == rr[i as int][k],
                decreases w - j,
            {
                let c = match range_get(r, i, j) {
                    Some(c) => c,
                    None => Cell::Empty,
                };
                row.push(c);
                j = j + 1;
            }
            assert(row@ == rr[i as int]);
            rows.push(row);
            i = i + 1;
        }
        assert(rows_view(rows@) == rr);
        Grid { start, rows }
    }
}

} // verus!
