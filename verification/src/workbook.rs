//! The timetable workbook as the schedule reads it: the names of its sheets
//! in workbook order, and the cells of each sheet that could be read.

use crate::grid::{range_origin, range_rows, Cell, Grid};
use calamine::{Data, Range};
use vstd::prelude::*;

verus! {

/// A workbook: one name per sheet and, for each, its cells or `None`
/// where the sheet could not be read.
pub struct Workbook {
    names: Vec<String>,
    sheets: Vec<Option<Grid>>,
}

impl Workbook {
    /// One entry of cells per name, each a rectangle.
    #[verifier::type_invariant]
    spec fn inv(self) -> bool {
        &&& self.names@.len() == self.sheets@.len()
        &&& forall|i: int| 0 <= i < self.sheets@.len() ==> (#[trigger] self.sheets@[i] matches Some(g) ==> g.wf())
    }

    /// The names of the sheets, in workbook order.
    pub closed spec fn names(self) -> Seq<Seq<char>> {
        self.names@.map_values(|s: String| s@)
    }

    /// The top-left position and the rows of cells of the `i`-th sheet,
    /// `None` where it could not be read.
    pub closed spec fn sheet(self, i: int) -> Option<((u32, u32), Seq<Seq<Cell>>)> {
        match self.sheets@[i] {
            Some(g) => Some((g.start, g.view_rows())),
            None => None,
        }
    }

    /// A workbook without sheets.
    pub fn new() -> (res: Workbook)
        ensures
            res.names() == Seq::<Seq<char>>::empty(),
    {
        let res = Workbook { names: Vec::new(), sheets: Vec::new() };
        assert(res.names() =~= Seq::<Seq<char>>::empty());
        res
    }

    /// Adds the sheet `name` after the others, with the cells of the range
    /// read from it (`None` where reading it failed).
    pub fn push_sheet(&mut self, name: String, range: Option<Range<Data>>)
        ensures
            final(self).names() == old(self).names().push(name@),
            forall|i: int| 0 <= i < old(self).names().len() ==> #[trigger] final(self).sheet(i) == old(self).sheet(i),
            final(self).sheet(old(self).names().len() as int) == match range {
                Some(r) => Some(
                    (if range_rows(r).len() == 0 { (0u32, 0u32) } else { range_origin(r) }, range_rows(r)),
                ),
                None => None,
            },
    {
        proof {
            use_type_invariant(&*self);
        }
        let sheet = match &range {
            Some(r) => Some(Grid::from_range(r)),
            None => None,
        };
        let ghost old_names = self.names@;
        let ghost old_sheets = self.sheets@;
        let mut taken = Workbook { names: Vec::new(), sheets: Vec::new() };
        std::mem::swap(&mut taken, self);
        let Workbook { mut names, mut sheets } = taken;
        names.push(name);
        sheets.push(sheet);
        assert(names@ == old_names.push(name));
        assert(sheets@ == old_sheets.push(sheet));
        *self = Workbook { names, sheets };
        assert(self.names() =~= old(self).names().push(name@));
    }

    /// The names of the sheets, in workbook order.
    pub fn sheet_names(&self) -> (res: &Vec<String>)
        ensures
            res@.map_values(|s: String| s@) == self.names(),
    {
        &self.names
    }

    /// The cells of the `i`-th sheet, `None` where it could not be read.
    pub fn worksheet(&self, i: usize) -> (res: Option<&Grid>)
        requires
            i < self.names().len(),
        ensures
            res is Some <==> self.sheet(i as int) is Some,
            res matches Some(g) ==> g.wf() && self.sheet(i as int) == Some((g.start, g.view_rows())),
    {
        proof {
            use_type_invariant(self);
        }
        match &self.sheets[i] {
            Some(g) => Some(g),
            None => None,
        }
    }
}

} // verus!
