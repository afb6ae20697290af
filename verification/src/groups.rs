//! The study groups of the current week's sheet: each group's name (lower
//! case) and the sheet position of its column header.

use crate::grid::{cell_at_position, Cell, Grid};
use crate::text::{lowercase, same_text, to_lowercase};

use vstd::prelude::*;

verus! {

/// The sheet row (counted from 0) that holds the group names.
pub const HEADER_ROW: u32 = 4;

/// The last sheet column (counted from 0) searched for group names.
pub const LAST_HEADER_COLUMN: u32 = 290;

/// A group: its name in lower case, and the row (counted from the header
/// row) and column of its header cell.
pub struct GroupEntry {
    pub name: String,
    pub row: usize,
    pub col: usize,
}

/// The map the entries make when each later entry for a name replaces the
/// earlier ones.
pub open spec fn entries_map(s: Seq<GroupEntry>) -> Map<Seq<char>, (usize, usize)>
    decreases s.len(),
{
    if s.len() == 0 {
        Map::empty()
    } else {
        entries_map(s.drop_last()).insert(s.last().name@, (s.last().row, s.last().col))
    }
}

/// The groups found in a week's sheet, by lower-case name.
///
/// Held as a list of entries whose view is the map, not as a
/// `HashMap<String, _>`: vstd's specification of `HashMap` speaks of
/// lookups only for keys it knows to obey its key model (the integer types
/// and `bool`), and `String` is not among them, so nothing would be proved
/// of a lookup by name.
pub struct GroupTable {
    entries: Vec<GroupEntry>,
}

impl View for GroupTable {
    type V = Map<Seq<char>, (usize, usize)>;

    closed spec fn view(&self) -> Map<Seq<char>, (usize, usize)> {
        entries_map(self.entries@)
    }
}

/// The groups the header row of a sheet names, reading its first `n`
/// columns from the left: each text cell names the group of its column, a
/// later column taking a name over from an earlier one.
pub open spec fn header_groups(start: (u32, u32), rows: Seq<Seq<Cell>>, n: int) -> Map<
    Seq<char>,
    (usize, usize),
>
    decreases n,
{
    if n <= 0 {
        Map::empty()
    } else {
        let m = header_groups(start, rows, n - 1);
        match cell_at_position(start, rows, HEADER_ROW as int, n - 1) {
            Cell::String(s) => m.insert(lowercase(s@), (0usize, (n - 1) as usize)),
            _ => m,
        }
    }
}

/// The entries hold no column beyond the last header column.
pub open spec fn columns_in_header(s: Seq<GroupEntry>) -> bool {
    forall|i: int| 0 <= i < s.len() ==> (#[trigger] s[i]).col <= LAST_HEADER_COLUMN
}

proof fn lemma_entries_columns(s: Seq<GroupEntry>)
    requires
        columns_in_header(s),
    ensures
        forall|k: Seq<char>|
            #[trigger] entries_map(s).contains_key(k) ==> entries_map(s)[k].1
                <= LAST_HEADER_COLUMN,
    decreases s.len(),
{
    if s.len() > 0 {
        assert forall|i: int| 0 <= i < s.drop_last().len() implies (
        #[trigger] s.drop_last()[i]).col <= LAST_HEADER_COLUMN by {
            assert(s.drop_last()[i] == s[i]);
        }
        lemma_entries_columns(s.drop_last());
        assert(s[s.len() - 1].col <= LAST_HEADER_COLUMN);
        assert forall|k: Seq<char>| #[trigger]
            entries_map(s).contains_key(k) implies entries_map(s)[k].1 <= LAST_HEADER_COLUMN by {
            if k != s.last().name@ {
                assert(entries_map(s.drop_last()).contains_key(k));
            }
        }
    }
}

/// Looking up `k` from the end of the entries finds what the map holds.
proof fn lemma_entries_suffix(s: Seq<GroupEntry>, n: int, k: Seq<char>)
    requires
        0 <= n <= s.len(),
        forall|j: int| n <= j < s.len() ==> (#[trigger] s[j]).name@ != k,
    ensures
        entries_map(s).contains_key(k) == entries_map(s.take(n)).contains_key(k),
        entries_map(s).contains_key(k) ==> entries_map(s)[k] == entries_map(s.take(n))[k],
    decreases s.len() - n,
{
    if n < s.len() {
        assert(s.drop_last() == s.take(s.len() - 1));
        lemma_entries_suffix(s.drop_last(), n, k);
        assert(s.drop_last().take(n) == s.take(n));
    } else {
        assert(s.take(n) == s);
    }
}

impl GroupTable {
    #[verifier::type_invariant]
    closed spec fn inv(self) -> bool {
        columns_in_header(self.entries@)
    }

    /// A table with no groups.
    pub fn new() -> (res: GroupTable)
        ensures
            res@ == Map::<Seq<char>, (usize, usize)>::empty(),
    {
        GroupTable { entries: Vec::new() }
    }

    /// Records the group `name` at `(row, col)`, replacing what was recorded
    /// for that name.
    fn insert(&mut self, name: String, row: usize, col: usize)
        requires
            col <= LAST_HEADER_COLUMN,
        ensures
            final(self)@ == old(self)@.insert(name@, (row, col)),
    {
        proof {
            use_type_invariant(&*self);
        }
        let ghost before = self.entries@;
        let e = GroupEntry { name, row, col };
        let mut entries: Vec<GroupEntry> = Vec::new();
        std::mem::swap(&mut entries, &mut self.entries);
        entries.push(e);
        assert(entries@.drop_last() == before);
        self.entries = entries;
    }

    /// The row and column recorded for the group `name` (in lower case).
    pub fn get(&self, name: &str) -> (res: Option<(usize, usize)>)
        ensures
            res is Some <==> self@.contains_key(name@),
            res matches Some(v) ==> v == self@[name@],
            res matches Some(v) ==> v.1 <= LAST_HEADER_COLUMN,
    {
        proof {
            use_type_invariant(self);
            lemma_entries_columns(self.entries@);
        }
        let n = self.entries.len();
        let mut i: usize = n;
        while i > 0
            invariant
                0 <= i <= n,
                n == self.entries@.len(),
                columns_in_header(self.entries@),
                forall|j: int| i <= j < n ==> (#[trigger] self.entries@[j]).name@ != name@,
            decreases i,
        {
            let e = &self.entries[i - 1];
            if same_text(e.name.as_str(), name) {
                proof {
                    lemma_entries_suffix(self.entries@, i as int, name@);
                    assert(self.entries@.take(i as int).drop_last() == self.entries@.take(
                        i - 1,
                    ));
                }
                return Some((e.row, e.col));
            }
            i = i - 1;
        }
        proof {
            lemma_entries_suffix(self.entries@, 0, name@);
        }
        None
    }

    /// Whether the group `name` (in lower case) is recorded.
    pub fn contains(&self, name: &str) -> (res: bool)
        ensures
            res == self@.contains_key(name@),
    {
        self.get(name).is_some()
    }

    /// The groups named in the header row of a sheet (`HEADER_ROW`, columns
    /// 0 to `LAST_HEADER_COLUMN`): for each text cell its lower-case text,
    /// at row 0 and its column; where two cells name one group the later
    /// column counts.
    pub fn from_header(sheet: &Grid) -> (res: GroupTable)
        requires
            sheet.wf(),
        ensures
            res@ == header_groups(sheet.start, sheet.view_rows(), 291),
    {
        let mut table = GroupTable::new();
        let mut col: u32 = 0;
        while col <= LAST_HEADER_COLUMN
            invariant
                col <= LAST_HEADER_COLUMN + 1,
                sheet.wf(),
                table@ == header_groups(sheet.start, sheet.view_rows(), col as int),
            decreases LAST_HEADER_COLUMN + 1 - col,
        {
            match sheet.at_position(HEADER_ROW, col) {
                Cell::String(s) => {
                    let name = to_lowercase(s.as_str());
                    table.insert(name, 0, col as usize);
                },
                _ => {},
            }
            col = col + 1;
        }
        table
    }
}

} // verus!

verus! {

/// The header cell of column `col` (sheet row 4) is a text whose lower
/// case is `key`.
pub open spec fn names_group(start: (u32, u32), rows: Seq<Seq<Cell>>, col: int, key: Seq<char>) -> bool {
    cell_at_position(start, rows, 4, col) matches Cell::String(s) && lowercase(s@)
        == key
}

/// Law: a group is found in the header exactly when a header cell among the
/// first `n` columns names it (in any letter case); it is found at row 0 and
/// at the last such column.
pub proof fn law_header_groups(start: (u32, u32), rows: Seq<Seq<Cell>>, n: int, key: Seq<char>)
    requires
        0 <= n <= LAST_HEADER_COLUMN + 1,
    ensures
        header_groups(start, rows, n).contains_key(key) <==> exists|c: int|
            0 <= c < n && #[trigger] names_group(start, rows, c, key),
        header_groups(start, rows, n).contains_key(key) ==> {
            let (row, col) = header_groups(start, rows, n)[key];
            &&& row == 0
            &&& 0 <= col < n
            &&& names_group(start, rows, col as int, key)
            &&& forall|c: int| col < c < n ==> !#[trigger] names_group(start, rows, c, key)
        },
    decreases n,
{
    if n > 0 {
        law_header_groups(start, rows, n - 1, key);
        if names_group(start, rows, n - 1, key) {
        } else {
            if exists|c: int| 0 <= c < n && #[trigger] names_group(start, rows, c, key) {
                let c = choose|c: int| 0 <= c < n && #[trigger] names_group(start, rows, c, key);
                assert(c < n - 1);
            }
        }
    }
}

} // verus!
