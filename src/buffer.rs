use vstd::prelude::*;

verus! {

/// A position in the document: a row and a column, both counted in chars.
#[derive(Clone, Copy, Debug, PartialEq, Eq, Structural)]
pub struct Index2 {
    pub row: usize,
    pub col: usize,
}

impl Index2 {
    pub open spec fn pos(self) -> (int, int) {
        (self.row as int, self.col as int)
    }

    /// The position at row `row`, column `col`.
    pub fn new(row: usize, col: usize) -> (r: Self)
        ensures
            r.row == row,
            r.col == col,
    {
        Index2 { row, col }
    }
}

#[derive(Clone, Copy, Debug, PartialEq, Eq, Structural)]
pub enum EditorMode {
    Normal,
    Insert,
    Visual,
}

/// A selection between two positions, both ends included, in either order.
#[derive(Clone, Copy, Debug, PartialEq, Eq, Structural)]
pub struct Selection {
    pub start: Index2,
    pub end: Index2,
}

/// The document seen as rows of characters.
pub open spec fn doc(lines: Vec<Vec<char>>) -> Seq<Seq<char>> {
    lines@.map_values(|l: Vec<char>| l@)
}

/// `doc` has a row for each row of `lines`, holding its characters.
pub proof fn lemma_doc(lines: Vec<Vec<char>>)
    ensures
        doc(lines).len() == lines.len(),
        forall|i: int| 0 <= i < lines.len() ==> #[trigger] doc(lines)[i] == lines@[i]@,
{
}

/// The length of a row, 0 for a row that does not exist.
pub open spec fn row_len(d: Seq<Seq<char>>, r: int) -> int {
    if 0 <= r < d.len() {
        d[r].len() as int
    } else {
        0
    }
}

/// The index of the last row (0 for a document with no row).
pub open spec fn last_row(d: Seq<Seq<char>>) -> int {
    if d.len() == 0 {
        0
    } else {
        d.len() - 1
    }
}

/// The column of the last character of a row (0 for an empty row).
pub open spec fn last_col(d: Seq<Seq<char>>, r: int) -> int {
    if row_len(d, r) == 0 {
        0
    } else {
        row_len(d, r) - 1
    }
}

/// Positions are ordered row first, then column.
pub open spec fn before(a: (int, int), b: (int, int)) -> bool {
    a.0 < b.0 || (a.0 == b.0 && a.1 < b.1)
}

} // verus!
