use vstd::prelude::*;

use vstd::math::max;
use vstd::math::min;

verus! {

/// One page of query results, immutable once constructed: the
/// engine-reported column names (duplicates allowed, order kept), the rows
/// as text, and the derived display width of each column.
pub struct TableData {
    pub columns: Vec<String>,
    pub max_lengths: Vec<u8>,
    pub rows: Vec<Vec<String>>,
}

/// Widest cell of column `i` over the rows, in characters; a row without
/// that column counts as empty.
pub open spec fn max_cell_width(rows: Seq<Vec<String>>, i: int) -> int
    decreases rows.len(),
{
    if rows.len() == 0 {
        0
    } else {
        let last = if i < rows.last()@.len() {
            rows.last()@[i]@.len() as int
        } else {
            0
        };
        max(max_cell_width(rows.drop_last(), i), last)
    }
}

/// Display width of column `i`: the wider of its name and its widest
/// cell, capped at the widest representable column.
pub open spec fn col_width(columns: Seq<String>, rows: Seq<Vec<String>>, i: int) -> int {
    min(255, max(columns[i]@.len() as int, max_cell_width(rows, i)))
}

impl TableData {
    /// Assemble a result table and derive each column's display width.
    pub fn new(columns: Vec<String>, rows: Vec<Vec<String>>) -> (r: TableData)
        ensures
            r.columns == columns,
            r.rows == rows,
            r.max_lengths@.len() == columns@.len(),
            forall|i: int| 0 <= i < columns@.len() ==> #[trigger] r.max_lengths@[i] as int
                == col_width(columns@, rows@, i),
    {
        let mut max_lengths: Vec<u8> = Vec::new();
        let ncols = columns.len();
        let nrows = rows.len();
        let mut i: usize = 0;
        while i < ncols
            invariant
                i <= ncols,
                ncols == columns@.len(),
                nrows == rows@.len(),
                max_lengths@.len() == i,
                forall|k: int| 0 <= k < i ==> #[trigger] max_lengths@[k] as int == col_width(
                    columns@,
                    rows@,
                    k,
                ),
            decreases ncols - i,
        {
            let mut w: usize = columns[i].as_str().unicode_len();
            let mut j: usize = 0;
            while j < nrows
                invariant
                    j <= nrows,
                    i < ncols,
                    ncols == columns@.len(),
                    nrows == rows@.len(),
                    w as int == max(
                        columns@[i as int]@.len() as int,
                        max_cell_width(rows@.take(j as int), i as int),
                    ),
                decreases nrows - j,
            {
                let row = &rows[j];
                let cell_width: usize = if i < row.len() {
                    row[i].as_str().unicode_len()
                } else {
                    0
                };
                if cell_width > w {
                    w = cell_width;
                }
                proof {
                    assert(rows@.take(j + 1).drop_last() =~= rows@.take(j as int));
                    assert(rows@.take(j + 1).last() == rows@[j as int]);
                }
                j += 1;
            }
            proof {
                assert(rows@.take(nrows as int) =~= rows@);
            }
            if w > 255 {
                max_lengths.push(255);
            } else {
                max_lengths.push(w as u8);
            }
            i += 1;
        }
        TableData { columns, max_lengths, rows }
    }
}

} // verus!
