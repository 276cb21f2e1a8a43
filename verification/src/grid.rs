//! Turning a grid of bytes on its side: from one vector per class to one
//! vector per row.

use vstd::prelude::*;
use crate::model::rows_of;

verus! {

/// A grid that can be turned: it has a first line, and no line is shorter
/// than the first.
pub open spec fn can_transpose(grid: Seq<Seq<u8>>) -> bool {
    &&& grid.len() > 0
    &&& forall|i: int| 0 <= i < grid.len() ==> (#[trigger] grid[i]).len() >= grid[0].len()
}

/// Every line is exactly as long as the first.
pub open spec fn rectangular(grid: Seq<Seq<u8>>) -> bool {
    &&& grid.len() > 0
    &&& forall|i: int| 0 <= i < grid.len() ==> (#[trigger] grid[i]).len() == grid[0].len()
}

/// The grid on its side: line `n` holds item `n` of every line of `grid`, in
/// the order of the lines. There are as many lines as the first line of
/// `grid` has items; what longer lines hold beyond that is dropped.
pub open spec fn transposed(grid: Seq<Seq<u8>>) -> Seq<Seq<u8>> {
    Seq::new(grid[0].len(), |n: int| Seq::new(grid.len(), |i: int| grid[i][n]))
}

/// Turning a rectangular grid with at least one column twice gives it back.
pub proof fn lemma_transpose_twice(grid: Seq<Seq<u8>>)
    requires
        rectangular(grid),
        grid[0].len() > 0,
    ensures
        can_transpose(transposed(grid)),
        transposed(transposed(grid)) == grid,
{
    let once = transposed(grid);
    assert(once[0].len() == grid.len());
    let twice = transposed(once);
    assert(twice.len() == grid.len());
    assert forall|i: int| 0 <= i < grid.len() implies #[trigger] twice[i] =~= grid[i] by {
        assert(grid[i].len() == grid[0].len());
        assert forall|n: int| 0 <= n < grid[0].len() implies twice[i][n] == grid[i][n] by {
            assert(once[n][i] == grid[i][n]);
        }
    }
    assert(twice =~= grid);
}

/// Turns the grid on its side.
pub fn transpose(grid: &Vec<Vec<u8>>) -> (turned: Vec<Vec<u8>>)
    requires
        can_transpose(rows_of(grid)),
    ensures
        rows_of(&turned) == transposed(rows_of(grid)),
{
    let ghost lines = rows_of(grid);
    let width = grid[0].len();
    assert(lines[0] == grid@[0]@);
    let mut turned: Vec<Vec<u8>> = Vec::new();
    let mut n: usize = 0;
    while n < width
        invariant
            n <= width,
            width == lines[0].len(),
            lines == rows_of(grid),
            can_transpose(lines),
            turned.len() == n,
            forall|k: int| 0 <= k < n ==> (#[trigger] turned@[k])@ == transposed(lines)[k],
        decreases width - n,
    {
        let mut line: Vec<u8> = Vec::new();
        let mut i: usize = 0;
        while i < grid.len()
            invariant
                i <= grid.len(),
                n < width,
                width == lines[0].len(),
                lines == rows_of(grid),
                can_transpose(lines),
                line.len() == i,
                forall|k: int| 0 <= k < i ==> #[trigger] line@[k] == lines[k][n as int],
            decreases grid.len() - i,
        {
            assert(lines[i as int] == grid@[i as int]@);
            line.push(grid[i][n]);
            i += 1;
        }
        assert(line@ =~= transposed(lines)[n as int]);
        turned.push(line);
        n += 1;
    }
    assert(rows_of(&turned) =~= transposed(lines));
    turned
}

} // verus!
