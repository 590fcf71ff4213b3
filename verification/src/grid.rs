use vstd::prelude::*;

verus! {

/// Half-width of the square that is scanned for cells: `[-10, 10)` on both axes.
pub const GRID_RADIUS: isize = 10;

/// A cell belongs to the scene when its Manhattan distance is below this.
pub const MANHATTAN_THRESHOLD: isize = 4;

/// `|v|` over the mathematical integers.
pub open spec fn spec_abs(v: int) -> int {
    if v < 0 {
        -v
    } else {
        v
    }
}

/// `|x| + |y|`: the Manhattan distance of `(x, y)` from the origin.
pub open spec fn spec_manhattan(x: int, y: int) -> int {
    spec_abs(x) + spec_abs(y)
}

/// Manhattan distance of `(x, y)` from the origin.
pub fn distance_manhattan(x: isize, y: isize) -> (d: isize)
    requires
        spec_manhattan(x as int, y as int) <= isize::MAX,
    ensures
        d == spec_manhattan(x as int, y as int),
{
    let ax: isize = if x < 0 { -x } else { x };
    let ay: isize = if y < 0 { -y } else { y };
    ax + ay
}

/// An integer position on the scene's grid.
#[derive(Clone, Copy, Debug, PartialEq, Eq, Structural)]
pub struct GridCell {
    pub x: isize,
    pub y: isize,
}

/// The cell `(x, y)` carries a cube when it lies within `threshold`.
pub open spec fn spec_eligible(x: int, y: int, threshold: int) -> bool {
    spec_manhattan(x, y) < threshold
}

/// The eligible cells of column `x` with `-radius <= y < y_end`, `y` ascending.
pub open spec fn spec_column_cells(x: int, y_end: int, radius: int, threshold: int) -> Seq<
    GridCell,
>
    decreases y_end + radius,
{
    if y_end <= -radius {
        Seq::empty()
    } else {
        let below = spec_column_cells(x, y_end - 1, radius, threshold);
        if spec_eligible(x, y_end - 1, threshold) {
            below.push(GridCell { x: x as isize, y: (y_end - 1) as isize })
        } else {
            below
        }
    }
}

/// The eligible cells of the columns `-radius <= x < x_end`, column by
/// column with `x` ascending.
pub open spec fn spec_cells_before(x_end: int, radius: int, threshold: int) -> Seq<GridCell>
    decreases x_end + radius,
{
    if x_end <= -radius {
        Seq::empty()
    } else {
        spec_cells_before(x_end - 1, radius, threshold) + spec_column_cells(
            x_end - 1,
            radius,
            radius,
            threshold,
        )
    }
}

/// The cells of the square `[-radius, radius)` on both axes whose Manhattan
/// distance from the origin is below `threshold`, `x` ascending and within
/// one `x` with `y` ascending.
pub open spec fn spec_eligible_cells(radius: int, threshold: int) -> Seq<GridCell> {
    spec_cells_before(radius, radius, threshold)
}

/// Lists the cells that carry cubes: those of `[-radius, radius)` squared
/// that are closer to the origin than `threshold`, in scan order. A radius
/// of zero or less leaves no cell.
pub fn eligible_cells(radius: isize, threshold: isize) -> (cells: Vec<GridCell>)
    requires
        2 * radius <= isize::MAX,
    ensures
        cells@ == spec_eligible_cells(radius as int, threshold as int),
{
    let mut cells: Vec<GridCell> = Vec::new();
    if radius <= 0 {
        return cells;
    }
    let mut x: isize = -radius;
    while x < radius
        invariant
            0 <= radius,
            2 * radius <= isize::MAX,
            -radius <= x <= radius,
            cells@ == spec_cells_before(x as int, radius as int, threshold as int),
        decreases radius - x,
    {
        let ghost done = cells@;
        let mut y: isize = -radius;
        assert(cells@ =~= done + spec_column_cells(
            x as int,
            -radius as int,
            radius as int,
            threshold as int,
        ));
        while y < radius
            invariant
                0 <= radius,
                2 * radius <= isize::MAX,
                -radius <= x < radius,
                -radius <= y <= radius,
                cells@ == done + spec_column_cells(
                    x as int,
                    y as int,
                    radius as int,
                    threshold as int,
                ),
            decreases radius - y,
        {
            let ghost column = spec_column_cells(
                x as int,
                y as int,
                radius as int,
                threshold as int,
            );
            if distance_manhattan(x, y) < threshold {
                cells.push(GridCell { x, y });
                assert(cells@ =~= done + column.push(GridCell { x, y }));
            }
            y = y + 1;
        }
        x = x + 1;
    }
    cells
}

/// The cell lies in the scanned square `[-radius, radius)` on both axes.
pub open spec fn in_square(cell: GridCell, radius: int) -> bool {
    -radius <= cell.x < radius && -radius <= cell.y < radius
}

/// The scan reaches `a` before `b`: smaller `x`, or the same `x` and smaller `y`.
pub open spec fn scanned_before(a: GridCell, b: GridCell) -> bool {
    a.x < b.x || (a.x == b.x && a.y < b.y)
}

/// `cells` holds exactly the eligible cells of the columns before `x_end`
/// and, if `y_end` is given, of column `x_end` below `y_end`; in scan order.
spec fn exact_upto(cells: Seq<GridCell>, x_end: int, y_end: int, radius: int, threshold: int) -> bool {
    &&& forall|i: int|
        0 <= i < cells.len() ==> {
            let c = #[trigger] cells[i];
            &&& in_square(c, radius)
            &&& spec_eligible(c.x as int, c.y as int, threshold)
            &&& c.x < x_end || (c.x == x_end && c.y < y_end)
        }
    &&& forall|i: int, j: int|
        0 <= i < j < cells.len() ==> scanned_before(#[trigger] cells[i], #[trigger] cells[j])
    &&& forall|c: GridCell|
        in_square(c, radius) && spec_eligible(c.x as int, c.y as int, threshold) && (c.x < x_end
            || (c.x == x_end && c.y < y_end)) ==> #[trigger] cells.contains(c)
}

proof fn lemma_column_exact(before: Seq<GridCell>, x: int, y_end: int, radius: int, threshold: int)
    requires
        0 <= radius <= isize::MAX,
        -radius <= x < radius,
        -radius <= y_end <= radius,
        exact_upto(before, x, -radius, radius, threshold),
    ensures
        exact_upto(before + spec_column_cells(x, y_end, radius, threshold), x, y_end, radius, threshold),
    decreases y_end + radius,
{
    let column = spec_column_cells(x, y_end, radius, threshold);
    let cells = before + column;
    if y_end <= -radius {
        assert(cells =~= before);
    } else {
        let below = spec_column_cells(x, y_end - 1, radius, threshold);
        let shorter = before + below;
        lemma_column_exact(before, x, y_end - 1, radius, threshold);
        if spec_eligible(x, y_end - 1, threshold) {
            let cell = GridCell { x: x as isize, y: (y_end - 1) as isize };
            assert(cells =~= shorter.push(cell));
            assert forall|i: int, j: int| 0 <= i < j < cells.len() implies scanned_before(
                #[trigger] cells[i],
                #[trigger] cells[j],
            ) by {
                if j < shorter.len() {
                    assert(cells[i] == shorter[i] && cells[j] == shorter[j]);
                } else {
                    assert(cells[i] == shorter[i]);
                }
            }
            assert forall|c: GridCell|
                in_square(c, radius) && spec_eligible(c.x as int, c.y as int, threshold) && (c.x < x
                    || (c.x == x && c.y < y_end)) implies #[trigger] cells.contains(c) by {
                if c == cell {
                    assert(cells[shorter.len() as int] == c);
                } else {
                    assert(shorter.contains(c));
                    let i = choose|i: int| 0 <= i < shorter.len() && shorter[i] == c;
                    assert(cells[i] == c);
                }
            }
            assert forall|i: int| 0 <= i < cells.len() implies {
                let c = #[trigger] cells[i];
                &&& in_square(c, radius)
                &&& spec_eligible(c.x as int, c.y as int, threshold)
                &&& c.x < x || (c.x == x && c.y < y_end)
            } by {
                if i < shorter.len() {
                    assert(cells[i] == shorter[i]);
                }
            }
        } else {
            assert(cells =~= shorter);
        }
    }
}

proof fn lemma_cells_before_exact(x_end: int, radius: int, threshold: int)
    requires
        0 <= radius <= isize::MAX,
        -radius <= x_end <= radius,
    ensures
        exact_upto(spec_cells_before(x_end, radius, threshold), x_end, -radius, radius, threshold),
    decreases x_end + radius,
{
    if x_end > -radius {
        let before = spec_cells_before(x_end - 1, radius, threshold);
        lemma_cells_before_exact(x_end - 1, radius, threshold);
        lemma_column_exact(before, x_end - 1, radius, radius, threshold);
    }
}

/// The list of eligible cells is exact: every cell in it lies in the square
/// and within the threshold, every such cell is in it, and it is in strict
/// scan order, so no cell occurs twice.
pub proof fn lemma_eligible_cells_exact(radius: int, threshold: int)
    requires
        0 <= radius <= isize::MAX,
    ensures
        forall|i: int|
            0 <= i < spec_eligible_cells(radius, threshold).len() ==> {
                let c = #[trigger] spec_eligible_cells(radius, threshold)[i];
                in_square(c, radius) && spec_eligible(c.x as int, c.y as int, threshold)
            },
        forall|i: int, j: int|
            0 <= i < j < spec_eligible_cells(radius, threshold).len() ==> scanned_before(
                #[trigger] spec_eligible_cells(radius, threshold)[i],
                #[trigger] spec_eligible_cells(radius, threshold)[j],
            ),
        forall|c: GridCell|
            in_square(c, radius) && spec_eligible(c.x as int, c.y as int, threshold)
                ==> #[trigger] spec_eligible_cells(radius, threshold).contains(c),
{
    lemma_cells_before_exact(radius, radius, threshold);
}

/// How many cells of column `x` lie within `threshold`, provided the
/// square is tall enough to hold them all.
pub open spec fn spec_column_count(x: int, threshold: int) -> int {
    if spec_abs(x) < threshold {
        2 * (threshold - spec_abs(x)) - 1
    } else {
        0
    }
}

proof fn lemma_column_len(x: int, y_end: int, radius: int, threshold: int)
    requires
        threshold <= radius,
        -radius <= y_end <= radius,
    ensures
        spec_column_cells(x, y_end, radius, threshold).len() == {
            let reach = threshold - spec_abs(x);
            if reach <= 0 || y_end <= 1 - reach {
                0
            } else if y_end <= reach {
                y_end + reach - 1
            } else {
                2 * reach - 1
            }
        },
    decreases y_end + radius,
{
    if y_end > -radius {
        lemma_column_len(x, y_end - 1, radius, threshold);
    }
}

proof fn lemma_cells_before_len(x_end: int, radius: int, threshold: int)
    requires
        1 <= threshold <= radius,
        -radius <= x_end <= radius,
    ensures
        spec_cells_before(x_end, radius, threshold).len() == {
            let t = threshold;
            if x_end <= 1 - t {
                0
            } else if x_end <= 1 {
                (x_end + t - 1) * (x_end + t - 1)
            } else if x_end <= t {
                t * t + (t - 1) * (t - 1) - (t - x_end) * (t - x_end)
            } else {
                t * t + (t - 1) * (t - 1)
            }
        },
    decreases x_end + radius,
{
    let t = threshold;
    if x_end > -radius {
        let x = x_end - 1;
        lemma_cells_before_len(x, radius, threshold);
        lemma_column_len(x, radius, radius, threshold);
        assert(spec_column_cells(x, radius, radius, threshold).len() == spec_column_count(x, t));
        if x_end <= 1 - t {
        } else if x_end <= 1 {
            assert((x_end + t - 1) * (x_end + t - 1) == (x + t - 1) * (x + t - 1) + 2 * (t + x)
                - 1) by (nonlinear_arith)
                requires
                    x == x_end - 1,
            ;
            if x == 1 - t {
                assert((x + t - 1) * (x + t - 1) == 0) by (nonlinear_arith)
                    requires
                        x == 1 - t,
                ;
            }
        } else if x_end <= t {
            assert((t - x) * (t - x) == (t - x_end) * (t - x_end) + 2 * (t - x) - 1)
                by (nonlinear_arith)
                requires
                    x == x_end - 1,
            ;
            if x == 1 {
                assert((x + t - 1) * (x + t - 1) == t * t + (t - 1) * (t - 1) - (t - x) * (t - x))
                    by (nonlinear_arith)
                    requires
                        x == 1,
                ;
            }
        } else {
            if x == t {
                assert((t - x) * (t - x) == 0) by (nonlinear_arith)
                    requires
                        x == t,
                ;
            }
        }
    } else {
        assert(x_end <= 1 - t);
    }
}

/// A square that reaches at least as far as the threshold holds the whole
/// diamond: `2t^2 - 2t + 1` cells for a threshold `t` of at least one.
pub proof fn lemma_eligible_cell_count(radius: int, threshold: int)
    requires
        1 <= threshold <= radius,
    ensures
        spec_eligible_cells(radius, threshold).len() == 2 * threshold * threshold - 2 * threshold
            + 1,
{
    lemma_cells_before_len(radius, radius, threshold);
    let t = threshold;
    assert(t * t + (t - 1) * (t - 1) == 2 * t * t - 2 * t + 1) by (nonlinear_arith);
    if radius == t {
        assert((t - t) * (t - t) == 0) by (nonlinear_arith);
    }
}

/// The scene's grid has twenty-five cells to give out.
pub proof fn lemma_scene_cell_count()
    ensures
        spec_eligible_cells(GRID_RADIUS as int, MANHATTAN_THRESHOLD as int).len() == 25,
{
    lemma_eligible_cell_count(GRID_RADIUS as int, MANHATTAN_THRESHOLD as int);
}

} // verus!
