//! Grid coordinates, the streaming window and the road strip.
use vstd::prelude::*;

verus! {

/// Half-width of the square window of candidate cells, in cells.
pub const WINDOW_RADIUS: i32 = 3;

/// Lowest row (inclusive) of the road strip, in absolute grid terms.
pub const LANE_MIN_ROW: i32 = -1;

/// Highest row (inclusive) of the road strip, in absolute grid terms.
pub const LANE_MAX_ROW: i32 = 1;

/// A cell of the ground lattice: column `x` and row `y`.
#[derive(Clone, Copy, Debug, PartialEq, Eq, Structural, Hash)]
pub struct GridCoord {
    pub x: i32,
    pub y: i32,
}

impl GridCoord {
    pub fn new(x: i32, y: i32) -> (r: GridCoord)
        ensures
            r.x == x,
            r.y == y,
    {
        GridCoord { x, y }
    }
}

/// `a` comes before `b` when the window is scanned row by row, each row from
/// the lowest column up.
pub open spec fn scan_before(a: GridCoord, b: GridCoord) -> bool {
    a.y < b.y || (a.y == b.y && a.x < b.x)
}

/// The row lies on the road strip.
pub open spec fn in_lane(c: GridCoord) -> bool {
    LANE_MIN_ROW <= c.y <= LANE_MAX_ROW
}

/// The cell lies in the square window around `center`.
pub open spec fn near(center: GridCoord, c: GridCoord) -> bool {
    &&& center.x - WINDOW_RADIUS <= c.x <= center.x + WINDOW_RADIUS
    &&& center.y - WINDOW_RADIUS <= c.y <= center.y + WINDOW_RADIUS
}

/// The cell must be present while the anchor stands in `center`.
pub open spec fn in_window(center: GridCoord, c: GridCoord) -> bool {
    near(center, c) && in_lane(c)
}

/// All cells that must be present while the anchor stands in `center`.
pub open spec fn window_cells(center: GridCoord) -> Set<GridCoord> {
    Set::new(|c: GridCoord| in_window(center, c))
}

/// The cells present after one update around `center`, starting from `before`.
pub open spec fn loaded_after(before: Set<GridCoord>, center: GridCoord) -> Set<GridCoord> {
    before + window_cells(center)
}

/// The cells that one update around `center` creates, starting from `before`.
pub open spec fn fresh_cells(before: Set<GridCoord>, center: GridCoord) -> Set<GridCoord> {
    window_cells(center) - before
}

/// The cells present after one update for each center of `path`, in order.
pub open spec fn loaded_along(before: Set<GridCoord>, path: Seq<GridCoord>) -> Set<GridCoord>
    decreases path.len(),
{
    if path.len() == 0 {
        before
    } else {
        loaded_after(loaded_along(before, path.drop_last()), path.last())
    }
}

/// The cells that the update for step `i` of `path` creates.
pub open spec fn fresh_at(before: Set<GridCoord>, path: Seq<GridCoord>, i: int) -> Set<GridCoord> {
    fresh_cells(loaded_along(before, path.take(i)), path[i])
}

/// After an update every cell of the window around its center is present.
pub proof fn lemma_window_covered(before: Set<GridCoord>, center: GridCoord)
    ensures
        forall|c: GridCoord| in_window(center, c) ==> #[trigger] loaded_after(before, center).contains(c),
{
}

/// Calling the update a second time around the same center creates nothing.
pub proof fn lemma_reentry_creates_nothing(before: Set<GridCoord>, center: GridCoord)
    ensures
        fresh_cells(loaded_after(before, center), center) == Set::<GridCoord>::empty(),
{
    assert(fresh_cells(loaded_after(before, center), center) =~= Set::<GridCoord>::empty());
}

/// Along any path of centers no present cell is ever dropped.
pub proof fn lemma_growth_along(before: Set<GridCoord>, path: Seq<GridCoord>, i: int, j: int)
    requires
        0 <= i <= j <= path.len(),
    ensures
        before.subset_of(loaded_along(before, path.take(i))),
        loaded_along(before, path.take(i)).subset_of(loaded_along(before, path.take(j))),
    decreases j,
{
    if j > 0 {
        assert(path.take(j).drop_last() =~= path.take(j - 1));
        if i < j {
            lemma_growth_along(before, path, i, j - 1);
        } else {
            lemma_growth_along(before, path, i - 1, j - 1);
        }
    }
}

/// Along any path of centers no cell outside the road strip is ever present,
/// provided none was at the start.
pub proof fn lemma_lane_kept_along(before: Set<GridCoord>, path: Seq<GridCoord>)
    requires
        forall|c: GridCoord| #[trigger] before.contains(c) ==> in_lane(c),
    ensures
        forall|c: GridCoord| #[trigger] loaded_along(before, path).contains(c) ==> in_lane(c),
    decreases path.len(),
{
    if path.len() > 0 {
        let prior = loaded_along(before, path.drop_last());
        lemma_lane_kept_along(before, path.drop_last());
        assert(loaded_along(before, path) == loaded_after(prior, path.last()));
        assert forall|c: GridCoord| #[trigger] loaded_after(prior, path.last()).contains(c) implies in_lane(c) by {
            if !prior.contains(c) {
                assert(window_cells(path.last()).contains(c));
            }
        }
    }
}

/// Along any path of centers no cell is created twice: the cells that two
/// different steps create are disjoint.
pub proof fn lemma_created_once_along(before: Set<GridCoord>, path: Seq<GridCoord>, i: int, j: int)
    requires
        0 <= i < j < path.len(),
    ensures
        fresh_at(before, path, i).disjoint(fresh_at(before, path, j)),
{
    lemma_growth_along(before, path, i + 1, j);
    assert(path.take(i + 1).drop_last() =~= path.take(i));
    assert(path.take(i + 1).last() == path[i]);
}

} // verus!
