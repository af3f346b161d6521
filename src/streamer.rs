//! The per-tick update that keeps the road paved around the anchor.
use vstd::prelude::*;

use crate::grid::{
    fresh_cells, in_window, loaded_after, scan_before, window_cells, GridCoord, LANE_MAX_ROW,
    LANE_MIN_ROW, WINDOW_RADIUS,
};
use crate::registry::TileRegistry;
use crate::spawner::{LoggedSpawner, TileSpawner};

verus! {

/// The cells of the window around `center` that the scan has passed: all rows
/// before offset `dy`, and on row offset `dy` the columns before offset `dx`.
spec fn scanned(center: GridCoord, dy: int, dx: int) -> Set<GridCoord> {
    Set::new(
        |c: GridCoord|
            in_window(center, c) && (c.y - center.y < dy || (c.y - center.y == dy && c.x
                - center.x < dx)),
    )
}

/// Creates a tile for every cell of the window around `center` that lies on the
/// road strip and has none yet, and records it in `registry`.
///
/// Returns the cells whose tiles were created, each once: exactly the cells of
/// the window on the strip that the registry lacked, in the order of the scan
/// (row by row, each row from the lowest column up). The spawner is asked for
/// exactly those cells, once each and in that order, and the handle it hands
/// back for a cell is the one recorded for it. Tiles that existed are left as
/// they were.
pub fn ensure_window_loaded<S: TileSpawner>(
    center: GridCoord,
    registry: &mut TileRegistry,
    spawner: &mut LoggedSpawner<S>,
) -> (spawned: Vec<GridCoord>)
    ensures
        final(registry)@.dom() == loaded_after(old(registry)@.dom(), center),
        forall|c: GridCoord| #[trigger]
            old(registry)@.contains_key(c) ==> final(registry)@[c] == old(registry)@[c],
        forall|c: GridCoord|
            #![trigger spawned@.contains(c)]
            spawned@.contains(c) <==> fresh_cells(old(registry)@.dom(), center).contains(c),
        spawned@.no_duplicates(),
        forall|i: int, j: int|
            0 <= i < j < spawned@.len() ==> scan_before(#[trigger] spawned@[i], #[trigger] spawned@[j]),
        final(spawner).made() == old(spawner).made() + spawned@.map_values(
            |c: GridCoord| (c, final(registry)@[c]),
        ),
{
    let mut spawned: Vec<GridCoord> = Vec::new();
    let mut dy: i32 = -WINDOW_RADIUS;
    while dy <= WINDOW_RADIUS
        invariant
            -WINDOW_RADIUS <= dy <= WINDOW_RADIUS + 1,
            registry@.dom() == old(registry)@.dom() + scanned(center, dy as int, -WINDOW_RADIUS as int),
            forall|c: GridCoord| #[trigger]
                old(registry)@.contains_key(c) ==> registry@.contains_key(c) && registry@[c] == old(registry)@[c],
            forall|c: GridCoord|
                #![trigger spawned@.contains(c)]
                spawned@.contains(c) <==> (registry@.contains_key(c) && !old(registry)@.contains_key(c)),
            spawned@.no_duplicates(),
            forall|i: int, j: int|
                0 <= i < j < spawned@.len() ==> scan_before(#[trigger] spawned@[i], #[trigger] spawned@[j]),
            spawner.made() == old(spawner).made() + spawned@.map_values(|c: GridCoord| (c, registry@[c])),
        decreases WINDOW_RADIUS + 1 - dy,
    {
        let y: i64 = center.y as i64 + dy as i64;
        if LANE_MIN_ROW as i64 <= y && y <= LANE_MAX_ROW as i64 {
            let mut dx: i32 = -WINDOW_RADIUS;
            while dx <= WINDOW_RADIUS
                invariant
                    -WINDOW_RADIUS <= dy <= WINDOW_RADIUS,
                    -WINDOW_RADIUS <= dx <= WINDOW_RADIUS + 1,
                    y == center.y + dy,
                    LANE_MIN_ROW <= y <= LANE_MAX_ROW,
                    registry@.dom() == old(registry)@.dom() + scanned(center, dy as int, dx as int),
                    forall|c: GridCoord| #[trigger]
                        old(registry)@.contains_key(c) ==> registry@.contains_key(c) && registry@[c] == old(registry)@[c],
                    forall|c: GridCoord|
                        #![trigger spawned@.contains(c)]
                        spawned@.contains(c) <==> (registry@.contains_key(c) && !old(registry)@.contains_key(c)),
                    spawned@.no_duplicates(),
                    forall|i: int, j: int|
                        0 <= i < j < spawned@.len() ==> scan_before(#[trigger] spawned@[i], #[trigger] spawned@[j]),
                    spawner.made() == old(spawner).made() + spawned@.map_values(|c: GridCoord| (c, registry@[c])),
                decreases WINDOW_RADIUS + 1 - dx,
            {
                let x: i64 = center.x as i64 + dx as i64;
                if i32::MIN as i64 <= x && x <= i32::MAX as i64 {
                    let cell = GridCoord::new(x as i32, y as i32);
                    if !registry.contains(cell) {
                        assert(!spawned@.contains(cell));
                        let ghost prev = spawned@;
                        let ghost prev_reg = registry@;
                        let tile = spawner.spawn(cell);
                        registry.record(cell, tile);
                        assert forall|i: int| 0 <= i < prev.len() implies scan_before(#[trigger] prev[i], cell) by {
                            assert(prev.contains(prev[i]));
                        }
                        spawned.push(cell);
                        assert forall|c: GridCoord| #[trigger]
                            spawned@.contains(c) <==> (prev.contains(c) || c == cell) by {
                            vstd::seq_lib::lemma_seq_contains_after_push(prev, cell, c);
                        }
                        assert forall|i: int| 0 <= i < prev.len() implies registry@[#[trigger] prev[i]]
                            == prev_reg[prev[i]] by {
                            assert(prev.contains(prev[i]));
                        }
                        assert(spawned@.map_values(|c: GridCoord| (c, registry@[c])) =~= prev.map_values(
                            |c: GridCoord| (c, prev_reg[c]),
                        ).push((cell, tile)));
                        assert(old(spawner).made() + spawned@.map_values(|c: GridCoord| (c, registry@[c]))
                            =~= (old(spawner).made() + prev.map_values(|c: GridCoord| (c, prev_reg[c]))).push(
                            (cell, tile),
                        ));
                    }
                    assert(registry@.dom() =~= old(registry)@.dom() + scanned(center, dy as int, dx + 1));
                } else {
                    assert(registry@.dom() =~= old(registry)@.dom() + scanned(center, dy as int, dx + 1));
                }
                dx = dx + 1;
            }
            assert(scanned(center, dy as int, WINDOW_RADIUS + 1) =~= scanned(center, dy + 1, -WINDOW_RADIUS as int));
        } else {
            assert(scanned(center, dy as int, -WINDOW_RADIUS as int) =~= scanned(center, dy + 1, -WINDOW_RADIUS as int));
        }
        dy = dy + 1;
    }
    assert(scanned(center, WINDOW_RADIUS + 1, -WINDOW_RADIUS as int) =~= window_cells(center));
    spawned
}

} // verus!
