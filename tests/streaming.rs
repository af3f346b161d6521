use bevy::ecs::entity::Entity;
use street_tiles::grid::GridCoord;
use street_tiles::registry::TileRegistry;
use street_tiles::spawner::{LoggedSpawner, TileSpawner};
use street_tiles::streamer::ensure_window_loaded;

const CELL_WIDTH: f32 = 2.0;
const CELL_DEPTH: f32 = 2.0;

/// Hands out a new handle for each tile and remembers the cells it was asked for.
struct Recorder {
    made: Vec<GridCoord>,
    next: u32,
}

impl Recorder {
    fn new() -> Recorder {
        Recorder { made: Vec::new(), next: 0 }
    }
}

impl TileSpawner for Recorder {
    fn spawn_tile(&mut self, cell: GridCoord) -> Entity {
        self.made.push(cell);
        self.next += 1;
        Entity::from_raw(self.next)
    }
}

fn center_of(x: f32, z: f32) -> GridCoord {
    GridCoord::new((x / CELL_WIDTH) as i32, (z / CELL_DEPTH) as i32)
}

fn sorted(mut cells: Vec<GridCoord>) -> Vec<(i32, i32)> {
    let mut out: Vec<(i32, i32)> = cells.drain(..).map(|c| (c.x, c.y)).collect();
    out.sort();
    out
}

fn block(xs: std::ops::RangeInclusive<i32>, ys: std::ops::RangeInclusive<i32>) -> Vec<(i32, i32)> {
    let mut out = Vec::new();
    for x in xs {
        for y in ys.clone() {
            out.push((x, y));
        }
    }
    out.sort();
    out
}

#[test]
fn new_registry_is_empty() {
    let reg = TileRegistry::new();
    assert_eq!(reg.len(), 0);
    assert!(!reg.contains(GridCoord::new(0, 0)));
    assert_eq!(reg.get(GridCoord::new(0, 0)), None);
}

#[test]
fn first_call_paves_window_on_strip() {
    let mut reg = TileRegistry::new();
    let mut rec = LoggedSpawner::new(Recorder::new());
    let spawned = ensure_window_loaded(center_of(0.0, 0.0), &mut reg, &mut rec);
    assert_eq!(spawned.len(), 21);
    assert_eq!(sorted(spawned.clone()), block(-3..=3, -1..=1));
    assert_eq!(reg.len(), 21);
    assert_eq!(sorted(rec.inner().made.clone()), sorted(spawned));
    assert!(!reg.contains(GridCoord::new(0, 2)));
    assert!(!reg.contains(GridCoord::new(0, -2)));
    assert!(!reg.contains(GridCoord::new(4, 0)));
}

#[test]
fn spawner_is_asked_for_the_new_cells_in_scan_order() {
    let mut reg = TileRegistry::new();
    let mut rec = LoggedSpawner::new(Recorder::new());
    ensure_window_loaded(GridCoord::new(0, 0), &mut reg, &mut rec);
    let before = rec.inner().made.len();
    let spawned = ensure_window_loaded(GridCoord::new(2, 1), &mut reg, &mut rec);
    assert_eq!(rec.inner().made[before..].to_vec(), spawned);
    let expected: Vec<GridCoord> = [(4, -1), (5, -1), (4, 0), (5, 0), (4, 1), (5, 1)]
        .iter()
        .map(|&(x, y)| GridCoord::new(x, y))
        .collect();
    assert_eq!(spawned, expected);
    for (i, cell) in rec.inner().made.iter().enumerate() {
        assert_eq!(reg.get(*cell), Some(Entity::from_raw(i as u32 + 1)));
    }
}

#[test]
fn moving_forward_adds_only_uncovered_cells() {
    let mut reg = TileRegistry::new();
    let mut rec = LoggedSpawner::new(Recorder::new());
    ensure_window_loaded(center_of(0.0, 0.0), &mut reg, &mut rec);
    let center = center_of(6.5, 0.0);
    assert_eq!(center, GridCoord::new(3, 0));
    let spawned = ensure_window_loaded(center, &mut reg, &mut rec);
    assert_eq!(spawned.len(), 9);
    assert_eq!(sorted(spawned), block(4..=6, -1..=1));
    assert_eq!(rec.inner().made.len(), 30);
    assert_eq!(reg.len(), 30);
    for x in -3..=6 {
        for y in -1..=1 {
            assert!(reg.contains(GridCoord::new(x, y)));
        }
    }
}

#[test]
fn same_center_twice_creates_nothing() {
    let mut reg = TileRegistry::new();
    let mut rec = LoggedSpawner::new(Recorder::new());
    ensure_window_loaded(GridCoord::new(-7, 1), &mut reg, &mut rec);
    let before = rec.inner().made.len();
    let spawned = ensure_window_loaded(GridCoord::new(-7, 1), &mut reg, &mut rec);
    assert!(spawned.is_empty());
    assert_eq!(rec.inner().made.len(), before);
}

#[test]
fn existing_tiles_keep_their_handles() {
    let mut reg = TileRegistry::new();
    let mut rec = LoggedSpawner::new(Recorder::new());
    ensure_window_loaded(GridCoord::new(0, 0), &mut reg, &mut rec);
    let first = reg.get(GridCoord::new(-3, -1));
    let middle = reg.get(GridCoord::new(2, 1));
    assert!(first.is_some());
    ensure_window_loaded(GridCoord::new(3, 0), &mut reg, &mut rec);
    ensure_window_loaded(GridCoord::new(-20, 1), &mut reg, &mut rec);
    assert_eq!(reg.get(GridCoord::new(-3, -1)), first);
    assert_eq!(reg.get(GridCoord::new(2, 1)), middle);
}

#[test]
fn no_cell_spawned_twice_along_a_path() {
    let mut reg = TileRegistry::new();
    let mut rec = LoggedSpawner::new(Recorder::new());
    let path = [(0, 0), (1, 0), (1, 1), (5, -1), (4, 2), (-2, 0), (0, 0), (9, 3)];
    for (x, y) in path {
        ensure_window_loaded(GridCoord::new(x, y), &mut reg, &mut rec);
    }
    let all = sorted(rec.inner().made.clone());
    let mut unique = all.clone();
    unique.dedup();
    assert_eq!(all, unique);
    assert_eq!(reg.len(), all.len());
    let mut expected = block(-5..=8, -1..=1);
    expected.extend(block(9..=12, 0..=1));
    expected.sort();
    assert_eq!(all, expected);
}

#[test]
fn strip_limits_rows_near_its_edge() {
    let mut reg = TileRegistry::new();
    let mut rec = LoggedSpawner::new(Recorder::new());
    let spawned = ensure_window_loaded(GridCoord::new(0, 3), &mut reg, &mut rec);
    assert_eq!(sorted(spawned), block(-3..=3, 0..=1));
    let spawned = ensure_window_loaded(GridCoord::new(0, -4), &mut reg, &mut rec);
    assert_eq!(sorted(spawned), block(-3..=3, -1..=-1));
}

#[test]
fn far_from_strip_creates_nothing() {
    let mut reg = TileRegistry::new();
    let mut rec = LoggedSpawner::new(Recorder::new());
    let spawned = ensure_window_loaded(GridCoord::new(0, 10), &mut reg, &mut rec);
    assert!(spawned.is_empty());
    let spawned = ensure_window_loaded(GridCoord::new(3, -5), &mut reg, &mut rec);
    assert!(spawned.is_empty());
    assert_eq!(reg.len(), 0);
    assert!(rec.inner().made.is_empty());
}

#[test]
fn window_stops_at_the_last_column() {
    let mut reg = TileRegistry::new();
    let mut rec = LoggedSpawner::new(Recorder::new());
    let spawned = ensure_window_loaded(GridCoord::new(i32::MAX, 0), &mut reg, &mut rec);
    assert_eq!(sorted(spawned), block(i32::MAX - 3..=i32::MAX, -1..=1));
    let spawned = ensure_window_loaded(GridCoord::new(i32::MIN + 1, i32::MIN), &mut reg, &mut rec);
    assert!(spawned.is_empty());
    let spawned = ensure_window_loaded(GridCoord::new(i32::MIN + 1, 0), &mut reg, &mut rec);
    assert_eq!(sorted(spawned), block(i32::MIN..=i32::MIN + 4, -1..=1));
}

#[test]
fn negative_positions_truncate_toward_zero() {
    assert_eq!(center_of(-1.5, 1.5), GridCoord::new(0, 0));
    let mut reg = TileRegistry::new();
    let mut rec = LoggedSpawner::new(Recorder::new());
    let spawned = ensure_window_loaded(center_of(-2.5, -3.9), &mut reg, &mut rec);
    assert_eq!(sorted(spawned), block(-4..=2, -1..=1));
}
