//! The registry of tiles that exist in the world, one per grid cell.
use vstd::prelude::*;

use bevy::ecs::entity::Entity;

use crate::grid::GridCoord;

verus! {

/// A handle to a spawned world object, as bevy hands it out.
#[verifier::external_type_specification]
#[verifier::external_body]
pub struct ExEntity(Entity);

/// The tile of each loaded cell.
pub type TileMap = Map<GridCoord, Entity>;

/// The tile of each loaded cell, held in bevy's hash map.
///
/// The map is keyed by the cell's two coordinates.
#[verifier::external_body]
pub struct TileRegistry {
    tiles: bevy::utils::HashMap<(i32, i32), Entity>,
}

/// What a registry holds: the tile of each loaded cell.
pub uninterp spec fn tiles_of(r: TileRegistry) -> TileMap;

impl View for TileRegistry {
    type V = TileMap;

    open spec fn view(&self) -> TileMap {
        tiles_of(*self)
    }
}

/// Relies on hashbrown's `HashMap::default`: a new map holds nothing.
#[verifier::external_body]
fn empty_tiles() -> (fresh: TileRegistry)
    ensures
        tiles_of(fresh) == TileMap::empty(),
{
    TileRegistry { tiles: bevy::utils::HashMap::default() }
}

/// Relies on hashbrown's `HashMap::contains_key`: whether the key is present.
#[verifier::external_body]
fn tiles_contain(r: &TileRegistry, c: GridCoord) -> (b: bool)
    ensures
        b == tiles_of(*r).contains_key(c),
{
    r.tiles.contains_key(&(c.x, c.y))
}

/// Relies on hashbrown's `HashMap::get`: the value under the key, if any.
#[verifier::external_body]
fn tiles_get(r: &TileRegistry, c: GridCoord) -> (e: Option<Entity>)
    ensures
        e == (if tiles_of(*r).contains_key(c) {
            Some(tiles_of(*r)[c])
        } else {
            None::<Entity>
        }),
{
    r.tiles.get(&(c.x, c.y)).copied()
}

/// Relies on hashbrown's `HashMap::len`: the number of keys present.
#[verifier::external_body]
fn tiles_len(r: &TileRegistry) -> (n: usize)
    ensures
        n == tiles_of(*r).dom().len(),
{
    r.tiles.len()
}

/// Relies on hashbrown's `HashMap::insert`: the key maps to the value afterwards,
/// every other key is left as it was.
#[verifier::external_body]
fn tiles_insert(r: &mut TileRegistry, c: GridCoord, e: Entity)
    ensures
        tiles_of(*final(r)) == tiles_of(*old(r)).insert(c, e),
{
    r.tiles.insert((c.x, c.y), e);
}

impl TileRegistry {
    /// A registry that holds no tile.
    pub fn new() -> (r: TileRegistry)
        ensures
            r@ == TileMap::empty(),
    {
        empty_tiles()
    }

    /// Whether a tile exists for the cell.
    pub fn contains(&self, c: GridCoord) -> (b: bool)
        ensures
            b == self@.contains_key(c),
    {
        tiles_contain(self, c)
    }

    /// The tile of the cell, if one exists.
    pub fn get(&self, c: GridCoord) -> (e: Option<Entity>)
        ensures
            e == (if self@.contains_key(c) {
                Some(self@[c])
            } else {
                None::<Entity>
            }),
    {
        tiles_get(self, c)
    }

    /// The number of tiles.
    pub fn len(&self) -> (n: usize)
        ensures
            n == self@.dom().len(),
    {
        tiles_len(self)
    }

    /// Records the tile of a cell that had none.
    pub(crate) fn record(&mut self, c: GridCoord, e: Entity)
        requires
            !old(self)@.contains_key(c),
        ensures
            final(self)@ == old(self)@.insert(c, e),
    {
        tiles_insert(self, c, e)
    }
}

} // verus!
