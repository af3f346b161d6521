//! Creation of tile objects, with a record of every creation.
use vstd::prelude::*;

use bevy::ecs::entity::Entity;

use crate::grid::GridCoord;

verus! {

/// Creates the world object of a tile.
pub trait TileSpawner {
    /// Creates the tile of `cell` and returns its handle.
    fn spawn_tile(&mut self, cell: GridCoord) -> Entity;
}

/// A spawner together with the record of the tiles it was asked for.
///
/// Every creation goes through [`LoggedSpawner::spawn`], which appends the
/// cell and the handle handed back to `made`.
pub struct LoggedSpawner<S> {
    inner: S,
    made: Ghost<Seq<(GridCoord, Entity)>>,
}

impl<S: TileSpawner> LoggedSpawner<S> {
    /// The cells asked for so far, each with the handle of its tile, in the
    /// order of the calls.
    pub closed spec fn made(&self) -> Seq<(GridCoord, Entity)> {
        self.made@
    }

    /// Wraps a spawner that has created nothing yet.
    pub fn new(inner: S) -> (r: LoggedSpawner<S>)
        ensures
            r.made() == Seq::<(GridCoord, Entity)>::empty(),
    {
        LoggedSpawner { inner, made: Ghost(Seq::empty()) }
    }

    /// Creates the tile of `cell` and returns its handle.
    pub fn spawn(&mut self, cell: GridCoord) -> (e: Entity)
        ensures
            final(self).made() == old(self).made().push((cell, e)),
    {
        let e = self.inner.spawn_tile(cell);
        self.made = Ghost(self.made@.push((cell, e)));
        e
    }

    /// The wrapped spawner.
    pub fn inner(&self) -> &S {
        &self.inner
    }

    /// Hands back the wrapped spawner.
    pub fn into_inner(self) -> S {
        self.inner
    }
}

} // verus!
