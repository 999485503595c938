use vstd::prelude::*;

pub mod coordinates;
pub mod environmental_conditions;
pub mod tile;
pub mod worldgenerator;

verus! {

use crate::world::environmental_conditions::{advanced_minutes, env_ok, EnvironmentalConditions};
use crate::world::tile::Tile;

/// The game world: the tile map, its side length, the weather and clock, and
/// the cells the robot has discovered so far.
#[derive(Debug)]
pub struct World {
    pub map: Vec<Vec<Tile>>,
    pub dimension: usize,
    pub environmental_conditions: EnvironmentalConditions,
    pub discovered: Vec<(usize, usize)>,
}

impl World {
    pub fn new(map: Vec<Vec<Tile>>, environmental_conditions: EnvironmentalConditions) -> (w:
        World)
        ensures
            w.map == map,
            w.dimension == map@.len(),
            w.environmental_conditions == environmental_conditions,
            w.discovered@.len() == 0,
    {
        let dimension = map.len();
        World { map, dimension, environmental_conditions, discovered: Vec::new() }
    }

    /// Move the world clock forward by one tick: the time of day advances by
    /// the configured number of minutes, and the forecast moves to the next
    /// day exactly when the clock wraps past midnight.
    pub fn advance_time(&mut self)
        requires
            env_ok(old(self).environmental_conditions),
        ensures
            env_ok(final(self).environmental_conditions),
            final(self).map == old(self).map,
            final(self).dimension == old(self).dimension,
            final(self).discovered == old(self).discovered,
            final(self).environmental_conditions.forecast() == old(
                self,
            ).environmental_conditions.forecast(),
            final(self).environmental_conditions.progression() == old(
                self,
            ).environmental_conditions.progression(),
            ({
                let e0 = old(self).environmental_conditions;
                let e1 = final(self).environmental_conditions;
                &&& e1.time().hour * 60 + e1.time().minute == advanced_minutes(
                    e0.time(),
                    e0.progression(),
                ) % 1440int
                &&& (advanced_minutes(e0.time(), e0.progression()) >= 1440 ==> e1.index() == (
                e0.index() + 1) % e0.forecast().len() as int)
                &&& (advanced_minutes(e0.time(), e0.progression()) < 1440 ==> e1.index()
                    == e0.index())
            }),
    {
        self.environmental_conditions.tick();
    }
}

} // verus!
