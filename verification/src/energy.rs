use vstd::prelude::*;

verus! {

use crate::utils::LibError;

/// Greatest energy level a robot can hold.
pub const MAX_ENERGY_LEVEL: usize = 100;

/// The energy reserve of a robot, capped at `MAX_ENERGY_LEVEL`.
#[derive(Clone)]
pub struct Energy {
    pub energy_level: usize,
}

impl Energy {
    /// A reserve holding `energy_level` units, capped at the maximum.
    pub fn new(energy_level: usize) -> (e: Energy)
        ensures
            e.energy_level == if energy_level < MAX_ENERGY_LEVEL {
                energy_level as int
            } else {
                MAX_ENERGY_LEVEL as int
            },
    {
        if energy_level < MAX_ENERGY_LEVEL {
            Energy { energy_level }
        } else {
            Energy { energy_level: MAX_ENERGY_LEVEL }
        }
    }

    pub fn get_energy_level(&self) -> (r: usize)
        ensures
            r == self.energy_level,
    {
        self.energy_level
    }

    /// Replace the reserve with `energy_level`, capped at the maximum.
    pub fn set_energy_level(&mut self, energy_level: usize)
        ensures
            final(self).energy_level == if energy_level < MAX_ENERGY_LEVEL {
                energy_level as int
            } else {
                MAX_ENERGY_LEVEL as int
            },
    {
        if energy_level < MAX_ENERGY_LEVEL {
            self.energy_level = energy_level;
        } else {
            self.energy_level = MAX_ENERGY_LEVEL;
        }
    }

    /// Spend `energy_needed` units; refused when the reserve does not
    /// strictly exceed the demand.
    pub fn consume_energy(&mut self, energy_needed: usize) -> (r: Result<(), LibError>)
        ensures
            old(self).energy_level > energy_needed ==> r is Ok && final(self).energy_level == old(
                self,
            ).energy_level - energy_needed,
            old(self).energy_level <= energy_needed ==> r == Result::<(), LibError>::Err(
                LibError::NotEnoughEnergy,
            ) && final(self).energy_level == old(self).energy_level,
    {
        if !self.has_enough_energy(energy_needed) {
            return Err(LibError::NotEnoughEnergy);
        }
        self.energy_level = self.energy_level - energy_needed;
        Ok(())
    }

    /// Whether the reserve strictly exceeds `energy_needed`.
    pub fn has_enough_energy(&self, energy_needed: usize) -> (r: bool)
        ensures
            r == (self.energy_level > energy_needed),
    {
        self.energy_level > energy_needed
    }

    /// Add `energy_to_add` units, capped at the maximum.
    pub fn recharge_energy(&mut self, energy_to_add: usize)
        ensures
            final(self).energy_level == if old(self).energy_level + energy_to_add
                < MAX_ENERGY_LEVEL {
                old(self).energy_level + energy_to_add
            } else {
                MAX_ENERGY_LEVEL as int
            },
    {
        if energy_to_add < MAX_ENERGY_LEVEL && self.energy_level < MAX_ENERGY_LEVEL
            - energy_to_add {
            self.energy_level = self.energy_level + energy_to_add;
        } else {
            self.energy_level = MAX_ENERGY_LEVEL;
        }
    }
}

impl Default for Energy {
    /// An empty reserve.
    fn default() -> (e: Energy)
        ensures
            e.energy_level == 0,
    {
        Energy { energy_level: 0 }
    }
}

} // verus!
