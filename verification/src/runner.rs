use vstd::prelude::*;

pub mod backpack;

verus! {

use crate::energy::{Energy, MAX_ENERGY_LEVEL};
use crate::runner::backpack::BackPack;
use crate::utils::LibError;
use crate::world::coordinates::Coordinate;
use crate::world::worldgenerator::Generator;
use crate::world::World;

/// A plain robot: an energy reserve, a position and a backpack.
pub struct Robot {
    pub energy: Energy,
    pub coordinate: Coordinate,
    pub backpack: BackPack,
}

impl Robot {
    /// A robot at the origin with a full energy reserve and an empty,
    /// zero-capacity backpack.
    pub fn new() -> (r: Robot)
        ensures
            r.energy.energy_level == MAX_ENERGY_LEVEL,
            r.coordinate.row == 0,
            r.coordinate.col == 0,
            backpack::backpack_ok(r.backpack),
            r.backpack.size == 0,
            forall|i: int| 0 <= i < 10 ==> r.backpack.counts@[i] == 0,
    {
        Robot {
            energy: Energy::new(MAX_ENERGY_LEVEL),
            coordinate: Coordinate::new(0, 0),
            backpack: BackPack::new(0),
        }
    }
}

impl Default for Robot {
    fn default() -> (r: Robot)
        ensures
            r.energy.energy_level == MAX_ENERGY_LEVEL,
            r.coordinate.row == 0,
            r.coordinate.col == 0,
            backpack::backpack_ok(r.backpack),
            r.backpack.size == 0,
    {
        Robot::new()
    }
}

/// What a robot must expose to be driven by the runner: a tick handler and
/// access to its energy, position and backpack.
pub trait Runnable {
    fn process_tick(&mut self, world: &mut World);

    fn get_energy(&self) -> &Energy;

    fn get_energy_mut(&mut self) -> &mut Energy;

    fn get_coordinate(&self) -> &Coordinate;

    fn get_coordinate_mut(&mut self) -> &mut Coordinate;

    fn get_backpack(&self) -> &BackPack;

    fn get_backpack_mut(&mut self) -> &mut BackPack;
}

/// Number of ticks one run drives the robot for.
const ITERATION_LOOPS: usize = 1;

/// Generate a world, place the robot on it, and drive it for a fixed number
/// of ticks: each tick advances the clock, lets the robot act, and recharges
/// one energy unit.
pub fn run<R: Runnable, G: Generator>(robot: &mut R, generator: &mut G) -> Result<(), LibError> {
    let (map, position, environmental_conditions) = generator.gen();

    if !environmental_conditions.is_well_formed() {
        return Err(LibError::InvalidWorld);
    }

    let (robot_row, robot_col) = position;
    *robot.get_coordinate_mut() = Coordinate::new(robot_row, robot_col);

    let mut world = World::new(map, environmental_conditions);

    robot.get_backpack_mut().size = 20;

    let mut i: usize = 0;
    while i < ITERATION_LOOPS
        invariant
            crate::world::environmental_conditions::env_ok(world.environmental_conditions),
        decreases ITERATION_LOOPS - i,
    {
        world.advance_time();
        robot.process_tick(&mut world);
        robot.get_energy_mut().recharge_energy(1);
        if !world.environmental_conditions.is_well_formed() {
            return Err(LibError::InvalidWorld);
        }
        i += 1;
    }
    Ok(())
}

} // verus!
