use exclusion_zone::energy::Energy;
use exclusion_zone::runner::backpack::BackPack;
use exclusion_zone::runner::{run, Robot, Runnable};
use exclusion_zone::world::coordinates::Coordinate;
use exclusion_zone::world::environmental_conditions::EnvironmentalConditions;
use exclusion_zone::world::environmental_conditions::WeatherType::{Rainy, Sunny};
use exclusion_zone::world::tile::Content::Rock;
use exclusion_zone::world::tile::Tile;
use exclusion_zone::world::tile::TileType::Sand;
use exclusion_zone::world::worldgenerator::Generator;
use exclusion_zone::world::World;

struct TestRobot(Robot);

struct TestWorld {
    size: usize,
}

impl TestWorld {
    fn init(size: usize) -> Self {
        TestWorld { size }
    }
}

impl Generator for TestWorld {
    fn gen(&mut self) -> (Vec<Vec<Tile>>, (usize, usize), EnvironmentalConditions) {
        let mut map: Vec<Vec<Tile>> = Vec::new();
        for _ in 0..self.size {
            let mut row: Vec<Tile> = Vec::new();
            for _ in 0..self.size {
                row.push(Tile {
                    tile_type: Sand,
                    content: Rock(1),
                });
            }
            map.push(row);
        }
        let environmental_conditions = EnvironmentalConditions::new(&[Sunny, Rainy], 15, 12);
        (map, (0, 0), environmental_conditions)
    }
}

impl Runnable for TestRobot {
    fn process_tick(&mut self, _world: &mut World) {
        println!("I am just the TestRobot, I won't change the world.")
    }

    fn get_energy(&self) -> &Energy {
        &self.0.energy
    }

    fn get_energy_mut(&mut self) -> &mut Energy {
        &mut self.0.energy
    }

    fn get_coordinate(&self) -> &Coordinate {
        &self.0.coordinate
    }

    fn get_coordinate_mut(&mut self) -> &mut Coordinate {
        &mut self.0.coordinate
    }

    fn get_backpack(&self) -> &BackPack {
        &self.0.backpack
    }

    fn get_backpack_mut(&mut self) -> &mut BackPack {
        &mut self.0.backpack
    }
}

#[test]
fn robot_unit_test() {
    let mut robot = TestRobot(Robot::new());
    let mut dummy_world = TestWorld::init(10);

    assert_eq!(run(&mut robot, &mut dummy_world), Ok(()));
}
