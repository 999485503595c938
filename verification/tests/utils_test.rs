use exclusion_zone::energy::Energy;
use exclusion_zone::interface::{destroy, go, put, Direction};
use exclusion_zone::runner::run;
use exclusion_zone::world::environmental_conditions::TimeOfDay;
use exclusion_zone::world::worldgenerator::Generator;
use exclusion_zone::runner::{backpack::BackPack, Robot, Runnable};
use exclusion_zone::utils::LibError::NotEnoughSpace;
use exclusion_zone::utils::{
    add_to_backpack, can_destroy, get_coords_row_col, go_allowed, LibError,
};
use exclusion_zone::world::coordinates::Coordinate;
use exclusion_zone::world::environmental_conditions::{EnvironmentalConditions, WeatherType};
use exclusion_zone::world::tile::TileType::Grass;
use exclusion_zone::world::tile::{Content, Tile, TileType};
use exclusion_zone::world::World;

struct MyRobot(Robot);

impl Runnable for MyRobot {
    fn process_tick(&mut self, _world: &mut World) {}

    fn get_energy(&self) -> &Energy {
        &self.0.energy
    }
    fn get_energy_mut(&mut self) -> &mut Energy {
        &mut self.0.energy
    }
    fn get_coordinate(&self) -> &Coordinate {
        &self.0.coordinate
    }
    fn get_coordinate_mut(&mut self) -> &mut Coordinate {
        &mut self.0.coordinate
    }
    fn get_backpack(&self) -> &BackPack {
        &self.0.backpack
    }
    fn get_backpack_mut(&mut self) -> &mut BackPack {
        &mut self.0.backpack
    }
}

fn generate_map_of_type_and_content(
    tile_type: TileType,
    content: Content,
    size: usize,
) -> Vec<Vec<Tile>> {
    vec![vec![Tile { tile_type, content }; size]; size]
}

fn generate_sunny_weather() -> EnvironmentalConditions {
    EnvironmentalConditions::new(&[WeatherType::Sunny], 15, 12)
}

#[test]
fn can_not_go_up_and_left_from_tile_zero_zero() {
    let world = World::new(
        generate_map_of_type_and_content(Grass, Content::Empty, 4),
        generate_sunny_weather(),
    );
    // Assuming the Robot::new method will set (0, 0) as coordinates.
    let robot = MyRobot(Robot::new());
    assert_eq!(go_allowed(&robot, &world, &Direction::Up), Err(LibError::OutOfBounds));
    assert_eq!(go_allowed(&robot, &world, &Direction::Left), Err(LibError::OutOfBounds));
}

#[test]
fn can_not_move_anywhere_if_world_size_is_one() {
    let world = World::new(
        generate_map_of_type_and_content(Grass, Content::Empty, 1),
        generate_sunny_weather(),
    );
    // Assuming the Robot::new method will set (0, 0) as coordinates.
    let robot = MyRobot(Robot::new());
    assert_eq!(go_allowed(&robot, &world, &Direction::Up), Err(LibError::OutOfBounds));
    assert_eq!(go_allowed(&robot, &world, &Direction::Down), Err(LibError::OutOfBounds));
    assert_eq!(go_allowed(&robot, &world, &Direction::Right), Err(LibError::OutOfBounds));
    assert_eq!(go_allowed(&robot, &world, &Direction::Left), Err(LibError::OutOfBounds));
}

#[test]
fn can_move_down_and_right_from_tile_zero_zero() {
    let world = World::new(
        generate_map_of_type_and_content(Grass, Content::Empty, 4),
        generate_sunny_weather(),
    );
    // Assuming the Robot::new method will set (0, 0) as coordinates.
    let robot = MyRobot(Robot::new());

    assert_eq!(go_allowed(&robot, &world, &Direction::Down), Ok(true));
    assert_eq!(go_allowed(&robot, &world, &Direction::Right), Ok(true));
}

#[test]
fn get_direction_coordinates() {
    let robot = MyRobot(Robot {
        energy: Energy::new(0),
        coordinate: Coordinate::new(1, 1),
        backpack: BackPack::new(0),
    });
    assert_eq!(get_coords_row_col(&robot, &Direction::Down), (2, 1));
    assert_eq!(get_coords_row_col(&robot, &Direction::Left), (1, 0));
    assert_eq!(get_coords_row_col(&robot, &Direction::Right), (1, 2));
    assert_eq!(get_coords_row_col(&robot, &Direction::Up), (0, 1));
}

#[test]
fn a_tree_will_be_destroyed() {
    let world = World::new(
        generate_map_of_type_and_content(Grass, Content::Tree(0), 1),
        generate_sunny_weather(),
    );
    assert_eq!(can_destroy(&world, (0, 0)), Ok(true));
}

#[test]
fn a_bin_will_not_be_destroyed() {
    let world = World::new(
        generate_map_of_type_and_content(Grass, Content::Bin(0..0), 1),
        generate_sunny_weather(),
    );
    assert_eq!(can_destroy(&world, (0, 0)), Ok(false));
}

#[test]
fn a_bank_will_not_be_destroyed() {
    let world = World::new(
        generate_map_of_type_and_content(Grass, Content::Bank(0..0), 1),
        generate_sunny_weather(),
    );
    assert_eq!(can_destroy(&world, (0, 0)), Ok(false));
}

#[test]
fn a_crate_will_not_be_destroyed() {
    let world = World::new(
        generate_map_of_type_and_content(Grass, Content::Crate(0..0), 1),
        generate_sunny_weather(),
    );
    assert_eq!(can_destroy(&world, (0, 0)), Ok(false));
}

#[test]
fn a_coin_will_be_destroyed() {
    let world = World::new(
        generate_map_of_type_and_content(Grass, Content::Coin(0), 1),
        generate_sunny_weather(),
    );
    assert_eq!(can_destroy(&world, (0, 0)), Ok(true));
}

#[test]
fn fire_will_be_destroyed() {
    let world = World::new(
        generate_map_of_type_and_content(Grass, Content::Fire, 1),
        generate_sunny_weather(),
    );
    assert_eq!(can_destroy(&world, (0, 0)), Ok(true));
}

#[test]
fn garbage_will_be_destroyed() {
    let world = World::new(
        generate_map_of_type_and_content(Grass, Content::Garbage(0), 1),
        generate_sunny_weather(),
    );
    assert_eq!(can_destroy(&world, (0, 0)), Ok(true));
}

#[test]
fn none_will_not_be_destroyed() {
    let world = World::new(
        generate_map_of_type_and_content(Grass, Content::Empty, 1),
        generate_sunny_weather(),
    );
    assert_eq!(can_destroy(&world, (0, 0)), Ok(false));
}

#[test]
fn water_will_be_destroyed() {
    let world = World::new(
        generate_map_of_type_and_content(Grass, Content::Water(0), 1),
        generate_sunny_weather(),
    );
    assert_eq!(can_destroy(&world, (0, 0)), Ok(true));
}

#[test]
fn add_tree_to_backpack_with_exact_space() {
    let mut robot = MyRobot(Robot {
        energy: Energy::default(),
        coordinate: Coordinate::new(0, 0),
        backpack: BackPack::new(10),
    });
    assert_eq!(add_to_backpack(&mut robot, Content::Tree(0), 10), Ok(10));
}

#[test]
fn add_various_content_to_backpack_untill_full() {
    let mut robot = MyRobot(Robot {
        energy: Energy::default(),
        coordinate: Coordinate::new(0, 0),
        backpack: BackPack::new(50),
    });
    assert_eq!(add_to_backpack(&mut robot, Content::Tree(0), 10), Ok(10));
    assert_eq!(add_to_backpack(&mut robot, Content::Coin(0), 10), Ok(10));
    assert_eq!(add_to_backpack(&mut robot, Content::Water(0), 30), Ok(30));
    assert_eq!(
        add_to_backpack(&mut robot, Content::Garbage(0), 30),
        Err(NotEnoughSpace(0))
    );
}

#[test]
fn add_tree_to_backpack_with_not_enough_space() {
    let mut robot = MyRobot(Robot {
        energy: Energy::default(),
        coordinate: Coordinate::new(0, 0),
        backpack: BackPack::new(6),
    });
    assert_eq!(
        add_to_backpack(&mut robot, Content::Tree(0), 10),
        Err(LibError::NotEnoughSpace(6))
    );
}

#[test]
fn can_not_walk_into_deep_water() {
    let world = World::new(
        generate_map_of_type_and_content(TileType::DeepWater, Content::Empty, 4),
        generate_sunny_weather(),
    );
    let robot = MyRobot(Robot::new());
    assert_eq!(go_allowed(&robot, &world, &Direction::Down), Err(LibError::CannotWalk));
}

#[test]
fn moving_without_energy_is_refused() {
    let mut world = World::new(
        generate_map_of_type_and_content(Grass, Content::Empty, 4),
        generate_sunny_weather(),
    );
    let mut robot = MyRobot(Robot {
        energy: Energy::new(0),
        coordinate: Coordinate::new(0, 0),
        backpack: BackPack::new(0),
    });
    assert!(matches!(
        go(&mut robot, &mut world, Direction::Down),
        Err(LibError::NotEnoughEnergy)
    ));
}

#[test]
fn destroying_a_bank_is_refused() {
    let mut world = World::new(
        generate_map_of_type_and_content(Grass, Content::Bank(0..10), 4),
        generate_sunny_weather(),
    );
    let mut robot = MyRobot(Robot::new());
    assert_eq!(
        destroy(&mut robot, &mut world, Direction::Down),
        Err(LibError::CannotDestroy)
    );
}

#[test]
fn putting_nothing_is_refused() {
    let mut world = World::new(
        generate_map_of_type_and_content(Grass, Content::Empty, 4),
        generate_sunny_weather(),
    );
    let mut robot = MyRobot(Robot::new());
    assert_eq!(
        put(&mut robot, &mut world, Content::Empty, 1, Direction::Down),
        Err(LibError::WrongContentUsed)
    );
}

#[test]
fn running_with_a_malformed_forecast_is_refused() {
    struct BadWeatherWorld;
    impl Generator for BadWeatherWorld {
        fn gen(&mut self) -> (Vec<Vec<Tile>>, (usize, usize), EnvironmentalConditions) {
            let env = EnvironmentalConditions {
                time_progression_minutes: 15,
                time_of_day: TimeOfDay { hour: 12, minute: 0 },
                weather_forecast: vec![],
                weather_index: 0,
            };
            (
                generate_map_of_type_and_content(Grass, Content::Empty, 2),
                (0, 0),
                env,
            )
        }
    }

    let mut robot = MyRobot(Robot::new());
    assert_eq!(
        run(&mut robot, &mut BadWeatherWorld),
        Err(LibError::InvalidWorld)
    );
}
