use exclusion_zone::energy::Energy;
use exclusion_zone::interface::Direction::{Down, Right};
use exclusion_zone::interface::{debug, destroy, go, look_at_sky, plot, put, robot_view, where_am_i};
use exclusion_zone::world::environmental_conditions::DayTime;
use exclusion_zone::runner::backpack::BackPack;
use exclusion_zone::runner::{run, Robot, Runnable};
use exclusion_zone::world::coordinates::Coordinate;
use exclusion_zone::world::environmental_conditions::EnvironmentalConditions;
use exclusion_zone::world::environmental_conditions::WeatherType::{Rainy, Sunny};
use exclusion_zone::world::tile::{Content, Tile, TileType};
use exclusion_zone::world::worldgenerator::Generator;
use exclusion_zone::world::World;

#[test]
pub fn test_issue24() {
    struct MyRobot(Robot);
    struct WorldGenerator;
    impl Generator for WorldGenerator {
        fn gen(&mut self) -> (Vec<Vec<Tile>>, (usize, usize), EnvironmentalConditions) {
            let mut map: Vec<Vec<Tile>> = Vec::new();
            // Initialize the map with default tiles
            map.push(vec![
                Tile {
                    tile_type: TileType::Grass,
                    content: Content::Empty,
                },
                Tile {
                    tile_type: TileType::Sand,
                    content: Content::Empty,
                },
                Tile {
                    tile_type: TileType::DeepWater,
                    content: Content::Empty,
                },
            ]);
            map.push(vec![
                Tile {
                    tile_type: TileType::ShallowWater,
                    content: Content::Empty,
                },
                Tile {
                    tile_type: TileType::Grass,
                    content: Content::Empty,
                },
                Tile {
                    tile_type: TileType::Sand,
                    content: Content::Tree(32),
                },
            ]);
            map.push(vec![
                Tile {
                    tile_type: TileType::ShallowWater,
                    content: Content::Empty,
                },
                Tile {
                    tile_type: TileType::Grass,
                    content: Content::Empty,
                },
                Tile {
                    tile_type: TileType::Street,
                    content: Content::Empty,
                },
            ]);
            let environmental_conditions = EnvironmentalConditions::new(&[Sunny, Rainy], 15, 12);
            (map, (1, 1), environmental_conditions)
        }
    }
    impl Runnable for MyRobot {
        fn process_tick(&mut self, world: &mut World) {
            let (tmp, a, b) = debug(self, world);
            for elem in tmp.iter() {
                for tile in elem.iter() {
                    println!("{:?}->{:?}", tile.tile_type, tile.content);
                }
            }
            println!("{:?}, {:?}", a, b);
            println!("HERE {:?}", destroy(self, world, Right));
            let _ = put(self, world, Content::Tree(0), 2, Down);
            let (tmp, _a, _b) = debug(self, world);
            for elem in tmp.iter() {
                for tile in elem.iter() {
                    println!("{:?}->{:?}", tile.tile_type, tile.content);
                }
            }
            let _ = go(self, world, Down);
            println!("{:?}", self.get_coordinate());
        }

        fn get_energy_mut(&mut self) -> &mut Energy {
            &mut self.0.energy
        }
        fn get_energy(&self) -> &Energy {
            &self.0.energy
        }

        fn get_backpack(&self) -> &BackPack {
            &self.0.backpack
        }
        fn get_backpack_mut(&mut self) -> &mut BackPack {
            &mut self.0.backpack
        }
        fn get_coordinate(&self) -> &Coordinate {
            &self.0.coordinate
        }
        fn get_coordinate_mut(&mut self) -> &mut Coordinate {
            &mut self.0.coordinate
        }
    }

    let mut r = MyRobot(Robot::new());
    let mut generator = WorldGenerator;
    println!("{:?}", run(&mut r, &mut generator));
}

struct ViewRobot(Robot);

impl Runnable for ViewRobot {
    fn process_tick(&mut self, _world: &mut World) {}

    fn get_energy(&self) -> &Energy {
        &self.0.energy
    }
    fn get_energy_mut(&mut self) -> &mut Energy {
        &mut self.0.energy
    }
    fn get_coordinate(&self) -> &Coordinate {
        &self.0.coordinate
    }
    fn get_coordinate_mut(&mut self) -> &mut Coordinate {
        &mut self.0.coordinate
    }
    fn get_backpack(&self) -> &BackPack {
        &self.0.backpack
    }
    fn get_backpack_mut(&mut self) -> &mut BackPack {
        &mut self.0.backpack
    }
}

fn flat_world(size: usize) -> World {
    let map = vec![
        vec![
            Tile { tile_type: TileType::Grass, content: Content::Empty };
            size
        ];
        size
    ];
    World::new(map, EnvironmentalConditions::new(&[Sunny], 60, 9))
}

#[test]
fn robot_view_blanks_the_cells_beyond_the_edge() {
    let world = flat_world(4);
    let robot = ViewRobot(Robot::new());
    let view = robot_view(&robot, &world);
    assert_eq!(view.len(), 3);
    for row in view.iter() {
        assert_eq!(row.len(), 3);
    }
    // The robot stands at the origin: the upper row and left column lie off
    // the map.
    assert!(view[0][0].is_none() && view[0][1].is_none() && view[0][2].is_none());
    assert!(view[1][0].is_none() && view[2][0].is_none());
    assert!(view[1][1].is_some() && view[1][2].is_some());
    assert!(view[2][1].is_some() && view[2][2].is_some());
}

#[test]
fn where_am_i_reports_view_and_position() {
    let world = flat_world(4);
    let mut robot = ViewRobot(Robot::new());
    robot.0.coordinate = Coordinate::new(2, 2);
    let (view, position) = where_am_i(&robot, &world);
    assert_eq!(position.get_row(), 2);
    assert_eq!(position.get_col(), 2);
    assert!(view.iter().flatten().all(|c| c.is_some()));
}

#[test]
fn go_discovers_tiles_for_the_private_map() {
    let mut world = flat_world(4);
    let mut robot = ViewRobot(Robot::new());

    let before = plot(&world).expect("plot is always available");
    assert!(before.iter().flatten().all(|c| c.is_none()));

    go(&mut robot, &mut world, Down).expect("walkable step");
    let after = plot(&world).expect("plot is always available");
    // The robot moved from the origin one step down: the 3x3 neighbourhood
    // of its new position covers the first three rows of the first two
    // columns.
    assert!(after[0][0].is_some());
    assert!(after[1][0].is_some());
    assert!(after[1][1].is_some());
    assert!(after[2][1].is_some());
    assert!(after[0][2].is_none());
    assert!(after[3][3].is_none());
}

#[test]
fn look_at_sky_reports_the_current_weather() {
    let mut world = flat_world(4);
    let robot = ViewRobot(Robot::new());
    let env = look_at_sky(&robot, &mut world);
    assert_eq!(env.get_weather_condition(), Sunny);
    assert_eq!(env.get_time_of_day(), DayTime::Morning);
    assert_eq!(env.get_time_of_day_string(), "09:00".to_owned());
}

#[test]
fn coins_fill_a_bank_and_leave_the_backpack() {
    let map = vec![
        vec![
            Tile { tile_type: TileType::Grass, content: Content::Empty },
            Tile { tile_type: TileType::Grass, content: Content::Empty },
        ],
        vec![
            Tile { tile_type: TileType::Grass, content: Content::Bank(0..10) },
            Tile { tile_type: TileType::Grass, content: Content::Empty },
        ],
    ];
    let mut world = World::new(map, EnvironmentalConditions::new(&[Sunny], 60, 9));
    let mut robot = ViewRobot(Robot::new());
    robot.0.backpack = BackPack::new(20);
    exclusion_zone::utils::add_to_backpack(&mut robot, Content::Coin(0), 5).unwrap();

    let deposited = put(&mut robot, &mut world, Content::Coin(0), 3, Down).unwrap();
    assert_eq!(deposited, 3);
    assert_eq!(world.map[1][0].content, Content::Bank(3..10));
    assert_eq!(
        robot.0.backpack.count_of(&Content::Coin(0)),
        2
    );
}

#[test]
fn destroying_a_tree_empties_the_tile_and_fills_the_backpack() {
    let map = vec![
        vec![
            Tile { tile_type: TileType::Grass, content: Content::Empty },
            Tile { tile_type: TileType::Grass, content: Content::Tree(4) },
        ],
        vec![
            Tile { tile_type: TileType::Grass, content: Content::Empty },
            Tile { tile_type: TileType::Grass, content: Content::Empty },
        ],
    ];
    let mut world = World::new(map, EnvironmentalConditions::new(&[Sunny], 60, 9));
    let mut robot = ViewRobot(Robot::new());
    robot.0.backpack = BackPack::new(20);

    let gained = destroy(&mut robot, &mut world, Right).unwrap();
    assert!(gained <= 5);
    assert_eq!(world.map[0][1].content, Content::Empty);
    assert_eq!(robot.0.backpack.count_of(&Content::Tree(0)), gained);
}
