use exclusion_zone::content::blob::{errors, spawn_blob, BlobSettings, BlobSettingsError};
use exclusion_zone::content::fire::FireSettings;
use exclusion_zone::content::garbage::{generate_prob_matrix, spawn_garbage, GarbageSettings};
use exclusion_zone::content::rock::{spawn_rock, RockSettings};
use exclusion_zone::content::tree::{spawn_tree, TreeSettings};
use exclusion_zone::content::bank::{spawn_bank, BankSettings};
use exclusion_zone::generator::{
    classify_value, generate_terrain, get_default_spawn_order, GeometrySource, NoiseSettings,
    Spawnables, Thresholds, WorldGenerator, WorldGenError,
};
use exclusion_zone::tile_type::lava::{flow_from, get_lowest_neighbour, spawn_lava, LavaSettings};
use exclusion_zone::tile_type::street::{connect_points, street_paths_from_cells};
use exclusion_zone::utils::Coordinate;
use exclusion_zone::world::tile::{Content, Tile, TileType};
use exclusion_zone::world::worldgenerator::check_world;

/// A deterministic stand-in for the outside noise and geometry samplers.
struct TestGeometry;

impl GeometrySource for TestGeometry {
    fn elevation_map(&mut self, size: usize, _settings: &NoiseSettings) -> Vec<Vec<i64>> {
        (0..size)
            .map(|y| {
                (0..size)
                    .map(|x| (((x * 7 + y * 13) % 997) as i64) - 498)
                    .collect()
            })
            .collect()
    }

    fn blob_border(
        &mut self,
        center: Coordinate,
        radius_hundredths: usize,
        _variation_milli: usize,
    ) -> Vec<Coordinate> {
        let r = (radius_hundredths + 99) / 100;
        let mut pts = Vec::new();
        for d in 0..=(2 * r) {
            pts.push(Coordinate { row: center.row - r + d, col: center.col - r });
            pts.push(Coordinate { row: center.row - r + d, col: center.col + r });
            pts.push(Coordinate { row: center.row - r, col: center.col - r + d });
            pts.push(Coordinate { row: center.row + r, col: center.col - r + d });
        }
        pts
    }

    fn voronoi_cell_polygons(
        &mut self,
        centers: &Vec<Coordinate>,
        size: usize,
    ) -> Vec<Vec<Coordinate>> {
        // One rectangular cell around each centre, clipped by the caller.
        centers
            .iter()
            .map(|c| {
                let r0 = c.row / 2;
                let c0 = c.col / 2;
                vec![
                    Coordinate { row: r0, col: c0 },
                    Coordinate { row: r0, col: (c0 + size / 4).min(size - 1) },
                    Coordinate {
                        row: (r0 + size / 4).min(size - 1),
                        col: (c0 + size / 4).min(size - 1),
                    },
                    Coordinate { row: (r0 + size / 4).min(size - 1), col: c0 },
                ]
            })
            .collect()
    }
}

fn grass_world(size: usize) -> Vec<Vec<Tile>> {
    vec![
        vec![
            Tile { tile_type: TileType::Grass, content: Content::Empty };
            size
        ];
        size
    ]
}

fn content_kind_fits(tile: &Tile) -> bool {
    matches!(tile.content, Content::Empty)
        || tile.tile_type.properties().can_hold(&tile.content)
}

#[test]
fn classify_flat_zero_field_as_snow() {
    // A 1x1 elevation field of value zero with all thresholds at zero: the
    // value is not strictly below any mapped threshold, so it is snow.
    let field = vec![vec![0i64]];
    let thresholds = Thresholds::new(0, 0, 0, 0, 0, 0);
    let world = generate_terrain(&field, &thresholds, 0, 0);
    assert_eq!(world.len(), 1);
    assert_eq!(world[0].len(), 1);
    assert_eq!(world[0][0].tile_type, TileType::Snow);
    assert_eq!(world[0][0].content, Content::Empty);
}

#[test]
fn classify_default_thresholds_exact_values() {
    let t = Thresholds::default();
    // Band [-1000, 1000]: deep water below -920, shallow below -800, sand
    // below -700, grass below -100, hill below 300, mountain below 550.
    assert_eq!(classify_value(-1000, &t, -1000, 1000), TileType::DeepWater);
    assert_eq!(classify_value(-900, &t, -1000, 1000), TileType::ShallowWater);
    assert_eq!(classify_value(-750, &t, -1000, 1000), TileType::Sand);
    assert_eq!(classify_value(-200, &t, -1000, 1000), TileType::Grass);
    assert_eq!(classify_value(0, &t, -1000, 1000), TileType::Hill);
    assert_eq!(classify_value(400, &t, -1000, 1000), TileType::Mountain);
    assert_eq!(classify_value(1000, &t, -1000, 1000), TileType::Snow);
}

#[test]
fn classification_is_monotonic_in_value() {
    let t = Thresholds::default();
    let rank = |tt: TileType| match tt {
        TileType::DeepWater => 0,
        TileType::ShallowWater => 1,
        TileType::Sand => 2,
        TileType::Grass => 3,
        TileType::Hill => 4,
        TileType::Mountain => 5,
        TileType::Snow => 6,
        _ => unreachable!(),
    };
    let mut last = 0;
    for v in -1000..=1000 {
        let r = rank(classify_value(v, &t, -1000, 1000));
        assert!(r >= last, "rank fell from {} to {} at value {}", last, r, v);
        last = r;
    }
}

#[test]
fn lava_flow_with_unit_range_marks_only_the_start() {
    // A flow budget of 1..1 takes zero steps: exactly the starting tile
    // becomes lava.
    let mut world = vec![
        vec![
            Tile { tile_type: TileType::Mountain, content: Content::Empty };
            3
        ];
        3
    ];
    let elevation = vec![
        vec![9, 8, 7],
        vec![6, 5, 4],
        vec![3, 2, 1],
    ];
    let path = flow_from(&mut world, &elevation, Coordinate { row: 1, col: 1 }, 1..1);
    assert_eq!(path.len(), 1);
    assert_eq!(path[0], Coordinate { row: 1, col: 1 });
    let mut lava_count = 0;
    for (y, row) in world.iter().enumerate() {
        for (x, tile) in row.iter().enumerate() {
            if tile.tile_type == TileType::Lava {
                lava_count += 1;
                assert_eq!((y, x), (1, 1));
            }
        }
    }
    assert_eq!(lava_count, 1);
}

#[test]
fn lava_flow_never_exceeds_its_step_budget() {
    let mut world = vec![
        vec![
            Tile { tile_type: TileType::Mountain, content: Content::Empty };
            8
        ];
        8
    ];
    let elevation: Vec<Vec<i64>> = (0..8)
        .map(|y| (0..8).map(|x| (y * 8 + x) as i64).collect())
        .collect();
    let path = flow_from(&mut world, &elevation, Coordinate { row: 7, col: 7 }, 1..5);
    assert!(path.len() <= 5);
    let lava_tiles = world
        .iter()
        .flatten()
        .filter(|t| t.tile_type == TileType::Lava)
        .count();
    assert!(lava_tiles <= 5);
}

#[test]
fn lava_spawns_only_from_mountains_and_contents_survive() {
    let mut world = grass_world(6);
    world[2][3] = Tile { tile_type: TileType::Mountain, content: Content::Empty };
    world[4][4].content = Content::Rock(2);
    let elevation: Vec<Vec<i64>> = (0..6)
        .map(|y| (0..6).map(|x| (y * 6 + x) as i64).collect())
        .collect();
    spawn_lava(&mut world, &elevation, LavaSettings::new(1, 1..1));
    assert_eq!(world[2][3].tile_type, TileType::Lava);
    assert_eq!(world[4][4].content, Content::Rock(2));
}

#[test]
fn lowest_neighbour_breaks_ties_upward() {
    let elevation = vec![
        vec![5, 1, 5],
        vec![1, 9, 1],
        vec![5, 1, 5],
    ];
    // All four orthogonal neighbours are equal: the first candidate in the
    // order up, down, left, right wins.
    let n = get_lowest_neighbour(&elevation, Coordinate { row: 1, col: 1 });
    assert_eq!(n, Some(Coordinate { row: 0, col: 1 }));
}

#[test]
fn garbage_spawner_with_zero_target_places_nothing() {
    let mut world = grass_world(12);
    let before = world.clone();
    let settings = GarbageSettings::new(0, 1..4, 1..3, 1000, 200);
    spawn_garbage(&mut world, &settings);
    for (row_a, row_b) in world.iter().zip(before.iter()) {
        for (a, b) in row_a.iter().zip(row_b.iter()) {
            assert_eq!(a.tile_type, b.tile_type);
            assert_eq!(a.content, b.content);
        }
    }
}

#[test]
fn garbage_quantities_stay_within_the_kind_maximum() {
    let mut world = grass_world(24);
    let settings = GarbageSettings::new(30, 2..6, 1..3, 1000, 200);
    spawn_garbage(&mut world, &settings);
    for row in world.iter() {
        for tile in row.iter() {
            match &tile.content {
                Content::Garbage(q) => assert!(*q >= 1 && *q <= 3),
                Content::Empty => {},
                other => panic!("unexpected content {:?}", other),
            }
            assert!(content_kind_fits(tile));
        }
    }
}

#[test]
fn prob_matrix_rings_fall_away_from_the_centre() {
    // A requested size of four is forced to five; with a step of 200 the
    // outer ring carries 600, the next 800, the centre 1000.
    let m = generate_prob_matrix(4, 200);
    assert_eq!(m.len(), 5);
    for row in m.iter() {
        assert_eq!(row.len(), 5);
    }
    assert_eq!(m[0][0], 600);
    assert_eq!(m[1][1], 800);
    assert_eq!(m[2][2], 1000);
    assert_eq!(m[4][4], 600);
    assert_eq!(m[2][0], 600);
    assert_eq!(m[2][1], 800);
}

#[test]
fn prob_matrix_of_size_zero_is_a_single_empty_row() {
    let m = generate_prob_matrix(0, 200);
    assert_eq!(m.len(), 1);
    assert_eq!(m[0].len(), 0);
}

#[test]
fn blob_spawner_with_empty_tile_budget_rejects_configuration() {
    // The minimum possible total (one tile) exceeds the zero tile budget:
    // the configuration is rejected before any point is placed.
    let settings = BlobSettings {
        n_tiles: 0..0,
        radius_range: 100..200,
        n_blob: 1..2,
    };
    assert_eq!(errors(&settings), Err(BlobSettingsError::MinimumExceedsBudget));

    let mut world = grass_world(30);
    let before = world.clone();
    let mut settings = settings;
    let r = spawn_blob(&mut world, &mut settings, Content::Fire, &mut TestGeometry);
    assert_eq!(r, Err(BlobSettingsError::MinimumExceedsBudget));
    for (row_a, row_b) in world.iter().zip(before.iter()) {
        for (a, b) in row_a.iter().zip(row_b.iter()) {
            assert_eq!(a.content, b.content);
        }
    }
}

#[test]
fn blob_spawner_rejects_empty_radius_range() {
    // No radius can be drawn from an empty range: the configuration is
    // rejected before any point is placed.
    let settings = BlobSettings {
        n_tiles: 0..100,
        radius_range: 200..200,
        n_blob: 1..2,
    };
    assert_eq!(errors(&settings), Err(BlobSettingsError::EmptyRadiusRange));

    let mut world = grass_world(20);
    let before = world.clone();
    let mut settings = settings;
    let r = spawn_blob(&mut world, &mut settings, Content::Fire, &mut TestGeometry);
    assert_eq!(r, Err(BlobSettingsError::EmptyRadiusRange));
    for (row_a, row_b) in world.iter().zip(before.iter()) {
        for (a, b) in row_a.iter().zip(row_b.iter()) {
            assert_eq!(a.content, b.content);
        }
    }
}

#[test]
fn blob_spawner_detects_unreachable_minimum() {
    let settings = BlobSettings {
        n_tiles: 100..200,
        radius_range: 100..101,
        n_blob: 0..1,
    };
    assert_eq!(errors(&settings), Err(BlobSettingsError::MaximumBelowMinimum));
}

#[test]
fn blob_spawner_respects_tile_and_blob_budgets() {
    let mut world = grass_world(40);
    let mut settings = BlobSettings {
        n_tiles: 1..60,
        radius_range: 200..300,
        n_blob: 1..4,
    };
    let initial_tile_budget = settings.n_tiles.end;
    let initial_blob_budget = settings.n_blob.end;
    let placed = spawn_blob(&mut world, &mut settings, Content::Fire, &mut TestGeometry)
        .expect("feasible settings");
    assert!(placed <= initial_tile_budget);
    assert!(initial_blob_budget - settings.n_blob.end <= initial_blob_budget);
    let fire_tiles = world
        .iter()
        .flatten()
        .filter(|t| t.content == Content::Fire)
        .count();
    assert!(fire_tiles <= initial_tile_budget);
    for row in world.iter() {
        for tile in row.iter() {
            assert!(content_kind_fits(tile));
        }
    }
}

#[test]
fn connected_paths_have_unit_manhattan_steps() {
    // Road rasterization: consecutive points of a rasterized edge are at
    // Manhattan distance exactly one.
    let line = connect_points(
        Coordinate { row: 0, col: 0 },
        Coordinate { row: 3, col: 7 },
    );
    assert_eq!(line[0], Coordinate { row: 0, col: 0 });
    assert_eq!(line[line.len() - 1], Coordinate { row: 3, col: 7 });
    for pair in line.windows(2) {
        let dr = pair[0].row.abs_diff(pair[1].row);
        let dc = pair[0].col.abs_diff(pair[1].col);
        assert_eq!(dr + dc, 1);
    }
}

#[test]
fn street_paths_from_cells_are_four_connected() {
    let cells = vec![
        vec![
            Coordinate { row: 2, col: 2 },
            Coordinate { row: 2, col: 14 },
            Coordinate { row: 11, col: 14 },
            Coordinate { row: 11, col: 2 },
        ],
        vec![
            Coordinate { row: 11, col: 14 },
            Coordinate { row: 2, col: 14 },
            Coordinate { row: 5, col: 30 },
        ],
    ];
    let paths = street_paths_from_cells(&cells, 20);
    assert!(!paths.is_empty());
    for path in paths.iter() {
        assert!(!path.is_empty());
        for p in path.iter() {
            assert!(p.row < 20 && p.col < 20);
        }
        for pair in path.windows(2) {
            let dr = pair[0].row.abs_diff(pair[1].row);
            let dc = pair[0].col.abs_diff(pair[1].col);
            assert_eq!(dr + dc, 1);
        }
    }
}

#[test]
fn bank_spawner_fills_only_capable_empty_tiles() {
    let mut world = grass_world(16);
    world[0][0].tile_type = TileType::DeepWater;
    world[1][1].content = Content::Rock(1);
    spawn_bank(&mut world, BankSettings::new(5));
    let mut banks = 0;
    for (y, row) in world.iter().enumerate() {
        for (x, tile) in row.iter().enumerate() {
            if let Content::Bank(range) = &tile.content {
                banks += 1;
                assert_eq!(range.start, 1);
                assert!(range.end >= 2 && range.end <= 50);
                assert_ne!((y, x), (0, 0));
            }
            assert!(content_kind_fits(tile));
        }
    }
    assert!(banks <= 5);
    assert_eq!(world[1][1].content, Content::Rock(1));
}

#[test]
fn rock_spawner_respects_quantities_and_capability() {
    let mut world = grass_world(16);
    spawn_rock(&mut world, RockSettings::new(20, [0, 0, 100, 900, 450, 500, 700]));
    for row in world.iter() {
        for tile in row.iter() {
            if let Content::Rock(q) = &tile.content {
                assert!(*q >= 1 && *q <= 4);
            }
            assert!(content_kind_fits(tile));
        }
    }
}

#[test]
fn default_spawn_order_is_a_permutation_of_all_kinds() {
    let order = get_default_spawn_order();
    assert_eq!(order.len(), 15);
    for kind in [
        Spawnables::Street,
        Spawnables::Lava,
        Spawnables::Rock,
        Spawnables::Tree,
        Spawnables::Garbage,
        Spawnables::Fire,
        Spawnables::Coin,
        Spawnables::Bin,
        Spawnables::Crate,
        Spawnables::Bank,
        Spawnables::Market,
        Spawnables::Fish,
        Spawnables::Building,
        Spawnables::JollyBlock,
        Spawnables::City,
    ] {
        assert!(order.contains(&kind));
    }
}

#[test]
fn world_below_minimum_size_is_rejected() {
    let mut generator = WorldGenerator::default(100);
    generator.size = 50;
    let r = generator.gen_with(&mut TestGeometry);
    assert!(matches!(r, Err(WorldGenError::WorldTooSmall)));
}

#[test]
fn generated_world_respects_capability_tables() {
    // With every terrain phase ahead of every content phase, the grid obeys
    // the capability tables, and no quantity exceeds its kind's maximum.
    let mut generator = WorldGenerator::default(100);
    generator.spawn_order = vec![
        Spawnables::Street,
        Spawnables::Lava,
        Spawnables::Bank,
        Spawnables::Bin,
        Spawnables::Crate,
        Spawnables::Garbage,
        Spawnables::Fire,
        Spawnables::Tree,
    ];
    let (world, position, env) = generator
        .gen_with(&mut TestGeometry)
        .expect("generation succeeds");
    assert_eq!(world.len(), 100);
    for row in world.iter() {
        assert_eq!(row.len(), 100);
        for tile in row.iter() {
            assert!(content_kind_fits(tile), "tile violates capability: {:?}", tile);
        }
    }
    assert!(position.0 < 100 && position.1 < 100);
    assert_eq!(check_world(&world), Ok(true));
    assert_eq!(env.get_time_of_day_string(), "09:00".to_owned());
}

#[test]
fn fire_settings_default_has_feasible_budgets() {
    let s = FireSettings::default(100);
    assert_eq!(s.settings.radius_range, 100..200);
    assert_eq!(s.settings.n_blob, 1..2);
    assert!(errors(&s.settings).is_ok());
}

#[test]
fn lava_settings_default_scales_with_world_area() {
    let s = LavaSettings::default(100);
    assert_eq!(s.number_of_spawn_points, 20);
    assert_eq!(s.lava_flow_range, 1..400);
}

#[test]
fn world_above_maximum_size_is_rejected() {
    let mut generator = WorldGenerator::default(100);
    generator.size = 0x10_0001;
    let r = generator.gen_with(&mut TestGeometry);
    assert!(matches!(r, Err(WorldGenError::WorldTooLarge)));
}

#[test]
fn infeasible_fire_budget_is_rejected_before_generation() {
    let mut generator = WorldGenerator::default(100);
    generator.fire_settings.settings.n_tiles = 0..0;
    let r = generator.gen_with(&mut TestGeometry);
    assert_eq!(
        r.err(),
        Some(WorldGenError::FireSettings(BlobSettingsError::MinimumExceedsBudget))
    );
}

#[test]
fn infeasible_tree_budget_is_rejected_before_generation() {
    let mut generator = WorldGenerator::default(100);
    generator.tree_settings.settings.n_tiles = 0..0;
    let r = generator.gen_with(&mut TestGeometry);
    assert_eq!(
        r.err(),
        Some(WorldGenError::TreeSettings(BlobSettingsError::MinimumExceedsBudget))
    );
}

#[test]
fn misshapen_elevation_field_is_rejected() {
    struct ShortGeometry;
    impl GeometrySource for ShortGeometry {
        fn elevation_map(&mut self, _size: usize, _settings: &NoiseSettings) -> Vec<Vec<i64>> {
            vec![vec![0; 3]; 3]
        }
        fn blob_border(
            &mut self,
            _center: Coordinate,
            _radius_hundredths: usize,
            _variation_milli: usize,
        ) -> Vec<Coordinate> {
            Vec::new()
        }
        fn voronoi_cell_polygons(
            &mut self,
            _centers: &Vec<Coordinate>,
            _size: usize,
        ) -> Vec<Vec<Coordinate>> {
            Vec::new()
        }
    }

    let mut generator = WorldGenerator::default(100);
    generator.spawn_order = vec![];
    let r = generator.gen_with(&mut ShortGeometry);
    assert!(matches!(r, Err(WorldGenError::BadElevationField)));
}

#[test]
fn tree_spawner_places_trees_only_on_capable_tiles() {
    let mut world = grass_world(100);
    let mut settings = TreeSettings::default(100);
    let placed = spawn_tree(&mut world, &mut settings, &mut TestGeometry)
        .expect("default settings are feasible");
    let tree_tiles = world
        .iter()
        .flatten()
        .filter(|t| matches!(t.content, Content::Tree(_)))
        .count();
    assert!(tree_tiles <= placed);
    for row in world.iter() {
        for tile in row.iter() {
            assert!(content_kind_fits(tile));
        }
    }
}

#[test]
fn garbage_lands_when_probability_is_certain() {
    let mut world = grass_world(32);
    let settings = GarbageSettings::new(8, 6..8, 1..3, 1000, 0);
    spawn_garbage(&mut world, &settings);
    let garbage_tiles = world
        .iter()
        .flatten()
        .filter(|t| matches!(t.content, Content::Garbage(_)))
        .count();
    assert!(garbage_tiles > 0);
}

#[test]
fn nonzero_garbage_target_with_empty_pile_range_is_rejected() {
    let mut generator = WorldGenerator::default(100);
    generator.garbage_settings.garbage_pile_size = 5..5;
    let r = generator.gen_with(&mut TestGeometry);
    assert!(matches!(r, Err(WorldGenError::GarbagePileSizeRange)));

    // With nothing to place, an empty pile range is harmless.
    let mut generator = WorldGenerator::default(100);
    generator.garbage_settings.garbage_pile_size = 5..5;
    generator.garbage_settings.total_garbage_quantity = 0;
    assert!(generator.gen_with(&mut TestGeometry).is_ok());
}

#[test]
fn lava_carves_as_many_flows_as_requested() {
    // Two spawn points on a world with plenty of mountains: at least two
    // distinct former mountains are lava afterwards.
    let mut world = vec![
        vec![
            Tile { tile_type: TileType::Mountain, content: Content::Empty };
            6
        ];
        6
    ];
    let elevation: Vec<Vec<i64>> = (0..6)
        .map(|y| (0..6).map(|x| (y * 6 + x) as i64).collect())
        .collect();
    spawn_lava(&mut world, &elevation, LavaSettings::new(2, 1..1));
    let lava_tiles = world
        .iter()
        .flatten()
        .filter(|t| t.tile_type == TileType::Lava)
        .count();
    assert!(lava_tiles >= 2);
}
