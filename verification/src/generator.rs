use vstd::prelude::*;

verus! {

use crate::content::bank::BankSettings;
use crate::content::bin::BinSettings;
use crate::content::coin::CoinSettings;
use crate::content::fire::FireSettings;
use crate::content::garbage::GarbageSettings;
use crate::content::tree::TreeSettings;
use crate::content::wood_crate::CrateSettings;
use crate::tile_type::lava::LavaSettings;
use crate::utils::{percentage, percentage_spec, Coordinate};
use crate::world::tile::{Content, Tile, TileType};

/// The tile matrix representing the world.
pub type TileMatrix = Vec<Vec<Tile>>;

/// The tile kinds and content kinds whose generation order can be chosen.
#[derive(Eq, PartialEq, Structural, Hash, Copy, Clone, Debug)]
pub enum Spawnables {
    Street,
    Lava,
    Rock,
    Tree,
    Garbage,
    Fire,
    Coin,
    Bin,
    Crate,
    Bank,
    Market,
    Fish,
    Building,
    JollyBlock,
    City,
}

/// The order in which tile kinds and content kinds are generated; a repeated
/// kind counts once, an omitted kind is never spawned.
pub type SpawnOrder = Vec<Spawnables>;

/// The kinds a default generation order holds: each spawnable kind once.
pub open spec fn all_spawnables() -> Seq<Spawnables> {
    seq![
        Spawnables::Bank,
        Spawnables::Bin,
        Spawnables::Building,
        Spawnables::Coin,
        Spawnables::Crate,
        Spawnables::Fire,
        Spawnables::Fish,
        Spawnables::Garbage,
        Spawnables::JollyBlock,
        Spawnables::Lava,
        Spawnables::Market,
        Spawnables::Rock,
        Spawnables::Street,
        Spawnables::Tree,
        Spawnables::City,
    ]
}

/// A random generation order over all spawnable kinds: a permutation of the
/// fifteen kinds, each exactly once.
pub fn get_default_spawn_order() -> (order: SpawnOrder)
    ensures
        order@.len() == 15,
        order@.to_multiset() == all_spawnables().to_multiset(),
{
    let mut elements: Vec<Spawnables> = Vec::new();
    elements.push(Spawnables::Bank);
    elements.push(Spawnables::Bin);
    elements.push(Spawnables::Building);
    elements.push(Spawnables::Coin);
    elements.push(Spawnables::Crate);
    elements.push(Spawnables::Fire);
    elements.push(Spawnables::Fish);
    elements.push(Spawnables::Garbage);
    elements.push(Spawnables::JollyBlock);
    elements.push(Spawnables::Lava);
    elements.push(Spawnables::Market);
    elements.push(Spawnables::Rock);
    elements.push(Spawnables::Street);
    elements.push(Spawnables::Tree);
    elements.push(Spawnables::City);
    proof {
        assert(elements@ =~= all_spawnables());
    }
    crate::rng::shuffle(&mut elements);
    elements
}

/// The order with every repetition of a kind dropped after its first
/// occurrence: a duplicate-free subsequence keeping first-seen order.
pub open spec fn first_seen_dedup(s: Seq<Spawnables>) -> Seq<Spawnables>
    decreases s.len(),
{
    if s.len() == 0 {
        Seq::empty()
    } else {
        let prefix = first_seen_dedup(s.drop_last());
        if prefix.contains(s.last()) {
            prefix
        } else {
            prefix.push(s.last())
        }
    }
}

/// A first-seen deduplication holds no kind twice.
pub proof fn lemma_first_seen_dedup_no_duplicates(s: Seq<Spawnables>)
    ensures
        first_seen_dedup(s).no_duplicates(),
    decreases s.len(),
{
    if s.len() > 0 {
        lemma_first_seen_dedup_no_duplicates(s.drop_last());
        let prefix = first_seen_dedup(s.drop_last());
        if !prefix.contains(s.last()) {
            assert forall|i: int, j: int|
                0 <= i < prefix.push(s.last()).len() && 0 <= j < prefix.push(s.last()).len() && i
                    != j implies prefix.push(s.last())[i] != prefix.push(s.last())[j] by {
                if i < prefix.len() && j < prefix.len() {
                    assert(prefix[i] != prefix[j]);
                } else if j == prefix.len() && i < prefix.len() {
                    assert(prefix.contains(prefix[i]));
                } else if i == prefix.len() && j < prefix.len() {
                    assert(prefix.contains(prefix[j]));
                }
            }
        }
    }
}

/// Drop every repetition of a kind after its first occurrence.
pub(crate) fn remove_duplicates_spawnables(order: &mut SpawnOrder)
    ensures
        final(order)@ == first_seen_dedup(old(order)@),
{
    let ghost input = order@;
    let mut out: Vec<Spawnables> = Vec::new();
    let mut i: usize = 0;
    while i < order.len()
        invariant
            i <= order@.len(),
            order@ == input,
            out@ == first_seen_dedup(input.take(i as int)),
        decreases order@.len() - i,
    {
        let current = order[i];
        proof {
            assert(input.take(i + 1).drop_last() =~= input.take(i as int));
            assert(input.take(i + 1).last() == input[i as int]);
        }
        if !contains_spawnable(&out, current) {
            out.push(current);
        }
        i += 1;
    }
    proof {
        assert(input.take(input.len() as int) =~= input);
    }
    *order = out;
}

fn contains_spawnable(v: &Vec<Spawnables>, s: Spawnables) -> (r: bool)
    ensures
        r == v@.contains(s),
{
    let mut i: usize = 0;
    while i < v.len()
        invariant
            i <= v@.len(),
            forall|k: int| 0 <= k < i ==> v@[k] != s,
        decreases v@.len() - i,
    {
        if v[i] == s {
            proof {
                assert(v@[i as int] == s);
            }
            return true;
        }
        i += 1;
    }
    false
}

/// The parameters of the ridged multifractal noise that shapes the elevation
/// field.  The fractional parameters are held in thousandths.
#[derive(Copy, Clone, Debug)]
pub struct NoiseSettings {
    /// Seed of the noise generator.
    pub seed: u32,
    /// Total number of frequency octaves to generate the noise with.
    pub octaves: usize,
    /// Cycles per unit length that the noise function outputs, in
    /// thousandths.
    pub frequency_milli: u32,
    /// Multiplier on the frequency of each successive octave, in thousandths.
    pub lacunarity_milli: u32,
    /// Multiplier on the amplitude of each successive octave, in thousandths.
    pub persistence_milli: u32,
    /// Attenuation applied to the weight of each octave, in thousandths.
    pub attenuation_milli: u32,
}

impl NoiseSettings {
    /// The standard noise parameters with the given seed.
    pub fn from_seed(seed: u32) -> (s: NoiseSettings)
        ensures
            s == (NoiseSettings {
                seed,
                octaves: 12,
                frequency_milli: 2500,
                lacunarity_milli: 2000,
                persistence_milli: 1250,
                attenuation_milli: 2500,
            }),
    {
        NoiseSettings {
            seed,
            octaves: 12,
            frequency_milli: 2500,
            lacunarity_milli: 2000,
            persistence_milli: 1250,
            attenuation_milli: 2500,
        }
    }

    /// The standard noise parameters with a random seed.
    pub fn default() -> (s: NoiseSettings)
        ensures
            s.octaves == 12,
            s.frequency_milli == 2500,
            s.lacunarity_milli == 2000,
            s.persistence_milli == 1250,
            s.attenuation_milli == 2500,
    {
        NoiseSettings::from_seed(crate::rng::rand_seed())
    }

    /// Noise parameters given explicitly, fractional values in thousandths.
    pub fn new(
        seed: u32,
        octaves: usize,
        frequency_milli: u32,
        lacunarity_milli: u32,
        persistence_milli: u32,
        attenuation_milli: u32,
    ) -> (s: NoiseSettings)
        ensures
            s == (NoiseSettings {
                seed,
                octaves,
                frequency_milli,
                lacunarity_milli,
                persistence_milli,
                attenuation_milli,
            }),
    {
        NoiseSettings {
            seed,
            octaves,
            frequency_milli,
            lacunarity_milli,
            persistence_milli,
            attenuation_milli,
        }
    }
}

/// The ascending per-mille thresholds that cut the elevation band into
/// terrain kinds; what lies above the last one is snow.
#[derive(Copy, Clone, Debug)]
pub struct Thresholds {
    /// Below this per-mille of the elevation band the land is deep water.
    pub threshold_deep_water: u32,
    /// Below this per-mille the land is shallow water.
    pub threshold_shallow_water: u32,
    /// Below this per-mille the land is sand.
    pub threshold_sand: u32,
    /// Below this per-mille the land is grass.
    pub threshold_grass: u32,
    /// Below this per-mille the land is hill.
    pub threshold_hill: u32,
    /// Below this per-mille the land is mountain; above it, snow.
    pub threshold_mountain: u32,
}

impl Thresholds {
    /// The standard terrain thresholds.
    pub fn default() -> (t: Thresholds)
        ensures
            t == (Thresholds {
                threshold_deep_water: 40u32,
                threshold_shallow_water: 100u32,
                threshold_sand: 150u32,
                threshold_grass: 450u32,
                threshold_hill: 650u32,
                threshold_mountain: 775u32,
            }),
    {
        Thresholds {
            threshold_deep_water: 40,
            threshold_shallow_water: 100,
            threshold_sand: 150,
            threshold_grass: 450,
            threshold_hill: 650,
            threshold_mountain: 775,
        }
    }

    /// Terrain thresholds given explicitly, in per-mille of the elevation
    /// band.
    pub fn new(
        threshold_deep_water: u32,
        threshold_shallow_water: u32,
        threshold_sand: u32,
        threshold_grass: u32,
        threshold_hill: u32,
        threshold_mountain: u32,
    ) -> (t: Thresholds)
        ensures
            t == (Thresholds {
                threshold_deep_water,
                threshold_shallow_water,
                threshold_sand,
                threshold_grass,
                threshold_hill,
                threshold_mountain,
            }),
    {
        Thresholds {
            threshold_deep_water,
            threshold_shallow_water,
            threshold_sand,
            threshold_grass,
            threshold_hill,
            threshold_mountain,
        }
    }
}

/// The terrain kind assigned to a raw elevation value: the first threshold
/// the value falls strictly below decides, snow is the remainder.
pub open spec fn classify_spec(value: i64, t: Thresholds, min: i64, max: i64) -> TileType {
    if value < percentage_spec(t.threshold_deep_water, min, max) {
        TileType::DeepWater
    } else if value < percentage_spec(t.threshold_shallow_water, min, max) {
        TileType::ShallowWater
    } else if value < percentage_spec(t.threshold_sand, min, max) {
        TileType::Sand
    } else if value < percentage_spec(t.threshold_grass, min, max) {
        TileType::Grass
    } else if value < percentage_spec(t.threshold_hill, min, max) {
        TileType::Hill
    } else if value < percentage_spec(t.threshold_mountain, min, max) {
        TileType::Mountain
    } else {
        TileType::Snow
    }
}

/// The rank of a terrain kind in the elevation order, from deep water up to
/// snow.
pub open spec fn terrain_rank(t: TileType) -> int {
    match t {
        TileType::DeepWater => 0,
        TileType::ShallowWater => 1,
        TileType::Sand => 2,
        TileType::Grass => 3,
        TileType::Hill => 4,
        TileType::Mountain => 5,
        TileType::Snow => 6,
        TileType::Street => 7,
        TileType::Lava => 8,
    }
}

/// Classification is monotonic in the raw elevation: for a fixed band and
/// fixed thresholds, a higher value never gets a lower terrain rank.
pub proof fn lemma_classification_monotonic(
    v1: i64,
    v2: i64,
    t: Thresholds,
    min: i64,
    max: i64,
)
    requires
        v1 <= v2,
    ensures
        terrain_rank(classify_spec(v1, t, min, max)) <= terrain_rank(classify_spec(v2, t, min, max)),
{
}

/// Classify one elevation value against the thresholds mapped into the
/// observed elevation band.
pub fn classify_value(value: i64, thresholds: &Thresholds, min: i64, max: i64) -> (t: TileType)
    ensures
        t == classify_spec(value, *thresholds, min, max),
{
    if value < percentage(thresholds.threshold_deep_water, min, max) {
        TileType::DeepWater
    } else if value < percentage(thresholds.threshold_shallow_water, min, max) {
        TileType::ShallowWater
    } else if value < percentage(thresholds.threshold_sand, min, max) {
        TileType::Sand
    } else if value < percentage(thresholds.threshold_grass, min, max) {
        TileType::Grass
    } else if value < percentage(thresholds.threshold_hill, min, max) {
        TileType::Hill
    } else if value < percentage(thresholds.threshold_mountain, min, max) {
        TileType::Mountain
    } else {
        TileType::Snow
    }
}

/// What the outside world must provide to the generation pipeline: the
/// floating-point noise and geometry samplers, reduced to plain values.
/// Nothing is assumed of an implementation; every result is checked at
/// runtime where the pipeline depends on it.
pub trait GeometrySource {
    /// A `size` x `size` field of fixed-point elevation samples of ridged
    /// multifractal noise with the given parameters.
    fn elevation_map(&mut self, size: usize, settings: &NoiseSettings) -> Vec<Vec<i64>>;

    /// Around 361 border points of a perturbed circle around `center`: the
    /// radius is given in hundredths of a tile, the perturbation amplitude in
    /// thousandths of the radius.
    fn blob_border(
        &mut self,
        center: Coordinate,
        radius_hundredths: usize,
        variation_milli: usize,
    ) -> Vec<Coordinate>;

    /// The vertices of every cell polygon of a Voronoi diagram over the given
    /// centers, bounded by a `size` x `size` box.
    fn voronoi_cell_polygons(&mut self, centers: &Vec<Coordinate>, size: usize) -> Vec<
        Vec<Coordinate>,
    >;
}

/// Everything a generation run needs: the world size, the order of the
/// phases, and the settings of each phase.
#[derive(Clone)]
pub struct WorldGenerator {
    /// The world side length; the final world holds its square of tiles.
    pub size: usize,
    /// The order in which the phases run.
    pub spawn_order: SpawnOrder,
    /// Parameters of the elevation noise.
    pub noise_settings: NoiseSettings,
    /// Thresholds that classify elevation into terrain.
    pub thresholds: Thresholds,
    /// How lava spawns.
    pub lava_settings: LavaSettings,
    /// How banks spawn.
    pub bank_settings: BankSettings,
    /// How bins spawn.
    pub bin_settings: BinSettings,
    /// How wood crates spawn.
    pub crate_settings: CrateSettings,
    /// How garbage spawns.
    pub garbage_settings: GarbageSettings,
    /// How fire blobs spawn.
    pub fire_settings: FireSettings,
    /// How tree blobs spawn.
    pub tree_settings: TreeSettings,
    /// How coins spawn.
    pub coin_settings: CoinSettings,
}

/// Build an all-empty terrain grid by classifying every elevation sample
/// against the thresholds.
pub fn generate_terrain(
    noise_map: &Vec<Vec<i64>>,
    thresholds: &Thresholds,
    min: i64,
    max: i64,
) -> (world: TileMatrix)
    ensures
        world@.len() == noise_map@.len(),
        forall|i: int|
            0 <= i < noise_map@.len() ==> (#[trigger] world@[i])@.len() == noise_map@[i]@.len(),
        forall|i: int, j: int|
            0 <= i < noise_map@.len() && 0 <= j < noise_map@[i]@.len() ==> {
                let cell = #[trigger] world@[i]@[j];
                &&& cell.tile_type == classify_spec(noise_map@[i]@[j], *thresholds, min, max)
                &&& cell.content == Content::Empty
            },
{
    let mut world: TileMatrix = Vec::new();
    let mut y: usize = 0;
    while y < noise_map.len()
        invariant
            y <= noise_map@.len(),
            world@.len() == y,
            forall|i: int|
                0 <= i < y ==> (#[trigger] world@[i])@.len() == noise_map@[i]@.len(),
            forall|i: int, j: int|
                0 <= i < y && 0 <= j < noise_map@[i]@.len() ==> {
                    let cell = #[trigger] world@[i]@[j];
                    &&& cell.tile_type == classify_spec(noise_map@[i]@[j], *thresholds, min, max)
                    &&& cell.content == Content::Empty
                },
        decreases noise_map@.len() - y,
    {
        let noise_row = &noise_map[y];
        let mut row: Vec<Tile> = Vec::new();
        let mut x: usize = 0;
        while x < noise_row.len()
            invariant
                y < noise_map@.len(),
                noise_row == noise_map@[y as int],
                x <= noise_row@.len(),
                row@.len() == x,
                forall|j: int|
                    0 <= j < x ==> {
                        let cell = #[trigger] row@[j];
                        &&& cell.tile_type == classify_spec(
                            noise_map@[y as int]@[j],
                            *thresholds,
                            min,
                            max,
                        )
                        &&& cell.content == Content::Empty
                    },
            decreases noise_row@.len() - x,
        {
            let tile_type = classify_value(noise_row[x], thresholds, min, max);
            row.push(Tile { tile_type, content: Content::Empty });
            x += 1;
        }
        world.push(row);
        y += 1;
    }
    world
}

} // verus!

verus! {

use crate::content::bank::spawn_bank;
use crate::content::bin::spawn_bin;
use crate::content::blob::{blob_settings_error_spec, BlobSettingsError};
use crate::content::fire::spawn_fire;
use crate::content::garbage::spawn_garbage;
use crate::content::spawn_preserves;
use crate::content::tree::spawn_tree;
use crate::content::wood_crate::spawn_crate;
use crate::interface::{same_shape, set_tile_type};
use crate::tile_type::lava::{elevation_square, map_matches_elevation, spawn_lava};
use crate::tile_type::street::street_spawn;
use crate::utils::{find_max_value, find_min_value};
use crate::world::environmental_conditions::{env_ok, EnvironmentalConditions, TimeOfDay, WeatherType};
use crate::world::tile::{can_hold_spec, tile_walk_spec};
use crate::world::worldgenerator::world_quantities_ok;

/// The smallest world side length a generation run accepts.
pub const MINIMUM_WORLD_SIZE: usize = 100;

/// Number of grid slices per side the street network cuts the field into.
pub const STREET_SLICES_PER_SIDE: usize = 10;

/// Elevation cutoff below which a slice's highest cell does not seed the
/// street network.
pub const STREET_PEAK_CUTOFF: i64 = 0;

/// The greatest world side length a generation run accepts; a larger square
/// of tiles could not be held in memory anyway.
pub const MAXIMUM_WORLD_SIZE: usize = 0x10_0000;

/// Why a generation run is refused before it changes anything.
#[derive(Debug, PartialEq, Eq, Structural, Clone, Copy)]
pub enum WorldGenError {
    /// The world side length lies below the supported minimum.
    WorldTooSmall,
    /// The world side length lies above what a grid in memory can hold.
    WorldTooLarge,
    /// The elevation source did not return a square field of the right size.
    BadElevationField,
    /// The fire blob budgets are infeasible.
    FireSettings(BlobSettingsError),
    /// The tree blob budgets are infeasible.
    TreeSettings(BlobSettingsError),
    /// A nonzero garbage target was configured with an empty pile size
    /// range, so no pile size could ever be drawn.
    GarbagePileSizeRange,
}

/// Whether the garbage configuration can run: a pile size is drawable, or
/// there is nothing to place.
pub open spec fn garbage_config_ok(s: GarbageSettings) -> bool {
    s.garbage_pile_size.start < s.garbage_pile_size.end || s.total_garbage_quantity == 0
}

/// What a generation run hands back: the populated tile matrix, the robot's
/// starting position as `(row, col)`, and the world's weather and clock.
pub type GenResult = (TileMatrix, (usize, usize), EnvironmentalConditions);

/// Whether a phase changes terrain: streets and lava overwrite tile kinds.
pub open spec fn is_terrain_phase(s: Spawnables) -> bool {
    s == Spawnables::Street || s == Spawnables::Lava
}

/// Whether a phase places content on tiles.
pub open spec fn is_content_phase(s: Spawnables) -> bool {
    ||| s == Spawnables::Tree
    ||| s == Spawnables::Garbage
    ||| s == Spawnables::Fire
    ||| s == Spawnables::Bin
    ||| s == Spawnables::Crate
    ||| s == Spawnables::Bank
}

/// Whether every terrain phase of the order runs before every content phase:
/// the order under which the generated grid respects the capability tables.
pub open spec fn terrain_phases_first(order: Seq<Spawnables>) -> bool {
    forall|a: int, b: int|
        0 <= a < b < order.len() && is_terrain_phase(#[trigger] order[b]) ==> !is_content_phase(
            #[trigger] order[a],
        )
}

/// Whether every tile's content is empty.
pub open spec fn all_contents_empty(map: Seq<Vec<Tile>>) -> bool {
    forall|i: int, j: int|
        0 <= i < map.len() && 0 <= j < map[i]@.len() ==> (#[trigger] map[i]@[j]).content
            == Content::Empty
}

/// Whether every tile's content is one its terrain declares it can hold, or
/// empty.
pub open spec fn capability_ok(map: Seq<Vec<Tile>>) -> bool {
    forall|i: int, j: int|
        0 <= i < map.len() && 0 <= j < map[i]@.len() ==> {
            let cell = #[trigger] map[i]@[j];
            cell.content == Content::Empty || can_hold_spec(cell.tile_type, cell.content)
        }
}

/// Both halves of a healthy grid: contents fit their terrain, and no
/// quantity exceeds its kind's maximum.
pub open spec fn tiles_ok(map: Seq<Vec<Tile>>) -> bool {
    capability_ok(map) && world_quantities_ok(map)
}

/// A square map of the given side length.
pub open spec fn map_sized(map: Seq<Vec<Tile>>, size: usize) -> bool {
    &&& map.len() == size
    &&& forall|i: int| 0 <= i < map.len() ==> (#[trigger] map[i])@.len() == size
}

/// Whether the cell `(i, j)` comes before `(r, c)` in a row-major scan.
pub open spec fn row_major_before(i: int, j: int, r: int, c: int) -> bool {
    i < r || (i == r && j < c)
}

/// The robot's starting position: the first tile of a row-major scan whose
/// terrain is walkable, or the origin when nothing is walkable.
pub fn find_spawn_position(world: &Vec<Vec<Tile>>) -> (pos: (usize, usize))
    ensures
        (exists|i: int, j: int|
            0 <= i < world@.len() && 0 <= j < world@[i]@.len() && tile_walk_spec(
                (#[trigger] world@[i]@[j]).tile_type,
            )) ==> {
            &&& pos.0 < world@.len()
            &&& pos.1 < world@[pos.0 as int]@.len()
            &&& tile_walk_spec(world@[pos.0 as int]@[pos.1 as int].tile_type)
            &&& forall|i: int, j: int|
                0 <= i < world@.len() && 0 <= j < world@[i]@.len() && row_major_before(
                    i,
                    j,
                    pos.0 as int,
                    pos.1 as int,
                ) ==> !tile_walk_spec((#[trigger] world@[i]@[j]).tile_type)
        },
        (!exists|i: int, j: int|
            0 <= i < world@.len() && 0 <= j < world@[i]@.len() && tile_walk_spec(
                (#[trigger] world@[i]@[j]).tile_type,
            )) ==> pos == (0usize, 0usize),
{
    let mut y: usize = 0;
    while y < world.len()
        invariant
            y <= world@.len(),
            forall|i: int, j: int|
                0 <= i < y && 0 <= j < world@[i]@.len() ==> !tile_walk_spec(
                    (#[trigger] world@[i]@[j]).tile_type,
                ),
        decreases world@.len() - y,
    {
        let row = &world[y];
        let mut x: usize = 0;
        while x < row.len()
            invariant
                y < world@.len(),
                x <= row@.len(),
                row == world@[y as int],
                forall|i: int, j: int|
                    0 <= i < y && 0 <= j < world@[i]@.len() ==> !tile_walk_spec(
                        (#[trigger] world@[i]@[j]).tile_type,
                    ),
                forall|j: int|
                    0 <= j < x ==> !tile_walk_spec(
                        (#[trigger] world@[y as int]@[j]).tile_type,
                    ),
            decreases row@.len() - x,
        {
            if row[x].tile_type.properties().walk() {
                return (y, x);
            }
            x += 1;
        }
        y += 1;
    }
    (0, 0)
}

impl WorldGenerator {
    /// A generator from explicitly given settings.
    pub fn new(
        size: usize,
        spawn_order: SpawnOrder,
        noise_settings: NoiseSettings,
        thresholds: Thresholds,
        lava_settings: LavaSettings,
        bank_settings: BankSettings,
        bin_settings: BinSettings,
        crate_settings: CrateSettings,
        garbage_settings: GarbageSettings,
        fire_settings: FireSettings,
        tree_settings: TreeSettings,
        coin_settings: CoinSettings,
    ) -> (g: WorldGenerator)
        ensures
            g.size == size,
            g.spawn_order == spawn_order,
            g.noise_settings == noise_settings,
            g.thresholds == thresholds,
            g.lava_settings == lava_settings,
            g.bank_settings == bank_settings,
            g.bin_settings == bin_settings,
            g.crate_settings == crate_settings,
            g.garbage_settings == garbage_settings,
            g.fire_settings == fire_settings,
            g.tree_settings == tree_settings,
            g.coin_settings == coin_settings,
    {
        WorldGenerator {
            size,
            spawn_order,
            noise_settings,
            thresholds,
            lava_settings,
            bank_settings,
            bin_settings,
            crate_settings,
            garbage_settings,
            fire_settings,
            tree_settings,
            coin_settings,
        }
    }

    /// A generator with settings suited to a world of side length `size`, in
    /// a random phase order.
    pub fn default(size: usize) -> (g: WorldGenerator)
        requires
            MINIMUM_WORLD_SIZE <= size <= MAXIMUM_WORLD_SIZE,
        ensures
            g.size == size,
            g.spawn_order@.len() == 15,
            g.lava_settings.lava_flow_range.start <= g.lava_settings.lava_flow_range.end,
            g.fire_settings.settings.radius_range.start
                < g.fire_settings.settings.radius_range.end,
            g.fire_settings.settings.radius_range.end <= usize::MAX - 199,
            g.tree_settings.settings.radius_range.start
                < g.tree_settings.settings.radius_range.end,
            g.tree_settings.settings.radius_range.end <= usize::MAX - 199,
            g.garbage_settings.garbage_pile_size.end <= 0x1000_0000,
    {
        proof {
            assert(size * size >= 10000) by (nonlinear_arith)
                requires
                    size >= 100,
            ;
        }
        WorldGenerator {
            size,
            spawn_order: get_default_spawn_order(),
            noise_settings: NoiseSettings::default(),
            thresholds: Thresholds::default(),
            lava_settings: LavaSettings::default(size),
            bank_settings: BankSettings::default(size),
            bin_settings: BinSettings::default(size),
            crate_settings: CrateSettings::default(size),
            garbage_settings: GarbageSettings::default(size),
            fire_settings: FireSettings::default(size),
            tree_settings: TreeSettings::default(size),
            coin_settings: CoinSettings::default(size),
        }
    }

    /// Run the whole pipeline: validate the configuration, synthesize and
    /// classify the elevation field, run the configured phases in their
    /// deduplicated order, and resolve the robot's starting position.
    ///
    /// When every terrain phase of the order precedes every content phase,
    /// every tile of the result carries content its terrain can hold; in
    /// every case no tile's quantity exceeds its kind's maximum.
    pub fn gen_with<G: GeometrySource>(&mut self, geo: &mut G) -> (r: Result<
        GenResult,
        WorldGenError,
    >)
        requires
            old(self).lava_settings.lava_flow_range.start <= old(
                self,
            ).lava_settings.lava_flow_range.end,
            old(self).fire_settings.settings.radius_range.end <= usize::MAX - 199,
            old(self).tree_settings.settings.radius_range.end <= usize::MAX - 199,
            old(self).garbage_settings.garbage_pile_size.end <= 0x1000_0000,
        ensures
            old(self).size < MINIMUM_WORLD_SIZE <==> r == Result::<
                GenResult,
                WorldGenError,
            >::Err(WorldGenError::WorldTooSmall),
            (old(self).size >= MINIMUM_WORLD_SIZE && old(self).size > MAXIMUM_WORLD_SIZE) <==> r
                == Result::<GenResult, WorldGenError>::Err(WorldGenError::WorldTooLarge),
            (MINIMUM_WORLD_SIZE <= old(self).size <= MAXIMUM_WORLD_SIZE
                && blob_settings_error_spec(old(self).fire_settings.settings) is Some) ==> r
                == Result::<GenResult, WorldGenError>::Err(
                WorldGenError::FireSettings(
                    blob_settings_error_spec(old(self).fire_settings.settings)->Some_0,
                ),
            ),
            (MINIMUM_WORLD_SIZE <= old(self).size <= MAXIMUM_WORLD_SIZE
                && blob_settings_error_spec(old(self).fire_settings.settings) is None
                && blob_settings_error_spec(old(self).tree_settings.settings) is Some) ==> r
                == Result::<GenResult, WorldGenError>::Err(
                WorldGenError::TreeSettings(
                    blob_settings_error_spec(old(self).tree_settings.settings)->Some_0,
                ),
            ),
            (MINIMUM_WORLD_SIZE <= old(self).size <= MAXIMUM_WORLD_SIZE
                && blob_settings_error_spec(old(self).fire_settings.settings) is None
                && blob_settings_error_spec(old(self).tree_settings.settings) is None
                && !garbage_config_ok(old(self).garbage_settings)) ==> r == Result::<
                GenResult,
                WorldGenError,
            >::Err(WorldGenError::GarbagePileSizeRange),
            (MINIMUM_WORLD_SIZE <= old(self).size <= MAXIMUM_WORLD_SIZE
                && blob_settings_error_spec(old(self).fire_settings.settings) is None
                && blob_settings_error_spec(old(self).tree_settings.settings) is None
                && garbage_config_ok(old(self).garbage_settings)) ==> (r is Ok || r == Result::<
                GenResult,
                WorldGenError,
            >::Err(WorldGenError::BadElevationField)),
            r is Err ==> final(self).spawn_order == old(self).spawn_order,
            r is Ok ==> final(self).spawn_order@ == first_seen_dedup(old(self).spawn_order@),
            r is Ok ==> {
                let (map, pos, env) = r->Ok_0;
                &&& map_sized(map@, old(self).size)
                &&& world_quantities_ok(map@)
                &&& (terrain_phases_first(final(self).spawn_order@) ==> capability_ok(map@))
                &&& env_ok(env)
                &&& env.progression() == 15
                &&& env.time() == (TimeOfDay { hour: 9, minute: 0 })
                &&& env.forecast() =~= seq![
                    WeatherType::Rainy,
                    WeatherType::Sunny,
                    WeatherType::Foggy,
                    WeatherType::TropicalMonsoon,
                    WeatherType::TrentinoWinter,
                ]
                &&& ((exists|i: int, j: int|
                    0 <= i < map@.len() && 0 <= j < map@[i]@.len() && tile_walk_spec(
                        (#[trigger] map@[i]@[j]).tile_type,
                    )) ==> {
                    &&& pos.0 < map@.len()
                    &&& pos.1 < map@[pos.0 as int]@.len()
                    &&& tile_walk_spec(map@[pos.0 as int]@[pos.1 as int].tile_type)
                    &&& forall|i: int, j: int|
                        0 <= i < map@.len() && 0 <= j < map@[i]@.len() && row_major_before(
                            i,
                            j,
                            pos.0 as int,
                            pos.1 as int,
                        ) ==> !tile_walk_spec((#[trigger] map@[i]@[j]).tile_type)
                })
                &&& ((!exists|i: int, j: int|
                    0 <= i < map@.len() && 0 <= j < map@[i]@.len() && tile_walk_spec(
                        (#[trigger] map@[i]@[j]).tile_type,
                    )) ==> pos == (0usize, 0usize))
                &&& pos.0 < old(self).size && pos.1 < old(self).size
            },
    {
        let size = self.size;
        if size < MINIMUM_WORLD_SIZE {
            return Err(WorldGenError::WorldTooSmall);
        }
        if size > MAXIMUM_WORLD_SIZE {
            return Err(WorldGenError::WorldTooLarge);
        }
        if let Err(e) = crate::content::blob::errors(&self.fire_settings.settings) {
            return Err(WorldGenError::FireSettings(e));
        }
        if let Err(e) = crate::content::blob::errors(&self.tree_settings.settings) {
            return Err(WorldGenError::TreeSettings(e));
        }
        if self.garbage_settings.garbage_pile_size.start
            >= self.garbage_settings.garbage_pile_size.end
            && self.garbage_settings.total_garbage_quantity != 0 {
            return Err(WorldGenError::GarbagePileSizeRange);
        }

        let noise_map = geo.elevation_map(size, &self.noise_settings);
        if noise_map.len() != size {
            return Err(WorldGenError::BadElevationField);
        }
        let mut ri: usize = 0;
        while ri < noise_map.len()
            invariant
                ri <= noise_map@.len(),
                noise_map@.len() == size,
                size == old(self).size,
                MINIMUM_WORLD_SIZE <= size <= MAXIMUM_WORLD_SIZE,
                blob_settings_error_spec(old(self).fire_settings.settings) is None,
                blob_settings_error_spec(old(self).tree_settings.settings) is None,
                garbage_config_ok(old(self).garbage_settings),
                forall|i: int|
                    0 <= i < ri ==> (#[trigger] noise_map@[i])@.len() == noise_map@.len(),
            decreases noise_map@.len() - ri,
        {
            if noise_map[ri].len() != size {
                return Err(WorldGenError::BadElevationField);
            }
            ri += 1;
        }
        proof {
            assert(elevation_square(noise_map@));
        }

        let min_value = find_min_value(&noise_map).unwrap_or(i64::MAX);
        let max_value = find_max_value(&noise_map).unwrap_or(i64::MIN);

        let mut world = generate_terrain(&noise_map, &self.thresholds, min_value, max_value);

        remove_duplicates_spawnables(&mut self.spawn_order);
        proof {
            lemma_first_seen_dedup_no_duplicates(old(self).spawn_order@);
        }

        let ghost order = self.spawn_order@;
        let ghost old_fire = self.fire_settings.settings;
        let ghost old_tree = self.tree_settings.settings;
        let ghost mut content_phase_ran: bool = false;
        let ghost mut fire_ran: bool = false;
        let ghost mut tree_ran: bool = false;

        let mut phase: usize = 0;
        while phase < self.spawn_order.len()
            invariant
                self.spawn_order@ == order,
                order == first_seen_dedup(old(self).spawn_order@),
                size == old(self).size,
                old_fire == old(self).fire_settings.settings,
                old_tree == old(self).tree_settings.settings,
                forall|k1: int, k2: int| 0 <= k1 < k2 < order.len() ==> order[k1] != order[k2],
                blob_settings_error_spec(old_fire) is None,
                blob_settings_error_spec(old_tree) is None,
                fire_ran == exists|m: int|
                    0 <= m < phase && #[trigger] order[m] == Spawnables::Fire,
                tree_ran == exists|m: int|
                    0 <= m < phase && #[trigger] order[m] == Spawnables::Tree,
                !fire_ran ==> self.fire_settings.settings == old_fire,
                !tree_ran ==> self.tree_settings.settings == old_tree,
                self.size == size,
                MINIMUM_WORLD_SIZE <= size <= MAXIMUM_WORLD_SIZE,
                self.lava_settings.lava_flow_range.start
                    <= self.lava_settings.lava_flow_range.end,
                self.fire_settings.settings.radius_range.end <= usize::MAX - 199,
                self.tree_settings.settings.radius_range.end <= usize::MAX - 199,
                self.garbage_settings.garbage_pile_size.end <= 0x1000_0000,
                garbage_config_ok(self.garbage_settings),
                phase <= order.len(),
                noise_map@.len() == size,
                elevation_square(noise_map@),
                map_sized(world@, size),
                world_quantities_ok(world@),
                content_phase_ran == exists|m: int|
                    0 <= m < phase && is_content_phase(#[trigger] order[m]),
                !content_phase_ran ==> all_contents_empty(world@),
                terrain_phases_first(order) ==> tiles_ok(world@),
            decreases order.len() - phase,
        {
            let spawnable = self.spawn_order[phase];
            match spawnable {
                Spawnables::Street => {
                    proof {
                        if terrain_phases_first(order) {
                            assert(is_terrain_phase(order[phase as int]));
                            if content_phase_ran {
                                let m = choose|m: int|
                                    0 <= m < phase && is_content_phase(#[trigger] order[m]);
                                assert(!is_content_phase(order[m]));
                            }
                            assert(all_contents_empty(world@));
                        }
                    }
                    let polygons = street_spawn(&noise_map, STREET_SLICES_PER_SIDE, STREET_PEAK_CUTOFF, geo);
                    let ghost before_streets = world@;
                    let mut pi: usize = 0;
                    while pi < polygons.len()
                        invariant
                            map_sized(world@, size),
                            forall|p: int|
                                0 <= p < polygons@.len() ==> {
                                    let path = (#[trigger] polygons@[p])@;
                                    forall|k: int|
                                        0 <= k < path.len() ==> (#[trigger] path[k]).row < size
                                            && path[k].col < size
                                },
                            forall|i: int, j: int|
                                0 <= i < world@.len() && 0 <= j < world@[i]@.len() ==> (
                                #[trigger] world@[i]@[j]).content
                                    == before_streets[i]@[j].content,
                            map_sized(before_streets, size),
                        decreases polygons@.len() - pi,
                    {
                        let polygon = &polygons[pi];
                        let mut ci: usize = 0;
                        while ci < polygon.len()
                            invariant
                                pi < polygons@.len(),
                                polygon == polygons@[pi as int],
                                map_sized(world@, size),
                                forall|k: int|
                                    0 <= k < polygon@.len() ==> (#[trigger] polygon@[k]).row
                                        < size && polygon@[k].col < size,
                                forall|i: int, j: int|
                                    0 <= i < world@.len() && 0 <= j < world@[i]@.len() ==> (
                                    #[trigger] world@[i]@[j]).content
                                        == before_streets[i]@[j].content,
                                map_sized(before_streets, size),
                            decreases polygon@.len() - ci,
                        {
                            let c = polygon[ci];
                            set_tile_type(&mut world, c.row, c.col, TileType::Street);
                            ci += 1;
                        }
                        pi += 1;
                    }
                },
                Spawnables::Lava => {
                    proof {
                        assert(map_matches_elevation(world@, noise_map@));
                        if terrain_phases_first(order) {
                            assert(is_terrain_phase(order[phase as int]));
                            if content_phase_ran {
                                let m = choose|m: int|
                                    0 <= m < phase && is_content_phase(#[trigger] order[m]);
                                assert(!is_content_phase(order[m]));
                            }
                            assert(all_contents_empty(world@));
                        }
                    }
                    let range = self.lava_settings.lava_flow_range.start
                        ..self.lava_settings.lava_flow_range.end;
                    let settings = LavaSettings::new(
                        self.lava_settings.number_of_spawn_points,
                        range,
                    );
                    spawn_lava(&mut world, &noise_map, settings);
                },
                Spawnables::Tree => {
                    proof {
                        if tree_ran {
                            let m = choose|m: int|
                                0 <= m < phase && #[trigger] order[m] == Spawnables::Tree;
                            assert(order[m] == order[phase as int]);
                        }
                        assert(!tree_ran);
                        assert(self.tree_settings.settings == old_tree);
                    }
                    let result = spawn_tree(&mut world, &mut self.tree_settings, geo);
                    match result {
                        Ok(_) => {},
                        Err(e) => {
                            proof {
                                assert(false);
                            }
                            return Err(WorldGenError::TreeSettings(e));
                        },
                    }
                    proof {
                        content_phase_ran = true;
                        tree_ran = true;
                        assert(order[phase as int] == Spawnables::Tree);
                    }
                },
                Spawnables::Garbage => {
                    spawn_garbage(&mut world, &self.garbage_settings);
                    proof {
                        content_phase_ran = true;
                    }
                },
                Spawnables::Fire => {
                    proof {
                        if fire_ran {
                            let m = choose|m: int|
                                0 <= m < phase && #[trigger] order[m] == Spawnables::Fire;
                            assert(order[m] == order[phase as int]);
                        }
                        assert(!fire_ran);
                        assert(self.fire_settings.settings == old_fire);
                    }
                    let result = spawn_fire(&mut world, &mut self.fire_settings, geo);
                    match result {
                        Ok(_) => {},
                        Err(e) => {
                            proof {
                                assert(false);
                            }
                            return Err(WorldGenError::FireSettings(e));
                        },
                    }
                    proof {
                        content_phase_ran = true;
                        fire_ran = true;
                        assert(order[phase as int] == Spawnables::Fire);
                    }
                },
                Spawnables::Bin => {
                    let settings = crate::content::bin::BinSettings::new(
                        self.bin_settings.number_of_spawn_points,
                    );
                    spawn_bin(&mut world, settings);
                    proof {
                        content_phase_ran = true;
                    }
                },
                Spawnables::Crate => {
                    let settings = crate::content::wood_crate::CrateSettings::new(
                        self.crate_settings.number_of_spawn_points,
                    );
                    spawn_crate(&mut world, settings);
                    proof {
                        content_phase_ran = true;
                    }
                },
                Spawnables::Bank => {
                    spawn_bank(&mut world, self.bank_settings);
                    proof {
                        content_phase_ran = true;
                    }
                },
                _ => {},
            }
            phase += 1;
        }

        let robot_position = find_spawn_position(&world);
        let forecast = [
            WeatherType::Rainy,
            WeatherType::Sunny,
            WeatherType::Foggy,
            WeatherType::TropicalMonsoon,
            WeatherType::TrentinoWinter,
        ];
        let environmental_conditions = EnvironmentalConditions::new(&forecast, 15, 9);
        proof {
            assert(environmental_conditions.forecast() =~= seq![
                WeatherType::Rainy,
                WeatherType::Sunny,
                WeatherType::Foggy,
                WeatherType::TropicalMonsoon,
                WeatherType::TrentinoWinter,
            ]);
        }

        Ok((world, robot_position, environmental_conditions))
    }
}

} // verus!
