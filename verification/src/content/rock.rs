use vstd::prelude::*;

verus! {

use crate::content::spawn_preserves;
use crate::interface::set_tile_content;
use crate::world::tile::{can_hold_spec, Content, Tile, TileType};

/// How rocks spawn: a per-terrain spawn probability, in thousandths, and a
/// total rock budget.
#[derive(Clone, Copy)]
pub struct RockSettings {
    /// Spawn probability per terrain kind, in thousandths, ordered deep
    /// water, shallow water, sand, grass, hill, mountain, snow.
    pub probability_vector: [u32; 7],
    /// The total number of rocks available in the world.
    pub max_num_rocks: usize,
}

impl RockSettings {
    /// Settings suited to a world of side length `size`.
    pub fn default(size: usize) -> (s: RockSettings)
        ensures
            s.max_num_rocks == (if size * size <= usize::MAX {
                size * size
            } else {
                usize::MAX as int
            }) / 20,
            s.probability_vector@ =~= seq![0u32, 0u32, 100u32, 250u32, 450u32, 500u32, 700u32],
    {
        let max_num_rocks = size.checked_mul(size).unwrap_or(usize::MAX) / 20;
        RockSettings {
            max_num_rocks,
            probability_vector: [0, 0, 100, 250, 450, 500, 700],
        }
    }

    /// Settings given explicitly, probabilities in thousandths.
    pub fn new(max_num_rocks: usize, probability_vector: [u32; 7]) -> (s: RockSettings)
        ensures
            s.max_num_rocks == max_num_rocks,
            s.probability_vector == probability_vector,
    {
        RockSettings { probability_vector, max_num_rocks }
    }
}

/// The spawn probability a terrain kind carries, in thousandths; streets and
/// lava never grow rocks.
pub open spec fn rock_probability_spec(s: RockSettings, t: TileType) -> u32 {
    match t {
        TileType::DeepWater => s.probability_vector@[0],
        TileType::ShallowWater => s.probability_vector@[1],
        TileType::Sand => s.probability_vector@[2],
        TileType::Grass => s.probability_vector@[3],
        TileType::Street => 0,
        TileType::Hill => s.probability_vector@[4],
        TileType::Mountain => s.probability_vector@[5],
        TileType::Snow => s.probability_vector@[6],
        TileType::Lava => 0,
    }
}

/// Look up the spawn probability of a terrain kind, in thousandths.
pub(crate) fn match_probabilities(rock_settings: RockSettings, tile_type: TileType) -> (p: u32)
    ensures
        p == rock_probability_spec(rock_settings, tile_type),
{
    match tile_type {
        TileType::DeepWater => rock_settings.probability_vector[0],
        TileType::ShallowWater => rock_settings.probability_vector[1],
        TileType::Sand => rock_settings.probability_vector[2],
        TileType::Grass => rock_settings.probability_vector[3],
        TileType::Street => 0,
        TileType::Hill => rock_settings.probability_vector[4],
        TileType::Mountain => rock_settings.probability_vector[5],
        TileType::Snow => rock_settings.probability_vector[6],
        TileType::Lava => 0,
    }
}

/// Scatter rocks: walk the grid drawing against each terrain's probability,
/// keep at most the configured number of candidate cells that are empty and
/// can hold a rock, and stamp each chosen cell with a random quantity.
pub fn spawn_rock(world: &mut Vec<Vec<Tile>>, rock_settings: RockSettings)
    ensures
        spawn_preserves(old(world)@, final(world)@, Content::Rock(0)),
        forall|i: int, j: int|
            0 <= i < old(world)@.len() && 0 <= j < old(world)@[i]@.len() && (
            #[trigger] final(world)@[i]@[j]).content != old(world)@[i]@[j].content ==> exists|
            q: usize,
        |
            final(world)@[i]@[j].content == Content::Rock(q) && 1 <= q <= 4,
{
    let mut cnt = rock_settings.max_num_rocks;
    let mut possible_rock_tiles: Vec<(usize, usize)> = Vec::new();

    let mut y: usize = 0;
    while y < world.len()
        invariant
            forall|k: int|
                0 <= k < possible_rock_tiles@.len() ==> {
                    let p = #[trigger] possible_rock_tiles@[k];
                    &&& p.0 < world@.len()
                    &&& p.1 < world@[p.0 as int]@.len()
                    &&& world@[p.0 as int]@[p.1 as int].content == Content::Empty
                    &&& can_hold_spec(world@[p.0 as int]@[p.1 as int].tile_type, Content::Rock(0))
                },
        decreases world@.len() - y,
    {
        if cnt == 0 {
            break;
        }
        let mut x: usize = 0;
        let row_len = world[y].len();
        while x < row_len
            invariant
                y < world@.len(),
                row_len == world@[y as int]@.len(),
                forall|k: int|
                    0 <= k < possible_rock_tiles@.len() ==> {
                        let p = #[trigger] possible_rock_tiles@[k];
                        &&& p.0 < world@.len()
                        &&& p.1 < world@[p.0 as int]@.len()
                        &&& world@[p.0 as int]@[p.1 as int].content == Content::Empty
                        &&& can_hold_spec(
                            world@[p.0 as int]@[p.1 as int].tile_type,
                            Content::Rock(0),
                        )
                    },
            decreases row_len - x,
        {
            let prob = match_probabilities(rock_settings, world[y][x].tile_type);
            let draw = crate::rng::rand_in_range(0, 1000);
            let rock = (draw as u32) < prob;
            let can_hold = world[y][x].tile_type.properties().can_hold(&Content::Rock(0))
                && matches!(world[y][x].content, Content::Empty);

            if rock && can_hold && cnt > 0 {
                possible_rock_tiles.push((y, x));
                cnt -= 1;
            } else if cnt == 0 {
                break;
            }
            x += 1;
        }
        y += 1;
    }

    crate::rng::shuffle(&mut possible_rock_tiles);

    let max = Content::Rock(0).properties().max();
    let mut i: usize = 0;
    while i < possible_rock_tiles.len()
        invariant
            max == 4,
            spawn_preserves(old(world)@, world@, Content::Rock(0)),
            forall|a: int, b: int|
                0 <= a < old(world)@.len() && 0 <= b < old(world)@[a]@.len() && (
                #[trigger] world@[a]@[b]).content != old(world)@[a]@[b].content ==> exists|
                q: usize,
            |
                world@[a]@[b].content == Content::Rock(q) && 1 <= q <= 4,
        decreases possible_rock_tiles@.len() - i,
    {
        let (py, px) = (possible_rock_tiles[i].0, possible_rock_tiles[i].1);
        let qt = crate::rng::rand_in_range_inclusive(1, max);
        if py < world.len() {
            if px < world[py].len() {
                if matches!(world[py][px].content, Content::Empty) && world[py][
                    px
                ].tile_type.properties().can_hold(&Content::Rock(0)) {
                    let ghost before = world@;
                    set_tile_content(world, py, px, Content::Rock(qt));
                    proof {
                        crate::content::garbage::lemma_spawn_preserves_trans(
                            old(world)@,
                            before,
                            world@,
                            Content::Rock(0),
                        );
                        assert forall|a: int, b: int|
                            0 <= a < old(world)@.len() && 0 <= b < old(world)@[a]@.len() && (
                            #[trigger] world@[a]@[b]).content != old(world)@[a]@[b].content
                            implies exists|q: usize|
                            world@[a]@[b].content == Content::Rock(q) && 1 <= q <= 4 by {
                            if a == py && b == px {
                                assert(world@[a]@[b].content == Content::Rock(qt));
                            } else {
                                assert(world@[a]@[b] == before[a]@[b]);
                            }
                        }
                    }
                }
            }
        }
        i += 1;
    }
}

} // verus!
