use vstd::prelude::*;

verus! {

use crate::content::spawn_preserves;
use crate::interface::set_tile_content;
use crate::utils::spawn_content_randomly;
use crate::world::tile::{Content, Tile};

/// Settings defining the behaviour of bin spawning: how many spawn points
/// to scatter.
#[derive(Clone)]
pub struct BinSettings {
    /// The number of bins to spawn.
    pub number_of_spawn_points: usize,
}

impl BinSettings {
    /// Settings suited to a world of side length `size`.
    pub fn default(size: usize) -> (s: BinSettings)
        ensures
            s.number_of_spawn_points == size / 25,
    {
        BinSettings { number_of_spawn_points: size / 25 }
    }

    /// Settings with the given number of spawn points.
    pub fn new(spawn_points: usize) -> (s: BinSettings)
        ensures
            s.number_of_spawn_points == spawn_points,
    {
        BinSettings { number_of_spawn_points: spawn_points }
    }
}

/// Scatter bins over empty tiles whose terrain can hold them, each with a random stored range.
pub fn spawn_bin(world: &mut Vec<Vec<Tile>>, bin_settings: BinSettings)
    ensures
        spawn_preserves(old(world)@, final(world)@, Content::Bin(0usize..0usize)),
        forall|i: int, j: int|
            0 <= i < old(world)@.len() && 0 <= j < old(world)@[i]@.len() && (
            #[trigger] final(world)@[i]@[j]).content != old(world)@[i]@[j].content ==> exists|
            ub: usize,
        |
            final(world)@[i]@[j].content == Content::Bin(1usize..ub) && 2 <= ub <= 10,
{
    let max = Content::Bin(0usize..0usize).properties().max();
    let spawn_points = spawn_content_randomly(
        world,
        bin_settings.number_of_spawn_points,
        Content::Bin(0usize..0usize),
    );

    let mut i: usize = 0;
    while i < spawn_points.len()
        invariant
            spawn_preserves(old(world)@, world@, Content::Bin(0usize..0usize)),
            forall|a: int, b: int|
                0 <= a < old(world)@.len() && 0 <= b < old(world)@[a]@.len() && (
                #[trigger] world@[a]@[b]).content != old(world)@[a]@[b].content ==> exists|
                ub: usize,
            |
                world@[a]@[b].content == Content::Bin(1usize..ub) && 2 <= ub <= 10,
            max == 10,
            forall|k: int|
                0 <= k < spawn_points@.len() ==> {
                    let p = #[trigger] spawn_points@[k];
                    &&& p.row < old(world)@.len()
                    &&& p.col < old(world)@[p.row as int]@.len()
                    &&& old(world)@[p.row as int]@[p.col as int].content == Content::Empty
                    &&& crate::world::tile::can_hold_spec(
                        old(world)@[p.row as int]@[p.col as int].tile_type,
                        Content::Bin(0usize..0usize),
                    )
                },
        decreases spawn_points@.len() - i,
    {
        let c = spawn_points[i];
        let upper_bound = crate::rng::rand_in_range_inclusive(2, max);
        let ghost pre = world@;
        set_tile_content(world, c.row, c.col, Content::Bin(1usize..upper_bound));
        proof {
            assert forall|a: int, b: int|
                0 <= a < old(world)@.len() && 0 <= b < old(world)@[a]@.len() && (
                #[trigger] world@[a]@[b]).content != old(world)@[a]@[b].content implies exists|
                ub: usize,
            |
                world@[a]@[b].content == Content::Bin(1usize..ub) && 2 <= ub <= 10 by {
                if a == c.row && b == c.col {
                    assert(world@[a]@[b].content == Content::Bin(1usize..upper_bound));
                } else {
                    assert(world@[a]@[b] == pre[a]@[b]);
                }
            }
        }
        i += 1;
    }
}

} // verus!
