use vstd::prelude::*;

verus! {

use crate::content::spawn_preserves;
use crate::interface::set_tile_content;
use crate::utils::spawn_content_randomly;
use crate::world::tile::{Content, Tile};

/// Settings defining the behaviour of coin spawning: how many spawn points
/// to scatter.
#[derive(Clone)]
pub struct CoinSettings {
    /// The number of coins to spawn.
    pub number_of_spawn_points: usize,
}

impl CoinSettings {
    /// Settings suited to a world of side length `size`.
    pub fn default(size: usize) -> (s: CoinSettings)
        ensures
            s.number_of_spawn_points == (if size * size <= usize::MAX { size * size } else { usize::MAX as int }) / 25,
    {
        CoinSettings { number_of_spawn_points: size.checked_mul(size).unwrap_or(usize::MAX) / 25 }
    }

    /// Settings with the given number of spawn points.
    pub fn new(spawn_points: usize) -> (s: CoinSettings)
        ensures
            s.number_of_spawn_points == spawn_points,
    {
        CoinSettings { number_of_spawn_points: spawn_points }
    }
}

/// Scatter coins over empty tiles whose terrain can hold them, each with a random quantity.
pub fn spawn_coin(world: &mut Vec<Vec<Tile>>, coin_settings: CoinSettings)
    ensures
        spawn_preserves(old(world)@, final(world)@, Content::Coin(0)),
        forall|i: int, j: int|
            0 <= i < old(world)@.len() && 0 <= j < old(world)@[i]@.len() && (
            #[trigger] final(world)@[i]@[j]).content != old(world)@[i]@[j].content ==> exists|
            q: usize,
        |
            final(world)@[i]@[j].content == Content::Coin(q) && 1 <= q <= 10,
{
    let max = Content::Coin(0).properties().max();
    let spawn_points = spawn_content_randomly(
        world,
        coin_settings.number_of_spawn_points,
        Content::Coin(0),
    );

    let mut i: usize = 0;
    while i < spawn_points.len()
        invariant
            spawn_preserves(old(world)@, world@, Content::Coin(0)),
            forall|a: int, b: int|
                0 <= a < old(world)@.len() && 0 <= b < old(world)@[a]@.len() && (
                #[trigger] world@[a]@[b]).content != old(world)@[a]@[b].content ==> exists|
                q: usize,
            |
                world@[a]@[b].content == Content::Coin(q) && 1 <= q <= 10,
            max == 10,
            forall|k: int|
                0 <= k < spawn_points@.len() ==> {
                    let p = #[trigger] spawn_points@[k];
                    &&& p.row < old(world)@.len()
                    &&& p.col < old(world)@[p.row as int]@.len()
                    &&& old(world)@[p.row as int]@[p.col as int].content == Content::Empty
                    &&& crate::world::tile::can_hold_spec(
                        old(world)@[p.row as int]@[p.col as int].tile_type,
                        Content::Coin(0),
                    )
                },
        decreases spawn_points@.len() - i,
    {
        let c = spawn_points[i];
        let quantity = crate::rng::rand_in_range_inclusive(1, max);
        let ghost pre = world@;
        set_tile_content(world, c.row, c.col, Content::Coin(quantity));
        proof {
            assert forall|a: int, b: int|
                0 <= a < old(world)@.len() && 0 <= b < old(world)@[a]@.len() && (
                #[trigger] world@[a]@[b]).content != old(world)@[a]@[b].content implies exists|
                q: usize,
            |
                world@[a]@[b].content == Content::Coin(q) && 1 <= q <= 10 by {
                if a == c.row && b == c.col {
                    assert(world@[a]@[b].content == Content::Coin(quantity));
                } else {
                    assert(world@[a]@[b] == pre[a]@[b]);
                }
            }
        }
        i += 1;
    }
}

} // verus!
