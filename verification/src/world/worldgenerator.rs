use vstd::prelude::*;

verus! {

use crate::world::environmental_conditions::EnvironmentalConditions;
use crate::world::tile::{content_max_spec, Content, Tile};

/// A source of freshly generated worlds: the tile map, the robot's starting
/// position as `(row, col)`, and the world's weather and clock.
pub trait Generator {
    fn gen(&mut self) -> (Vec<Vec<Tile>>, (usize, usize), EnvironmentalConditions);
}

/// The quantity that a content value carries: the stored upper bound for the
/// container kinds, the plain quantity otherwise.
pub open spec fn content_quantity_spec(c: Content) -> usize {
    match c {
        Content::Rock(v) => v,
        Content::Tree(v) => v,
        Content::Garbage(v) => v,
        Content::Fire => 0,
        Content::Coin(v) => v,
        Content::Bin(r) => r.end,
        Content::Crate(r) => r.end,
        Content::Bank(r) => r.end,
        Content::Water(v) => v,
        Content::Empty => 0,
    }
}

/// Whether a content value carries no more than its kind's declared maximum.
pub open spec fn content_quantity_ok(c: Content) -> bool {
    content_quantity_spec(c) <= content_max_spec(c)
}

/// Whether every tile of the map carries no more of its content than the
/// content kind's declared maximum.
pub open spec fn world_quantities_ok(map: Seq<Vec<Tile>>) -> bool {
    forall|i: int, j: int|
        0 <= i < map.len() && 0 <= j < map[i]@.len() ==> content_quantity_spec(
            (#[trigger] map[i]@[j]).content,
        ) <= content_max_spec(map[i]@[j].content)
}

/// Check that no tile's content quantity exceeds its kind's maximum.
pub fn check_world(world: &Vec<Vec<Tile>>) -> (r: Result<bool, crate::utils::LibError>)
    ensures
        r == Result::<bool, crate::utils::LibError>::Ok(world_quantities_ok(world@)),
{
    let mut i: usize = 0;
    while i < world.len()
        invariant
            i <= world@.len(),
            forall|a: int, b: int|
                0 <= a < i && 0 <= b < world@[a]@.len() ==> content_quantity_spec(
                    (#[trigger] world@[a]@[b]).content,
                ) <= content_max_spec(world@[a]@[b].content),
        decreases world@.len() - i,
    {
        let row = &world[i];
        let mut j: usize = 0;
        while j < row.len()
            invariant
                i < world@.len(),
                j <= row@.len(),
                row == world@[i as int],
                forall|a: int, b: int|
                    0 <= a < i && 0 <= b < world@[a]@.len() ==> content_quantity_spec(
                        (#[trigger] world@[a]@[b]).content,
                    ) <= content_max_spec(world@[a]@[b].content),
                forall|b: int|
                    0 <= b < j ==> content_quantity_spec((#[trigger] world@[i as int]@[b]).content)
                        <= content_max_spec(world@[i as int]@[b].content),
            decreases row@.len() - j,
        {
            let value: usize = match &row[j].content {
                Content::Rock(v) => *v,
                Content::Tree(v) => *v,
                Content::Garbage(v) => *v,
                Content::Fire => 0,
                Content::Coin(v) => *v,
                Content::Bin(r) => r.end,
                Content::Crate(r) => r.end,
                Content::Bank(r) => r.end,
                Content::Water(v) => *v,
                Content::Empty => 0,
            };
            let max = row[j].content.properties().max();
            if value > max {
                return Ok(false);
            }
            j += 1;
        }
        i += 1;
    }
    Ok(true)
}

} // verus!
