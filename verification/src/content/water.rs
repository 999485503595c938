use vstd::prelude::*;

verus! {

use crate::world::tile::{Content, TileType};

/// The content a freshly classified water tile starts with: a random amount
/// of water on the two water terrains, nothing anywhere else.
#[allow(dead_code)]
pub(crate) fn add_default_water_content(tile_type: TileType) -> (c: Content)
    ensures
        matches!(tile_type, TileType::DeepWater | TileType::ShallowWater) ==> matches!(
            c,
            Content::Water(_),
        ) && crate::world::worldgenerator::content_quantity_ok(c),
        !matches!(tile_type, TileType::DeepWater | TileType::ShallowWater) ==> c
            == Content::Empty,
{
    if matches!(tile_type, TileType::DeepWater) || matches!(tile_type, TileType::ShallowWater) {
        let max = Content::Water(0).properties().max();
        let value = crate::rng::rand_in_range(0, max);
        Content::Water(value)
    } else {
        Content::Empty
    }
}

} // verus!
