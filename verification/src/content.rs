use vstd::prelude::*;

pub mod bank;
pub mod bin;
pub mod blob;
pub mod coin;
pub mod fire;
pub mod fish;
pub mod garbage;
pub mod market;
pub mod rock;
pub mod tree;
pub mod water;
pub mod wood_crate;

verus! {

use crate::interface::same_shape;
use crate::world::tile::{can_hold_spec, content_index_spec, Content, Tile};
use crate::world::worldgenerator::content_quantity_ok;

/// What every content spawner guarantees: the grid keeps its shape and its
/// terrain, and a tile's content either stays as it was or goes from empty to
/// a value of the spawned kind that the terrain can hold, with a quantity
/// within the kind's maximum.
pub open spec fn spawn_preserves(old_map: Seq<Vec<Tile>>, new_map: Seq<Vec<Tile>>, c: Content) -> bool {
    &&& same_shape(old_map, new_map)
    &&& forall|i: int, j: int|
        0 <= i < old_map.len() && 0 <= j < old_map[i]@.len() ==> (
        #[trigger] new_map[i]@[j]).tile_type == old_map[i]@[j].tile_type
    &&& forall|i: int, j: int|
        0 <= i < old_map.len() && 0 <= j < old_map[i]@.len() ==> {
            let cell = #[trigger] new_map[i]@[j];
            ||| cell.content == old_map[i]@[j].content
            ||| {
                &&& old_map[i]@[j].content == Content::Empty
                &&& can_hold_spec(old_map[i]@[j].tile_type, cell.content)
                &&& content_index_spec(cell.content) == content_index_spec(c)
                &&& content_quantity_ok(cell.content)
            }
        }
}

} // verus!
