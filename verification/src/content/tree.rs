use vstd::prelude::*;

verus! {

use crate::content::blob::{
    blob_settings_error_spec, spawn_blob, Blob, BlobSettings, BlobSettingsError,
};
use crate::content::spawn_preserves;
use crate::generator::GeometrySource;
use crate::world::tile::{Content, Tile};

/// How forests spawn: the blob budgets behind them.
#[derive(Clone)]
pub struct TreeSettings {
    /// Budgets and radii of the tree blobs.
    pub settings: BlobSettings,
}

/// A forest: a blob of tree tiles.
pub struct Tree {
    /// The underlying blob.
    pub inner: Blob,
}

impl TreeSettings {
    /// Blob budgets suited to a world of side length `size`: small radii of
    /// at most four tiles, and around an eighth of a blob per tile of side.
    pub fn default(size: usize) -> (s: TreeSettings)
        requires
            size >= 100,
            size <= 0x1000_0000,
        ensures
            s.settings.radius_range.start == 100,
            s.settings.radius_range.end == (if 2 * size < 400 {
                2 * size as int
            } else {
                400
            }),
            s.settings.n_blob.start == size / 10,
            s.settings.n_blob.end == size * 15 / 100,
            s.settings.n_tiles.start == 1,
            s.settings.radius_range.start < s.settings.radius_range.end,
    {
        let radius_start: usize = 100;
        let radius_end = if 2 * size < 400 {
            2 * size
        } else {
            400
        };
        let n_blob_start = size / 10;
        let n_blob_end = size * 15 / 100;
        let diameter_tiles = 2 * ((radius_end + 99) / 100);
        let n_tiles_end = diameter_tiles.checked_mul(diameter_tiles).unwrap_or(
            usize::MAX,
        ).checked_mul(n_blob_end).unwrap_or(usize::MAX);
        TreeSettings {
            settings: BlobSettings {
                n_tiles: 1usize..n_tiles_end,
                radius_range: radius_start..radius_end,
                n_blob: n_blob_start..n_blob_end,
            },
        }
    }
}

/// Spawn tree blobs on the world within the configured budgets.
pub fn spawn_tree<G: GeometrySource>(
    world: &mut Vec<Vec<Tile>>,
    settings: &mut TreeSettings,
    geo: &mut G,
) -> (r: Result<usize, BlobSettingsError>)
    requires
        old(settings).settings.radius_range.end <= usize::MAX - 199,
    ensures
        r is Err <==> blob_settings_error_spec(old(settings).settings) is Some,
        r is Err ==> *final(world) == *old(world),
        r is Ok ==> spawn_preserves(old(world)@, final(world)@, Content::Tree(0)),
        r is Ok ==> r->Ok_0 <= old(settings).settings.n_tiles.end,
        r is Ok ==> final(settings).settings.n_blob.end <= old(settings).settings.n_blob.end,
        final(settings).settings.radius_range == old(settings).settings.radius_range,
{
    spawn_blob(world, &mut settings.settings, Content::Tree(0), geo)
}

} // verus!
