use vstd::prelude::*;

verus! {

use crate::content::blob::{
    blob_settings_error_spec, spawn_blob, Blob, BlobSettings, BlobSettingsError,
};
use crate::content::spawn_preserves;
use crate::generator::GeometrySource;
use crate::world::tile::{Content, Tile};

/// How fire regions spawn: the blob budgets behind them.
#[derive(Clone)]
pub struct FireSettings {
    /// Budgets and radii of the fire blobs.
    pub settings: BlobSettings,
}

/// A fire region: a blob of burning tiles.
pub struct Fire {
    /// The underlying blob.
    pub inner: Blob,
}

impl FireSettings {
    /// Blob budgets suited to a world of side length `size`: radii between a
    /// half and a whole percent of the side, and up to one blob per hundred
    /// tiles of side.
    pub fn default(size: usize) -> (s: FireSettings)
        requires
            size >= 100,
            size <= 0x1000_0000,
        ensures
            s.settings.radius_range.start == size,
            s.settings.radius_range.end == 2 * size,
            s.settings.n_blob.start == size / 100,
            s.settings.n_blob.end == size / 50,
            s.settings.n_tiles.start == 1,
            s.settings.radius_range.start < s.settings.radius_range.end,
    {
        let radius_start = size;
        let radius_end = 2 * size;
        let n_blob_start = size / 100;
        let n_blob_end = size / 50;
        let diameter_tiles = 2 * ((radius_end + 99) / 100);
        let n_tiles_end = diameter_tiles.checked_mul(diameter_tiles).unwrap_or(
            usize::MAX,
        ).checked_mul(n_blob_end).unwrap_or(usize::MAX);
        FireSettings {
            settings: BlobSettings {
                n_tiles: 1usize..n_tiles_end,
                radius_range: radius_start..radius_end,
                n_blob: n_blob_start..n_blob_end,
            },
        }
    }
}

/// Spawn fire blobs on the world within the configured budgets.
pub fn spawn_fire<G: GeometrySource>(
    world: &mut Vec<Vec<Tile>>,
    settings: &mut FireSettings,
    geo: &mut G,
) -> (r: Result<usize, BlobSettingsError>)
    requires
        old(settings).settings.radius_range.end <= usize::MAX - 199,
    ensures
        r is Err <==> blob_settings_error_spec(old(settings).settings) is Some,
        r is Err ==> *final(world) == *old(world),
        r is Ok ==> spawn_preserves(old(world)@, final(world)@, Content::Fire),
        r is Ok ==> r->Ok_0 <= old(settings).settings.n_tiles.end,
        r is Ok ==> final(settings).settings.n_blob.end <= old(settings).settings.n_blob.end,
        final(settings).settings.radius_range == old(settings).settings.radius_range,
{
    spawn_blob(world, &mut settings.settings, Content::Fire, geo)
}

} // verus!
