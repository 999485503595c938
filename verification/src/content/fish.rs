use vstd::prelude::*;

verus! {

/// Settings defining the behaviour of fish spawning: how many spawn points to
/// scatter.  The tile model of this crate has no fish content kind, so only
/// the settings carry over; the generator never places fish.
#[derive(Clone, Copy)]
pub struct FishSettings {
    /// The number of fish spawn points.
    pub number_of_spawn_points: usize,
}

impl FishSettings {
    /// Settings suited to a world of side length `size`.
    pub fn default(size: usize) -> (s: FishSettings)
        ensures
            s.number_of_spawn_points == (if size * size <= usize::MAX {
                size * size
            } else {
                usize::MAX as int
            }) / 25,
    {
        FishSettings { number_of_spawn_points: size.checked_mul(size).unwrap_or(usize::MAX) / 25 }
    }

    /// Settings with the given number of spawn points.
    pub fn new(spawn_points: usize) -> (s: FishSettings)
        ensures
            s.number_of_spawn_points == spawn_points,
    {
        FishSettings { number_of_spawn_points: spawn_points }
    }
}

} // verus!
