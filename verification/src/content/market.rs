use vstd::prelude::*;

verus! {

/// Settings defining the behaviour of market spawning: how many spawn points to
/// scatter.  The tile model of this crate has no market content kind, so only
/// the settings carry over; the generator never places markets.
#[derive(Clone, Copy)]
pub struct MarketSettings {
    /// The number of market spawn points.
    pub number_of_spawn_points: usize,
}

impl MarketSettings {
    /// Settings suited to a world of side length `size`.
    pub fn default(size: usize) -> (s: MarketSettings)
        ensures
            s.number_of_spawn_points == (if size * size <= usize::MAX {
                size * size
            } else {
                usize::MAX as int
            }) / 100,
    {
        MarketSettings { number_of_spawn_points: size.checked_mul(size).unwrap_or(usize::MAX) / 100 }
    }

    /// Settings with the given number of spawn points.
    pub fn new(number_of_spawn_points: usize) -> (s: MarketSettings)
        ensures
            s.number_of_spawn_points == number_of_spawn_points,
    {
        MarketSettings { number_of_spawn_points }
    }
}

} // verus!
