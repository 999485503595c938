use vstd::prelude::*;

verus! {

use core::ops::Range;
use crate::content::spawn_preserves;
use crate::interface::set_tile_content;
use crate::world::tile::{Content, Tile};

/// How garbage spawns: a total quantity to reach, pile sizes, quantity per
/// tile, and the ring probabilities of a pile, in thousandths.
#[derive(Clone)]
pub struct GarbageSettings {
    /// Total quantity of garbage to place over the whole run.
    pub total_garbage_quantity: usize,
    /// The side length a single pile's probability matrix may get.
    pub garbage_pile_size: Range<usize>,
    /// The quantity of garbage a single tile may receive.
    pub garbage_per_tile_quantity: Range<usize>,
    /// Probability that a cell of a pile spawns garbage, in thousandths.
    pub spawn_in_near_tiles_probability_milli: u32,
    /// How much the probability falls per ring away from the centre, in
    /// thousandths.
    pub probability_step_by_milli: u32,
}

impl GarbageSettings {
    /// Settings suited to a world of side length `size`.
    pub fn default(size: usize) -> (s: GarbageSettings)
        ensures
            s.total_garbage_quantity == size / 2,
            s.garbage_pile_size.start == 1 && s.garbage_pile_size.end == size / 10,
            s.garbage_per_tile_quantity.start == 1 && s.garbage_per_tile_quantity.end == 3,
            s.spawn_in_near_tiles_probability_milli == 1000,
            s.probability_step_by_milli == 200,
    {
        GarbageSettings {
            total_garbage_quantity: size / 2,
            garbage_pile_size: 1usize..size / 10,
            garbage_per_tile_quantity: 1usize..3usize,
            spawn_in_near_tiles_probability_milli: 1000,
            probability_step_by_milli: 200,
        }
    }

    /// Settings given explicitly, probabilities in thousandths.
    pub fn new(
        total_garbage_quantity: usize,
        garbage_pile_size: Range<usize>,
        garbage_per_tile_quantity: Range<usize>,
        spawn_in_near_tiles_probability_milli: u32,
        probability_step_by_milli: u32,
    ) -> (s: GarbageSettings)
        ensures
            s.total_garbage_quantity == total_garbage_quantity,
            s.garbage_pile_size == garbage_pile_size,
            s.garbage_per_tile_quantity == garbage_per_tile_quantity,
            s.spawn_in_near_tiles_probability_milli == spawn_in_near_tiles_probability_milli,
            s.probability_step_by_milli == probability_step_by_milli,
    {
        GarbageSettings {
            total_garbage_quantity,
            garbage_pile_size,
            garbage_per_tile_quantity,
            spawn_in_near_tiles_probability_milli,
            probability_step_by_milli,
        }
    }
}

/// The ring a cell of a square matrix belongs to: its distance to the
/// nearest edge, so the outermost ring is ring zero.
pub open spec fn ring_of(size: int, r: int, c: int) -> int {
    let a = if r < size - 1 - r {
        r
    } else {
        size - 1 - r
    };
    let b = if c < size - 1 - c {
        c
    } else {
        size - 1 - c
    };
    if a < b {
        a
    } else {
        b
    }
}

/// The spawn probability of a cell, in thousandths: the centre ring carries
/// the full probability and each ring towards the edge loses one step; the
/// value may go below zero on large piles.
pub open spec fn ring_prob_spec(size: int, r: int, c: int, step_milli: u32) -> int {
    1000 - step_milli * (size / 2 - ring_of(size, r, c))
}

/// The matrix side the spawner really uses: the next odd number.
pub open spec fn odd_size_spec(size: usize) -> int {
    if size % 2 == 0 {
        size + 1
    } else {
        size as int
    }
}

/// Build the concentric-ring probability matrix of a pile, values in
/// thousandths; an even requested size is forced to the next odd number, and
/// a zero size gives a single empty row.
pub fn generate_prob_matrix(size: usize, probability_step_milli: u32) -> (m: Vec<Vec<i64>>)
    requires
        size <= 0x1000_0000,
    ensures
        size == 0 ==> m@.len() == 1 && m@[0]@.len() == 0,
        size > 0 ==> {
            &&& m@.len() == odd_size_spec(size)
            &&& forall|r: int|
                0 <= r < m@.len() ==> (#[trigger] m@[r])@.len() == odd_size_spec(size)
            &&& forall|r: int, c: int|
                0 <= r < m@.len() && 0 <= c < m@[r]@.len() ==> (#[trigger] m@[r]@[c])
                    == ring_prob_spec(odd_size_spec(size), r, c, probability_step_milli)
        },
{
    if size == 0 {
        let mut m: Vec<Vec<i64>> = Vec::new();
        m.push(Vec::new());
        return m;
    }
    let n: usize = if size % 2 == 0 {
        size + 1
    } else {
        size
    };

    let mut m: Vec<Vec<i64>> = Vec::new();
    let mut r: usize = 0;
    while r < n
        invariant
            r <= n,
            n <= 0x1000_0001,
            m@.len() == r,
            forall|a: int| 0 <= a < r ==> (#[trigger] m@[a])@.len() == n,
            forall|a: int, b: int|
                0 <= a < r && 0 <= b < n ==> (#[trigger] m@[a]@[b]) == ring_prob_spec(
                    n as int,
                    a,
                    b,
                    probability_step_milli,
                ),
        decreases n - r,
    {
        let mut row: Vec<i64> = Vec::new();
        let mut c: usize = 0;
        while c < n
            invariant
                r < n,
                c <= n,
                n <= 0x1000_0001,
                row@.len() == c,
                forall|b: int|
                    0 <= b < c ==> (#[trigger] row@[b]) == ring_prob_spec(
                        n as int,
                        r as int,
                        b,
                        probability_step_milli,
                    ),
            decreases n - c,
        {
            let from_top = r;
            let from_bottom = n - 1 - r;
            let from_left = c;
            let from_right = n - 1 - c;
            let a = if from_top < from_bottom {
                from_top
            } else {
                from_bottom
            };
            let b = if from_left < from_right {
                from_left
            } else {
                from_right
            };
            let ring = if a < b {
                a
            } else {
                b
            };
            let rings_remaining = n / 2 - ring;
            proof {
                assert((probability_step_milli as i64) * (rings_remaining as i64)
                    <= 0x1_0000_0000i64 * 0x800_0001i64) by (nonlinear_arith)
                    requires
                        0 <= probability_step_milli as i64 <= 0x1_0000_0000i64,
                        0 <= rings_remaining as i64 <= 0x800_0001i64,
                ;
            }
            let prob: i64 = 1000 - (probability_step_milli as i64) * (rings_remaining as i64);
            proof {
                assert(ring_of(n as int, r as int, c as int) == ring);
            }
            row.push(prob);
            c += 1;
        }
        m.push(row);
        r += 1;
    }
    m
}

/// Whether `(y, x)` can receive garbage: strictly inside the placeable band
/// of the grid (one cell in from the top and left, a matrix side away from
/// the bottom and right), on the map, empty, and on garbage-capable terrain.
pub open spec fn garbage_target_ok(
    world: Seq<Vec<Tile>>,
    y: usize,
    x: usize,
    mat_size: usize,
) -> bool {
    &&& mat_size <= world.len()
    &&& 1 <= y < world.len() - mat_size
    &&& 1 <= x < world.len() - mat_size
    &&& x < world[y as int]@.len()
    &&& world[y as int]@[x as int].content == Content::Empty
    &&& crate::world::tile::can_hold_spec(
        world[y as int]@[x as int].tile_type,
        Content::Garbage(0),
    )
}

/// Place a quantity of garbage at `(y, x)` when the cell lies strictly
/// inside the placeable band of the grid, is empty, and its terrain can hold
/// garbage; reports whether garbage was placed.
pub(crate) fn set_content(
    world: &mut Vec<Vec<Tile>>,
    y: usize,
    x: usize,
    amount: usize,
    mat_size: usize,
) -> (placed: bool)
    requires
        crate::world::worldgenerator::content_quantity_ok(Content::Garbage(amount)),
    ensures
        spawn_preserves(old(world)@, final(world)@, Content::Garbage(0)),
        placed <==> garbage_target_ok(old(world)@, y, x, mat_size),
        placed ==> final(world)@[y as int]@[x as int].content == Content::Garbage(amount),
        forall|i: int, j: int|
            0 <= i < old(world)@.len() && 0 <= j < old(world)@[i]@.len() && !(i == y && j == x)
                ==> (#[trigger] final(world)@[i]@[j]) == old(world)@[i]@[j],
        !placed ==> *final(world) == *old(world),
{
    let limit = match world.len().checked_sub(mat_size) {
        Some(l) => l,
        None => {
            return false;
        },
    };
    if y == 0 || y >= limit || x == 0 || x >= limit {
        return false;
    }
    if y >= world.len() || x >= world[y].len() {
        return false;
    }
    if world[y][x].tile_type.properties().can_hold(&Content::Garbage(0)) && matches!(
        world[y][x].content,
        Content::Empty,
    ) {
        set_tile_content(world, y, x, Content::Garbage(amount));
        true
    } else {
        false
    }
}

/// Stamp one garbage pile: build the ring probability matrix of a random
/// pile size, pick a random origin, and for every matrix cell whose
/// probability beats a fresh random draw, try to place a random quantity of
/// garbage on the corresponding world tile.  The placed quantity is added to
/// `placed`.
pub(crate) fn spawn_garbage_build_up(
    world: &mut Vec<Vec<Tile>>,
    garbage_pile_size: Range<usize>,
    probability_step_milli: u32,
    spawn_prob_milli: u32,
    placed: &mut usize,
    max_garbage_per_tile: usize,
)
    requires
        garbage_pile_size.start < garbage_pile_size.end,
        garbage_pile_size.end <= 0x1000_0000,
        spawn_prob_milli >= 100,
        1 <= max_garbage_per_tile <= 4,
    ensures
        spawn_preserves(old(world)@, final(world)@, Content::Garbage(0)),
        garbage_amounts_bounded(old(world)@, final(world)@, max_garbage_per_tile),
        *final(placed) >= *old(placed),
{
    let pile_range = crate::rng::rand_in_range(
        garbage_pile_size.start,
        garbage_pile_size.end,
    );
    let probability_matrix = generate_prob_matrix(pile_range, probability_step_milli);

    if world.len() == 0 {
        return ;
    }
    let base_y = crate::rng::rand_in_range(0, world.len());
    let base_x = crate::rng::rand_in_range(0, world.len());

    let mat_size = probability_matrix.len();
    let mut row_index: usize = 0;
    while row_index < probability_matrix.len()
        invariant
            spawn_preserves(old(world)@, world@, Content::Garbage(0)),
            garbage_amounts_bounded(old(world)@, world@, max_garbage_per_tile),
            *placed >= *old(placed),
            spawn_prob_milli >= 100,
            1 <= max_garbage_per_tile <= 4,
            mat_size == probability_matrix@.len(),
        decreases probability_matrix@.len() - row_index,
    {
        let row = &probability_matrix[row_index];
        let mut col_index: usize = 0;
        while col_index < row.len()
            invariant
                row_index < probability_matrix@.len(),
                row == probability_matrix@[row_index as int],
                spawn_preserves(old(world)@, world@, Content::Garbage(0)),
                garbage_amounts_bounded(old(world)@, world@, max_garbage_per_tile),
                *placed >= *old(placed),
                spawn_prob_milli >= 100,
                1 <= max_garbage_per_tile <= 4,
                mat_size == probability_matrix@.len(),
            decreases row@.len() - col_index,
        {
            let value = crate::rng::rand_in_range_inclusive(100, spawn_prob_milli as usize);
            if value as i128 > 1000i128 - (row[col_index] as i128) {
                let random_amount = if max_garbage_per_tile > 1 {
                    crate::rng::rand_in_range(1, max_garbage_per_tile)
                } else {
                    1
                };
                let ghost before = world@;
                let target_y = match base_y.checked_add(col_index) {
                    Some(v) => v,
                    None => {
                        col_index += 1;
                        continue ;
                    },
                };
                let target_x = match base_x.checked_add(row_index) {
                    Some(v) => v,
                    None => {
                        col_index += 1;
                        continue ;
                    },
                };
                if set_content(world, target_y, target_x, random_amount, mat_size) {
                    *placed = placed.saturating_add(random_amount);
                }
                proof {
                    lemma_spawn_preserves_trans(
                        old(world)@,
                        before,
                        world@,
                        Content::Garbage(0),
                    );
                    assert forall|i: int, j: int|
                        0 <= i < before.len() && 0 <= j < before[i]@.len() && (
                        #[trigger] world@[i]@[j]).content != before[i]@[j].content implies exists|
                        q: usize,
                    |
                        world@[i]@[j].content == Content::Garbage(q) && 1 <= q && (q
                            < max_garbage_per_tile || q == 1) by {
                        assert(world@[i]@[j].content == Content::Garbage(random_amount));
                    }
                    lemma_garbage_amounts_trans(
                        old(world)@,
                        before,
                        world@,
                        max_garbage_per_tile,
                    );
                }
            }
            col_index += 1;
        }
        row_index += 1;
    }
}

/// Every cell a garbage pass changed now holds a garbage quantity between
/// one and the largest drawable amount: one below the per-tile cap, or one
/// when the cap leaves no room to draw.
pub open spec fn garbage_amounts_bounded(
    old_map: Seq<Vec<Tile>>,
    new_map: Seq<Vec<Tile>>,
    max_garbage_per_tile: usize,
) -> bool {
    forall|i: int, j: int|
        0 <= i < old_map.len() && 0 <= j < old_map[i]@.len() && (#[trigger] new_map[i]@[j]).content
            != old_map[i]@[j].content ==> exists|q: usize|
            new_map[i]@[j].content == Content::Garbage(q) && 1 <= q && (q < max_garbage_per_tile
                || q == 1)
}

/// The amount bound composes across passes with the same cap.
pub proof fn lemma_garbage_amounts_trans(
    a: Seq<Vec<Tile>>,
    b: Seq<Vec<Tile>>,
    c: Seq<Vec<Tile>>,
    cap: usize,
)
    requires
        spawn_preserves(a, b, Content::Garbage(0)),
        spawn_preserves(b, c, Content::Garbage(0)),
        garbage_amounts_bounded(a, b, cap),
        garbage_amounts_bounded(b, c, cap),
    ensures
        garbage_amounts_bounded(a, c, cap),
{
    assert forall|i: int, j: int|
        0 <= i < a.len() && 0 <= j < a[i]@.len() && (#[trigger] c[i]@[j]).content
            != a[i]@[j].content implies exists|q: usize|
        c[i]@[j].content == Content::Garbage(q) && 1 <= q && (q < cap || q == 1) by {
        assert(b[i]@.len() == a[i]@.len());
        if c[i]@[j].content != b[i]@[j].content {
        } else {
            assert(b[i]@[j].content != a[i]@[j].content);
        }
    }
}

/// Preservation composes: two successive garbage passes preserve what one
/// does.
pub proof fn lemma_spawn_preserves_trans(
    a: Seq<Vec<Tile>>,
    b: Seq<Vec<Tile>>,
    c: Seq<Vec<Tile>>,
    content: Content,
)
    requires
        spawn_preserves(a, b, content),
        spawn_preserves(b, c, content),
    ensures
        spawn_preserves(a, c, content),
{
    assert forall|i: int, j: int|
        0 <= i < a.len() && 0 <= j < a[i]@.len() implies {
        let cell = #[trigger] c[i]@[j];
        ||| cell.content == a[i]@[j].content
        ||| {
            &&& a[i]@[j].content == Content::Empty
            &&& crate::world::tile::can_hold_spec(a[i]@[j].tile_type, cell.content)
            &&& crate::world::tile::content_index_spec(cell.content)
                == crate::world::tile::content_index_spec(content)
            &&& crate::world::worldgenerator::content_quantity_ok(cell.content)
        }
    } by {
        assert(b[i]@.len() == a[i]@.len());
    }
}

/// How many pile attempts each unit of the garbage target buys, and the
/// flat number of attempts on top, so that a run always terminates even on
/// worlds with no room for garbage.
pub(crate) const GARBAGE_ATTEMPTS_PER_UNIT: usize = 16;

pub(crate) const GARBAGE_ATTEMPTS_BASE: usize = 1024;

/// The largest amount a single tile can draw: one below the per-tile range's
/// greatest member, clamped into the garbage kind's maximum.
pub open spec fn garbage_tile_cap(settings: GarbageSettings) -> usize {
    let m = if settings.garbage_per_tile_quantity.end > settings.garbage_per_tile_quantity.start {
        (settings.garbage_per_tile_quantity.end - 1) as usize
    } else {
        1usize
    };
    if m < 1 {
        1usize
    } else if m > 3 {
        3usize
    } else {
        m
    }
}

/// Stamp garbage piles until the configured total quantity is reached, or
/// until the attempt budget derived from it runs out.  A zero target places
/// nothing and returns at once; a nonzero target demands a nonempty pile
/// size range, since a pile size must be drawn from it.
pub fn spawn_garbage(world: &mut Vec<Vec<Tile>>, settings: &GarbageSettings)
    requires
        settings.garbage_pile_size.end <= 0x1000_0000,
        settings.garbage_pile_size.start < settings.garbage_pile_size.end
            || settings.total_garbage_quantity == 0,
    ensures
        spawn_preserves(old(world)@, final(world)@, Content::Garbage(0)),
        garbage_amounts_bounded(old(world)@, final(world)@, garbage_tile_cap(*settings)),
        settings.total_garbage_quantity == 0 ==> *final(world) == *old(world),
{
    let per_tile_max = if settings.garbage_per_tile_quantity.end
        > settings.garbage_per_tile_quantity.start {
        settings.garbage_per_tile_quantity.end - 1
    } else {
        1
    };
    let per_tile_max = if per_tile_max < 1 {
        1
    } else if per_tile_max > 3 {
        3
    } else {
        per_tile_max
    };
    let spawn_prob = if settings.spawn_in_near_tiles_probability_milli < 200 {
        200
    } else {
        settings.spawn_in_near_tiles_probability_milli
    };

    let max_attempts = settings.total_garbage_quantity.checked_mul(
        GARBAGE_ATTEMPTS_PER_UNIT,
    ).unwrap_or(usize::MAX).saturating_add(GARBAGE_ATTEMPTS_BASE);

    let mut placed: usize = 0;
    let mut attempts: usize = 0;
    while placed < settings.total_garbage_quantity && attempts < max_attempts
        invariant
            spawn_preserves(old(world)@, world@, Content::Garbage(0)),
            garbage_amounts_bounded(old(world)@, world@, per_tile_max),
            per_tile_max == garbage_tile_cap(*settings),
            settings.garbage_pile_size.start < settings.garbage_pile_size.end
                || settings.total_garbage_quantity == 0,
            settings.garbage_pile_size.end <= 0x1000_0000,
            spawn_prob >= 200,
            1 <= per_tile_max <= 3,
            attempts <= max_attempts,
            settings.total_garbage_quantity == 0 ==> *world == *old(world),
        decreases max_attempts - attempts,
    {
        let ghost before = world@;
        spawn_garbage_build_up(
            world,
            settings.garbage_pile_size.start..settings.garbage_pile_size.end,
            settings.probability_step_by_milli,
            spawn_prob,
            &mut placed,
            per_tile_max,
        );
        proof {
            lemma_spawn_preserves_trans(old(world)@, before, world@, Content::Garbage(0));
            lemma_garbage_amounts_trans(old(world)@, before, world@, per_tile_max);
        }
        attempts += 1;
    }
}

} // verus!
