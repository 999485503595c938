use vstd::prelude::*;

verus! {

use core::ops::Range;

/// Relies on the derived `Clone` of `core::ops::Range`, which clones the two
/// bounds field by field.
pub assume_specification<Idx: Clone>[ <Range<Idx> as Clone>::clone ](r: &Range<Idx>) -> (res:
    Range<Idx>)
    ensures
        cloned::<Idx>(r.start, res.start),
        cloned::<Idx>(r.end, res.end),
;

/// The error taxonomy of the robot interface: why a move, a destruction or a
/// storage operation was refused.
#[derive(Debug, PartialEq, Eq, Structural, Clone, Copy)]
pub enum LibError {
    NotEnoughEnergy,
    OutOfBounds,
    CannotWalk,
    WrongContentUsed,
    NotEnoughSpace(usize),
    CannotDestroy,
    NoContent,
    OperationNotAllowed,
    InvalidWorld,
}

/// A cell of the square world grid, addressed by row and column; the derived
/// order compares by row first, then by column.
#[derive(Debug, PartialEq, Eq, Structural, Hash, Clone, Copy, PartialOrd, Ord)]
pub struct Coordinate {
    pub row: usize,
    pub col: usize,
}

impl Coordinate {
    /// Whether `other` lies in the 3x3 neighbourhood of `self` without being
    /// `self` itself.
    pub open spec fn is_neighbor_spec(self, other: Coordinate) -> bool {
        &&& !(self.row == other.row && self.col == other.col)
        &&& abs_diff_spec(self.row as int, other.row as int) <= 1
        &&& abs_diff_spec(self.col as int, other.col as int) <= 1
    }

    /// Whether `other` lies in the 3x3 neighbourhood of `self` without being
    /// `self` itself.
    pub fn is_neighbor(&self, other: &Self) -> (r: bool)
        ensures
            r == self.is_neighbor_spec(*other),
    {
        let row_near = if self.row >= other.row {
            self.row - other.row <= 1
        } else {
            other.row - self.row <= 1
        };
        let col_near = if self.col >= other.col {
            self.col - other.col <= 1
        } else {
            other.col - self.col <= 1
        };
        !(self.row == other.row && self.col == other.col) && row_near && col_near
    }
}

pub open spec fn abs_diff_spec(a: int, b: int) -> int {
    if a >= b {
        a - b
    } else {
        b - a
    }
}

/// A rectangular region of the grid, both corners inclusive unless a caller
/// says otherwise.
pub(crate) struct Slice {
    pub(crate) start: Coordinate,
    pub(crate) end: Coordinate,
}

/// The slice bounds that `slice_vec_2d` assigns to the slice in slice-row `y`
/// and slice-column `x`, for a grid of side `len` cut into `n` bands of width
/// `q`: the last band in each direction is extended to the full side length.
pub open spec fn slice_start_spec(i: int, q: int) -> int {
    i * q
}

pub open spec fn slice_end_spec(i: int, q: int, len: int) -> int {
    if i * q + q < len {
        i * q + q - 1
    } else {
        len
    }
}

/// Cut a square matrix into `n_slice` x `n_slice` rectangular slices; the last
/// slice of each band keeps the remaining rows and columns.
pub(crate) fn slice_vec_2d(input: &Vec<Vec<i64>>, n_slice: usize) -> (slices: Vec<Slice>)
    requires
        1 <= n_slice <= input@.len(),
    ensures
        slices@.len() == n_slice * n_slice,
        forall|k: int|
            0 <= k < slices@.len() ==> {
                let q = input@.len() as int / n_slice as int;
                let y = k / n_slice as int;
                let x = k % n_slice as int;
                &&& (#[trigger] slices@[k]).start.row == slice_start_spec(y, q)
                &&& slices@[k].start.col == slice_start_spec(x, q)
                &&& slices@[k].end.row == slice_end_spec(y, q, input@.len() as int)
                &&& slices@[k].end.col == slice_end_spec(x, q, input@.len() as int)
            },
{
    let len = input.len();
    let qnt_per_slice = len / n_slice;
    let mut slices: Vec<Slice> = Vec::new();

    proof {
        assert(len as int / n_slice as int * n_slice as int <= len as int) by (nonlinear_arith)
            requires
                n_slice >= 1,
                len >= n_slice,
        ;
        assert(len as int / n_slice as int >= 1) by (nonlinear_arith)
            requires
                n_slice >= 1,
                len >= n_slice,
        ;
    }

    let mut y: usize = 0;
    while y < n_slice
        invariant
            y <= n_slice,
            n_slice >= 1,
            qnt_per_slice >= 1,
            qnt_per_slice == len as int / n_slice as int,
            len == input@.len(),
            qnt_per_slice * n_slice <= len,
            slices@.len() == y * n_slice,
            forall|k: int|
                0 <= k < slices@.len() ==> {
                    let q = len as int / n_slice as int;
                    let yy = k / n_slice as int;
                    let xx = k % n_slice as int;
                    &&& (#[trigger] slices@[k]).start.row == slice_start_spec(yy, q)
                    &&& slices@[k].start.col == slice_start_spec(xx, q)
                    &&& slices@[k].end.row == slice_end_spec(yy, q, len as int)
                    &&& slices@[k].end.col == slice_end_spec(xx, q, len as int)
                },
        decreases n_slice - y,
    {
        proof {
            assert(y * qnt_per_slice + qnt_per_slice <= len) by (nonlinear_arith)
                requires
                    y + 1 <= n_slice,
                    qnt_per_slice >= 0,
                    qnt_per_slice * n_slice <= len,
            ;
        }
        let start_row = y * qnt_per_slice;
        let end_row = if (start_row + qnt_per_slice) < len {
            start_row + qnt_per_slice - 1
        } else {
            len
        };

        let mut x: usize = 0;
        while x < n_slice
            invariant
                x <= n_slice,
                y < n_slice,
                n_slice >= 1,
                qnt_per_slice >= 1,
                qnt_per_slice == len as int / n_slice as int,
                len == input@.len(),
                qnt_per_slice * n_slice <= len,
                start_row == y * qnt_per_slice,
                start_row + qnt_per_slice <= len,
                end_row == slice_end_spec(y as int, qnt_per_slice as int, len as int),
                slices@.len() == y * n_slice + x,
                forall|k: int|
                    0 <= k < slices@.len() ==> {
                        let q = len as int / n_slice as int;
                        let yy = k / n_slice as int;
                        let xx = k % n_slice as int;
                        &&& (#[trigger] slices@[k]).start.row == slice_start_spec(yy, q)
                        &&& slices@[k].start.col == slice_start_spec(xx, q)
                        &&& slices@[k].end.row == slice_end_spec(yy, q, len as int)
                        &&& slices@[k].end.col == slice_end_spec(xx, q, len as int)
                    },
            decreases n_slice - x,
        {
            proof {
                assert(x * qnt_per_slice + qnt_per_slice <= len) by (nonlinear_arith)
                    requires
                        x + 1 <= n_slice,
                        qnt_per_slice >= 0,
                        qnt_per_slice * n_slice <= len,
                ;
            }
            let start_col = x * qnt_per_slice;
            let end_col = if (start_col + qnt_per_slice) < len {
                start_col + qnt_per_slice - 1
            } else {
                len
            };

            slices.push(
                Slice {
                    start: Coordinate { row: start_row, col: start_col },
                    end: Coordinate { row: end_row, col: end_col },
                },
            );
            proof {
                let k = (y * n_slice + x) as int;
                assert(k / n_slice as int == y as int && k % n_slice as int == x as int) by (
                nonlinear_arith)
                    requires
                        k == y * n_slice + x,
                        0 <= x < n_slice,
                        0 <= y,
                ;
            }
            x += 1;
        }
        y += 1;
        proof {
            assert((y - 1) * n_slice + n_slice == y * n_slice) by (nonlinear_arith);
        }
    }
    proof {
        assert(slices@.len() == n_slice * n_slice);
    }
    slices
}

/// Manhattan distance between two cells.
#[allow(dead_code)]
pub(crate) fn distance(x1: usize, y1: usize, x2: usize, y2: usize) -> (d: usize)
    requires
        abs_diff_spec(x1 as int, x2 as int) + abs_diff_spec(y1 as int, y2 as int) <= usize::MAX,
    ensures
        d == abs_diff_spec(x1 as int, x2 as int) + abs_diff_spec(y1 as int, y2 as int),
{
    let dx = if x1 >= x2 {
        x1 - x2
    } else {
        x2 - x1
    };
    let dy = if y1 >= y2 {
        y1 - y2
    } else {
        y2 - y1
    };
    dx + dy
}

/// The elevation value that a per-mille threshold denotes inside the observed
/// `[min, max]` band, clamped into the representable range.
pub open spec fn percentage_spec(target_per_mille: u32, min: i64, max: i64) -> int {
    let v = if max >= min {
        min + (max - min) * target_per_mille / 1000
    } else {
        min - (min - max) * target_per_mille / 1000
    };
    if v > i64::MAX {
        i64::MAX as int
    } else if v < i64::MIN {
        i64::MIN as int
    } else {
        v
    }
}

/// Map a per-mille value linearly into the observed `[min, max]` elevation
/// band: `min + (max - min) * target / 1000`.
#[inline(always)]
pub(crate) fn percentage(target_per_mille: u32, min: i64, max: i64) -> (v: i64)
    ensures
        v == percentage_spec(target_per_mille, min, max),
{
    let wide: i128 = if max >= min {
        let diff: u128 = (max as i128 - min as i128) as u128;
        proof {
            assert(diff * (target_per_mille as u128) < 0x1_0000_0000_0000_0000_0000_0000u128)
                by (nonlinear_arith)
                requires
                    diff <= 0xFFFF_FFFF_FFFF_FFFFu128,
                    target_per_mille <= 0xFFFF_FFFFu32,
            ;
        }
        let step: u128 = diff * (target_per_mille as u128) / 1000;
        min as i128 + step as i128
    } else {
        let diff: u128 = (min as i128 - max as i128) as u128;
        proof {
            assert(diff * (target_per_mille as u128) < 0x1_0000_0000_0000_0000_0000_0000u128)
                by (nonlinear_arith)
                requires
                    diff <= 0xFFFF_FFFF_FFFF_FFFFu128,
                    target_per_mille <= 0xFFFF_FFFFu32,
            ;
        }
        let step: u128 = diff * (target_per_mille as u128) / 1000;
        min as i128 - step as i128
    };
    if wide > i64::MAX as i128 {
        i64::MAX
    } else if wide < i64::MIN as i128 {
        i64::MIN
    } else {
        wide as i64
    }
}

/// Whether `v` is a least element of the matrix.
pub open spec fn is_min_of(v: i64, m: Seq<Vec<i64>>) -> bool {
    &&& exists|i: int, j: int|
        0 <= i < m.len() && 0 <= j < m[i]@.len() && m[i]@[j] == v
    &&& forall|i: int, j: int|
        0 <= i < m.len() && 0 <= j < m[i]@.len() ==> v <= #[trigger] m[i]@[j]
}

/// Whether `v` is a greatest element of the matrix.
pub open spec fn is_max_of(v: i64, m: Seq<Vec<i64>>) -> bool {
    &&& exists|i: int, j: int|
        0 <= i < m.len() && 0 <= j < m[i]@.len() && m[i]@[j] == v
    &&& forall|i: int, j: int|
        0 <= i < m.len() && 0 <= j < m[i]@.len() ==> v >= #[trigger] m[i]@[j]
}

/// Least elevation of the matrix; `None` when the matrix or its first row is
/// empty.
#[inline(always)]
pub(crate) fn find_min_value(matrix: &Vec<Vec<i64>>) -> (r: Option<i64>)
    ensures
        r is None <==> (matrix@.len() == 0 || matrix@[0]@.len() == 0),
        r is Some ==> is_min_of(r->Some_0, matrix@),
{
    if matrix.len() == 0 || matrix[0].len() == 0 {
        return None;
    }

    let mut min_value: i64 = matrix[0][0];

    let mut i: usize = 0;
    while i < matrix.len()
        invariant
            i <= matrix@.len(),
            matrix@.len() > 0,
            exists|a: int, b: int|
                0 <= a < matrix@.len() && 0 <= b < matrix@[a]@.len() && matrix@[a]@[b]
                    == min_value,
            forall|a: int, b: int|
                0 <= a < i && 0 <= b < matrix@[a]@.len() ==> min_value
                    <= #[trigger] matrix@[a]@[b],
        decreases matrix@.len() - i,
    {
        let row = &matrix[i];
        let mut j: usize = 0;
        while j < row.len()
            invariant
                j <= row@.len(),
                i < matrix@.len(),
                row == matrix@[i as int],
                exists|a: int, b: int|
                    0 <= a < matrix@.len() && 0 <= b < matrix@[a]@.len() && matrix@[a]@[b]
                        == min_value,
                forall|a: int, b: int|
                    0 <= a < i && 0 <= b < matrix@[a]@.len() ==> min_value
                        <= #[trigger] matrix@[a]@[b],
                forall|b: int| 0 <= b < j ==> min_value <= matrix@[i as int]@[b],
            decreases row@.len() - j,
        {
            if row[j] < min_value {
                min_value = row[j];
            }
            j += 1;
        }
        i += 1;
    }

    Some(min_value)
}

/// Greatest elevation of the matrix; `None` when the matrix or its first row
/// is empty.
#[inline(always)]
pub(crate) fn find_max_value(matrix: &Vec<Vec<i64>>) -> (r: Option<i64>)
    ensures
        r is None <==> (matrix@.len() == 0 || matrix@[0]@.len() == 0),
        r is Some ==> is_max_of(r->Some_0, matrix@),
{
    if matrix.len() == 0 || matrix[0].len() == 0 {
        return None;
    }

    let mut max_value: i64 = matrix[0][0];

    let mut i: usize = 0;
    while i < matrix.len()
        invariant
            i <= matrix@.len(),
            matrix@.len() > 0,
            exists|a: int, b: int|
                0 <= a < matrix@.len() && 0 <= b < matrix@[a]@.len() && matrix@[a]@[b]
                    == max_value,
            forall|a: int, b: int|
                0 <= a < i && 0 <= b < matrix@[a]@.len() ==> max_value
                    >= #[trigger] matrix@[a]@[b],
        decreases matrix@.len() - i,
    {
        let row = &matrix[i];
        let mut j: usize = 0;
        while j < row.len()
            invariant
                j <= row@.len(),
                i < matrix@.len(),
                row == matrix@[i as int],
                exists|a: int, b: int|
                    0 <= a < matrix@.len() && 0 <= b < matrix@[a]@.len() && matrix@[a]@[b]
                        == max_value,
                forall|a: int, b: int|
                    0 <= a < i && 0 <= b < matrix@[a]@.len() ==> max_value
                        >= #[trigger] matrix@[a]@[b],
                forall|b: int| 0 <= b < j ==> max_value >= matrix@[i as int]@[b],
            decreases row@.len() - j,
        {
            if row[j] > max_value {
                max_value = row[j];
            }
            j += 1;
        }
        i += 1;
    }

    Some(max_value)
}

} // verus!

verus! {

use crate::interface::Direction;
use crate::runner::backpack::{
    backpack_ok, lemma_sum_prefix_mono, lemma_sum_prefix_update, sum_counts, sum_prefix, BackPack,
};
use crate::runner::Runnable;
use crate::world::tile::{
    content_cost_spec, content_destroy_spec, content_index_spec, tile_walk_spec, Content,
    N_CONTENTS,
};
use crate::world::World;

/// Row and column of the cell one step from `(row, col)` in the given
/// direction; a step off the edge of the coordinate space stays in place.
pub open spec fn step_coords_spec(row: usize, col: usize, d: Direction) -> (usize, usize) {
    match d {
        Direction::Up => ((if row == 0 { 0usize } else { (row - 1) as usize }), col),
        Direction::Down => (
            (if row == usize::MAX { usize::MAX } else { (row + 1) as usize }),
            col,
        ),
        Direction::Left => (row, (if col == 0 { 0usize } else { (col - 1) as usize })),
        Direction::Right => (
            row,
            (if col == usize::MAX { usize::MAX } else { (col + 1) as usize }),
        ),
    }
}

/// The cell one step from `(row, col)` in the given direction.
pub fn step_coords_from(row: usize, col: usize, direction: &Direction) -> (r: (usize, usize))
    ensures
        r == step_coords_spec(row, col, *direction),
{
    match direction {
        Direction::Up => ((if row == 0 { 0 } else { row - 1 }), col),
        Direction::Down => ((if row == usize::MAX { usize::MAX } else { row + 1 }), col),
        Direction::Left => (row, (if col == 0 { 0 } else { col - 1 })),
        Direction::Right => (row, (if col == usize::MAX { usize::MAX } else { col + 1 })),
    }
}

/// The cell next to the robot in the given direction; on the edge of the
/// coordinate space the saturated coordinate stays in place, and the caller
/// is expected to check bounds first.
pub fn get_coords_row_col<R: Runnable>(robot: &R, direction: &Direction) -> (usize, usize) {
    let row = robot.get_coordinate().get_row();
    let col = robot.get_coordinate().get_col();
    step_coords_from(row, col, direction)
}

/// Whether a pair of coordinates addresses a tile of the world's map.
pub open spec fn in_map_spec(w: World, row: int, col: int) -> bool {
    &&& 0 <= row < w.dimension
    &&& 0 <= col < w.dimension
    &&& row < w.map@.len()
    &&& col < w.map@[row]@.len()
}

/// Whether both coordinates lie inside the world's declared dimension.
pub fn go_allowed_row_col(world: &World, coords: (usize, usize)) -> (r: bool)
    ensures
        r == (coords.0 < world.dimension && coords.1 < world.dimension),
{
    coords.0 < world.dimension && coords.1 < world.dimension
}

/// Whether a step from `(row, col)` may be taken: off the map it is
/// `OutOfBounds`, onto unwalkable terrain `CannotWalk`, otherwise allowed.
pub open spec fn go_allowed_result_spec(w: World, row: usize, col: usize, d: Direction) -> Result<
    bool,
    LibError,
> {
    let (tr, tc) = step_coords_spec(row, col, d);
    if (d is Up && row == 0) || (d is Left && col == 0) || !in_map_spec(w, tr as int, tc as int) {
        Result::Err(LibError::OutOfBounds)
    } else if !tile_walk_spec(w.map@[tr as int]@[tc as int].tile_type) {
        Result::Err(LibError::CannotWalk)
    } else {
        Result::Ok(true)
    }
}

/// Decide whether a step from `(row, col)` in the given direction is allowed
/// on this world.
pub fn go_allowed_from(world: &World, row: usize, col: usize, direction: &Direction) -> (r:
    Result<bool, LibError>)
    ensures
        r == go_allowed_result_spec(*world, row, col, *direction),
{
    let (tr, tc) = step_coords_from(row, col, direction);
    let off_edge = match direction {
        Direction::Up => row == 0,
        Direction::Left => col == 0,
        _ => false,
    };
    if off_edge || tr >= world.dimension || tc >= world.dimension || tr >= world.map.len() || tc
        >= world.map[tr].len() {
        return Err(LibError::OutOfBounds);
    }
    if !world.map[tr][tc].tile_type.properties().walk() {
        return Err(LibError::CannotWalk);
    }
    Ok(true)
}

/// Decide whether the robot may move one step in the given direction.
pub fn go_allowed<R: Runnable>(robot: &R, world: &World, direction: &Direction) -> Result<
    bool,
    LibError,
> {
    let row = robot.get_coordinate().get_row();
    let col = robot.get_coordinate().get_col();
    go_allowed_from(world, row, col, direction)
}

/// Whether the content of the tile at `coords` can be destroyed: off the map
/// it is `OutOfBounds`, otherwise the content kind decides.
pub open spec fn can_destroy_result_spec(w: World, coords: (usize, usize)) -> Result<
    bool,
    LibError,
> {
    if !in_map_spec(w, coords.0 as int, coords.1 as int) {
        Result::Err(LibError::OutOfBounds)
    } else {
        Result::Ok(content_destroy_spec(w.map@[coords.0 as int]@[coords.1 as int].content))
    }
}

/// Decide whether the content at `coords` can be destroyed.
pub fn can_destroy(world: &World, coords: (usize, usize)) -> (r: Result<bool, LibError>)
    ensures
        r == can_destroy_result_spec(*world, coords),
{
    let (row, col) = coords;
    if row >= world.dimension || col >= world.dimension || row >= world.map.len() || col
        >= world.map[row].len() {
        return Err(LibError::OutOfBounds);
    }
    Ok(world.map[row][col].content.properties().destroy())
}

/// Outcome of adding to a backpack: the whole quantity fits into the free
/// space or nothing is added.
pub open spec fn backpack_add_result_spec(bp: BackPack, quantity: usize) -> Result<
    usize,
    LibError,
> {
    if quantity + sum_counts(bp.counts@) <= bp.size {
        Result::Ok(quantity)
    } else {
        Result::Err(LibError::NotEnoughSpace((bp.size - sum_counts(bp.counts@)) as usize))
    }
}

/// Add `quantity` items of `content`'s kind to the backpack; refused with the
/// remaining free space when they do not all fit.  A malformed backpack is
/// refused outright.
pub fn backpack_add(bp: &mut BackPack, content: &Content, quantity: usize) -> (r: Result<
    usize,
    LibError,
>)
    ensures
        !backpack_ok(*old(bp)) ==> r == Result::<usize, LibError>::Err(
            LibError::OperationNotAllowed,
        ) && *final(bp) == *old(bp),
        backpack_ok(*old(bp)) ==> {
            &&& r == backpack_add_result_spec(*old(bp), quantity)
            &&& backpack_ok(*final(bp))
            &&& final(bp).size == old(bp).size
            &&& final(bp).counts@.len() == N_CONTENTS
            &&& (r is Ok ==> final(bp).counts@ == old(bp).counts@.update(
                content_index_spec(*content),
                (old(bp).counts@[content_index_spec(*content)] + quantity) as usize,
            ))
            &&& (r is Err ==> *final(bp) == *old(bp))
        },
{
    if bp.counts.len() != N_CONTENTS {
        return Err(LibError::OperationNotAllowed);
    }
    let used = backpack_used_space(bp);
    if used > bp.size as u128 {
        return Err(LibError::OperationNotAllowed);
    }
    let free = bp.size - (used as usize);
    if quantity > free {
        return Err(LibError::NotEnoughSpace(free));
    }
    let idx = content.index();
    let old_count = bp.counts[idx];
    proof {
        lemma_sum_prefix_mono(bp.counts@, idx + 1, bp.counts@.len() as int);
        assert(sum_prefix(bp.counts@, idx + 1) == sum_prefix(bp.counts@, idx as int)
            + bp.counts@[idx as int]);
        assert(sum_prefix(bp.counts@, idx as int) >= 0) by {
            lemma_sum_prefix_nonneg(bp.counts@, idx as int);
        }
    }
    bp.counts.set(idx, old_count + quantity);
    proof {
        lemma_sum_prefix_update(
            old(bp).counts@,
            idx as int,
            (old_count + quantity) as usize,
            old(bp).counts@.len() as int,
        );
    }
    Ok(quantity)
}

/// Prefix sums of unsigned counts are never negative.
pub proof fn lemma_sum_prefix_nonneg(s: Seq<usize>, n: int)
    requires
        0 <= n <= s.len(),
    ensures
        sum_prefix(s, n) >= 0,
    decreases n,
{
    if n > 0 {
        lemma_sum_prefix_nonneg(s, n - 1);
    }
}

/// Total number of held items, exact even for ill-formed count vectors.
fn backpack_used_space(bp: &BackPack) -> (r: u128)
    requires
        bp.counts@.len() == N_CONTENTS,
    ensures
        r == sum_counts(bp.counts@),
{
    let mut acc: u128 = 0;
    let mut i: usize = 0;
    while i < bp.counts.len()
        invariant
            bp.counts@.len() == N_CONTENTS,
            i <= bp.counts@.len(),
            acc == sum_prefix(bp.counts@, i as int),
            acc <= i * usize::MAX,
        decreases bp.counts@.len() - i,
    {
        proof {
            assert(i * usize::MAX + usize::MAX <= N_CONTENTS * usize::MAX) by (nonlinear_arith)
                requires
                    i + 1 <= N_CONTENTS,
            ;
        }
        acc = acc + (bp.counts[i] as u128);
        i += 1;
    }
    acc
}

/// Add items of `content`'s kind to the robot's backpack; the whole quantity
/// fits or nothing is added and the free space is reported.
pub fn add_to_backpack<R: Runnable>(robot: &mut R, content: Content, quantity: usize) -> Result<
    usize,
    LibError,
> {
    backpack_add(robot.get_backpack_mut(), &content, quantity)
}

/// Outcome of removing from a backpack: the whole quantity is held and
/// removed, or nothing changes.
pub open spec fn backpack_remove_result_spec(bp: BackPack, c: Content, quantity: usize) -> Result<
    usize,
    LibError,
> {
    if bp.counts@[content_index_spec(c)] >= quantity {
        Result::Ok(quantity)
    } else {
        Result::Err(LibError::NoContent)
    }
}

/// Remove `quantity` items of `content`'s kind from the backpack; refused
/// when fewer are held.  A malformed backpack is refused outright.
pub fn backpack_remove(bp: &mut BackPack, content: &Content, quantity: usize) -> (r: Result<
    usize,
    LibError,
>)
    ensures
        !backpack_ok(*old(bp)) ==> r == Result::<usize, LibError>::Err(
            LibError::OperationNotAllowed,
        ) && *final(bp) == *old(bp),
        backpack_ok(*old(bp)) ==> {
            &&& r == backpack_remove_result_spec(*old(bp), *content, quantity)
            &&& backpack_ok(*final(bp))
            &&& final(bp).size == old(bp).size
            &&& (r is Ok ==> final(bp).counts@ == old(bp).counts@.update(
                content_index_spec(*content),
                (old(bp).counts@[content_index_spec(*content)] - quantity) as usize,
            ))
            &&& (r is Err ==> *final(bp) == *old(bp))
        },
{
    if bp.counts.len() != N_CONTENTS {
        return Err(LibError::OperationNotAllowed);
    }
    let used = backpack_used_space(bp);
    if used > bp.size as u128 {
        return Err(LibError::OperationNotAllowed);
    }
    let idx = content.index();
    let old_count = bp.counts[idx];
    if old_count < quantity {
        return Err(LibError::NoContent);
    }
    bp.counts.set(idx, old_count - quantity);
    proof {
        lemma_sum_prefix_update(
            old(bp).counts@,
            idx as int,
            (old_count - quantity) as usize,
            old(bp).counts@.len() as int,
        );
        lemma_sum_prefix_nonneg(final(bp).counts@, final(bp).counts@.len() as int);
    }
    Ok(quantity)
}

/// Remove items of `content`'s kind from the robot's backpack.
pub fn remove_from_backpack<R: Runnable>(
    robot: &mut R,
    content: &Content,
    quantity: usize,
) -> Result<usize, LibError> {
    backpack_remove(robot.get_backpack_mut(), content, quantity)
}

/// How much of a storage request goes through, and what it costs: the amount
/// is capped by the held items and the container's free capacity, and the
/// energy reserve must strictly exceed the total cost.
pub open spec fn can_store_amounts_spec(
    held: usize,
    energy: usize,
    available_capacity: usize,
    cost_per_item: usize,
    quantity: usize,
) -> Result<(usize, usize), LibError> {
    if held == 0 {
        Result::Err(LibError::NoContent)
    } else {
        let amount = spec_min3(quantity, held, available_capacity);
        let cost = amount * cost_per_item;
        if cost > usize::MAX || energy <= cost {
            Result::Err(LibError::NotEnoughEnergy)
        } else {
            Result::Ok((amount, cost as usize))
        }
    }
}

pub open spec fn spec_min3(a: usize, b: usize, c: usize) -> usize {
    if a <= b && a <= c {
        a
    } else if b <= c {
        b
    } else {
        c
    }
}

/// Cap a storage request by what is held and what fits, and price it.
pub fn can_store_amounts(
    held: usize,
    energy: usize,
    available_capacity: usize,
    cost_per_item: usize,
    quantity: usize,
) -> (r: Result<(usize, usize), LibError>)
    ensures
        r == can_store_amounts_spec(held, energy, available_capacity, cost_per_item, quantity),
{
    if held == 0 {
        return Err(LibError::NoContent);
    }
    let amount = if quantity <= held && quantity <= available_capacity {
        quantity
    } else if held <= available_capacity {
        held
    } else {
        available_capacity
    };
    let cost_opt = amount.checked_mul(cost_per_item);
    match cost_opt {
        Some(cost) => {
            if energy <= cost {
                Err(LibError::NotEnoughEnergy)
            } else {
                Ok((amount, cost))
            }
        },
        None => Err(LibError::NotEnoughEnergy),
    }
}

/// Cap a storage request against the robot's backpack and energy: how many
/// items of `content_to_store` may move into a container with
/// `available_capacity` free slots, and the energy cost of moving them.
pub fn can_store<R: Runnable>(
    robot: &R,
    available_capacity: usize,
    content_to_store: &Content,
    _container: &Content,
    quantity: usize,
) -> Result<(usize, usize), LibError> {
    let bp = robot.get_backpack();
    if bp.counts.len() != N_CONTENTS {
        return Err(LibError::OperationNotAllowed);
    }
    let held = bp.count_of(content_to_store);
    let energy = robot.get_energy().get_energy_level();
    let cost_per_item = content_to_store.properties().cost();
    can_store_amounts(held, energy, available_capacity, cost_per_item, quantity)
}

} // verus!

verus! {

use crate::world::tile::{can_hold_spec, Tile};

/// Points where content of `content`'s kind may be placed: a sample of at
/// most `number_of_spawn_points` grid cells, each empty and able to hold the
/// content, chosen uniformly by shuffling the eligible cells.
/// Whether a cell can take one unit of `content`: on the map, empty, and of
/// a terrain that can hold the content.
pub open spec fn eligible_cell(world: Seq<Vec<Tile>>, p: Coordinate, content: Content) -> bool {
    &&& p.row < world.len()
    &&& p.col < world[p.row as int]@.len()
    &&& world[p.row as int]@[p.col as int].content == Content::Empty
    &&& can_hold_spec(world[p.row as int]@[p.col as int].tile_type, content)
}

/// Number of eligible cells among the first `n` of a row.
pub open spec fn eligible_in_row(row: Seq<Tile>, n: int, content: Content) -> int
    decreases n,
{
    if n <= 0 {
        0
    } else {
        eligible_in_row(row, n - 1, content) + if row[n - 1].content == Content::Empty
            && can_hold_spec(row[n - 1].tile_type, content) {
            1int
        } else {
            0int
        }
    }
}

/// Number of eligible cells among the first `n` rows of the world.
pub open spec fn eligible_cells(world: Seq<Vec<Tile>>, n: int, content: Content) -> int
    decreases n,
{
    if n <= 0 {
        0
    } else {
        eligible_cells(world, n - 1, content) + eligible_in_row(
            world[n - 1]@,
            world[n - 1]@.len() as int,
            content,
        )
    }
}

pub(crate) fn spawn_content_randomly(
    world: &Vec<Vec<Tile>>,
    number_of_spawn_points: usize,
    content: Content,
) -> (points: Vec<Coordinate>)
    ensures
        points@.len() <= number_of_spawn_points,
        points@.len() == if number_of_spawn_points as int <= eligible_cells(
            world@,
            world@.len() as int,
            content,
        ) {
            number_of_spawn_points as int
        } else {
            eligible_cells(world@, world@.len() as int, content)
        },
        forall|k: int|
            0 <= k < points@.len() ==> eligible_cell(world@, #[trigger] points@[k], content),
{
    let mut eligible: Vec<Coordinate> = Vec::new();
    let mut y: usize = 0;
    while y < world.len()
        invariant
            y <= world@.len(),
            eligible@.len() == eligible_cells(world@, y as int, content),
            forall|m: int|
                0 <= m < eligible@.len() ==> eligible_cell(
                    world@,
                    #[trigger] eligible@[m],
                    content,
                ),
        decreases world@.len() - y,
    {
        let row = &world[y];
        let mut x: usize = 0;
        while x < row.len()
            invariant
                y < world@.len(),
                row == world@[y as int],
                x <= row@.len(),
                eligible@.len() == eligible_cells(world@, y as int, content) + eligible_in_row(
                    row@,
                    x as int,
                    content,
                ),
                forall|m: int|
                    0 <= m < eligible@.len() ==> eligible_cell(
                        world@,
                        #[trigger] eligible@[m],
                        content,
                    ),
            decreases row@.len() - x,
        {
            let t = &row[x];
            if t.tile_type.properties().can_hold(&content) && matches!(t.content, Content::Empty) {
                let ghost prev = eligible@;
                eligible.push(Coordinate { row: y, col: x });
                proof {
                    assert forall|m: int|
                        0 <= m < eligible@.len() implies eligible_cell(
                        world@,
                        #[trigger] eligible@[m],
                        content,
                    ) by {
                        if m < prev.len() {
                            assert(eligible@[m] == prev[m]);
                        }
                    }
                }
            }
            x += 1;
        }
        y += 1;
    }
    proof {
        assert(eligible@.len() == eligible_cells(world@, world@.len() as int, content));
    }
    let ghost scanned = eligible@;

    crate::rng::shuffle(&mut eligible);
    proof {
        broadcast use vstd::seq_lib::group_to_multiset_ensures;
        broadcast use vstd::multiset::group_multiset_axioms;

        assert forall|m: int|
            0 <= m < eligible@.len() implies eligible_cell(
            world@,
            #[trigger] eligible@[m],
            content,
        ) by {
            assert(eligible@.to_multiset().contains(eligible@[m]));
            assert(scanned.to_multiset().contains(eligible@[m]));
            assert(scanned.contains(eligible@[m]));
            let j = choose|j: int| 0 <= j < scanned.len() && scanned[j] == eligible@[m];
            assert(eligible_cell(world@, scanned[j], content));
        }
    }

    let mut points: Vec<Coordinate> = Vec::new();
    let mut k: usize = 0;
    while k < eligible.len() && points.len() < number_of_spawn_points
        invariant
            k <= eligible@.len(),
            eligible@.len() == eligible_cells(world@, world@.len() as int, content),
            forall|m: int|
                0 <= m < eligible@.len() ==> eligible_cell(
                    world@,
                    #[trigger] eligible@[m],
                    content,
                ),
            points@.len() == (if k as int <= number_of_spawn_points as int {
                k as int
            } else {
                number_of_spawn_points as int
            }),
            points@.len() <= number_of_spawn_points,
            forall|m: int|
                0 <= m < points@.len() ==> eligible_cell(world@, #[trigger] points@[m], content),
        decreases eligible@.len() - k,
    {
        let p = eligible[k];
        let ghost prev = points@;
        if p.row < world.len() {
            if p.col < world[p.row].len() {
                let t = &world[p.row][p.col];
                if t.tile_type.properties().can_hold(&content) && matches!(
                    t.content,
                    Content::Empty,
                ) {
                    points.push(Coordinate { row: p.row, col: p.col });
                }
            }
        }
        proof {
            assert(eligible_cell(world@, p, content));
            assert(points@.len() == prev.len() + 1);
            assert forall|m: int|
                0 <= m < points@.len() implies eligible_cell(
                world@,
                #[trigger] points@[m],
                content,
            ) by {
                if m < prev.len() {
                    assert(points@[m] == prev[m]);
                }
            }
        }
        k += 1;
    }
    points
}

} // verus!
