use vstd::prelude::*;

verus! {

use core::ops::Range;
use crate::content::spawn_preserves;
use crate::generator::GeometrySource;
use crate::interface::set_tile_content;
use crate::utils::Coordinate;
use crate::world::tile::{can_hold_spec, Content, Tile};

/// Budgets and radii for blob spawning: a range of total tiles to cover, a
/// range of blob radii in hundredths of a tile, and a range of blob counts.
#[derive(Clone)]
pub struct BlobSettings {
    /// How many tiles, in total, the blobs may cover.
    pub n_tiles: Range<usize>,
    /// The radius a single blob may get, in hundredths of a tile.
    pub radius_range: Range<usize>,
    /// How many blobs may be placed.
    pub n_blob: Range<usize>,
}

/// Why a blob configuration is rejected before any spawning.
#[derive(Debug, PartialEq, Eq, Structural, Clone, Copy)]
pub enum BlobSettingsError {
    /// No radius can be drawn from an empty radius range.
    EmptyRadiusRange,
    /// The fewest tiles the blobs could cover already exceeds the greatest
    /// allowed total.
    MinimumExceedsBudget,
    /// The most tiles the blobs could cover cannot reach the smallest
    /// demanded total.
    MaximumBelowMinimum,
}

/// Fewest tiles a run could place: the rounded-down minimum radius times the
/// minimum blob count.
pub open spec fn blob_min_total(s: BlobSettings) -> int {
    (s.radius_range.start / 100) * s.n_blob.start
}

/// Most tiles a run could place: the rounded-up maximum radius times the
/// maximum blob count.
pub open spec fn blob_max_total(s: BlobSettings) -> int {
    ((s.radius_range.end + 99) / 100) * s.n_blob.end
}

/// The configuration error a blob settings value carries, if any.
pub open spec fn blob_settings_error_spec(s: BlobSettings) -> Option<BlobSettingsError> {
    if s.radius_range.start >= s.radius_range.end {
        Some(BlobSettingsError::EmptyRadiusRange)
    } else if blob_min_total(s) > s.n_tiles.end {
        Some(BlobSettingsError::MinimumExceedsBudget)
    } else if blob_max_total(s) < s.n_tiles.start {
        Some(BlobSettingsError::MaximumBelowMinimum)
    } else {
        None::<BlobSettingsError>
    }
}

/// Check that the tile budget, blob count and radius ranges are mutually
/// feasible, before any blob is placed.
pub fn errors(settings: &BlobSettings) -> (r: Result<(), BlobSettingsError>)
    ensures
        r is Ok <==> blob_settings_error_spec(*settings) is None,
        r is Err ==> Some(r->Err_0) == blob_settings_error_spec(*settings),
{
    if settings.radius_range.start >= settings.radius_range.end {
        return Err(BlobSettingsError::EmptyRadiusRange);
    }
    proof {
        assert((settings.radius_range.start / 100) as u128 * (settings.n_blob.start as u128)
            <= 0xFFFF_FFFF_FFFF_FFFFu128 * 0xFFFF_FFFF_FFFF_FFFFu128) by (nonlinear_arith)
            requires
                (settings.radius_range.start / 100) as u128 <= 0xFFFF_FFFF_FFFF_FFFFu128,
                settings.n_blob.start as u128 <= 0xFFFF_FFFF_FFFF_FFFFu128,
        ;
        assert(((settings.radius_range.end as u128) + 99) / 100 * (settings.n_blob.end as u128)
            <= 0xFFFF_FFFF_FFFF_FFFFu128 * 0xFFFF_FFFF_FFFF_FFFFu128) by (nonlinear_arith)
            requires
                ((settings.radius_range.end as u128) + 99) / 100
                    <= 0xFFFF_FFFF_FFFF_FFFFu128,
                settings.n_blob.end as u128 <= 0xFFFF_FFFF_FFFF_FFFFu128,
        ;
    }
    let min_total: u128 = ((settings.radius_range.start / 100) as u128) * (
    settings.n_blob.start as u128);
    let max_total: u128 = (((settings.radius_range.end as u128) + 99) / 100) * (
    settings.n_blob.end as u128);
    if min_total > settings.n_tiles.end as u128 {
        Err(BlobSettingsError::MinimumExceedsBudget)
    } else if max_total < settings.n_tiles.start as u128 {
        Err(BlobSettingsError::MaximumBelowMinimum)
    } else {
        Ok(())
    }
}

/// Number of unvisited cells in a row prefix.
pub open spec fn count_false_in(row: Seq<bool>, n: int) -> int
    decreases n,
{
    if n <= 0 {
        0
    } else {
        count_false_in(row, n - 1) + if row[n - 1] {
            0int
        } else {
            1int
        }
    }
}

/// Number of unvisited cells in a grid prefix of rows.
pub open spec fn count_false_rows(g: Seq<Vec<bool>>, n: int) -> int
    decreases n,
{
    if n <= 0 {
        0
    } else {
        count_false_rows(g, n - 1) + count_false_in(g[n - 1]@, g[n - 1]@.len() as int)
    }
}

/// Number of unvisited cells in the whole grid.
pub open spec fn count_false_grid(g: Seq<Vec<bool>>) -> int {
    count_false_rows(g, g.len() as int)
}

proof fn lemma_count_false_in_nonneg(row: Seq<bool>, n: int)
    requires
        n <= row.len(),
    ensures
        count_false_in(row, n) >= 0,
    decreases n,
{
    if n > 0 {
        lemma_count_false_in_nonneg(row, n - 1);
    }
}

proof fn lemma_count_false_rows_nonneg(g: Seq<Vec<bool>>, n: int)
    requires
        n <= g.len(),
    ensures
        count_false_rows(g, n) >= 0,
    decreases n,
{
    if n > 0 {
        lemma_count_false_rows_nonneg(g, n - 1);
        lemma_count_false_in_nonneg(g[n - 1]@, g[n - 1]@.len() as int);
    }
}

proof fn lemma_count_false_in_update(row: Seq<bool>, i: int, n: int)
    requires
        0 <= i < row.len(),
        n <= row.len(),
        !row[i],
    ensures
        count_false_in(row.update(i, true), n) == count_false_in(row, n) - if i < n {
            1int
        } else {
            0int
        },
    decreases n,
{
    if n > 0 {
        lemma_count_false_in_update(row, i, n - 1);
    }
}

proof fn lemma_count_false_rows_update(g: Seq<Vec<bool>>, y: int, new_row: Vec<bool>, n: int)
    requires
        0 <= y < g.len(),
        n <= g.len(),
        new_row@.len() == g[y]@.len(),
        count_false_in(new_row@, new_row@.len() as int) == count_false_in(
            g[y]@,
            g[y]@.len() as int,
        ) - 1,
    ensures
        count_false_rows(g.update(y, new_row), n) == count_false_rows(g, n) - if y < n {
            1int
        } else {
            0int
        },
    decreases n,
{
    if n > 0 {
        lemma_count_false_rows_update(g, y, new_row, n - 1);
        if y == n - 1 {
            assert(g.update(y, new_row)[n - 1] == new_row);
        } else {
            assert(g.update(y, new_row)[n - 1] == g[n - 1]);
        }
    }
}

/// An organically bordered region: its interior points, the sampled border
/// points, the nominal radius in hundredths of a tile, the border variation
/// in thousandths, and the centre cell.
pub struct Blob {
    pub points: Vec<Coordinate>,
    pub border_points: Vec<Coordinate>,
    pub radius: usize,
    pub variation: usize,
    pub center: Coordinate,
}

/// Whether a world cell is a proper home for `content`: on the map, empty,
/// and of a terrain that can hold the content.
pub open spec fn proper_cell(world: Seq<Vec<Tile>>, p: Coordinate, content: Content) -> bool {
    &&& p.row < world.len()
    &&& p.col < world[p.row as int]@.len()
    &&& world[p.row as int]@[p.col as int].content == Content::Empty
    &&& can_hold_spec(world[p.row as int]@[p.col as int].tile_type, content)
}

/// Whether a border point maps onto the rectangle-relative cell `(a, b)` of
/// a rectangle whose top-left corner is `(upper, left)`.
pub open spec fn border_blocks(
    border: Seq<Coordinate>,
    upper: int,
    left: int,
    a: int,
    b: int,
) -> bool {
    exists|k: int|
        0 <= k < border.len() && (#[trigger] border[k]).row == a + upper && border[k].col == b
            + left
}

/// Four-adjacency of rectangle-relative cells.
pub open spec fn fill_adjacent(a: (int, int), c: (int, int)) -> bool {
    crate::utils::abs_diff_spec(a.0, c.0) + crate::utils::abs_diff_spec(a.1, c.1) == 1
}

/// A flood-fill path: it starts at `start`, stays inside the `h` x `w`
/// rectangle, moves four-connectedly, and never steps onto a border cell
/// after the start.
pub open spec fn fill_path_ok(
    path: Seq<(int, int)>,
    border: Seq<Coordinate>,
    upper: int,
    left: int,
    h: int,
    w: int,
    start: (int, int),
) -> bool {
    &&& path.len() >= 1
    &&& path[0] == start
    &&& forall|k: int| 0 <= k < path.len() ==> 0 <= (#[trigger] path[k]).0 < h && 0 <= path[k].1 < w
    &&& forall|k: int|
        1 <= k < path.len() ==> fill_adjacent(path[k - 1], #[trigger] path[k]) && !border_blocks(
            border,
            upper,
            left,
            path[k].0,
            path[k].1,
        )
}

/// Whether the flood fill can reach `cell` from `start`: a four-connected
/// path inside the rectangle that crosses no border cell.  The fill explores
/// diagonals only when an orthogonal intermediate is still unvisited, and
/// such an intermediate is itself filled, so the filled region is exactly
/// this four-connected closure.
#[verifier::opaque]
pub open spec fn fill_reachable(
    border: Seq<Coordinate>,
    upper: int,
    left: int,
    h: int,
    w: int,
    start: (int, int),
    cell: (int, int),
) -> bool {
    exists|path: Seq<(int, int)>|
        #[trigger] fill_path_ok(path, border, upper, left, h, w, start) && path.last() == cell
}

/// A one-cell path witnesses that the start reaches itself.
proof fn lemma_fill_base(
    border: Seq<Coordinate>,
    upper: int,
    left: int,
    h: int,
    w: int,
    start: (int, int),
)
    requires
        0 <= start.0 < h,
        0 <= start.1 < w,
    ensures
        fill_reachable(border, upper, left, h, w, start, start),
{
    reveal(fill_reachable);
    let path = seq![start];
    assert(fill_path_ok(path, border, upper, left, h, w, start));
    assert(path.last() == start);
}

/// Reachability extends across one four-connected step onto a non-border
/// cell of the rectangle.
proof fn lemma_fill_extend(
    border: Seq<Coordinate>,
    upper: int,
    left: int,
    h: int,
    w: int,
    start: (int, int),
    u: (int, int),
    v: (int, int),
)
    requires
        fill_reachable(border, upper, left, h, w, start, u),
        fill_adjacent(u, v),
        0 <= v.0 < h,
        0 <= v.1 < w,
        !border_blocks(border, upper, left, v.0, v.1),
    ensures
        fill_reachable(border, upper, left, h, w, start, v),
{
    reveal(fill_reachable);
    let path = choose|path: Seq<(int, int)>|
        #[trigger] fill_path_ok(path, border, upper, left, h, w, start) && path.last() == u;
    let extended = path.push(v);
    assert(extended.last() == v);
    assert forall|k: int|
        1 <= k < extended.len() implies fill_adjacent(extended[k - 1], #[trigger] extended[k])
        && !border_blocks(border, upper, left, extended[k].0, extended[k].1) by {
        if k < path.len() {
            assert(extended[k] == path[k]);
            assert(extended[k - 1] == path[k - 1]);
        } else {
            assert(extended[k] == v);
            assert(extended[k - 1] == u);
        }
    }
    assert(fill_path_ok(extended, border, upper, left, h, w, start));
}

/// The closure of the visited grid under four-adjacency: once the stack is
/// empty, every cell on a fill path from a visited start is visited.
#[verifier::rlimit(50)]
proof fn lemma_path_visited(
    visited: Seq<Vec<bool>>,
    border: Seq<Coordinate>,
    upper: int,
    left: int,
    h: int,
    w: int,
    start: (int, int),
    path: Seq<(int, int)>,
)
    requires
        visited.len() == h,
        forall|a: int| 0 <= a < h ==> (#[trigger] visited[a])@.len() == w,
        fill_path_ok(path, border, upper, left, h, w, start),
        visited[start.0]@[start.1],
        (start.0 > 0 ==> visited[start.0 - 1]@[start.1]),
        (start.0 < h - 1 ==> visited[start.0 + 1]@[start.1]),
        (start.1 > 0 ==> visited[start.0]@[start.1 - 1]),
        (start.1 < w - 1 ==> visited[start.0]@[start.1 + 1]),
        forall|a: int, b: int|
            0 <= a < h && 0 <= b < w && #[trigger] visited[a]@[b] && !border_blocks(
                border,
                upper,
                left,
                a,
                b,
            ) ==> ((a > 0 ==> visited[a - 1]@[b]) && (a < h - 1 ==> visited[a + 1]@[b]) && (b > 0
                ==> visited[a]@[b - 1]) && (b < w - 1 ==> visited[a]@[b + 1])),
    ensures
        visited[path.last().0]@[path.last().1],
    decreases path.len(),
{
    if path.len() > 1 {
        let prefix = path.drop_last();
        assert(fill_path_ok(prefix, border, upper, left, h, w, start)) by {
            assert(prefix[0] == path[0]);
            assert forall|k: int|
                0 <= k < prefix.len() implies 0 <= (#[trigger] prefix[k]).0 < h && 0 <= prefix[
                k
            ].1 < w by {
                assert(prefix[k] == path[k]);
            }
            assert forall|k: int|
                1 <= k < prefix.len() implies fill_adjacent(prefix[k - 1], #[trigger] prefix[k])
                && !border_blocks(border, upper, left, prefix[k].0, prefix[k].1) by {
                assert(prefix[k] == path[k]);
                assert(prefix[k - 1] == path[k - 1]);
            }
        }
        lemma_path_visited(visited, border, upper, left, h, w, start, prefix);
        let u = path[path.len() - 2];
        let v = path.last();
        assert(visited[u.0]@[u.1]);
        assert(fill_adjacent(u, v));
        assert(0 <= u.0 < h && 0 <= u.1 < w);
        assert(0 <= v.0 < h && 0 <= v.1 < w);
        assert((u.0 > 0 ==> visited[u.0 - 1]@[u.1]) && (u.0 < h - 1 ==> visited[u.0 + 1]@[u.1])
            && (u.1 > 0 ==> visited[u.0]@[u.1 - 1]) && (u.1 < w - 1 ==> visited[u.0]@[u.1
            + 1])) by {
            if path.len() == 2 {
                assert(u == path[0]);
                assert(u == start);
            } else {
                assert(!border_blocks(border, upper, left, u.0, u.1));
            }
        }
        if v.0 == u.0 - 1 && v.1 == u.1 {
            assert(u.0 > 0);
            assert(visited[u.0 - 1]@[u.1]);
        } else if v.0 == u.0 + 1 && v.1 == u.1 {
            assert(u.0 < h - 1);
            assert(visited[u.0 + 1]@[u.1]);
        } else if v.0 == u.0 && v.1 == u.1 - 1 {
            assert(u.1 > 0);
            assert(visited[u.0]@[u.1 - 1]);
        } else {
            assert(v.0 == u.0 && v.1 == u.1 + 1);
            assert(u.1 < w - 1);
            assert(visited[u.0]@[u.1 + 1]);
        }
        assert(visited[v.0]@[v.1]);
    }
}

/// The flood fill's running state: the grid has the rectangle's shape, every
/// border cell is marked, every marked cell is a border cell or reachable
/// from the centre, and the stack holds distinct, marked, reachable cells of
/// the rectangle.
pub open spec fn fill_inv(
    visited: Seq<Vec<bool>>,
    stack: Seq<Coordinate>,
    border: Seq<Coordinate>,
    up: int,
    lf: int,
    h: int,
    w: int,
    start: (int, int),
    cir: bool,
) -> bool {
    &&& visited.len() == h
    &&& forall|a: int| 0 <= a < h ==> (#[trigger] visited[a])@.len() == w
    &&& (cir ==> 0 <= start.0 < h && 0 <= start.1 < w && visited[start.0]@[start.1])
    &&& forall|a: int, bb: int|
        0 <= a < h && 0 <= bb < w && border_blocks(border, up, lf, a, bb)
            ==> #[trigger] visited[a]@[bb]
    &&& forall|a: int, bb: int|
        0 <= a < h && 0 <= bb < w && #[trigger] visited[a]@[bb] ==> (border_blocks(
            border,
            up,
            lf,
            a,
            bb,
        ) || (cir && fill_reachable(border, up, lf, h, w, start, (a, bb))))
    &&& forall|k: int| 0 <= k < stack.len() ==> (#[trigger] stack[k]).row < h && stack[k].col < w
    &&& forall|k: int|
        0 <= k < stack.len() ==> visited[(#[trigger] stack[k]).row as int]@[stack[k].col as int]
    &&& forall|k: int|
        0 <= k < stack.len() ==> cir && fill_reachable(
            border,
            up,
            lf,
            h,
            w,
            start,
            ((#[trigger] stack[k]).row as int, stack[k].col as int),
        )
    &&& forall|k1: int, k2: int| 0 <= k1 < k2 < stack.len() ==> stack[k1] != stack[k2]
}

/// Mark one unvisited, reachable cell and push it on the stack, preserving
/// the flood fill's running state.
fn fill_mark_push(
    visited: &mut Vec<Vec<bool>>,
    stack: &mut Vec<Coordinate>,
    ty: usize,
    tx: usize,
    Ghost(border): Ghost<Seq<Coordinate>>,
    Ghost(up): Ghost<int>,
    Ghost(lf): Ghost<int>,
    Ghost(h): Ghost<int>,
    Ghost(w): Ghost<int>,
    Ghost(start): Ghost<(int, int)>,
    Ghost(cir): Ghost<bool>,
)
    requires
        fill_inv(old(visited)@, old(stack)@, border, up, lf, h, w, start, cir),
        ty < h,
        tx < w,
        !old(visited)@[ty as int]@[tx as int],
        cir,
        fill_reachable(border, up, lf, h, w, start, (ty as int, tx as int)),
    ensures
        fill_inv(final(visited)@, final(stack)@, border, up, lf, h, w, start, cir),
        forall|a: int, bb: int|
            0 <= a < h && 0 <= bb < w ==> ((#[trigger] final(visited)@[a]@[bb]) <==> (old(
                visited,
            )@[a]@[bb] || (a == ty && bb == tx))),
        final(stack)@ == old(stack)@.push(Coordinate { row: ty, col: tx }),
        forall|p: Coordinate|
            #[trigger] final(stack)@.contains(p) <==> (old(stack)@.contains(p) || p
                == (Coordinate { row: ty, col: tx })),
        count_false_grid(final(visited)@) == count_false_grid(old(visited)@) - 1,
{
    mark_visited(visited, ty, tx);
    stack.push(Coordinate { row: ty, col: tx });
    proof {
        let c = Coordinate { row: ty, col: tx };
        let pre = old(stack)@;
        assert(stack@[pre.len() as int] == c);
        assert forall|p: Coordinate| #[trigger] stack@.contains(p) implies (pre.contains(p) || p
            == c) by {
            let k = choose|k: int| 0 <= k < stack@.len() && stack@[k] == p;
            if k < pre.len() {
                assert(pre[k] == p);
            }
        }
        assert forall|p: Coordinate| pre.contains(p) implies #[trigger] stack@.contains(p) by {
            let k = choose|k: int| 0 <= k < pre.len() && pre[k] == p;
            assert(stack@[k] == p);
        }
        assert(stack@.contains(c));
        assert forall|k1: int, k2: int|
            0 <= k1 < k2 < stack@.len() implies stack@[k1] != stack@[k2] by {
            if k2 == stack@.len() - 1 {
                assert(stack@[k1] == pre[k1]);
                assert(old(visited)@[pre[k1].row as int]@[pre[k1].col as int]);
            } else {
                assert(stack@[k1] == pre[k1]);
                assert(stack@[k2] == pre[k2]);
            }
        }
    }
}

impl Blob {
    /// An empty blob.
    pub fn new() -> (b: Blob)
        ensures
            b.points@.len() == 0,
            b.border_points@.len() == 0,
            b.radius == 0,
            b.variation == 0,
    {
        Blob {
            points: Vec::new(),
            border_points: Vec::new(),
            radius: 0,
            variation: 0,
            center: Coordinate { row: 0, col: 0 },
        }
    }

    /// The bounding rectangle of the border: smallest row, smallest column,
    /// greatest row, greatest column.
    pub fn get_extreme_points(&self) -> (r: (usize, usize, usize, usize))
        requires
            self.border_points@.len() > 0,
        ensures
            forall|k: int|
                0 <= k < self.border_points@.len() ==> {
                    let p = #[trigger] self.border_points@[k];
                    r.0 <= p.row <= r.2 && r.1 <= p.col <= r.3
                },
            exists|k: int|
                0 <= k < self.border_points@.len() && (#[trigger] self.border_points@[k]).row
                    == r.0,
            exists|k: int|
                0 <= k < self.border_points@.len() && (#[trigger] self.border_points@[k]).col
                    == r.1,
            exists|k: int|
                0 <= k < self.border_points@.len() && (#[trigger] self.border_points@[k]).row
                    == r.2,
            exists|k: int|
                0 <= k < self.border_points@.len() && (#[trigger] self.border_points@[k]).col
                    == r.3,
    {
        let mut min_row = self.border_points[0].row;
        let mut max_row = self.border_points[0].row;
        let mut min_col = self.border_points[0].col;
        let mut max_col = self.border_points[0].col;
        let mut k: usize = 1;
        while k < self.border_points.len()
            invariant
                1 <= k <= self.border_points@.len(),
                self.border_points@.len() > 0,
                forall|m: int|
                    0 <= m < k ==> {
                        let p = #[trigger] self.border_points@[m];
                        min_row <= p.row <= max_row && min_col <= p.col <= max_col
                    },
                exists|m: int|
                    0 <= m < k && (#[trigger] self.border_points@[m]).row == min_row,
                exists|m: int|
                    0 <= m < k && (#[trigger] self.border_points@[m]).col == min_col,
                exists|m: int|
                    0 <= m < k && (#[trigger] self.border_points@[m]).row == max_row,
                exists|m: int|
                    0 <= m < k && (#[trigger] self.border_points@[m]).col == max_col,
            decreases self.border_points@.len() - k,
        {
            let p = self.border_points[k];
            if p.row < min_row {
                min_row = p.row;
            }
            if p.row > max_row {
                max_row = p.row;
            }
            if p.col < min_col {
                min_col = p.col;
            }
            if p.col > max_col {
                max_col = p.col;
            }
            k += 1;
        }
        (min_row, min_col, max_row, max_col)
    }

    /// Flood-fill the interior of the border inside the given rectangle,
    /// seeded at the centre; the border points are pre-marked so the fill
    /// cannot escape them, and every visited cell, border included, becomes
    /// a point of the blob.  The appended points are exactly the cells a
    /// border point maps onto plus the cells four-connected-reachable from
    /// the centre without crossing the border; diagonal steps are explored
    /// only while an orthogonal intermediate is unvisited, and such an
    /// intermediate is itself filled, so the filled region is this
    /// four-connected closure.
    #[verifier::rlimit(100)]
    pub fn spread_blob(
        &mut self,
        upper_border: usize,
        left_border: usize,
        lower_border: usize,
        righter_border: usize,
    )
        requires
            upper_border <= lower_border,
            left_border <= righter_border,
            lower_border < usize::MAX,
            righter_border < usize::MAX,
        ensures
            final(self).border_points == old(self).border_points,
            final(self).radius == old(self).radius,
            final(self).variation == old(self).variation,
            final(self).center == old(self).center,
            final(self).points@.len() >= old(self).points@.len(),
            forall|k: int|
                0 <= k < old(self).points@.len() ==> (#[trigger] final(self).points@[k]) == old(
                    self,
                ).points@[k],
            forall|k: int|
                old(self).points@.len() <= k < final(self).points@.len() ==> {
                    let p = #[trigger] final(self).points@[k];
                    let a = p.row - upper_border;
                    let b = p.col - left_border;
                    &&& upper_border <= p.row <= lower_border
                    &&& left_border <= p.col <= righter_border
                    &&& (border_blocks(
                        old(self).border_points@,
                        upper_border as int,
                        left_border as int,
                        a as int,
                        b as int,
                    ) || (upper_border <= old(self).center.row <= lower_border && left_border
                        <= old(self).center.col <= righter_border && fill_reachable(
                        old(self).border_points@,
                        upper_border as int,
                        left_border as int,
                        lower_border - upper_border + 1,
                        righter_border - left_border + 1,
                        (
                            old(self).center.row - upper_border,
                            old(self).center.col - left_border,
                        ),
                        (a as int, b as int),
                    )))
                },
            forall|a: int, b: int|
                0 <= a < lower_border - upper_border + 1 && 0 <= b < righter_border - left_border
                    + 1 && (border_blocks(
                    old(self).border_points@,
                    upper_border as int,
                    left_border as int,
                    a,
                    b,
                ) || (upper_border <= old(self).center.row <= lower_border && left_border <= old(
                    self,
                ).center.col <= righter_border && fill_reachable(
                    old(self).border_points@,
                    upper_border as int,
                    left_border as int,
                    lower_border - upper_border + 1,
                    righter_border - left_border + 1,
                    (old(self).center.row - upper_border, old(self).center.col - left_border),
                    (a, b),
                ))) ==> #[trigger] final(self).points@.contains(
                    Coordinate {
                        row: (a + upper_border) as usize,
                        col: (b + left_border) as usize,
                    },
                ),
            (upper_border <= old(self).center.row <= lower_border && left_border <= old(
                self,
            ).center.col <= righter_border) ==> final(self).points@.contains(old(self).center),
    {
        let rect_width = righter_border - left_border + 1;
        let rect_height = lower_border - upper_border + 1;
        let ghost border = self.border_points@;
        let ghost up = upper_border as int;
        let ghost lf = left_border as int;
        let ghost h = rect_height as int;
        let ghost w = rect_width as int;
        let ghost start = (
            old(self).center.row - upper_border as int,
            old(self).center.col - left_border as int,
        );

        let mut visited: Vec<Vec<bool>> = Vec::new();
        let mut y: usize = 0;
        while y < rect_height
            invariant
                y <= rect_height,
                visited@.len() == y,
                forall|a: int| 0 <= a < y ==> (#[trigger] visited@[a])@.len() == rect_width,
                forall|a: int, b: int| 0 <= a < y && 0 <= b < rect_width ==> !(
                #[trigger] visited@[a]@[b]),
            decreases rect_height - y,
        {
            let mut row: Vec<bool> = Vec::new();
            let mut x: usize = 0;
            while x < rect_width
                invariant
                    x <= rect_width,
                    row@.len() == x,
                    forall|b: int| 0 <= b < x ==> !(#[trigger] row@[b]),
                decreases rect_width - x,
            {
                row.push(false);
                x += 1;
            }
            visited.push(row);
            y += 1;
        }

        let mut b: usize = 0;
        while b < self.border_points.len()
            invariant
                b <= self.border_points@.len(),
                self.border_points@ == border,
                visited@.len() == rect_height,
                h == rect_height as int,
                w == rect_width as int,
                up == upper_border as int,
                lf == left_border as int,
                forall|a: int|
                    0 <= a < rect_height ==> (#[trigger] visited@[a])@.len() == rect_width,
                forall|a: int, bb: int|
                    0 <= a < h && 0 <= bb < w ==> ((#[trigger] visited@[a]@[bb]) <==> border_blocks(
                        border.take(b as int),
                        up,
                        lf,
                        a,
                        bb,
                    )),
            decreases self.border_points@.len() - b,
        {
            let p = self.border_points[b];
            let ghost pre_grid = visited@;
            if p.row >= upper_border && p.col >= left_border {
                let ry = p.row - upper_border;
                let rx = p.col - left_border;
                if ry < rect_height && rx < rect_width {
                    mark_visited(&mut visited, ry, rx);
                }
            }
            proof {
                assert forall|a: int, bb: int|
                    0 <= a < h && 0 <= bb < w implies ((#[trigger] visited@[a]@[bb])
                    <==> border_blocks(border.take(b + 1), up, lf, a, bb)) by {
                    assert(border.take(b + 1)[b as int] == border[b as int]);
                    if visited@[a]@[bb] {
                        if pre_grid[a]@[bb] {
                            let k = choose|k: int|
                                0 <= k < b && (#[trigger] border.take(b as int)[k]).row == a + up
                                    && border.take(b as int)[k].col == bb + lf;
                            assert(border.take(b + 1)[k] == border[k]);
                            assert(border_blocks(border.take(b + 1), up, lf, a, bb));
                        } else {
                            assert(a + up == border[b as int].row && bb + lf == border[
                                b as int
                            ].col);
                            assert(border_blocks(border.take(b + 1), up, lf, a, bb));
                        }
                    }
                    if border_blocks(border.take(b + 1), up, lf, a, bb) {
                        let k = choose|k: int|
                            0 <= k < b + 1 && (#[trigger] border.take(b + 1)[k]).row == a + up
                                && border.take(b + 1)[k].col == bb + lf;
                        if k < b {
                            assert(border.take(b as int)[k] == border[k]);
                            assert(border_blocks(border.take(b as int), up, lf, a, bb));
                            assert(pre_grid[a]@[bb]);
                        } else {
                            assert(border[b as int].row == a + up && border[b as int].col == bb
                                + lf);
                            assert(visited@[a]@[bb]);
                        }
                    }
                }
            }
            b += 1;
        }
        proof {
            assert(border.take(border.len() as int) =~= border);
            assert forall|a: int, bb: int|
                0 <= a < h && 0 <= bb < w implies ((#[trigger] visited@[a]@[bb])
                <==> border_blocks(border, up, lf, a, bb)) by {}
        }

        let mut stack: Vec<Coordinate> = Vec::new();
        let center_in_rect = self.center.row >= upper_border && self.center.col >= left_border
            && self.center.row <= lower_border && self.center.col <= righter_border;
        if self.center.row >= upper_border && self.center.col >= left_border {
            let cy = self.center.row - upper_border;
            let cx = self.center.col - left_border;
            if cy < rect_height && cx < rect_width {
                mark_visited(&mut visited, cy, cx);
                stack.push(Coordinate { row: cy, col: cx });
                proof {
                    lemma_fill_base(border, up, lf, h, w, start);
                    assert(stack@[0] == (Coordinate { row: cy, col: cx }));
                    assert(stack@.contains(Coordinate { row: cy, col: cx }));
                }
            }
        }

        while stack.len() > 0
            invariant
                rect_height == lower_border - upper_border + 1,
                rect_width == righter_border - left_border + 1,
                h == rect_height as int,
                w == rect_width as int,
                up == upper_border as int,
                lf == left_border as int,
                self.border_points@ == border,
                self.center == old(self).center,
                center_in_rect == (upper_border <= old(self).center.row <= lower_border
                    && left_border <= old(self).center.col <= righter_border),
                center_in_rect ==> start.0 == old(self).center.row - upper_border && start.1
                    == old(self).center.col - left_border,
                fill_inv(visited@, stack@, border, up, lf, h, w, start, center_in_rect),
                forall|a: int, bb: int|
                    0 <= a < h && 0 <= bb < w && #[trigger] visited@[a]@[bb] && !border_blocks(
                        border,
                        up,
                        lf,
                        a,
                        bb,
                    ) && !stack@.contains(Coordinate { row: a as usize, col: bb as usize }) ==> ((
                    a > 0 ==> visited@[a - 1]@[bb]) && (a < h - 1 ==> visited@[a + 1]@[bb]) && (bb
                        > 0 ==> visited@[a]@[bb - 1]) && (bb < w - 1 ==> visited@[a]@[bb + 1])),
                (center_in_rect && !stack@.contains(
                    Coordinate { row: start.0 as usize, col: start.1 as usize },
                )) ==> ((start.0 > 0 ==> visited@[start.0 - 1]@[start.1]) && (start.0 < h - 1
                    ==> visited@[start.0 + 1]@[start.1]) && (start.1 > 0
                    ==> visited@[start.0]@[start.1 - 1]) && (start.1 < w - 1
                    ==> visited@[start.0]@[start.1 + 1])),
            decreases count_false_grid(visited@), stack@.len(),
        {
            proof {
                lemma_count_false_rows_nonneg(visited@, visited@.len() as int);
            }
            let ghost pre_stack = stack@;
            let ghost pre_visited = visited@;
            let current = stack.pop().unwrap();
            let ghost post_pop = stack@;
            proof {
                assert(pre_stack[pre_stack.len() - 1] == current);
                assert(fill_reachable(
                    border,
                    up,
                    lf,
                    h,
                    w,
                    start,
                    (current.row as int, current.col as int),
                ));
                assert forall|k1: int, k2: int|
                    0 <= k1 < k2 < stack@.len() implies stack@[k1] != stack@[k2] by {
                    assert(stack@[k1] == pre_stack[k1]);
                    assert(stack@[k2] == pre_stack[k2]);
                }
                assert(fill_inv(visited@, stack@, border, up, lf, h, w, start, center_in_rect));
            }
            let x = current.col;
            let y = current.row;

            // upper left
            if x > 0 && y > 0 && !read_visited(&visited, y - 1, x - 1) && !read_visited(
                &visited,
                y - 1,
                x,
            ) && !read_visited(&visited, y, x - 1) {
                proof {
                    lemma_fill_extend(
                        border,
                        up,
                        lf,
                        h,
                        w,
                        start,
                        (y as int, x as int),
                        (y as int - 1, x as int),
                    );
                    lemma_fill_extend(
                        border,
                        up,
                        lf,
                        h,
                        w,
                        start,
                        (y as int - 1, x as int),
                        (y as int - 1, x as int - 1),
                    );
                }
                fill_mark_push(
                    &mut visited,
                    &mut stack,
                    y - 1,
                    x - 1,
                    Ghost(border),
                    Ghost(up),
                    Ghost(lf),
                    Ghost(h),
                    Ghost(w),
                    Ghost(start),
                    Ghost(center_in_rect),
                );
            }
            // upper center
            if y > 0 && !read_visited(&visited, y - 1, x) {
                proof {
                    lemma_fill_extend(
                        border,
                        up,
                        lf,
                        h,
                        w,
                        start,
                        (y as int, x as int),
                        (y as int - 1, x as int),
                    );
                }
                fill_mark_push(
                    &mut visited,
                    &mut stack,
                    y - 1,
                    x,
                    Ghost(border),
                    Ghost(up),
                    Ghost(lf),
                    Ghost(h),
                    Ghost(w),
                    Ghost(start),
                    Ghost(center_in_rect),
                );
            }
            // upper right
            if x < rect_width - 1 && y > 0 && !read_visited(&visited, y - 1, x + 1)
                && !read_visited(&visited, y - 1, x) && !read_visited(&visited, y, x + 1) {
                proof {
                    lemma_fill_extend(
                        border,
                        up,
                        lf,
                        h,
                        w,
                        start,
                        (y as int, x as int),
                        (y as int - 1, x as int),
                    );
                    lemma_fill_extend(
                        border,
                        up,
                        lf,
                        h,
                        w,
                        start,
                        (y as int - 1, x as int),
                        (y as int - 1, x as int + 1),
                    );
                }
                fill_mark_push(
                    &mut visited,
                    &mut stack,
                    y - 1,
                    x + 1,
                    Ghost(border),
                    Ghost(up),
                    Ghost(lf),
                    Ghost(h),
                    Ghost(w),
                    Ghost(start),
                    Ghost(center_in_rect),
                );
            }
            // right center
            if x < rect_width - 1 && !read_visited(&visited, y, x + 1) {
                proof {
                    lemma_fill_extend(
                        border,
                        up,
                        lf,
                        h,
                        w,
                        start,
                        (y as int, x as int),
                        (y as int, x as int + 1),
                    );
                }
                fill_mark_push(
                    &mut visited,
                    &mut stack,
                    y,
                    x + 1,
                    Ghost(border),
                    Ghost(up),
                    Ghost(lf),
                    Ghost(h),
                    Ghost(w),
                    Ghost(start),
                    Ghost(center_in_rect),
                );
            }
            // lower right
            if x < rect_width - 1 && y < rect_height - 1 && !read_visited(&visited, y + 1, x + 1)
                && !read_visited(&visited, y + 1, x) && !read_visited(&visited, y, x + 1) {
                proof {
                    lemma_fill_extend(
                        border,
                        up,
                        lf,
                        h,
                        w,
                        start,
                        (y as int, x as int),
                        (y as int + 1, x as int),
                    );
                    lemma_fill_extend(
                        border,
                        up,
                        lf,
                        h,
                        w,
                        start,
                        (y as int + 1, x as int),
                        (y as int + 1, x as int + 1),
                    );
                }
                fill_mark_push(
                    &mut visited,
                    &mut stack,
                    y + 1,
                    x + 1,
                    Ghost(border),
                    Ghost(up),
                    Ghost(lf),
                    Ghost(h),
                    Ghost(w),
                    Ghost(start),
                    Ghost(center_in_rect),
                );
            }
            // lower center
            if y < rect_height - 1 && !read_visited(&visited, y + 1, x) {
                proof {
                    lemma_fill_extend(
                        border,
                        up,
                        lf,
                        h,
                        w,
                        start,
                        (y as int, x as int),
                        (y as int + 1, x as int),
                    );
                }
                fill_mark_push(
                    &mut visited,
                    &mut stack,
                    y + 1,
                    x,
                    Ghost(border),
                    Ghost(up),
                    Ghost(lf),
                    Ghost(h),
                    Ghost(w),
                    Ghost(start),
                    Ghost(center_in_rect),
                );
            }
            // lower left
            if x > 0 && y < rect_height - 1 && !read_visited(&visited, y + 1, x - 1)
                && !read_visited(&visited, y + 1, x) && !read_visited(&visited, y, x - 1) {
                proof {
                    lemma_fill_extend(
                        border,
                        up,
                        lf,
                        h,
                        w,
                        start,
                        (y as int, x as int),
                        (y as int + 1, x as int),
                    );
                    lemma_fill_extend(
                        border,
                        up,
                        lf,
                        h,
                        w,
                        start,
                        (y as int + 1, x as int),
                        (y as int + 1, x as int - 1),
                    );
                }
                fill_mark_push(
                    &mut visited,
                    &mut stack,
                    y + 1,
                    x - 1,
                    Ghost(border),
                    Ghost(up),
                    Ghost(lf),
                    Ghost(h),
                    Ghost(w),
                    Ghost(start),
                    Ghost(center_in_rect),
                );
            }
            // left center
            if x > 0 && !read_visited(&visited, y, x - 1) {
                proof {
                    lemma_fill_extend(
                        border,
                        up,
                        lf,
                        h,
                        w,
                        start,
                        (y as int, x as int),
                        (y as int, x as int - 1),
                    );
                }
                fill_mark_push(
                    &mut visited,
                    &mut stack,
                    y,
                    x - 1,
                    Ghost(border),
                    Ghost(up),
                    Ghost(lf),
                    Ghost(h),
                    Ghost(w),
                    Ghost(start),
                    Ghost(center_in_rect),
                );
            }
            proof {
                lemma_count_false_rows_nonneg(visited@, visited@.len() as int);
                assert(y > 0 ==> visited@[y as int - 1]@[x as int]);
                assert(y < rect_height - 1 ==> visited@[y as int + 1]@[x as int]);
                assert(x > 0 ==> visited@[y as int]@[x as int - 1]);
                assert(x < rect_width - 1 ==> visited@[y as int]@[x as int + 1]);
                assert forall|p: Coordinate|
                    post_pop.contains(p) implies #[trigger] stack@.contains(p) by {}
                assert forall|a: int, bb: int|
                    0 <= a < h && 0 <= bb < w && #[trigger] visited@[a]@[bb] && !border_blocks(
                        border,
                        up,
                        lf,
                        a,
                        bb,
                    ) && !stack@.contains(
                        Coordinate { row: a as usize, col: bb as usize },
                    ) implies ((a > 0 ==> visited@[a - 1]@[bb]) && (a < h - 1 ==> visited@[a
                        + 1]@[bb]) && (bb > 0 ==> visited@[a]@[bb - 1]) && (bb < w - 1
                        ==> visited@[a]@[bb + 1])) by {
                    let c = Coordinate { row: a as usize, col: bb as usize };
                    if a == y as int && bb == x as int {
                    } else if pre_visited[a]@[bb] {
                        if pre_stack.contains(c) {
                            let k = choose|k: int|
                                0 <= k < pre_stack.len() && pre_stack[k] == c;
                            assert(pre_stack[pre_stack.len() - 1] == current);
                            assert(c != current);
                            assert(k < pre_stack.len() - 1);
                            assert(post_pop[k] == c);
                            assert(post_pop.contains(c));
                            assert(false);
                        }
                    } else {
                        assert(stack@.contains(c));
                        assert(false);
                    }
                }
                if center_in_rect {
                    let startc = Coordinate { row: start.0 as usize, col: start.1 as usize };
                    if current == startc {
                        assert(y as int == start.0 && x as int == start.1);
                    } else if pre_stack.contains(startc) {
                        let k = choose|k: int|
                            0 <= k < pre_stack.len() && pre_stack[k] == startc;
                        assert(pre_stack[pre_stack.len() - 1] == current);
                        assert(k < pre_stack.len() - 1);
                        assert(post_pop[k] == startc);
                        assert(post_pop.contains(startc));
                        assert(stack@.contains(startc));
                    }
                }
            }
        }


        proof {
            assert forall|a: int, bb: int|
                0 <= a < h && 0 <= bb < w && (border_blocks(border, up, lf, a, bb) || (
                center_in_rect && fill_reachable(
                    border,
                    up,
                    lf,
                    h,
                    w,
                    start,
                    (a, bb),
                ))) implies #[trigger] visited@[a]@[bb] by {
                if !border_blocks(border, up, lf, a, bb) {
                    reveal(fill_reachable);
                    assert(stack@.len() == 0);
                    assert(!stack@.contains(
                        Coordinate { row: start.0 as usize, col: start.1 as usize },
                    ));
                    let path = choose|path: Seq<(int, int)>|
                        #[trigger] fill_path_ok(path, border, up, lf, h, w, start) && path.last()
                            == (a, bb);
                    lemma_path_visited(visited@, border, up, lf, h, w, start, path);
                }
            }
        }

        let ghost filled = visited@;
        let mut ry: usize = 0;
        while ry < rect_height
            invariant
                ry <= rect_height,
                visited@ == filled,
                visited@.len() == rect_height,
                rect_height == lower_border - upper_border + 1,
                rect_width == righter_border - left_border + 1,
                forall|a: int|
                    0 <= a < rect_height ==> (#[trigger] visited@[a])@.len() == rect_width,
                self.border_points == old(self).border_points,
                self.radius == old(self).radius,
                self.variation == old(self).variation,
                self.center == old(self).center,
                self.points@.len() >= old(self).points@.len(),
                forall|k: int|
                    0 <= k < old(self).points@.len() ==> (#[trigger] self.points@[k]) == old(
                        self,
                    ).points@[k],
                forall|k: int|
                    old(self).points@.len() <= k < self.points@.len() ==> {
                        let p = #[trigger] self.points@[k];
                        &&& upper_border <= p.row <= lower_border
                        &&& left_border <= p.col <= righter_border
                        &&& visited@[p.row - upper_border]@[p.col - left_border]
                    },
                forall|a: int, b: int|
                    0 <= a < ry && 0 <= b < rect_width && visited@[a]@[b]
                        ==> #[trigger] self.points@.contains(
                        Coordinate {
                            row: (a + upper_border) as usize,
                            col: (b + left_border) as usize,
                        },
                    ),
            decreases rect_height - ry,
        {
            let row = &visited[ry];
            let mut rx: usize = 0;
            while rx < rect_width
                invariant
                    ry < rect_height,
                    rx <= rect_width,
                    row == visited@[ry as int],
                    row@.len() == rect_width,
                    visited@ == filled,
                    visited@.len() == rect_height,
                    rect_height == lower_border - upper_border + 1,
                    rect_width == righter_border - left_border + 1,
                    self.border_points == old(self).border_points,
                    self.radius == old(self).radius,
                    self.variation == old(self).variation,
                    self.center == old(self).center,
                    self.points@.len() >= old(self).points@.len(),
                    forall|k: int|
                        0 <= k < old(self).points@.len() ==> (#[trigger] self.points@[k]) == old(
                            self,
                        ).points@[k],
                    forall|k: int|
                        old(self).points@.len() <= k < self.points@.len() ==> {
                            let p = #[trigger] self.points@[k];
                            &&& upper_border <= p.row <= lower_border
                            &&& left_border <= p.col <= righter_border
                            &&& visited@[p.row - upper_border]@[p.col - left_border]
                        },
                    forall|a: int, b: int|
                        0 <= a < ry && 0 <= b < rect_width && visited@[a]@[b]
                            ==> #[trigger] self.points@.contains(
                            Coordinate {
                                row: (a + upper_border) as usize,
                                col: (b + left_border) as usize,
                            },
                        ),
                    forall|b: int|
                        0 <= b < rx && visited@[ry as int]@[b] ==> #[trigger] self.points@
                            .contains(
                            Coordinate {
                                row: (ry + upper_border) as usize,
                                col: (b + left_border) as usize,
                            },
                        ),
                decreases rect_width - rx,
            {
                if row[rx] {
                    let ghost prev = self.points@;
                    self.points.push(
                        Coordinate { row: ry + upper_border, col: rx + left_border },
                    );
                    proof {
                        assert(self.points@[self.points@.len() - 1] == (Coordinate {
                            row: (ry + upper_border) as usize,
                            col: (rx + left_border) as usize,
                        }));
                        assert(self.points@.contains(
                            Coordinate {
                                row: (ry + upper_border) as usize,
                                col: (rx + left_border) as usize,
                            },
                        ));
                        assert forall|p: Coordinate| prev.contains(p) implies self.points@
                            .contains(p) by {
                            let k = choose|k: int| 0 <= k < prev.len() && prev[k] == p;
                            assert(self.points@[k] == p);
                        }
                        assert forall|a: int, b: int|
                            0 <= a < ry && 0 <= b < rect_width && visited@[a]@[b]
                            implies #[trigger] self.points@.contains(
                            Coordinate {
                                row: (a + upper_border) as usize,
                                col: (b + left_border) as usize,
                            },
                        ) by {
                            assert(prev.contains(
                                Coordinate {
                                    row: (a + upper_border) as usize,
                                    col: (b + left_border) as usize,
                                },
                            ));
                        }
                        assert forall|b: int|
                            0 <= b < rx && visited@[ry as int]@[b]
                            implies #[trigger] self.points@.contains(
                            Coordinate {
                                row: (ry + upper_border) as usize,
                                col: (b + left_border) as usize,
                            },
                        ) by {
                            assert(prev.contains(
                                Coordinate {
                                    row: (ry + upper_border) as usize,
                                    col: (b + left_border) as usize,
                                },
                            ));
                        }
                    }
                }
                rx += 1;
            }
            ry += 1;
        }
        proof {
            if upper_border <= old(self).center.row <= lower_border && left_border <= old(
                self,
            ).center.col <= righter_border {
                let cy = (old(self).center.row - upper_border) as int;
                let cx = (old(self).center.col - left_border) as int;
                assert(visited@[cy]@[cx]);
                assert(self.points@.contains(
                    Coordinate {
                        row: (cy + upper_border) as usize,
                        col: (cx + left_border) as usize,
                    },
                ));
                assert((Coordinate {
                    row: (cy + upper_border) as usize,
                    col: (cx + left_border) as usize,
                }) == old(self).center);
            }
        }
    }

    /// Drop every point that is off the map, already occupied, or on terrain
    /// that cannot hold the content; removal order does not matter.
    pub fn limit_on_proper_tile(&mut self, world: &Vec<Vec<Tile>>, content: &Content)
        ensures
            final(self).border_points == old(self).border_points,
            final(self).radius == old(self).radius,
            final(self).variation == old(self).variation,
            final(self).center == old(self).center,
            final(self).points@.len() <= old(self).points@.len(),
            forall|k: int|
                0 <= k < final(self).points@.len() ==> proper_cell(
                    world@,
                    #[trigger] final(self).points@[k],
                    *content,
                ),
            forall|p: Coordinate|
                old(self).points@.contains(p) && proper_cell(world@, p, *content)
                    ==> final(self).points@.contains(p),
            forall|k: int|
                0 <= k < final(self).points@.len() ==> old(self).points@.contains(
                    #[trigger] final(self).points@[k],
                ),
    {
        let mut i: usize = 0;
        while i < self.points.len()
            invariant
                i <= self.points@.len(),
                self.points@.len() <= old(self).points@.len(),
                self.border_points == old(self).border_points,
                self.radius == old(self).radius,
                self.variation == old(self).variation,
                self.center == old(self).center,
                forall|k: int|
                    0 <= k < i ==> proper_cell(world@, #[trigger] self.points@[k], *content),
                forall|p: Coordinate|
                    old(self).points@.contains(p) && proper_cell(world@, p, *content)
                        ==> self.points@.contains(p),
                forall|k: int|
                    0 <= k < self.points@.len() ==> old(self).points@.contains(
                        #[trigger] self.points@[k],
                    ),
            decreases self.points@.len() - i,
        {
            let point = self.points[i];
            let ok = point.row < world.len() && point.col < world[point.row].len() && matches!(
                world[point.row][point.col].content,
                Content::Empty,
            ) && world[point.row][point.col].tile_type.properties().can_hold(content);
            if !ok {
                let ghost pre = self.points@;
                self.points.swap_remove(i);
                proof {
                    assert(!proper_cell(world@, pre[i as int], *content));
                    assert forall|k: int|
                        0 <= k < self.points@.len() implies old(self).points@.contains(
                        #[trigger] self.points@[k],
                    ) by {
                        if k == i {
                            assert(self.points@[k] == pre[pre.len() - 1]);
                        } else {
                            assert(self.points@[k] == pre[k]);
                        }
                    }
                    assert forall|p: Coordinate|
                        old(self).points@.contains(p) && proper_cell(world@, p, *content)
                        implies self.points@.contains(p) by {
                        assert(pre.contains(p));
                        let j = choose|j: int| 0 <= j < pre.len() && pre[j] == p;
                        assert(j != i);
                        if j < pre.len() - 1 {
                            assert(self.points@[j] == pre[j]);
                        } else {
                            assert(self.points@[i as int] == pre[j]);
                        }
                    }
                }
            } else {
                i += 1;
            }
        }
    }

    /// Build one blob on the world: choose a centre away from the edges,
    /// sample a perturbed circular border around it, flood-fill the interior,
    /// and keep only the points that can properly receive the content.  On a
    /// world too small for the radius, the blob comes back empty.
    pub fn default<G: GeometrySource>(
        world: &Vec<Vec<Tile>>,
        size: usize,
        radius_hundredths: usize,
        variation_milli: usize,
        content: &Content,
        geo: &mut G,
    ) -> (b: Blob)
        requires
            radius_hundredths <= usize::MAX - 199,
        ensures
            forall|k: int|
                0 <= k < b.points@.len() ==> proper_cell(world@, #[trigger] b.points@[k], *content),
            b.radius == radius_hundredths,
            b.variation == variation_milli,
            ({
                let margin = (radius_hundredths + 99) / 100 + 1;
                (size > margin && size - margin > margin) ==> margin <= b.center.row < size
                    - margin && margin <= b.center.col < size - margin
            }),
    {
        let mut blob = Blob::new();
        blob.radius = radius_hundredths;
        blob.variation = variation_milli;

        let max_radius = (radius_hundredths + 99) / 100 + 1;
        if size <= max_radius || size - max_radius <= max_radius {
            return blob;
        }
        let x = crate::rng::rand_in_range(max_radius, size - max_radius);
        let y = crate::rng::rand_in_range(max_radius, size - max_radius);
        blob.center = Coordinate { row: y, col: x };

        let raw_border = geo.blob_border(blob.center, radius_hundredths, variation_milli);
        let mut border: Vec<Coordinate> = Vec::new();
        let mut k: usize = 0;
        while k < raw_border.len()
            invariant
                forall|m: int|
                    0 <= m < border@.len() ==> (#[trigger] border@[m]).row < size && border@[
                        m
                    ].col < size,
            decreases raw_border@.len() - k,
        {
            let p = raw_border[k];
            if p.row < size && p.col < size {
                border.push(p);
            }
            k += 1;
        }
        if border.len() == 0 {
            return blob;
        }
        blob.border_points = border;

        let (min_row, min_col, max_row, max_col) = blob.get_extreme_points();
        proof {
            assert(max_row < size && max_col < size);
        }
        blob.spread_blob(min_row, min_col, max_row, max_col);
        blob.limit_on_proper_tile(world, content);
        blob
    }
}

/// Mark one cell of the visited grid, preserving the grid's shape; the count
/// of unvisited cells drops by one when the cell was unvisited.
fn mark_visited(visited: &mut Vec<Vec<bool>>, y: usize, x: usize)
    requires
        y < old(visited)@.len(),
        x < old(visited)@[y as int]@.len(),
    ensures
        final(visited)@.len() == old(visited)@.len(),
        forall|a: int|
            0 <= a < old(visited)@.len() ==> (#[trigger] final(visited)@[a])@.len() == old(
                visited,
            )@[a]@.len(),
        forall|a: int, b: int|
            0 <= a < old(visited)@.len() && 0 <= b < old(visited)@[a]@.len() && !(a == y && b
                == x) ==> (#[trigger] final(visited)@[a]@[b]) == old(visited)@[a]@[b],
        final(visited)@[y as int]@[x as int],
        !old(visited)@[y as int]@[x as int] ==> count_false_grid(final(visited)@)
            == count_false_grid(old(visited)@) - 1,
        old(visited)@[y as int]@[x as int] ==> final(visited)@ == old(visited)@,
{
    if visited[y][x] {
        proof {
            assert(final(visited)@ =~= old(visited)@) by {
                assert(visited@ =~= old(visited)@);
            }
        }
        return ;
    }
    let ghost old_grid = visited@;
    let ghost old_row = visited@[y as int]@;
    let row_ref = &mut visited[y];
    let cell_ref = &mut row_ref[x];
    *cell_ref = true;
    proof {
        assert(visited@[y as int]@ =~= old_row.update(x as int, true));
        assert(visited@ =~= old_grid.update(y as int, visited@[y as int]));
        lemma_count_false_in_update(old_row, x as int, old_row.len() as int);
        lemma_count_false_rows_update(
            old_grid,
            y as int,
            visited@[y as int],
            old_grid.len() as int,
        );
    }
}

/// Whether a cell of the visited grid is marked.
fn read_visited(visited: &Vec<Vec<bool>>, y: usize, x: usize) -> (r: bool)
    requires
        y < visited@.len(),
        x < visited@[y as int]@.len(),
    ensures
        r == visited@[y as int]@[x as int],
{
    visited[y][x]
}

/// Place blobs of `content` until the tile or blob budget runs out; an
/// infeasible configuration is rejected before anything is placed, and a
/// blob that would burst the remaining tile budget is abandoned whole.  The
/// result on success is the total number of tiles placed, which never
/// exceeds the initial tile budget; the number of blobs placed never exceeds
/// the initial blob budget.
pub fn spawn_blob<G: GeometrySource>(
    world: &mut Vec<Vec<Tile>>,
    settings: &mut BlobSettings,
    content: Content,
    geo: &mut G,
) -> (r: Result<usize, BlobSettingsError>)
    requires
        old(settings).radius_range.end <= usize::MAX - 199,
        crate::world::worldgenerator::content_quantity_ok(content),
    ensures
        r is Err <==> blob_settings_error_spec(*old(settings)) is Some,
        r is Err ==> Some(r->Err_0) == blob_settings_error_spec(*old(settings)) && *final(world)
            == *old(world) && *final(settings) == *old(settings),
        r is Ok ==> spawn_preserves(old(world)@, final(world)@, content),
        r is Ok ==> r->Ok_0 + final(settings).n_tiles.end == old(settings).n_tiles.end,
        r is Ok ==> r->Ok_0 <= old(settings).n_tiles.end,
        r is Ok ==> final(settings).n_blob.end <= old(settings).n_blob.end,
        final(settings).radius_range == old(settings).radius_range,
        final(settings).n_tiles.start == old(settings).n_tiles.start,
        final(settings).n_blob.start == old(settings).n_blob.start,
{
    if let Err(e) = errors(settings) {
        return Err(e);
    }

    let mut placed_total: usize = 0;

    loop
        invariant
            crate::world::worldgenerator::content_quantity_ok(content),
            settings.radius_range == old(settings).radius_range,
            settings.n_tiles.start == old(settings).n_tiles.start,
            settings.n_blob.start == old(settings).n_blob.start,
            settings.radius_range.start < settings.radius_range.end,
            settings.radius_range.end <= usize::MAX - 199,
            spawn_preserves(old(world)@, world@, content),
            placed_total + settings.n_tiles.end == old(settings).n_tiles.end,
            settings.n_blob.end <= old(settings).n_blob.end,
        decreases settings.n_blob.end,
    {
        let variation = crate::rng::rand_in_range(75, 125);
        let radius = crate::rng::rand_in_range(
            settings.radius_range.start,
            settings.radius_range.end,
        );
        let blob = Blob::default(world, world.len(), radius, variation, &content, geo);

        if blob.points.len() > settings.n_tiles.end || settings.n_blob.end < 1 {
            break;
        }

        settings.n_tiles.end = settings.n_tiles.end - blob.points.len();
        settings.n_blob.end = settings.n_blob.end - 1;
        placed_total = placed_total + blob.points.len();

        let ghost world_before = world@;
        let mut pi: usize = 0;
        while pi < blob.points.len()
            invariant
                pi <= blob.points@.len(),
                crate::world::worldgenerator::content_quantity_ok(content),
                spawn_preserves(old(world)@, world_before, content),
                spawn_preserves(old(world)@, world@, content),
                spawn_preserves(world_before, world@, content),
                forall|k: int|
                    0 <= k < blob.points@.len() ==> proper_cell(
                        world_before,
                        #[trigger] blob.points@[k],
                        content,
                    ),
            decreases blob.points@.len() - pi,
        {
            let point = blob.points[pi];
            let ghost pr = point.row as int;
            let ghost pc = point.col as int;
            proof {
                assert(proper_cell(world_before, point, content));
                assert(world_before[pr]@[pc].content == Content::Empty);
                assert(world_before.len() == old(world)@.len());
                assert(world_before[pr]@.len() == old(world)@[pr]@.len());
                assert(old(world)@[pr]@[pc].content == Content::Empty) by {
                    assert(world_before[pr]@[pc].content == Content::Empty);
                }
                assert(world_before[pr]@[pc].tile_type == old(world)@[pr]@[pc].tile_type);
                assert(can_hold_spec(old(world)@[pr]@[pc].tile_type, content));
                assert(world@.len() == world_before.len());
                assert(world@[pr]@.len() == world_before[pr]@.len());
            }
            let ghost pre_stamp = world@;
            set_tile_content(world, point.row, point.col, content.duplicate());
            proof {
                assert(world@[pr]@[pc].content == content);
                assert forall|i: int, j: int|
                    0 <= i < old(world)@.len() && 0 <= j < old(world)@[i]@.len() implies {
                    let cell = #[trigger] world@[i]@[j];
                    ||| cell.content == old(world)@[i]@[j].content
                    ||| {
                        &&& old(world)@[i]@[j].content == Content::Empty
                        &&& can_hold_spec(old(world)@[i]@[j].tile_type, cell.content)
                        &&& crate::world::tile::content_index_spec(cell.content)
                            == crate::world::tile::content_index_spec(content)
                        &&& crate::world::worldgenerator::content_quantity_ok(cell.content)
                    }
                } by {
                    if !(i == pr && j == pc) {
                        assert(world@[i]@[j] == pre_stamp[i]@[j]);
                    }
                }
                assert forall|i: int, j: int|
                    0 <= i < world_before.len() && 0 <= j < world_before[i]@.len() implies {
                    let cell = #[trigger] world@[i]@[j];
                    ||| cell.content == world_before[i]@[j].content
                    ||| {
                        &&& world_before[i]@[j].content == Content::Empty
                        &&& can_hold_spec(world_before[i]@[j].tile_type, cell.content)
                        &&& crate::world::tile::content_index_spec(cell.content)
                            == crate::world::tile::content_index_spec(content)
                        &&& crate::world::worldgenerator::content_quantity_ok(cell.content)
                    }
                } by {
                    if !(i == pr && j == pc) {
                        assert(world@[i]@[j] == pre_stamp[i]@[j]);
                    }
                }
            }
            pi += 1;
        }
    }
    Ok(placed_total)
}

} // verus!
