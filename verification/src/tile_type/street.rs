use vstd::prelude::*;

verus! {

use vstd::multiset::Multiset;
use crate::generator::GeometrySource;
use crate::tile_type::lava::elevation_square;
use crate::utils::{abs_diff_spec, slice_end_spec, slice_start_spec, slice_vec_2d, Coordinate, Slice};

/// An unordered pair of endpoints: one boundary segment of a Voronoi cell.
#[derive(Debug, Clone, Copy, PartialEq, Eq, Structural)]
pub struct Edge {
    pub start: Coordinate,
    pub end: Coordinate,
}

/// Whether two edges join the same pair of endpoints, in either order.
pub open spec fn edges_unordered_eq(a: Edge, b: Edge) -> bool {
    ||| (a.start == b.start && a.end == b.end)
    ||| (a.start == b.end && a.end == b.start)
}

impl Edge {
    /// Whether the two edges run between neighbouring pairs of endpoints.
    #[allow(dead_code)]
    pub fn is_near(&self, other: &Self) -> (r: bool)
        ensures
            r == ((self.start.is_neighbor_spec(other.start) && self.end.is_neighbor_spec(
                other.end,
            )) || (self.end.is_neighbor_spec(other.start) && self.start.is_neighbor_spec(
                other.end,
            ))),
    {
        (self.start.is_neighbor(&other.start) && self.end.is_neighbor(&other.end))
            || (self.end.is_neighbor(&other.start) && self.start.is_neighbor(&other.end))
    }
}

/// Whether two edges are the same unordered pair.
fn edge_matches(a: &Edge, b: &Edge) -> (r: bool)
    ensures
        r == edges_unordered_eq(*a, *b),
{
    (a.start == b.start && a.end == b.end) || (a.start == b.end && a.end == b.start)
}

/// Whether edge `m` of `edges` has an unordered-equal representative in
/// `out`.
pub open spec fn edge_covered(edges: Seq<Edge>, out: Seq<Edge>, m: int) -> bool {
    exists|k: int| 0 <= k < out.len() && edges_unordered_eq(edges[m], #[trigger] out[k])
}

/// Whether the list already holds this unordered pair.
fn contains_edge(v: &Vec<Edge>, e: &Edge) -> (r: bool)
    ensures
        r == exists|k: int| 0 <= k < v@.len() && edges_unordered_eq(#[trigger] v@[k], *e),
{
    let mut i: usize = 0;
    while i < v.len()
        invariant
            i <= v@.len(),
            forall|k: int| 0 <= k < i ==> !edges_unordered_eq(#[trigger] v@[k], *e),
        decreases v@.len() - i,
    {
        if edge_matches(&v[i], e) {
            proof {
                assert(edges_unordered_eq(v@[i as int], *e));
            }
            return true;
        }
        i += 1;
    }
    false
}

/// Keep one representative of every unordered endpoint pair, so a boundary
/// shared by two cells is rasterized once.
pub(crate) fn remove_duplicates(edges: Vec<Edge>) -> (out: Vec<Edge>)
    ensures
        forall|k: int| 0 <= k < out@.len() ==> edges@.contains(#[trigger] out@[k]),
        forall|k1: int, k2: int|
            0 <= k1 < k2 < out@.len() ==> !edges_unordered_eq(
                #[trigger] out@[k1],
                #[trigger] out@[k2],
            ),
        forall|m: int| 0 <= m < edges@.len() ==> #[trigger] edge_covered(edges@, out@, m),
{
    let mut out: Vec<Edge> = Vec::new();
    let mut i: usize = 0;
    while i < edges.len()
        invariant
            i <= edges@.len(),
            forall|k: int| 0 <= k < out@.len() ==> edges@.contains(#[trigger] out@[k]),
            forall|k1: int, k2: int|
                0 <= k1 < k2 < out@.len() ==> !edges_unordered_eq(
                    #[trigger] out@[k1],
                    #[trigger] out@[k2],
                ),
            forall|m: int| 0 <= m < i ==> #[trigger] edge_covered(edges@, out@, m),
        decreases edges@.len() - i,
    {
        let e = edges[i];
        if !contains_edge(&out, &e) {
            let ghost prev = out@;
            out.push(e);
            proof {
                assert(out@[out@.len() - 1] == e);
                assert(edges@[i as int] == e);
                assert(edges@.contains(e));
                assert(edges_unordered_eq(edges@[i as int], out@[out@.len() - 1]));
                assert(out@ == prev.push(e));
                assert(edge_covered(edges@, out@, i as int));
                assert forall|m: int|
                    0 <= m < i implies #[trigger] edge_covered(edges@, out@, m) by {
                    assert(edge_covered(edges@, prev, m));
                    let k = choose|k: int|
                        0 <= k < prev.len() && edges_unordered_eq(edges@[m], #[trigger] prev[k]);
                    assert(out@[k] == prev[k]);
                    assert(edges_unordered_eq(edges@[m], out@[k]));
                }
            }
        } else {
            proof {
                let k = choose|k: int|
                    0 <= k < out@.len() && edges_unordered_eq(#[trigger] out@[k], edges@[i as int]);
                assert(edges_unordered_eq(edges@[i as int], out@[k]));
                assert(edge_covered(edges@, out@, i as int));
            }
        }
        i += 1;
    }
    out
}

/// A coordinate within two cells of `size` is snapped to exactly `size`, the
/// numerical cleanup the diagram construction calls for.
pub open spec fn fix_coord_spec(c: usize, size: usize) -> usize {
    if c + 2 >= size {
        size
    } else {
        c
    }
}

/// Snap every edge endpoint near the field boundary to the exact boundary
/// value `size`.
pub(crate) fn fix_extremes(edges: Vec<Edge>, size: usize) -> (out: Vec<Edge>)
    requires
        size >= 2,
    ensures
        out@.len() == edges@.len(),
        forall|k: int|
            0 <= k < edges@.len() ==> (#[trigger] out@[k]) == (Edge {
                start: Coordinate {
                    row: fix_coord_spec(edges@[k].start.row, size),
                    col: fix_coord_spec(edges@[k].start.col, size),
                },
                end: Coordinate {
                    row: fix_coord_spec(edges@[k].end.row, size),
                    col: fix_coord_spec(edges@[k].end.col, size),
                },
            }),
{
    let mut out: Vec<Edge> = Vec::new();
    let mut i: usize = 0;
    while i < edges.len()
        invariant
            i <= edges@.len(),
            size >= 2,
            out@.len() == i,
            forall|k: int|
                0 <= k < i ==> (#[trigger] out@[k]) == (Edge {
                    start: Coordinate {
                        row: fix_coord_spec(edges@[k].start.row, size),
                        col: fix_coord_spec(edges@[k].start.col, size),
                    },
                    end: Coordinate {
                        row: fix_coord_spec(edges@[k].end.row, size),
                        col: fix_coord_spec(edges@[k].end.col, size),
                    },
                }),
        decreases edges@.len() - i,
    {
        let e = edges[i];
        let fixed = Edge {
            start: Coordinate {
                row: fix_one_coord(e.start.row, size),
                col: fix_one_coord(e.start.col, size),
            },
            end: Coordinate {
                row: fix_one_coord(e.end.row, size),
                col: fix_one_coord(e.end.col, size),
            },
        };
        out.push(fixed);
        i += 1;
    }
    out
}

fn fix_one_coord(c: usize, size: usize) -> (r: usize)
    requires
        size >= 2,
    ensures
        r == fix_coord_spec(c, size),
{
    if c >= size - 2 {
        size
    } else {
        c
    }
}

/// Whether both endpoints lie on the same side of the field boundary.
#[allow(dead_code)]
pub(crate) fn are_extremes_on_border(e1: Coordinate, e2: Coordinate, size: usize) -> (r: bool)
    ensures
        r == ((e1.col == 0 && e2.col == 0) || (e1.col == size && e2.col == size) || (e1.row == 0
            && e2.row == 0) || (e1.row == size && e2.row == size)),
{
    (e1.col == 0 && e2.col == 0) || (e1.col == size && e2.col == size) || (e1.row == 0 && e2.row
        == 0) || (e1.row == size && e2.row == size)
}

/// Column distance between two peaks.
pub(crate) fn get_delta_x(higher: &Coordinate, lower: &Coordinate) -> (d: usize)
    ensures
        d == abs_diff_spec(higher.col as int, lower.col as int),
{
    if higher.col >= lower.col {
        higher.col - lower.col
    } else {
        lower.col - higher.col
    }
}

/// Row distance between two peaks.
pub(crate) fn get_delta_y(higher: &Coordinate, lower: &Coordinate) -> (d: usize)
    ensures
        d == abs_diff_spec(higher.row as int, lower.row as int),
{
    if higher.row >= lower.row {
        higher.row - lower.row
    } else {
        lower.row - higher.row
    }
}

/// Whether a peak's row falls inside a horizontal band.
pub(crate) fn is_inside_horizontal_slice(local_maximum: &Coordinate, slice: &Slice) -> (r: bool)
    ensures
        r == (slice.start.row <= local_maximum.row <= slice.end.row),
{
    local_maximum.row >= slice.start.row && local_maximum.row <= slice.end.row
}

/// Whether a peak's column falls inside a vertical band.
pub(crate) fn is_inside_vertical_slice(local_maximum: &Coordinate, slice: &Slice) -> (r: bool)
    ensures
        r == (slice.start.col <= local_maximum.col <= slice.end.col),
{
    local_maximum.col >= slice.start.col && local_maximum.col <= slice.end.col
}

/// The horizontal band of width `band_width` centred on interior boundary
/// `row`, clipped at the top of the field.
pub(crate) fn get_horizontal_slice(
    map_len: usize,
    row: usize,
    qnt_per_slice: usize,
    band_width: usize,
) -> (s: Slice)
    requires
        map_len >= 1,
        row * qnt_per_slice + band_width / 2 <= usize::MAX,
    ensures
        s.start.row == (if row * qnt_per_slice >= band_width / 2 {
            row * qnt_per_slice - band_width / 2
        } else {
            0
        }),
        s.start.col == 0,
        s.end.row == row * qnt_per_slice + band_width / 2,
        s.end.col == map_len - 1,
{
    let mid = row * qnt_per_slice;
    let half = band_width / 2;
    Slice {
        start: Coordinate { row: mid.saturating_sub(half), col: 0 },
        end: Coordinate { row: mid + half, col: map_len - 1 },
    }
}

/// The vertical band of width `band_width` centred on interior boundary
/// `col`, clipped at the left of the field.
pub(crate) fn get_vertical_slice(
    map_len: usize,
    col: usize,
    qnt_per_slice: usize,
    band_width: usize,
) -> (s: Slice)
    requires
        map_len >= 1,
        col * qnt_per_slice + band_width / 2 <= usize::MAX,
    ensures
        s.start.col == (if col * qnt_per_slice >= band_width / 2 {
            col * qnt_per_slice - band_width / 2
        } else {
            0
        }),
        s.start.row == 0,
        s.end.col == col * qnt_per_slice + band_width / 2,
        s.end.row == map_len - 1,
{
    let mid = col * qnt_per_slice;
    let half = band_width / 2;
    Slice {
        start: Coordinate { row: 0, col: mid.saturating_sub(half) },
        end: Coordinate { row: map_len - 1, col: mid + half },
    }
}

/// Whether every peak of the list lies on the elevation field.
pub open spec fn peaks_in_bounds(peaks: Seq<Coordinate>, len: int) -> bool {
    forall|k: int|
        0 <= k < peaks.len() ==> (#[trigger] peaks[k]).row < len && peaks[k].col < len
}

/// Whether `p` lies in the half-open rectangle `[r0, r1) x [c0, c1)` and its
/// elevation is at least that of every cell of the rectangle.
pub open spec fn max_of_rect(
    m: Seq<Vec<i64>>,
    p: Coordinate,
    r0: int,
    c0: int,
    r1: int,
    c1: int,
) -> bool {
    &&& r0 <= p.row < r1
    &&& c0 <= p.col < c1
    &&& forall|r: int, c: int|
        r0 <= r < r1 && c0 <= c < c1 ==> m[p.row as int]@[p.col as int] >= #[trigger] m[r]@[c]
}

/// The peak property of slice `s` of an `n` x `n` cut: `p` is the maximum of
/// the slice's scanned rectangle and rises above the threshold.
pub open spec fn slice_peak_at(
    m: Seq<Vec<i64>>,
    n: usize,
    s: int,
    p: Coordinate,
    threshold: i64,
) -> bool {
    let len = m.len() as int;
    let q = len / n as int;
    let y = s / n as int;
    let x = s % n as int;
    &&& max_of_rect(
        m,
        p,
        slice_start_spec(y, q),
        slice_start_spec(x, q),
        slice_end_spec(y, q, len),
        slice_end_spec(x, q, len),
    )
    &&& m[p.row as int]@[p.col as int] > threshold
}

/// Whether slice `s` has a cell above the threshold that dominates the
/// slice's scanned rectangle.
pub open spec fn qualifying_slice(m: Seq<Vec<i64>>, n: usize, s: int, threshold: i64) -> bool {
    exists|p: Coordinate| #[trigger] slice_peak_at(m, n, s, p, threshold)
}

/// A slice assignment for the returned peaks: strictly increasing slice
/// indices, so there is at most one peak per slice; each peak is its slice's
/// above-threshold scanned maximum; and every qualifying slice contributes
/// one.
pub open spec fn peaks_slice_assignment(
    ids: Seq<int>,
    maxima: Seq<Coordinate>,
    m: Seq<Vec<i64>>,
    n: usize,
    threshold: i64,
) -> bool {
    &&& ids.len() == maxima.len()
    &&& forall|k1: int, k2: int| 0 <= k1 < k2 < ids.len() ==> ids[k1] < ids[k2]
    &&& forall|k: int| 0 <= k < ids.len() ==> 0 <= #[trigger] ids[k] < n * n
    &&& forall|k: int|
        0 <= k < ids.len() ==> #[trigger] slice_peak_at(m, n, ids[k], maxima[k], threshold)
    &&& forall|s: int|
        0 <= s < n * n && #[trigger] qualifying_slice(m, n, s, threshold) ==> ids.contains(s)
}

/// The highest cell of each grid slice, kept when it rises above the
/// threshold: at most one peak per slice, in slice order, each its slice's
/// above-threshold scanned maximum, and one for every slice that has such a
/// maximum.
pub(crate) fn get_local_maxima(
    elevation_map: &Vec<Vec<i64>>,
    n_slice_side: usize,
    lower_threshold: i64,
) -> (maxima: Vec<Coordinate>)
    requires
        elevation_square(elevation_map@),
        1 <= n_slice_side <= elevation_map@.len(),
    ensures
        peaks_in_bounds(maxima@, elevation_map@.len() as int),
        forall|k: int|
            0 <= k < maxima@.len() ==> elevation_map@[(#[trigger] maxima@[k]).row as int]@[maxima@[
                k
            ].col as int] > lower_threshold,
        maxima@.len() <= n_slice_side * n_slice_side,
        exists|ids: Seq<int>|
            #[trigger] peaks_slice_assignment(
                ids,
                maxima@,
                elevation_map@,
                n_slice_side,
                lower_threshold,
            ),
{
    let len = elevation_map.len();
    let mut maxima: Vec<Coordinate> = Vec::new();
    let slices = slice_vec_2d(elevation_map, n_slice_side);
    let ghost mut ids: Seq<int> = Seq::empty();

    proof {
        assert(len as int / n_slice_side as int >= 1) by (nonlinear_arith)
            requires
                1 <= n_slice_side <= len,
        ;
    }

    let mut s: usize = 0;
    while s < slices.len()
        invariant
            len == elevation_map@.len(),
            elevation_square(elevation_map@),
            1 <= n_slice_side <= len,
            len as int / n_slice_side as int >= 1,
            slices@.len() == n_slice_side * n_slice_side,
            s <= slices@.len(),
            forall|k: int|
                0 <= k < slices@.len() ==> {
                    let q = len as int / n_slice_side as int;
                    let y = k / n_slice_side as int;
                    let x = k % n_slice_side as int;
                    &&& (#[trigger] slices@[k]).start.row == slice_start_spec(y, q)
                    &&& slices@[k].start.col == slice_start_spec(x, q)
                    &&& slices@[k].end.row == slice_end_spec(y, q, len as int)
                    &&& slices@[k].end.col == slice_end_spec(x, q, len as int)
                },
            peaks_in_bounds(maxima@, len as int),
            forall|k: int|
                0 <= k < maxima@.len() ==> elevation_map@[(
                #[trigger] maxima@[k]).row as int]@[maxima@[k].col as int] > lower_threshold,
            maxima@.len() <= s,
            ids.len() == maxima@.len(),
            forall|k1: int, k2: int| 0 <= k1 < k2 < ids.len() ==> ids[k1] < ids[k2],
            forall|k: int| 0 <= k < ids.len() ==> 0 <= #[trigger] ids[k] < s,
            forall|k: int|
                0 <= k < ids.len() ==> #[trigger] slice_peak_at(
                    elevation_map@,
                    n_slice_side,
                    ids[k],
                    maxima@[k],
                    lower_threshold,
                ),
            forall|ss: int|
                0 <= ss < s && #[trigger] qualifying_slice(
                    elevation_map@,
                    n_slice_side,
                    ss,
                    lower_threshold,
                ) ==> ids.contains(ss),
        decreases slices@.len() - s,
    {
        let slice = &slices[s];
        let ghost q = len as int / n_slice_side as int;
        let ghost y = s as int / n_slice_side as int;
        let ghost x = s as int % n_slice_side as int;
        proof {
            assert(0 <= y < n_slice_side && 0 <= x < n_slice_side) by (nonlinear_arith)
                requires
                    0 <= s < n_slice_side * n_slice_side,
                    n_slice_side >= 1,
                    y == s as int / n_slice_side as int,
                    x == s as int % n_slice_side as int,
            ;
            assert(n_slice_side as int * q <= len) by (nonlinear_arith)
                requires
                    n_slice_side >= 1,
                    len >= n_slice_side,
                    q == len as int / n_slice_side as int,
            ;
            assert(y * q + q <= len && x * q + q <= len) by (nonlinear_arith)
                requires
                    0 <= y < n_slice_side,
                    0 <= x < n_slice_side,
                    q >= 1,
                    q == len as int / n_slice_side as int,
                    n_slice_side as int * q <= len,
            ;
            assert(slice.start.row < len && slice.start.col < len && slice.end.row <= len
                && slice.end.col <= len);
        }
        let mut found_local_maximum = false;
        let mut max_row = slice.start.row;
        let mut max_col = slice.start.col;

        let mut row = slice.start.row;
        while row < slice.end.row
            invariant
                len == elevation_map@.len(),
                elevation_square(elevation_map@),
                slice.start.row <= row,
                slice.start.row < len,
                slice.start.col < len,
                slice.end.row <= len,
                slice.end.col <= len,
                max_row < len,
                max_col < len,
                found_local_maximum ==> slice.start.row <= max_row < slice.end.row
                    && slice.start.col <= max_col < slice.end.col,
                !found_local_maximum ==> max_row == slice.start.row && max_col
                    == slice.start.col,
                !found_local_maximum ==> row == slice.start.row || slice.start.col
                    >= slice.end.col,
                forall|r: int, c: int|
                    slice.start.row <= r < row && slice.start.col <= c < slice.end.col
                        ==> elevation_map@[max_row as int]@[max_col as int] >= #[trigger]
                        elevation_map@[r]@[c],
            decreases slice.end.row - row,
        {
            let mut col = slice.start.col;
            while col < slice.end.col
                invariant
                    len == elevation_map@.len(),
                    elevation_square(elevation_map@),
                    slice.start.row <= row < slice.end.row,
                    slice.start.col <= col,
                    slice.start.row < len,
                    slice.start.col < len,
                    slice.end.row <= len,
                    slice.end.col <= len,
                    max_row < len,
                    max_col < len,
                    found_local_maximum ==> slice.start.row <= max_row < slice.end.row
                        && slice.start.col <= max_col < slice.end.col,
                    !found_local_maximum ==> max_row == slice.start.row && max_col
                        == slice.start.col,
                    !found_local_maximum ==> (row == slice.start.row && col
                        == slice.start.col) || slice.start.col >= slice.end.col,
                    forall|r: int, c: int|
                        slice.start.row <= r < row && slice.start.col <= c < slice.end.col
                            ==> elevation_map@[max_row as int]@[max_col as int] >= #[trigger]
                            elevation_map@[r]@[c],
                    forall|c: int|
                        slice.start.col <= c < col ==> elevation_map@[max_row as int]@[
                            max_col as int
                        ] >= #[trigger] elevation_map@[row as int]@[c],
                decreases slice.end.col - col,
            {
                if elevation_map[row][col] >= elevation_map[max_row][max_col] {
                    max_row = row;
                    max_col = col;
                    found_local_maximum = true;
                }
                col += 1;
            }
            row += 1;
        }

        if found_local_maximum && elevation_map[max_row][max_col] > lower_threshold {
            proof {
                assert(max_of_rect(
                    elevation_map@,
                    Coordinate { row: max_row, col: max_col },
                    slice_start_spec(y, q),
                    slice_start_spec(x, q),
                    slice_end_spec(y, q, len as int),
                    slice_end_spec(x, q, len as int),
                ));
                assert(slice_peak_at(
                    elevation_map@,
                    n_slice_side,
                    s as int,
                    Coordinate { row: max_row, col: max_col },
                    lower_threshold,
                ));
                let prev_ids = ids;
                ids = ids.push(s as int);
                assert(ids[ids.len() - 1] == s as int);
                assert forall|ss: int| prev_ids.contains(ss) implies ids.contains(ss) by {
                    let k = choose|k: int| 0 <= k < prev_ids.len() && prev_ids[k] == ss;
                    assert(ids[k] == ss);
                }
                assert(ids.contains(s as int));
            }
            maxima.push(Coordinate { row: max_row, col: max_col });
        } else {
            proof {
                assert forall|p: Coordinate|
                    !slice_peak_at(
                        elevation_map@,
                        n_slice_side,
                        s as int,
                        p,
                        lower_threshold,
                    ) by {
                    if !found_local_maximum {
                        assert(slice.start.row >= slice.end.row || slice.start.col
                            >= slice.end.col);
                    } else {
                        if max_of_rect(
                            elevation_map@,
                            p,
                            slice_start_spec(y, q),
                            slice_start_spec(x, q),
                            slice_end_spec(y, q, len as int),
                            slice_end_spec(x, q, len as int),
                        ) {
                            assert(elevation_map@[p.row as int]@[p.col as int]
                                >= elevation_map@[max_row as int]@[max_col as int]);
                            assert(elevation_map@[max_row as int]@[max_col as int]
                                >= elevation_map@[p.row as int]@[p.col as int]);
                        }
                    }
                }
                assert(!qualifying_slice(
                    elevation_map@,
                    n_slice_side,
                    s as int,
                    lower_threshold,
                ));
            }
        }
        s += 1;
    }
    proof {
        assert(peaks_slice_assignment(
            ids,
            maxima@,
            elevation_map@,
            n_slice_side,
            lower_threshold,
        ));
    }
    maxima
}

/// Order peaks by falling elevation, by repeatedly extracting the highest.
fn sort_by_elevation_desc(peaks: Vec<Coordinate>, elevation_map: &Vec<Vec<i64>>) -> (out: Vec<
    Coordinate,
>)
    requires
        elevation_square(elevation_map@),
        peaks_in_bounds(peaks@, elevation_map@.len() as int),
    ensures
        peaks_in_bounds(out@, elevation_map@.len() as int),
        out@.len() == peaks@.len(),
        out@.to_multiset() == peaks@.to_multiset(),
        forall|k1: int, k2: int|
            0 <= k1 < k2 < out@.len() ==> elevation_map@[(
            #[trigger] out@[k1]).row as int]@[out@[k1].col as int] >= elevation_map@[(
            #[trigger] out@[k2]).row as int]@[out@[k2].col as int],
{
    let ghost total = peaks@.len();
    let ghost input_peaks = peaks@;
    let mut scratch = peaks;
    let mut out: Vec<Coordinate> = Vec::new();

    proof {
        broadcast use vstd::seq_lib::group_to_multiset_ensures;
        broadcast use vstd::multiset::group_multiset_axioms;

        assert(out@.to_multiset().add(scratch@.to_multiset()) =~= input_peaks.to_multiset());
    }

    while scratch.len() > 0
        invariant
            elevation_square(elevation_map@),
            peaks_in_bounds(scratch@, elevation_map@.len() as int),
            peaks_in_bounds(out@, elevation_map@.len() as int),
            out@.len() + scratch@.len() == total,
            out@.to_multiset().add(scratch@.to_multiset()) == input_peaks.to_multiset(),
            forall|k1: int, k2: int|
                0 <= k1 < k2 < out@.len() ==> elevation_map@[(
                #[trigger] out@[k1]).row as int]@[out@[k1].col as int] >= elevation_map@[(
                #[trigger] out@[k2]).row as int]@[out@[k2].col as int],
            forall|k: int, m: int|
                0 <= k < out@.len() && 0 <= m < scratch@.len() ==> elevation_map@[(
                #[trigger] out@[k]).row as int]@[out@[k].col as int] >= elevation_map@[(
                #[trigger] scratch@[m]).row as int]@[scratch@[m].col as int],
        decreases scratch@.len(),
    {
        let mut best: usize = 0;
        let mut m: usize = 1;
        while m < scratch.len()
            invariant
                elevation_square(elevation_map@),
                peaks_in_bounds(scratch@, elevation_map@.len() as int),
                scratch@.len() > 0,
                best < scratch@.len(),
                m <= scratch@.len(),
                forall|k: int|
                    0 <= k < m ==> elevation_map@[(
                    #[trigger] scratch@[best as int]).row as int]@[scratch@[best as int].col as int]
                        >= elevation_map@[(#[trigger] scratch@[k]).row as int]@[scratch@[
                        k
                    ].col as int],
            decreases scratch@.len() - m,
        {
            let a = scratch[m];
            let b = scratch[best];
            if elevation_map[a.row][a.col] > elevation_map[b.row][b.col] {
                best = m;
            }
            m += 1;
        }
        let ghost pre_scratch = scratch@;
        let ghost pre_out = out@;
        let chosen = scratch.remove(best);
        out.push(chosen);
        proof {
            broadcast use vstd::seq_lib::group_to_multiset_ensures;
            broadcast use vstd::multiset::group_multiset_axioms;

            assert(scratch@ == pre_scratch.remove(best as int));
            assert(scratch@.to_multiset() =~= pre_scratch.to_multiset().remove(chosen));
            assert(out@.to_multiset() =~= pre_out.to_multiset().insert(chosen));
            assert(pre_scratch.to_multiset().count(chosen) > 0) by {
                assert(pre_scratch.contains(chosen));
            }
            assert(out@.to_multiset().add(scratch@.to_multiset()) =~= input_peaks.to_multiset());
        }
    }
    proof {
        broadcast use vstd::seq_lib::group_to_multiset_ensures;
        broadcast use vstd::multiset::group_multiset_axioms;

        assert(scratch@.to_multiset() =~= Multiset::<Coordinate>::empty()) by {
            assert(scratch@ =~= Seq::<Coordinate>::empty());
        }
        assert(out@.to_multiset() =~= input_peaks.to_multiset());
        assert(out@.len() == out@.to_multiset().len());
        assert(input_peaks.len() == input_peaks.to_multiset().len());
    }
    out
}

/// The band-axis distance between two peaks: columns for vertical bands,
/// rows for horizontal ones.
pub open spec fn axis_delta(vertical: bool, a: Coordinate, b: Coordinate) -> int {
    if vertical {
        abs_diff_spec(a.col as int, b.col as int)
    } else {
        abs_diff_spec(a.row as int, b.row as int)
    }
}

/// Whether a kept peak within the band width of `p` along the band's axis
/// dominates it in elevation.
pub open spec fn dominated_by_kept(
    kept: Seq<Coordinate>,
    p: Coordinate,
    vertical: bool,
    band: int,
    m: Seq<Vec<i64>>,
) -> bool {
    exists|k: int|
        0 <= k < kept.len() && axis_delta(vertical, #[trigger] kept[k], p) <= band && m[kept[
            k
        ].row as int]@[kept[k].col as int] >= m[p.row as int]@[p.col as int]
}

/// Merge peaks inside one band: keep them from highest down, dropping any
/// peak within `band_width` of an already-kept one along the band's axis.
/// `vertical` selects vertical bands, compared by column; horizontal bands
/// compare by row.  Every kept peak lies in the band, the result falls in
/// elevation, and every in-band peak is kept or lies within the band width
/// of a kept peak at least as high.
pub(crate) fn combine_local_maxima_in_same_slice(
    index: usize,
    vertical: bool,
    elevation_map: &Vec<Vec<i64>>,
    all_local_maxima: &Vec<Coordinate>,
    qnt_per_slice: usize,
    band_width: usize,
) -> (kept: Vec<Coordinate>)
    requires
        elevation_square(elevation_map@),
        elevation_map@.len() >= 1,
        peaks_in_bounds(all_local_maxima@, elevation_map@.len() as int),
        index * qnt_per_slice + band_width / 2 <= usize::MAX,
    ensures
        peaks_in_bounds(kept@, elevation_map@.len() as int),
        forall|k: int| 0 <= k < kept@.len() ==> all_local_maxima@.contains(#[trigger] kept@[k]),
        forall|k: int|
            0 <= k < kept@.len() ==> inside_band_spec(
                #[trigger] kept@[k],
                vertical,
                index as int,
                qnt_per_slice as int,
                band_width as int,
            ),
        forall|k1: int, k2: int|
            0 <= k1 < k2 < kept@.len() ==> axis_delta(
                vertical,
                #[trigger] kept@[k1],
                #[trigger] kept@[k2],
            ) > band_width,
        forall|k1: int, k2: int|
            0 <= k1 < k2 < kept@.len() ==> elevation_map@[(
            #[trigger] kept@[k1]).row as int]@[kept@[k1].col as int] >= elevation_map@[(
            #[trigger] kept@[k2]).row as int]@[kept@[k2].col as int],
        forall|mi: int|
            0 <= mi < all_local_maxima@.len() && #[trigger] inside_band_spec(
                all_local_maxima@[mi],
                vertical,
                index as int,
                qnt_per_slice as int,
                band_width as int,
            ) ==> kept@.contains(all_local_maxima@[mi]) || dominated_by_kept(
                kept@,
                all_local_maxima@[mi],
                vertical,
                band_width as int,
                elevation_map@,
            ),
{
    let len = elevation_map.len();
    let slice = if vertical {
        get_vertical_slice(len, index, qnt_per_slice, band_width)
    } else {
        get_horizontal_slice(len, index, qnt_per_slice, band_width)
    };

    let mut in_slice: Vec<Coordinate> = Vec::new();
    let mut i: usize = 0;
    while i < all_local_maxima.len()
        invariant
            i <= all_local_maxima@.len(),
            peaks_in_bounds(all_local_maxima@, elevation_map@.len() as int),
            peaks_in_bounds(in_slice@, elevation_map@.len() as int),
            vertical ==> slice.start.row == 0 && slice.end.col == index * qnt_per_slice
                + band_width / 2 && slice.start.col as int == (if index as int
                * qnt_per_slice as int >= band_width as int / 2 {
                index as int * qnt_per_slice as int - band_width as int / 2
            } else {
                0int
            }),
            !vertical ==> slice.start.col == 0 && slice.end.row == index * qnt_per_slice
                + band_width / 2 && slice.start.row as int == (if index as int
                * qnt_per_slice as int >= band_width as int / 2 {
                index as int * qnt_per_slice as int - band_width as int / 2
            } else {
                0int
            }),
            forall|k: int|
                0 <= k < in_slice@.len() ==> all_local_maxima@.contains(
                    #[trigger] in_slice@[k],
                ),
            forall|k: int|
                0 <= k < in_slice@.len() ==> inside_band_spec(
                    #[trigger] in_slice@[k],
                    vertical,
                    index as int,
                    qnt_per_slice as int,
                    band_width as int,
                ),
            forall|m: int|
                0 <= m < i && #[trigger] inside_band_spec(
                    all_local_maxima@[m],
                    vertical,
                    index as int,
                    qnt_per_slice as int,
                    band_width as int,
                ) ==> in_slice@.contains(all_local_maxima@[m]),
        decreases all_local_maxima@.len() - i,
    {
        let p = all_local_maxima[i];
        let inside = if vertical {
            is_inside_vertical_slice(&p, &slice)
        } else {
            is_inside_horizontal_slice(&p, &slice)
        };
        proof {
            assert(inside == inside_band_spec(
                p,
                vertical,
                index as int,
                qnt_per_slice as int,
                band_width as int,
            ));
        }
        if inside {
            let ghost prev = in_slice@;
            in_slice.push(p);
            proof {
                assert(all_local_maxima@[i as int] == p);
                assert(all_local_maxima@.contains(p));
                assert(in_slice@[in_slice@.len() - 1] == p);
                assert(in_slice@.contains(p));
                assert forall|x: Coordinate| prev.contains(x) implies in_slice@.contains(x) by {
                    let k = choose|k: int| 0 <= k < prev.len() && prev[k] == x;
                    assert(in_slice@[k] == x);
                }
            }
        }
        i += 1;
    }

    let ghost in_slice_view = in_slice@;
    let sorted = sort_by_elevation_desc(in_slice, elevation_map);
    proof {
        broadcast use vstd::seq_lib::group_to_multiset_ensures;

        assert forall|k: int|
            0 <= k < sorted@.len() implies all_local_maxima@.contains(#[trigger] sorted@[k])
            && inside_band_spec(
            sorted@[k],
            vertical,
            index as int,
            qnt_per_slice as int,
            band_width as int,
        ) by {
            let p = sorted@[k];
            assert(sorted@.contains(p));
            assert(sorted@.to_multiset().count(p) > 0);
            assert(in_slice_view.to_multiset().count(p) > 0);
            assert(in_slice_view.contains(p));
            let m = choose|m: int| 0 <= m < in_slice_view.len() && in_slice_view[m] == p;
        }
        assert forall|x: Coordinate| in_slice_view.contains(x) implies sorted@.contains(x) by {
            assert(in_slice_view.to_multiset().count(x) > 0);
            assert(sorted@.to_multiset().count(x) > 0);
        }
    }

    let mut kept: Vec<Coordinate> = Vec::new();
    let mut j: usize = 0;
    while j < sorted.len()
        invariant
            j <= sorted@.len(),
            peaks_in_bounds(sorted@, elevation_map@.len() as int),
            peaks_in_bounds(kept@, elevation_map@.len() as int),
            forall|k: int|
                0 <= k < sorted@.len() ==> all_local_maxima@.contains(#[trigger] sorted@[k]),
            forall|k: int|
                0 <= k < sorted@.len() ==> inside_band_spec(
                    #[trigger] sorted@[k],
                    vertical,
                    index as int,
                    qnt_per_slice as int,
                    band_width as int,
                ),
            forall|k1: int, k2: int|
                0 <= k1 < k2 < sorted@.len() ==> elevation_map@[(
                #[trigger] sorted@[k1]).row as int]@[sorted@[k1].col as int] >= elevation_map@[(
                #[trigger] sorted@[k2]).row as int]@[sorted@[k2].col as int],
            forall|k: int|
                0 <= k < kept@.len() ==> all_local_maxima@.contains(#[trigger] kept@[k]),
            forall|k: int|
                0 <= k < kept@.len() ==> inside_band_spec(
                    #[trigger] kept@[k],
                    vertical,
                    index as int,
                    qnt_per_slice as int,
                    band_width as int,
                ),
            forall|k1: int, k2: int|
                0 <= k1 < k2 < kept@.len() ==> axis_delta(
                    vertical,
                    #[trigger] kept@[k1],
                    #[trigger] kept@[k2],
                ) > band_width,
            forall|k1: int, k2: int|
                0 <= k1 < k2 < kept@.len() ==> elevation_map@[(
                #[trigger] kept@[k1]).row as int]@[kept@[k1].col as int] >= elevation_map@[(
                #[trigger] kept@[k2]).row as int]@[kept@[k2].col as int],
            forall|k: int, jj: int|
                0 <= k < kept@.len() && j <= jj < sorted@.len() ==> elevation_map@[(
                #[trigger] kept@[k]).row as int]@[kept@[k].col as int] >= elevation_map@[(
                #[trigger] sorted@[jj]).row as int]@[sorted@[jj].col as int],
            forall|jj: int|
                0 <= jj < j ==> kept@.contains(#[trigger] sorted@[jj]) || dominated_by_kept(
                    kept@,
                    sorted@[jj],
                    vertical,
                    band_width as int,
                    elevation_map@,
                ),
        decreases sorted@.len() - j,
    {
        let p = sorted[j];
        let mut near_kept = false;
        let mut k: usize = 0;
        while k < kept.len()
            invariant
                k <= kept@.len(),
                j < sorted@.len(),
                p == sorted@[j as int],
                peaks_in_bounds(kept@, elevation_map@.len() as int),
                p.row < elevation_map@.len() && p.col < elevation_map@.len(),
                forall|m: int|
                    0 <= m < kept@.len() ==> elevation_map@[(
                    #[trigger] kept@[m]).row as int]@[kept@[m].col as int] >= elevation_map@[
                        p.row as int
                    ]@[p.col as int],
                near_kept ==> dominated_by_kept(
                    kept@,
                    p,
                    vertical,
                    band_width as int,
                    elevation_map@,
                ),
                !near_kept ==> forall|m: int|
                    0 <= m < k ==> axis_delta(vertical, #[trigger] kept@[m], p) > band_width,
            decreases kept@.len() - k,
        {
            let delta = if vertical {
                get_delta_x(&kept[k], &p)
            } else {
                get_delta_y(&kept[k], &p)
            };
            proof {
                assert(delta as int == axis_delta(vertical, kept@[k as int], p));
            }
            if delta <= band_width {
                near_kept = true;
                proof {
                    assert(dominated_by_kept(
                        kept@,
                        p,
                        vertical,
                        band_width as int,
                        elevation_map@,
                    ));
                }
            }
            k += 1;
        }
        if !near_kept {
            let ghost prev_kept = kept@;
            kept.push(p);
            proof {
                assert(sorted@[j as int] == p);
                assert(kept@[kept@.len() - 1] == p);
                assert(kept@.contains(p));
                assert forall|x: Coordinate| prev_kept.contains(x) implies kept@.contains(x) by {
                    let kk = choose|kk: int| 0 <= kk < prev_kept.len() && prev_kept[kk] == x;
                    assert(kept@[kk] == x);
                }
                assert forall|jj: int|
                    0 <= jj < j && dominated_by_kept(
                        prev_kept,
                        sorted@[jj],
                        vertical,
                        band_width as int,
                        elevation_map@,
                    ) implies dominated_by_kept(
                    kept@,
                    #[trigger] sorted@[jj],
                    vertical,
                    band_width as int,
                    elevation_map@,
                ) by {
                    let kk = choose|kk: int|
                        0 <= kk < prev_kept.len() && axis_delta(
                            vertical,
                            #[trigger] prev_kept[kk],
                            sorted@[jj],
                        ) <= band_width && elevation_map@[prev_kept[kk].row as int]@[prev_kept[
                            kk
                        ].col as int] >= elevation_map@[sorted@[jj].row as int]@[sorted@[
                            jj
                        ].col as int];
                    assert(kept@[kk] == prev_kept[kk]);
                }
            }
        } else {
            proof {
                assert(dominated_by_kept(
                    kept@,
                    sorted@[j as int],
                    vertical,
                    band_width as int,
                    elevation_map@,
                ));
            }
        }
        j += 1;
    }
    proof {
        assert forall|mi: int|
            0 <= mi < all_local_maxima@.len() && #[trigger] inside_band_spec(
                all_local_maxima@[mi],
                vertical,
                index as int,
                qnt_per_slice as int,
                band_width as int,
            ) implies kept@.contains(all_local_maxima@[mi]) || dominated_by_kept(
            kept@,
            all_local_maxima@[mi],
            vertical,
            band_width as int,
            elevation_map@,
        ) by {
            let p = all_local_maxima@[mi];
            assert(in_slice_view.contains(p));
            assert(sorted@.contains(p));
            let jj = choose|jj: int| 0 <= jj < sorted@.len() && sorted@[jj] == p;
        }
    }
    kept
}

/// Whether a peak falls inside the band of width `band` centred on interior
/// boundary `index` of slices of width `q`: vertical bands compare the
/// column, horizontal bands the row.
pub open spec fn inside_band_spec(p: Coordinate, vertical: bool, index: int, q: int, band: int) -> bool {
    let mid = index * q;
    let lo = if mid >= band / 2 {
        mid - band / 2
    } else {
        0
    };
    let hi = mid + band / 2;
    if vertical {
        lo <= p.col <= hi
    } else {
        lo <= p.row <= hi
    }
}

/// Whether a peak falls inside any interior band, in either orientation.
pub open spec fn inside_any_band_spec(p: Coordinate, n: int, q: int, band: int) -> bool {
    exists|vertical: bool, index: int| 1 <= index < n && inside_band_spec(p, vertical, index, q, band)
}

/// Whether any two distinct survivors lying inside one band are separated by
/// more than the band width along that band's axis.
pub open spec fn band_separated(
    surv: Seq<Coordinate>,
    vertical: bool,
    index: int,
    q: int,
    band: int,
) -> bool {
    forall|p1: Coordinate, p2: Coordinate|
        #![trigger inside_band_spec(p1, vertical, index, q, band), inside_band_spec(p2, vertical, index, q, band)]
        surv.contains(p1) && surv.contains(p2) && p1 != p2 && inside_band_spec(
            p1,
            vertical,
            index,
            q,
            band,
        ) && inside_band_spec(p2, vertical, index, q, band) ==> axis_delta(vertical, p1, p2)
            > band
}

/// Merge near-duplicate peaks along every interior band boundary, in both
/// orientations: within each band, a lower peak within `band_width` of a
/// kept higher peak is dropped; peaks outside the bands survive untouched.
pub(crate) fn combine_local_maxima(
    elevation_map: &Vec<Vec<i64>>,
    all_local_maxima: &Vec<Coordinate>,
    n_slice_per_side: usize,
    band_width: usize,
) -> (surviving: Vec<Coordinate>)
    requires
        elevation_square(elevation_map@),
        elevation_map@.len() >= 1,
        n_slice_per_side >= 1,
        peaks_in_bounds(all_local_maxima@, elevation_map@.len() as int),
        n_slice_per_side * (elevation_map@.len() as int / n_slice_per_side as int) + band_width
            / 2 <= usize::MAX,
    ensures
        peaks_in_bounds(surviving@, elevation_map@.len() as int),
        forall|k: int|
            0 <= k < surviving@.len() ==> all_local_maxima@.contains(#[trigger] surviving@[k]),
        forall|p: Coordinate|
            all_local_maxima@.contains(p) && !inside_any_band_spec(
                p,
                n_slice_per_side as int,
                elevation_map@.len() as int / n_slice_per_side as int,
                band_width as int,
            ) ==> surviving@.contains(p),
        forall|vertical: bool, idx: int|
            1 <= idx < n_slice_per_side ==> #[trigger] band_separated(
                surviving@,
                vertical,
                idx,
                elevation_map@.len() as int / n_slice_per_side as int,
                band_width as int,
            ),
{
    let len = elevation_map.len();
    let qnt_per_slice = len / n_slice_per_side;

    let mut surviving: Vec<Coordinate> = Vec::new();
    let mut i: usize = 0;
    while i < all_local_maxima.len()
        invariant
            i <= all_local_maxima@.len(),
            peaks_in_bounds(all_local_maxima@, len as int),
            peaks_in_bounds(surviving@, len as int),
            len == elevation_map@.len(),
            surviving@ == all_local_maxima@.take(i as int),
        decreases all_local_maxima@.len() - i,
    {
        surviving.push(all_local_maxima[i]);
        proof {
            assert(surviving@ =~= all_local_maxima@.take(i + 1));
        }
        i += 1;
    }
    proof {
        assert(surviving@ =~= all_local_maxima@);
    }

    let mut orientation: usize = 0;
    while orientation < 2
        invariant
            len == elevation_map@.len(),
            elevation_square(elevation_map@),
            len >= 1,
            n_slice_per_side >= 1,
            qnt_per_slice == len as int / n_slice_per_side as int,
            n_slice_per_side * qnt_per_slice + band_width / 2 <= usize::MAX,
            peaks_in_bounds(surviving@, len as int),
            forall|k: int|
                0 <= k < surviving@.len() ==> all_local_maxima@.contains(
                    #[trigger] surviving@[k],
                ),
            forall|p: Coordinate|
                all_local_maxima@.contains(p) && !inside_any_band_spec(
                    p,
                    n_slice_per_side as int,
                    qnt_per_slice as int,
                    band_width as int,
                ) ==> surviving@.contains(p),
            forall|v: bool, idx: int|
                1 <= idx < n_slice_per_side && (if v {
                    0int
                } else {
                    1int
                }) < orientation ==> #[trigger] band_separated(
                    surviving@,
                    v,
                    idx,
                    qnt_per_slice as int,
                    band_width as int,
                ),
        decreases 2 - orientation,
    {
        let vertical = orientation == 0;
        let mut index: usize = 1;
        while index < n_slice_per_side
            invariant
                len == elevation_map@.len(),
                elevation_square(elevation_map@),
                len >= 1,
                index >= 1,
                n_slice_per_side >= 1,
                qnt_per_slice == len as int / n_slice_per_side as int,
                n_slice_per_side * qnt_per_slice + band_width / 2 <= usize::MAX,
                peaks_in_bounds(surviving@, len as int),
                forall|k: int|
                    0 <= k < surviving@.len() ==> all_local_maxima@.contains(
                        #[trigger] surviving@[k],
                    ),
                forall|p: Coordinate|
                    all_local_maxima@.contains(p) && !inside_any_band_spec(
                        p,
                        n_slice_per_side as int,
                        qnt_per_slice as int,
                        band_width as int,
                    ) ==> surviving@.contains(p),
                orientation < 2,
                vertical == (orientation == 0),
                forall|v: bool, idx: int|
                    1 <= idx < n_slice_per_side && ((if v {
                        0int
                    } else {
                        1int
                    }) < orientation || ((if v {
                        0int
                    } else {
                        1int
                    }) == orientation && idx < index)) ==> #[trigger] band_separated(
                        surviving@,
                        v,
                        idx,
                        qnt_per_slice as int,
                        band_width as int,
                    ),
            decreases n_slice_per_side - index,
        {
            proof {
                assert(index * qnt_per_slice <= n_slice_per_side * qnt_per_slice) by (
                nonlinear_arith)
                    requires
                        1 <= index <= n_slice_per_side,
                        qnt_per_slice >= 0,
                ;
            }
            let slice = if vertical {
                get_vertical_slice(len, index, qnt_per_slice, band_width)
            } else {
                get_horizontal_slice(len, index, qnt_per_slice, band_width)
            };

            let kept_in_band = combine_local_maxima_in_same_slice(
                index,
                vertical,
                elevation_map,
                &surviving,
                qnt_per_slice,
                band_width,
            );

            proof {
                if vertical {
                    assert(slice.start.col == if index * qnt_per_slice >= band_width / 2 {
                        (index * qnt_per_slice - band_width / 2) as int
                    } else {
                        0int
                    });
                } else {
                    assert(slice.start.row == if index * qnt_per_slice >= band_width / 2 {
                        (index * qnt_per_slice - band_width / 2) as int
                    } else {
                        0int
                    });
                }
            }
            let ghost pre_band = surviving@;
            let mut next: Vec<Coordinate> = Vec::new();
            let mut m: usize = 0;
            while m < surviving.len()
                invariant
                    m <= surviving@.len(),
                    surviving@ == pre_band,
                    peaks_in_bounds(surviving@, len as int),
                    peaks_in_bounds(next@, len as int),
                    1 <= index < n_slice_per_side,
                    qnt_per_slice == len as int / n_slice_per_side as int,
                    vertical ==> slice.start.row == 0 && slice.end.col == index * qnt_per_slice
                        + band_width / 2 && slice.start.col as int == (if index as int
                        * qnt_per_slice as int >= band_width as int / 2 {
                        index as int * qnt_per_slice as int - band_width as int / 2
                    } else {
                        0int
                    }),
                    !vertical ==> slice.start.col == 0 && slice.end.row == index * qnt_per_slice
                        + band_width / 2 && slice.start.row as int == (if index as int
                        * qnt_per_slice as int >= band_width as int / 2 {
                        index as int * qnt_per_slice as int - band_width as int / 2
                    } else {
                        0int
                    }),
                    forall|k: int|
                        0 <= k < surviving@.len() ==> all_local_maxima@.contains(
                            #[trigger] surviving@[k],
                        ),
                    forall|k: int|
                        0 <= k < next@.len() ==> all_local_maxima@.contains(#[trigger] next@[k]),
                    forall|k: int|
                        0 <= k < next@.len() ==> pre_band.contains(#[trigger] next@[k]),
                    forall|k: int|
                        0 <= k < next@.len() ==> !inside_band_spec(
                            #[trigger] next@[k],
                            vertical,
                            index as int,
                            qnt_per_slice as int,
                            band_width as int,
                        ),
                    forall|mm: int|
                        0 <= mm < m ==> (inside_band_spec(
                            #[trigger] surviving@[mm],
                            vertical,
                            index as int,
                            qnt_per_slice as int,
                            band_width as int,
                        ) || next@.contains(surviving@[mm])),
                decreases surviving@.len() - m,
            {
                let p = surviving[m];
                let inside = if vertical {
                    is_inside_vertical_slice(&p, &slice)
                } else {
                    is_inside_horizontal_slice(&p, &slice)
                };
                proof {
                    assert(inside == inside_band_spec(
                        p,
                        vertical,
                        index as int,
                        qnt_per_slice as int,
                        band_width as int,
                    ));
                }
                if !inside {
                    let ghost prev = next@;
                    next.push(p);
                    proof {
                        assert(next@[next@.len() - 1] == p);
                        assert(next@.contains(p));
                        assert forall|x: Coordinate| prev.contains(x) implies next@.contains(
                            x,
                        ) by {
                            let k = choose|k: int| 0 <= k < prev.len() && prev[k] == x;
                            assert(next@[k] == x);
                        }
                    }
                }
                m += 1;
            }
            let ghost part_len = next@.len();
            let mut k: usize = 0;
            while k < kept_in_band.len()
                invariant
                    k <= kept_in_band@.len(),
                    peaks_in_bounds(kept_in_band@, len as int),
                    peaks_in_bounds(next@, len as int),
                    next@.len() == part_len + k,
                    forall|kk: int|
                        0 <= kk < part_len ==> !inside_band_spec(
                            #[trigger] next@[kk],
                            vertical,
                            index as int,
                            qnt_per_slice as int,
                            band_width as int,
                        ),
                    forall|kk: int|
                        part_len <= kk < next@.len() ==> #[trigger] next@[kk] == kept_in_band@[
                            kk - part_len
                        ],
                    forall|k1: int, k2: int|
                        0 <= k1 < k2 < kept_in_band@.len() ==> axis_delta(
                            vertical,
                            #[trigger] kept_in_band@[k1],
                            #[trigger] kept_in_band@[k2],
                        ) > band_width,
                    forall|kk: int|
                        0 <= kk < kept_in_band@.len() ==> pre_band.contains(
                            #[trigger] kept_in_band@[kk],
                        ),
                    forall|kk: int|
                        0 <= kk < next@.len() ==> all_local_maxima@.contains(#[trigger] next@[kk]),
                    forall|kk: int|
                        0 <= kk < next@.len() ==> pre_band.contains(#[trigger] next@[kk]),
                    forall|kk: int|
                        0 <= kk < pre_band.len() ==> all_local_maxima@.contains(
                            #[trigger] pre_band[kk],
                        ),
                    forall|mm: int|
                        0 <= mm < pre_band.len() ==> (inside_band_spec(
                            #[trigger] pre_band[mm],
                            vertical,
                            index as int,
                            qnt_per_slice as int,
                            band_width as int,
                        ) || next@.contains(pre_band[mm])),
                decreases kept_in_band@.len() - k,
            {
                let element = kept_in_band[k];
                let ghost prev = next@;
                next.push(element);
                proof {
                    assert(pre_band.contains(kept_in_band@[k as int]));
                    let w = choose|w: int| 0 <= w < pre_band.len() && pre_band[w] == element;
                    assert(all_local_maxima@.contains(element));
                    assert forall|x: Coordinate| prev.contains(x) implies next@.contains(x) by {
                        let kk = choose|kk: int| 0 <= kk < prev.len() && prev[kk] == x;
                        assert(next@[kk] == x);
                    }
                }
                k += 1;
            }
            proof {
                assert forall|p: Coordinate|
                    all_local_maxima@.contains(p) && !inside_any_band_spec(
                        p,
                        n_slice_per_side as int,
                        qnt_per_slice as int,
                        band_width as int,
                    ) implies next@.contains(p) by {
                    assert(pre_band.contains(p));
                    let mm = choose|mm: int| 0 <= mm < pre_band.len() && pre_band[mm] == p;
                    assert(!inside_band_spec(
                        p,
                        vertical,
                        index as int,
                        qnt_per_slice as int,
                        band_width as int,
                    ));
                }
                // The band just processed is separated among the new
                // survivors: its in-band members all come from the merged
                // list, which is pairwise separated.
                assert forall|p1: Coordinate, p2: Coordinate|
                    next@.contains(p1) && next@.contains(p2) && p1 != p2 && inside_band_spec(
                        p1,
                        vertical,
                        index as int,
                        qnt_per_slice as int,
                        band_width as int,
                    ) && inside_band_spec(
                        p2,
                        vertical,
                        index as int,
                        qnt_per_slice as int,
                        band_width as int,
                    ) implies axis_delta(vertical, p1, p2) > band_width by {
                    let k1 = choose|k1: int| 0 <= k1 < next@.len() && next@[k1] == p1;
                    let k2 = choose|k2: int| 0 <= k2 < next@.len() && next@[k2] == p2;
                    assert(k1 >= part_len);
                    assert(k2 >= part_len);
                    let a = k1 - part_len;
                    let b = k2 - part_len;
                    assert(kept_in_band@[a] == p1);
                    assert(kept_in_band@[b] == p2);
                    if a < b {
                        assert(axis_delta(vertical, kept_in_band@[a], kept_in_band@[b])
                            > band_width);
                    } else {
                        assert(a != b);
                        assert(axis_delta(vertical, kept_in_band@[b], kept_in_band@[a])
                            > band_width);
                    }
                }
                assert(band_separated(
                    next@,
                    vertical,
                    index as int,
                    qnt_per_slice as int,
                    band_width as int,
                ));
                // Bands processed earlier keep their separation: the new
                // survivors are drawn from the old ones.
                assert forall|v: bool, idx: int|
                    1 <= idx < n_slice_per_side && ((if v {
                        0int
                    } else {
                        1int
                    }) < orientation || ((if v {
                        0int
                    } else {
                        1int
                    }) == orientation && idx < index)) implies #[trigger] band_separated(
                    next@,
                    v,
                    idx,
                    qnt_per_slice as int,
                    band_width as int,
                ) by {
                    assert forall|p1: Coordinate, p2: Coordinate|
                        next@.contains(p1) && next@.contains(p2) && p1 != p2 && inside_band_spec(
                            p1,
                            v,
                            idx,
                            qnt_per_slice as int,
                            band_width as int,
                        ) && inside_band_spec(
                            p2,
                            v,
                            idx,
                            qnt_per_slice as int,
                            band_width as int,
                        ) implies axis_delta(v, p1, p2) > band_width by {
                        let k1 = choose|k1: int| 0 <= k1 < next@.len() && next@[k1] == p1;
                        let k2 = choose|k2: int| 0 <= k2 < next@.len() && next@[k2] == p2;
                        assert(pre_band.contains(p1));
                        assert(pre_band.contains(p2));
                        assert(band_separated(
                            pre_band,
                            v,
                            idx,
                            qnt_per_slice as int,
                            band_width as int,
                        ));
                    }
                }
            }
            surviving = next;
            index += 1;
        }
        orientation += 1;
    }
    surviving
}

/// Whether a rasterized path is strictly four-connected: every two
/// consecutive points are at Manhattan distance exactly one.
pub open spec fn four_connected(path: Seq<Coordinate>) -> bool {
    forall|k: int|
        0 < k < path.len() ==> abs_diff_spec(
            (#[trigger] path[k]).row as int,
            path[k - 1].row as int,
        ) + abs_diff_spec(path[k].col as int, path[k - 1].col as int) == 1
}

/// Whether a point lies in the axis-aligned box spanned by `a` and `b`.
pub open spec fn within_box(p: Coordinate, a: Coordinate, b: Coordinate) -> bool {
    &&& (p.row <= a.row || p.row <= b.row)
    &&& (p.row >= a.row || p.row >= b.row)
    &&& (p.col <= a.col || p.col <= b.col)
    &&& (p.col >= a.col || p.col >= b.col)
}

/// The orthogonal step that keeps a diagonal move four-connected: when the
/// next point changes both coordinates relative to the last rasterized
/// point, the cell sharing the last point's row and the next point's column
/// goes in between.
pub(crate) fn add_step_between_diagonal(segments: &Vec<Coordinate>, next_step: Coordinate) -> (r:
    Option<Coordinate>)
    ensures
        r == (if segments@.len() == 0 {
            None::<Coordinate>
        } else {
            let last = segments@[segments@.len() - 1];
            if next_step.col != last.col && next_step.row != last.row {
                Some(Coordinate { row: last.row, col: next_step.col })
            } else {
                None::<Coordinate>
            }
        }),
{
    if segments.len() == 0 {
        return None;
    }
    let last = &segments[segments.len() - 1];
    if next_step.col != last.col && next_step.row != last.row {
        Some(Coordinate { row: last.row, col: next_step.col })
    } else {
        None
    }
}

/// Rasterize the segment between two cells with a Bresenham-style walk,
/// inserting an orthogonal step wherever the walk would move diagonally, so
/// that the path is strictly four-connected from `start` to `end` and stays
/// inside their bounding box.
pub fn connect_points(start: Coordinate, end: Coordinate) -> (line: Vec<Coordinate>)
    requires
        start.row <= 0x10_0000,
        start.col <= 0x10_0000,
        end.row <= 0x10_0000,
        end.col <= 0x10_0000,
    ensures
        line@.len() >= 1,
        line@[0] == start,
        line@[line@.len() - 1] == end,
        four_connected(line@),
        forall|k: int| 0 <= k < line@.len() ==> within_box(#[trigger] line@[k], start, end),
{
    let mut line: Vec<Coordinate> = Vec::new();
    line.push(start);

    let mut x = start.col;
    let mut y = start.row;

    let dx: i64 = if end.col >= start.col {
        (end.col - start.col) as i64
    } else {
        (start.col - end.col) as i64
    };
    let dy: i64 = if end.row >= start.row {
        -((end.row - start.row) as i64)
    } else {
        -((start.row - end.row) as i64)
    };
    let mut err: i64 = dx + dy;

    while x != end.col || y != end.row
        invariant
            start.row <= 0x10_0000,
            start.col <= 0x10_0000,
            end.row <= 0x10_0000,
            end.col <= 0x10_0000,
            line@.len() >= 1,
            line@[0] == start,
            line@[line@.len() - 1] == (Coordinate { row: y, col: x }),
            four_connected(line@),
            within_box(Coordinate { row: y, col: x }, start, end),
            forall|k: int| 0 <= k < line@.len() ==> within_box(#[trigger] line@[k], start, end),
        decreases abs_diff_spec(x as int, end.col as int) + abs_diff_spec(
            y as int,
            end.row as int,
        ),
    {
        let e2 = match err.checked_mul(2) {
            Some(v) => v,
            None => err,
        };
        let can_x = x != end.col;
        let can_y = y != end.row;
        let want_x = e2 >= dy;
        let want_y = e2 <= dx;

        let do_x = can_x && (want_x || !can_y);
        let do_y = can_y && (want_y || !do_x);

        if do_x && do_y {
            err = match err.checked_add(dy) {
                Some(v) => v,
                None => err,
            };
            err = match err.checked_add(dx) {
                Some(v) => v,
                None => err,
            };
            let nx = if x < end.col {
                x + 1
            } else {
                x - 1
            };
            let ny = if y < end.row {
                y + 1
            } else {
                y - 1
            };
            let next = Coordinate { row: ny, col: nx };
            let step = add_step_between_diagonal(&line, next);
            proof {
                assert(step is Some);
            }
            let ghost before = line@;
            line.push(step.unwrap());
            line.push(next);
            proof {
                assert forall|k: int|
                    0 <= k < line@.len() implies within_box(
                    #[trigger] line@[k],
                    start,
                    end,
                ) by {
                    if k < before.len() {
                        assert(line@[k] == before[k]);
                    }
                }
            }
            x = nx;
            y = ny;
        } else if do_x {
            err = match err.checked_add(dy) {
                Some(v) => v,
                None => err,
            };
            let nx = if x < end.col {
                x + 1
            } else {
                x - 1
            };
            let ghost before = line@;
            line.push(Coordinate { row: y, col: nx });
            proof {
                assert forall|k: int|
                    0 <= k < line@.len() implies within_box(
                    #[trigger] line@[k],
                    start,
                    end,
                ) by {
                    if k < before.len() {
                        assert(line@[k] == before[k]);
                    }
                }
            }
            x = nx;
        } else {
            err = match err.checked_add(dx) {
                Some(v) => v,
                None => err,
            };
            let ny = if y < end.row {
                y + 1
            } else {
                y - 1
            };
            let ghost before = line@;
            line.push(Coordinate { row: ny, col: x });
            proof {
                assert forall|k: int|
                    0 <= k < line@.len() implies within_box(
                    #[trigger] line@[k],
                    start,
                    end,
                ) by {
                    if k < before.len() {
                        assert(line@[k] == before[k]);
                    }
                }
            }
            y = ny;
        }
    }
    line
}

/// A vertex clamped onto a field of side `len`.
pub open spec fn clamp_coord_spec(p: Coordinate, len: usize) -> Coordinate {
    Coordinate {
        row: if p.row < len {
            p.row
        } else {
            (len - 1) as usize
        },
        col: if p.col < len {
            p.col
        } else {
            (len - 1) as usize
        },
    }
}

/// An edge with both endpoints snapped by `fix_coord_spec`.
pub open spec fn fix_edge_spec(e: Edge, size: usize) -> Edge {
    Edge {
        start: Coordinate {
            row: fix_coord_spec(e.start.row, size),
            col: fix_coord_spec(e.start.col, size),
        },
        end: Coordinate {
            row: fix_coord_spec(e.end.row, size),
            col: fix_coord_spec(e.end.col, size),
        },
    }
}

/// The `i`-th boundary edge of a cell on a field of side `len`: consecutive
/// clamped vertices, the last edge closing the polygon.
pub open spec fn cell_edge_spec(cell: Seq<Coordinate>, len: usize, i: int) -> Edge {
    if i < cell.len() - 1 {
        Edge {
            start: clamp_coord_spec(cell[i], len),
            end: clamp_coord_spec(cell[i + 1], len),
        }
    } else {
        Edge {
            start: clamp_coord_spec(cell[0], len),
            end: clamp_coord_spec(cell[cell.len() - 1], len),
        }
    }
}

/// The `i`-th boundary edge of a cell after the boundary snap that runs on
/// fields of side three or more.
pub open spec fn snapped_cell_edge_spec(
    cells: Seq<Vec<Coordinate>>,
    len: usize,
    c: int,
    i: int,
) -> Edge {
    if len >= 3 {
        fix_edge_spec(cell_edge_spec(cells[c]@, len, i), (len - 1) as usize)
    } else {
        cell_edge_spec(cells[c]@, len, i)
    }
}

/// Whether `e` is a boundary edge of one of the cells.
pub open spec fn edge_from_cells(e: Edge, cells: Seq<Vec<Coordinate>>, len: usize) -> bool {
    exists|cc: int, ii: int|
        0 <= cc < cells.len() && 0 <= ii < cells[cc]@.len() && e == #[trigger] cell_edge_spec(
            cells[cc]@,
            len,
            ii,
        )
}

/// Whether boundary edge `ii` of cell `cc` appears in the edge list.
pub open spec fn cell_edge_in(
    edges: Seq<Edge>,
    cells: Seq<Vec<Coordinate>>,
    len: usize,
    cc: int,
    ii: int,
) -> bool {
    exists|k: int|
        0 <= k < edges.len() && #[trigger] edges[k] == cell_edge_spec(cells[cc]@, len, ii)
}

/// The unordered endpoint pair a path runs between.
pub open spec fn path_endpoints(path: Seq<Coordinate>) -> Edge {
    Edge { start: path[0], end: path[path.len() - 1] }
}

/// Whether a path runs between the snapped endpoints of some boundary edge
/// of some cell.
pub open spec fn path_covers_some_cell_edge(
    path: Seq<Coordinate>,
    cells: Seq<Vec<Coordinate>>,
    len: usize,
) -> bool {
    exists|c: int, i: int|
        0 <= c < cells.len() && 0 <= i < cells[c]@.len() && edges_unordered_eq(
            path_endpoints(path),
            #[trigger] snapped_cell_edge_spec(cells, len, c, i),
        )
}

/// Whether some path runs between the snapped endpoints of boundary edge
/// `i` of cell `c`.
pub open spec fn cell_edge_covered_by_path(
    paths: Seq<Vec<Coordinate>>,
    cells: Seq<Vec<Coordinate>>,
    len: usize,
    c: int,
    i: int,
) -> bool {
    exists|p: int|
        0 <= p < paths.len() && edges_unordered_eq(
            path_endpoints((#[trigger] paths[p])@),
            snapped_cell_edge_spec(cells, len, c, i),
        )
}

/// Unordered edge equality survives the boundary snap.
proof fn lemma_fix_preserves_unordered_eq(a: Edge, b: Edge, size: usize)
    requires
        edges_unordered_eq(a, b),
    ensures
        edges_unordered_eq(fix_edge_spec(a, size), fix_edge_spec(b, size)),
{
}

/// Unordered edge equality is transitive.
proof fn lemma_unordered_eq_trans(a: Edge, b: Edge, c: Edge)
    requires
        edges_unordered_eq(a, b),
        edges_unordered_eq(b, c),
    ensures
        edges_unordered_eq(a, c),
{
}

/// Rasterize the unique boundary edges of the given Voronoi cell polygons:
/// vertices are clamped onto the field, consecutive vertices of each cell
/// form edges together with the closing edge, shared edges are kept once,
/// endpoints near the field boundary are snapped onto it, and every edge
/// becomes a four-connected path.  Every path runs between the snapped
/// endpoints of a boundary edge of some cell, every boundary edge of every
/// cell is covered by exactly one path, and no two paths share an endpoint
/// pair.
pub fn street_paths_from_cells(cells: &Vec<Vec<Coordinate>>, len: usize) -> (paths: Vec<
    Vec<Coordinate>,
>)
    requires
        1 <= len <= 0x10_0000,
    ensures
        forall|p: int|
            0 <= p < paths@.len() ==> {
                let path = (#[trigger] paths@[p])@;
                &&& path.len() >= 1
                &&& four_connected(path)
                &&& forall|k: int|
                    0 <= k < path.len() ==> (#[trigger] path[k]).row < len && path[k].col < len
            },
        forall|p: int|
            0 <= p < paths@.len() ==> path_covers_some_cell_edge(
                (#[trigger] paths@[p])@,
                cells@,
                len,
            ),
        forall|c: int, i: int|
            0 <= c < cells@.len() && 0 <= i < cells@[c]@.len()
                ==> #[trigger] cell_edge_covered_by_path(paths@, cells@, len, c, i),
        forall|p1: int, p2: int|
            0 <= p1 < p2 < paths@.len() ==> !edges_unordered_eq(
                path_endpoints((#[trigger] paths@[p1])@),
                path_endpoints((#[trigger] paths@[p2])@),
            ),
{
    let mut edges: Vec<Edge> = Vec::new();
    let mut c: usize = 0;
    while c < cells.len()
        invariant
            1 <= len,
            forall|k: int|
                0 <= k < edges@.len() ==> {
                    let e = #[trigger] edges@[k];
                    e.start.row < len && e.start.col < len && e.end.row < len && e.end.col < len
                },
            forall|k: int|
                0 <= k < edges@.len() ==> edge_from_cells(#[trigger] edges@[k], cells@, len),
            forall|cc: int, ii: int|
                0 <= cc < c && 0 <= ii < cells@[cc]@.len() ==> #[trigger] cell_edge_in(
                    edges@,
                    cells@,
                    len,
                    cc,
                    ii,
                ),
        decreases cells@.len() - c,
    {
        let cell = &cells[c];
        let mut clamped: Vec<Coordinate> = Vec::new();
        let mut v: usize = 0;
        while v < cell.len()
            invariant
                1 <= len,
                c < cells@.len(),
                clamped@.len() == v,
                v <= cell@.len(),
                cell == cells@[c as int],
                forall|k: int|
                    0 <= k < clamped@.len() ==> (#[trigger] clamped@[k]) == clamp_coord_spec(
                        cell@[k],
                        len,
                    ),
                forall|k: int|
                    0 <= k < clamped@.len() ==> (#[trigger] clamped@[k]).row < len && clamped@[
                        k
                    ].col < len,
                forall|k: int|
                    0 <= k < edges@.len() ==> {
                        let e = #[trigger] edges@[k];
                        e.start.row < len && e.start.col < len && e.end.row < len && e.end.col
                            < len
                    },
                forall|k: int|
                    0 <= k < edges@.len() ==> edge_from_cells(#[trigger] edges@[k], cells@, len),
                forall|cc: int, ii: int|
                    0 <= cc < c && 0 <= ii < cells@[cc]@.len() ==> #[trigger] cell_edge_in(
                        edges@,
                        cells@,
                        len,
                        cc,
                        ii,
                    ),
            decreases cell@.len() - v,
        {
            let p = cell[v];
            let row = if p.row < len {
                p.row
            } else {
                len - 1
            };
            let col = if p.col < len {
                p.col
            } else {
                len - 1
            };
            clamped.push(Coordinate { row, col });
            v += 1;
        }

        if clamped.len() >= 1 {
            let n = clamped.len();
            let mut i: usize = 0;
            while i + 1 < n
                invariant
                    1 <= len,
                    c < cells@.len(),
                    cell == cells@[c as int],
                    n == clamped@.len(),
                    clamped@.len() == cell@.len(),
                    clamped@.len() >= 1,
                    i < clamped@.len(),
                    forall|k: int|
                        0 <= k < clamped@.len() ==> (#[trigger] clamped@[k]) == clamp_coord_spec(
                            cell@[k],
                            len,
                        ),
                    forall|k: int|
                        0 <= k < clamped@.len() ==> (#[trigger] clamped@[k]).row < len
                            && clamped@[k].col < len,
                    forall|k: int|
                        0 <= k < edges@.len() ==> {
                            let e = #[trigger] edges@[k];
                            e.start.row < len && e.start.col < len && e.end.row < len
                                && e.end.col < len
                        },
                    forall|k: int|
                        0 <= k < edges@.len() ==> edge_from_cells(
                            #[trigger] edges@[k],
                            cells@,
                            len,
                        ),
                    forall|cc: int, ii: int|
                        0 <= cc < c && 0 <= ii < cells@[cc]@.len() ==> #[trigger] cell_edge_in(
                            edges@,
                            cells@,
                            len,
                            cc,
                            ii,
                        ),
                    forall|ii: int|
                        0 <= ii < i ==> #[trigger] cell_edge_in(
                            edges@,
                            cells@,
                            len,
                            c as int,
                            ii,
                        ),
                decreases clamped@.len() - i,
            {
                let e = Edge { start: clamped[i], end: clamped[i + 1] };
                let ghost prev = edges@;
                edges.push(e);
                proof {
                    assert(edges@[edges@.len() - 1] == e);
                    assert(e == cell_edge_spec(cells@[c as int]@, len, i as int));
                    assert(edge_from_cells(e, cells@, len));
                    assert forall|cc: int, ii: int|
                        0 <= cc < c && 0 <= ii < cells@[cc]@.len() implies #[trigger] cell_edge_in(
                        edges@,
                        cells@,
                        len,
                        cc,
                        ii,
                    ) by {
                        assert(cell_edge_in(prev, cells@, len, cc, ii));
                        let k = choose|k: int|
                            0 <= k < prev.len() && #[trigger] prev[k] == cell_edge_spec(
                                cells@[cc]@,
                                len,
                                ii,
                            );
                        assert(edges@[k] == prev[k]);
                    }
                    assert forall|ii: int| 0 <= ii < i + 1 implies #[trigger] cell_edge_in(
                        edges@,
                        cells@,
                        len,
                        c as int,
                        ii,
                    ) by {
                        if ii < i {
                            assert(cell_edge_in(prev, cells@, len, c as int, ii));
                            let k = choose|k: int|
                                0 <= k < prev.len() && #[trigger] prev[k] == cell_edge_spec(
                                    cells@[c as int]@,
                                    len,
                                    ii,
                                );
                            assert(edges@[k] == prev[k]);
                        } else {
                            assert(edges@[edges@.len() - 1] == cell_edge_spec(
                                cells@[c as int]@,
                                len,
                                ii,
                            ));
                        }
                    }
                }
                i += 1;
            }
            let closing = Edge { start: clamped[0], end: clamped[n - 1] };
            let ghost prev = edges@;
            edges.push(closing);
            proof {
                assert(edges@[edges@.len() - 1] == closing);
                assert(closing == cell_edge_spec(cells@[c as int]@, len, n - 1));
                assert(edge_from_cells(closing, cells@, len));
                assert forall|cc: int, ii: int|
                    0 <= cc < c + 1 && 0 <= ii < cells@[cc]@.len() implies #[trigger] cell_edge_in(
                    edges@,
                    cells@,
                    len,
                    cc,
                    ii,
                ) by {
                    if cc < c || ii < n - 1 {
                        assert(cell_edge_in(prev, cells@, len, cc, ii));
                        let k = choose|k: int|
                            0 <= k < prev.len() && #[trigger] prev[k] == cell_edge_spec(
                                cells@[cc]@,
                                len,
                                ii,
                            );
                        assert(edges@[k] == prev[k]);
                    } else {
                        assert(edges@[edges@.len() - 1] == cell_edge_spec(cells@[cc]@, len, ii));
                    }
                }
            }
        } else {
            proof {
                assert(cells@[c as int]@.len() == 0);
            }
        }
        c += 1;
    }

    let ghost edges0 = edges@;
    let unique_extremes = remove_duplicates(edges);
    let ghost u1 = unique_extremes@;

    let fixed = if len >= 3 {
        fix_extremes(unique_extremes, len - 1)
    } else {
        unique_extremes
    };
    proof {
        assert forall|k: int|
            0 <= k < fixed@.len() implies {
            let e = #[trigger] fixed@[k];
            e.start.row < len && e.start.col < len && e.end.row < len && e.end.col < len
        } by {
            if len >= 3 {
            }
        }
    }

    let ghost fixed_view = fixed@;
    let unique_edges = remove_duplicates(fixed);

    let mut paths: Vec<Vec<Coordinate>> = Vec::new();
    let mut e: usize = 0;
    while e < unique_edges.len()
        invariant
            1 <= len <= 0x10_0000,
            paths@.len() == e,
            e <= unique_edges@.len(),
            forall|k: int|
                0 <= k < unique_edges@.len() ==> {
                    let ed = #[trigger] unique_edges@[k];
                    ed.start.row < len && ed.start.col < len && ed.end.row < len && ed.end.col
                        < len
                },
            forall|p: int|
                0 <= p < paths@.len() ==> {
                    let path = (#[trigger] paths@[p])@;
                    &&& path.len() >= 1
                    &&& four_connected(path)
                    &&& forall|k: int|
                        0 <= k < path.len() ==> (#[trigger] path[k]).row < len && path[k].col
                            < len
                },
            forall|p: int|
                0 <= p < paths@.len() ==> path_endpoints((#[trigger] paths@[p])@)
                    == unique_edges@[p],
        decreases unique_edges@.len() - e,
    {
        let edge = unique_edges[e];
        let line = connect_points(edge.start, edge.end);
        paths.push(line);
        e += 1;
    }

    proof {
        // Soundness: each path's endpoint pair is the snap of some cell edge.
        assert forall|p: int|
            0 <= p < paths@.len() implies path_covers_some_cell_edge(
            (#[trigger] paths@[p])@,
            cells@,
            len,
        ) by {
            let ue = unique_edges@[p];
            assert(path_endpoints((paths@[p])@) == ue);
            assert(fixed_view.contains(ue));
            let kf = choose|kf: int| 0 <= kf < fixed_view.len() && fixed_view[kf] == ue;
            if len >= 3 {
                assert(fixed_view[kf] == fix_edge_spec(u1[kf], (len - 1) as usize));
                assert(edges0.contains(u1[kf]));
                let km = choose|km: int| 0 <= km < edges0.len() && edges0[km] == u1[kf];
                assert(edge_from_cells(edges0[km], cells@, len));
                let (cc, ii) = choose|cc: int, ii: int|
                    0 <= cc < cells@.len() && 0 <= ii < cells@[cc]@.len() && edges0[km]
                        == #[trigger] cell_edge_spec(cells@[cc]@, len, ii);
                assert(ue == snapped_cell_edge_spec(cells@, len, cc, ii));
                assert(edges_unordered_eq(ue, snapped_cell_edge_spec(cells@, len, cc, ii)));
            } else {
                assert(edges0.contains(ue));
                let km = choose|km: int| 0 <= km < edges0.len() && edges0[km] == ue;
                assert(edge_from_cells(edges0[km], cells@, len));
                let (cc, ii) = choose|cc: int, ii: int|
                    0 <= cc < cells@.len() && 0 <= ii < cells@[cc]@.len() && edges0[km]
                        == #[trigger] cell_edge_spec(cells@[cc]@, len, ii);
                assert(ue == snapped_cell_edge_spec(cells@, len, cc, ii));
                assert(edges_unordered_eq(ue, snapped_cell_edge_spec(cells@, len, cc, ii)));
            }
        }
        // Completeness: each cell edge is covered by a path.
        assert forall|c: int, i: int|
            0 <= c < cells@.len() && 0 <= i < cells@[c]@.len()
            implies #[trigger] cell_edge_covered_by_path(paths@, cells@, len, c, i) by {
            let x = cell_edge_spec(cells@[c]@, len, i);
            assert(cell_edge_in(edges0, cells@, len, c, i));
            let km = choose|km: int|
                0 <= km < edges0.len() && #[trigger] edges0[km] == cell_edge_spec(
                    cells@[c]@,
                    len,
                    i,
                );
            assert(edges0[km] == x);
            assert(edge_covered(edges0, u1, km));
            let ku = choose|ku: int| 0 <= ku < u1.len() && edges_unordered_eq(edges0[km], u1[ku]);
            if len >= 3 {
                lemma_fix_preserves_unordered_eq(x, u1[ku], (len - 1) as usize);
                assert(fixed_view[ku] == fix_edge_spec(u1[ku], (len - 1) as usize));
                assert(edges_unordered_eq(
                    snapped_cell_edge_spec(cells@, len, c, i),
                    fixed_view[ku],
                ));
                assert(edge_covered(fixed_view, unique_edges@, ku));
                let kp = choose|kp: int|
                    0 <= kp < unique_edges@.len() && edges_unordered_eq(
                        fixed_view[ku],
                        unique_edges@[kp],
                    );
                lemma_unordered_eq_trans(
                    snapped_cell_edge_spec(cells@, len, c, i),
                    fixed_view[ku],
                    unique_edges@[kp],
                );
                assert(path_endpoints((paths@[kp])@) == unique_edges@[kp]);
                assert(edges_unordered_eq(
                    path_endpoints((paths@[kp])@),
                    snapped_cell_edge_spec(cells@, len, c, i),
                ));
            } else {
                assert(edges_unordered_eq(snapped_cell_edge_spec(cells@, len, c, i), u1[ku]));
                assert(edge_covered(fixed_view, unique_edges@, ku));
                let kp = choose|kp: int|
                    0 <= kp < unique_edges@.len() && edges_unordered_eq(
                        fixed_view[ku],
                        unique_edges@[kp],
                    );
                lemma_unordered_eq_trans(
                    snapped_cell_edge_spec(cells@, len, c, i),
                    u1[ku],
                    unique_edges@[kp],
                );
                assert(path_endpoints((paths@[kp])@) == unique_edges@[kp]);
                assert(edges_unordered_eq(
                    path_endpoints((paths@[kp])@),
                    snapped_cell_edge_spec(cells@, len, c, i),
                ));
            }
        }
    }
    paths
}

/// Carve the street network: find the highest cell of each grid slice, merge
/// near-duplicate peaks along the slice boundaries, build a Voronoi diagram
/// over the survivors, and rasterize its unique cell-boundary edges into
/// four-connected tile paths.
pub fn street_spawn<G: GeometrySource>(
    elevation_map: &Vec<Vec<i64>>,
    n_slice_side: usize,
    lower_threshold: i64,
    geo: &mut G,
) -> (paths: Vec<Vec<Coordinate>>)
    requires
        elevation_square(elevation_map@),
        1 <= n_slice_side <= elevation_map@.len(),
        elevation_map@.len() <= 0x10_0000,
    ensures
        forall|p: int|
            0 <= p < paths@.len() ==> {
                let path = (#[trigger] paths@[p])@;
                &&& path.len() >= 1
                &&& four_connected(path)
                &&& forall|k: int|
                    0 <= k < path.len() ==> (#[trigger] path[k]).row < elevation_map@.len()
                        && path[k].col < elevation_map@.len()
            },
        forall|p1: int, p2: int|
            0 <= p1 < p2 < paths@.len() ==> !edges_unordered_eq(
                path_endpoints((#[trigger] paths@[p1])@),
                path_endpoints((#[trigger] paths@[p2])@),
            ),
{
    let len = elevation_map.len();
    let local_maxima = get_local_maxima(elevation_map, n_slice_side, lower_threshold);
    proof {
        assert(n_slice_side * (len as int / n_slice_side as int) <= len) by (nonlinear_arith)
            requires
                1 <= n_slice_side <= len,
        ;
    }
    let combined = combine_local_maxima(elevation_map, &local_maxima, n_slice_side, len / 100);
    let cells = geo.voronoi_cell_polygons(&combined, len);
    street_paths_from_cells(&cells, len)
}

} // verus!
