use vstd::prelude::*;

verus! {

use core::ops::Range;
use crate::interface::{same_shape, set_tile_type};
use crate::utils::Coordinate;
use crate::world::tile::{Tile, TileType};

/// Settings defining the behaviour of lava generation: the number of spawn
/// points and the range of flow lengths.
#[derive(Clone)]
pub struct LavaSettings {
    /// The number of spawn points for lava within the world.
    pub number_of_spawn_points: usize,
    /// The potential flow distance of lava from its source point.
    pub lava_flow_range: Range<usize>,
}

impl LavaSettings {
    /// Settings suited to a world of side length `size`.
    pub fn default(size: usize) -> (s: LavaSettings)
        ensures
            s.number_of_spawn_points == (if size * size <= usize::MAX {
                size * size
            } else {
                usize::MAX as int
            }) / 500,
            s.lava_flow_range.start == 1,
            s.lava_flow_range.end == (if size * size <= usize::MAX {
                size * size
            } else {
                usize::MAX as int
            }) / 25,
    {
        let sq = size.checked_mul(size).unwrap_or(usize::MAX);
        LavaSettings { number_of_spawn_points: sq / 500, lava_flow_range: 1usize..sq / 25 }
    }

    /// Settings with the given spawn point count and flow range.
    pub fn new(spawn_points: usize, flow_range: Range<usize>) -> (s: LavaSettings)
        ensures
            s.number_of_spawn_points == spawn_points,
            s.lava_flow_range == flow_range,
    {
        LavaSettings { number_of_spawn_points: spawn_points, lava_flow_range: flow_range }
    }
}

/// A square elevation field: as many columns in every row as there are rows.
pub open spec fn elevation_square(m: Seq<Vec<i64>>) -> bool {
    forall|i: int| 0 <= i < m.len() ==> (#[trigger] m[i])@.len() == m.len()
}

/// A tile matrix whose rows line up with the elevation field.
pub open spec fn map_matches_elevation(map: Seq<Vec<Tile>>, elev: Seq<Vec<i64>>) -> bool {
    &&& map.len() == elev.len()
    &&& forall|i: int| 0 <= i < map.len() ==> (#[trigger] map[i])@.len() == elev[i]@.len()
}

/// Keep whichever of two candidate cells is lower; on a tie, or when the
/// challenger is missing, keep the first.
pub open spec fn pick_lower(m: Seq<Vec<i64>>, a: Option<Coordinate>, b: Option<Coordinate>) -> Option<
    Coordinate,
> {
    match (a, b) {
        (Option::None, _) => b,
        (Option::Some(_), Option::None) => a,
        (Option::Some(x), Option::Some(y)) => {
            if m[y.row as int]@[y.col as int] < m[x.row as int]@[x.col as int] {
                Some(y)
            } else {
                Some(x)
            }
        },
    }
}

/// The lowest of the up-to-four orthogonal neighbours of `start`, ties broken
/// in the order up, down, left, right; `None` only on a single-cell field.
#[verifier::opaque]
pub open spec fn lowest_neighbour_spec(m: Seq<Vec<i64>>, start: Coordinate) -> Option<Coordinate> {
    let rows = m.len() as int;
    let up = if start.row > 0 {
        Some(Coordinate { row: (start.row - 1) as usize, col: start.col })
    } else {
        None::<Coordinate>
    };
    let down = if start.row + 1 < rows {
        Some(Coordinate { row: (start.row + 1) as usize, col: start.col })
    } else {
        None::<Coordinate>
    };
    let left = if start.col > 0 {
        Some(Coordinate { row: start.row, col: (start.col - 1) as usize })
    } else {
        None::<Coordinate>
    };
    let right = if start.col + 1 < rows {
        Some(Coordinate { row: start.row, col: (start.col + 1) as usize })
    } else {
        None::<Coordinate>
    };
    pick_lower(m, pick_lower(m, pick_lower(m, up, down), left), right)
}

/// The orthogonal neighbour of `start` with the lowest elevation, ties broken
/// in the order up, down, left, right.
pub fn get_lowest_neighbour(elevation_map: &Vec<Vec<i64>>, start: Coordinate) -> (r: Option<
    Coordinate,
>)
    requires
        elevation_square(elevation_map@),
        start.row < elevation_map@.len(),
        start.col < elevation_map@.len(),
    ensures
        r == lowest_neighbour_spec(elevation_map@, start),
        r is Some ==> r->Some_0.row < elevation_map@.len() && r->Some_0.col
            < elevation_map@.len(),
{
    proof {
        reveal(lowest_neighbour_spec);
    }
    let rows = elevation_map.len();
    let mut best: Option<Coordinate> = None;

    if start.row > 0 {
        best = Some(Coordinate { row: start.row - 1, col: start.col });
    }
    if start.row + 1 < rows {
        let cand = Coordinate { row: start.row + 1, col: start.col };
        best = match best {
            None => Some(cand),
            Some(b) => {
                if elevation_map[cand.row][cand.col] < elevation_map[b.row][b.col] {
                    Some(cand)
                } else {
                    Some(b)
                }
            },
        };
    }
    if start.col > 0 {
        let cand = Coordinate { row: start.row, col: start.col - 1 };
        best = match best {
            None => Some(cand),
            Some(b) => {
                if elevation_map[cand.row][cand.col] < elevation_map[b.row][b.col] {
                    Some(cand)
                } else {
                    Some(b)
                }
            },
        };
    }
    if start.col + 1 < rows {
        let cand = Coordinate { row: start.row, col: start.col + 1 };
        best = match best {
            None => Some(cand),
            Some(b) => {
                if elevation_map[cand.row][cand.col] < elevation_map[b.row][b.col] {
                    Some(cand)
                } else {
                    Some(b)
                }
            },
        };
    }
    best
}

/// Carve one lava flow: mark the spawn tile, then walk to the lowest
/// orthogonal neighbour for as many steps as the range allows, marking each
/// visited tile as lava.  The returned path lists the visited cells in
/// order; its length never exceeds one more than the step budget, so with a
/// budget starting at one or above, a single flow marks at most
/// `remaining_range.end` tiles.
pub fn flow_from(
    world: &mut Vec<Vec<Tile>>,
    elevation_map: &Vec<Vec<i64>>,
    spawn_coordinate: Coordinate,
    remaining_range: Range<usize>,
) -> (path: Vec<Coordinate>)
    requires
        remaining_range.start <= remaining_range.end,
        elevation_square(elevation_map@),
        map_matches_elevation(old(world)@, elevation_map@),
        spawn_coordinate.row < elevation_map@.len(),
        spawn_coordinate.col < elevation_map@.len(),
    ensures
        same_shape(old(world)@, final(world)@),
        forall|i: int, j: int|
            0 <= i < old(world)@.len() && 0 <= j < old(world)@[i]@.len() ==> (
            #[trigger] final(world)@[i]@[j]).content == old(world)@[i]@[j].content,
        forall|i: int, j: int|
            0 <= i < old(world)@.len() && 0 <= j < old(world)@[i]@.len() ==> {
                let cell = #[trigger] final(world)@[i]@[j];
                cell.tile_type == old(world)@[i]@[j].tile_type || cell.tile_type == TileType::Lava
            },
        forall|i: int, j: int|
            0 <= i < old(world)@.len() && 0 <= j < old(world)@[i]@.len() && (
            #[trigger] final(world)@[i]@[j]).tile_type != old(world)@[i]@[j].tile_type
                ==> path@.contains(Coordinate { row: i as usize, col: j as usize }),
        path@.len() >= 1,
        path@[0] == spawn_coordinate,
        path@.len() <= remaining_range.end - remaining_range.start + 1,
        remaining_range.start >= 1 ==> path@.len() <= remaining_range.end,
        forall|k: int|
            0 <= k < path@.len() ==> (#[trigger] path@[k]).row < elevation_map@.len() && path@[
                k
            ].col < elevation_map@.len(),
        forall|k: int|
            0 <= k < path@.len() ==> final(world)@[(#[trigger] path@[k]).row as int]@[path@[
                k
            ].col as int].tile_type == TileType::Lava,
{
    let mut path: Vec<Coordinate> = Vec::new();
    let mut current = spawn_coordinate;
    let mut steps_left: usize = remaining_range.end - remaining_range.start;

    proof {
        assert(old(world)@[current.row as int]@.len() == elevation_map@[current.row as int]@.len());
        assert(elevation_map@[current.row as int]@.len() == elevation_map@.len());
    }
    set_tile_type(world, current.row, current.col, TileType::Lava);
    path.push(current);
    proof {
        assert(path@[0] == spawn_coordinate);
        assert(path@.contains(spawn_coordinate));
    }

    while steps_left > 0
        invariant
            elevation_square(elevation_map@),
            map_matches_elevation(old(world)@, elevation_map@),
            same_shape(old(world)@, world@),
            forall|i: int, j: int|
                0 <= i < old(world)@.len() && 0 <= j < old(world)@[i]@.len() ==> (
                #[trigger] world@[i]@[j]).content == old(world)@[i]@[j].content,
            forall|i: int, j: int|
                0 <= i < old(world)@.len() && 0 <= j < old(world)@[i]@.len() ==> {
                    let cell = #[trigger] world@[i]@[j];
                    cell.tile_type == old(world)@[i]@[j].tile_type || cell.tile_type
                        == TileType::Lava
                },
            forall|i: int, j: int|
                0 <= i < old(world)@.len() && 0 <= j < old(world)@[i]@.len() && (
                #[trigger] world@[i]@[j]).tile_type != old(world)@[i]@[j].tile_type
                    ==> path@.contains(Coordinate { row: i as usize, col: j as usize }),
            path@.len() >= 1,
            path@[0] == spawn_coordinate,
            path@.len() + steps_left == remaining_range.end - remaining_range.start + 1,
            current.row < elevation_map@.len(),
            current.col < elevation_map@.len(),
            forall|k: int|
                0 <= k < path@.len() ==> (#[trigger] path@[k]).row < elevation_map@.len()
                    && path@[k].col < elevation_map@.len(),
            forall|k: int|
                0 <= k < path@.len() ==> world@[(#[trigger] path@[k]).row as int]@[path@[
                    k
                ].col as int].tile_type == TileType::Lava,
        decreases steps_left,
    {
        match get_lowest_neighbour(elevation_map, current) {
            Some(next) => {
                current = next;
                proof {
                    assert(old(world)@[current.row as int]@.len() == elevation_map@[
                        current.row as int
                    ]@.len());
                    assert(elevation_map@[current.row as int]@.len() == elevation_map@.len());
                }
                let ghost prev_path = path@;
                set_tile_type(world, current.row, current.col, TileType::Lava);
                path.push(current);
                steps_left -= 1;
                proof {
                    assert(path@ == prev_path.push(current));
                    assert(path@[path@.len() - 1] == current);
                    assert(path@.contains(current));
                    assert forall|x: Coordinate| prev_path.contains(x) implies path@.contains(
                        x,
                    ) by {
                        let k = choose|k: int| 0 <= k < prev_path.len() && prev_path[k] == x;
                        assert(path@[k] == x);
                    }
                }
            },
            None => {
                break;
            },
        }
    }
    path
}

/// A lava flow with a step budget that starts at one or above marks at most
/// `flow_end` distinct tiles: the flow chain visits no more cells than its
/// path holds, and the path's length is bounded by the budget.
pub proof fn lemma_flow_budget_bounds_lava_tiles(path: Seq<Coordinate>, flow_end: usize)
    requires
        path.len() <= flow_end,
    ensures
        path.to_set().len() <= flow_end,
{
    path.lemma_cardinality_of_set();
}

/// The coordinates of all mountain tiles, each exactly once, in random
/// order.
pub(crate) fn get_yx_mountain_tiles(world: &Vec<Vec<Tile>>) -> (tiles: Vec<Coordinate>)
    ensures
        tiles@.no_duplicates(),
        forall|k: int|
            0 <= k < tiles@.len() ==> {
                let p = #[trigger] tiles@[k];
                &&& p.row < world@.len()
                &&& p.col < world@[p.row as int]@.len()
                &&& world@[p.row as int]@[p.col as int].tile_type == TileType::Mountain
            },
        forall|i: int, j: int|
            0 <= i < world@.len() && 0 <= j < world@[i]@.len() && (
            #[trigger] world@[i]@[j]).tile_type == TileType::Mountain ==> tiles@.contains(
                Coordinate { row: i as usize, col: j as usize },
            ),
{
    let mut found: Vec<Coordinate> = Vec::new();
    let mut y: usize = 0;
    while y < world.len()
        invariant
            y <= world@.len(),
            forall|k: int|
                0 <= k < found@.len() ==> {
                    let p = #[trigger] found@[k];
                    &&& p.row < y
                    &&& p.row < world@.len()
                    &&& p.col < world@[p.row as int]@.len()
                    &&& world@[p.row as int]@[p.col as int].tile_type == TileType::Mountain
                },
            forall|k1: int, k2: int|
                0 <= k1 < k2 < found@.len() ==> found@[k1] != found@[k2],
            forall|i: int, j: int|
                0 <= i < y && 0 <= j < world@[i]@.len() && (
                #[trigger] world@[i]@[j]).tile_type == TileType::Mountain ==> found@.contains(
                    Coordinate { row: i as usize, col: j as usize },
                ),
        decreases world@.len() - y,
    {
        let row = &world[y];
        let mut x: usize = 0;
        while x < row.len()
            invariant
                y < world@.len(),
                x <= row@.len(),
                row == world@[y as int],
                forall|k: int|
                    0 <= k < found@.len() ==> {
                        let p = #[trigger] found@[k];
                        &&& (p.row < y || (p.row == y && p.col < x))
                        &&& p.row < world@.len()
                        &&& p.col < world@[p.row as int]@.len()
                        &&& world@[p.row as int]@[p.col as int].tile_type == TileType::Mountain
                    },
                forall|k1: int, k2: int|
                    0 <= k1 < k2 < found@.len() ==> found@[k1] != found@[k2],
                forall|i: int, j: int|
                    0 <= i < y && 0 <= j < world@[i]@.len() && (
                    #[trigger] world@[i]@[j]).tile_type == TileType::Mountain
                        ==> found@.contains(Coordinate { row: i as usize, col: j as usize }),
                forall|j: int|
                    0 <= j < x && (#[trigger] world@[y as int]@[j]).tile_type
                        == TileType::Mountain ==> found@.contains(
                        Coordinate { row: y, col: j as usize },
                    ),
            decreases row@.len() - x,
        {
            if matches!(row[x].tile_type, TileType::Mountain) {
                let ghost prev = found@;
                found.push(Coordinate { row: y, col: x });
                proof {
                    assert(found@[found@.len() - 1] == (Coordinate { row: y, col: x }));
                    assert(found@.contains(Coordinate { row: y, col: x }));
                    assert forall|p: Coordinate| prev.contains(p) implies found@.contains(
                        p,
                    ) by {
                        let k = choose|k: int| 0 <= k < prev.len() && prev[k] == p;
                        assert(found@[k] == p);
                    }
                }
            }
            x += 1;
        }
        y += 1;
    }

    let ghost pre = found@;
    crate::rng::shuffle(&mut found);
    proof {
        broadcast use vstd::seq_lib::group_to_multiset_ensures;

        assert(pre.no_duplicates());
        pre.lemma_multiset_has_no_duplicates();
        assert forall|x: Coordinate| found@.to_multiset().contains(x) implies found@.to_multiset()
            .count(x) == 1 by {
            assert(pre.to_multiset().count(x) == found@.to_multiset().count(x));
        }
        found@.lemma_multiset_has_no_duplicates_conv();

        assert forall|k: int| 0 <= k < found@.len() implies {
            let p = #[trigger] found@[k];
            &&& p.row < world@.len()
            &&& p.col < world@[p.row as int]@.len()
            &&& world@[p.row as int]@[p.col as int].tile_type == TileType::Mountain
        } by {
            let p = found@[k];
            assert(found@.contains(p));
            assert(found@.to_multiset().count(p) > 0);
            assert(pre.to_multiset().count(p) > 0);
            assert(pre.contains(p));
            let m = choose|m: int| 0 <= m < pre.len() && pre[m] == p;
        }

        assert forall|i: int, j: int|
            0 <= i < world@.len() && 0 <= j < world@[i]@.len() && (
            #[trigger] world@[i]@[j]).tile_type == TileType::Mountain implies found@.contains(
            Coordinate { row: i as usize, col: j as usize },
        ) by {
            let p = Coordinate { row: i as usize, col: j as usize };
            assert(pre.contains(p));
            assert(pre.to_multiset().count(p) > 0);
            assert(found@.to_multiset().count(p) > 0);
        }
    }
    found
}

/// Whether `starts` witnesses a full quota of carved flows: as many distinct
/// cells as spawn points were requested, each a mountain of the old world and
/// lava in the new one.
pub open spec fn lava_quota_spec(
    old_map: Seq<Vec<Tile>>,
    new_map: Seq<Vec<Tile>>,
    starts: Seq<Coordinate>,
    quota: usize,
) -> bool {
    &&& starts.len() == quota
    &&& starts.no_duplicates()
    &&& forall|k: int|
        0 <= k < starts.len() ==> {
            let p = #[trigger] starts[k];
            &&& p.row < old_map.len()
            &&& p.col < old_map[p.row as int]@.len()
            &&& old_map[p.row as int]@[p.col as int].tile_type == TileType::Mountain
            &&& new_map[p.row as int]@[p.col as int].tile_type == TileType::Lava
        }
}

/// Pick up to `number_of_spawn_points` mountain tiles at random and carve a
/// lava flow from each.  Terrain changes only to lava; contents are never
/// touched.  Either every mountain of the old world is lava afterwards, or
/// the run was capped by the spawn point count, in which case that many
/// distinct former mountains are lava.
pub fn spawn_lava(
    world: &mut Vec<Vec<Tile>>,
    elevation_map: &Vec<Vec<i64>>,
    lava_settings: LavaSettings,
)
    requires
        lava_settings.lava_flow_range.start <= lava_settings.lava_flow_range.end,
        elevation_square(elevation_map@),
        map_matches_elevation(old(world)@, elevation_map@),
    ensures
        same_shape(old(world)@, final(world)@),
        forall|i: int, j: int|
            0 <= i < old(world)@.len() && 0 <= j < old(world)@[i]@.len() ==> (
            #[trigger] final(world)@[i]@[j]).content == old(world)@[i]@[j].content,
        forall|i: int, j: int|
            0 <= i < old(world)@.len() && 0 <= j < old(world)@[i]@.len() ==> {
                let cell = #[trigger] final(world)@[i]@[j];
                cell.tile_type == old(world)@[i]@[j].tile_type || cell.tile_type == TileType::Lava
            },
        (exists|i: usize, j: usize|
            i < old(world)@.len() && j < old(world)@[i as int]@.len() && (
            #[trigger] old(world)@[i as int]@[j as int]).tile_type == TileType::Mountain
                && final(world)@[i as int]@[j as int].tile_type != TileType::Lava) ==> exists|
            starts: Seq<Coordinate>,
        |
            lava_quota_spec(
                old(world)@,
                final(world)@,
                starts,
                lava_settings.number_of_spawn_points,
            ),
{
    let possible_spawn_points = get_yx_mountain_tiles(world);
    let count = if lava_settings.number_of_spawn_points < possible_spawn_points.len() {
        lava_settings.number_of_spawn_points
    } else {
        possible_spawn_points.len()
    };

    let mut i: usize = 0;
    while i < count
        invariant
            count <= possible_spawn_points@.len(),
            count == if lava_settings.number_of_spawn_points < possible_spawn_points@.len() {
                lava_settings.number_of_spawn_points as int
            } else {
                possible_spawn_points@.len() as int
            },
            elevation_square(elevation_map@),
            map_matches_elevation(old(world)@, elevation_map@),
            same_shape(old(world)@, world@),
            lava_settings.lava_flow_range.start <= lava_settings.lava_flow_range.end,
            possible_spawn_points@.no_duplicates(),
            forall|k: int|
                0 <= k < possible_spawn_points@.len() ==> {
                    let p = #[trigger] possible_spawn_points@[k];
                    &&& p.row < old(world)@.len()
                    &&& p.col < old(world)@[p.row as int]@.len()
                    &&& old(world)@[p.row as int]@[p.col as int].tile_type == TileType::Mountain
                },
            forall|a: int, b: int|
                0 <= a < old(world)@.len() && 0 <= b < old(world)@[a]@.len() && (
                #[trigger] old(world)@[a]@[b]).tile_type == TileType::Mountain
                    ==> possible_spawn_points@.contains(
                    Coordinate { row: a as usize, col: b as usize },
                ),
            forall|k: int|
                0 <= k < i ==> world@[(#[trigger] possible_spawn_points@[k]).row as int]@[
                    possible_spawn_points@[k].col as int
                ].tile_type == TileType::Lava,
            forall|a: int, b: int|
                0 <= a < old(world)@.len() && 0 <= b < old(world)@[a]@.len() ==> (
                #[trigger] world@[a]@[b]).content == old(world)@[a]@[b].content,
            forall|a: int, b: int|
                0 <= a < old(world)@.len() && 0 <= b < old(world)@[a]@.len() ==> {
                    let cell = #[trigger] world@[a]@[b];
                    cell.tile_type == old(world)@[a]@[b].tile_type || cell.tile_type
                        == TileType::Lava
                },
        decreases count - i,
    {
        let spawn_coordinate = possible_spawn_points[i];
        proof {
            assert forall|a: int| 0 <= a < world@.len() implies (#[trigger] world@[a])@.len()
                == elevation_map@[a]@.len() by {
                assert(world@[a]@.len() == old(world)@[a]@.len());
            }
            assert(map_matches_elevation(world@, elevation_map@));
            assert(old(world)@[spawn_coordinate.row as int]@.len() == elevation_map@[
                spawn_coordinate.row as int
            ]@.len());
            assert(elevation_map@[spawn_coordinate.row as int]@.len() == elevation_map@.len());
        }
        let range = lava_settings.lava_flow_range.start..lava_settings.lava_flow_range.end;
        let path = flow_from(world, elevation_map, spawn_coordinate, range);
        proof {
            assert(path@[0] == spawn_coordinate);
            assert(path@.contains(spawn_coordinate) || path@[0] == spawn_coordinate);
            assert(world@[spawn_coordinate.row as int]@[spawn_coordinate.col as int].tile_type
                == TileType::Lava);
        }
        i += 1;
    }

    proof {
        if count < possible_spawn_points@.len() {
            let starts = possible_spawn_points@.take(count as int);
            assert(starts.len() == lava_settings.number_of_spawn_points);
            assert(starts.no_duplicates()) by {
                assert forall|k1: int, k2: int|
                    0 <= k1 < starts.len() && 0 <= k2 < starts.len() && k1 != k2 implies starts[
                    k1
                ] != starts[k2] by {
                    assert(starts[k1] == possible_spawn_points@[k1]);
                    assert(starts[k2] == possible_spawn_points@[k2]);
                }
            }
            assert(lava_quota_spec(
                old(world)@,
                world@,
                starts,
                lava_settings.number_of_spawn_points,
            ));
        } else {
            assert forall|a: usize, b: usize|
                a < old(world)@.len() && b < old(world)@[a as int]@.len() && (
                #[trigger] old(world)@[a as int]@[b as int]).tile_type == TileType::Mountain
                implies world@[a as int]@[b as int].tile_type == TileType::Lava by {
                let p = Coordinate { row: a, col: b };
                assert(old(world)@[a as int]@[b as int].tile_type == TileType::Mountain);
                assert(possible_spawn_points@.contains(p));
                let k = choose|k: int|
                    0 <= k < possible_spawn_points@.len() && possible_spawn_points@[k] == p;
                assert(world@[p.row as int]@[p.col as int].tile_type == TileType::Lava);
            }
        }
    }
}

} // verus!
