use vstd::prelude::*;

verus! {

use crate::runner::Runnable;
use crate::utils::{
    backpack_remove, can_destroy, can_store, go_allowed_from, go_allowed_row_col, in_map_spec,
    step_coords_from, LibError,
};
use crate::world::coordinates::Coordinate;
use crate::world::environmental_conditions::EnvironmentalConditions;
use crate::world::tile::{Content, Tile, TileType};
use crate::world::World;

/// The four directions a robot can move, look or act in.
#[derive(Debug, Clone, Eq, PartialEq, Structural)]
pub enum Direction {
    Up,
    Down,
    Left,
    Right,
}

/// Two tile matrices with the same number of rows and the same length of
/// each row.
pub open spec fn same_shape(a: Seq<Vec<Tile>>, b: Seq<Vec<Tile>>) -> bool {
    &&& a.len() == b.len()
    &&& forall|i: int| #![trigger a[i]] #![trigger b[i]]
        0 <= i < a.len() ==> a[i]@.len() == b[i]@.len()
}

/// Replace the content of one tile, leaving its terrain and every other tile
/// alone.
pub(crate) fn set_tile_content(map: &mut Vec<Vec<Tile>>, row: usize, col: usize, content: Content)
    requires
        row < old(map)@.len(),
        col < old(map)@[row as int]@.len(),
    ensures
        same_shape(old(map)@, final(map)@),
        forall|i: int, j: int|
            0 <= i < old(map)@.len() && 0 <= j < old(map)@[i]@.len() ==> (
            #[trigger] final(map)@[i]@[j]).tile_type == old(map)@[i]@[j].tile_type,
        forall|i: int, j: int|
            0 <= i < old(map)@.len() && 0 <= j < old(map)@[i]@.len() && !(i == row && j == col)
                ==> (#[trigger] final(map)@[i]@[j]) == old(map)@[i]@[j],
        final(map)@[row as int]@[col as int].content == content,
{
    let row_ref = &mut map[row];
    let tile_ref = &mut row_ref[col];
    tile_ref.content = content;
}

/// Replace the terrain of one tile, leaving its content and every other tile
/// alone.
pub(crate) fn set_tile_type(map: &mut Vec<Vec<Tile>>, row: usize, col: usize, tile_type: TileType)
    requires
        row < old(map)@.len(),
        col < old(map)@[row as int]@.len(),
    ensures
        same_shape(old(map)@, final(map)@),
        forall|i: int, j: int|
            0 <= i < old(map)@.len() && 0 <= j < old(map)@[i]@.len() ==> (
            #[trigger] final(map)@[i]@[j]).content == old(map)@[i]@[j].content,
        forall|i: int, j: int|
            0 <= i < old(map)@.len() && 0 <= j < old(map)@[i]@.len() && !(i == row && j == col)
                ==> (#[trigger] final(map)@[i]@[j]) == old(map)@[i]@[j],
        final(map)@[row as int]@[col as int].tile_type == tile_type,
{
    let row_ref = &mut map[row];
    let tile_ref = &mut row_ref[col];
    tile_ref.tile_type = tile_type;
}

/// Whether the list of discovered cells holds the given pair.
fn contains_pair(v: &Vec<(usize, usize)>, row: usize, col: usize) -> (r: bool)
    ensures
        r == v@.contains((row, col)),
{
    let mut i: usize = 0;
    while i < v.len()
        invariant
            i <= v@.len(),
            forall|k: int| 0 <= k < i ==> v@[k] != (row, col),
        decreases v@.len() - i,
    {
        if v[i].0 == row && v[i].1 == col {
            proof {
                assert(v@[i as int] == (row, col));
            }
            return true;
        }
        i += 1;
    }
    false
}

/// The coordinate one cell before, at, or after `base`, for an offset of 0,
/// 1 or 2; `None` when that cell lies outside the coordinate space.
fn offset_coord(base: usize, delta: usize) -> (r: Option<usize>)
    requires
        delta <= 2,
    ensures
        r == if base + delta >= 1 && base + delta - 1 <= usize::MAX {
            Some((base + delta - 1) as usize)
        } else {
            None::<usize>
        },
{
    if delta == 0 {
        if base >= 1 {
            Some(base - 1)
        } else {
            None
        }
    } else if delta == 1 {
        Some(base)
    } else {
        if base < usize::MAX {
            Some(base + 1)
        } else {
            None
        }
    }
}

/// Record the 3x3 neighbourhood of `(row, col)` as discovered, skipping
/// cells off the map and cells already recorded.
fn record_view(world: &mut World, row: usize, col: usize)
    ensures
        final(world).map == old(world).map,
        final(world).dimension == old(world).dimension,
        final(world).environmental_conditions == old(world).environmental_conditions,
        final(world).discovered@.len() >= old(world).discovered@.len(),
        forall|k: int|
            0 <= k < old(world).discovered@.len() ==> (#[trigger] final(world).discovered@[k])
                == old(world).discovered@[k],
        forall|k: int|
            old(world).discovered@.len() <= k < final(world).discovered@.len() ==> {
                let entry = #[trigger] final(world).discovered@[k];
                entry.0 < final(world).dimension && entry.1 < final(world).dimension
            },
{
    let mut di: usize = 0;
    while di < 3
        invariant
            world.map == old(world).map,
            world.dimension == old(world).dimension,
            world.environmental_conditions == old(world).environmental_conditions,
            world.discovered@.len() >= old(world).discovered@.len(),
            forall|k: int|
                0 <= k < old(world).discovered@.len() ==> (#[trigger] world.discovered@[k])
                    == old(world).discovered@[k],
            forall|k: int|
                old(world).discovered@.len() <= k < world.discovered@.len() ==> {
                    let entry = #[trigger] world.discovered@[k];
                    entry.0 < world.dimension && entry.1 < world.dimension
                },
        decreases 3 - di,
    {
        let mut dj: usize = 0;
        while dj < 3
            invariant
                di < 3,
                world.map == old(world).map,
                world.dimension == old(world).dimension,
                world.environmental_conditions == old(world).environmental_conditions,
                world.discovered@.len() >= old(world).discovered@.len(),
                forall|k: int|
                    0 <= k < old(world).discovered@.len() ==> (#[trigger] world.discovered@[k])
                        == old(world).discovered@[k],
                forall|k: int|
                    old(world).discovered@.len() <= k < world.discovered@.len() ==> (
                    #[trigger] world.discovered@[k]).0 < world.dimension && world.discovered@[k].1
                        < world.dimension,
            decreases 3 - dj,
        {
            let r_opt = offset_coord(row, di);
            let c_opt = offset_coord(col, dj);
            match (r_opt, c_opt) {
                (Some(r), Some(c)) => {
                    if r < world.dimension && c < world.dimension && !contains_pair(
                        &world.discovered,
                        r,
                        c,
                    ) {
                        world.discovered.push((r, c));
                    }
                },
                _ => {},
            }
            dj += 1;
        }
        di += 1;
    }
}

/// The 3x3 neighbourhood of `(row, col)`: a tile for every cell on the map,
/// `None` for cells beyond its edge.
pub fn view_around(world: &World, row: usize, col: usize) -> (v: Vec<Vec<Option<Tile>>>)
    ensures
        v@.len() == 3,
        forall|i: int| 0 <= i < 3 ==> (#[trigger] v@[i])@.len() == 3,
        forall|i: int, j: int|
            0 <= i < 3 && 0 <= j < 3 ==> (#[trigger] v@[i]@[j]) == {
                let r = row + i - 1;
                let c = col + j - 1;
                if 0 <= r && 0 <= c && in_map_spec(*world, r, c) {
                    Some(world.map@[r]@[c])
                } else {
                    None::<Tile>
                }
            },
{
    let mut v: Vec<Vec<Option<Tile>>> = Vec::new();
    let mut i: usize = 0;
    while i < 3
        invariant
            i <= 3,
            v@.len() == i,
            forall|a: int| 0 <= a < i ==> (#[trigger] v@[a])@.len() == 3,
            forall|a: int, b: int|
                0 <= a < i && 0 <= b < 3 ==> (#[trigger] v@[a]@[b]) == {
                    let r = row + a - 1;
                    let c = col + b - 1;
                    if 0 <= r && 0 <= c && in_map_spec(*world, r, c) {
                        Some(world.map@[r]@[c])
                    } else {
                        None::<Tile>
                    }
                },
        decreases 3 - i,
    {
        let mut inner: Vec<Option<Tile>> = Vec::new();
        let mut j: usize = 0;
        while j < 3
            invariant
                i < 3,
                j <= 3,
                inner@.len() == j,
                forall|b: int|
                    0 <= b < j ==> (#[trigger] inner@[b]) == {
                        let r = row + i - 1;
                        let c = col + b - 1;
                        if 0 <= r && 0 <= c && in_map_spec(*world, r, c) {
                            Some(world.map@[r]@[c])
                        } else {
                            None::<Tile>
                        }
                    },
            decreases 3 - j,
        {
            let r_opt = offset_coord(row, i);
            let c_opt = offset_coord(col, j);
            let cell: Option<Tile> = match (r_opt, c_opt) {
                (Some(r), Some(c)) => {
                    if r < world.dimension && c < world.dimension && r < world.map.len() && c
                        < world.map[r].len() {
                        let t = &world.map[r][c];
                        Some(Tile { tile_type: t.tile_type, content: t.content.duplicate() })
                    } else {
                        None
                    }
                },
                _ => None,
            };
            inner.push(cell);
            j += 1;
        }
        v.push(inner);
        i += 1;
    }
    v
}

/// The area around the robot as a 3x3 matrix of tiles, `None` beyond the
/// map's edge.  Viewing alone does not mark tiles as discovered: the world
/// is borrowed immutably here, so discovery is recorded by [`go`], which
/// holds the world mutably after each step.
pub fn robot_view<R: Runnable>(robot: &R, world: &World) -> Vec<Vec<Option<Tile>>> {
    let row = robot.get_coordinate().get_row();
    let col = robot.get_coordinate().get_col();
    view_around(world, row, col)
}

/// The robot's 3x3 view together with its position.
pub fn where_am_i<R: Runnable>(robot: &R, world: &World) -> (Vec<Vec<Option<Tile>>>, Coordinate) {
    let row = robot.get_coordinate().get_row();
    let col = robot.get_coordinate().get_col();
    (view_around(world, row, col), Coordinate::new(row, col))
}

/// Move the robot one step in the given direction: the step must stay on the
/// map and end on walkable terrain, and the robot pays the cost of the tile
/// it leaves.  The tiles of the world do not change.
pub fn go<R: Runnable>(robot: &mut R, world: &mut World, direction: Direction) -> (r: Result<
    (Vec<Vec<Option<Tile>>>, Coordinate),
    LibError,
>)
    ensures
        final(world).map == old(world).map,
        final(world).dimension == old(world).dimension,
        final(world).environmental_conditions == old(world).environmental_conditions,
{
    let row = robot.get_coordinate().get_row();
    let col = robot.get_coordinate().get_col();
    match go_allowed_from(world, row, col, &direction) {
        Ok(_) => {
            if row >= world.map.len() {
                return Err(LibError::OutOfBounds);
            }
            if col >= world.map[row].len() {
                return Err(LibError::OutOfBounds);
            }
            let cost = world.map[row][col].tile_type.properties().cost();
            match robot.get_energy_mut().consume_energy(cost) {
                Ok(_) => {},
                Err(e) => {
                    return Err(e);
                },
            }
            let (target_row, target_col) = step_coords_from(row, col, &direction);
            *robot.get_coordinate_mut() = Coordinate::new(target_row, target_col);
            record_view(world, target_row, target_col);
            Ok(where_am_i(robot, world))
        },
        Err(e) => Err(e),
    }
}

/// Destroy the content of the tile next to the robot: water can be drawn
/// from water tiles, destructible contents are removed from the world, and
/// what was destroyed lands in the backpack.  Terrain never changes; a
/// destroyed tile's content becomes empty.
pub fn destroy<R: Runnable>(robot: &mut R, world: &mut World, direction: Direction) -> (r: Result<
    usize,
    LibError,
>)
    ensures
        final(world).dimension == old(world).dimension,
        final(world).environmental_conditions == old(world).environmental_conditions,
        final(world).discovered == old(world).discovered,
        same_shape(old(world).map@, final(world).map@),
        forall|i: int, j: int|
            0 <= i < old(world).map@.len() && 0 <= j < old(world).map@[i]@.len() ==> (
            #[trigger] final(world).map@[i]@[j]).tile_type == old(world).map@[i]@[j].tile_type,
        forall|i: int, j: int|
            0 <= i < old(world).map@.len() && 0 <= j < old(world).map@[i]@.len() ==> {
                let cell = #[trigger] final(world).map@[i]@[j];
                cell.content == old(world).map@[i]@[j].content || cell.content == Content::Empty
            },
{
    let row = robot.get_coordinate().get_row();
    let col = robot.get_coordinate().get_col();
    let (target_row, target_col) = step_coords_from(row, col, &direction);

    if target_row >= world.dimension || target_col >= world.dimension || target_row
        >= world.map.len() || target_col >= world.map[target_row].len() {
        return Err(LibError::OutOfBounds);
    }

    let target_type = world.map[target_row][target_col].tile_type;
    let target_is_empty = matches!(world.map[target_row][target_col].content, Content::Empty);

    if (matches!(target_type, TileType::ShallowWater) || matches!(target_type, TileType::DeepWater))
        && target_is_empty {
        let cost = Content::Water(0).properties().cost();
        match robot.get_energy_mut().consume_energy(cost) {
            Ok(_) => {},
            Err(e) => {
                return Err(e);
            },
        }
        let max = Content::Water(0).properties().max();
        let quantity = crate::rng::rand_in_range_inclusive(0, max);
        return crate::utils::add_to_backpack(robot, Content::Water(0), quantity);
    }

    let destroyable = match can_destroy(world, (target_row, target_col)) {
        Ok(b) => b,
        Err(e) => {
            return Err(e);
        },
    };
    if !destroyable {
        return Err(LibError::CannotDestroy);
    }

    let max = world.map[target_row][target_col].content.properties().max();
    let cost = world.map[target_row][target_col].content.properties().cost();
    match robot.get_energy_mut().consume_energy(cost) {
        Ok(_) => {},
        Err(e) => {
            return Err(e);
        },
    }

    let out = world.map[target_row][target_col].content.duplicate();
    set_tile_content(&mut world.map, target_row, target_col, Content::Empty);

    if max == 0 {
        Ok(0)
    } else {
        let quantity = crate::rng::rand_in_range_inclusive(0, max);
        crate::utils::add_to_backpack(robot, out.to_default(), quantity)
    }
}

/// Put items from the backpack onto the tile next to the robot: items can
/// fill matching containers, land on empty capable tiles, quench fire, or
/// pave grass and hills into street.  Terrain changes only to street.
pub fn put<R: Runnable>(
    robot: &mut R,
    world: &mut World,
    content_in: Content,
    quantity: usize,
    direction: Direction,
) -> (r: Result<usize, LibError>)
    ensures
        final(world).dimension == old(world).dimension,
        final(world).environmental_conditions == old(world).environmental_conditions,
        final(world).discovered == old(world).discovered,
        same_shape(old(world).map@, final(world).map@),
        forall|i: int, j: int|
            0 <= i < old(world).map@.len() && 0 <= j < old(world).map@[i]@.len() ==> ((
            #[trigger] final(world).map@[i]@[j]).tile_type == old(world).map@[i]@[j].tile_type
                || final(world).map@[i]@[j].tile_type == TileType::Street),
        content_in == Content::Empty ==> r == Result::<usize, LibError>::Err(
            LibError::WrongContentUsed,
        ),
        r is Err ==> final(world).map == old(world).map,
{
    if matches!(content_in, Content::Empty) {
        return Err(LibError::WrongContentUsed);
    }
    let held = {
        let bp = robot.get_backpack();
        if bp.counts.len() != crate::world::tile::N_CONTENTS {
            return Err(LibError::OperationNotAllowed);
        }
        bp.count_of(&content_in.to_default())
    };
    if held < 1 {
        return Err(LibError::WrongContentUsed);
    }
    let row = robot.get_coordinate().get_row();
    let col = robot.get_coordinate().get_col();
    let (target_row, target_col) = step_coords_from(row, col, &direction);
    if !go_allowed_row_col(world, (target_row, target_col)) {
        return Err(LibError::OutOfBounds);
    }
    if target_row >= world.map.len() || target_col >= world.map[target_row].len() {
        return Err(LibError::OutOfBounds);
    }

    let max_in = content_in.properties().max();
    let mut amount = if quantity <= held {
        quantity
    } else {
        held
    };
    if amount > max_in {
        amount = max_in;
    }

    let target_type = world.map[target_row][target_col].tile_type;
    let target_content = world.map[target_row][target_col].content.duplicate();

    match (target_type, target_content, &content_in) {
        (_, Content::Bank(range), Content::Coin(_)) => {
            if range.end < range.start {
                return Err(LibError::OperationNotAllowed);
            }
            let (quantity_to_remove, cost) = match can_store(
                robot,
                range.end - range.start,
                &content_in.to_default(),
                &Content::Bank(0usize..0usize),
                quantity,
            ) {
                Ok(pair) => pair,
                Err(e) => {
                    return Err(e);
                },
            };
            let removed = match backpack_remove(
                robot.get_backpack_mut(),
                &content_in.to_default(),
                quantity_to_remove,
            ) {
                Ok(n) => n,
                Err(e) => {
                    return Err(e);
                },
            };
            if removed > usize::MAX - range.start {
                return Err(LibError::OperationNotAllowed);
            }
            match robot.get_energy_mut().consume_energy(cost) {
                Ok(_) => {},
                Err(e) => {
                    return Err(e);
                },
            }
            set_tile_content(
                &mut world.map,
                target_row,
                target_col,
                Content::Bank((range.start + removed)..range.end),
            );
            Ok(removed)
        },
        (_, Content::Bin(range), Content::Garbage(_)) => {
            if range.end < range.start {
                return Err(LibError::OperationNotAllowed);
            }
            let (quantity_to_remove, cost) = match can_store(
                robot,
                range.end - range.start,
                &content_in.to_default(),
                &Content::Bin(0usize..0usize),
                quantity,
            ) {
                Ok(pair) => pair,
                Err(e) => {
                    return Err(e);
                },
            };
            let removed = match backpack_remove(
                robot.get_backpack_mut(),
                &content_in.to_default(),
                quantity_to_remove,
            ) {
                Ok(n) => n,
                Err(e) => {
                    return Err(e);
                },
            };
            if removed > usize::MAX - range.start {
                return Err(LibError::OperationNotAllowed);
            }
            match robot.get_energy_mut().consume_energy(cost) {
                Ok(_) => {},
                Err(e) => {
                    return Err(e);
                },
            }
            set_tile_content(
                &mut world.map,
                target_row,
                target_col,
                Content::Bin((range.start + removed)..range.end),
            );
            Ok(removed)
        },
        (_, Content::Crate(range), Content::Tree(_)) => {
            if range.end < range.start {
                return Err(LibError::OperationNotAllowed);
            }
            let (quantity_to_remove, cost) = match can_store(
                robot,
                range.end - range.start,
                &content_in.to_default(),
                &Content::Crate(0usize..0usize),
                quantity,
            ) {
                Ok(pair) => pair,
                Err(e) => {
                    return Err(e);
                },
            };
            let removed = match backpack_remove(
                robot.get_backpack_mut(),
                &content_in.to_default(),
                quantity_to_remove,
            ) {
                Ok(n) => n,
                Err(e) => {
                    return Err(e);
                },
            };
            if removed > usize::MAX - range.start {
                return Err(LibError::OperationNotAllowed);
            }
            match robot.get_energy_mut().consume_energy(cost) {
                Ok(_) => {},
                Err(e) => {
                    return Err(e);
                },
            }
            set_tile_content(
                &mut world.map,
                target_row,
                target_col,
                Content::Crate((range.start + removed)..range.end),
            );
            Ok(removed)
        },
        (_, Content::Empty, Content::Coin(_)) | (_, Content::Empty, Content::Garbage(_)) | (
            _,
            Content::Empty,
            Content::Tree(_),
        ) => {
            if !target_type.properties().can_hold(&content_in) {
                return Err(LibError::WrongContentUsed);
            }
            let cost_per = content_in.properties().cost();
            let cost = match cost_per.checked_mul(amount) {
                Some(c) => c,
                None => {
                    return Err(LibError::NotEnoughEnergy);
                },
            };
            if !robot.get_energy().has_enough_energy(cost) {
                return Err(LibError::NotEnoughEnergy);
            }
            let removed = match backpack_remove(
                robot.get_backpack_mut(),
                &content_in.to_default(),
                amount,
            ) {
                Ok(n) => n,
                Err(e) => {
                    return Err(e);
                },
            };
            match robot.get_energy_mut().consume_energy(cost) {
                Ok(_) => {},
                Err(e) => {
                    return Err(e);
                },
            }
            let placed = match &content_in {
                Content::Coin(_) => Content::Coin(amount),
                Content::Garbage(_) => Content::Garbage(amount),
                _ => Content::Tree(amount),
            };
            set_tile_content(&mut world.map, target_row, target_col, placed);
            Ok(removed)
        },
        (_, Content::Tree(_), Content::Fire) | (_, Content::Empty, Content::Fire) => {
            if !target_type.properties().can_hold(&content_in) {
                return Err(LibError::WrongContentUsed);
            }
            let cost_per = content_in.properties().cost();
            let cost = match cost_per.checked_mul(amount) {
                Some(c) => c,
                None => {
                    return Err(LibError::NotEnoughEnergy);
                },
            };
            if !robot.get_energy().has_enough_energy(cost) {
                return Err(LibError::NotEnoughEnergy);
            }
            let removed = match backpack_remove(robot.get_backpack_mut(), &Content::Fire, 1) {
                Ok(n) => n,
                Err(e) => {
                    return Err(e);
                },
            };
            match robot.get_energy_mut().consume_energy(cost) {
                Ok(_) => {},
                Err(e) => {
                    return Err(e);
                },
            }
            set_tile_content(&mut world.map, target_row, target_col, Content::Fire);
            Ok(removed)
        },
        (TileType::Grass, Content::Empty, Content::Rock(_)) | (
            TileType::Hill,
            Content::Empty,
            Content::Rock(_),
        ) => {
            let cost = content_in.properties().cost();
            if !robot.get_energy().has_enough_energy(cost) {
                return Err(LibError::NotEnoughEnergy);
            }
            let removed = match backpack_remove(
                robot.get_backpack_mut(),
                &content_in.to_default(),
                1,
            ) {
                Ok(n) => n,
                Err(e) => {
                    return Err(e);
                },
            };
            match robot.get_energy_mut().consume_energy(cost) {
                Ok(_) => {},
                Err(e) => {
                    return Err(e);
                },
            }
            set_tile_type(&mut world.map, target_row, target_col, TileType::Street);
            Ok(removed)
        },
        (_, Content::Empty, Content::Rock(_)) => {
            if !target_type.properties().can_hold(&content_in) {
                return Err(LibError::WrongContentUsed);
            }
            let cost_per = content_in.properties().cost();
            let cost = match cost_per.checked_mul(amount) {
                Some(c) => c,
                None => {
                    return Err(LibError::NotEnoughEnergy);
                },
            };
            if !robot.get_energy().has_enough_energy(cost) {
                return Err(LibError::NotEnoughEnergy);
            }
            let removed = match backpack_remove(
                robot.get_backpack_mut(),
                &content_in.to_default(),
                amount,
            ) {
                Ok(n) => n,
                Err(e) => {
                    return Err(e);
                },
            };
            match robot.get_energy_mut().consume_energy(cost) {
                Ok(_) => {},
                Err(e) => {
                    return Err(e);
                },
            }
            set_tile_content(&mut world.map, target_row, target_col, Content::Rock(amount));
            Ok(removed)
        },
        (_, Content::Fire, Content::Water(_)) => {
            let cost = content_in.properties().cost();
            if !robot.get_energy().has_enough_energy(cost) {
                return Err(LibError::NotEnoughEnergy);
            }
            let removed = match backpack_remove(
                robot.get_backpack_mut(),
                &content_in.to_default(),
                1,
            ) {
                Ok(n) => n,
                Err(e) => {
                    return Err(e);
                },
            };
            match robot.get_energy_mut().consume_energy(cost) {
                Ok(_) => {},
                Err(e) => {
                    return Err(e);
                },
            }
            set_tile_content(&mut world.map, target_row, target_col, Content::Empty);
            Ok(removed)
        },
        (_, Content::Empty, Content::Water(_)) => Err(LibError::WrongContentUsed),
        (TileType::DeepWater, Content::Water(size), Content::Water(_)) | (
            TileType::ShallowWater,
            Content::Water(size),
            Content::Water(_),
        ) => {
            let theoretical_max = content_in.properties().max();
            if size >= theoretical_max {
                amount = 0;
            } else if amount >= theoretical_max - size {
                amount = theoretical_max - size;
            }
            let cost_per = content_in.properties().cost();
            let cost = match cost_per.checked_mul(amount) {
                Some(c) => c,
                None => {
                    return Err(LibError::NotEnoughEnergy);
                },
            };
            if !robot.get_energy().has_enough_energy(cost) {
                return Err(LibError::NotEnoughEnergy);
            }
            let removed = match backpack_remove(
                robot.get_backpack_mut(),
                &content_in.to_default(),
                amount,
            ) {
                Ok(n) => n,
                Err(e) => {
                    return Err(e);
                },
            };
            match robot.get_energy_mut().consume_energy(cost) {
                Ok(_) => {},
                Err(e) => {
                    return Err(e);
                },
            }
            set_tile_content(&mut world.map, target_row, target_col, Content::Water(size + amount));
            Ok(removed)
        },
        (_, Content::Fire, _) => {
            let cost_per = Content::Water(0).properties().cost();
            let cost = match cost_per.checked_mul(amount) {
                Some(c) => c,
                None => {
                    return Err(LibError::NotEnoughEnergy);
                },
            };
            if !robot.get_energy().has_enough_energy(cost) {
                return Err(LibError::NotEnoughEnergy);
            }
            let removed = match backpack_remove(
                robot.get_backpack_mut(),
                &content_in.to_default(),
                amount,
            ) {
                Ok(n) => n,
                Err(e) => {
                    return Err(e);
                },
            };
            match robot.get_energy_mut().consume_energy(cost) {
                Ok(_) => {},
                Err(e) => {
                    return Err(e);
                },
            }
            Ok(removed)
        },
        _ => Err(LibError::OperationNotAllowed),
    }
}

/// The current weather and clock of the world.
pub fn look_at_sky<R: Runnable>(_robot: &R, world: &mut World) -> (r: EnvironmentalConditions)
    ensures
        *final(world) == *old(world),
        r.forecast() == old(world).environmental_conditions.forecast(),
        r.index() == old(world).environmental_conditions.index(),
        r.time() == old(world).environmental_conditions.time(),
        r.progression() == old(world).environmental_conditions.progression(),
{
    world.environmental_conditions.duplicate()
}

/// An exact copy of a tile matrix.
fn copy_tile_matrix(map: &Vec<Vec<Tile>>) -> (r: Vec<Vec<Tile>>)
    ensures
        r@.len() == map@.len(),
        forall|i: int| 0 <= i < map@.len() ==> (#[trigger] r@[i])@ == map@[i]@,
{
    let mut out: Vec<Vec<Tile>> = Vec::new();
    let mut i: usize = 0;
    while i < map.len()
        invariant
            i <= map@.len(),
            out@.len() == i,
            forall|a: int| 0 <= a < i ==> (#[trigger] out@[a])@ == map@[a]@,
        decreases map@.len() - i,
    {
        let row = &map[i];
        let mut new_row: Vec<Tile> = Vec::new();
        let mut j: usize = 0;
        while j < row.len()
            invariant
                i < map@.len(),
                j <= row@.len(),
                row == map@[i as int],
                new_row@ =~= row@.subrange(0, j as int),
            decreases row@.len() - j,
        {
            let t = &row[j];
            new_row.push(Tile { tile_type: t.tile_type, content: t.content.duplicate() });
            j += 1;
        }
        proof {
            assert(new_row@ =~= map@[i as int]@);
        }
        out.push(new_row);
        i += 1;
    }
    out
}

/// A copy of the whole map, its dimension, and the robot's position.
pub fn debug<R: Runnable>(robot: &R, world: &mut World) -> (r: (Vec<Vec<Tile>>, usize, Coordinate))
    ensures
        *final(world) == *old(world),
        r.0@.len() == old(world).map@.len(),
        forall|i: int|
            0 <= i < old(world).map@.len() ==> (#[trigger] r.0@[i])@ == old(world).map@[i]@,
        r.1 == old(world).dimension,
{
    let map_copy = copy_tile_matrix(&world.map);
    let row = robot.get_coordinate().get_row();
    let col = robot.get_coordinate().get_col();
    (map_copy, world.dimension, Coordinate::new(row, col))
}

/// The robot's private map: the tiles recorded as discovered so far, `None`
/// everywhere else.  Discovery is recorded by [`go`] after each step; a view
/// through [`robot_view`] alone does not reach the private map, since the
/// view borrows the world immutably.
pub fn plot(world: &World) -> (r: Option<Vec<Vec<Option<Tile>>>>)
    ensures
        r is Some,
        r->Some_0@.len() == world.dimension,
        forall|i: int|
            0 <= i < world.dimension ==> (#[trigger] r->Some_0@[i])@.len() == world.dimension,
        forall|i: int, j: int|
            0 <= i < world.dimension && 0 <= j < world.dimension ==> ((#[trigger] r->Some_0@[i]@[j])
                is Some <==> (world.discovered@.contains((i as usize, j as usize)) && in_map_spec(
                *world,
                i,
                j,
            ))),
        forall|i: int, j: int|
            0 <= i < world.dimension && 0 <= j < world.dimension && (#[trigger] r->Some_0@[i]@[j])
                is Some ==> r->Some_0@[i]@[j] == Some(world.map@[i]@[j]),
{
    let dim = world.dimension;
    let mut out: Vec<Vec<Option<Tile>>> = Vec::new();
    let mut i: usize = 0;
    while i < dim
        invariant
            i <= dim,
            out@.len() == i,
            forall|a: int| 0 <= a < i ==> (#[trigger] out@[a])@.len() == dim,
            forall|a: int, b: int|
                0 <= a < i && 0 <= b < dim ==> (#[trigger] out@[a]@[b]) is None,
        decreases dim - i,
    {
        let mut row: Vec<Option<Tile>> = Vec::new();
        let mut j: usize = 0;
        while j < dim
            invariant
                j <= dim,
                row@.len() == j,
                forall|b: int| 0 <= b < j ==> (#[trigger] row@[b]) is None,
            decreases dim - j,
        {
            row.push(None);
            j += 1;
        }
        out.push(row);
        i += 1;
    }

    let mut k: usize = 0;
    while k < world.discovered.len()
        invariant
            k <= world.discovered@.len(),
            dim == world.dimension,
            out@.len() == world.dimension,
            forall|a: int| 0 <= a < out@.len() ==> (#[trigger] out@[a])@.len() == world.dimension,
            forall|a: int, b: int|
                0 <= a < world.dimension && 0 <= b < world.dimension ==> ((#[trigger] out@[a]@[b])
                    is Some <==> (exists|m: int|
                    0 <= m < k && world.discovered@[m] == (a as usize, b as usize) && in_map_spec(
                        *world,
                        a,
                        b,
                    ))),
            forall|a: int, b: int|
                0 <= a < world.dimension && 0 <= b < world.dimension && (#[trigger] out@[a]@[b])
                    is Some ==> out@[a]@[b] == Some(world.map@[a]@[b]),
        decreases world.discovered@.len() - k,
    {
        let (a, b) = (world.discovered[k].0, world.discovered[k].1);
        if a < dim && b < dim && a < world.map.len() && b < world.map[a].len() {
            let t = &world.map[a][b];
            let tile = Tile { tile_type: t.tile_type, content: t.content.duplicate() };
            let row_ref = &mut out[a];
            let cell_ref = &mut row_ref[b];
            *cell_ref = Some(tile);
        }
        k += 1;
    }
    proof {
        assert forall|a: int, b: int|
            0 <= a < world.dimension && 0 <= b < world.dimension implies ((#[trigger] out@[a]@[b])
            is Some <==> (world.discovered@.contains((a as usize, b as usize)) && in_map_spec(
            *world,
            a,
            b,
        ))) by {
            if world.discovered@.contains((a as usize, b as usize)) {
                let m = choose|m: int|
                    0 <= m < world.discovered@.len() && world.discovered@[m] == (
                        a as usize,
                        b as usize,
                    );
                assert(0 <= m < world.discovered@.len());
            }
        }
    }
    Some(out)
}

} // verus!
