use vstd::prelude::*;

verus! {

use core::ops::Range;

/// Number of content kinds, including the empty one.
pub const N_CONTENTS: usize = 10;

/// The terrain kind of a single grid cell.
#[derive(Debug, PartialEq, Eq, Structural, Hash, Clone, Copy)]
pub enum TileType {
    DeepWater,
    ShallowWater,
    Sand,
    Grass,
    Street,
    Hill,
    Mountain,
    Snow,
    Lava,
}

/// What a tile carries on top of its terrain: a resource, a hazard or a
/// man-made feature, some with a quantity or a stored-capacity range, or
/// nothing at all (`Empty`).
#[derive(Clone, Debug, Hash)]
pub enum Content {
    Rock(usize),
    Tree(usize),
    Garbage(usize),
    Fire,
    Coin(usize),
    Bin(Range<usize>),
    Crate(Range<usize>),
    Bank(Range<usize>),
    Water(usize),
    Empty,
}

impl PartialEq for Content {
    fn eq(&self, other: &Content) -> (r: bool) {
        match (self, other) {
            (Content::Rock(a), Content::Rock(b)) => a == b,
            (Content::Tree(a), Content::Tree(b)) => a == b,
            (Content::Garbage(a), Content::Garbage(b)) => a == b,
            (Content::Fire, Content::Fire) => true,
            (Content::Coin(a), Content::Coin(b)) => a == b,
            (Content::Bin(a), Content::Bin(b)) => a.start == b.start && a.end == b.end,
            (Content::Crate(a), Content::Crate(b)) => a.start == b.start && a.end == b.end,
            (Content::Bank(a), Content::Bank(b)) => a.start == b.start && a.end == b.end,
            (Content::Water(a), Content::Water(b)) => a == b,
            (Content::Empty, Content::Empty) => true,
            _ => false,
        }
    }
}

impl vstd::std_specs::cmp::PartialEqSpecImpl for Content {
    open spec fn obeys_eq_spec() -> bool {
        true
    }

    open spec fn eq_spec(&self, other: &Content) -> bool {
        *self == *other
    }
}

impl Eq for Content {}

/// Index of a content kind into the capability tables; quantities do not
/// matter.
pub open spec fn content_index_spec(c: Content) -> int {
    match c {
        Content::Rock(_) => 0,
        Content::Tree(_) => 1,
        Content::Garbage(_) => 2,
        Content::Fire => 3,
        Content::Coin(_) => 4,
        Content::Bin(_) => 5,
        Content::Crate(_) => 6,
        Content::Bank(_) => 7,
        Content::Water(_) => 8,
        Content::Empty => 9,
    }
}

/// The canonical zero-quantity value of each content kind.
pub open spec fn content_default_spec(c: Content) -> Content {
    match c {
        Content::Rock(_) => Content::Rock(0),
        Content::Tree(_) => Content::Tree(0),
        Content::Garbage(_) => Content::Garbage(0),
        Content::Fire => Content::Fire,
        Content::Coin(_) => Content::Coin(0),
        Content::Bin(_) => Content::Bin(0usize..0usize),
        Content::Crate(_) => Content::Crate(0usize..0usize),
        Content::Bank(_) => Content::Bank(0usize..0usize),
        Content::Water(_) => Content::Water(0),
        Content::Empty => Content::Empty,
    }
}

/// Whether a robot may stand on the given terrain.
pub open spec fn tile_walk_spec(t: TileType) -> bool {
    match t {
        TileType::DeepWater => false,
        TileType::Lava => false,
        _ => true,
    }
}

/// Energy cost of walking onto the given terrain.
pub open spec fn tile_cost_spec(t: TileType) -> usize {
    match t {
        TileType::DeepWater => 0,
        TileType::ShallowWater => 5,
        TileType::Sand => 3,
        TileType::Grass => 1,
        TileType::Street => 0,
        TileType::Hill => 5,
        TileType::Mountain => 10,
        TileType::Snow => 3,
        TileType::Lava => 0,
    }
}

/// The capability table: whether terrain `t` declares that it can hold the
/// content kind with index `i`.
pub open spec fn can_hold_index_spec(t: TileType, i: int) -> bool {
    match t {
        TileType::DeepWater => i == 8,
        TileType::ShallowWater => i == 8,
        TileType::Sand => i == 0 || i == 2 || i == 4 || i == 5 || i == 6 || i == 9,
        TileType::Grass => i != 8 && 0 <= i <= 9,
        TileType::Street => i == 0 || i == 2 || i == 4 || i == 5 || i == 7 || i == 9,
        TileType::Hill => i == 0 || i == 1 || i == 2 || i == 3 || i == 4 || i == 5 || i == 6
            || i == 9,
        TileType::Mountain => i == 0 || i == 2 || i == 4 || i == 5 || i == 6 || i == 9,
        TileType::Snow => i == 0 || i == 2 || i == 4 || i == 6 || i == 9,
        TileType::Lava => i == 9,
    }
}

/// Whether terrain `t` declares that it can hold content `c` (by kind).
pub open spec fn can_hold_spec(t: TileType, c: Content) -> bool {
    can_hold_index_spec(t, content_index_spec(c))
}

/// Whether a content kind can be destroyed by a robot.
pub open spec fn content_destroy_spec(c: Content) -> bool {
    match c {
        Content::Rock(_) => true,
        Content::Tree(_) => true,
        Content::Garbage(_) => true,
        Content::Fire => true,
        Content::Coin(_) => true,
        Content::Bin(_) => false,
        Content::Crate(_) => false,
        Content::Bank(_) => false,
        Content::Water(_) => true,
        Content::Empty => false,
    }
}

/// Greatest quantity a content kind yields when destroyed or accepts when
/// stored.
pub open spec fn content_max_spec(c: Content) -> usize {
    match c {
        Content::Rock(_) => 4,
        Content::Tree(_) => 5,
        Content::Garbage(_) => 3,
        Content::Fire => 0,
        Content::Coin(_) => 10,
        Content::Bin(_) => 10,
        Content::Crate(_) => 20,
        Content::Bank(_) => 50,
        Content::Water(_) => 20,
        Content::Empty => 0,
    }
}

/// Whether a content kind can receive stored items.
pub open spec fn content_store_spec(c: Content) -> bool {
    match c {
        Content::Coin(_) => true,
        Content::Bin(_) => true,
        Content::Crate(_) => true,
        Content::Bank(_) => true,
        Content::Water(_) => true,
        _ => false,
    }
}

/// Energy cost of interacting with a content kind.
pub open spec fn content_cost_spec(c: Content) -> usize {
    match c {
        Content::Rock(_) => 1,
        Content::Tree(_) => 3,
        Content::Garbage(_) => 4,
        Content::Fire => 5,
        Content::Coin(_) => 0,
        Content::Bin(_) => 0,
        Content::Crate(_) => 0,
        Content::Bank(_) => 0,
        Content::Water(_) => 3,
        Content::Empty => 0,
    }
}

/// The properties of a terrain kind: whether a robot can walk on it, which
/// content kinds it can hold, and the energy cost of stepping on it.
#[derive(Debug, Clone)]
pub struct TileTypeProps {
    pub walk: bool,
    pub hold: [(Content, bool); 10],
    pub cost: usize,
}

impl TileTypeProps {
    pub fn walk(&self) -> (r: bool)
        ensures
            r == self.walk,
    {
        self.walk
    }

    pub fn hold(&self) -> (r: &[(Content, bool); 10])
        ensures
            r == &self.hold,
    {
        &self.hold
    }

    pub fn can_hold(&self, content: &Content) -> (r: bool)
        ensures
            r == self.hold@[content_index_spec(*content)].1,
    {
        let i = content.index();
        self.hold[i].1
    }

    pub fn cost(&self) -> (r: usize)
        ensures
            r == self.cost,
    {
        self.cost
    }
}

/// The properties of a content kind: whether it can be destroyed, the largest
/// quantity involved, whether it stores items, and its interaction cost.
#[derive(Debug, Clone)]
pub struct ContentProps {
    pub destroy: bool,
    pub max: usize,
    pub store: bool,
    pub cost: usize,
}

impl ContentProps {
    pub fn destroy(&self) -> (r: bool)
        ensures
            r == self.destroy,
    {
        self.destroy
    }

    pub fn max(&self) -> (r: usize)
        ensures
            r == self.max,
    {
        self.max
    }

    pub fn store(&self) -> (r: bool)
        ensures
            r == self.store,
    {
        self.store
    }

    pub fn cost(&self) -> (r: usize)
        ensures
            r == self.cost,
    {
        self.cost
    }
}

impl TileType {
    /// The property record of this terrain kind, agreeing with the capability
    /// and cost tables.
    pub fn properties(&self) -> (r: TileTypeProps)
        ensures
            r.walk == tile_walk_spec(*self),
            r.cost == tile_cost_spec(*self),
            forall|i: int| 0 <= i < 10 ==> (#[trigger] r.hold@[i]).1 == can_hold_index_spec(
                *self,
                i,
            ),
            forall|i: int| 0 <= i < 10 ==> content_index_spec((#[trigger] r.hold@[i]).0) == i,
    {
        let hold: [(Content, bool); 10] = [
            (Content::Rock(0), self.can_hold_kind(0)),
            (Content::Tree(0), self.can_hold_kind(1)),
            (Content::Garbage(0), self.can_hold_kind(2)),
            (Content::Fire, self.can_hold_kind(3)),
            (Content::Coin(0), self.can_hold_kind(4)),
            (Content::Bin(0usize..0usize), self.can_hold_kind(5)),
            (Content::Crate(0usize..0usize), self.can_hold_kind(6)),
            (Content::Bank(0usize..0usize), self.can_hold_kind(7)),
            (Content::Water(0), self.can_hold_kind(8)),
            (Content::Empty, self.can_hold_kind(9)),
        ];
        TileTypeProps { walk: self.walk_flag(), hold, cost: self.cost_value() }
    }

    fn walk_flag(&self) -> (r: bool)
        ensures
            r == tile_walk_spec(*self),
    {
        match self {
            TileType::DeepWater => false,
            TileType::Lava => false,
            _ => true,
        }
    }

    fn cost_value(&self) -> (r: usize)
        ensures
            r == tile_cost_spec(*self),
    {
        match self {
            TileType::DeepWater => 0,
            TileType::ShallowWater => 5,
            TileType::Sand => 3,
            TileType::Grass => 1,
            TileType::Street => 0,
            TileType::Hill => 5,
            TileType::Mountain => 10,
            TileType::Snow => 3,
            TileType::Lava => 0,
        }
    }

    fn can_hold_kind(&self, i: usize) -> (r: bool)
        requires
            i < 10,
        ensures
            r == can_hold_index_spec(*self, i as int),
    {
        match self {
            TileType::DeepWater => i == 8,
            TileType::ShallowWater => i == 8,
            TileType::Sand => i == 0 || i == 2 || i == 4 || i == 5 || i == 6 || i == 9,
            TileType::Grass => i != 8,
            TileType::Street => i == 0 || i == 2 || i == 4 || i == 5 || i == 7 || i == 9,
            TileType::Hill => i <= 6 || i == 9,
            TileType::Mountain => i == 0 || i == 2 || i == 4 || i == 5 || i == 6 || i == 9,
            TileType::Snow => i == 0 || i == 2 || i == 4 || i == 6 || i == 9,
            TileType::Lava => i == 9,
        }
    }
}

impl Content {
    /// Index of this content kind into the capability tables.
    pub fn index(&self) -> (r: usize)
        ensures
            r == content_index_spec(*self),
            r < 10,
    {
        match self {
            Content::Rock(_) => 0,
            Content::Tree(_) => 1,
            Content::Garbage(_) => 2,
            Content::Fire => 3,
            Content::Coin(_) => 4,
            Content::Bin(_) => 5,
            Content::Crate(_) => 6,
            Content::Bank(_) => 7,
            Content::Water(_) => 8,
            Content::Empty => 9,
        }
    }

    /// The zero-quantity value of this content kind.
    pub fn to_default(&self) -> (r: Content)
        ensures
            r == content_default_spec(*self),
    {
        match self {
            Content::Coin(_) => Content::Coin(0),
            Content::Garbage(_) => Content::Garbage(0),
            Content::Water(_) => Content::Water(0),
            Content::Rock(_) => Content::Rock(0),
            Content::Tree(_) => Content::Tree(0),
            Content::Bin(_) => Content::Bin(0usize..0usize),
            Content::Bank(_) => Content::Bank(0usize..0usize),
            Content::Crate(_) => Content::Crate(0usize..0usize),
            Content::Fire => Content::Fire,
            Content::Empty => Content::Empty,
        }
    }

    /// An exact copy of this content value.
    pub fn duplicate(&self) -> (r: Content)
        ensures
            r == *self,
    {
        match self {
            Content::Rock(v) => Content::Rock(*v),
            Content::Tree(v) => Content::Tree(*v),
            Content::Garbage(v) => Content::Garbage(*v),
            Content::Fire => Content::Fire,
            Content::Coin(v) => Content::Coin(*v),
            Content::Bin(r) => Content::Bin(r.start..r.end),
            Content::Crate(r) => Content::Crate(r.start..r.end),
            Content::Bank(r) => Content::Bank(r.start..r.end),
            Content::Water(v) => Content::Water(*v),
            Content::Empty => Content::Empty,
        }
    }

    /// The property record of this content kind, agreeing with the content
    /// property tables.
    pub fn properties(&self) -> (r: ContentProps)
        ensures
            r.destroy == content_destroy_spec(*self),
            r.max == content_max_spec(*self),
            r.store == content_store_spec(*self),
            r.cost == content_cost_spec(*self),
    {
        match self {
            Content::Rock(_) => ContentProps { destroy: true, max: 4, store: false, cost: 1 },
            Content::Tree(_) => ContentProps { destroy: true, max: 5, store: false, cost: 3 },
            Content::Garbage(_) => ContentProps { destroy: true, max: 3, store: false, cost: 4 },
            Content::Fire => ContentProps { destroy: true, max: 0, store: false, cost: 5 },
            Content::Coin(_) => ContentProps { destroy: true, max: 10, store: true, cost: 0 },
            Content::Bin(_) => ContentProps { destroy: false, max: 10, store: true, cost: 0 },
            Content::Crate(_) => ContentProps { destroy: false, max: 20, store: true, cost: 0 },
            Content::Bank(_) => ContentProps { destroy: false, max: 50, store: true, cost: 0 },
            Content::Water(_) => ContentProps { destroy: true, max: 20, store: true, cost: 3 },
            Content::Empty => ContentProps { destroy: false, max: 0, store: false, cost: 0 },
        }
    }
}

/// One cell of the world: a terrain kind and what stands on it.
#[derive(Clone, Debug)]
pub struct Tile {
    pub tile_type: TileType,
    pub content: Content,
}

} // verus!
