//! Directions in the world grid and integer cell positions.

use vstd::prelude::*;

verus! {

/// One step back along an axis.
pub const BACK: i32 = -1;

/// A step in the grid, or the difference of two positions.
#[derive(Clone, Copy, Debug, PartialEq, Eq, Hash, Structural)]
pub struct Vector3 {
    pub x: i32,
    pub y: i32,
    pub z: i32,
}

/// The position of a cell of the world. Coordinates wrap around at the ends
/// of the 32-bit range.
#[derive(Clone, Copy, Debug, PartialEq, Eq, Hash, Structural)]
pub struct BlockPos {
    pub x: i32,
    pub y: i32,
    pub z: i32,
}

/// A coordinate moved by a step, wrapping around.
pub open spec fn shifted(c: i32, d: i32) -> i32 {
    vstd::wrapping::i32_specs::wrapping_add(c, d)
}

/// A step taken `n` times, wrapping around.
pub open spec fn scaled(d: i32, n: i32) -> i32 {
    vstd::wrapping::i32_specs::wrapping_mul(d, n)
}

impl BlockPos {
    /// The position one step away.
    pub open spec fn spec_offset(self, by: Vector3) -> BlockPos {
        BlockPos { x: shifted(self.x, by.x), y: shifted(self.y, by.y), z: shifted(self.z, by.z) }
    }

    /// The position `n` steps away.
    pub open spec fn spec_offset_dir(self, by: Vector3, n: i32) -> BlockPos {
        self.spec_offset(Vector3 { x: scaled(by.x, n), y: scaled(by.y, n), z: scaled(by.z, n) })
    }

    /// The position above.
    pub open spec fn spec_up(self) -> BlockPos {
        self.spec_offset(Vector3 { x: 0, y: 1, z: 0 })
    }

    /// The position below.
    pub open spec fn spec_down(self) -> BlockPos {
        self.spec_offset(Vector3 { x: 0, y: BACK, z: 0 })
    }

    /// The position with the given coordinates.
    pub fn new(x: i32, y: i32, z: i32) -> (r: BlockPos)
        ensures
            r == (BlockPos { x, y, z }),
    {
        BlockPos { x, y, z }
    }

    /// The position one step away.
    pub fn offset(&self, by: Vector3) -> (r: BlockPos)
        ensures
            r == self.spec_offset(by),
    {
        BlockPos {
            x: self.x.wrapping_add(by.x),
            y: self.y.wrapping_add(by.y),
            z: self.z.wrapping_add(by.z),
        }
    }

    /// The position `n` steps away.
    pub fn offset_dir(&self, by: Vector3, n: i32) -> (r: BlockPos)
        ensures
            r == self.spec_offset_dir(by, n),
    {
        self.offset(
            Vector3 { x: by.x.wrapping_mul(n), y: by.y.wrapping_mul(n), z: by.z.wrapping_mul(n) },
        )
    }

    /// The position above.
    pub fn up(&self) -> (r: BlockPos)
        ensures
            r == self.spec_up(),
    {
        self.offset(Vector3 { x: 0, y: 1, z: 0 })
    }

    /// The position below.
    pub fn down(&self) -> (r: BlockPos)
        ensures
            r == self.spec_down(),
    {
        self.offset(Vector3 { x: 0, y: BACK, z: 0 })
    }
}

/// One of the four horizontal compass directions.
#[derive(Clone, Copy, Debug, PartialEq, Eq, Structural)]
pub enum HorizontalFacing {
    North,
    South,
    West,
    East,
}

impl HorizontalFacing {
    /// The direction pointing the other way.
    pub open spec fn spec_opposite(self) -> HorizontalFacing {
        match self {
            HorizontalFacing::North => HorizontalFacing::South,
            HorizontalFacing::South => HorizontalFacing::North,
            HorizontalFacing::West => HorizontalFacing::East,
            HorizontalFacing::East => HorizontalFacing::West,
        }
    }

    /// The step to the neighbour in this direction.
    pub open spec fn spec_to_offset(self) -> Vector3 {
        match self {
            HorizontalFacing::North => Vector3 { x: 0, y: 0, z: BACK },
            HorizontalFacing::South => Vector3 { x: 0, y: 0, z: 1 },
            HorizontalFacing::West => Vector3 { x: BACK, y: 0, z: 0 },
            HorizontalFacing::East => Vector3 { x: 1, y: 0, z: 0 },
        }
    }

    /// The direction a quarter turn to the right.
    pub open spec fn spec_rotate_clockwise(self) -> HorizontalFacing {
        match self {
            HorizontalFacing::North => HorizontalFacing::East,
            HorizontalFacing::South => HorizontalFacing::West,
            HorizontalFacing::West => HorizontalFacing::North,
            HorizontalFacing::East => HorizontalFacing::South,
        }
    }

    /// The position of the variant in the order north, south, west, east.
    pub open spec fn spec_index(self) -> u16 {
        match self {
            HorizontalFacing::North => 0,
            HorizontalFacing::South => 1,
            HorizontalFacing::West => 2,
            HorizontalFacing::East => 3,
        }
    }

    /// The four directions, in the order north, south, west, east.
    pub fn all() -> (r: [HorizontalFacing; 4])
        ensures
            r@ == seq![
                HorizontalFacing::North,
                HorizontalFacing::South,
                HorizontalFacing::West,
                HorizontalFacing::East,
            ],
    {
        let r = [
            HorizontalFacing::North,
            HorizontalFacing::South,
            HorizontalFacing::West,
            HorizontalFacing::East,
        ];
        assert(r@ =~= seq![
            HorizontalFacing::North,
            HorizontalFacing::South,
            HorizontalFacing::West,
            HorizontalFacing::East,
        ]);
        r
    }

    /// The step to the neighbour in this direction.
    pub fn to_offset(&self) -> (r: Vector3)
        ensures
            r == self.spec_to_offset(),
    {
        match self {
            HorizontalFacing::North => Vector3 { x: 0, y: 0, z: BACK },
            HorizontalFacing::South => Vector3 { x: 0, y: 0, z: 1 },
            HorizontalFacing::West => Vector3 { x: BACK, y: 0, z: 0 },
            HorizontalFacing::East => Vector3 { x: 1, y: 0, z: 0 },
        }
    }

    /// The direction pointing the other way.
    pub fn opposite(&self) -> (r: HorizontalFacing)
        ensures
            r == self.spec_opposite(),
    {
        match self {
            HorizontalFacing::North => HorizontalFacing::South,
            HorizontalFacing::South => HorizontalFacing::North,
            HorizontalFacing::West => HorizontalFacing::East,
            HorizontalFacing::East => HorizontalFacing::West,
        }
    }

    /// The direction a quarter turn to the right.
    pub fn rotate_clockwise(&self) -> (r: HorizontalFacing)
        ensures
            r == self.spec_rotate_clockwise(),
    {
        match self {
            HorizontalFacing::North => HorizontalFacing::East,
            HorizontalFacing::South => HorizontalFacing::West,
            HorizontalFacing::West => HorizontalFacing::North,
            HorizontalFacing::East => HorizontalFacing::South,
        }
    }

    /// The direction a quarter turn to the left.
    pub fn rotate_counter_clockwise(&self) -> (r: HorizontalFacing)
        ensures
            r.spec_rotate_clockwise() == *self,
    {
        match self {
            HorizontalFacing::North => HorizontalFacing::West,
            HorizontalFacing::South => HorizontalFacing::East,
            HorizontalFacing::West => HorizontalFacing::South,
            HorizontalFacing::East => HorizontalFacing::North,
        }
    }

    /// The position of the variant in the order north, south, west, east.
    pub fn to_index(&self) -> (r: u16)
        ensures
            r == self.spec_index(),
            r < 4,
    {
        match self {
            HorizontalFacing::North => 0,
            HorizontalFacing::South => 1,
            HorizontalFacing::West => 2,
            HorizontalFacing::East => 3,
        }
    }

    /// The variant at a position in the order north, south, west, east.
    pub fn from_index(index: u16) -> (r: Option<HorizontalFacing>)
        ensures
            index < 4 ==> (r matches Some(f) && f.spec_index() == index),
            index >= 4 ==> r is None,
    {
        if index == 0 {
            Some(HorizontalFacing::North)
        } else if index == 1 {
            Some(HorizontalFacing::South)
        } else if index == 2 {
            Some(HorizontalFacing::West)
        } else if index == 3 {
            Some(HorizontalFacing::East)
        } else {
            None
        }
    }
}

/// One of the six directions a block can face.
#[derive(Clone, Copy, Debug, PartialEq, Eq, Structural)]
pub enum Facing {
    North,
    South,
    East,
    West,
    Up,
    Down,
}

impl Facing {
    /// The direction pointing the other way.
    pub open spec fn spec_opposite(self) -> Facing {
        match self {
            Facing::North => Facing::South,
            Facing::South => Facing::North,
            Facing::East => Facing::West,
            Facing::West => Facing::East,
            Facing::Up => Facing::Down,
            Facing::Down => Facing::Up,
        }
    }

    /// The direction pointing the other way.
    pub fn opposite(&self) -> (r: Facing)
        ensures
            r == self.spec_opposite(),
    {
        match self {
            Facing::North => Facing::South,
            Facing::South => Facing::North,
            Facing::East => Facing::West,
            Facing::West => Facing::East,
            Facing::Up => Facing::Down,
            Facing::Down => Facing::Up,
        }
    }
}

/// One of the six neighbours of a cell.
#[derive(Clone, Copy, Debug, PartialEq, Eq, Structural)]
pub enum BlockDirection {
    Down,
    Up,
    North,
    South,
    West,
    East,
}

/// The order in which the neighbours of a changed cell are told of the
/// change: west, east, down, up, north, south.
pub open spec fn update_order() -> Seq<BlockDirection> {
    seq![
        BlockDirection::West,
        BlockDirection::East,
        BlockDirection::Down,
        BlockDirection::Up,
        BlockDirection::North,
        BlockDirection::South,
    ]
}

/// The order in which the neighbours of a changed cell may revise their own
/// states: west, east, north, south, down, up.
pub open spec fn abstract_block_update_order() -> Seq<BlockDirection> {
    seq![
        BlockDirection::West,
        BlockDirection::East,
        BlockDirection::North,
        BlockDirection::South,
        BlockDirection::Down,
        BlockDirection::Up,
    ]
}

impl BlockDirection {
    /// The step to the neighbour in this direction.
    pub open spec fn spec_to_offset(self) -> Vector3 {
        match self {
            BlockDirection::Down => Vector3 { x: 0, y: BACK, z: 0 },
            BlockDirection::Up => Vector3 { x: 0, y: 1, z: 0 },
            BlockDirection::North => Vector3 { x: 0, y: 0, z: BACK },
            BlockDirection::South => Vector3 { x: 0, y: 0, z: 1 },
            BlockDirection::West => Vector3 { x: BACK, y: 0, z: 0 },
            BlockDirection::East => Vector3 { x: 1, y: 0, z: 0 },
        }
    }

    /// The direction pointing the other way.
    pub open spec fn spec_opposite(self) -> BlockDirection {
        match self {
            BlockDirection::Down => BlockDirection::Up,
            BlockDirection::Up => BlockDirection::Down,
            BlockDirection::North => BlockDirection::South,
            BlockDirection::South => BlockDirection::North,
            BlockDirection::West => BlockDirection::East,
            BlockDirection::East => BlockDirection::West,
        }
    }

    /// The direction is neither up nor down.
    pub open spec fn spec_is_horizontal(self) -> bool {
        self != BlockDirection::Down && self != BlockDirection::Up
    }

    /// The compass direction, for a horizontal direction.
    pub open spec fn spec_to_horizontal_facing(self) -> Option<HorizontalFacing> {
        match self {
            BlockDirection::North => Some(HorizontalFacing::North),
            BlockDirection::South => Some(HorizontalFacing::South),
            BlockDirection::West => Some(HorizontalFacing::West),
            BlockDirection::East => Some(HorizontalFacing::East),
            _ => None,
        }
    }

    /// The compass direction of a horizontal direction; north for up and
    /// down.
    pub open spec fn spec_to_cardinal_direction(self) -> HorizontalFacing {
        match self.spec_to_horizontal_facing() {
            Some(f) => f,
            None => HorizontalFacing::North,
        }
    }

    /// The direction of a compass direction.
    pub open spec fn spec_from_cardinal_direction(facing: HorizontalFacing) -> BlockDirection {
        match facing {
            HorizontalFacing::North => BlockDirection::North,
            HorizontalFacing::South => BlockDirection::South,
            HorizontalFacing::West => BlockDirection::West,
            HorizontalFacing::East => BlockDirection::East,
        }
    }

    /// The bit of a state's side flags that says the side facing this
    /// direction is solid.
    pub open spec fn spec_side_bit(self) -> u8 {
        match self {
            BlockDirection::Down => 1,
            BlockDirection::Up => 2,
            BlockDirection::North => 4,
            BlockDirection::South => 8,
            BlockDirection::West => 16,
            BlockDirection::East => 32,
        }
    }

    /// The six directions: down, up, north, south, west, east.
    pub fn all() -> (r: [BlockDirection; 6])
        ensures
            r@ == seq![
                BlockDirection::Down,
                BlockDirection::Up,
                BlockDirection::North,
                BlockDirection::South,
                BlockDirection::West,
                BlockDirection::East,
            ],
    {
        let r = [
            BlockDirection::Down,
            BlockDirection::Up,
            BlockDirection::North,
            BlockDirection::South,
            BlockDirection::West,
            BlockDirection::East,
        ];
        assert(r@ =~= seq![
            BlockDirection::Down,
            BlockDirection::Up,
            BlockDirection::North,
            BlockDirection::South,
            BlockDirection::West,
            BlockDirection::East,
        ]);
        r
    }

    /// The order in which neighbours are told of a change.
    pub fn update_order() -> (r: [BlockDirection; 6])
        ensures
            r@ == update_order(),
    {
        let r = [
            BlockDirection::West,
            BlockDirection::East,
            BlockDirection::Down,
            BlockDirection::Up,
            BlockDirection::North,
            BlockDirection::South,
        ];
        assert(r@ =~= update_order());
        r
    }

    /// The order in which neighbours may revise their own states.
    pub fn abstract_block_update_order() -> (r: [BlockDirection; 6])
        ensures
            r@ == abstract_block_update_order(),
    {
        let r = [
            BlockDirection::West,
            BlockDirection::East,
            BlockDirection::North,
            BlockDirection::South,
            BlockDirection::Down,
            BlockDirection::Up,
        ];
        assert(r@ =~= abstract_block_update_order());
        r
    }

    /// The step to the neighbour in this direction.
    pub fn to_offset(&self) -> (r: Vector3)
        ensures
            r == self.spec_to_offset(),
    {
        match self {
            BlockDirection::Down => Vector3 { x: 0, y: BACK, z: 0 },
            BlockDirection::Up => Vector3 { x: 0, y: 1, z: 0 },
            BlockDirection::North => Vector3 { x: 0, y: 0, z: BACK },
            BlockDirection::South => Vector3 { x: 0, y: 0, z: 1 },
            BlockDirection::West => Vector3 { x: BACK, y: 0, z: 0 },
            BlockDirection::East => Vector3 { x: 1, y: 0, z: 0 },
        }
    }

    /// The direction pointing the other way.
    pub fn opposite(&self) -> (r: BlockDirection)
        ensures
            r == self.spec_opposite(),
    {
        match self {
            BlockDirection::Down => BlockDirection::Up,
            BlockDirection::Up => BlockDirection::Down,
            BlockDirection::North => BlockDirection::South,
            BlockDirection::South => BlockDirection::North,
            BlockDirection::West => BlockDirection::East,
            BlockDirection::East => BlockDirection::West,
        }
    }

    /// Whether the direction is neither up nor down.
    pub fn is_horizontal(&self) -> (r: bool)
        ensures
            r == self.spec_is_horizontal(),
    {
        match self {
            BlockDirection::Down => false,
            BlockDirection::Up => false,
            _ => true,
        }
    }

    /// The compass direction, for a horizontal direction.
    pub fn to_horizontal_facing(&self) -> (r: Option<HorizontalFacing>)
        ensures
            r == self.spec_to_horizontal_facing(),
    {
        match self {
            BlockDirection::North => Some(HorizontalFacing::North),
            BlockDirection::South => Some(HorizontalFacing::South),
            BlockDirection::West => Some(HorizontalFacing::West),
            BlockDirection::East => Some(HorizontalFacing::East),
            _ => None,
        }
    }

    /// The compass direction of a horizontal direction; north for up and
    /// down.
    pub fn to_cardinal_direction(&self) -> (r: HorizontalFacing)
        ensures
            r == self.spec_to_cardinal_direction(),
    {
        match self.to_horizontal_facing() {
            Some(f) => f,
            None => HorizontalFacing::North,
        }
    }

    /// The direction of a compass direction.
    pub fn from_cardinal_direction(facing: HorizontalFacing) -> (r: BlockDirection)
        ensures
            r == Self::spec_from_cardinal_direction(facing),
    {
        match facing {
            HorizontalFacing::North => BlockDirection::North,
            HorizontalFacing::South => BlockDirection::South,
            HorizontalFacing::West => BlockDirection::West,
            HorizontalFacing::East => BlockDirection::East,
        }
    }

    /// The bit of a state's side flags for the side facing this direction.
    pub fn side_bit(&self) -> (r: u8)
        ensures
            r == self.spec_side_bit(),
    {
        match self {
            BlockDirection::Down => 1,
            BlockDirection::Up => 2,
            BlockDirection::North => 4,
            BlockDirection::South => 8,
            BlockDirection::West => 16,
            BlockDirection::East => 32,
        }
    }
}

/// The six neighbours of a cell in an order of the six directions are six
/// different cells, none of them the cell itself.
pub proof fn law_neighbours_distinct(pos: BlockPos, a: BlockDirection, b: BlockDirection)
    ensures
        pos.spec_offset(a.spec_to_offset()) != pos,
        a != b ==> pos.spec_offset(a.spec_to_offset()) != pos.spec_offset(b.spec_to_offset()),
        pos.spec_offset(a.spec_to_offset()).spec_offset(a.spec_opposite().spec_to_offset())
            == pos,
{
}

/// Each of the six directions stands exactly once in either update order.
pub proof fn law_update_orders_complete(d: BlockDirection)
    ensures
        update_order().len() == 6,
        abstract_block_update_order().len() == 6,
        update_order().no_duplicates(),
        abstract_block_update_order().no_duplicates(),
        update_order().contains(d),
        abstract_block_update_order().contains(d),
{
    let u = update_order();
    let a = abstract_block_update_order();
    match d {
        BlockDirection::West => {
            assert(u[0] == d && a[0] == d);
        },
        BlockDirection::East => {
            assert(u[1] == d && a[1] == d);
        },
        BlockDirection::Down => {
            assert(u[2] == d && a[4] == d);
        },
        BlockDirection::Up => {
            assert(u[3] == d && a[5] == d);
        },
        BlockDirection::North => {
            assert(u[4] == d && a[2] == d);
        },
        BlockDirection::South => {
            assert(u[5] == d && a[3] == d);
        },
    }
}

} // verus!
