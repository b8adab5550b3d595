use vstd::prelude::*;

verus! {

/// One of the four directions the snake can face; there is no diagonal motion.
#[derive(Clone, Copy, Debug, PartialEq, Eq, Structural)]
pub enum Direction {
    Up,
    Down,
    Left,
    Right,
}

/// A cell of the board, or of the screen, as a pair of integer coordinates.
#[derive(Clone, Copy, Debug, PartialEq, Eq, Structural)]
pub struct Coord {
    pub x: i32,
    pub y: i32,
}

impl Coord {
    pub fn new(x: i32, y: i32) -> (r: Coord)
        ensures
            r.x == x,
            r.y == y,
    {
        Coord { x, y }
    }
}

/// The step that one move in direction `d` adds to a position.
pub open spec fn delta(d: Direction) -> (int, int) {
    match d {
        Direction::Up => (0, -1),
        Direction::Down => (0, 1),
        Direction::Left => (-1, 0),
        Direction::Right => (1, 0),
    }
}

impl Direction {
    /// The step of one move in this direction, as `(dx, dy)`.
    pub fn delta(&self) -> (r: (i32, i32))
        ensures
            r.0 == delta(*self).0,
            r.1 == delta(*self).1,
    {
        match self {
            Direction::Up => (0, -1),
            Direction::Down => (0, 1),
            Direction::Left => (-1, 0),
            Direction::Right => (1, 0),
        }
    }
}

/// The board's dimensions can be drawn: both are positive, and every screen
/// column of the frame, two per cell plus the walls, fits an `i32`.
pub open spec fn valid_board(size: Coord) -> bool {
    &&& 1 <= size.x
    &&& 1 <= size.y
    &&& 2 * size.x + 2 < i32::MAX
    &&& size.y + 2 < i32::MAX
}

/// `p` lies on the board `[0, size.x) × [0, size.y)`.
pub open spec fn in_board(p: Coord, size: Coord) -> bool {
    0 <= p.x < size.x && 0 <= p.y < size.y
}

/// The cell one move from `p` in direction `d`.
pub open spec fn moved(p: Coord, d: Direction) -> Coord {
    Coord { x: (p.x + delta(d).0) as i32, y: (p.y + delta(d).1) as i32 }
}

/// `p` can move one cell in any direction without leaving the `i32` range.
pub open spec fn movable(p: Coord) -> bool {
    i32::MIN < p.x < i32::MAX && i32::MIN < p.y < i32::MAX
}

/// The position `p` shifted one cell in direction `d`.
pub fn step(p: Coord, d: Direction) -> (r: Coord)
    requires
        movable(p),
    ensures
        r == moved(p, d),
        r.x == p.x + delta(d).0,
        r.y == p.y + delta(d).1,
{
    let (dx, dy) = d.delta();
    Coord { x: p.x + dx, y: p.y + dy }
}

/// A board cell's top-left screen position can be written as an `i32` pair.
pub open spec fn on_screen(p: Coord) -> bool {
    i32::MIN <= 2 * p.x && 2 * p.x + 2 <= i32::MAX && p.y + 1 <= i32::MAX
}

/// Where a board cell is drawn on the screen: each cell is two columns wide,
/// and the wall takes the first two columns and the first row.
pub open spec fn screen_of(p: Coord) -> Coord {
    Coord { x: (2 * p.x + 2) as i32, y: (p.y + 1) as i32 }
}

pub fn game_to_screen(pos: Coord) -> (r: Coord)
    requires
        on_screen(pos),
    ensures
        r == screen_of(pos),
        r.x == 2 * pos.x + 2,
        r.y == pos.y + 1,
{
    Coord::new(pos.x * 2 + 2, pos.y + 1)
}

} // verus!
