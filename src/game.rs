use vstd::prelude::*;
use rand::seq::SliceRandom;
use crate::geometry::{Coord, Direction, in_board, movable, on_screen, valid_board, game_to_screen};
use crate::render::{
    Glyph, Sprite, board_glyph, board_row, board_rows, board_sprites, cell_sprite, paint,
    lemma_paint_idempotent,
};
use crate::snake::{
    Snake, SnakeModel, advanced, advanced_n, drawable, occupied, snake_sprites, well_formed,
    lemma_growth_paid,
};

verus! {

/// How many cells the snake grows by for each fruit it eats.
pub const GROWTH: u32 = 2;

/// The side of the square board that a new game is played on.
pub const BOARD_SIDE: i32 = 40;

/// Where a new game's snake starts.
pub const START: i32 = 5;

/// Where the game stands after a tick.
#[derive(Clone, Copy, Debug, PartialEq, Eq, Structural)]
pub enum Phase {
    /// The snake is alive and the game goes on.
    Running,
    /// The snake ran off the board or into itself: the game is over.
    Dead,
    /// The snake covers every cell, so no fruit can be placed: the game is over.
    Won,
}

/// A key that the player pressed, as far as steering is concerned.
#[derive(Clone, Copy, Debug, PartialEq, Eq, Structural)]
pub enum Key {
    Up,
    Down,
    Left,
    Right,
    Other,
}

/// The direction a key steers to, if any: the four arrow keys, and nothing else.
pub open spec fn key_direction(k: Key) -> Option<Direction> {
    match k {
        Key::Up => Some(Direction::Up),
        Key::Down => Some(Direction::Down),
        Key::Left => Some(Direction::Left),
        Key::Right => Some(Direction::Right),
        Key::Other => None,
    }
}

/// The facing after the keys `keys`, pressed in order, starting from
/// `facing`: the last key that names a direction wins.
pub open spec fn steered(facing: Direction, keys: Seq<Key>) -> Direction
    decreases keys.len(),
{
    if keys.len() == 0 {
        facing
    } else {
        match key_direction(keys.last()) {
            Some(d) => d,
            None => steered(facing, keys.drop_last()),
        }
    }
}

/// `c` is on the board of `size` and not covered by the snake `s`.
pub open spec fn free_cell(size: Coord, s: SnakeModel, c: Coord) -> bool {
    in_board(c, size) && !occupied(s, c)
}

/// Some cell of the board is free of the snake.
pub open spec fn has_free_cell(size: Coord, s: SnakeModel) -> bool {
    exists|c: Coord| free_cell(size, s, c)
}

/// The direction `key` steers to, if any.
pub fn direction_of(key: Key) -> (r: Option<Direction>)
    ensures
        r == key_direction(key),
{
    match key {
        Key::Up => Some(Direction::Up),
        Key::Down => Some(Direction::Down),
        Key::Left => Some(Direction::Left),
        Key::Right => Some(Direction::Right),
        Key::Other => None,
    }
}

/// Relies on rand's `SliceRandom::choose` on a slice, drawing from
/// `rand::thread_rng()`: `None` for an empty slice, otherwise one of its
/// elements.
#[verifier::external_body]
fn choose_cell(cells: &Vec<Coord>) -> (r: Option<Coord>)
    ensures
        r.is_none() <==> cells@.len() == 0,
        r.is_some() ==> cells@.contains(r.unwrap()),
{
    cells.choose(&mut rand::thread_rng()).copied()
}

/// A game: the board's size, the snake on it, and the fruit.
pub struct Game {
    pub board_size: Coord,
    pub snake: Snake,
    pub fruit: Coord,
}

impl Game {
    /// A game on a 40 × 40 board: a new snake at (5, 5) and a fruit on a
    /// free cell.
    pub fn new() -> (r: Game)
        ensures
            r.board_size == (Coord { x: BOARD_SIDE, y: BOARD_SIDE }),
            r.snake.head == (Coord { x: START, y: START }),
            r.snake.tail@ == Seq::<Coord>::empty(),
            r.snake.length_to_add == 0,
            r.snake.facing == Direction::Up,
            r.snake.alive,
            valid_board(r.board_size),
            well_formed(r.snake@, r.board_size),
            free_cell(r.board_size, r.snake@, r.fruit),
    {
        let mut s = Game {
            board_size: Coord::new(BOARD_SIDE, BOARD_SIDE),
            snake: Snake::new(Coord::new(START, START)),
            fruit: Coord::new(0, 0),
        };
        assert(free_cell(s.board_size, s.snake@, Coord { x: 0, y: 0 }));
        s.set_random_fruit();
        s
    }

    /// Every cell of the board that the snake does not cover, each once.
    pub fn free_cells(&self) -> (r: Vec<Coord>)
        requires
            valid_board(self.board_size),
        ensures
            r@.no_duplicates(),
            forall|c: Coord| r@.contains(c) <==> free_cell(self.board_size, self.snake@, c),
    {
        let size = self.board_size;
        let mut v: Vec<Coord> = Vec::new();
        let mut i: i32 = 0;
        while i < size.x
            invariant
                0 <= i <= size.x,
                size == self.board_size,
                valid_board(size),
                v@.no_duplicates(),
                forall|c: Coord| v@.contains(c) <==> (free_cell(size, self.snake@, c) && c.x < i),
            decreases size.x - i,
        {
            let mut j: i32 = 0;
            while j < size.y
                invariant
                    0 <= i < size.x,
                    0 <= j <= size.y,
                    size == self.board_size,
                    valid_board(size),
                    v@.no_duplicates(),
                    forall|c: Coord|
                        v@.contains(c) <==> (free_cell(size, self.snake@, c) && (c.x < i || (c.x
                            == i && c.y < j))),
                decreases size.y - j,
            {
                let c = Coord::new(i, j);
                if !self.snake.occupies(c) {
                    proof {
                        assert(!v@.contains(c));
                        assert forall|a: int, b: int|
                            0 <= a < v@.push(c).len() && 0 <= b < v@.push(c).len() && a != b
                                implies v@.push(c)[a] != v@.push(c)[b] by {
                            if a < v@.len() && b < v@.len() {
                            } else if a < v@.len() {
                                assert(v@.contains(v@[a]));
                            } else {
                                assert(v@.contains(v@[b]));
                            }
                        }
                    }
                    let ghost before = v@;
                    v.push(c);
                    assert(v@ == before.push(c));
                    assert forall|d: Coord|
                        v@.contains(d) <==> (free_cell(size, self.snake@, d) && (d.x < i || (d.x
                            == i && d.y < j + 1))) by {
                        if d == c {
                            assert(v@[v@.len() - 1] == c);
                            assert(v@.contains(d));
                            assert(free_cell(size, self.snake@, d));
                        } else if v@.contains(d) {
                            let k = choose|k: int| 0 <= k < v@.len() && v@[k] == d;
                            assert(k < before.len());
                            assert(before[k] == d);
                            assert(before.contains(d));
                        } else if before.contains(d) {
                            let k = choose|k: int| 0 <= k < before.len() && before[k] == d;
                            assert(v@[k] == d);
                        } else {
                            assert(!(free_cell(size, self.snake@, d) && (d.x < i || (d.x == i && d.y < j))));
                            if d.x == i && d.y == j {
                                assert(d == c);
                            }
                        }
                    }
                }
                j = j + 1;
            }
            i = i + 1;
        }
        v
    }
    /// Moves the fruit to a cell chosen at random among those the snake does
    /// not cover, and returns `true`; where the snake covers the whole board
    /// there is no such cell, and the fruit stays where it was (`false`).
    pub fn set_random_fruit(&mut self) -> (r: bool)
        requires
            valid_board(old(self).board_size),
        ensures
            final(self).board_size == old(self).board_size,
            final(self).snake@ == old(self).snake@,
            r == has_free_cell(old(self).board_size, old(self).snake@),
            r ==> free_cell(final(self).board_size, final(self).snake@, final(self).fruit),
            !r ==> final(self).fruit == old(self).fruit,
    {
        let cells = self.free_cells();
        match choose_cell(&cells) {
            Some(c) => {
                self.fruit = c;
                true
            },
            None => {
                proof {
                    if has_free_cell(self.board_size, self.snake@) {
                        let c = choose|c: Coord| free_cell(self.board_size, self.snake@, c);
                        assert(cells@.contains(c));
                    }
                }
                false
            },
        }
    }

    /// One tick of the game: the snake moves; if it died the game is over;
    /// if its head reached the fruit, it is owed `GROWTH` more cells and the
    /// fruit moves to a free cell, or, with none left, the game is won.
    pub fn tick(&mut self) -> (r: Phase)
        requires
            valid_board(old(self).board_size),
            movable(old(self).snake.head),
            old(self).snake.tail.len() < usize::MAX,
            old(self).snake.length_to_add <= u32::MAX - GROWTH,
        ensures
            final(self).board_size == old(self).board_size,
            well_formed(old(self).snake@, old(self).board_size) ==> well_formed(
                final(self).snake@,
                final(self).board_size,
            ),
            ({
                let m = advanced(old(self).snake@, old(self).board_size);
                &&& !m.alive ==> r == Phase::Dead && final(self).snake@ == m && final(self).fruit
                    == old(self).fruit
                &&& m.alive && m.head != old(self).fruit ==> r == Phase::Running
                    && final(self).snake@ == m && final(self).fruit == old(self).fruit
                &&& m.alive && m.head == old(self).fruit ==> {
                    &&& final(self).snake@ == (SnakeModel {
                        length_to_add: (m.length_to_add + GROWTH) as u32,
                        ..m
                    })
                    &&& r != Phase::Dead
                    &&& (r == Phase::Running <==> has_free_cell(
                        final(self).board_size,
                        final(self).snake@,
                    ))
                    &&& r == Phase::Running ==> free_cell(
                        final(self).board_size,
                        final(self).snake@,
                        final(self).fruit,
                    )
                    &&& r == Phase::Won ==> final(self).fruit == old(self).fruit
                }
            }),
    {
        let size = self.board_size;
        self.snake.update(&size);
        if !self.snake.alive {
            return Phase::Dead;
        }
        if self.snake.head == self.fruit {
            self.snake.length_to_add = self.snake.length_to_add + GROWTH;
            if self.set_random_fruit() {
                Phase::Running
            } else {
                Phase::Won
            }
        } else {
            Phase::Running
        }
    }

    /// Turns the snake by the keys pressed since the last tick, in order:
    /// the last arrow key wins, and other keys are ignored.
    pub fn steer(&mut self, keys: &Vec<Key>)
        ensures
            final(self).board_size == old(self).board_size,
            final(self).fruit == old(self).fruit,
            final(self).snake@ == (SnakeModel {
                facing: steered(old(self).snake.facing, keys@),
                ..old(self).snake@
            }),
    {
        let mut i: usize = 0;
        while i < keys.len()
            invariant
                0 <= i <= keys.len(),
                self.board_size == old(self).board_size,
                self.fruit == old(self).fruit,
                self.snake@ == (SnakeModel {
                    facing: steered(old(self).snake.facing, keys@.subrange(0, i as int)),
                    ..old(self).snake@
                }),
            decreases keys.len() - i,
        {
            assert(keys@.subrange(0, i + 1).drop_last() =~= keys@.subrange(0, i as int));
            match direction_of(keys[i]) {
                Some(d) => self.snake.facing = d,
                None => {},
            }
            i = i + 1;
        }
        assert(keys@.subrange(0, i as int) =~= keys@);
    }
    /// The commands that draw the empty board and its wall, row by row.
    pub fn draw_board(&self) -> (r: Vec<Sprite>)
        requires
            valid_board(self.board_size),
        ensures
            r@ == board_sprites(self.board_size),
    {
        let w = self.board_size.x;
        let h = self.board_size.y;
        let mut r: Vec<Sprite> = Vec::new();
        let mut row: i32 = 0;
        while row < h + 2
            invariant
                w == self.board_size.x,
                h == self.board_size.y,
                valid_board(self.board_size),
                0 <= row <= h + 2,
                r@ == board_rows(w as int, h as int, row as nat),
            decreases h + 2 - row,
        {
            let mut line: Vec<Sprite> = Vec::new();
            let mut col: i32 = 0;
            while col < w + 2
                invariant
                    w == self.board_size.x,
                    h == self.board_size.y,
                    valid_board(self.board_size),
                    0 <= row < h + 2,
                    0 <= col <= w + 2,
                    line@ == board_row(w as int, h as int, row as int).subrange(0, col as int),
                decreases w + 2 - col,
            {
                let glyph = if row == 0 || row == h + 1 || col == 0 || col == w + 1 {
                    Glyph::Wall
                } else {
                    Glyph::Blank
                };
                assert(glyph == board_glyph(w as int, h as int, row as int, col as int));
                line.push(Sprite { pos: Coord::new(2 * col, row), glyph });
                assert(line@ =~= board_row(w as int, h as int, row as int).subrange(0, col + 1));
                col = col + 1;
            }
            assert(line@ =~= board_row(w as int, h as int, row as int));
            r.append(&mut line);
            row = row + 1;
        }
        r
    }

    /// The command that draws the fruit.
    pub fn draw_fruit(&self) -> (r: Sprite)
        requires
            on_screen(self.fruit),
        ensures
            r == cell_sprite(self.fruit, Glyph::Fruit),
    {
        Sprite { pos: game_to_screen(self.fruit), glyph: Glyph::Fruit }
    }

    /// The whole frame of a tick: the board, then the fruit, then the snake.
    pub fn render(&self) -> (r: Vec<Sprite>)
        requires
            valid_board(self.board_size),
            on_screen(self.fruit),
            drawable(self.snake@),
        ensures
            r@ == frame(self.board_size, self.snake@, self.fruit),
    {
        let mut r = self.draw_board();
        r.push(self.draw_fruit());
        let mut body = self.snake.draw();
        r.append(&mut body);
        r
    }
}

/// The frame that draws a game: its board, its fruit, then its snake.
pub open spec fn frame(size: Coord, s: SnakeModel, fruit: Coord) -> Seq<Sprite> {
    board_sprites(size).push(cell_sprite(fruit, Glyph::Fruit)) + snake_sprites(s)
}

/// Rendering reads the game and changes nothing, and its frame depends on the
/// game alone: drawing the frame of an unchanged game again leaves the screen
/// as drawing it once.
pub proof fn lemma_render_idempotent(
    size: Coord,
    s: SnakeModel,
    fruit: Coord,
    screen: Map<Coord, Glyph>,
)
    ensures
        paint(paint(screen, frame(size, s, fruit)), frame(size, s, fruit)) == paint(
            screen,
            frame(size, s, fruit),
        ),
{
    lemma_paint_idempotent(screen, frame(size, s, fruit));
}

/// Drawing the fruit again, unchanged, leaves the screen as drawing it once.
pub proof fn lemma_fruit_draw_idempotent(fruit: Coord, screen: Map<Coord, Glyph>)
    ensures
        paint(paint(screen, seq![cell_sprite(fruit, Glyph::Fruit)]), seq![cell_sprite(fruit, Glyph::Fruit)])
            == paint(screen, seq![cell_sprite(fruit, Glyph::Fruit)]),
{
    lemma_paint_idempotent(screen, seq![cell_sprite(fruit, Glyph::Fruit)]);
}

/// Eating a fruit lengthens the snake by exactly `GROWTH` cells on top of
/// what it was still owed. `m` is the snake right after the move that reached
/// the fruit, and `tick` owes it `GROWTH` more: after any `n` further moves,
/// at least all that is owed, that it survives without eating again, its body
/// is that much longer than `m`'s and nothing is owed any more.
pub proof fn lemma_fruit_growth(m: SnakeModel, size: Coord, n: nat)
    requires
        m.length_to_add + GROWTH <= u32::MAX,
        n >= m.length_to_add + GROWTH,
        advanced_n(
            SnakeModel { length_to_add: (m.length_to_add + GROWTH) as u32, ..m },
            size,
            n,
        ).alive,
    ensures
        ({
            let t = advanced_n(
                SnakeModel { length_to_add: (m.length_to_add + GROWTH) as u32, ..m },
                size,
                n,
            );
            &&& t.tail.len() == m.tail.len() + m.length_to_add + GROWTH
            &&& t.length_to_add == 0
        }),
{
    lemma_growth_paid(SnakeModel { length_to_add: (m.length_to_add + GROWTH) as u32, ..m }, size, n);
}

} // verus!
