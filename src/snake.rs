use vstd::prelude::*;
use crate::geometry::{Coord, Direction, delta, in_board, movable, moved, on_screen, step, game_to_screen};
use crate::render::{Glyph, Sprite, cell_sprite, paint, lemma_paint_idempotent};

verus! {

/// The snake: its head, its body cells most recent first, how many more
/// moves keep the last body cell (growth still owed), where it faces, and
/// whether it is still alive.
pub struct Snake {
    pub head: Coord,
    pub tail: Vec<Coord>,
    pub length_to_add: u32,
    pub facing: Direction,
    pub alive: bool,
}

/// The mathematical value of a snake: its body as a sequence.
pub struct SnakeModel {
    pub head: Coord,
    pub tail: Seq<Coord>,
    pub length_to_add: u32,
    pub facing: Direction,
    pub alive: bool,
}

impl View for Snake {
    type V = SnakeModel;

    open spec fn view(&self) -> SnakeModel {
        SnakeModel {
            head: self.head,
            tail: self.tail@,
            length_to_add: self.length_to_add,
            facing: self.facing,
            alive: self.alive,
        }
    }
}

/// `c` is the snake's head or one of its body cells.
pub open spec fn occupied(s: SnakeModel, c: Coord) -> bool {
    c == s.head || s.tail.contains(c)
}

/// The body after a move: the old head pushed to the front.
pub open spec fn shifted_body(s: SnakeModel) -> Seq<Coord> {
    seq![s.head] + s.tail
}

/// The move of `s` ends off the board or on its own (shifted) body.
pub open spec fn collides(s: SnakeModel, size: Coord) -> bool {
    let h = moved(s.head, s.facing);
    !in_board(h, size) || shifted_body(s).contains(h)
}

/// The snake after one move on a board of `size`. The head moves one cell
/// and the old head joins the body. A move off the board or onto the body
/// kills the snake and changes nothing else; otherwise owed growth keeps the
/// last body cell, and without it the last body cell is dropped.
pub open spec fn advanced(s: SnakeModel, size: Coord) -> SnakeModel {
    let h = moved(s.head, s.facing);
    let body = shifted_body(s);
    if collides(s, size) {
        SnakeModel { head: h, tail: body, alive: false, ..s }
    } else if s.length_to_add > 0 {
        SnakeModel { head: h, tail: body, length_to_add: (s.length_to_add - 1) as u32, ..s }
    } else {
        SnakeModel { head: h, tail: body.drop_last(), ..s }
    }
}

/// A live snake lies on the board of `size` and its head is not on its body.
pub open spec fn well_formed(s: SnakeModel, size: Coord) -> bool {
    s.alive ==> {
        &&& in_board(s.head, size)
        &&& !s.tail.contains(s.head)
        &&& forall|i: int| 0 <= i < s.tail.len() ==> in_board(#[trigger] s.tail[i], size)
    }
}

/// A move keeps a snake well formed: it either dies, or lands on a free cell
/// of the board with its body still on the board.
pub proof fn lemma_advance_well_formed(s: SnakeModel, size: Coord)
    requires
        well_formed(s, size),
    ensures
        well_formed(advanced(s, size), size),
{
    let t = advanced(s, size);
    let body = shifted_body(s);
    if t.alive {
        assert forall|i: int| 0 <= i < t.tail.len() implies in_board(#[trigger] t.tail[i], size) by {
            assert(t.tail[i] == body[i]);
            if i > 0 {
                assert(body[i] == s.tail[i - 1]);
            }
        }
        if t.tail.contains(t.head) {
            let k = choose|k: int| 0 <= k < t.tail.len() && t.tail[k] == t.head;
            assert(body[k] == t.head);
        }
    }
}

/// The commands that draw `s`: its head first, then each body cell.
pub open spec fn snake_sprites(s: SnakeModel) -> Seq<Sprite> {
    seq![cell_sprite(s.head, Glyph::Head)] + s.tail.map_values(|c: Coord| cell_sprite(c, Glyph::Body))
}

/// Every cell of `s` has a screen position.
pub open spec fn drawable(s: SnakeModel) -> bool {
    on_screen(s.head) && forall|i: int| 0 <= i < s.tail.len() ==> on_screen(#[trigger] s.tail[i])
}

/// On every board, a move that takes the head outside the board kills the
/// snake; the head is then at the cell it moved to.
pub proof fn lemma_off_board_dies(s: SnakeModel, size: Coord)
    requires
        movable(s.head),
        !(0 <= s.head.x + delta(s.facing).0 < size.x && 0 <= s.head.y + delta(s.facing).1
            < size.y),
    ensures
        !advanced(s, size).alive,
        advanced(s, size).head.x == s.head.x + delta(s.facing).0,
        advanced(s, size).head.y == s.head.y + delta(s.facing).1,
{
}

/// A move onto a cell of the snake's body, as it stands before the move,
/// kills the snake.
pub proof fn lemma_body_collision_dies(s: SnakeModel, size: Coord)
    requires
        s.tail.contains(moved(s.head, s.facing)),
    ensures
        !advanced(s, size).alive,
{
    let k = choose|k: int| 0 <= k < s.tail.len() && s.tail[k] == moved(s.head, s.facing);
    assert(shifted_body(s)[k + 1] == moved(s.head, s.facing));
}

/// A move the snake survives turns one cell of owed growth into length, if
/// any is owed, and otherwise keeps the length: growth is never lost or
/// made up.
pub proof fn lemma_growth_step(s: SnakeModel, size: Coord)
    requires
        advanced(s, size).alive,
    ensures
        ({
            let t = advanced(s, size);
            &&& t.tail.len() + t.length_to_add == s.tail.len() + s.length_to_add
            &&& t.tail.len() == s.tail.len() + if s.length_to_add > 0 { 1int } else { 0int }
        }),
{
}

/// Drawing the snake again, unchanged, leaves the screen as drawing it once.
pub proof fn lemma_snake_draw_idempotent(s: SnakeModel, screen: Map<Coord, Glyph>)
    ensures
        paint(paint(screen, snake_sprites(s)), snake_sprites(s)) == paint(screen, snake_sprites(s)),
{
    lemma_paint_idempotent(screen, snake_sprites(s));
}

/// The snake after `n` moves on a board of `size`, with no fruit eaten.
pub open spec fn advanced_n(s: SnakeModel, size: Coord, n: nat) -> SnakeModel
    decreases n,
{
    if n == 0 {
        s
    } else {
        advanced(advanced_n(s, size, (n - 1) as nat), size)
    }
}

/// A dead snake stays dead: a snake alive after a move was alive before it.
pub proof fn lemma_alive_before(s: SnakeModel, size: Coord)
    ensures
        advanced(s, size).alive ==> s.alive,
{
}

/// Owed growth is paid one cell per move: after `n` moves that the snake
/// survives, with no fruit eaten, its body has grown by the smaller of `n`
/// and the growth owed, and that much less is owed. Once nothing is owed the
/// body keeps its length.
pub proof fn lemma_growth_paid(s: SnakeModel, size: Coord, n: nat)
    requires
        advanced_n(s, size, n).alive,
    ensures
        ({
            let t = advanced_n(s, size, n);
            let k = if n < s.length_to_add { n as int } else { s.length_to_add as int };
            &&& t.tail.len() == s.tail.len() + k
            &&& t.length_to_add == s.length_to_add - k
        }),
    decreases n,
{
    if n > 0 {
        let prev = advanced_n(s, size, (n - 1) as nat);
        lemma_alive_before(prev, size);
        lemma_growth_paid(s, size, (n - 1) as nat);
    }
}

/// Whether `c` is one of the cells of `cells`.
pub fn contains_cell(cells: &Vec<Coord>, c: Coord) -> (r: bool)
    ensures
        r == cells@.contains(c),
{
    let mut i: usize = 0;
    while i < cells.len()
        invariant
            0 <= i <= cells.len(),
            forall|k: int| 0 <= k < i ==> cells@[k] != c,
        decreases cells.len() - i,
    {
        if cells[i] == c {
            return true;
        }
        i = i + 1;
    }
    false
}

impl Snake {
    /// A live snake of one cell at `pos`, facing up, with no growth owed.
    pub fn new(pos: Coord) -> (r: Snake)
        ensures
            r.head == pos,
            r.tail@ == Seq::<Coord>::empty(),
            r.length_to_add == 0,
            r.facing == Direction::Up,
            r.alive,
    {
        Snake { head: pos, tail: Vec::new(), length_to_add: 0, facing: Direction::Up, alive: true }
    }

    /// Whether `c` is the head or a body cell of this snake.
    pub fn occupies(&self, c: Coord) -> (r: bool)
        ensures
            r == occupied(self@, c),
    {
        self.head == c || contains_cell(&self.tail, c)
    }

    /// Moves the snake one cell in the direction it faces (see `advanced`).
    pub fn update(&mut self, board_size: &Coord)
        requires
            movable(old(self).head),
            old(self).tail.len() < usize::MAX,
        ensures
            final(self)@ == advanced(old(self)@, *board_size),
            final(self).head == moved(old(self).head, old(self).facing),
            final(self).head.x == old(self).head.x + delta(old(self).facing).0,
            final(self).head.y == old(self).head.y + delta(old(self).facing).1,
            !in_board(final(self).head, *board_size) ==> !final(self).alive,
            shifted_body(old(self)@).contains(final(self).head) ==> !final(self).alive,
            well_formed(old(self)@, *board_size) ==> well_formed(final(self)@, *board_size),
    {
        proof {
            if well_formed(old(self)@, *board_size) {
                lemma_advance_well_formed(old(self)@, *board_size);
            }
        }
        let old_head = self.head;
        self.tail.insert(0, old_head);
        assert(self.tail@ =~= shifted_body(old(self)@));
        self.head = step(old_head, self.facing);
        let h = self.head;
        if h.y < 0 || h.y >= board_size.y || h.x < 0 || h.x >= board_size.x
            || contains_cell(&self.tail, h) {
            self.alive = false;
            return;
        }
        if self.length_to_add != 0 {
            self.length_to_add = self.length_to_add - 1;
        } else {
            self.tail.pop();
        }
    }

    /// The command that draws the head.
    pub fn draw_head(&self) -> (r: Sprite)
        requires
            on_screen(self.head),
        ensures
            r == cell_sprite(self.head, Glyph::Head),
    {
        Sprite { pos: game_to_screen(self.head), glyph: Glyph::Head }
    }

    /// The commands that draw the body cells, most recent first.
    pub fn draw_tail(&self) -> (r: Vec<Sprite>)
        requires
            forall|i: int| 0 <= i < self.tail@.len() ==> on_screen(#[trigger] self.tail@[i]),
        ensures
            r@ == self.tail@.map_values(|c: Coord| cell_sprite(c, Glyph::Body)),
    {
        let mut r: Vec<Sprite> = Vec::new();
        let mut i: usize = 0;
        while i < self.tail.len()
            invariant
                0 <= i <= self.tail.len(),
                forall|k: int| 0 <= k < self.tail@.len() ==> on_screen(#[trigger] self.tail@[k]),
                r@ == self.tail@.subrange(0, i as int).map_values(|c: Coord| cell_sprite(c, Glyph::Body)),
            decreases self.tail.len() - i,
        {
            let cell = self.tail[i];
            assert(on_screen(self.tail@[i as int]));
            r.push(Sprite { pos: game_to_screen(cell), glyph: Glyph::Body });
            assert(self.tail@.subrange(0, i + 1) =~= self.tail@.subrange(0, i as int).push(cell));
            i = i + 1;
        }
        assert(self.tail@.subrange(0, i as int) =~= self.tail@);
        r
    }

    /// The commands that draw the snake: the head, then its body cells.
    pub fn draw(&self) -> (r: Vec<Sprite>)
        requires
            drawable(self@),
        ensures
            r@ == snake_sprites(self@),
    {
        let mut r: Vec<Sprite> = Vec::new();
        r.push(self.draw_head());
        assert forall|i: int| 0 <= i < self.tail@.len() implies on_screen(#[trigger] self.tail@[i]) by {
            assert(on_screen(self@.tail[i]));
        }
        let mut body = self.draw_tail();
        r.append(&mut body);
        r
    }
}

} // verus!
