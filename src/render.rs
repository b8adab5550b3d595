use vstd::prelude::*;
use crate::geometry::{Coord, screen_of};

verus! {

/// What is painted in one two-column screen cell.
#[derive(Clone, Copy, Debug, PartialEq, Eq, Structural)]
pub enum Glyph {
    Wall,
    Blank,
    Head,
    Body,
    Fruit,
}

/// One drawing command: paint `glyph` at the screen position `pos`.
#[derive(Clone, Copy, Debug, PartialEq, Eq, Structural)]
pub struct Sprite {
    pub pos: Coord,
    pub glyph: Glyph,
}

/// The command that paints the board cell `p` with `glyph`.
pub open spec fn cell_sprite(p: Coord, glyph: Glyph) -> Sprite {
    Sprite { pos: screen_of(p), glyph }
}

/// The glyph at row `row`, column `col` of the board's frame: the outermost
/// rows and columns are wall, the rest is blank.
pub open spec fn board_glyph(w: int, h: int, row: int, col: int) -> Glyph {
    if row == 0 || row == h + 1 || col == 0 || col == w + 1 {
        Glyph::Wall
    } else {
        Glyph::Blank
    }
}

/// The commands that draw row `row` of a board `w` cells wide, walls included.
pub open spec fn board_row(w: int, h: int, row: int) -> Seq<Sprite> {
    Seq::new(
        (w + 2) as nat,
        |col: int| Sprite { pos: Coord { x: (2 * col) as i32, y: row as i32 }, glyph: board_glyph(w, h, row, col) },
    )
}

/// The commands that draw the first `n` rows of the board, top to bottom.
pub open spec fn board_rows(w: int, h: int, n: nat) -> Seq<Sprite>
    decreases n,
{
    if n == 0 {
        Seq::empty()
    } else {
        board_rows(w, h, (n - 1) as nat) + board_row(w, h, n - 1)
    }
}

/// The commands that draw an empty board of `size` with its surrounding wall.
pub open spec fn board_sprites(size: Coord) -> Seq<Sprite> {
    board_rows(size.x as int, size.y as int, (size.y + 2) as nat)
}

/// The screen after `frame` is painted over `screen`, one command after
/// another, each overwriting what its cell showed.
pub open spec fn paint(screen: Map<Coord, Glyph>, frame: Seq<Sprite>) -> Map<Coord, Glyph>
    decreases frame.len(),
{
    if frame.len() == 0 {
        screen
    } else {
        paint(screen, frame.drop_last()).insert(frame.last().pos, frame.last().glyph)
    }
}

/// Painting a frame leaves the cells it does not touch as they were, and
/// shows on the others what it alone would show.
pub proof fn lemma_paint_over(screen: Map<Coord, Glyph>, frame: Seq<Sprite>)
    ensures
        paint(screen, frame) == screen.union_prefer_right(paint(Map::empty(), frame)),
    decreases frame.len(),
{
    if frame.len() > 0 {
        lemma_paint_over(screen, frame.drop_last());
        assert(paint(screen, frame) =~= screen.union_prefer_right(paint(Map::empty(), frame)));
    } else {
        assert(paint(screen, frame) =~= screen.union_prefer_right(paint(Map::empty(), frame)));
    }
}

/// Painting the same frame twice leaves the screen as painting it once.
pub proof fn lemma_paint_idempotent(screen: Map<Coord, Glyph>, frame: Seq<Sprite>)
    ensures
        paint(paint(screen, frame), frame) == paint(screen, frame),
{
    let once = paint(Map::<Coord, Glyph>::empty(), frame);
    lemma_paint_over(screen, frame);
    lemma_paint_over(paint(screen, frame), frame);
    assert(screen.union_prefer_right(once).union_prefer_right(once) =~= screen.union_prefer_right(
        once,
    ));
}

} // verus!
