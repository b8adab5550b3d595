use snake::game::{direction_of, Game, Key, Phase, GROWTH};
use snake::geometry::{game_to_screen, Coord, Direction};
use snake::render::{Glyph, Sprite};
use snake::snake::{contains_cell, Snake};

fn snake_at(x: i32, y: i32, tail: Vec<(i32, i32)>, facing: Direction) -> Snake {
    let mut s = Snake::new(Coord::new(x, y));
    s.tail = tail.into_iter().map(|(a, b)| Coord::new(a, b)).collect();
    s.facing = facing;
    s
}

fn game(w: i32, h: i32, snake: Snake, fruit: (i32, i32)) -> Game {
    Game { board_size: Coord::new(w, h), snake, fruit: Coord::new(fruit.0, fruit.1) }
}

fn fruit_is_free(g: &Game) -> bool {
    g.fruit.x >= 0
        && g.fruit.x < g.board_size.x
        && g.fruit.y >= 0
        && g.fruit.y < g.board_size.y
        && !g.snake.occupies(g.fruit)
}

#[test]
fn new_snake_is_alive_facing_up() {
    let s = Snake::new(Coord::new(3, 4));
    assert_eq!(s.head, Coord::new(3, 4));
    assert!(s.tail.is_empty());
    assert_eq!(s.length_to_add, 0);
    assert_eq!(s.facing, Direction::Up);
    assert!(s.alive);
}

#[test]
fn direction_deltas() {
    assert_eq!(Direction::Up.delta(), (0, -1));
    assert_eq!(Direction::Down.delta(), (0, 1));
    assert_eq!(Direction::Left.delta(), (-1, 0));
    assert_eq!(Direction::Right.delta(), (1, 0));
}

#[test]
fn moves_one_cell_and_keeps_length() {
    let mut s = snake_at(2, 2, vec![(2, 3), (2, 4)], Direction::Right);
    s.update(&Coord::new(5, 5));
    assert!(s.alive);
    assert_eq!(s.head, Coord::new(3, 2));
    assert_eq!(s.tail, vec![Coord::new(2, 2), Coord::new(2, 3)]);
}

#[test]
fn owed_growth_keeps_the_last_cell() {
    let mut s = snake_at(2, 2, vec![(2, 3)], Direction::Down);
    s.facing = Direction::Left;
    s.length_to_add = 1;
    s.update(&Coord::new(5, 5));
    assert!(s.alive);
    assert_eq!(s.head, Coord::new(1, 2));
    assert_eq!(s.tail, vec![Coord::new(2, 2), Coord::new(2, 3)]);
    assert_eq!(s.length_to_add, 0);
}

#[test]
fn leaving_the_board_on_each_side_kills() {
    let board = Coord::new(4, 3);
    for (x, y, d) in [
        (0, 1, Direction::Left),
        (3, 1, Direction::Right),
        (2, 0, Direction::Up),
        (2, 2, Direction::Down),
    ] {
        let mut s = snake_at(x, y, vec![], d);
        s.update(&board);
        assert!(!s.alive);
    }
}

#[test]
fn scenario_left_edge_dies() {
    let mut s = snake_at(0, 2, vec![], Direction::Left);
    s.update(&Coord::new(5, 5));
    assert!(!s.alive);
    assert_eq!(s.head, Coord::new(-1, 2));
}

#[test]
fn running_into_the_body_kills() {
    let mut s = snake_at(2, 2, vec![(1, 2), (1, 1), (2, 1)], Direction::Up);
    s.update(&Coord::new(5, 5));
    assert!(!s.alive);
    assert_eq!(s.head, Coord::new(2, 1));
    assert_eq!(s.tail.len(), 4);
}

#[test]
fn reversing_into_the_neck_kills() {
    let mut s = snake_at(2, 2, vec![(2, 3)], Direction::Down);
    s.update(&Coord::new(5, 5));
    assert!(!s.alive);
}

#[test]
fn scenario_eating_fruit() {
    let mut g = game(5, 5, snake_at(2, 2, vec![], Direction::Up), (2, 1));
    assert_eq!(g.tick(), Phase::Running);
    assert_eq!(g.snake.head, Coord::new(2, 1));
    assert_eq!(g.snake.length_to_add, GROWTH);
    assert_eq!(g.snake.length_to_add, 2);
    assert_eq!(g.snake.tail.len(), 0);
    assert!(fruit_is_free(&g));
    g.fruit = Coord::new(4, 4);
    assert_eq!(g.tick(), Phase::Running);
    assert_eq!(g.snake.tail.len(), 1);
}

#[test]
fn fruit_growth_settles_at_bonus() {
    let mut g = game(10, 10, snake_at(5, 8, vec![(5, 9)], Direction::Up), (5, 7));
    let before = g.snake.tail.len();
    assert_eq!(g.tick(), Phase::Running);
    let after_eating = g.snake.tail.len();
    assert_eq!(after_eating, before);
    for _ in 0..5 {
        g.fruit = Coord::new(9, 9);
        assert_eq!(g.tick(), Phase::Running);
    }
    assert_eq!(g.snake.tail.len(), after_eating + 2);
    assert_eq!(g.snake.length_to_add, 0);
}

#[test]
fn dying_tick_leaves_fruit() {
    let mut g = game(5, 5, snake_at(0, 0, vec![], Direction::Up), (3, 3));
    assert_eq!(g.tick(), Phase::Dead);
    assert!(!g.snake.alive);
    assert_eq!(g.fruit, Coord::new(3, 3));
}

#[test]
fn covering_the_board_wins() {
    let mut s = snake_at(1, 0, vec![(0, 0)], Direction::Right);
    s.length_to_add = 1;
    let mut g = game(3, 1, s, (2, 0));
    assert_eq!(g.tick(), Phase::Won);
    assert_eq!(g.fruit, Coord::new(2, 0));
    assert_eq!(g.snake.length_to_add, 2);
}

#[test]
fn free_cells_skip_the_snake() {
    let g = game(3, 3, snake_at(1, 1, vec![(0, 1)], Direction::Up), (2, 2));
    let cells = g.free_cells();
    assert_eq!(cells.len(), 7);
    assert!(!contains_cell(&cells, Coord::new(1, 1)));
    assert!(!contains_cell(&cells, Coord::new(0, 1)));
    assert!(contains_cell(&cells, Coord::new(2, 2)));
}

#[test]
fn respawned_fruit_never_on_snake() {
    let tail = vec![(0, 0), (1, 0), (2, 0), (3, 0), (3, 1), (2, 1), (1, 1)];
    for _ in 0..500 {
        let mut g = game(4, 3, snake_at(0, 1, tail.clone(), Direction::Up), (0, 1));
        assert!(g.set_random_fruit());
        assert!(fruit_is_free(&g));
        assert_eq!(g.fruit.y, 2);
    }
}

#[test]
fn respawn_with_one_free_cell_picks_it() {
    let mut g = game(2, 2, snake_at(0, 0, vec![(1, 0), (1, 1)], Direction::Up), (0, 0));
    assert!(g.set_random_fruit());
    assert_eq!(g.fruit, Coord::new(0, 1));
}

#[test]
fn respawn_on_full_board_keeps_fruit() {
    let mut g = game(2, 1, snake_at(0, 0, vec![(1, 0)], Direction::Up), (1, 0));
    assert!(!g.set_random_fruit());
    assert_eq!(g.fruit, Coord::new(1, 0));
}

#[test]
fn new_game_has_free_fruit() {
    let g = Game::new();
    assert_eq!(g.board_size, Coord::new(40, 40));
    assert_eq!(g.snake.head, Coord::new(5, 5));
    assert!(g.snake.alive);
    assert!(fruit_is_free(&g));
}

#[test]
fn last_arrow_key_wins() {
    let mut g = game(5, 5, snake_at(2, 2, vec![], Direction::Up), (0, 0));
    g.steer(&vec![Key::Left, Key::Other, Key::Down, Key::Other]);
    assert_eq!(g.snake.facing, Direction::Down);
    g.steer(&vec![Key::Other]);
    assert_eq!(g.snake.facing, Direction::Down);
    g.steer(&vec![]);
    assert_eq!(g.snake.facing, Direction::Down);
    g.steer(&vec![Key::Right]);
    assert_eq!(g.snake.facing, Direction::Right);
}

#[test]
fn keys_map_to_directions() {
    assert_eq!(direction_of(Key::Up), Some(Direction::Up));
    assert_eq!(direction_of(Key::Down), Some(Direction::Down));
    assert_eq!(direction_of(Key::Left), Some(Direction::Left));
    assert_eq!(direction_of(Key::Right), Some(Direction::Right));
    assert_eq!(direction_of(Key::Other), None);
}

#[test]
fn screen_position_of_cells() {
    assert_eq!(game_to_screen(Coord::new(0, 0)), Coord::new(2, 1));
    assert_eq!(game_to_screen(Coord::new(3, 4)), Coord::new(8, 5));
}

#[test]
fn board_frame_of_one_cell() {
    let g = game(1, 1, Snake::new(Coord::new(0, 0)), (0, 0));
    let b = g.draw_board();
    assert_eq!(b.len(), 9);
    for (k, sp) in b.iter().enumerate() {
        let (row, col) = ((k / 3) as i32, (k % 3) as i32);
        assert_eq!(sp.pos, Coord::new(2 * col, row));
        let glyph = if row == 1 && col == 1 { Glyph::Blank } else { Glyph::Wall };
        assert_eq!(sp.glyph, glyph);
    }
}

#[test]
fn snake_and_fruit_sprites() {
    let g = game(5, 5, snake_at(2, 2, vec![(2, 3)], Direction::Up), (4, 0));
    assert_eq!(g.draw_fruit(), Sprite { pos: Coord::new(10, 1), glyph: Glyph::Fruit });
    assert_eq!(
        g.snake.draw(),
        vec![
            Sprite { pos: Coord::new(6, 3), glyph: Glyph::Head },
            Sprite { pos: Coord::new(6, 4), glyph: Glyph::Body },
        ]
    );
    let frame = g.render();
    assert_eq!(frame.len(), 7 * 7 + 1 + 2);
    assert_eq!(frame[49], g.draw_fruit());
}

#[test]
fn rendering_twice_gives_the_same_frame() {
    let g = game(6, 4, snake_at(2, 2, vec![(2, 3), (3, 3)], Direction::Up), (5, 0));
    let first = g.render();
    let second = g.render();
    assert_eq!(first, second);
    assert_eq!(g.snake.head, Coord::new(2, 2));
    assert_eq!(g.fruit, Coord::new(5, 0));
}

#[test]
fn head_and_tail_sprites() {
    let s = snake_at(1, 0, vec![(0, 0), (0, 1)], Direction::Right);
    assert_eq!(s.draw_head(), Sprite { pos: Coord::new(4, 1), glyph: Glyph::Head });
    assert_eq!(
        s.draw_tail(),
        vec![
            Sprite { pos: Coord::new(2, 1), glyph: Glyph::Body },
            Sprite { pos: Coord::new(2, 2), glyph: Glyph::Body },
        ]
    );
}

#[test]
fn live_snake_never_sits_on_its_body() {
    let mut g = game(6, 6, snake_at(2, 2, vec![(2, 3)], Direction::Up), (2, 1));
    let turns = [Key::Left, Key::Down, Key::Down, Key::Right, Key::Right, Key::Up];
    for key in turns {
        g.steer(&vec![key]);
        if g.tick() != Phase::Running {
            break;
        }
        assert!(!contains_cell(&g.snake.tail, g.snake.head));
    }
}

#[test]
fn tail_drawing_ignores_the_head() {
    let s = snake_at(i32::MAX - 1, 0, vec![(0, 0)], Direction::Up);
    assert_eq!(s.draw_tail(), vec![Sprite { pos: Coord::new(2, 1), glyph: Glyph::Body }]);
    let lone = snake_at(i32::MAX - 1, 0, vec![], Direction::Up);
    assert!(lone.draw_tail().is_empty());
}

#[test]
fn moving_further_off_the_board_kills() {
    let mut s = snake_at(-5, 2, vec![], Direction::Left);
    s.update(&Coord::new(5, 5));
    assert!(!s.alive);
    assert_eq!(s.head, Coord::new(-6, 2));
}
