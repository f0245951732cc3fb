use heineos::snake::{Direction, Game, Position, BOARD_HEIGHT, BOARD_WIDTH, INITIAL_STEP_MS};
use heineos::snake_screen::{
    after_game_key, board_border_rects, board_cell_rect, centered_x, clip_rect, food_rects, game_key,
    game_over_hint_y, game_seed, help_y, next_high_score, overlay, snake_part_rects, speed_level,
    start_key, start_preview_rects, step_due, GameKey, Layout, Rect, RunResult, BOARD_DARK,
    BOARD_LIGHT, BORDER, FOOD, FOOD_LIGHT, PANEL, SNAKE_BODY, SNAKE_HEAD, SNAKE_INNER,
};

fn pos(x: usize, y: usize) -> Position {
    Position { x, y }
}

fn check_invariant(g: &Game) {
    let body = g.body();
    assert!(body.len() >= 5);
    for (i, p) in body.iter().enumerate() {
        assert!(p.x < BOARD_WIDTH && p.y < BOARD_HEIGHT);
        for q in &body[i + 1..] {
            assert_ne!(p, q);
        }
    }
    assert_eq!(g.score(), 10 * (body.len() - 5));
    if !g.won() {
        assert!(!body.contains(&g.food()));
        assert!(g.food().x < BOARD_WIDTH && g.food().y < BOARD_HEIGHT);
    }
}

#[test]
fn direction_opposites() {
    assert!(Direction::Up.is_opposite(Direction::Down));
    assert!(Direction::Left.is_opposite(Direction::Right));
    assert!(!Direction::Up.is_opposite(Direction::Left));
    assert!(!Direction::Up.is_opposite(Direction::Up));
}

#[test]
fn new_game_starts_in_the_middle() {
    let g = Game::new(42);
    assert_eq!(g.body(), &[pos(16, 12), pos(15, 12), pos(14, 12), pos(13, 12), pos(12, 12)]);
    assert_eq!(g.direction(), Direction::Right);
    assert_eq!(g.score(), 0);
    assert_eq!(g.step_ms(), INITIAL_STEP_MS);
    assert!(!g.won());
    check_invariant(&g);
}

#[test]
fn the_snake_moves_and_keeps_its_length() {
    let mut g = Game::new(7);
    let food = g.food();
    assert!(g.update());
    assert_eq!(g.body()[0], pos(17, 12));
    if food != pos(17, 12) {
        assert_eq!(g.body(), &[pos(17, 12), pos(16, 12), pos(15, 12), pos(14, 12), pos(13, 12)]);
    }
    check_invariant(&g);
}

#[test]
fn reversing_is_refused_and_one_turn_per_step() {
    let mut g = Game::new(3);
    g.queue_direction(Direction::Left);
    g.queue_direction(Direction::Up);
    g.queue_direction(Direction::Down);
    assert!(g.update());
    assert_eq!(g.direction(), Direction::Up);
    assert_eq!(g.body()[0], pos(16, 11));
    g.queue_direction(Direction::Down);
    assert!(g.update());
    assert_eq!(g.direction(), Direction::Up);
    check_invariant(&g);
}

#[test]
fn the_wall_ends_the_game() {
    let mut g = Game::new(11);
    let mut steps = 0;
    while g.update() {
        steps += 1;
        check_invariant(&g);
        assert!(steps <= BOARD_WIDTH);
    }
    assert_eq!(g.body()[0], pos(31, 12));
    check_invariant(&g);
}

#[test]
fn running_into_itself_ends_the_game() {
    let mut g = Game::new(5);
    g.queue_direction(Direction::Up);
    assert!(g.update());
    g.queue_direction(Direction::Left);
    assert!(g.update());
    assert_eq!(g.body()[0], pos(15, 11));
    // Turning down again leads onto (15, 12), which the snake still covers.
    g.queue_direction(Direction::Down);
    let before = g.body().to_vec();
    assert!(!g.update());
    assert_eq!(g.body(), &before[..]);
    assert_eq!(g.direction(), Direction::Down);
    check_invariant(&g);
}

#[test]
fn eating_grows_scores_and_speeds_up() {
    // Find a game whose food lies straight ahead of the snake.
    let mut seed = 0u64;
    let mut g = Game::new(seed);
    while !(g.food().y == 12 && g.food().x > 16) {
        seed += 1;
        g = Game::new(seed);
    }
    let food = g.food();
    for _ in 0..(food.x - 16) {
        assert!(g.update());
        check_invariant(&g);
    }
    assert_eq!(g.body()[0], food);
    assert_eq!(g.body().len(), 6);
    assert_eq!(g.score(), 10);
    assert_eq!(g.step_ms(), 130);
    assert_ne!(g.food(), food);
    check_invariant(&g);
}

#[test]
fn speed_levels() {
    assert_eq!(speed_level(135), 1);
    assert_eq!(speed_level(130), 2);
    assert_eq!(speed_level(55), 17);
    assert_eq!(speed_level(200), 1);
}

#[test]
fn layouts_for_screen_sizes() {
    let l = Layout::new(1024, 768);
    assert_eq!(
        l,
        Layout { screen_width: 1024, screen_height: 768, board_x: 192, board_y: 84, cell_size: 20, board_pixel_width: 640, board_pixel_height: 480 }
    );
    let s = Layout::new(320, 200);
    assert_eq!((s.cell_size, s.board_x, s.board_pixel_width, s.board_pixel_height), (6, 64, 192, 144));
    let z = Layout::new(0, 0);
    assert_eq!((z.cell_size, z.board_x), (6, 0));
}

#[test]
fn clipping_rectangles() {
    assert_eq!(clip_rect(100, 100, 90, 90, 20, 20), Some((90, 90, 100, 100)));
    assert_eq!(clip_rect(100, 100, 10, 20, 5, 5), Some((10, 20, 15, 25)));
    assert_eq!(clip_rect(100, 100, 100, 0, 5, 5), None);
    assert_eq!(clip_rect(100, 100, 10, 10, 0, 5), None);
    assert_eq!(clip_rect(usize::MAX, usize::MAX, usize::MAX - 1, 0, 5, 5), Some((usize::MAX - 1, 0, usize::MAX, 5)));
}

#[test]
fn centered_text() {
    assert_eq!(centered_x(1024, 10, 8), 467);
    assert_eq!(centered_x(50, 10, 8), 0);
}

#[test]
fn board_geometry() {
    let l = Layout::new(1024, 768);
    assert_eq!(board_cell_rect(l, pos(0, 0)), Rect { x: 192, y: 84, width: 20, height: 20, color: BOARD_DARK });
    assert_eq!(board_cell_rect(l, pos(1, 0)), Rect { x: 212, y: 84, width: 20, height: 20, color: BOARD_LIGHT });
    assert_eq!(
        board_border_rects(l),
        vec![
            Rect { x: 188, y: 80, width: 648, height: 4, color: BORDER },
            Rect { x: 188, y: 564, width: 648, height: 4, color: BORDER },
            Rect { x: 188, y: 84, width: 4, height: 480, color: BORDER },
            Rect { x: 832, y: 84, width: 4, height: 480, color: BORDER },
        ]
    );
}

#[test]
fn snake_and_food_geometry() {
    let l = Layout::new(1024, 768);
    assert_eq!(
        snake_part_rects(l, pos(0, 0), true, Direction::Right),
        vec![
            Rect { x: 194, y: 86, width: 16, height: 16, color: SNAKE_HEAD },
            Rect { x: 206, y: 90, width: 2, height: 2, color: 0 },
            Rect { x: 206, y: 96, width: 2, height: 2, color: 0 },
        ]
    );
    assert_eq!(
        snake_part_rects(l, pos(0, 0), false, Direction::Right),
        vec![
            Rect { x: 194, y: 86, width: 16, height: 16, color: SNAKE_BODY },
            Rect { x: 197, y: 89, width: 10, height: 10, color: SNAKE_INNER },
        ]
    );
    let small = Layout::new(320, 200);
    assert_eq!(snake_part_rects(small, pos(0, 0), true, Direction::Up).len(), 1);
    assert_eq!(
        food_rects(l, pos(0, 0)),
        vec![
            Rect { x: 196, y: 88, width: 12, height: 12, color: FOOD },
            Rect { x: 197, y: 89, width: 2, height: 2, color: FOOD_LIGHT },
        ]
    );
}

#[test]
fn panels_and_text_rows() {
    let l = Layout::new(1024, 768);
    let o = overlay(l);
    assert_eq!(o.border, Rect { x: 248, y: 245, width: 528, height: 158, color: BORDER });
    assert_eq!(o.panel, Rect { x: 252, y: 249, width: 520, height: 150, color: PANEL });
    assert_eq!((o.title_y, o.subtitle_y), (283, 325));
    assert_eq!(game_over_hint_y(l), 376);
    assert_eq!(help_y(l, 16), 586);
    let p = start_preview_rects(1024);
    assert_eq!(p.len(), 8);
    assert_eq!(p[0], Rect { x: 424, y: 180, width: 16, height: 16, color: SNAKE_BODY });
    assert_eq!(p[6], Rect { x: 544, y: 180, width: 16, height: 16, color: SNAKE_HEAD });
    assert_eq!(p[7], Rect { x: 586, y: 182, width: 12, height: 12, color: FOOD });
}

#[test]
fn keys_during_and_after_a_game() {
    assert_eq!(game_key(17), GameKey::Turn(Direction::Up));
    assert_eq!(game_key(72), GameKey::Turn(Direction::Up));
    assert_eq!(game_key(80), GameKey::Turn(Direction::Down));
    assert_eq!(game_key(30), GameKey::Turn(Direction::Left));
    assert_eq!(game_key(77), GameKey::Turn(Direction::Right));
    assert_eq!(game_key(1), GameKey::Exit);
    assert_eq!(game_key(16), GameKey::Ignored);
    assert_eq!(after_game_key(19, 30), Some(RunResult::Restart(30)));
    assert_eq!(after_game_key(28, 30), Some(RunResult::Restart(30)));
    assert_eq!(after_game_key(1, 30), Some(RunResult::Exit(30)));
    assert_eq!(after_game_key(2, 30), None);
    assert_eq!(start_key(28), Some(true));
    assert_eq!(start_key(1), Some(false));
    assert_eq!(start_key(17), None);
    assert_eq!(next_high_score(50, RunResult::Exit(70)), (70, false));
    assert_eq!(next_high_score(50, RunResult::Restart(20)), (50, true));
}

#[test]
fn step_timing_and_seed() {
    assert!(step_due(100, 50, 50));
    assert!(!step_due(99, 50, 50));
    assert!(step_due(5, usize::MAX - 4, 10));
    assert!(!step_due(4, usize::MAX - 4, 10));
    assert_eq!(game_seed(0, 0), 0x9e37_79b9_7f4a_7c15);
    assert_eq!(game_seed(1, 1), 0x9e37_79b9_7f4a_7c15 ^ 1 ^ (1 << 32));
}
