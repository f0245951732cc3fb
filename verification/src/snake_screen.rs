//! The snake game's screen layout and drawing geometry, and how it reacts
//! to keys. Drawing itself (filling rectangles, drawing text) is done by
//! the caller with the rectangles computed here.
use vstd::prelude::*;

use crate::keyboard::{KEY_A, KEY_D, KEY_DOWN, KEY_ENTER, KEY_ESCAPE, KEY_LEFT, KEY_R, KEY_RIGHT, KEY_S, KEY_UP, KEY_W};
use crate::snake::{
    on_board, Direction, Position, BOARD_HEIGHT, BOARD_WIDTH, INITIAL_STEP_MS, SPEEDUP_MS,
};

verus! {

pub const BACKGROUND: u32 = 0x070C12;
pub const PANEL: u32 = 0x0E1820;
pub const BOARD_DARK: u32 = 0x121F19;
pub const BOARD_LIGHT: u32 = 0x15261D;
pub const BORDER: u32 = 0x42694C;
pub const SNAKE_HEAD: u32 = 0x67E670;
pub const SNAKE_BODY: u32 = 0x30B449;
pub const SNAKE_INNER: u32 = 0x44CD59;
pub const FOOD: u32 = 0xE1373E;
pub const FOOD_LIGHT: u32 = 0xFF7652;
pub const TEXT: u32 = 0xDCEBE0;
pub const TEXT_MUTED: u32 = 0x8EA596;
pub const ACCENT: u32 = 0x5EDC70;
pub const BLACK: u32 = 0x000000;

/// Top edge of the board on the screen.
pub const BOARD_Y: usize = 84;
/// Width of the border around the board.
pub const BORDER_SIZE: usize = 4;

/// A filled rectangle to draw.
#[derive(Clone, Copy, Debug, PartialEq, Eq, Structural)]
pub struct Rect {
    pub x: usize,
    pub y: usize,
    pub width: usize,
    pub height: usize,
    pub color: u32,
}

/// Where the board goes on a screen of the given size.
#[derive(Clone, Copy, Debug, PartialEq, Eq, Structural)]
pub struct Layout {
    pub screen_width: usize,
    pub screen_height: usize,
    pub board_x: usize,
    pub board_y: usize,
    pub cell_size: usize,
    pub board_pixel_width: usize,
    pub board_pixel_height: usize,
}

pub open spec fn sat_sub(a: int, b: int) -> int {
    if a < b { 0 } else { a - b }
}

pub open spec fn min_int(a: int, b: int) -> int {
    if a < b { a } else { b }
}

pub open spec fn max_int(a: int, b: int) -> int {
    if a < b { b } else { a }
}

/// The layout for a screen of `w` by `h` pixels: cells as large as the screen
/// allows, from 6 to 20 pixels, the board centered horizontally below the
/// status bar.
pub open spec fn layout_for(w: usize, h: usize) -> Layout {
    let by_width = sat_sub(w as int, 48) / BOARD_WIDTH as int;
    let by_height = sat_sub(h as int, 150) / BOARD_HEIGHT as int;
    let cell = max_int(6, min_int(20, min_int(by_width, by_height)));
    Layout {
        screen_width: w,
        screen_height: h,
        board_x: (sat_sub(w as int, BOARD_WIDTH * cell) / 2) as usize,
        board_y: BOARD_Y,
        cell_size: cell as usize,
        board_pixel_width: (BOARD_WIDTH * cell) as usize,
        board_pixel_height: (BOARD_HEIGHT * cell) as usize,
    }
}

/// A layout that `Layout::new` can produce.
pub open spec fn layout_wf(l: Layout) -> bool {
    l == layout_for(l.screen_width, l.screen_height)
}

/// The layout, said without `layout_for`: cells are 6 to 20 pixels; unless
/// they are at the minimum, the board fits the screen with a margin of 48
/// pixels across and 150 down; unless they are at the maximum, one pixel
/// more per cell would not fit; the board is centered across the screen
/// (or at its left edge when wider) and starts 84 pixels down.
pub proof fn lemma_layout_fits_screen(w: usize, h: usize)
    ensures
        ({
            let l = layout_for(w, h);
            let c = l.cell_size as int;
            &&& 6 <= c <= 20
            &&& l.board_pixel_width == 32 * c
            &&& l.board_pixel_height == 24 * c
            &&& c > 6 ==> 32 * c + 48 <= w && 24 * c + 150 <= h
            &&& c < 20 && c > 6 ==> 32 * (c + 1) + 48 > w || 24 * (c + 1) + 150 > h
            &&& c == 6 ==> 32 * 7 + 48 > w || 24 * 7 + 150 > h
            &&& 32 * c <= w ==> w - 1 <= 2 * l.board_x + 32 * c <= w
            &&& 32 * c > w ==> l.board_x == 0
            &&& l.board_y == 84
        }),
{
}

impl Layout {
    /// The layout for a screen of the given size.
    pub fn new(screen_width: usize, screen_height: usize) -> (l: Layout)
        ensures
            l == layout_for(screen_width, screen_height),
            layout_wf(l),
    {
        let horizontal_space = screen_width.saturating_sub(48);
        let vertical_space = screen_height.saturating_sub(150);
        let by_width = horizontal_space / BOARD_WIDTH;
        let by_height = vertical_space / BOARD_HEIGHT;
        let smaller = if by_width < by_height { by_width } else { by_height };
        let capped = if smaller < 20 { smaller } else { 20 };
        let cell_size = if capped < 6 { 6 } else { capped };
        let board_pixel_width = BOARD_WIDTH * cell_size;
        let board_pixel_height = BOARD_HEIGHT * cell_size;
        let board_x = screen_width.saturating_sub(board_pixel_width) / 2;
        Layout {
            screen_width,
            screen_height,
            board_x,
            board_y: BOARD_Y,
            cell_size,
            board_pixel_width,
            board_pixel_height,
        }
    }
}

/// The speed level shown for a step time: 1, plus one per speed-up.
pub fn speed_level(step_ms: usize) -> (level: usize)
    ensures
        level == 1 + sat_sub(INITIAL_STEP_MS as int, step_ms as int) / SPEEDUP_MS as int,
{
    1 + INITIAL_STEP_MS.saturating_sub(step_ms) / SPEEDUP_MS
}

/// The part of the rectangle at (`x`, `y`) of size `width` by `height` that
/// lies on a screen of `screen_width` by `screen_height`, as its corners
/// (`x`, `y`, end x, end y); `None` if nothing of it lies on the screen.
pub fn clip_rect(screen_width: usize, screen_height: usize, x: usize, y: usize, width: usize, height: usize) -> (r: Option<(usize, usize, usize, usize)>)
    ensures
        ({
            let end_x = min_int(screen_width as int, min_int(x + width, usize::MAX as int));
            let end_y = min_int(screen_height as int, min_int(y + height, usize::MAX as int));
            if x >= end_x || y >= end_y {
                r is None
            } else {
                r == Some((x, y, end_x as usize, end_y as usize))
            }
        }),
{
    let sx = x.saturating_add(width);
    let sy = y.saturating_add(height);
    let end_x = if screen_width < sx { screen_width } else { sx };
    let end_y = if screen_height < sy { screen_height } else { sy };
    if x >= end_x || y >= end_y {
        None
    } else {
        Some((x, y, end_x, end_y))
    }
}

/// The x position that centers a text of `chars` characters, each
/// `char_width` pixels wide plus one pixel of spacing, on a screen `screen_width` wide.
pub fn centered_x(screen_width: usize, chars: usize, char_width: usize) -> (x: usize)
    requires
        char_width < usize::MAX,
        chars * (char_width + 1) <= usize::MAX,
    ensures
        x == sat_sub(screen_width as int, chars * (char_width + 1)) / 2,
{
    let text_width = chars * (char_width + 1);
    screen_width.saturating_sub(text_width) / 2
}

/// Top-left pixel of cell `p` of the board.
pub open spec fn cell_origin(l: Layout, p: Position) -> (int, int) {
    (l.board_x + p.x * l.cell_size, l.board_y + p.y * l.cell_size)
}

/// Facts about layouts that bound the drawing arithmetic.
proof fn lemma_layout_bounds(l: Layout, p: Position)
    requires
        layout_wf(l),
        on_board(p),
    ensures
        6 <= l.cell_size <= 20,
        l.board_pixel_width == BOARD_WIDTH * l.cell_size,
        l.board_pixel_height == BOARD_HEIGHT * l.cell_size,
        l.board_y == BOARD_Y,
        l.board_x <= usize::MAX / 2,
        0 <= p.x * l.cell_size <= 31 * 20,
        0 <= p.y * l.cell_size <= 23 * 20,
{
    assert(p.x * l.cell_size <= 31 * 20) by (nonlinear_arith)
        requires p.x <= 31, l.cell_size <= 20;
    assert(p.y * l.cell_size <= 23 * 20) by (nonlinear_arith)
        requires p.y <= 23, l.cell_size <= 20;
}

/// The rectangle of board cell `p`: a checkerboard of two shades.
pub fn board_cell_rect(layout: Layout, p: Position) -> (r: Rect)
    requires
        layout_wf(layout),
        on_board(p),
    ensures
        r == (Rect {
            x: cell_origin(layout, p).0 as usize,
            y: cell_origin(layout, p).1 as usize,
            width: layout.cell_size,
            height: layout.cell_size,
            color: if (p.x + p.y) % 2 == 0 { BOARD_DARK } else { BOARD_LIGHT },
        }),
{
    proof {
        lemma_layout_bounds(layout, p);
    }
    let tile_color = if (p.x + p.y) % 2 == 0 { BOARD_DARK } else { BOARD_LIGHT };
    Rect {
        x: layout.board_x + p.x * layout.cell_size,
        y: layout.board_y + p.y * layout.cell_size,
        width: layout.cell_size,
        height: layout.cell_size,
        color: tile_color,
    }
}

/// The border around the board: top, bottom, left and right.
pub fn board_border_rects(layout: Layout) -> (r: Vec<Rect>)
    requires
        layout_wf(layout),
    ensures
        ({
            let x = layout.board_x as int;
            let y = layout.board_y as int;
            let w = layout.board_pixel_width as int;
            let h = layout.board_pixel_height as int;
            let b = BORDER_SIZE as int;
            r@ == seq![
                Rect { x: sat_sub(x, b) as usize, y: sat_sub(y, b) as usize, width: (w + 2 * b) as usize, height: BORDER_SIZE, color: BORDER },
                Rect { x: sat_sub(x, b) as usize, y: (y + h) as usize, width: (w + 2 * b) as usize, height: BORDER_SIZE, color: BORDER },
                Rect { x: sat_sub(x, b) as usize, y: y as usize, width: BORDER_SIZE, height: h as usize, color: BORDER },
                Rect { x: (x + w) as usize, y: y as usize, width: BORDER_SIZE, height: h as usize, color: BORDER },
            ]
        }),
{
    proof {
        lemma_layout_bounds(layout, Position { x: 0, y: 0 });
    }
    let x = layout.board_x;
    let y = layout.board_y;
    let width = layout.board_pixel_width;
    let height = layout.board_pixel_height;
    let border_size = BORDER_SIZE;
    let mut r: Vec<Rect> = Vec::new();
    r.push(Rect { x: x.saturating_sub(border_size), y: y.saturating_sub(border_size), width: width + border_size * 2, height: border_size, color: BORDER });
    r.push(Rect { x: x.saturating_sub(border_size), y: y + height, width: width + border_size * 2, height: border_size, color: BORDER });
    r.push(Rect { x: x.saturating_sub(border_size), y, width: border_size, height, color: BORDER });
    r.push(Rect { x: x + width, y, width: border_size, height, color: BORDER });
    r
}

/// The rectangles of a piece of the snake at cell `p`: a filled square with a
/// margin; a body piece has an inner square, the head has two eyes that look
/// in direction `direction` (on cells of at least 10 pixels).
pub fn snake_part_rects(layout: Layout, p: Position, head: bool, direction: Direction) -> (r: Vec<Rect>)
    requires
        layout_wf(layout),
        on_board(p),
    ensures
        ({
            let (x, y) = cell_origin(layout, p);
            let cell = layout.cell_size as int;
            let margin = max_int(1, cell / 8);
            let size = sat_sub(cell, margin * 2);
            let first = Rect {
                x: (x + margin) as usize,
                y: (y + margin) as usize,
                width: size as usize,
                height: size as usize,
                color: if head { SNAKE_HEAD } else { SNAKE_BODY },
            };
            if !head {
                let inner_margin = max_int(2, cell / 4);
                let inner_size = sat_sub(cell, inner_margin * 2);
                if inner_size > 0 {
                    r@ == seq![first, Rect {
                        x: (x + inner_margin) as usize,
                        y: (y + inner_margin) as usize,
                        width: inner_size as usize,
                        height: inner_size as usize,
                        color: SNAKE_INNER,
                    }]
                } else {
                    r@ == seq![first]
                }
            } else if cell < 10 {
                r@ == seq![first]
            } else {
                let eye = max_int(2, cell / 7);
                let near = margin + 2;
                let far = sat_sub(cell, margin + eye + 2);
                let middle_a = cell / 3;
                let middle_b = sat_sub(cell, cell / 3 + eye);
                let (e1x, e1y, e2x, e2y) = match direction {
                    Direction::Up => (middle_a, near, middle_b, near),
                    Direction::Down => (middle_a, far, middle_b, far),
                    Direction::Left => (near, middle_a, near, middle_b),
                    Direction::Right => (far, middle_a, far, middle_b),
                };
                r@ == seq![
                    first,
                    Rect { x: (x + e1x) as usize, y: (y + e1y) as usize, width: eye as usize, height: eye as usize, color: BLACK },
                    Rect { x: (x + e2x) as usize, y: (y + e2y) as usize, width: eye as usize, height: eye as usize, color: BLACK },
                ]
            }
        }),
{
    proof {
        lemma_layout_bounds(layout, p);
    }
    let cell = layout.cell_size;
    let x = layout.board_x + p.x * cell;
    let y = layout.board_y + p.y * cell;
    let margin = if cell / 8 < 1 { 1 } else { cell / 8 };
    let size = cell.saturating_sub(margin * 2);
    let body_color = if head { SNAKE_HEAD } else { SNAKE_BODY };
    let mut r: Vec<Rect> = Vec::new();
    r.push(Rect { x: x + margin, y: y + margin, width: size, height: size, color: body_color });
    if !head {
        let inner_margin = if cell / 4 < 2 { 2 } else { cell / 4 };
        let inner_size = cell.saturating_sub(inner_margin * 2);
        if inner_size > 0 {
            r.push(Rect { x: x + inner_margin, y: y + inner_margin, width: inner_size, height: inner_size, color: SNAKE_INNER });
        }
        return r;
    }
    if cell < 10 {
        return r;
    }
    let eye = if cell / 7 < 2 { 2 } else { cell / 7 };
    let near = margin + 2;
    let far = cell.saturating_sub(margin + eye + 2);
    let middle_a = cell / 3;
    let middle_b = cell.saturating_sub(cell / 3 + eye);
    let (e1x, e1y, e2x, e2y) = match direction {
        Direction::Up => (middle_a, near, middle_b, near),
        Direction::Down => (middle_a, far, middle_b, far),
        Direction::Left => (near, middle_a, near, middle_b),
        Direction::Right => (far, middle_a, far, middle_b),
    };
    r.push(Rect { x: x + e1x, y: y + e1y, width: eye, height: eye, color: BLACK });
    r.push(Rect { x: x + e2x, y: y + e2y, width: eye, height: eye, color: BLACK });
    r
}

/// The rectangles of the food at cell `p`: a square with a margin and a
/// highlight in its upper left corner.
pub fn food_rects(layout: Layout, p: Position) -> (r: Vec<Rect>)
    requires
        layout_wf(layout),
        on_board(p),
    ensures
        ({
            let (x, y) = cell_origin(layout, p);
            let cell = layout.cell_size as int;
            let margin = max_int(2, cell / 5);
            let size = sat_sub(cell, margin * 2);
            let highlight = max_int(1, cell / 8);
            r@ == seq![
                Rect { x: (x + margin) as usize, y: (y + margin) as usize, width: size as usize, height: size as usize, color: FOOD },
                Rect { x: (x + margin + 1) as usize, y: (y + margin + 1) as usize, width: highlight as usize, height: highlight as usize, color: FOOD_LIGHT },
            ]
        }),
{
    proof {
        lemma_layout_bounds(layout, p);
    }
    let cell = layout.cell_size;
    let x = layout.board_x + p.x * cell;
    let y = layout.board_y + p.y * cell;
    let margin = if cell / 5 < 2 { 2 } else { cell / 5 };
    let size = cell.saturating_sub(margin * 2);
    let highlight = if cell / 8 < 1 { 1 } else { cell / 8 };
    let mut r: Vec<Rect> = Vec::new();
    r.push(Rect { x: x + margin, y: y + margin, width: size, height: size, color: FOOD });
    r.push(Rect { x: x + margin + 1, y: y + margin + 1, width: highlight, height: highlight, color: FOOD_LIGHT });
    r
}

/// The game-over panel: its border, the panel, and the rows of its title and subtitle.
#[derive(Clone, Copy, Debug, PartialEq, Eq, Structural)]
pub struct Overlay {
    pub border: Rect,
    pub panel: Rect,
    pub title_y: usize,
    pub subtitle_y: usize,
}

/// The game-over panel, centered over the board.
pub fn overlay(layout: Layout) -> (o: Overlay)
    requires
        layout_wf(layout),
    ensures
        ({
            let width = min_int(520, sat_sub(layout.screen_width as int, 40));
            let height = 150int;
            let x = sat_sub(layout.screen_width as int, width) / 2;
            let y = layout.board_y + sat_sub(layout.board_pixel_height as int, height) / 2;
            &&& o.border == (Rect { x: sat_sub(x, 4) as usize, y: sat_sub(y, 4) as usize, width: (width + 8) as usize, height: (height + 8) as usize, color: BORDER })
            &&& o.panel == (Rect { x: x as usize, y: y as usize, width: width as usize, height: height as usize, color: PANEL })
            &&& o.title_y == y + 34
            &&& o.subtitle_y == y + 76
        }),
{
    proof {
        lemma_layout_bounds(layout, Position { x: 0, y: 0 });
    }
    let limit = layout.screen_width.saturating_sub(40);
    let panel_width = if limit < 520 { limit } else { 520 };
    let panel_height: usize = 150;
    let panel_x = layout.screen_width.saturating_sub(panel_width) / 2;
    let panel_y = layout.board_y + layout.board_pixel_height.saturating_sub(panel_height) / 2;
    Overlay {
        border: Rect {
            x: panel_x.saturating_sub(4),
            y: panel_y.saturating_sub(4),
            width: panel_width + 8,
            height: panel_height + 8,
            color: BORDER,
        },
        panel: Rect { x: panel_x, y: panel_y, width: panel_width, height: panel_height, color: PANEL },
        title_y: panel_y + 34,
        subtitle_y: panel_y + 76,
    }
}

/// The row of the hint below the game-over panel.
pub fn game_over_hint_y(layout: Layout) -> (y: usize)
    requires
        layout_wf(layout),
    ensures
        y == layout.board_y + layout.board_pixel_height / 2 + 52,
{
    proof {
        lemma_layout_bounds(layout, Position { x: 0, y: 0 });
    }
    layout.board_y + layout.board_pixel_height / 2 + 52
}

/// The row of the help line below the board, kept on a screen whose
/// characters are `char_height` pixels high.
pub fn help_y(layout: Layout, char_height: usize) -> (y: usize)
    requires
        layout_wf(layout),
        char_height + 12 <= usize::MAX,
    ensures
        y == min_int(
            sat_sub(layout.screen_height as int, char_height + 12),
            layout.board_y + layout.board_pixel_height + 22,
        ),
{
    proof {
        lemma_layout_bounds(layout, Position { x: 0, y: 0 });
    }
    let bottom = layout.screen_height.saturating_sub(char_height + 12);
    let below_board = layout.board_y + layout.board_pixel_height + 22;
    if bottom < below_board { bottom } else { below_board }
}

/// The preview on the start screen: seven snake pieces, the last one the
/// head, and a piece of food, centered on a screen `screen_width` wide.
pub fn start_preview_rects(screen_width: usize) -> (r: Vec<Rect>)
    ensures
        ({
            let px = sat_sub(screen_width as int, 180) / 2;
            &&& r@.len() == 8
            &&& forall|i: int| 0 <= i < 7 ==> #[trigger] r@[i] == (Rect {
                x: (px + i * 20 + 2) as usize,
                y: 180,
                width: 16,
                height: 16,
                color: if i == 6 { SNAKE_HEAD } else { SNAKE_BODY },
            })
            &&& r@[7] == (Rect { x: (px + 164) as usize, y: 182, width: 12, height: 12, color: FOOD })
        }),
{
    let preview_y: usize = 178;
    let preview_cell: usize = 20;
    let preview_x = screen_width.saturating_sub(9 * preview_cell) / 2;
    let mut r: Vec<Rect> = Vec::new();
    let mut index: usize = 0;
    while index < 7
        invariant
            index <= 7,
            preview_x == sat_sub(screen_width as int, 180) / 2,
            preview_y == 178,
            preview_cell == 20,
            r@.len() == index,
            forall|i: int| 0 <= i < index ==> #[trigger] r@[i] == (Rect {
                x: (preview_x + i * 20 + 2) as usize,
                y: 180,
                width: 16,
                height: 16,
                color: if i == 6 { SNAKE_HEAD } else { SNAKE_BODY },
            }),
        decreases 7 - index,
    {
        let color = if index == 6 { SNAKE_HEAD } else { SNAKE_BODY };
        r.push(Rect { x: preview_x + index * preview_cell + 2, y: preview_y + 2, width: preview_cell - 4, height: preview_cell - 4, color });
        index = index + 1;
    }
    r.push(Rect { x: preview_x + 8 * preview_cell + 4, y: preview_y + 4, width: preview_cell - 8, height: preview_cell - 8, color: FOOD });
    r
}

/// What a key does while a game runs.
#[derive(Clone, Copy, Debug, PartialEq, Eq, Structural)]
pub enum GameKey {
    Turn(Direction),
    Exit,
    Ignored,
}

/// The arrow keys and W A S D turn the snake; escape ends the game.
pub fn game_key(scancode: u8) -> (k: GameKey)
    ensures
        k == if scancode == KEY_UP || scancode == KEY_W {
            GameKey::Turn(Direction::Up)
        } else if scancode == KEY_DOWN || scancode == KEY_S {
            GameKey::Turn(Direction::Down)
        } else if scancode == KEY_LEFT || scancode == KEY_A {
            GameKey::Turn(Direction::Left)
        } else if scancode == KEY_RIGHT || scancode == KEY_D {
            GameKey::Turn(Direction::Right)
        } else if scancode == KEY_ESCAPE {
            GameKey::Exit
        } else {
            GameKey::Ignored
        },
{
    if scancode == KEY_UP || scancode == KEY_W {
        GameKey::Turn(Direction::Up)
    } else if scancode == KEY_DOWN || scancode == KEY_S {
        GameKey::Turn(Direction::Down)
    } else if scancode == KEY_LEFT || scancode == KEY_A {
        GameKey::Turn(Direction::Left)
    } else if scancode == KEY_RIGHT || scancode == KEY_D {
        GameKey::Turn(Direction::Right)
    } else if scancode == KEY_ESCAPE {
        GameKey::Exit
    } else {
        GameKey::Ignored
    }
}

/// How a game ended: play again or leave, with the game's score.
#[derive(Clone, Copy, Debug, PartialEq, Eq, Structural)]
pub enum RunResult {
    Restart(usize),
    Exit(usize),
}

/// After a game: enter or R plays again, escape leaves; other keys do nothing.
pub fn after_game_key(scancode: u8, score: usize) -> (r: Option<RunResult>)
    ensures
        r == if scancode == KEY_ENTER || scancode == KEY_R {
            Some(RunResult::Restart(score))
        } else if scancode == KEY_ESCAPE {
            Some(RunResult::Exit(score))
        } else {
            None
        },
{
    if scancode == KEY_ENTER || scancode == KEY_R {
        Some(RunResult::Restart(score))
    } else if scancode == KEY_ESCAPE {
        Some(RunResult::Exit(score))
    } else {
        None
    }
}

/// On the start screen: enter starts the game (`true`), escape leaves (`false`).
pub fn start_key(scancode: u8) -> (r: Option<bool>)
    ensures
        r == if scancode == KEY_ENTER {
            Some(true)
        } else if scancode == KEY_ESCAPE {
            Some(false)
        } else {
            None
        },
{
    if scancode == KEY_ENTER {
        Some(true)
    } else if scancode == KEY_ESCAPE {
        Some(false)
    } else {
        None
    }
}

/// After a game: the new high score, and whether to play again.
pub fn next_high_score(high_score: usize, result: RunResult) -> (r: (usize, bool))
    ensures
        r == match result {
            RunResult::Restart(s) => (max_int(high_score as int, s as int) as usize, true),
            RunResult::Exit(s) => (max_int(high_score as int, s as int) as usize, false),
        },
{
    match result {
        RunResult::Restart(s) => (if high_score < s { s } else { high_score }, true),
        RunResult::Exit(s) => (if high_score < s { s } else { high_score }, false),
    }
}

/// The game takes a step when at least `step_ms` milliseconds passed since
/// the last one (the clock may wrap around).
pub fn step_due(now: usize, last_step: usize, step_ms: usize) -> (due: bool)
    ensures
        due == ((if now >= last_step { now - last_step } else { now - last_step + usize::MAX + 1 }) >= step_ms),
{
    now.wrapping_sub(last_step) >= step_ms
}

/// The random seed of a game started at time `time` with high score `high_score`.
pub fn game_seed(time: usize, high_score: usize) -> (seed: u64)
    ensures
        seed == (time as u64) ^ ((high_score as u64) << 32u64) ^ 0x9e37_79b9_7f4a_7c15u64,
{
    (time as u64) ^ ((high_score as u64) << 32u64) ^ 0x9e37_79b9_7f4a_7c15u64
}

} // verus!
