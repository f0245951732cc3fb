//! The rules of the snake game: the board, the snake's moves, food and score.
use vstd::prelude::*;

verus! {

pub const BOARD_WIDTH: usize = 32;
pub const BOARD_HEIGHT: usize = 24;
/// Number of cells of the board.
pub const BOARD_CELLS: usize = 768;
pub const INITIAL_LENGTH: usize = 5;
pub const INITIAL_STEP_MS: usize = 135;
pub const MIN_STEP_MS: usize = 55;
pub const SPEEDUP_MS: usize = 5;
/// Points for each piece of food eaten.
pub const FOOD_POINTS: usize = 10;
/// Number of random cells tried before the board is searched in order.
pub const RANDOM_TRIES: usize = 1536;

/// A cell of the board.
#[derive(Clone, Copy, Debug, PartialEq, Eq, Structural)]
pub struct Position {
    pub x: usize,
    pub y: usize,
}

/// A direction the snake can move in.
#[derive(Clone, Copy, Debug, PartialEq, Eq, Structural)]
pub enum Direction {
    Up,
    Down,
    Left,
    Right,
}

pub open spec fn opposite(a: Direction, b: Direction) -> bool {
    ||| a == Direction::Up && b == Direction::Down
    ||| a == Direction::Down && b == Direction::Up
    ||| a == Direction::Left && b == Direction::Right
    ||| a == Direction::Right && b == Direction::Left
}

impl Direction {
    /// The two directions point in opposite ways.
    pub fn is_opposite(self, other: Direction) -> (r: bool)
        ensures
            r == opposite(self, other),
    {
        match (self, other) {
            (Direction::Up, Direction::Down) => true,
            (Direction::Down, Direction::Up) => true,
            (Direction::Left, Direction::Right) => true,
            (Direction::Right, Direction::Left) => true,
            _ => false,
        }
    }
}

/// The cell lies on the board.
pub open spec fn on_board(p: Position) -> bool {
    p.x < BOARD_WIDTH && p.y < BOARD_HEIGHT
}

/// The cell next to `head` in direction `d`, or `None` if that is off the board.
pub open spec fn next_head(head: Position, d: Direction) -> Option<Position> {
    match d {
        Direction::Up => if head.y == 0 { None } else { Some(Position { x: head.x, y: (head.y - 1) as usize }) },
        Direction::Down => if head.y + 1 >= BOARD_HEIGHT { None } else { Some(Position { x: head.x, y: (head.y + 1) as usize }) },
        Direction::Left => if head.x == 0 { None } else { Some(Position { x: (head.x - 1) as usize, y: head.y }) },
        Direction::Right => if head.x + 1 >= BOARD_WIDTH { None } else { Some(Position { x: (head.x + 1) as usize, y: head.y }) },
    }
}

/// One step of the xorshift random number generator.
pub open spec fn xorshift(v: u64) -> u64 {
    let a = v ^ (v << 13u64);
    let b = a ^ (a >> 7u64);
    b ^ (b << 17u64)
}

/// The generator state after `n` steps from `s`.
pub open spec fn rng_after(s: u64, n: nat) -> u64
    decreases n,
{
    if n == 0 {
        s
    } else {
        xorshift(rng_after(s, (n - 1) as nat))
    }
}

/// The `k`-th random cell drawn from state `s`: a column, then a row.
pub open spec fn random_cell(s: u64, k: nat) -> Position {
    Position {
        x: ((rng_after(s, 2 * k + 1) as usize) % BOARD_WIDTH) as usize,
        y: ((rng_after(s, 2 * k + 2) as usize) % BOARD_HEIGHT) as usize,
    }
}

/// The `n`-th cell of the board in row-major order.
pub open spec fn board_cell(n: int) -> Position {
    Position { x: (n % BOARD_WIDTH as int) as usize, y: (n / BOARD_WIDTH as int) as usize }
}

/// Where food goes: the first random cell (of at most `RANDOM_TRIES`) that
/// the snake does not cover, else the first free cell in row-major order;
/// the game is won when the snake covers the whole board or no free cell is
/// found. Relates the state before (`body`, `rng`, `food`, `won`) to the
/// state after (`rng2`, `food2`, `won2`).
pub open spec fn food_placed(body: Seq<Position>, rng: u64, food: Position, won: bool, rng2: u64, food2: Position, won2: bool) -> bool {
    if body.len() >= BOARD_CELLS {
        rng2 == rng && food2 == food && won2
    } else if exists|k: nat| k < RANDOM_TRIES && !body.contains(#[trigger] random_cell(rng, k)) {
        exists|k: nat|
            k < RANDOM_TRIES
            && !body.contains(#[trigger] random_cell(rng, k))
            && (forall|j: nat| j < k ==> body.contains(#[trigger] random_cell(rng, j)))
            && rng2 == rng_after(rng, 2 * k + 2)
            && food2 == random_cell(rng, k)
            && won2 == won
    } else {
        &&& rng2 == rng_after(rng, 2 * RANDOM_TRIES as nat)
        &&& if exists|n: int| 0 <= n < BOARD_CELLS && !body.contains(#[trigger] board_cell(n)) {
            exists|n: int|
                0 <= n < BOARD_CELLS
                && !body.contains(#[trigger] board_cell(n))
                && (forall|j: int| 0 <= j < n ==> body.contains(#[trigger] board_cell(j)))
                && food2 == board_cell(n)
                && won2 == won
        } else {
            food2 == food && won2
        }
    }
}

/// Cell `x` of row `y` is cell `y * BOARD_WIDTH + x` in row-major order.
proof fn lemma_board_cell(x: int, y: int)
    requires
        0 <= x < BOARD_WIDTH,
        0 <= y < BOARD_HEIGHT,
    ensures
        board_cell(y * BOARD_WIDTH + x) == (Position { x: x as usize, y: y as usize }),
{
    assert((y * 32 + x) % 32 == x && (y * 32 + x) / 32 == y) by (nonlinear_arith)
        requires 0 <= x < 32, 0 <= y;
}

/// The step time after `eaten` pieces of food: it drops by `SPEEDUP_MS` per
/// piece, down to `MIN_STEP_MS`.
pub open spec fn step_for(eaten: int) -> int {
    if INITIAL_STEP_MS - SPEEDUP_MS * eaten < MIN_STEP_MS {
        MIN_STEP_MS as int
    } else {
        INITIAL_STEP_MS - SPEEDUP_MS * eaten
    }
}

/// No cell occurs twice in `body`.
pub open spec fn distinct(body: Seq<Position>) -> bool {
    forall|i: int, j: int| 0 <= i < j < body.len() ==> #[trigger] body[i] != #[trigger] body[j]
}

/// The snake after moving its head to `head`: it keeps its tail when it grows.
pub open spec fn moved(body: Seq<Position>, head: Position, grows: bool) -> Seq<Position> {
    if grows {
        seq![head] + body
    } else {
        seq![head] + body.drop_last()
    }
}

/// Food is only ever placed on a free cell of the board (unless the game is won).
pub proof fn lemma_food_placed_free(body: Seq<Position>, rng: u64, food: Position, won: bool, rng2: u64, food2: Position, won2: bool)
    requires
        food_placed(body, rng, food, won, rng2, food2, won2),
        !won2,
    ensures
        on_board(food2),
        !body.contains(food2),
{
    if body.len() >= BOARD_CELLS {
    } else if exists|k: nat| k < RANDOM_TRIES && !body.contains(#[trigger] random_cell(rng, k)) {
        let k = choose|k: nat|
            k < RANDOM_TRIES
            && !body.contains(#[trigger] random_cell(rng, k))
            && (forall|j: nat| j < k ==> body.contains(#[trigger] random_cell(rng, j)))
            && rng2 == rng_after(rng, 2 * k + 2)
            && food2 == random_cell(rng, k)
            && won2 == won;
        assert(food2 == random_cell(rng, k));
    } else if exists|n: int| 0 <= n < BOARD_CELLS && !body.contains(#[trigger] board_cell(n)) {
        let n = choose|n: int|
            0 <= n < BOARD_CELLS
            && !body.contains(#[trigger] board_cell(n))
            && (forall|j: int| 0 <= j < n ==> body.contains(#[trigger] board_cell(j)))
            && food2 == board_cell(n)
            && won2 == won;
        assert(food2 == board_cell(n));
        assert(n / 32 < 24 && n % 32 < 32) by (nonlinear_arith)
            requires 0 <= n < 768;
    }
}

/// Moving the head to a cell on the board that the rest of the snake does
/// not cover keeps the snake on the board and free of repeated cells, and
/// the snake grows by one cell exactly when it eats.
pub proof fn lemma_moved_wf(body: Seq<Position>, head: Position, grows: bool)
    requires
        body.len() >= 1,
        forall|i: int| 0 <= i < body.len() ==> on_board(#[trigger] body[i]),
        distinct(body),
        on_board(head),
        !(if grows { body } else { body.drop_last() }).contains(head),
    ensures
        forall|i: int| 0 <= i < moved(body, head, grows).len() ==> on_board(#[trigger] moved(body, head, grows)[i]),
        distinct(moved(body, head, grows)),
        moved(body, head, grows).len() == if grows { body.len() + 1 } else { body.len() + 0 },
{
    let rest = if grows { body } else { body.drop_last() };
    let m = moved(body, head, grows);
    assert(m == seq![head] + rest);
    assert forall|i: int| 0 <= i < m.len() implies on_board(#[trigger] m[i]) by {
        if i > 0 {
            assert(m[i] == rest[i - 1]);
            assert(rest[i - 1] == body[i - 1]);
        }
    }
    assert forall|i: int, j: int| 0 <= i < j < m.len() implies #[trigger] m[i] != #[trigger] m[j] by {
        assert(m[j] == rest[j - 1]);
        if i == 0 {
            assert(rest.contains(rest[j - 1]));
        } else {
            assert(m[i] == rest[i - 1]);
            assert(rest[i - 1] == body[i - 1] && rest[j - 1] == body[j - 1]);
        }
    }
}

/// A snake that lies on the board and covers no cell twice has at most as
/// many pieces as the board has cells.
pub proof fn lemma_snake_fits_board(body: Seq<Position>)
    requires
        forall|i: int| 0 <= i < body.len() ==> on_board(#[trigger] body[i]),
        distinct(body),
    ensures
        body.len() <= BOARD_CELLS,
{
    let idx = body.map_values(|p: Position| p.y * 32 + p.x);
    assert forall|i: int, j: int| 0 <= i < idx.len() && 0 <= j < idx.len() && i != j implies idx[i] != idx[j] by {
        assert(on_board(body[i]) && on_board(body[j]));
        if i < j {
            assert(body[i] != body[j]);
        } else {
            assert(body[j] != body[i]);
        }
    }
    assert(idx.no_duplicates());
    idx.unique_seq_to_set();
    vstd::set_lib::lemma_int_range(0, BOARD_CELLS as int);
    assert forall|n: int| idx.to_set().contains(n) implies vstd::set_lib::set_int_range(0, BOARD_CELLS as int).contains(n) by {
        let i = choose|i: int| 0 <= i < idx.len() && idx[i] == n;
        assert(on_board(body[i]));
    }
    vstd::set_lib::lemma_len_subset(idx.to_set(), vstd::set_lib::set_int_range(0, BOARD_CELLS as int));
}

/// One step of the game from `g0` to `g1`, which `alive` says the snake
/// survived: the queued direction becomes the direction; the head moves one
/// cell; the move fails when the head would leave the board or run into the
/// snake (the tail's cell counts as free, as the tail moves on, unless the
/// snake eats); eating grows the snake, adds `FOOD_POINTS`, speeds the game
/// up and places new food.
pub open spec fn updated(g0: Game, g1: Game, alive: bool) -> bool {
    &&& g1.direction_spec() == g0.queued_direction_spec()
    &&& g1.queued_direction_spec() == g0.queued_direction_spec()
    &&& !g1.turn_queued_spec()
    &&& {
                let old_body = g0.body_spec();
                let nh = next_head(old_body[0], g0.queued_direction_spec());
                let grows = nh matches Some(h) && h == g0.food_spec();
                let blocked = match nh {
                    None => true,
                    Some(h) => (if grows { old_body } else { old_body.drop_last() }).contains(h),
                };
                &&& alive == !blocked
                &&& !alive ==> {
                    &&& g1.body_spec() == old_body
                    &&& g1.food_spec() == g0.food_spec()
                    &&& g1.score_spec() == g0.score_spec()
                    &&& g1.step_ms_spec() == g0.step_ms_spec()
                    &&& g1.rng_spec() == g0.rng_spec()
                    &&& g1.won_spec() == g0.won_spec()
                }
                &&& alive ==> g1.body_spec() == moved(old_body, nh->0, grows)
                &&& alive && !grows ==> {
                    &&& g1.food_spec() == g0.food_spec()
                    &&& g1.score_spec() == g0.score_spec()
                    &&& g1.step_ms_spec() == g0.step_ms_spec()
                    &&& g1.rng_spec() == g0.rng_spec()
                    &&& g1.won_spec() == g0.won_spec()
                }
                &&& alive && grows ==> {
                    &&& g1.score_spec() == g0.score_spec() + FOOD_POINTS
                    &&& g1.step_ms_spec() == if g0.step_ms_spec() < MIN_STEP_MS + SPEEDUP_MS {
                        MIN_STEP_MS as int
                    } else {
                        g0.step_ms_spec() - SPEEDUP_MS
                    }
                    &&& food_placed(
                        g1.body_spec(),
                        g0.rng_spec(),
                        g0.food_spec(),
                        g0.won_spec(),
                        g1.rng_spec(),
                        g1.food_spec(),
                        g1.won_spec(),
                    )
                }
            }
}

/// The cell one step from `(x, y)` in direction `d`, in board coordinates
/// that may lie off the board.
pub open spec fn neighbour(x: int, y: int, d: Direction) -> (int, int) {
    match d {
        Direction::Up => (x, y - 1),
        Direction::Down => (x, y + 1),
        Direction::Left => (x - 1, y),
        Direction::Right => (x + 1, y),
    }
}

/// A step moves the head to the neighbouring cell in the new direction. The
/// wall ends the game exactly when that cell is off the board, and then the
/// snake stays where it was; a neighbour on the board that the snake does
/// not cover can always be entered. After a move the rest of the snake is
/// its old front, one piece longer exactly when the head landed on the food,
/// which also scores `FOOD_POINTS`.
pub proof fn lemma_step_moves_to_neighbour(g0: Game, g1: Game, alive: bool)
    requires
        g0.wf(),
        updated(g0, g1, alive),
    ensures
        ({
            let h = g0.body_spec()[0];
            let (tx, ty) = neighbour(h.x as int, h.y as int, g0.queued_direction_spec());
            let on = 0 <= tx < BOARD_WIDTH && 0 <= ty < BOARD_HEIGHT;
            let t = Position { x: tx as usize, y: ty as usize };
            let eats = t == g0.food_spec();
            &&& !on ==> !alive && g1.body_spec() == g0.body_spec()
            &&& on && !g0.body_spec().contains(t) ==> alive
            &&& alive ==> {
                &&& on
                &&& g1.body_spec()[0] == t
                &&& g1.body_spec().len() == g0.body_spec().len() + (if eats { 1int } else { 0int })
                &&& g1.body_spec().drop_first() == g0.body_spec().take(g1.body_spec().len() - 1)
                &&& g1.score_spec() == g0.score_spec() + (if eats { FOOD_POINTS as int } else { 0int })
            }
        }),
{
    let b = g0.body_spec();
    let h = b[0];
    assert(on_board(h));
    let nh = next_head(h, g0.queued_direction_spec());
    if let Some(t) = nh {
        let grows = t == g0.food_spec();
        let m = moved(b, t, grows);
        if alive {
            assert(m.drop_first() =~= b.take(m.len() - 1));
        }
        let checked = if grows { b } else { b.drop_last() };
        if checked.contains(t) {
            let k = choose|k: int| 0 <= k < checked.len() && #[trigger] checked[k] == t;
            assert(b[k] == t);
            assert(b.contains(t));
        }
    }
}

/// Two directions are opposite exactly when a step in one followed by a step
/// in the other leads back to the start.
pub proof fn lemma_opposite_leads_back(x: int, y: int, d1: Direction, d2: Direction)
    ensures
        opposite(d1, d2) <==> ({
            let (x1, y1) = neighbour(x, y, d1);
            neighbour(x1, y1, d2) == (x, y)
        }),
{
}

/// The snake never reverses: after a step its direction is never the
/// opposite of the direction before.
pub proof fn lemma_no_reversal(g0: Game, g1: Game)
    requires
        g0.wf(),
        g1.direction_spec() == g0.queued_direction_spec(),
    ensures
        !opposite(g1.direction_spec(), g0.direction_spec()),
{
}

/// Every piece of food scores ten points and makes the game 5 ms faster,
/// from 135 ms down to 55 ms: in every state the snake is five cells plus
/// one per ten points long, and the step time is `max(55, 135 - score / 2)`.
pub proof fn lemma_speed_follows_score(g: Game)
    requires
        g.wf(),
    ensures
        g.score_spec() % 10 == 0,
        g.body_spec().len() == 5 + g.score_spec() / 10,
        g.step_ms_spec() == (if 135 - g.score_spec() / 2 < 55 { 55 } else { 135 - g.score_spec() / 2 }),
{
    let n = g.body_spec().len() - 5;
    assert(g.score_spec() == 10 * n);
    assert((10 * n) % 10 == 0 && (10 * n) / 10 == n && (10 * n) / 2 == 5 * n) by (nonlinear_arith)
        requires n >= 0;
}

/// `p` occurs in `body`.
pub fn contains_position(body: &Vec<Position>, p: Position) -> (r: bool)
    ensures
        r == body@.contains(p),
{
    let mut i: usize = 0;
    while i < body.len()
        invariant
            i <= body@.len(),
            forall|j: int| 0 <= j < i ==> body@[j] != p,
        decreases body@.len() - i,
    {
        if body[i] == p {
            return true;
        }
        i = i + 1;
    }
    false
}

/// The state of one game of snake.
pub struct Game {
    body: Vec<Position>,
    direction: Direction,
    queued_direction: Direction,
    turn_queued: bool,
    food: Position,
    score: usize,
    step_ms: usize,
    rng_state: u64,
    won: bool,
}

impl Game {
    pub closed spec fn body_spec(&self) -> Seq<Position> {
        self.body@
    }

    pub closed spec fn direction_spec(&self) -> Direction {
        self.direction
    }

    pub closed spec fn queued_direction_spec(&self) -> Direction {
        self.queued_direction
    }

    pub closed spec fn turn_queued_spec(&self) -> bool {
        self.turn_queued
    }

    pub closed spec fn food_spec(&self) -> Position {
        self.food
    }

    pub closed spec fn score_spec(&self) -> usize {
        self.score
    }

    pub closed spec fn step_ms_spec(&self) -> usize {
        self.step_ms
    }

    pub closed spec fn rng_spec(&self) -> u64 {
        self.rng_state
    }

    pub closed spec fn won_spec(&self) -> bool {
        self.won
    }

    /// The game's invariant: the snake has at least its initial length, lies
    /// on the board and never covers a cell twice; the score and the step
    /// time follow from the food eaten; the queued direction never reverses
    /// the current one; and unless the game is won the food lies on a free
    /// cell of the board.
    pub open spec fn wf(&self) -> bool {
        let b = self.body_spec();
        &&& b.len() >= INITIAL_LENGTH
        &&& forall|i: int| 0 <= i < b.len() ==> on_board(#[trigger] b[i])
        &&& distinct(b)
        &&& self.score_spec() == FOOD_POINTS * (b.len() - INITIAL_LENGTH)
        &&& self.step_ms_spec() == step_for(b.len() - INITIAL_LENGTH)
        &&& !opposite(self.queued_direction_spec(), self.direction_spec())
        &&& !self.won_spec() ==> on_board(self.food_spec()) && !b.contains(self.food_spec())
    }

    /// Start a game: a snake of `INITIAL_LENGTH` cells in the middle of the
    /// board, heading right, and food placed with the generator seeded by
    /// `seed` (made odd).
    pub fn new(seed: u64) -> (g: Game)
        ensures
            g.wf(),
            g.body_spec() == seq![
                Position { x: 16, y: 12 },
                Position { x: 15, y: 12 },
                Position { x: 14, y: 12 },
                Position { x: 13, y: 12 },
                Position { x: 12, y: 12 },
            ],
            g.direction_spec() == Direction::Right,
            g.queued_direction_spec() == Direction::Right,
            !g.turn_queued_spec(),
            g.score_spec() == 0,
            g.step_ms_spec() == INITIAL_STEP_MS,
            food_placed(g.body_spec(), seed | 1, Position { x: 0, y: 0 }, false, g.rng_spec(), g.food_spec(), g.won_spec()),
    {
        let center_x = BOARD_WIDTH / 2;
        let center_y = BOARD_HEIGHT / 2;
        let mut body: Vec<Position> = Vec::new();
        let mut index: usize = 0;
        while index < INITIAL_LENGTH
            invariant
                index <= INITIAL_LENGTH,
                center_x == 16,
                center_y == 12,
                body@.len() == index,
                forall|j: int| 0 <= j < index ==> #[trigger] body@[j] == (Position { x: (16 - j) as usize, y: 12 }),
            decreases INITIAL_LENGTH - index,
        {
            body.push(Position { x: center_x - index, y: center_y });
            index = index + 1;
        }
        let mut game = Game {
            body,
            direction: Direction::Right,
            queued_direction: Direction::Right,
            turn_queued: false,
            food: Position { x: 0, y: 0 },
            score: 0,
            step_ms: INITIAL_STEP_MS,
            rng_state: seed | 1,
            won: false,
        };
        assert(game.body@ =~= seq![
            Position { x: 16, y: 12 },
            Position { x: 15, y: 12 },
            Position { x: 14, y: 12 },
            Position { x: 13, y: 12 },
            Position { x: 12, y: 12 },
        ]);
        game.place_food();
        proof {
            if !game.won {
                lemma_food_placed_free(game.body@, seed | 1, Position { x: 0, y: 0 }, false, game.rng_state, game.food, game.won);
            }
        }
        game
    }

    /// Queue a turn for the next step, unless one is queued already or the
    /// turn would reverse the snake.
    pub fn queue_direction(&mut self, direction: Direction)
        requires
            old(self).wf(),
        ensures
            final(self).wf(),
            ({
                if old(self).turn_queued_spec() || opposite(direction, old(self).direction_spec()) {
                    *final(self) == *old(self)
                } else {
                    &&& final(self).queued_direction_spec() == direction
                    &&& final(self).turn_queued_spec()
                    &&& final(self).body_spec() == old(self).body_spec()
                    &&& final(self).direction_spec() == old(self).direction_spec()
                    &&& final(self).food_spec() == old(self).food_spec()
                    &&& final(self).score_spec() == old(self).score_spec()
                    &&& final(self).step_ms_spec() == old(self).step_ms_spec()
                    &&& final(self).rng_spec() == old(self).rng_spec()
                    &&& final(self).won_spec() == old(self).won_spec()
                }
            }),
    {
        if self.turn_queued || direction.is_opposite(self.direction) {
            return;
        }
        self.queued_direction = direction;
        self.turn_queued = true;
    }

    /// Advance the game by one step: take the queued direction and move the
    /// head one cell. The move fails (`false`) when the head would leave the
    /// board or run into the snake (the tail's cell counts as free, as the
    /// tail moves on, unless the snake eats). Eating the food grows the snake,
    /// adds `FOOD_POINTS`, speeds the game up and places new food.
    #[verifier::loop_isolation(false)]
    pub fn update(&mut self) -> (alive: bool)
        requires
            old(self).wf(),
        ensures
            final(self).wf(),
            updated(*old(self), *final(self), alive),
    {
        self.direction = self.queued_direction;
        self.turn_queued = false;
        let head = self.body[0];
        let new_head = match self.direction {
            Direction::Up => {
                if head.y == 0 {
                    return false;
                }
                Position { x: head.x, y: head.y - 1 }
            },
            Direction::Down => {
                if head.y + 1 >= BOARD_HEIGHT {
                    return false;
                }
                Position { x: head.x, y: head.y + 1 }
            },
            Direction::Left => {
                if head.x == 0 {
                    return false;
                }
                Position { x: head.x - 1, y: head.y }
            },
            Direction::Right => {
                if head.x + 1 >= BOARD_WIDTH {
                    return false;
                }
                Position { x: head.x + 1, y: head.y }
            },
        };
        let ghost old_body = self.body@;
        let grows = new_head == self.food;
        let checked_length = if grows { self.body.len() } else { self.body.len().saturating_sub(1) };
        let ghost checked = if grows { old_body } else { old_body.drop_last() };
        let mut i: usize = 0;
        while i < checked_length
            invariant
                checked_length == checked.len(),
                checked.len() <= old_body.len(),
                self.body@ == old_body,
                forall|k: int| 0 <= k < checked.len() ==> #[trigger] checked[k] == old_body[k],
                i <= checked_length,
                forall|k: int| 0 <= k < i ==> old_body[k] != new_head,
            decreases checked_length - i,
        {
            if self.body[i] == new_head {
                assert(checked[i as int] == new_head);
                return false;
            }
            i = i + 1;
        }
        assert(!checked.contains(new_head));
        self.body.insert(0, new_head);
        if grows {
            proof {
                lemma_snake_fits_board(old_body);
            }
            self.score = self.score + FOOD_POINTS;
            let slower = self.step_ms.saturating_sub(SPEEDUP_MS);
            self.step_ms = if slower < MIN_STEP_MS { MIN_STEP_MS } else { slower };
            proof {
                assert(self.body@ =~= moved(old_body, new_head, true));
            }
            self.place_food();
            proof {
                if !self.won {
                    lemma_food_placed_free(self.body@, old(self).rng_state, old(self).food, old(self).won, self.rng_state, self.food, self.won);
                }
                lemma_moved_wf(old_body, new_head, true);
            }
        } else {
            self.body.pop();
            proof {
                assert(self.body@ =~= moved(old_body, new_head, false));
                lemma_moved_wf(old_body, new_head, false);
                if !self.won {
                    assert(!old_body.contains(self.food));
                    assert forall|k: int| 0 <= k < self.body@.len() implies self.body@[k] != self.food by {
                        if k > 0 {
                            assert(self.body@[k] == old_body[k - 1]);
                        }
                    }
                }
            }
        }
        true
    }

    /// Place a new piece of food (see `food_placed`); the game is won when no
    /// cell is left for it.
    pub fn place_food(&mut self)
        ensures
            food_placed(
                old(self).body_spec(),
                old(self).rng_spec(),
                old(self).food_spec(),
                old(self).won_spec(),
                final(self).rng_spec(),
                final(self).food_spec(),
                final(self).won_spec(),
            ),
            final(self).body_spec() == old(self).body_spec(),
            final(self).direction_spec() == old(self).direction_spec(),
            final(self).queued_direction_spec() == old(self).queued_direction_spec(),
            final(self).turn_queued_spec() == old(self).turn_queued_spec(),
            final(self).score_spec() == old(self).score_spec(),
            final(self).step_ms_spec() == old(self).step_ms_spec(),
    {
        if self.body.len() >= BOARD_CELLS {
            self.won = true;
            return;
        }
        let ghost s = self.rng_state;
        let ghost body = self.body@;
        let mut k: usize = 0;
        while k < RANDOM_TRIES
            invariant
                k <= RANDOM_TRIES,
                self.rng_state == rng_after(s, 2 * k as nat),
                self.body@ == body,
                body.len() < BOARD_CELLS,
                forall|j: nat| j < k ==> body.contains(#[trigger] random_cell(s, j)),
                self.food == old(self).food,
                self.won == old(self).won,
                self.same_but_food(*old(self)),
                s == old(self).rng_state,
                body == old(self).body@,
            decreases RANDOM_TRIES - k,
        {
            let x = self.random_usize(BOARD_WIDTH);
            let y = self.random_usize(BOARD_HEIGHT);
            let candidate = Position { x, y };
            assert(candidate == random_cell(s, k as nat));
            if !contains_position(&self.body, candidate) {
                self.food = candidate;
                assert(!body.contains(random_cell(s, k as nat)));
                return;
            }
            k = k + 1;
        }
        assert(forall|j: nat| j < RANDOM_TRIES ==> body.contains(#[trigger] random_cell(s, j)));
        let mut y: usize = 0;
        while y < BOARD_HEIGHT
            invariant
                y <= BOARD_HEIGHT,
                self.rng_state == rng_after(s, 2 * RANDOM_TRIES as nat),
                self.body@ == body,
                body.len() < BOARD_CELLS,
                forall|j: nat| j < RANDOM_TRIES ==> body.contains(#[trigger] random_cell(s, j)),
                forall|j: int| 0 <= j < y * BOARD_WIDTH ==> body.contains(#[trigger] board_cell(j)),
                self.food == old(self).food,
                self.won == old(self).won,
                self.same_but_food(*old(self)),
                s == old(self).rng_state,
                body == old(self).body@,
            decreases BOARD_HEIGHT - y,
        {
            let mut x: usize = 0;
            while x < BOARD_WIDTH
                invariant
                    x <= BOARD_WIDTH,
                    y < BOARD_HEIGHT,
                    self.rng_state == rng_after(s, 2 * RANDOM_TRIES as nat),
                    self.body@ == body,
                    body.len() < BOARD_CELLS,
                    forall|j: nat| j < RANDOM_TRIES ==> body.contains(#[trigger] random_cell(s, j)),
                    forall|j: int| 0 <= j < y * BOARD_WIDTH + x ==> body.contains(#[trigger] board_cell(j)),
                    self.food == old(self).food,
                    self.won == old(self).won,
                    self.same_but_food(*old(self)),
                    s == old(self).rng_state,
                    body == old(self).body@,
                decreases BOARD_WIDTH - x,
            {
                let candidate = Position { x, y };
                proof {
                    lemma_board_cell(x as int, y as int);
                }
                if !contains_position(&self.body, candidate) {
                    self.food = candidate;
                    assert(!body.contains(board_cell(y * BOARD_WIDTH + x)));
                    return;
                }
                x = x + 1;
            }
            y = y + 1;
        }
        self.won = true;
    }

    /// The cells of the snake, head first.
    pub fn body(&self) -> (b: &[Position])
        ensures
            b@ == self.body_spec(),
    {
        self.body.as_slice()
    }

    /// The direction the snake moves in.
    pub fn direction(&self) -> (d: Direction)
        ensures
            d == self.direction_spec(),
    {
        self.direction
    }

    /// The cell of the food.
    pub fn food(&self) -> (p: Position)
        ensures
            p == self.food_spec(),
    {
        self.food
    }

    /// The score.
    pub fn score(&self) -> (s: usize)
        ensures
            s == self.score_spec(),
    {
        self.score
    }

    /// Milliseconds between two steps.
    pub fn step_ms(&self) -> (s: usize)
        ensures
            s == self.step_ms_spec(),
    {
        self.step_ms
    }

    /// The snake fills the board: no cell is left for food.
    pub fn won(&self) -> (w: bool)
        ensures
            w == self.won_spec(),
    {
        self.won
    }

    /// The two games agree on everything but the generator, the food and
    /// whether the game is won.
    spec fn same_but_food(self, other: Game) -> bool {
        &&& self.body@ == other.body@
        &&& self.direction == other.direction
        &&& self.queued_direction == other.queued_direction
        &&& self.turn_queued == other.turn_queued
        &&& self.score == other.score
        &&& self.step_ms == other.step_ms
    }

    /// Draw the next random number below `limit`.
    pub fn random_usize(&mut self, limit: usize) -> (r: usize)
        requires
            limit > 0,
        ensures
            final(self).rng_spec() == xorshift(old(self).rng_spec()),
            r == (xorshift(old(self).rng_spec()) as usize) % limit,
            final(self).body_spec() == old(self).body_spec(),
            final(self).direction_spec() == old(self).direction_spec(),
            final(self).queued_direction_spec() == old(self).queued_direction_spec(),
            final(self).turn_queued_spec() == old(self).turn_queued_spec(),
            final(self).food_spec() == old(self).food_spec(),
            final(self).score_spec() == old(self).score_spec(),
            final(self).step_ms_spec() == old(self).step_ms_spec(),
            final(self).won_spec() == old(self).won_spec(),
    {
        let mut value = self.rng_state;
        value = value ^ (value << 13u64);
        value = value ^ (value >> 7u64);
        value = value ^ (value << 17u64);
        self.rng_state = value;
        (value as usize) % limit
    }
}

} // verus!
