//! The game session: block grid, paddle, ball, score and the play/over state.
use vstd::prelude::*;
use crate::ball::{all_wf, collided_vel, hit_count, remaining, stepped, Ball};
use crate::geometry::{Rect, LIMIT, SCALE};
use crate::player::{moved_paddle, valid_height, valid_width, Input, Player};

verus! {

/// Horizontal distance between the left edges of neighbouring block columns.
pub const BLOCK_PITCH_X: i64 = 82 * SCALE;

/// Vertical distance between the top edges of neighbouring block rows.
pub const BLOCK_PITCH_Y: i64 = 22 * SCALE;

pub const BLOCK_WIDTH: i64 = 80 * SCALE;

pub const BLOCK_HEIGHT: i64 = 20 * SCALE;

/// Rows of blocks.
pub const BLOCK_ROWS: usize = 6;

#[derive(Clone, Copy, Debug, PartialEq, Eq, Structural)]
pub enum GameState {
    Play,
    Over,
}

/// Block columns that fit in a window of `width`.
pub open spec fn block_count_spec(width: int) -> int {
    width / BLOCK_PITCH_X as int
}

/// Width left over beside the block columns.
pub open spec fn empty_width(width: int) -> int {
    width - block_count_spec(width) * BLOCK_PITCH_X
}

/// The block in column `col` and row `row`; the columns are centered.
pub open spec fn grid_block(width: int, col: int, row: int) -> Rect {
    Rect {
        x: (BLOCK_PITCH_X * col + empty_width(width) / 2) as i64,
        y: (BLOCK_PITCH_Y * row) as i64,
        w: BLOCK_WIDTH,
        h: BLOCK_HEIGHT,
    }
}

/// The state after a tick that starts with the ball at height `ball_y` in a
/// window of `height`.
pub open spec fn next_state(s: GameState, ball_y: int, height: int) -> GameState {
    if ball_y >= height {
        GameState::Over
    } else {
        s
    }
}

/// The state after a run of ticks, each given by the ball's height at its
/// start and the window's height.
pub open spec fn state_after(s: GameState, ticks: Seq<(int, int)>) -> GameState
    decreases ticks.len(),
{
    if ticks.len() == 0 {
        s
    } else {
        next_state(state_after(s, ticks.drop_last()), ticks.last().0, ticks.last().1)
    }
}

/// Once over, a session stays over, whatever ticks follow.
pub proof fn lemma_over_is_final(ticks: Seq<(int, int)>)
    ensures
        state_after(GameState::Over, ticks) == GameState::Over,
    decreases ticks.len(),
{
    if ticks.len() > 0 {
        lemma_over_is_final(ticks.drop_last());
    }
}

/// Number of block columns in a window of `width`.
pub fn block_count(width: i64) -> (r: i64)
    requires
        0 <= width <= LIMIT,
    ensures
        r == block_count_spec(width as int),
        0 <= r * BLOCK_PITCH_X <= width,
{
    let r = width / BLOCK_PITCH_X;
    proof {
        let (w, c) = (width as int, r as int);
        assert(0 <= c * 49200 <= w) by (nonlinear_arith)
            requires
                c == w / 49200,
                w >= 0,
        ;
    }
    r
}

/// The starting blocks, column by column and, within a column, top row first.
pub fn block_grid(width: i64) -> (r: Vec<Rect>)
    requires
        0 <= width <= LIMIT,
    ensures
        r@.len() == BLOCK_ROWS * block_count_spec(width as int),
        forall|k: int|
            0 <= k < r@.len() ==> #[trigger] r@[k] == grid_block(
                width as int,
                k / BLOCK_ROWS as int,
                k % BLOCK_ROWS as int,
            ),
        all_wf(r@),
{
    let count = block_count(width);
    let empty = width - count * BLOCK_PITCH_X;
    let n: usize = BLOCK_ROWS * (count as usize);
    let mut r: Vec<Rect> = Vec::new();
    let mut k: usize = 0;
    while k < n
        invariant
            n == BLOCK_ROWS * count,
            0 <= count * BLOCK_PITCH_X <= width <= LIMIT,
            empty == width - count * BLOCK_PITCH_X,
            count == block_count_spec(width as int),
            k <= n,
            r@.len() == k,
            forall|j: int|
                0 <= j < k ==> #[trigger] r@[j] == grid_block(
                    width as int,
                    j / BLOCK_ROWS as int,
                    j % BLOCK_ROWS as int,
                ),
            all_wf(r@),
        decreases n - k,
    {
        let col = (k / BLOCK_ROWS) as i64;
        let row = (k % BLOCK_ROWS) as i64;
        proof {
            let (c, n6, kk) = (col as int, count as int, k as int);
            assert(0 <= c * 49200 && c * 49200 + 49200 <= n6 * 49200) by (nonlinear_arith)
                requires
                    c == kk / 6,
                    0 <= kk < 6 * n6,
            ;
        }
        assert(0 <= row < 6);
        assert(empty >= 0);
        assert(BLOCK_PITCH_X * col + empty / 2 <= width);
        let b = Rect::new(
            BLOCK_PITCH_X * col + empty / 2,
            BLOCK_PITCH_Y * row,
            BLOCK_WIDTH,
            BLOCK_HEIGHT,
        );
        assert(b.wf());
        r.push(b);
        assert(r@[k as int] == b);
        k = k + 1;
    }
    r
}

/// A game session.
pub struct MyGame {
    pub game_state: GameState,
    pub score: u32,
    pub player: Player,
    pub ball: Ball,
    pub blocks: Vec<Rect>,
}

impl MyGame {
    pub open spec fn wf(&self) -> bool {
        &&& self.player.wf()
        &&& self.ball.wf()
        &&& all_wf(self.blocks@)
        &&& self.score + self.blocks@.len() <= u32::MAX
    }

    /// A new session in a window of `width` by `height`: playing, no score, the
    /// paddle and the ball centered, the full block grid.
    pub fn new(width: i64, height: i64) -> (r: MyGame)
        requires
            valid_width(width as int),
            valid_height(height as int),
        ensures
            r.game_state == GameState::Play,
            r.score == 0,
            r.player == Player::new_spec(width as int),
            r.ball == Ball::new_spec(width as int, height as int),
            r.blocks@.len() == BLOCK_ROWS * block_count_spec(width as int),
            forall|k: int|
                0 <= k < r.blocks@.len() ==> #[trigger] r.blocks@[k] == grid_block(
                    width as int,
                    k / BLOCK_ROWS as int,
                    k % BLOCK_ROWS as int,
                ),
            r.wf(),
    {
        let blocks = block_grid(width);
        MyGame {
            game_state: GameState::Play,
            score: 0,
            player: Player::new(width),
            ball: Ball::new(width, height),
            blocks,
        }
    }

    /// Whether the ball has reached the bottom of a window of `height`.
    pub fn check_state(&mut self, height: i64) -> (r: bool)
        ensures
            r == (old(self).ball.pos.y >= height),
            final(self).game_state == old(self).game_state,
            final(self).score == old(self).score,
            final(self).player == old(self).player,
            final(self).ball == old(self).ball,
            final(self).blocks@ == old(self).blocks@,
    {
        self.ball.pos.y >= height
    }

    /// One tick: the session ends once the ball reaches the bottom; while it is
    /// playing, the ball meets the paddle, blocks and walls, then the paddle
    /// moves, then the ball is launched or moves.
    pub fn update(&mut self, input: Input, width: i64, height: i64)
        requires
            old(self).wf(),
            valid_width(width as int),
            valid_height(height as int),
        ensures
            final(self).wf(),
            final(self).game_state == next_state(
                old(self).game_state,
                old(self).ball.pos.y as int,
                height as int,
            ),
            final(self).game_state == GameState::Over ==> {
                &&& final(self).score == old(self).score
                &&& final(self).player == old(self).player
                &&& final(self).ball == old(self).ball
                &&& final(self).blocks@ == old(self).blocks@
            },
            final(self).game_state == GameState::Play ==> {
                let pos = old(self).ball.pos;
                let paddle = old(self).player.hitbox_spec(height as int);
                let v = collided_vel(
                    old(self).ball.vel_pair(),
                    pos,
                    paddle,
                    old(self).blocks@,
                    width as int,
                );
                &&& final(self).blocks@ == remaining(pos, old(self).blocks@)
                &&& final(self).score == old(self).score + hit_count(pos, old(self).blocks@)
                &&& final(self).player.pos == moved_paddle(
                    old(self).player.pos as int,
                    input,
                    width as int,
                )
                &&& final(self).ball.vel_pair() == v
                &&& final(self).ball.is_playing == (old(self).ball.is_playing || input.launch)
                &&& final(self).ball.is_playing ==> final(self).ball.pos.x == stepped(
                    pos.x as int,
                    v.0,
                ) && final(self).ball.pos.y == stepped(pos.y as int, v.1)
                &&& !final(self).ball.is_playing ==> final(self).ball.pos == pos
            },
    {
        if self.check_state(height) {
            self.game_state = GameState::Over;
        }
        match self.game_state {
            GameState::Play => {
                proof {
                    crate::ball::lemma_remaining(self.ball.pos, self.blocks@);
                }
                let paddle = self.player.hitbox(height);
                self.ball.collision(&mut self.blocks, paddle, &mut self.score, width);
                self.player.move_player(input, width);
                self.ball.move_ball(input.launch);
            },
            GameState::Over => {},
        }
    }
}

} // verus!
