//! The paddle: a horizontal position moved by input and kept inside the window.
use vstd::prelude::*;
use crate::geometry::{Rect, LIMIT, SCALE};

verus! {

/// Paddle width.
pub const PADDLE_WIDTH: i64 = 200 * SCALE;

/// Paddle height.
pub const PADDLE_HEIGHT: i64 = 10 * SCALE;

/// Distance from the paddle's top edge to the bottom of the window.
pub const PADDLE_LIFT: i64 = 20 * SCALE;

/// Horizontal distance moved per tick by each held direction: 100/30 pixel.
pub const PADDLE_STEP: i64 = 2000;

/// Narrowest window the paddle fits in.
pub const MIN_WIDTH: i64 = PADDLE_WIDTH;

/// Whether `width` is a window width that the game is defined for.
pub open spec fn valid_width(width: int) -> bool {
    MIN_WIDTH <= width <= LIMIT
}

/// Whether `height` is a window height that the game is defined for.
pub open spec fn valid_height(height: int) -> bool {
    0 <= height <= LIMIT
}

/// The controls held during one tick.
#[derive(Clone, Copy, Debug, PartialEq, Eq, Structural)]
pub struct Input {
    pub left: bool,
    pub right: bool,
    pub launch: bool,
}

impl Input {
    pub fn new(left: bool, right: bool, launch: bool) -> (r: Input)
        ensures
            r == (Input { left, right, launch }),
    {
        Input { left, right, launch }
    }
}

/// Paddle position after one tick of `input` in a window of `width`.
pub open spec fn moved_paddle(pos: int, input: Input, width: int) -> int {
    let p1 = if input.right { pos + PADDLE_STEP } else { pos };
    let p2 = if input.left { p1 - PADDLE_STEP } else { p1 };
    crate::geometry::clamp(p2, PADDLE_WIDTH / 2, width - PADDLE_WIDTH / 2)
}

/// The paddle, by the horizontal position of its center.
#[derive(Clone, Copy, Debug, PartialEq, Eq, Structural)]
pub struct Player {
    pub pos: i64,
}

impl Player {
    pub open spec fn wf(&self) -> bool {
        0 <= self.pos <= LIMIT
    }

    /// The paddle's hitbox: centered on `pos`, its top edge `PADDLE_LIFT` above
    /// the bottom of the window.
    pub open spec fn hitbox_spec(&self, height: int) -> Rect {
        Rect {
            x: (self.pos - PADDLE_WIDTH / 2) as i64,
            y: (height - PADDLE_LIFT) as i64,
            w: PADDLE_WIDTH,
            h: PADDLE_HEIGHT,
        }
    }

    pub open spec fn new_spec(width: int) -> Player {
        Player { pos: (width / 2) as i64 }
    }

    /// A paddle centered in a window of `width`.
    pub fn new(width: i64) -> (r: Player)
        requires
            valid_width(width as int),
        ensures
            r == Player::new_spec(width as int),
            r.pos == width / 2,
            r.wf(),
    {
        Player { pos: width / 2 }
    }

    pub fn hitbox(&self, height: i64) -> (r: Rect)
        requires
            self.wf(),
            valid_height(height as int),
        ensures
            r == self.hitbox_spec(height as int),
            r.wf(),
            r.x == self.pos - PADDLE_WIDTH / 2,
            r.y == height - PADDLE_LIFT,
    {
        Rect::new(self.pos - PADDLE_WIDTH / 2, height - PADDLE_LIFT, PADDLE_WIDTH, PADDLE_HEIGHT)
    }

    /// Moves right and then left by `PADDLE_STEP` for each held direction, and
    /// keeps the paddle within `[PADDLE_WIDTH / 2, width - PADDLE_WIDTH / 2]`.
    pub fn move_player(&mut self, input: Input, width: i64)
        requires
            old(self).wf(),
            valid_width(width as int),
        ensures
            final(self).pos == moved_paddle(old(self).pos as int, input, width as int),
            PADDLE_WIDTH / 2 <= final(self).pos <= width - PADDLE_WIDTH / 2,
            final(self).wf(),
    {
        let mut pos = self.pos;
        if input.right {
            pos = pos + PADDLE_STEP;
        }
        if input.left {
            pos = pos - PADDLE_STEP;
        }
        let lo = PADDLE_WIDTH / 2;
        let hi = width - PADDLE_WIDTH / 2;
        if pos < lo {
            pos = lo;
        } else if pos > hi {
            pos = hi;
        }
        self.pos = pos;
    }
}

} // verus!
