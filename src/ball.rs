//! The ball: straight-line motion, and its response to the paddle, the blocks
//! and the walls.
use vstd::prelude::*;
use crate::geometry::{div_trunc, in_range, saturate, Rect, Vec2, LIMIT, SCALE};

verus! {

/// Ball radius, also the distance from a side wall at which it turns.
pub const BALL_RADIUS: i64 = 10 * SCALE;

/// Height of the ball's start position above the bottom of the window.
pub const BALL_START_LIFT: i64 = 40 * SCALE;

/// Horizontal start velocity. The ball starts at 200 pixels per second, up
/// and to the right, 60 degrees from the vertical: 200 * sin(60 degrees) =
/// 100 * sqrt(3) pixels per second, rounded to the nearest sub-unit.
pub const START_VEL_X: i64 = 103_923;

/// Vertical start velocity: upward, 200 * cos(60 degrees) = 100 pixels per
/// second.
pub const START_VEL_Y: i64 = -60_000;

/// Ticks per second: one tick moves the ball by a fiftieth of its velocity.
pub const TICKS_PER_SECOND: i64 = 50;

/// Whether the ball touches `r`.
pub open spec fn hit(r: Rect, pos: Vec2) -> bool {
    r.overlaps_circle_spec(pos, BALL_RADIUS as int)
}

/// A coordinate after one tick at velocity `v`.
pub open spec fn stepped(p: int, v: int) -> int {
    saturate(p + div_trunc(v, TICKS_PER_SECOND as int))
}

/// `vx` with its magnitude kept and its sign that of `d` (zero counts as
/// positive).
pub open spec fn steer(vx: int, d: int) -> int {
    let m = if vx >= 0 { vx } else { -vx };
    if d >= 0 { m } else { -m }
}

/// `vx` reversed and made 3% faster, rounded toward zero.
pub open spec fn speed_up(vx: int) -> int {
    -saturate(div_trunc(vx * 103, 100))
}

/// Velocity after touching something whose center is at `contact`, with the
/// ball at `px`: vertical component reversed, horizontal one steered away.
pub open spec fn bounce(v: (int, int), contact: int, px: int) -> (int, int) {
    (steer(v.0, contact - px), -v.1)
}

/// Velocity after touching a block centered at `contact`.
pub open spec fn block_hit(v: (int, int), contact: int, px: int) -> (int, int) {
    let b = bounce(v, contact, px);
    (speed_up(b.0), b.1)
}

/// Velocity after the blocks of `s` that the ball at `pos` touches, in order.
pub open spec fn scan_blocks(v: (int, int), pos: Vec2, s: Seq<Rect>) -> (int, int)
    decreases s.len(),
{
    if s.len() == 0 {
        v
    } else {
        let w = scan_blocks(v, pos, s.drop_last());
        if hit(s.last(), pos) {
            block_hit(w, s.last().center_x_spec(), pos.x as int)
        } else {
            w
        }
    }
}

/// The blocks of `s` that the ball at `pos` does not touch, in their order.
pub open spec fn remaining(pos: Vec2, s: Seq<Rect>) -> Seq<Rect>
    decreases s.len(),
{
    if s.len() == 0 {
        Seq::empty()
    } else {
        let r = remaining(pos, s.drop_last());
        if hit(s.last(), pos) {
            r
        } else {
            r.push(s.last())
        }
    }
}

/// How many blocks of `s` the ball at `pos` touches.
pub open spec fn hit_count(pos: Vec2, s: Seq<Rect>) -> nat
    decreases s.len(),
{
    if s.len() == 0 {
        0
    } else {
        hit_count(pos, s.drop_last()) + if hit(s.last(), pos) {
            1nat
        } else {
            0nat
        }
    }
}

/// Horizontal velocity after the side walls: reversed while the ball is within
/// `BALL_RADIUS` of either side.
pub open spec fn wall_x(vx: int, px: int, width: int) -> int {
    if px >= width - BALL_RADIUS || px <= BALL_RADIUS {
        -vx
    } else {
        vx
    }
}

/// Vertical velocity after the top wall: reversed while the ball is at or
/// above the top.
pub open spec fn wall_y(vy: int, py: int) -> int {
    if py <= 0 {
        -vy
    } else {
        vy
    }
}

/// Velocity after one collision pass, before the walls.
pub open spec fn contact_vel(v: (int, int), pos: Vec2, paddle: Rect, blocks: Seq<Rect>) -> (
    int,
    int,
) {
    let v0 = if hit(paddle, pos) {
        bounce(v, paddle.center_x_spec(), pos.x as int)
    } else {
        v
    };
    scan_blocks(v0, pos, blocks)
}

/// Velocity after one collision pass.
pub open spec fn collided_vel(
    v: (int, int),
    pos: Vec2,
    paddle: Rect,
    blocks: Seq<Rect>,
    width: int,
) -> (int, int) {
    let c = contact_vel(v, pos, paddle, blocks);
    (wall_x(c.0, pos.x as int, width), wall_y(c.1, pos.y as int))
}

pub open spec fn all_wf(s: Seq<Rect>) -> bool {
    forall|i: int| 0 <= i < s.len() ==> #[trigger] s[i].wf()
}

/// A prefix of `s` holds no more touched blocks than `s`.
proof fn lemma_hit_count_prefix(pos: Vec2, s: Seq<Rect>, i: int)
    requires
        0 <= i <= s.len(),
    ensures
        hit_count(pos, s.take(i)) <= hit_count(pos, s),
    decreases s.len(),
{
    if i < s.len() {
        assert(s.drop_last().take(i) =~= s.take(i));
        lemma_hit_count_prefix(pos, s.drop_last(), i);
    } else {
        assert(s.take(i) =~= s);
    }
}

/// A collision pass keeps exactly the untouched blocks, in their order, and
/// scores exactly the number of touched blocks: no touched block is left, and
/// the touched ones and the ones left add up to all of them.
pub proof fn lemma_remaining(pos: Vec2, s: Seq<Rect>)
    ensures
        remaining(pos, s) == s.filter(|b: Rect| !hit(b, pos)),
        forall|b: Rect| hit(b, pos) ==> !#[trigger] remaining(pos, s).contains(b),
        hit_count(pos, s) == s.filter(|b: Rect| hit(b, pos)).len(),
        remaining(pos, s).len() + hit_count(pos, s) == s.len(),
        forall|i: int|
            0 <= i < remaining(pos, s).len() ==> s.contains(#[trigger] remaining(pos, s)[i])
                && !hit(remaining(pos, s)[i], pos),
    decreases s.len(),
{
    reveal(Seq::filter);
    if s.len() > 0 {
        lemma_remaining(pos, s.drop_last());
        let r = remaining(pos, s);
        let r0 = remaining(pos, s.drop_last());
        assert forall|i: int| 0 <= i < r.len() implies s.contains(#[trigger] r[i]) && !hit(
            r[i],
            pos,
        ) by {
            if i < r0.len() {
                assert(r[i] == r0[i]);
                let j = choose|j: int| 0 <= j < s.drop_last().len() && s.drop_last()[j] == r0[i];
                assert(s[j] == r[i]);
            } else {
                assert(s[s.len() - 1] == r[i]);
            }
        }
    }
}

/// After a pass in which the paddle is not touched and every touched block is
/// centered at or right of the ball, a ball moving left stays moving left
/// before the walls.
proof fn lemma_scan_keeps_left(v: (int, int), pos: Vec2, s: Seq<Rect>)
    requires
        v.0 < 0,
        forall|i: int| 0 <= i < s.len() && hit(s[i], pos) ==> #[trigger] s[i].center_x_spec() >= pos.x,
    ensures
        scan_blocks(v, pos, s).0 < 0,
    decreases s.len(),
{
    if s.len() > 0 {
        lemma_scan_keeps_left(v, pos, s.drop_last());
        let w = scan_blocks(v, pos, s.drop_last());
        if hit(s.last(), pos) {
            assert(s[s.len() - 1].center_x_spec() >= pos.x);
            let m = -w.0;
            assert(m * 103 / 100 >= 1) by (nonlinear_arith)
                requires
                    m >= 1,
            ;
        }
    }
}

/// Mirror of `lemma_scan_keeps_left` for a ball moving right.
proof fn lemma_scan_keeps_right(v: (int, int), pos: Vec2, s: Seq<Rect>)
    requires
        v.0 > 0,
        forall|i: int| 0 <= i < s.len() && hit(s[i], pos) ==> #[trigger] s[i].center_x_spec() < pos.x,
    ensures
        scan_blocks(v, pos, s).0 > 0,
    decreases s.len(),
{
    if s.len() > 0 {
        lemma_scan_keeps_right(v, pos, s.drop_last());
        let w = scan_blocks(v, pos, s.drop_last());
        if hit(s.last(), pos) {
            assert(s[s.len() - 1].center_x_spec() < pos.x);
            let m = w.0;
            assert(m * 103 / 100 >= 1) by (nonlinear_arith)
                requires
                    m >= 1,
            ;
        }
    }
}

/// Left wall: a ball within `BALL_RADIUS` of the left side and moving left
/// moves right after a collision pass, unless the paddle or a block centered
/// left of the ball turns it first.
pub proof fn lemma_left_wall_bounce(
    v: (int, int),
    pos: Vec2,
    paddle: Rect,
    blocks: Seq<Rect>,
    width: int,
)
    requires
        pos.x <= BALL_RADIUS,
        v.0 < 0,
        !hit(paddle, pos),
        forall|i: int|
            0 <= i < blocks.len() && hit(blocks[i], pos) ==> #[trigger] blocks[i].center_x_spec()
                >= pos.x,
    ensures
        collided_vel(v, pos, paddle, blocks, width).0 > 0,
{
    lemma_scan_keeps_left(v, pos, blocks);
}

/// Right wall: a ball within `BALL_RADIUS` of the right side and moving right
/// moves left after a collision pass, unless the paddle or a block centered at
/// or right of the ball turns it first.
pub proof fn lemma_right_wall_bounce(
    v: (int, int),
    pos: Vec2,
    paddle: Rect,
    blocks: Seq<Rect>,
    width: int,
)
    requires
        pos.x >= width - BALL_RADIUS,
        v.0 > 0,
        !hit(paddle, pos),
        forall|i: int|
            0 <= i < blocks.len() && hit(blocks[i], pos) ==> #[trigger] blocks[i].center_x_spec()
                < pos.x,
    ensures
        collided_vel(v, pos, paddle, blocks, width).0 < 0,
{
    lemma_scan_keeps_right(v, pos, blocks);
}

/// A pass over blocks that the ball does not touch leaves its velocity alone.
proof fn lemma_scan_untouched(v: (int, int), pos: Vec2, s: Seq<Rect>)
    requires
        forall|i: int| 0 <= i < s.len() ==> !hit(#[trigger] s[i], pos),
    ensures
        scan_blocks(v, pos, s) == v,
    decreases s.len(),
{
    if s.len() > 0 {
        assert(!hit(s[s.len() - 1], pos));
        lemma_scan_untouched(v, pos, s.drop_last());
    }
}

/// A pass over blocks of which only the one at `j` is touched turns the ball
/// as that one block does.
proof fn lemma_scan_single(v: (int, int), pos: Vec2, s: Seq<Rect>, j: int)
    requires
        0 <= j < s.len(),
        hit(s[j], pos),
        forall|i: int| 0 <= i < s.len() && i != j ==> !hit(#[trigger] s[i], pos),
    ensures
        scan_blocks(v, pos, s) == block_hit(v, s[j].center_x_spec(), pos.x as int),
    decreases s.len(),
{
    let d = s.drop_last();
    if j == s.len() - 1 {
        assert forall|i: int| 0 <= i < d.len() implies !hit(#[trigger] d[i], pos) by {
            assert(d[i] == s[i]);
        }
        lemma_scan_untouched(v, pos, d);
    } else {
        assert(!hit(s[s.len() - 1], pos));
        assert forall|i: int| 0 <= i < d.len() && i != j implies !hit(#[trigger] d[i], pos) by {
            assert(d[i] == s[i]);
        }
        lemma_scan_single(v, pos, d, j);
    }
}

/// Steering by a block: when the ball, away from the walls and the paddle,
/// touches exactly one block, centered at or right of it, it leaves moving
/// left with its horizontal speed raised by 3% (rounded toward zero, held to
/// `LIMIT`).
pub proof fn lemma_block_steers_left(
    v: (int, int),
    pos: Vec2,
    paddle: Rect,
    blocks: Seq<Rect>,
    width: int,
    j: int,
)
    requires
        in_range(v.0),
        v.0 != 0,
        BALL_RADIUS < pos.x < width - BALL_RADIUS,
        pos.y > 0,
        !hit(paddle, pos),
        0 <= j < blocks.len(),
        hit(blocks[j], pos),
        blocks[j].center_x_spec() >= pos.x,
        forall|i: int| 0 <= i < blocks.len() && i != j ==> !hit(#[trigger] blocks[i], pos),
    ensures
        collided_vel(v, pos, paddle, blocks, width).0 == -saturate(
            (if v.0 >= 0 { v.0 } else { -v.0 }) * 103 / 100,
        ),
        collided_vel(v, pos, paddle, blocks, width).0 < 0,
        collided_vel(v, pos, paddle, blocks, width).1 == -v.1,
{
    lemma_scan_single(v, pos, blocks, j);
    let m = if v.0 >= 0 { v.0 } else { -v.0 };
    assert(m * 103 / 100 >= 1) by (nonlinear_arith)
        requires
            m >= 1,
    ;
}

/// The ball.
#[derive(Clone, Copy, Debug, PartialEq, Eq, Structural)]
pub struct Ball {
    pub vel: Vec2,
    pub pos: Vec2,
    /// Set once launched; the ball stays still until then.
    pub is_playing: bool,
}

fn steer_exec(vx: i64, d: i64) -> (r: i64)
    requires
        in_range(vx as int),
    ensures
        r == steer(vx as int, d as int),
        in_range(r as int),
{
    let m = if vx >= 0 {
        vx
    } else {
        -vx
    };
    if d >= 0 {
        m
    } else {
        -m
    }
}

fn speed_up_exec(vx: i64) -> (r: i64)
    requires
        in_range(vx as int),
    ensures
        r == speed_up(vx as int),
        in_range(r as int),
{
    if vx >= 0 {
        let m = vx * 103 / 100;
        if m > LIMIT {
            -LIMIT
        } else {
            -m
        }
    } else {
        let m = (-vx) * 103 / 100;
        if m > LIMIT {
            LIMIT
        } else {
            m
        }
    }
}

fn stepped_exec(p: i64, v: i64) -> (r: i64)
    requires
        in_range(p as int),
        in_range(v as int),
    ensures
        r == stepped(p as int, v as int),
        in_range(r as int),
{
    let d = if v >= 0 {
        v / TICKS_PER_SECOND
    } else {
        -((-v) / TICKS_PER_SECOND)
    };
    let s = p + d;
    if s > LIMIT {
        LIMIT
    } else if s < -LIMIT {
        -LIMIT
    } else {
        s
    }
}

impl Ball {
    pub open spec fn wf(&self) -> bool {
        self.pos.wf() && self.vel.wf()
    }

    pub open spec fn vel_pair(&self) -> (int, int) {
        (self.vel.x as int, self.vel.y as int)
    }

    pub open spec fn new_spec(width: int, height: int) -> Ball {
        Ball {
            vel: Vec2 { x: START_VEL_X, y: START_VEL_Y },
            pos: Vec2 { x: (width / 2) as i64, y: (height - BALL_START_LIFT) as i64 },
            is_playing: false,
        }
    }

    /// A ball at rest, centered horizontally, `BALL_START_LIFT` above the
    /// bottom of a window of `width` by `height`, with the start velocity.
    pub fn new(width: i64, height: i64) -> (r: Ball)
        requires
            0 <= width <= LIMIT,
            0 <= height <= LIMIT,
        ensures
            r == Ball::new_spec(width as int, height as int),
            r.pos == (Vec2 { x: (width / 2) as i64, y: (height - BALL_START_LIFT) as i64 }),
            r.vel == (Vec2 { x: START_VEL_X, y: START_VEL_Y }),
            !r.is_playing,
            r.wf(),
    {
        Ball {
            vel: Vec2::new(START_VEL_X, START_VEL_Y),
            pos: Vec2::new(width / 2, height - BALL_START_LIFT),
            is_playing: false,
        }
    }

    /// Launches the ball if `launch` is held, then, once launched, moves it
    /// by a fiftieth of its velocity.
    pub fn move_ball(&mut self, launch: bool)
        requires
            old(self).wf(),
        ensures
            final(self).is_playing == (old(self).is_playing || launch),
            final(self).vel == old(self).vel,
            final(self).is_playing ==> final(self).pos.x == stepped(
                old(self).pos.x as int,
                old(self).vel.x as int,
            ) && final(self).pos.y == stepped(old(self).pos.y as int, old(self).vel.y as int),
            !final(self).is_playing ==> final(self).pos == old(self).pos,
            final(self).wf(),
    {
        if launch {
            self.is_playing = true;
        }
        if self.is_playing {
            let x = stepped_exec(self.pos.x, self.vel.x);
            let y = stepped_exec(self.pos.y, self.vel.y);
            self.pos = Vec2::new(x, y);
        }
    }

    /// Turns the ball after touching something centered at `middle`.
    fn on_collide(&mut self, middle: i64)
        requires
            old(self).wf(),
        ensures
            final(self).vel_pair() == bounce(
                old(self).vel_pair(),
                middle as int,
                old(self).pos.x as int,
            ),
            final(self).pos == old(self).pos,
            final(self).is_playing == old(self).is_playing,
            final(self).wf(),
    {
        let vx = steer_exec(self.vel.x, if middle >= self.pos.x {
            1
        } else {
            -1
        });
        self.vel = Vec2::new(vx, -self.vel.y);
    }

    /// One collision pass: the paddle, then every block in order, then the
    /// walls. Touched blocks leave `blocks` and each adds one to `score`.
    pub fn collision(&mut self, blocks: &mut Vec<Rect>, paddle: Rect, score: &mut u32, width: i64)
        requires
            old(self).wf(),
            paddle.wf(),
            all_wf(old(blocks)@),
            *old(score) + hit_count(old(self).pos, old(blocks)@) <= u32::MAX,
            0 <= width <= LIMIT,
        ensures
            final(self).vel_pair() == collided_vel(
                old(self).vel_pair(),
                old(self).pos,
                paddle,
                old(blocks)@,
                width as int,
            ),
            final(self).pos == old(self).pos,
            final(self).is_playing == old(self).is_playing,
            final(self).wf(),
            final(blocks)@ == remaining(old(self).pos, old(blocks)@),
            all_wf(final(blocks)@),
            *final(score) + final(blocks)@.len() == *old(score) + old(blocks)@.len(),
            *final(score) == *old(score) + hit_count(old(self).pos, old(blocks)@),
    {
        if paddle.overlaps_circle(self.pos, BALL_RADIUS) {
            let c = paddle.center_x();
            self.on_collide(c);
        }
        let ghost v0 = self.vel_pair();
        let ghost start = *self;
        let mut kept: Vec<Rect> = Vec::new();
        let n = blocks.len();
        let mut i: usize = 0;
        while i < n
            invariant
                n == blocks@.len(),
                0 <= i <= n,
                all_wf(blocks@),
                self.wf(),
                self.pos == start.pos,
                self.is_playing == start.is_playing,
                self.vel_pair() == scan_blocks(v0, start.pos, blocks@.take(i as int)),
                kept@ == remaining(start.pos, blocks@.take(i as int)),
                *score == *old(score) + hit_count(start.pos, blocks@.take(i as int)),
                hit_count(start.pos, blocks@.take(i as int)) + kept@.len() == i,
                *old(score) + hit_count(start.pos, blocks@) <= u32::MAX,
            decreases n - i,
        {
            let b = blocks[i];
            proof {
                lemma_hit_count_prefix(start.pos, blocks@, i + 1);
                assert(blocks@.take(i + 1).drop_last() =~= blocks@.take(i as int));
                assert(blocks@.take(i + 1).last() == b);
                assert(b.wf());
            }
            if b.overlaps_circle(self.pos, BALL_RADIUS) {
                let c = b.center_x();
                self.on_collide(c);
                *score = *score + 1;
                let vx = speed_up_exec(self.vel.x);
                self.vel = Vec2::new(vx, self.vel.y);
            } else {
                kept.push(b);
            }
            i = i + 1;
        }
        proof {
            assert(blocks@.take(n as int) =~= blocks@);
            lemma_remaining(start.pos, blocks@);
            assert forall|j: int| 0 <= j < kept@.len() implies #[trigger] kept@[j].wf() by {
                let q = choose|q: int| 0 <= q < blocks@.len() && blocks@[q] == kept@[j];
                assert(blocks@[q].wf());
            }
        }
        *blocks = kept;
        let vx = if self.pos.x >= width - BALL_RADIUS || self.pos.x <= BALL_RADIUS {
            -self.vel.x
        } else {
            self.vel.x
        };
        let vy = if self.pos.y <= 0 {
            -self.vel.y
        } else {
            self.vel.y
        };
        self.vel = Vec2::new(vx, vy);
    }
}

} // verus!
