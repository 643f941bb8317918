use breakout::ball::{START_VEL_X, START_VEL_Y};
use breakout::game::{block_count, block_grid};
use breakout::{Ball, GameState, Input, MyGame, Player, Rect, Vec2, LIMIT, SCALE};

fn px(n: i64) -> i64 {
    n * SCALE
}

fn ball_at(x: i64, y: i64, vx: i64, vy: i64, playing: bool) -> Ball {
    Ball { vel: Vec2::new(vx, vy), pos: Vec2::new(x, y), is_playing: playing }
}

fn far_paddle() -> Rect {
    Rect::new(0, px(10_000), px(200), px(10))
}

#[test]
fn grid_in_800_wide_window() {
    assert_eq!(block_count(px(800)), 9);
    let g = block_grid(px(800));
    assert_eq!(g.len(), 54);
    assert_eq!(g[0], Rect::new(px(31), 0, px(80), px(20)));
    // column 1, row 2
    assert_eq!(g[8], Rect::new(px(82 + 31), px(44), px(80), px(20)));
    // last column, last row
    assert_eq!(g[53], Rect::new(px(82 * 8 + 31), px(110), px(80), px(20)));
}

#[test]
fn grid_in_narrowest_window() {
    assert_eq!(block_count(px(200)), 2);
    let g = block_grid(px(200));
    assert_eq!(g.len(), 12);
    assert_eq!(g[0].x, px(18));
    assert_eq!(g[6].x, px(100));
}

#[test]
fn grid_with_odd_margin() {
    // 801 pixels: margin 63, so the first column starts at 31.5 pixels
    let g = block_grid(px(801));
    assert_eq!(g[0].x, px(63) / 2);
    assert_eq!(g[0].x, 18_900);
}

#[test]
fn launched_ball_advances_one_fiftieth() {
    let mut b = ball_at(px(400), px(300), px(100), px(-100), true);
    b.move_ball(false);
    assert_eq!(b.pos, Vec2::new(px(402), px(298)));
    assert_eq!(b.vel, Vec2::new(px(100), px(-100)));
}

#[test]
fn velocity_step_rounds_toward_zero() {
    let mut b = ball_at(0, 0, 99, -99, true);
    b.move_ball(false);
    assert_eq!(b.pos, Vec2::new(1, -1));
}

#[test]
fn unlaunched_ball_stays_put() {
    let mut b = ball_at(px(400), px(300), px(100), px(-100), false);
    for _ in 0..10 {
        b.move_ball(false);
    }
    assert_eq!(b.pos, Vec2::new(px(400), px(300)));
    assert!(!b.is_playing);
}

#[test]
fn launch_moves_in_same_call_and_stays() {
    let mut b = ball_at(px(400), px(300), px(100), px(-100), false);
    b.move_ball(true);
    assert!(b.is_playing);
    assert_eq!(b.pos, Vec2::new(px(402), px(298)));
    b.move_ball(false);
    assert!(b.is_playing);
    assert_eq!(b.pos, Vec2::new(px(404), px(296)));
}

#[test]
fn block_hit_steers_and_speeds_up() {
    // ball at x=490, block centered at x=500
    for vx in [px(100), px(-100)] {
        let mut b = ball_at(px(490), px(250), vx, px(-100), true);
        let mut blocks = vec![Rect::new(px(460), px(240), px(80), px(20))];
        let mut score: u32 = 0;
        b.collision(&mut blocks, far_paddle(), &mut score, px(800));
        assert!(b.vel.x < 0);
        assert_eq!(b.vel.x, -61_800);
        assert_eq!(b.vel.y, px(100));
        assert_eq!(score, 1);
        assert!(blocks.is_empty());
    }
}

#[test]
fn block_left_of_ball_sends_it_right() {
    let mut b = ball_at(px(520), px(250), px(-100), px(-100), true);
    let mut blocks = vec![Rect::new(px(460), px(240), px(80), px(20))];
    let mut score: u32 = 3;
    b.collision(&mut blocks, far_paddle(), &mut score, px(800));
    assert_eq!(b.vel.x, 61_800);
    assert_eq!(score, 4);
}

#[test]
fn two_blocks_in_one_tick() {
    // ball between two blocks, touching both, with a third far away
    let mut b = ball_at(px(400), px(25), px(100), px(-100), true);
    let far = Rect::new(px(0), px(200), px(80), px(20));
    let mut blocks = vec![
        Rect::new(px(320), px(0), px(80), px(20)),
        far,
        Rect::new(px(402), px(0), px(80), px(20)),
    ];
    let mut score: u32 = 0;
    b.collision(&mut blocks, far_paddle(), &mut score, px(800));
    assert_eq!(score, 2);
    assert_eq!(blocks, vec![far]);
    // first block (center left): +61800 after its hit, second (center right):
    // steered positive, then reversed and sped up: -(61800 * 1.03)
    assert_eq!(b.vel.x, -63_654);
    // two vertical reversals
    assert_eq!(b.vel.y, px(-100));
}

#[test]
fn untouched_blocks_stay_in_order() {
    let mut b = ball_at(px(400), px(400), px(100), px(-100), true);
    let g = block_grid(px(800));
    let mut blocks = g.clone();
    let mut score: u32 = 0;
    b.collision(&mut blocks, far_paddle(), &mut score, px(800));
    assert_eq!(blocks, g);
    assert_eq!(score, 0);
    assert_eq!(b.vel, Vec2::new(px(100), px(-100)));
}

#[test]
fn paddle_steers_without_speedup() {
    // paddle centered at 300, ball just above its left half
    let paddle = Rect::new(px(200), px(580), px(200), px(10));
    let mut b = ball_at(px(250), px(575), px(-100), px(100), true);
    let mut blocks: Vec<Rect> = Vec::new();
    let mut score: u32 = 0;
    b.collision(&mut blocks, paddle, &mut score, px(800));
    assert_eq!(b.vel, Vec2::new(px(100), px(-100)));
    assert_eq!(score, 0);
}

#[test]
fn left_wall_turns_ball_right() {
    let mut b = ball_at(px(5), px(300), px(-100), px(50), true);
    let mut blocks: Vec<Rect> = Vec::new();
    let mut score: u32 = 0;
    b.collision(&mut blocks, far_paddle(), &mut score, px(800));
    assert_eq!(b.vel, Vec2::new(px(100), px(50)));
}

#[test]
fn right_wall_turns_ball_left() {
    let mut b = ball_at(px(790), px(300), px(100), px(50), true);
    let mut blocks: Vec<Rect> = Vec::new();
    let mut score: u32 = 0;
    b.collision(&mut blocks, far_paddle(), &mut score, px(800));
    assert_eq!(b.vel, Vec2::new(px(-100), px(50)));
}

#[test]
fn wall_flip_repeats_each_tick() {
    let mut b = ball_at(px(10), px(300), px(100), px(50), true);
    let mut blocks: Vec<Rect> = Vec::new();
    let mut score: u32 = 0;
    b.collision(&mut blocks, far_paddle(), &mut score, px(800));
    assert_eq!(b.vel.x, px(-100));
    b.collision(&mut blocks, far_paddle(), &mut score, px(800));
    assert_eq!(b.vel.x, px(100));
}

#[test]
fn top_wall_turns_ball_down() {
    let mut b = ball_at(px(400), 0, px(100), px(-100), true);
    let mut blocks: Vec<Rect> = Vec::new();
    let mut score: u32 = 0;
    b.collision(&mut blocks, far_paddle(), &mut score, px(800));
    assert_eq!(b.vel, Vec2::new(px(100), px(100)));
}

#[test]
fn speed_stops_at_limit() {
    let mut b = ball_at(px(490), px(250), LIMIT, px(-100), true);
    let mut blocks = vec![Rect::new(px(460), px(240), px(80), px(20))];
    let mut score: u32 = 0;
    b.collision(&mut blocks, far_paddle(), &mut score, px(800));
    assert_eq!(b.vel.x, -LIMIT);
}

#[test]
fn circle_overlap_edges() {
    let r = Rect::new(px(100), px(100), px(80), px(20));
    // exactly touching the left side
    assert!(r.overlaps_circle(Vec2::new(px(90), px(110)), px(10)));
    assert!(!r.overlaps_circle(Vec2::new(px(90) - 1, px(110)), px(10)));
    // corner: distance 10 along a 6-8-10 triangle
    assert!(r.overlaps_circle(Vec2::new(px(94), px(92)), px(10)));
    assert!(!r.overlaps_circle(Vec2::new(px(94) - 1, px(92)), px(10)));
    // inside
    assert!(r.overlaps_circle(Vec2::new(px(140), px(110)), px(10)));
    assert_eq!(r.center_x(), px(140));
}

#[test]
fn paddle_moves_and_clamps() {
    let mut p = Player::new(px(800));
    assert_eq!(p.pos, px(400));
    p.move_player(Input::new(false, true, false), px(800));
    assert_eq!(p.pos, px(400) + 2000);
    p.move_player(Input::new(true, false, false), px(800));
    assert_eq!(p.pos, px(400));
    p.move_player(Input::new(true, true, false), px(800));
    assert_eq!(p.pos, px(400));
    for _ in 0..200 {
        p.move_player(Input::new(false, true, false), px(800));
        assert!(px(100) <= p.pos && p.pos <= px(700));
    }
    assert_eq!(p.pos, px(700));
    for _ in 0..400 {
        p.move_player(Input::new(true, false, false), px(800));
        assert!(px(100) <= p.pos && p.pos <= px(700));
    }
    assert_eq!(p.pos, px(100));
}

#[test]
fn paddle_outside_window_is_pulled_in() {
    let mut p = Player { pos: 0 };
    p.move_player(Input::new(false, false, false), px(800));
    assert_eq!(p.pos, px(100));
    let mut q = Player { pos: px(5000) };
    q.move_player(Input::new(false, false, false), px(800));
    assert_eq!(q.pos, px(700));
}

#[test]
fn paddle_hitbox() {
    let p = Player::new(px(800));
    assert_eq!(p.hitbox(px(600)), Rect::new(px(300), px(580), px(200), px(10)));
}

#[test]
fn new_game() {
    let g = MyGame::new(px(800), px(600));
    assert_eq!(g.game_state, GameState::Play);
    assert_eq!(g.score, 0);
    assert_eq!(g.player.pos, px(400));
    assert_eq!(g.ball, Ball::new(px(800), px(600)));
    assert_eq!(g.ball.pos, Vec2::new(px(400), px(560)));
    assert_eq!(g.ball.vel, Vec2::new(START_VEL_X, START_VEL_Y));
    assert!(!g.ball.is_playing);
    assert_eq!(g.blocks, block_grid(px(800)));
}

#[test]
fn idle_ticks_change_nothing_but_paddle() {
    let mut g = MyGame::new(px(800), px(600));
    let ball = g.ball;
    for _ in 0..20 {
        g.update(Input::new(false, false, false), px(800), px(600));
    }
    assert_eq!(g.ball, ball);
    assert_eq!(g.game_state, GameState::Play);
    assert_eq!(g.blocks.len(), 54);
    assert_eq!(g.score, 0);
}

#[test]
fn launched_game_reaches_blocks_and_scores() {
    let mut g = MyGame::new(px(800), px(600));
    g.update(Input::new(false, false, true), px(800), px(600));
    assert!(g.ball.is_playing);
    let mut ticks = 0;
    while g.score == 0 && ticks < 1000 {
        g.update(Input::new(false, false, false), px(800), px(600));
        ticks += 1;
    }
    assert!(g.score >= 1);
    assert_eq!(g.score as usize + g.blocks.len(), 54);
}

#[test]
fn reaching_bottom_ends_game_for_good() {
    let mut g = MyGame::new(px(800), px(600));
    g.ball.pos = Vec2::new(px(400), px(600));
    g.ball.is_playing = true;
    assert!(g.check_state(px(600)));
    g.update(Input::new(false, true, true), px(800), px(600));
    assert_eq!(g.game_state, GameState::Over);
    let player = g.player;
    let ball = g.ball;
    // even with the ball back in the window, it stays over
    g.ball.pos = Vec2::new(px(400), px(300));
    let ball_back = g.ball;
    for _ in 0..10 {
        g.update(Input::new(true, false, true), px(800), px(600));
        assert_eq!(g.game_state, GameState::Over);
    }
    assert_eq!(g.player, player);
    assert_ne!(g.ball, ball);
    assert_eq!(g.ball, ball_back);
    assert_eq!(g.blocks.len(), 54);
}

#[test]
fn ball_above_bottom_keeps_playing() {
    let mut g = MyGame::new(px(800), px(600));
    g.ball.pos = Vec2::new(px(400), px(600) - 1);
    assert!(!g.check_state(px(600)));
    g.update(Input::new(false, false, false), px(800), px(600));
    assert_eq!(g.game_state, GameState::Play);
}

#[test]
fn start_velocity_is_sixty_degrees_from_vertical() {
    let b = Ball::new(px(800), px(600));
    // 100 * sqrt(3) pixels per second to the right, 100 upward
    assert_eq!(b.vel, Vec2::new(103_923, px(-100)));
    assert!(b.vel.x > 0 && b.vel.y < 0);
    // 200 pixels per second, to within rounding
    let speed = ((b.vel.x as f64).powi(2) + (b.vel.y as f64).powi(2)).sqrt();
    assert!((speed - px(200) as f64).abs() < 1.0);
}

#[test]
fn score_may_reach_its_maximum_with_many_blocks_left() {
    let mut b = ball_at(px(490), px(250), px(100), px(-100), true);
    let far = Rect::new(px(0), px(400), px(80), px(20));
    let mut blocks = vec![far, Rect::new(px(460), px(240), px(80), px(20)), far, far];
    let mut score: u32 = u32::MAX - 1;
    b.collision(&mut blocks, far_paddle(), &mut score, px(800));
    assert_eq!(score, u32::MAX);
    assert_eq!(blocks, vec![far, far, far]);
}
