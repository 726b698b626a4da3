use arkanoid::collision::{
    collide_with_bat, collide_with_block, collide_with_blocks, collide_with_danger_zone,
    collide_with_walls,
};
use arkanoid::game::{move_bat, simulate, travel, Input, State, Status};
use arkanoid::geometry::{floor_div, mul_div, reflect};
use arkanoid::objects::{Ball, Bat, Block, BALL_MAX_SPEED};

fn started(map: Vec<Block>, bat: Bat, ball: Ball) -> State {
    State::from_parts(map, bat, ball, Status::Started)
}

fn idle(dt: u32) -> Input {
    Input { dt, left: false, right: false }
}

#[test]
fn bat_bounce_scenario() {
    let bat = Bat { x: 300_000, v: 0 };
    let ball = Ball { x: 300_000, y: 25_000, vx: 0, vy: -300_000 };
    let s = simulate(started(Vec::new(), bat, ball), idle(16_000));
    let b = s.ball();
    assert!(b.vy > 0);
    assert_eq!(b.vy, 303_000);
    assert_eq!(b.y, 28_500 + 4_848);
    assert_eq!(b.x, 300_000);
    assert_eq!(s.status(), Status::Started);
}

#[test]
fn danger_zone_scenario() {
    let bat = Bat { x: 100_000, v: 0 };
    let ball = Ball { x: 300_000, y: 5_000, vx: 0, vy: -300_000 };
    let s = simulate(started(Vec::new(), bat, ball), idle(16_000));
    assert_eq!(s.status(), Status::Failed);
    let frozen_ball = s.ball();
    let frozen_bat = s.bat();
    let inputs = [
        Input { dt: 16_000, left: true, right: false },
        Input { dt: 50_000, left: false, right: true },
        Input { dt: 0, left: true, right: true },
        idle(1_000_000),
    ];
    let mut s = s;
    for input in inputs {
        s = simulate(s, input);
        assert_eq!(s.status(), Status::Failed);
        assert_eq!(s.ball(), frozen_ball);
        assert_eq!(s.bat(), frozen_bat);
    }
}

#[test]
fn block_face_scenario() {
    let block = Block { x: 100_000, y: 700_000 };
    let bat = Bat { x: 300_000, v: 0 };
    let ball = Ball { x: 100_000, y: 685_000, vx: 0, vy: 300_000 };
    let s = simulate(started(vec![block], bat, ball), idle(0));
    assert!(s.map().is_empty());
    let b = s.ball();
    assert_eq!(b.vy, -300_000);
    assert_eq!(b.y, 690_000 - 10_000);
    assert_eq!(b.x, 100_000);
}

#[test]
fn block_corner_scenario() {
    let block = Block { x: 300_000, y: 600_000 };
    let bat = Bat { x: 300_000, v: 0 };
    let ball = Ball { x: 325_000, y: 615_000, vx: -100_000, vy: -200_000 };
    let s = simulate(started(vec![block], bat, ball), idle(0));
    assert!(s.map().is_empty());
    let b = s.ball();
    assert_eq!((b.vx, b.vy), (200_000, 100_000));
    assert_eq!(b.vx * b.vx + b.vy * b.vy, 100_000i64 * 100_000 + 200_000i64 * 200_000);
}

#[test]
fn corner_miss_leaves_block() {
    let block = Block { x: 300_000, y: 600_000 };
    let ball = Ball { x: 329_000, y: 619_000, vx: -100_000, vy: -200_000 };
    let (b, hit) = collide_with_block(ball, &block);
    assert!(!hit);
    assert_eq!(b, ball);
}

#[test]
fn side_face_hit_from_left() {
    let block = Block { x: 300_000, y: 600_000 };
    let ball = Ball { x: 275_000, y: 600_000, vx: 50_000, vy: 10_000 };
    let (b, hit) = collide_with_block(ball, &block);
    assert!(hit);
    assert_eq!(b.x, 280_000 - 10_000);
    assert_eq!(b.vx, -50_000);
    assert_eq!(b.vy, 10_000);
}

#[test]
fn top_face_hit_from_above() {
    let block = Block { x: 300_000, y: 600_000 };
    let ball = Ball { x: 300_000, y: 615_000, vx: 0, vy: -40_000 };
    let (b, hit) = collide_with_block(ball, &block);
    assert!(hit);
    assert_eq!(b.y, 610_000 + 10_000);
    assert_eq!(b.vy, 40_000);
}

#[test]
fn at_most_one_block_per_frame() {
    let blocks = vec![
        Block { x: 500_000, y: 700_000 },
        Block { x: 100_000, y: 700_000 },
        Block { x: 140_000, y: 700_000 },
        Block { x: 300_000, y: 500_000 },
    ];
    let ball = Ball { x: 120_000, y: 685_000, vx: 0, vy: 300_000 };
    let (b, rest) = collide_with_blocks(ball, blocks);
    assert_eq!(rest.len(), 3);
    assert_eq!(b.vy, -300_000);
    assert_eq!(
        rest,
        vec![
            Block { x: 500_000, y: 700_000 },
            Block { x: 300_000, y: 500_000 },
            Block { x: 140_000, y: 700_000 },
        ]
    );
}

#[test]
fn no_block_hit_keeps_map() {
    let blocks = vec![Block { x: 500_000, y: 700_000 }];
    let ball = Ball { x: 100_000, y: 500_000, vx: 10, vy: 10 };
    let (b, rest) = collide_with_blocks(ball, blocks.clone());
    assert_eq!(b, ball);
    assert_eq!(rest, blocks);
}

#[test]
fn blocks_only_checked_in_upper_half() {
    let block = Block { x: 100_000, y: 390_000 };
    let bat = Bat { x: 300_000, v: 0 };
    let ball = Ball { x: 100_000, y: 375_000, vx: 0, vy: 300_000 };
    let s = simulate(started(vec![block], bat, ball), idle(0));
    assert_eq!(s.map().len(), 1);
    assert_eq!(s.ball().vy, 300_000);
}

#[test]
fn walls_keep_ball_inside() {
    let b = collide_with_walls(Ball { x: 605_000, y: 900_000, vx: 10_000, vy: 20_000 });
    assert_eq!((b.x, b.vx), (590_000, -10_000));
    assert_eq!((b.y, b.vy), (790_000, -20_000));
    let b = collide_with_walls(Ball { x: -3_000, y: 400_000, vx: -10_000, vy: 0 });
    assert_eq!((b.x, b.vx), (10_000, 10_000));
    let b = collide_with_walls(Ball { x: 300_000, y: -50_000, vx: 1, vy: -7 });
    assert_eq!(b, Ball { x: 300_000, y: -50_000, vx: 1, vy: -7 });
}

#[test]
fn right_wall_bounce_at_boundary() {
    let ball = Ball { x: 590_000, y: 400_000, vx: 50_000, vy: 0 };
    let b = collide_with_walls(ball);
    assert_eq!(b.vx, -50_000);
    assert_eq!(b.x, 590_000);
    assert_eq!(collide_with_walls(b).x, 590_000);
}

#[test]
fn danger_zone_threshold() {
    assert!(collide_with_danger_zone(&Ball { x: 0, y: 10_000, vx: 0, vy: 0 }));
    assert!(!collide_with_danger_zone(&Ball { x: 0, y: 10_001, vx: 0, vy: 0 }));
}

#[test]
fn bat_hit_transfers_velocity() {
    let bat = Bat { x: 300_000, v: 100_000 };
    let ball = Ball { x: 330_000, y: 20_000, vx: 20_000, vy: -200_000 };
    let b = collide_with_bat(ball, &bat);
    assert_eq!(b.y, 28_500);
    assert_eq!(b.vx, 70_700);
    assert_eq!(b.vy, 202_000);
    let miss = collide_with_bat(Ball { x: 341_000, ..ball }, &bat);
    assert_eq!(miss, Ball { x: 341_000, ..ball });
}

#[test]
fn bat_hit_respects_speed_ceiling() {
    let bat = Bat { x: 300_000, v: 0 };
    let ball = Ball { x: 300_000, y: 20_000, vx: BALL_MAX_SPEED, vy: -BALL_MAX_SPEED };
    let b = collide_with_bat(ball, &bat);
    assert_eq!((b.vx, b.vy), (BALL_MAX_SPEED, BALL_MAX_SPEED));
}

#[test]
fn bat_stops_at_wall() {
    let bat = Bat { x: 550_000, v: 1_700_000 };
    let b = move_bat(&bat, &Input { dt: 1_000_000, left: false, right: true });
    assert_eq!(b, Bat { x: 560_000, v: 0 });
    let bat = Bat { x: 45_000, v: -1_000_000 };
    let b = move_bat(&bat, &Input { dt: 100_000, left: true, right: false });
    assert_eq!(b, Bat { x: 40_000, v: 0 });
}

#[test]
fn bat_accelerates_and_brakes() {
    let bat = Bat { x: 300_000, v: 0 };
    let b = move_bat(&bat, &Input { dt: 100_000, left: false, right: true });
    assert_eq!(b.v, 88_200);
    assert_eq!(b.x, 308_820);
    let b = move_bat(&bat, &Input { dt: 100_000, left: true, right: true });
    assert_eq!(b, bat);
    let b = move_bat(&Bat { x: 300_000, v: 1_000 }, &idle(0));
    assert_eq!(b, Bat { x: 300_000, v: 980 });
}

#[test]
fn bat_top_speed_is_clamped() {
    let bat = Bat { x: 300_000, v: 1_700_000 };
    let b = move_bat(&bat, &Input { dt: 1_000, left: false, right: true });
    assert_eq!(b.v, 1_666_882);
    let b = move_bat(&Bat { x: 300_000, v: 1_690_000 }, &Input { dt: 100_000, left: false, right: true });
    assert_eq!(b.v, 1_700_000);
}

#[test]
fn new_game_rests_on_bat() {
    let s = State::new(vec![Block { x: 100_000, y: 700_000 }]);
    assert_eq!(s.bat(), Bat { x: 300_000, v: 0 });
    assert_eq!(s.ball(), Ball { x: 300_000, y: 29_000, vx: 0, vy: 0 });
    assert_eq!(s.status(), Status::NotStarted);
    assert_eq!(s.map().len(), 1);
}

#[test]
fn waiting_without_keys_changes_nothing() {
    let s = simulate(State::new(Vec::new()), idle(16_000));
    assert_eq!(s.status(), Status::NotStarted);
    assert_eq!(s.ball(), Ball { x: 300_000, y: 29_000, vx: 0, vy: 0 });
}

#[test]
fn launch_follows_key() {
    let s = simulate(State::new(Vec::new()), Input { dt: 0, left: true, right: false });
    assert_eq!(s.status(), Status::Started);
    assert_eq!((s.ball().vx, s.ball().vy), (-30_000, 300_000));
    let s = simulate(State::new(Vec::new()), Input { dt: 0, left: false, right: true });
    assert_eq!((s.ball().vx, s.ball().vy), (30_000, 300_000));
    let s = simulate(State::new(Vec::new()), Input { dt: 0, left: true, right: true });
    assert_eq!(s.ball().vx, -30_000);
}

#[test]
fn status_never_goes_back() {
    let mut s = State::new(Vec::new());
    let mut rank = 0;
    for k in 0..200u32 {
        let input = Input { dt: 20_000, left: k % 3 == 0, right: k % 5 == 0 };
        s = simulate(s, input);
        let r = match s.status() {
            Status::NotStarted => 0,
            Status::Started => 1,
            Status::Failed => 2,
        };
        assert!(r >= rank);
        rank = r;
        let x = s.bat().x;
        assert!((40_000..=560_000).contains(&x));
    }
}

#[test]
fn reflect_examples() {
    assert_eq!(reflect((3, 4), (1, 1)), (-4, -3));
    assert_eq!(reflect((3, 4), (0, 1)), (3, -4));
    assert_eq!(reflect((3, 4), (0, 5)), (3, -4));
    assert_eq!(reflect((5, -2), (-1, 1)), (-2, 5));
    assert_eq!(reflect((5, 0), (1, 2)), (3, -4));
    assert_eq!(reflect((1, 0), (1, 2)), (1, 0));
}

#[test]
fn rounding_is_downwards() {
    assert_eq!(floor_div(-7, 2), -4);
    assert_eq!(floor_div(7, 2), 3);
    assert_eq!(floor_div(-6, 2), -3);
    assert_eq!(mul_div(-3, 101, 100), -4);
    assert_eq!(travel(-1, 1), -1);
    assert_eq!(travel(300_000, 16_000), 4_800);
}
