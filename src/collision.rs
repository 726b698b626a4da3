//! Detection and resolution of the ball's contacts with the walls, the
//! danger zone at the bottom, the bat and the blocks.
use vstd::prelude::*;
use crate::objects::{
    Ball, Bat, Block, BALL_ACCEL_DEN, BALL_ACCEL_NUM, BALL_BRAKING_DEN, BALL_BRAKING_NUM,
    BALL_CONTACT_RADIUS, BALL_MAX_SPEED, BALL_RADIUS, BAT_HEIGHT, BAT_WIDTH, BAT_Y,
    BLOCK_HEIGHT, BLOCK_WIDTH, FIELD_HEIGHT, FIELD_WIDTH,
};
use crate::maps::{BlockMap, blocks_wf};
use crate::geometry::{
    floor_div, lemma_corner_reflection_preserves_speed, lemma_reflect_diagonal, mul_div, reflect,
    reflect_spec,
};

verus! {

pub open spec fn clamp(c: int, lo: int, hi: int) -> int {
    if c < lo {
        lo
    } else if c > hi {
        hi
    } else {
        c
    }
}

pub open spec fn abs(c: int) -> int {
    if c < 0 {
        -c
    } else {
        c
    }
}

pub open spec fn sign(c: int) -> int {
    if c > 0 {
        1
    } else if c < 0 {
        -1
    } else {
        0
    }
}

/// Bounce off the right, left and top walls, in that order: the velocity
/// component across a touched wall flips and the ball is put back inside.
pub open spec fn walls_spec(ball: Ball) -> Ball {
    let b1 = if ball.x + BALL_RADIUS >= FIELD_WIDTH {
        Ball { x: (FIELD_WIDTH - BALL_RADIUS) as i64, vx: -ball.vx as i64, ..ball }
    } else {
        ball
    };
    let b2 = if b1.x - BALL_RADIUS <= 0 {
        Ball { x: BALL_RADIUS, vx: -b1.vx as i64, ..b1 }
    } else {
        b1
    };
    if b2.y + BALL_RADIUS >= FIELD_HEIGHT {
        Ball { y: (FIELD_HEIGHT - BALL_RADIUS) as i64, vy: -b2.vy as i64, ..b2 }
    } else {
        b2
    }
}

/// Resolves the ball against the side and top walls. The bottom edge is not
/// a wall: crossing it loses the game.
pub fn collide_with_walls(ball: Ball) -> (r: Ball)
    requires
        ball.wf(),
    ensures
        r == walls_spec(ball),
        r.wf(),
        BALL_RADIUS <= r.x <= FIELD_WIDTH - BALL_RADIUS,
        r.y <= FIELD_HEIGHT - BALL_RADIUS,
{
    let mut ball = ball;
    if ball.x + BALL_RADIUS >= FIELD_WIDTH {
        ball.vx = -ball.vx;
        ball.x = FIELD_WIDTH - BALL_RADIUS;
    }
    if ball.x - BALL_RADIUS <= 0 {
        ball.vx = -ball.vx;
        ball.x = BALL_RADIUS;
    }
    if ball.y + BALL_RADIUS >= FIELD_HEIGHT {
        ball.vy = -ball.vy;
        ball.y = FIELD_HEIGHT - BALL_RADIUS;
    }
    ball
}

/// Whatever the ball, after the walls it lies between the side walls, at
/// least a radius away from each, and a radius below the top wall.
pub proof fn lemma_walls_keep_ball_inside(ball: Ball)
    ensures
        BALL_RADIUS <= walls_spec(ball).x <= FIELD_WIDTH - BALL_RADIUS,
        walls_spec(ball).y <= FIELD_HEIGHT - BALL_RADIUS,
{
}

/// A ball touching the right wall while moving right turns back and sits
/// exactly a radius from the wall; resolving the walls again leaves it at
/// that place.
pub proof fn lemma_right_wall_bounce(ball: Ball)
    requires
        ball.wf(),
        ball.x == FIELD_WIDTH - BALL_RADIUS,
        ball.vx > 0,
    ensures
        walls_spec(ball).vx == -ball.vx,
        walls_spec(ball).vx < 0,
        walls_spec(ball).x == FIELD_WIDTH - BALL_RADIUS,
        walls_spec(walls_spec(ball)).x == FIELD_WIDTH - BALL_RADIUS,
{
}

/// The ball has reached the bottom edge of the field.
pub open spec fn in_danger_zone(ball: Ball) -> bool {
    ball.y - BALL_RADIUS <= 0
}

/// Tells whether the ball's lower edge has reached the bottom of the field.
pub fn collide_with_danger_zone(ball: &Ball) -> (r: bool)
    requires
        ball.wf(),
    ensures
        r == in_danger_zone(*ball),
{
    ball.y - BALL_RADIUS <= 0
}

/// Height of the bat's top surface.
pub open spec fn bat_top() -> int {
    BAT_Y + BAT_HEIGHT / 2
}

/// The ball's slightly shrunk lower edge is at or below the bat's top
/// surface and its centre is above the bat's span.
pub open spec fn touches_bat(ball: Ball, bat: Bat) -> bool {
    &&& ball.y - BALL_CONTACT_RADIUS <= bat_top()
    &&& bat.x - BAT_WIDTH / 2 <= ball.x <= bat.x + BAT_WIDTH / 2
}

/// On a bat hit `vy` flips, the ball sits on the bat's surface, `vx` gains a
/// share of the bat's velocity, and both components speed up (each kept
/// within the ball's speed ceiling).
pub open spec fn bat_spec(ball: Ball, bat: Bat) -> Ball {
    if touches_bat(ball, bat) {
        let share = bat.v * BALL_BRAKING_NUM / (BALL_BRAKING_DEN as int);
        let vx = (ball.vx + share) * BALL_ACCEL_NUM / (BALL_ACCEL_DEN as int);
        let vy = -ball.vy * BALL_ACCEL_NUM / (BALL_ACCEL_DEN as int);
        Ball {
            x: ball.x,
            y: (bat_top() + BALL_CONTACT_RADIUS) as i64,
            vx: clamp(vx, -BALL_MAX_SPEED, BALL_MAX_SPEED as int) as i64,
            vy: clamp(vy, -BALL_MAX_SPEED, BALL_MAX_SPEED as int) as i64,
        }
    } else {
        ball
    }
}

fn clamp_speed(c: i128) -> (r: i64)
    ensures
        r == clamp(c as int, -BALL_MAX_SPEED, BALL_MAX_SPEED as int),
{
    if c < -(BALL_MAX_SPEED as i128) {
        -BALL_MAX_SPEED
    } else if c > BALL_MAX_SPEED as i128 {
        BALL_MAX_SPEED
    } else {
        c as i64
    }
}

/// Resolves the ball against the bat.
pub fn collide_with_bat(ball: Ball, bat: &Bat) -> (r: Ball)
    requires
        ball.wf(),
        bat.wf(),
    ensures
        r == bat_spec(ball, *bat),
        r.wf(),
{
    let by: i64 = BAT_Y + BAT_HEIGHT / 2;
    let bx0: i64 = bat.x - BAT_WIDTH / 2;
    let bx1: i64 = bat.x + BAT_WIDTH / 2;
    if !(ball.y - BALL_CONTACT_RADIUS <= by && bx0 <= ball.x && ball.x <= bx1) {
        return ball;
    }
    let share = mul_div(bat.v as i128, BALL_BRAKING_NUM as i128, BALL_BRAKING_DEN as i128);
    let vx = mul_div(ball.vx as i128 + share, BALL_ACCEL_NUM as i128, BALL_ACCEL_DEN as i128);
    let vy = mul_div(-(ball.vy as i128), BALL_ACCEL_NUM as i128, BALL_ACCEL_DEN as i128);
    Ball { x: ball.x, y: by + BALL_CONTACT_RADIUS, vx: clamp_speed(vx), vy: clamp_speed(vy) }
}

/// The ball's centre is within the block's horizontal span (face region
/// above or below the block).
pub open spec fn in_column(ball: Ball, block: Block) -> bool {
    block.left() <= ball.x <= block.right()
}

/// The ball's centre is within the block's vertical span (face region left
/// or right of the block).
pub open spec fn in_row(ball: Ball, block: Block) -> bool {
    block.bottom() <= ball.y <= block.top()
}

/// Squared distance from the ball's centre to the block's nearest corner.
pub open spec fn corner_dist2(ball: Ball, block: Block) -> int {
    let dx = BLOCK_WIDTH / 2 - abs(ball.x - block.x);
    let dy = BLOCK_HEIGHT / 2 - abs(ball.y - block.y);
    dx * dx + dy * dy
}

/// Outcome of testing the ball against one block: the resolved ball and
/// whether the block was hit.
///
/// In a face region the ball is hit when it overlaps the block; it is pushed
/// flush against the face it approached from and the velocity component
/// across the face flips. In a corner region the ball is hit when the corner
/// lies strictly inside it; its velocity is reflected off the corner's
/// diagonal normal. A missed block leaves the ball as it was.
pub open spec fn block_spec(ball: Ball, block: Block) -> (Ball, bool) {
    if in_column(ball, block) {
        if ball.y + BALL_RADIUS >= block.bottom() && ball.y - BALL_RADIUS <= block.top() {
            let y = if ball.vy > 0 {
                block.bottom() - BALL_RADIUS
            } else {
                block.top() + BALL_RADIUS
            };
            (Ball { y: y as i64, vy: -ball.vy as i64, ..ball }, true)
        } else {
            (ball, false)
        }
    } else if in_row(ball, block) {
        if ball.x + BALL_RADIUS >= block.left() && ball.x - BALL_RADIUS <= block.right() {
            let x = if ball.vx > 0 {
                block.left() - BALL_RADIUS
            } else {
                block.right() + BALL_RADIUS
            };
            (Ball { x: x as i64, vx: -ball.vx as i64, ..ball }, true)
        } else {
            (ball, false)
        }
    } else if corner_dist2(ball, block) < BALL_RADIUS * BALL_RADIUS {
        let n = (sign(ball.x - block.x), sign(ball.y - block.y));
        let v = reflect_spec((ball.vx as int, ball.vy as int), n);
        (Ball { vx: v.0 as i64, vy: v.1 as i64, ..ball }, true)
    } else {
        (ball, false)
    }
}

/// Where a block can put the ball along an axis of the field of size `size`.
pub open spec fn near_block_range(c: int, size: int) -> bool {
    -BLOCK_WIDTH - BALL_RADIUS <= c <= size + BLOCK_WIDTH + BALL_RADIUS
}

/// Squared length of the ball's velocity.
pub open spec fn speed2(ball: Ball) -> int {
    ball.vx * ball.vx + ball.vy * ball.vy
}

/// Bouncing off a block, by a face or by a corner, keeps the ball's speed.
pub proof fn lemma_block_bounce_keeps_speed(ball: Ball, block: Block)
    requires
        ball.wf(),
        block.wf(),
    ensures
        speed2(block_spec(ball, block).0) == speed2(ball),
{
    if !in_column(ball, block) && !in_row(ball, block) && corner_dist2(ball, block)
        < BALL_RADIUS * BALL_RADIUS {
        let (sx, sy) = (sign(ball.x - block.x), sign(ball.y - block.y));
        lemma_reflect_diagonal(ball.vx as int, ball.vy as int, sx, sy);
        lemma_corner_reflection_preserves_speed(ball.vx as int, ball.vy as int, sx, sy);
        assert(-sx * sy * ball.vy == ball.vy || -sx * sy * ball.vy == -ball.vy) by (nonlinear_arith)
            requires
                sx == 1 || sx == -1,
                sy == 1 || sy == -1,
        ;
        assert(-sx * sy * ball.vx == ball.vx || -sx * sy * ball.vx == -ball.vx) by (nonlinear_arith)
            requires
                sx == 1 || sx == -1,
                sy == 1 || sy == -1,
        ;
    }
    let (vx, vy) = (ball.vx as int, ball.vy as int);
    assert((-vx) * (-vx) == vx * vx && (-vy) * (-vy) == vy * vy) by (nonlinear_arith);
}

/// Tests the ball against one block and resolves a hit.
pub fn collide_with_block(ball: Ball, block: &Block) -> (r: (Ball, bool))
    requires
        ball.wf(),
        block.wf(),
    ensures
        r == block_spec(ball, *block),
        r.0.wf(),
        r.0.x == ball.x || near_block_range(r.0.x as int, FIELD_WIDTH as int),
        r.0.y == ball.y || near_block_range(r.0.y as int, FIELD_HEIGHT as int),
{
    let left: i64 = block.x - BLOCK_WIDTH / 2;
    let right: i64 = block.x + BLOCK_WIDTH / 2;
    let bottom: i64 = block.y - BLOCK_HEIGHT / 2;
    let top: i64 = block.y + BLOCK_HEIGHT / 2;
    let mut ball = ball;
    if left <= ball.x && ball.x <= right {
        if ball.y + BALL_RADIUS >= bottom && ball.y - BALL_RADIUS <= top {
            ball.y = if ball.vy > 0 {
                bottom - BALL_RADIUS
            } else {
                top + BALL_RADIUS
            };
            ball.vy = -ball.vy;
            (ball, true)
        } else {
            (ball, false)
        }
    } else if bottom <= ball.y && ball.y <= top {
        if ball.x + BALL_RADIUS >= left && ball.x - BALL_RADIUS <= right {
            ball.x = if ball.vx > 0 {
                left - BALL_RADIUS
            } else {
                right + BALL_RADIUS
            };
            ball.vx = -ball.vx;
            (ball, true)
        } else {
            (ball, false)
        }
    } else {
        let bx: i128 = ball.x as i128 - block.x as i128;
        let by: i128 = ball.y as i128 - block.y as i128;
        let ax: i128 = if bx < 0 { -bx } else { bx };
        let ay: i128 = if by < 0 { -by } else { by };
        let dx: i128 = (BLOCK_WIDTH / 2) as i128 - ax;
        let dy: i128 = (BLOCK_HEIGHT / 2) as i128 - ay;
        proof {
            let b: int = 0x1_0000_0000_0000;
            assert(0 <= dx * dx <= b * b) by (nonlinear_arith)
                requires
                    -b <= dx <= b,
            ;
            assert(0 <= dy * dy <= b * b) by (nonlinear_arith)
                requires
                    -b <= dy <= b,
            ;
        }
        let r2: i128 = BALL_RADIUS as i128 * BALL_RADIUS as i128;
        if dx * dx + dy * dy < r2 {
            let sx: i64 = if bx > 0 { 1 } else { -1 };
            let sy: i64 = if by > 0 { 1 } else { -1 };
            let v = reflect((ball.vx, ball.vy), (sx, sy));
            proof {
                lemma_reflect_diagonal(ball.vx as int, ball.vy as int, sx as int, sy as int);
                assert(-sx * sy * ball.vy == ball.vy || -sx * sy * ball.vy == -ball.vy)
                    by (nonlinear_arith)
                    requires
                        sx == 1 || sx == -1,
                        sy == 1 || sy == -1,
                ;
                assert(-sx * sy * ball.vx == ball.vx || -sx * sy * ball.vx == -ball.vx)
                    by (nonlinear_arith)
                    requires
                        sx == 1 || sx == -1,
                        sy == 1 || sy == -1,
                ;
            }
            ball.vx = v.0 as i64;
            ball.vy = v.1 as i64;
            (ball, true)
        } else {
            (ball, false)
        }
    }
}

/// Index of the first block in `s`, from `i` on, that the ball hits, or
/// `s.len()` when it hits none of them.
pub open spec fn first_hit(ball: Ball, s: Seq<Block>, i: int) -> int
    decreases s.len() - i,
{
    if i < 0 || i >= s.len() {
        s.len() as int
    } else if block_spec(ball, s[i]).1 {
        i
    } else {
        first_hit(ball, s, i + 1)
    }
}

/// The first hit, when there is one, is a valid index of `s`.
pub proof fn lemma_first_hit_range(ball: Ball, s: Seq<Block>, i: int)
    requires
        0 <= i,
    ensures
        0 <= first_hit(ball, s, i) <= s.len(),
    decreases s.len() - i,
{
    if i < s.len() && !block_spec(ball, s[i]).1 {
        lemma_first_hit_range(ball, s, i + 1);
    }
}

/// Resolving the blocks removes at most one of them and brings in none:
/// every block left was there before.
pub proof fn lemma_blocks_only_shrink(ball: Ball, s: Seq<Block>)
    ensures
        blocks_spec(ball, s).1.len() == s.len() || blocks_spec(ball, s).1.len() + 1 == s.len(),
        forall|j: int|
            0 <= j < blocks_spec(ball, s).1.len() ==> exists|i: int|
                0 <= i < s.len() && s[i] == #[trigger] blocks_spec(ball, s).1[j],
{
    lemma_first_hit_range(ball, s, 0);
    let k = first_hit(ball, s, 0);
    let t = blocks_spec(ball, s).1;
    assert forall|j: int| 0 <= j < t.len() implies exists|i: int|
        0 <= i < s.len() && s[i] == #[trigger] t[j] by {
        if k < s.len() && j == k {
            assert(s[s.len() - 1] == t[j]);
        } else {
            assert(s[j] == t[j]);
        }
    }
}

/// `s` without its element at `k`, the last element taking its place.
pub open spec fn swap_removed(s: Seq<Block>, k: int) -> Seq<Block> {
    s.update(k, s.last()).drop_last()
}

/// The first block that the ball hits, in storage order, resolves the ball
/// and leaves the map; the others are not looked at in this frame.
pub open spec fn blocks_spec(ball: Ball, s: Seq<Block>) -> (Ball, Seq<Block>) {
    let k = first_hit(ball, s, 0);
    if k < s.len() {
        (block_spec(ball, s[k]).0, swap_removed(s, k))
    } else {
        (ball, s)
    }
}

/// Resolves the ball against the first block it hits and removes that block.
pub fn collide_with_blocks(ball: Ball, map: BlockMap) -> (r: (Ball, BlockMap))
    requires
        ball.wf(),
        blocks_wf(map@),
    ensures
        (r.0, r.1@) == blocks_spec(ball, map@),
        r.0.wf(),
        r.0.x == ball.x || near_block_range(r.0.x as int, FIELD_WIDTH as int),
        r.0.y == ball.y || near_block_range(r.0.y as int, FIELD_HEIGHT as int),
        blocks_wf(r.1@),
        r.1@.len() == map@.len() || r.1@.len() + 1 == map@.len(),
{
    let mut i: usize = 0;
    while i < map.len()
        invariant
            0 <= i <= map@.len(),
            ball.wf(),
            blocks_wf(map@),
            first_hit(ball, map@, 0) == first_hit(ball, map@, i as int),
        decreases map@.len() - i,
    {
        let (hit_ball, detected) = collide_with_block(ball, &map[i]);
        if detected {
            let mut rest = map;
            rest.swap_remove(i);
            proof {
                assert(blocks_wf(rest@)) by {
                    assert forall|j: int| 0 <= j < rest@.len() implies #[trigger] rest@[j].wf() by {
                        if j == i {
                            assert(rest@[j] == map@[map@.len() - 1]);
                        } else {
                            assert(rest@[j] == map@[j]);
                        }
                    }
                }
            }
            return (hit_ball, rest);
        }
        i = i + 1;
    }
    (ball, map)
}

} // verus!
