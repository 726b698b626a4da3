//! The scene as the renderer draws it: every object as a rectangle of two
//! triangles, six corners of two coordinates each.
use vstd::prelude::*;
use crate::objects::{
    Ball, Bat, Block, BALL_RADIUS, BAT_HEIGHT, BAT_WIDTH, BAT_Y, BLOCK_HEIGHT, BLOCK_WIDTH,
};
use crate::maps::{BlockMap, blocks_wf};

verus! {

/// The two triangles of the rectangle with centre `(x, y)`, half-width `hw`
/// and half-height `hh`, as twelve coordinates.
pub open spec fn rect_spec(x: int, y: int, hw: int, hh: int) -> Seq<int> {
    seq![
        x - hw, y + hh, x - hw, y - hh, x + hw, y + hh,
        x - hw, y - hh, x + hw, y + hh, x + hw, y - hh,
    ]
}

/// The rectangles of the blocks of `s`, in order.
pub open spec fn blocks_vertices(s: Seq<Block>) -> Seq<int>
    decreases s.len(),
{
    if s.len() == 0 {
        Seq::empty()
    } else {
        blocks_vertices(s.drop_last()) + rect_spec(
            s.last().x as int,
            s.last().y as int,
            BLOCK_WIDTH / 2,
            BLOCK_HEIGHT / 2,
        )
    }
}

/// The whole scene: the bat, the ball, then the blocks.
pub open spec fn scene_vertices(bat: Bat, ball: Ball, s: Seq<Block>) -> Seq<int> {
    rect_spec(bat.x as int, BAT_Y as int, BAT_WIDTH / 2, BAT_HEIGHT / 2) + rect_spec(
        ball.x as int,
        ball.y as int,
        BALL_RADIUS as int,
        BALL_RADIUS as int,
    ) + blocks_vertices(s)
}

pub open spec fn as_ints(s: Seq<i64>) -> Seq<int> {
    s.map_values(|c: i64| c as int)
}

/// Appends the rectangle with centre `(x, y)` and half sizes `hw`, `hh`.
pub fn fill_buffer_with_rect(buffer: &mut Vec<i64>, x: i64, y: i64, hw: i64, hh: i64)
    requires
        -0x1000_0000_0000_0000 <= x <= 0x1000_0000_0000_0000,
        -0x1000_0000_0000_0000 <= y <= 0x1000_0000_0000_0000,
        0 <= hw <= 0x1000_0000_0000_0000,
        0 <= hh <= 0x1000_0000_0000_0000,
    ensures
        as_ints(final(buffer)@) == as_ints(old(buffer)@) + rect_spec(
            x as int,
            y as int,
            hw as int,
            hh as int,
        ),
{
    let ghost start = buffer@;
    buffer.push(x - hw);
    buffer.push(y + hh);
    buffer.push(x - hw);
    buffer.push(y - hh);
    buffer.push(x + hw);
    buffer.push(y + hh);
    buffer.push(x - hw);
    buffer.push(y - hh);
    buffer.push(x + hw);
    buffer.push(y + hh);
    buffer.push(x + hw);
    buffer.push(y - hh);
    assert(as_ints(buffer@) =~= as_ints(start) + rect_spec(x as int, y as int, hw as int, hh as int));
}

/// Fills `buffer` with the scene: the bat, the ball, then each block.
pub fn fill_buffer(buffer: &mut Vec<i64>, bat: &Bat, ball: &Ball, map: &BlockMap)
    requires
        bat.wf(),
        ball.wf(),
        blocks_wf(map@),
    ensures
        as_ints(final(buffer)@) == scene_vertices(*bat, *ball, map@),
{
    buffer.clear();
    assert(as_ints(buffer@) =~= Seq::<int>::empty());
    fill_buffer_with_rect(buffer, bat.x, BAT_Y, BAT_WIDTH / 2, BAT_HEIGHT / 2);
    fill_buffer_with_rect(buffer, ball.x, ball.y, BALL_RADIUS, BALL_RADIUS);
    let ghost head = as_ints(buffer@);
    let mut n: usize = 0;
    while n < map.len()
        invariant
            n <= map@.len(),
            blocks_wf(map@),
            as_ints(buffer@) == head + blocks_vertices(map@.subrange(0, n as int)),
        decreases map@.len() - n,
    {
        let block = map[n];
        assert(map@[n as int].wf());
        fill_buffer_with_rect(buffer, block.x, block.y, BLOCK_WIDTH / 2, BLOCK_HEIGHT / 2);
        proof {
            let s = map@.subrange(0, n as int + 1);
            assert(s.drop_last() =~= map@.subrange(0, n as int));
            assert(s.last() == block);
        }
        n = n + 1;
    }
    assert(map@.subrange(0, map@.len() as int) =~= map@);
}

} // verus!
