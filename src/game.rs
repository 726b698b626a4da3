//! The game's state machine and the simulation step that advances it by one
//! frame.
use vstd::prelude::*;
use crate::objects::{
    Ball, Bat, Block, BALL_DEF_VX, BALL_DEF_VY, BALL_MAX_SPEED, BALL_RADIUS, BAT_ACCEL,
    BAT_BRAKING_DEN, BAT_BRAKING_NUM, BAT_HEIGHT, BAT_MAX_SPEED, BAT_WIDTH, BAT_Y, FIELD_HEIGHT,
    FIELD_WIDTH, MAX_STEP, MICROS,
};
use crate::collision::{
    bat_spec, blocks_spec, lemma_blocks_only_shrink, clamp, collide_with_bat, collide_with_blocks,
    collide_with_danger_zone, collide_with_walls, in_danger_zone, walls_spec,
};
use crate::geometry::{floor_div, mul_div};
use crate::maps::{BlockMap, blocks_wf};
use vstd::arithmetic::div_mod::{lemma_fundamental_div_mod, lemma_mod_bound};

verus! {

/// Where the game is in its lifecycle.
#[derive(Clone, Copy, Debug, PartialEq, Eq, Structural)]
pub enum Status {
    /// The ball rests on the bat until the first key press.
    NotStarted,
    /// The ball is in play.
    Started,
    /// The ball was lost; nothing moves any more.
    Failed,
}

/// What the frame driver hands to one step: the elapsed time in
/// microseconds and the arrow keys held down.
#[derive(Clone, Copy, Debug, PartialEq, Eq, Structural)]
pub struct Input {
    pub dt: u32,
    pub left: bool,
    pub right: bool,
}

/// The whole game: the blocks still standing, the bat, the ball and the
/// lifecycle status.
pub struct State {
    map: BlockMap,
    bat: Bat,
    ball: Ball,
    status: Status,
}

/// The mathematical content of a `State`.
pub struct GameView {
    pub map: Seq<Block>,
    pub bat: Bat,
    pub ball: Ball,
    pub status: Status,
}

impl View for State {
    type V = GameView;

    closed spec fn view(&self) -> GameView {
        GameView { map: self.map@, bat: self.bat, ball: self.ball, status: self.status }
    }
}

impl GameView {
    /// Every block is inside the field, the bat is within its bounds, the
    /// ball's values are in range and, until the game is lost, the ball is
    /// within one step's reach of the field.
    pub open spec fn wf(self) -> bool {
        &&& blocks_wf(self.map)
        &&& self.bat.wf()
        &&& self.ball.wf()
        &&& self.status != Status::Failed ==> self.ball.in_reach()
    }
}

/// The bat's acceleration: a single held arrow key pushes the bat its way;
/// both keys or none give no acceleration.
pub open spec fn bat_accel(input: Input) -> int {
    if input.left && !input.right {
        -BAT_ACCEL
    } else if input.right && !input.left {
        BAT_ACCEL as int
    } else {
        0
    }
}

/// The bat's new velocity before the walls: accelerated over `dt`, damped,
/// and kept within the top speed.
pub open spec fn bat_speed(bat: Bat, input: Input) -> int {
    let raw = BAT_BRAKING_NUM * (bat.v * MICROS + bat_accel(input) * input.dt) / (
    BAT_BRAKING_DEN * MICROS);
    clamp(raw, -BAT_MAX_SPEED, BAT_MAX_SPEED as int)
}

/// Distance covered in `dt` microseconds at speed `v`, rounded down.
pub open spec fn displacement(v: int, dt: int) -> int {
    v * dt / (MICROS as int)
}

/// The bat after one step: moved at its new velocity and, where it would
/// leave the field, stopped dead against the wall.
pub open spec fn bat_step(bat: Bat, input: Input) -> Bat {
    let v = bat_speed(bat, input);
    let x = bat.x + displacement(v, input.dt as int);
    if x < BAT_WIDTH / 2 {
        Bat { x: (BAT_WIDTH / 2) as i64, v: 0 }
    } else if x > FIELD_WIDTH - BAT_WIDTH / 2 {
        Bat { x: (FIELD_WIDTH - BAT_WIDTH / 2) as i64, v: 0 }
    } else {
        Bat { x: x as i64, v: v as i64 }
    }
}

/// The ball moved along its velocity for `dt` microseconds.
pub open spec fn integrate(ball: Ball, dt: int) -> Ball {
    Ball {
        x: (ball.x + displacement(ball.vx as int, dt)) as i64,
        y: (ball.y + displacement(ball.vy as int, dt)) as i64,
        ..ball
    }
}

/// One frame of play: move the bat, bounce the ball off it, test the danger
/// zone, bounce off the walls, off a block when in the upper half, then
/// move the ball. The game is lost when the danger zone was reached.
pub open spec fn flying_spec(s: GameView, input: Input) -> GameView {
    let bat = bat_step(s.bat, input);
    let ball1 = bat_spec(s.ball, bat);
    let failed = in_danger_zone(ball1);
    let ball2 = walls_spec(ball1);
    let (ball3, map) = if ball2.y > FIELD_HEIGHT / 2 {
        blocks_spec(ball2, s.map)
    } else {
        (ball2, s.map)
    };
    GameView {
        map,
        bat,
        ball: integrate(ball3, input.dt as int),
        status: if failed {
            Status::Failed
        } else {
            s.status
        },
    }
}

/// Before the start: a pressed arrow key launches the ball its way (left
/// wins when both are held); otherwise nothing changes.
pub open spec fn waiting_spec(s: GameView, input: Input) -> GameView {
    if input.left || input.right {
        let vx = if input.left {
            -BALL_DEF_VX
        } else {
            BALL_DEF_VX as int
        };
        GameView {
            ball: Ball { vx: vx as i64, vy: BALL_DEF_VY, ..s.ball },
            status: Status::Started,
            ..s
        }
    } else {
        s
    }
}

/// One step of the game for the given input.
pub open spec fn step(s: GameView, input: Input) -> GameView {
    match s.status {
        Status::NotStarted => waiting_spec(s, input),
        Status::Started => flying_spec(s, input),
        Status::Failed => s,
    }
}

/// The ball resting on the bat at the start of a game.
pub open spec fn rest_ball() -> Ball {
    Ball {
        x: (FIELD_WIDTH / 2) as i64,
        y: (BAT_Y + BAT_HEIGHT / 2 + BALL_RADIUS) as i64,
        vx: 0,
        vy: 0,
    }
}

/// Distance covered in `dt` microseconds at velocity `v`.
pub fn travel(v: i64, dt: u32) -> (d: i64)
    requires
        -BALL_MAX_SPEED <= v <= BALL_MAX_SPEED,
    ensures
        d == displacement(v as int, dt as int),
        -MAX_STEP <= d <= MAX_STEP,
{
    proof {
        let m = BALL_MAX_SPEED as int;
        assert(-m * 0xffff_ffff <= v * dt <= m * 0xffff_ffff) by (nonlinear_arith)
            requires
                -m <= v <= m,
                0 <= dt <= 0xffff_ffff,
        ;
    }
    let p: i128 = v as i128 * dt as i128;
    let d = floor_div(p, MICROS as i128);
    proof {
        lemma_fundamental_div_mod(p as int, MICROS as int);
        lemma_mod_bound(p as int, MICROS as int);
    }
    d as i64
}

/// Moves the bat for one step of the given input.
pub fn move_bat(bat: &Bat, input: &Input) -> (r: Bat)
    requires
        bat.wf(),
    ensures
        r == bat_step(*bat, *input),
        r.wf(),
{
    let a: i128 = if input.left && !input.right {
        -(BAT_ACCEL as i128)
    } else if input.right && !input.left {
        BAT_ACCEL as i128
    } else {
        0
    };
    let dt = input.dt as i128;
    proof {
        assert(-1_700_000 * MICROS <= bat.v * MICROS <= 1_700_000 * MICROS) by (nonlinear_arith)
            requires
                -1_700_000 <= bat.v <= 1_700_000,
                MICROS == 1_000_000,
        ;
    }
    let vm: i128 = bat.v as i128 * MICROS as i128;
    proof {
        assert(-900_000 * 0xffff_ffff <= a * dt <= 900_000 * 0xffff_ffff) by (nonlinear_arith)
            requires
                -900_000 <= a <= 900_000,
                0 <= dt <= 0xffff_ffff,
        ;
    }
    let t: i128 = vm + a * dt;
    let raw = mul_div(t, BAT_BRAKING_NUM as i128, (BAT_BRAKING_DEN * MICROS) as i128);
    proof {
        assert(t * BAT_BRAKING_NUM == BAT_BRAKING_NUM * t);
    }
    let v: i64 = if raw < -(BAT_MAX_SPEED as i128) {
        -BAT_MAX_SPEED
    } else if raw > BAT_MAX_SPEED as i128 {
        BAT_MAX_SPEED
    } else {
        raw as i64
    };
    let x = bat.x as i128 + travel(v, input.dt) as i128;
    if x < (BAT_WIDTH / 2) as i128 {
        Bat { x: BAT_WIDTH / 2, v: 0 }
    } else if x > (FIELD_WIDTH - BAT_WIDTH / 2) as i128 {
        Bat { x: FIELD_WIDTH - BAT_WIDTH / 2, v: 0 }
    } else {
        Bat { x: x as i64, v }
    }
}

/// Whatever the input and however long the step, the bat ends the step
/// within the field, half its width from each side wall.
pub proof fn lemma_bat_stays_in_field(bat: Bat, input: Input)
    ensures
        BAT_WIDTH / 2 <= bat_step(bat, input).x <= FIELD_WIDTH - BAT_WIDTH / 2,
{
}

/// A step of the game removes at most one block and brings in none.
pub proof fn lemma_step_only_removes_blocks(s: GameView, input: Input)
    ensures
        step(s, input).map.len() == s.map.len() || step(s, input).map.len() + 1 == s.map.len(),
        forall|j: int|
            0 <= j < step(s, input).map.len() ==> exists|i: int|
                0 <= i < s.map.len() && s.map[i] == #[trigger] step(s, input).map[j],
{
    if s.status == Status::Started {
        let ball = walls_spec(bat_spec(s.ball, bat_step(s.bat, input)));
        lemma_blocks_only_shrink(ball, s.map);
    } else {
        assert forall|j: int| 0 <= j < step(s, input).map.len() implies exists|i: int|
            0 <= i < s.map.len() && s.map[i] == #[trigger] step(s, input).map[j] by {
            assert(s.map[j] == step(s, input).map[j]);
        }
    }
}

/// Position of a status in the lifecycle.
pub open spec fn status_rank(st: Status) -> int {
    match st {
        Status::NotStarted => 0,
        Status::Started => 1,
        Status::Failed => 2,
    }
}

/// The game after the given inputs, one step each, in order.
pub open spec fn run(s: GameView, inputs: Seq<Input>) -> GameView
    decreases inputs.len(),
{
    if inputs.len() == 0 {
        s
    } else {
        run(step(s, inputs[0]), inputs.drop_first())
    }
}

/// One step moves the status at most one place forward in
/// `NotStarted -> Started -> Failed` and never back; a lost game does not
/// change at all.
pub proof fn lemma_step_status(s: GameView, input: Input)
    ensures
        status_rank(s.status) <= status_rank(step(s, input).status) <= status_rank(s.status) + 1,
        s.status == Status::Failed ==> step(s, input) == s,
{
}

/// No sequence of inputs moves the status backwards, and no sequence of
/// inputs changes a lost game.
pub proof fn lemma_run_status(s: GameView, inputs: Seq<Input>)
    ensures
        status_rank(s.status) <= status_rank(run(s, inputs).status),
        s.status == Status::Failed ==> run(s, inputs) == s,
    decreases inputs.len(),
{
    if inputs.len() > 0 {
        lemma_step_status(s, inputs[0]);
        lemma_run_status(step(s, inputs[0]), inputs.drop_first());
    }
}

/// Advances the game by one frame: a lost game stays as it is, a game not
/// yet started waits for a key, a running game runs its physics.
pub fn simulate(state: State, input: Input) -> (r: State)
    requires
        state.wf(),
    ensures
        r.wf(),
        r@ == step(state@, input),
        BAT_WIDTH / 2 <= r@.bat.x <= FIELD_WIDTH - BAT_WIDTH / 2,
        r@.map.len() == state@.map.len() || r@.map.len() + 1 == state@.map.len(),
{
    match state.status {
        Status::NotStarted => waiting(state, input),
        Status::Started => flying(state, input),
        Status::Failed => state,
    }
}

fn waiting(state: State, input: Input) -> (r: State)
    requires
        state.wf(),
        state@.status == Status::NotStarted,
    ensures
        r.wf(),
        r@ == waiting_spec(state@, input),
{
    let mut state = state;
    if input.left || input.right {
        state.ball.vx = if input.left {
            -BALL_DEF_VX
        } else {
            BALL_DEF_VX
        };
        state.ball.vy = BALL_DEF_VY;
        state.status = Status::Started;
    }
    state
}

fn flying(state: State, input: Input) -> (r: State)
    requires
        state.wf(),
        state@.status == Status::Started,
    ensures
        r.wf(),
        r@ == flying_spec(state@, input),
        r@.map.len() == state@.map.len() || r@.map.len() + 1 == state@.map.len(),
{
    let bat = move_bat(&state.bat, &input);
    let ball = collide_with_bat(state.ball, &bat);
    let failed = collide_with_danger_zone(&ball);
    let ball = collide_with_walls(ball);
    let (ball, map) = if ball.y > FIELD_HEIGHT / 2 {
        collide_with_blocks(ball, state.map)
    } else {
        (ball, state.map)
    };
    let dx = travel(ball.vx, input.dt);
    let dy = travel(ball.vy, input.dt);
    let ball = Ball { x: ball.x + dx, y: ball.y + dy, ..ball };
    let status = if failed {
        Status::Failed
    } else {
        state.status
    };
    State { map, bat, ball, status }
}

impl State {
    pub open spec fn wf(&self) -> bool {
        self@.wf()
    }

    /// A new game on the given layout: the bat in the middle, the ball at
    /// rest on it, not started.
    pub fn new(map: BlockMap) -> (r: State)
        requires
            blocks_wf(map@),
        ensures
            r.wf(),
            r@ == (GameView {
                map: map@,
                bat: Bat { x: (FIELD_WIDTH / 2) as i64, v: 0 },
                ball: rest_ball(),
                status: Status::NotStarted,
            }),
    {
        let bat = Bat { x: FIELD_WIDTH / 2, v: 0 };
        let ball = Ball {
            x: FIELD_WIDTH / 2,
            y: BAT_Y + BAT_HEIGHT / 2 + BALL_RADIUS,
            vx: 0,
            vy: 0,
        };
        State { map, bat, ball, status: Status::NotStarted }
    }

    /// A game assembled from its parts.
    pub fn from_parts(map: BlockMap, bat: Bat, ball: Ball, status: Status) -> (r: State)
        requires
            (GameView { map: map@, bat, ball, status }).wf(),
        ensures
            r@ == (GameView { map: map@, bat, ball, status }),
    {
        State { map, bat, ball, status }
    }

    /// The blocks still standing.
    pub fn map(&self) -> (r: &BlockMap)
        ensures
            r@ == self@.map,
    {
        &self.map
    }

    pub fn bat(&self) -> (r: Bat)
        ensures
            r == self@.bat,
    {
        self.bat
    }

    pub fn ball(&self) -> (r: Ball)
        ensures
            r == self@.ball,
    {
        self.ball
    }

    pub fn status(&self) -> (r: Status)
        ensures
            r == self@.status,
    {
        self.status
    }
}

} // verus!
