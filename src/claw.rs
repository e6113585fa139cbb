//! The claw: the lift that takes it down and up, and the carriage that the
//! player drives and that travels back to base after each attempt.

use vstd::arithmetic::div_mod::lemma_fundamental_div_mod;
use vstd::prelude::*;

use crate::collision::{starts_with, CollisionEvent};

verus! {

/// A point in the machine, in millimetres.
#[derive(Clone, Copy, Debug, PartialEq, Eq, Structural)]
pub struct Pos {
    pub x: i64,
    pub y: i64,
    pub z: i64,
}

/// The phases of the claw's vertical lift.
#[derive(Clone, Copy, Debug, PartialEq, Eq, Structural)]
pub enum ClawLiftState {
    /// Parked: nothing moves.
    Off,
    /// Going down until the stopper touches the floor.
    Down,
    /// Resting at the bottom; the milliseconds left to wait.
    Wait(u32),
    /// Going back up to the start height.
    Up,
}

/// The claw's vertical lift: its phase and its height.
#[derive(Clone, Copy, Debug, PartialEq, Eq, Structural)]
pub struct ClawLift {
    pub state: ClawLiftState,
    pub height: i64,
}

/// A toy's sensor collider, with the toy it belongs to (`None` where the
/// toy could not be found).
#[derive(Clone, Copy, Debug, PartialEq, Eq, Structural)]
pub struct ToySensorLink {
    pub sensor: u64,
    pub toy: Option<u64>,
}

/// The colliders that the lift watches while it goes down.
pub struct LiftColliders {
    pub stopper: Option<u64>,
    pub sensor: Option<u64>,
    pub toy_sensors: Vec<ToySensorLink>,
}

/// What one tick of the lift asks of the rest of the machine.
pub struct LiftTick {
    /// The toys caught this tick, in the order the contacts were seen; the
    /// claw sensor is to be glued to each.
    pub caught: Vec<u64>,
    /// The lift has just reached the top: the glued toy is to be let go and
    /// the carriage is to return to base.
    pub ascended: bool,
}

/// Height at which the lift starts and parks.
pub const START_HEIGHT: i64 = 3650;

/// Lift speed, millimetres per millisecond.
pub const LIFT_SPEED: i64 = 1;

/// How long the claw rests at the bottom, in milliseconds.
pub const DWELL_MS: u32 = 1000;

/// The toys whose sensor takes part in contact `e` together with the claw
/// sensor `s`, among the first `n` toy sensors, in their order.
pub open spec fn toys_touched(toys: Seq<ToySensorLink>, e: CollisionEvent, s: u64, n: int) -> Seq<u64>
    decreases n,
{
    if n <= 0 {
        seq![]
    } else {
        let prev = toys_touched(toys, e, s, n - 1);
        let t = toys[n - 1];
        if starts_with(e, s) && starts_with(e, t.sensor) && t.toy.is_some() {
            prev.push(t.toy.unwrap())
        } else {
            prev
        }
    }
}

/// The toys caught by contact `e`.
pub open spec fn catches_in(
    e: CollisionEvent,
    sensor: Option<u64>,
    toys: Seq<ToySensorLink>,
) -> Seq<u64> {
    match sensor {
        Some(s) => toys_touched(toys, e, s, toys.len() as int),
        None => seq![],
    }
}

/// Whether the stopper touched the floor among the first `n` events.
pub open spec fn stopped_within(events: Seq<CollisionEvent>, stopper: u64, n: int) -> bool
    decreases n,
{
    n > 0 && (stopped_within(events, stopper, n - 1) || starts_with(events[n - 1], stopper))
}

/// How many of the first `n` events the lift reads: all of them, or up to
/// and including the first stopper contact.
pub open spec fn events_read(events: Seq<CollisionEvent>, stopper: u64, n: int) -> int
    decreases n,
{
    if n <= 0 {
        0
    } else if stopped_within(events, stopper, n - 1) {
        events_read(events, stopper, n - 1)
    } else {
        n
    }
}

/// The toys caught by the first `n` events, in order.
pub open spec fn caught_upto(
    events: Seq<CollisionEvent>,
    sensor: Option<u64>,
    toys: Seq<ToySensorLink>,
    n: int,
) -> Seq<u64>
    decreases n,
{
    if n <= 0 {
        seq![]
    } else {
        caught_upto(events, sensor, toys, n - 1) + catches_in(events[n - 1], sensor, toys)
    }
}

/// The toys caught by one tick's events while the lift goes down.
pub open spec fn descent_catches(
    events: Seq<CollisionEvent>,
    stopper: Option<u64>,
    sensor: Option<u64>,
    toys: Seq<ToySensorLink>,
) -> Seq<u64> {
    match stopper {
        Some(st) => caught_upto(events, sensor, toys, events_read(events, st, events.len() as int)),
        None => seq![],
    }
}

/// Whether one tick's events bring the descent to a stop.
pub open spec fn descent_stops(events: Seq<CollisionEvent>, stopper: Option<u64>) -> bool {
    match stopper {
        Some(st) => stopped_within(events, st, events.len() as int),
        None => false,
    }
}

/// `height` after going down for `dt` milliseconds (held at the lowest
/// value an `i64` can take).
pub open spec fn lowered(height: i64, dt: u32) -> i64 {
    if height - LIFT_SPEED * dt < i64::MIN {
        i64::MIN
    } else {
        (height - LIFT_SPEED * dt) as i64
    }
}

/// `height` after going up for `dt` milliseconds, held at the start height.
pub open spec fn raised(height: i64, dt: u32) -> i64 {
    if height + LIFT_SPEED * dt >= START_HEIGHT {
        START_HEIGHT
    } else {
        (height + LIFT_SPEED * dt) as i64
    }
}

impl ClawLift {
    /// The lift's state after one tick of `dt` milliseconds that saw `events`.
    pub open spec fn next(self, dt: u32, events: Seq<CollisionEvent>, stopper: Option<u64>) -> ClawLift {
        match self.state {
            ClawLiftState::Off => self,
            ClawLiftState::Down => ClawLift {
                state: if descent_stops(events, stopper) {
                    ClawLiftState::Wait(DWELL_MS)
                } else {
                    ClawLiftState::Down
                },
                height: lowered(self.height, dt),
            },
            ClawLiftState::Wait(left) => ClawLift {
                state: if left > 0 {
                    ClawLiftState::Wait(if dt >= left { 0 } else { (left - dt) as u32 })
                } else {
                    ClawLiftState::Up
                },
                height: self.height,
            },
            ClawLiftState::Up => {
                let h = raised(self.height, dt);
                ClawLift {
                    state: if h == START_HEIGHT { ClawLiftState::Off } else { ClawLiftState::Up },
                    height: h,
                }
            },
        }
    }

    /// Whether one tick of `dt` milliseconds brings the lift to the top.
    pub open spec fn ascends(self, dt: u32) -> bool {
        self.state == ClawLiftState::Up && raised(self.height, dt) == START_HEIGHT
    }

    /// The lift never stands above its start height.
    pub open spec fn wf(self) -> bool {
        self.height <= START_HEIGHT
    }

    /// A parked lift at the start height.
    pub open spec fn new_spec() -> ClawLift {
        ClawLift { state: ClawLiftState::Off, height: START_HEIGHT }
    }

    /// A parked lift at the start height.
    pub fn new() -> (r: ClawLift)
        ensures
            r == ClawLift::new_spec(),
            r.wf(),
    {
        ClawLift { state: ClawLiftState::Off, height: START_HEIGHT }
    }

    /// Sends the lift down.
    pub fn release(&mut self)
        ensures
            final(self).state == ClawLiftState::Down,
            final(self).height == old(self).height,
    {
        self.state = ClawLiftState::Down;
    }

    /// Runs the lift for one tick of `dt` milliseconds that saw `events`.
    ///
    /// Going down, the events are read in order: a contact between the claw
    /// sensor and a toy's sensor catches that toy, and the first contact of
    /// the stopper ends the descent and the reading. Resting, the wait counts
    /// down, and the lift goes up on the tick after it has run out. Going up,
    /// the height is held at the start height, where the lift parks and
    /// reports that it has ascended.
    pub fn tick(&mut self, dt: u32, events: &Vec<CollisionEvent>, colliders: &LiftColliders) -> (r:
        LiftTick)
        requires
            old(self).wf(),
        ensures
            *final(self) == old(self).next(dt, events@, colliders.stopper),
            final(self).wf(),
            r.caught@ == (if old(self).state == ClawLiftState::Down {
                descent_catches(events@, colliders.stopper, colliders.sensor, colliders.toy_sensors@)
            } else {
                seq![]
            }),
            r.ascended == old(self).ascends(dt),
    {
        let mut caught: Vec<u64> = Vec::new();
        let mut ascended = false;
        match self.state {
            ClawLiftState::Off => {},
            ClawLiftState::Down => {
                self.height = lower(self.height, dt);
                if let Some(stopper) = colliders.stopper {
                    let stopped = read_descent_events(events, stopper, colliders, &mut caught);
                    if stopped {
                        self.state = ClawLiftState::Wait(DWELL_MS);
                    }
                }
            },
            ClawLiftState::Wait(left) => {
                if left > 0 {
                    self.state = ClawLiftState::Wait(if dt >= left { 0 } else { left - dt });
                } else {
                    self.state = ClawLiftState::Up;
                }
            },
            ClawLiftState::Up => {
                self.height = raise(self.height, dt);
                if self.height == START_HEIGHT {
                    self.state = ClawLiftState::Off;
                    ascended = true;
                }
            },
        }
        LiftTick { caught, ascended }
    }
}

fn lower(height: i64, dt: u32) -> (r: i64)
    ensures
        r == lowered(height, dt),
{
    let step = LIFT_SPEED * (dt as i64);
    if height < i64::MIN + step {
        i64::MIN
    } else {
        height - step
    }
}

fn raise(height: i64, dt: u32) -> (r: i64)
    requires
        height <= START_HEIGHT,
    ensures
        r == raised(height, dt),
{
    let step = LIFT_SPEED * (dt as i64);
    if height >= START_HEIGHT - step {
        START_HEIGHT
    } else {
        height + step
    }
}

proof fn lemma_stopped_monotone(events: Seq<CollisionEvent>, stopper: u64, m: int, n: int)
    requires
        m <= n,
        stopped_within(events, stopper, m),
    ensures
        stopped_within(events, stopper, n),
    decreases n - m,
{
    if m < n {
        lemma_stopped_monotone(events, stopper, m, n - 1);
    }
}

proof fn lemma_read_after_stop(events: Seq<CollisionEvent>, stopper: u64, m: int, n: int)
    requires
        0 < m <= n,
        stopped_within(events, stopper, m),
        !stopped_within(events, stopper, m - 1),
    ensures
        events_read(events, stopper, n) == m,
    decreases n - m,
{
    if m < n {
        lemma_read_after_stop(events, stopper, m, n - 1);
        lemma_stopped_monotone(events, stopper, m, n - 1);
    }
}

proof fn lemma_read_all(events: Seq<CollisionEvent>, stopper: u64, n: int)
    requires
        0 <= n,
        !stopped_within(events, stopper, n),
    ensures
        events_read(events, stopper, n) == n,
{
    if n > 0 {
        assert(!stopped_within(events, stopper, n - 1));
    }
}

/// The toys that contact `e` catches, appended to `caught`.
fn catch_toys(e: &CollisionEvent, colliders: &LiftColliders, caught: &mut Vec<u64>)
    ensures
        final(caught)@ == old(caught)@ + catches_in(*e, colliders.sensor, colliders.toy_sensors@),
{
    if let Some(sensor) = colliders.sensor {
        let ghost start = caught@;
        let touches_sensor = e.starts_with(sensor);
        let n = colliders.toy_sensors.len();
        let mut i: usize = 0;
        while i < n
            invariant
                n == colliders.toy_sensors@.len(),
                0 <= i <= n,
                touches_sensor == starts_with(*e, sensor),
                caught@ == start + toys_touched(colliders.toy_sensors@, *e, sensor, i as int),
            decreases n - i,
        {
            let link = colliders.toy_sensors[i];
            if touches_sensor && e.starts_with(link.sensor) {
                if let Some(toy) = link.toy {
                    caught.push(toy);
                }
            }
            i = i + 1;
            assert(caught@ == start + toys_touched(colliders.toy_sensors@, *e, sensor, i as int));
        }
    } else {
        assert(caught@ == old(caught)@ + catches_in(*e, colliders.sensor, colliders.toy_sensors@));
    }
}

/// Reads one tick's events during a descent: collects the toys caught, and
/// stops at the first contact of the stopper. Returns whether it stopped.
fn read_descent_events(
    events: &Vec<CollisionEvent>,
    stopper: u64,
    colliders: &LiftColliders,
    caught: &mut Vec<u64>,
) -> (stopped: bool)
    requires
        old(caught)@ == Seq::<u64>::empty(),
    ensures
        stopped == stopped_within(events@, stopper, events@.len() as int),
        final(caught)@ == caught_upto(
            events@,
            colliders.sensor,
            colliders.toy_sensors@,
            events_read(events@, stopper, events@.len() as int),
        ),
{
    let n = events.len();
    let mut i: usize = 0;
    while i < n
        invariant
            n == events@.len(),
            0 <= i <= n,
            !stopped_within(events@, stopper, i as int),
            caught@ == caught_upto(events@, colliders.sensor, colliders.toy_sensors@, i as int),
        decreases n - i,
    {
        let e = &events[i];
        catch_toys(e, colliders, caught);
        if e.starts_with(stopper) {
            proof {
                assert(stopped_within(events@, stopper, i + 1));
                lemma_read_after_stop(events@, stopper, i + 1, n as int);
                lemma_stopped_monotone(events@, stopper, i + 1, n as int);
            }
            return true;
        }
        i = i + 1;
    }
    proof {
        lemma_read_all(events@, stopper, n as int);
    }
    false
}

/// The modes of the claw's horizontal carriage.
#[derive(Clone, Copy, Debug, PartialEq, Eq, Structural)]
pub enum ClawControllerState {
    /// The carriage stands still and ignores input.
    Locked,
    /// The player drives the carriage.
    Manual,
    /// The carriage travels back to base from the point it started at.
    ReturnToBase(Pos),
}

/// The claw's horizontal carriage.
#[derive(Clone, Copy, Debug, PartialEq, Eq, Structural)]
pub struct ClawController(pub ClawControllerState);

/// What one tick of the carriage's return did.
#[derive(Clone, Copy, Debug, PartialEq, Eq, Structural)]
pub enum ReturnTick {
    /// The carriage is not returning: nothing to do.
    Idle,
    /// The carriage is to move to this point.
    Moved(Pos),
    /// The carriage has reached base and is locked there.
    Arrived,
}

/// Base point of the carriage, in millimetres.
pub const BASE_X: i64 = 540;
pub const BASE_Y: i64 = 3650;
pub const BASE_Z: i64 = 540;

/// Time the carriage takes to travel back to base, in milliseconds.
pub const RETURN_MS: i64 = 1200;

pub open spec fn abs(a: int) -> int {
    if a < 0 { -a } else { a }
}

pub open spec fn max3(a: int, b: int, c: int) -> int {
    if a >= b && a >= c { a } else if b >= c { b } else { c }
}

/// One tick's step along an axis whose whole way to base is `way`: the
/// share of `way` that `dt` milliseconds cover, rounded away from zero.
pub open spec fn step_along(way: int, dt: int) -> int {
    if way >= 0 {
        (way * dt + RETURN_MS - 1) / (RETURN_MS as int)
    } else {
        -((-way * dt + RETURN_MS - 1) / (RETURN_MS as int))
    }
}

/// Moves by `step` towards base along an axis where `left` remains to go,
/// never past base.
pub open spec fn toward(left: int, step: int) -> int {
    if left >= 0 {
        if abs(step) >= left { left } else { abs(step) }
    } else {
        if abs(step) >= -left { left } else { -abs(step) }
    }
}

/// Distance to base along the farthest axis.
pub open spec fn dist_to_base(p: Pos) -> int {
    max3(abs(BASE_X - p.x), abs(BASE_Y - p.y), abs(BASE_Z - p.z))
}

/// The largest axis of one tick's step for a return from `origin`.
pub open spec fn step_size(origin: Pos, dt: int) -> int {
    max3(
        abs(step_along(BASE_X - origin.x, dt)),
        abs(step_along(BASE_Y - origin.y, dt)),
        abs(step_along(BASE_Z - origin.z, dt)),
    )
}

/// One tick of a return to base that started at `origin`, from `p`:
/// `None` where `p` is no farther from base than one step (the carriage
/// arrives), else the point it moves to.
pub open spec fn return_step(origin: Pos, p: Pos, dt: int) -> Option<Pos> {
    if dist_to_base(p) <= step_size(origin, dt) {
        None
    } else {
        Some(
            Pos {
                x: (p.x + toward(BASE_X - p.x, step_along(BASE_X - origin.x, dt))) as i64,
                y: (p.y + toward(BASE_Y - p.y, step_along(BASE_Y - origin.y, dt))) as i64,
                z: (p.z + toward(BASE_Z - p.z, step_along(BASE_Z - origin.z, dt))) as i64,
            },
        )
    }
}

/// A tick of `dt` milliseconds of a carriage in `state` at `current`: its
/// next mode, and what it did.
pub open spec fn return_outcome(state: ClawControllerState, current: Pos, dt: int) -> (
    ClawControllerState,
    ReturnTick,
) {
    match state {
        ClawControllerState::ReturnToBase(origin) => match return_step(origin, current, dt) {
            None => (ClawControllerState::Locked, ReturnTick::Arrived),
            Some(p) => (state, ReturnTick::Moved(p)),
        },
        _ => (state, ReturnTick::Idle),
    }
}

/// The base point.
pub fn base_pos() -> (r: Pos)
    ensures
        r == (Pos { x: BASE_X, y: BASE_Y, z: BASE_Z }),
{
    Pos { x: BASE_X, y: BASE_Y, z: BASE_Z }
}

fn abs_i128(a: i128) -> (r: i128)
    requires
        a > i128::MIN,
    ensures
        r == abs(a as int),
{
    if a < 0 { -a } else { a }
}

fn max3_i128(a: i128, b: i128, c: i128) -> (r: i128)
    ensures
        r == max3(a as int, b as int, c as int),
{
    if a >= b && a >= c { a } else if b >= c { b } else { c }
}

fn step_along_exec(way: i128, dt: u32) -> (r: i128)
    requires
        -0x1_0000_0000_0000_0000 <= way <= 0x1_0000_0000_0000_0000,
    ensures
        r == step_along(way as int, dt as int),
        -0x2_0000_0000_0000_0000_0000_0000 <= r <= 0x2_0000_0000_0000_0000_0000_0000,
{
    let d = dt as i128;
    proof {
        lemma_way_time_bound(way as int, dt as int);
        lemma_div_unit_le(way * dt + RETURN_MS - 1);
        lemma_div_unit_le(-way * dt + RETURN_MS - 1);
    }
    if way >= 0 {
        (way * d + (RETURN_MS as i128) - 1) / (RETURN_MS as i128)
    } else {
        -((-way * d + (RETURN_MS as i128) - 1) / (RETURN_MS as i128))
    }
}

proof fn lemma_div_unit_le(x: int)
    ensures
        x >= 0 ==> 0 <= x / (RETURN_MS as int) <= x,
{
    if x >= 0 {
        assert(0 <= x / 1200 <= x) by (nonlinear_arith)
            requires
                x >= 0,
        ;
    }
}

proof fn lemma_way_time_bound(way: int, dt: int)
    requires
        -0x1_0000_0000_0000_0000 <= way <= 0x1_0000_0000_0000_0000,
        0 <= dt <= 0xffff_ffff,
    ensures
        -0x1_0000_0000_0000_0000_0000_0000 <= way * dt <= 0x1_0000_0000_0000_0000_0000_0000,
        (-way) * dt == -(way * dt),
{
    assert((-way) * dt == -(way * dt)) by (nonlinear_arith);
    assert(-0x1_0000_0000_0000_0000_0000_0000 <= way * dt <= 0x1_0000_0000_0000_0000_0000_0000)
        by (nonlinear_arith)
        requires
            -0x1_0000_0000_0000_0000 <= way <= 0x1_0000_0000_0000_0000,
            0 <= dt <= 0xffff_ffff,
    ;
}

fn toward_exec(left: i128, step: i128) -> (r: i128)
    requires
        left > i128::MIN,
        step > i128::MIN,
    ensures
        r == toward(left as int, step as int),
{
    let a = abs_i128(step);
    if left >= 0 {
        if a >= left { left } else { a }
    } else {
        if a >= -left { left } else { -a }
    }
}

impl ClawController {
    /// A locked carriage.
    pub fn new() -> (r: ClawController)
        ensures
            r.0 == ClawControllerState::Locked,
    {
        ClawController(ClawControllerState::Locked)
    }

    /// Whether the player's input may move the carriage.
    pub fn accepts_input(&self) -> (r: bool)
        ensures
            r == (self.0 == ClawControllerState::Manual),
    {
        match self.0 {
            ClawControllerState::Manual => true,
            _ => false,
        }
    }

    /// Starts a return to base from `current`.
    pub fn begin_return(&mut self, current: Pos)
        ensures
            final(self).0 == ClawControllerState::ReturnToBase(current),
    {
        self.0 = ClawControllerState::ReturnToBase(current);
    }

    /// Runs one tick of `dt` milliseconds of a return to base with the
    /// carriage at `current`. Each axis moves towards base by the share of
    /// its whole way that `dt` covers, never past base; once the carriage is
    /// no farther from base than one such step, it locks and arrives.
    pub fn return_tick(&mut self, current: Pos, dt: u32) -> (r: ReturnTick)
        ensures
            (final(self).0, r) == return_outcome(old(self).0, current, dt as int),
    {
        match self.0 {
            ClawControllerState::ReturnToBase(origin) => {
                let sx = step_along_exec(BASE_X as i128 - origin.x as i128, dt);
                let sy = step_along_exec(BASE_Y as i128 - origin.y as i128, dt);
                let sz = step_along_exec(BASE_Z as i128 - origin.z as i128, dt);
                let lx = BASE_X as i128 - current.x as i128;
                let ly = BASE_Y as i128 - current.y as i128;
                let lz = BASE_Z as i128 - current.z as i128;
                let dist = max3_i128(abs_i128(lx), abs_i128(ly), abs_i128(lz));
                let step = max3_i128(abs_i128(sx), abs_i128(sy), abs_i128(sz));
                if dist <= step {
                    self.0 = ClawControllerState::Locked;
                    ReturnTick::Arrived
                } else {
                    let nx = current.x as i128 + toward_exec(lx, sx);
                    let ny = current.y as i128 + toward_exec(ly, sy);
                    let nz = current.z as i128 + toward_exec(lz, sz);
                    ReturnTick::Moved(Pos { x: nx as i64, y: ny as i64, z: nz as i64 })
                }
            },
            _ => ReturnTick::Idle,
        }
    }
}

/// Whether `left`, what remains to go along an axis, lies between the whole
/// way `way` and zero.
pub open spec fn within_way(way: int, left: int) -> bool {
    if way >= 0 {
        0 <= left <= way
    } else {
        way <= left <= 0
    }
}

/// Whether `p` lies on the way from `origin` to base, axis by axis.
pub open spec fn on_the_way(origin: Pos, p: Pos) -> bool {
    &&& within_way(BASE_X - origin.x, BASE_X - p.x)
    &&& within_way(BASE_Y - origin.y, BASE_Y - p.y)
    &&& within_way(BASE_Z - origin.z, BASE_Z - p.z)
}

/// Whether a return from `origin`, with the carriage at `p` and ticks of
/// `dt` milliseconds, arrives within `n` ticks.
pub open spec fn arrives_within(origin: Pos, p: Pos, dt: int, n: nat) -> bool
    decreases n,
{
    n > 0 && match return_step(origin, p, dt) {
        None => true,
        Some(q) => arrives_within(origin, q, dt, (n - 1) as nat),
    }
}

proof fn lemma_axis_step(way: int, left: int, dt: int, base: int, cur: int)
    requires
        dt >= 0,
        left == base - cur,
        i64::MIN <= base <= i64::MAX,
        i64::MIN <= cur <= i64::MAX,
    ensures
        i64::MIN <= cur + toward(left, step_along(way, dt)) <= i64::MAX,
        abs(left - toward(left, step_along(way, dt))) <= abs(left),
        within_way(way, left) ==> within_way(way, left - toward(left, step_along(way, dt))),
        within_way(way, left) && dt >= 1 && left != 0 ==> abs(
            left - toward(left, step_along(way, dt)),
        ) < abs(left),
{
    let st = step_along(way, dt);
    if way >= 0 {
        assert(way * dt >= 0) by (nonlinear_arith)
            requires
                way >= 0,
                dt >= 0,
        ;
        lemma_div_unit_le(way * dt + RETURN_MS - 1);
        if way != 0 && dt >= 1 {
            assert(way * dt >= 1) by (nonlinear_arith)
                requires
                    way >= 1,
                    dt >= 1,
            ;
            assert((way * dt + RETURN_MS - 1) / (RETURN_MS as int) >= 1);
        }
    } else {
        assert((-way) * dt >= 1 || dt == 0) by (nonlinear_arith)
            requires
                way < 0,
                dt >= 0,
        ;
        lemma_div_unit_le(-way * dt + RETURN_MS - 1);
        if dt >= 1 {
            assert((-way * dt + RETURN_MS - 1) / (RETURN_MS as int) >= 1);
        }
    }
}

/// While the carriage returns, its distance to base never grows: each tick
/// either arrives or moves to a point no farther from base.
pub proof fn lemma_return_never_recedes(origin: Pos, p: Pos, dt: int)
    requires
        dt >= 0,
    ensures
        match return_step(origin, p, dt) {
            Some(q) => dist_to_base(q) <= dist_to_base(p),
            None => true,
        },
{
    lemma_axis_step(BASE_X - origin.x, BASE_X - p.x, dt, BASE_X as int, p.x as int);
    lemma_axis_step(BASE_Y - origin.y, BASE_Y - p.y, dt, BASE_Y as int, p.y as int);
    lemma_axis_step(BASE_Z - origin.z, BASE_Z - p.z, dt, BASE_Z as int, p.z as int);
}

/// A return to base from any origin arrives: with the carriage on its way
/// (where it starts) and ticks of at least a millisecond, it locks at base
/// within one tick more than its distance to base, in millimetres, and
/// stays on its way meanwhile.
pub proof fn lemma_return_arrives(origin: Pos, p: Pos, dt: int)
    requires
        dt >= 1,
        on_the_way(origin, p),
    ensures
        arrives_within(origin, p, dt, (dist_to_base(p) + 1) as nat),
        match return_step(origin, p, dt) {
            Some(q) => on_the_way(origin, q) && dist_to_base(q) < dist_to_base(p),
            None => true,
        },
    decreases dist_to_base(p),
{
    lemma_axis_step(BASE_X - origin.x, BASE_X - p.x, dt, BASE_X as int, p.x as int);
    lemma_axis_step(BASE_Y - origin.y, BASE_Y - p.y, dt, BASE_Y as int, p.y as int);
    lemma_axis_step(BASE_Z - origin.z, BASE_Z - p.z, dt, BASE_Z as int, p.z as int);
    match return_step(origin, p, dt) {
        Some(q) => {
            assert(dist_to_base(q) < dist_to_base(p));
            lemma_return_arrives(origin, q, dt);
            lemma_arrives_more(origin, q, dt, (dist_to_base(q) + 1) as nat, dist_to_base(p) as nat);
        },
        None => {},
    }
}

proof fn lemma_arrives_more(origin: Pos, p: Pos, dt: int, m: nat, n: nat)
    requires
        m <= n,
        arrives_within(origin, p, dt, m),
    ensures
        arrives_within(origin, p, dt, n),
    decreases m,
{
    match return_step(origin, p, dt) {
        Some(q) => lemma_arrives_more(origin, q, dt, (m - 1) as nat, (n - 1) as nat),
        None => {},
    }
}

/// When the lift is going down and a tick's events hold a contact of the
/// stopper, the lift rests for the full dwell next, whatever toys the same
/// events catch.
pub proof fn lemma_stopper_contact_dwells(
    lift: ClawLift,
    dt: u32,
    events: Seq<CollisionEvent>,
    stopper: u64,
    i: int,
)
    requires
        lift.state == ClawLiftState::Down,
        0 <= i < events.len(),
        starts_with(events[i], stopper),
    ensures
        lift.next(dt, events, Some(stopper)).state == ClawLiftState::Wait(DWELL_MS),
{
    assert(stopped_within(events, stopper, i + 1));
    lemma_stopped_monotone(events, stopper, i + 1, events.len() as int);
}

/// The lift never rises above its start height: going up, a tick whose step
/// would overshoot leaves it exactly at the start height.
pub proof fn lemma_lift_held_at_start(
    lift: ClawLift,
    dt: u32,
    events: Seq<CollisionEvent>,
    stopper: Option<u64>,
)
    requires
        lift.wf(),
    ensures
        lift.next(dt, events, stopper).wf(),
        lift.state == ClawLiftState::Up && lift.height + LIFT_SPEED * dt >= START_HEIGHT ==> lift.next(
            dt,
            events,
            stopper,
        ).height == START_HEIGHT,
{
}

/// Where the lift's body stands: above the carriage, at the lift's height.
pub fn lift_anchor(carriage: Pos, lift_height: i64) -> (r: Pos)
    ensures
        r == (Pos { x: carriage.x, y: lift_height, z: carriage.z }),
{
    Pos { x: carriage.x, y: lift_height, z: carriage.z }
}

/// Whether `left`, what remains to go along an axis whose whole way is
/// `way`, is no more than a return with `budget` milliseconds to go would
/// leave.
pub open spec fn on_time(way: int, left: int, budget: int) -> bool {
    within_way(way, left) && abs(left) * RETURN_MS <= abs(way) * (if budget > 0 { budget } else { 0 })
}

/// Whether the carriage at `p`, returning from `origin`, is where a return
/// with `budget` milliseconds to go would have it, or nearer.
pub open spec fn on_schedule(origin: Pos, p: Pos, budget: int) -> bool {
    &&& on_time(BASE_X - origin.x, BASE_X - p.x, budget)
    &&& on_time(BASE_Y - origin.y, BASE_Y - p.y, budget)
    &&& on_time(BASE_Z - origin.z, BASE_Z - p.z, budget)
}

proof fn lemma_step_covers_time(way: int, dt: int)
    requires
        dt >= 0,
    ensures
        abs(step_along(way, dt)) * RETURN_MS >= abs(way) * dt,
{
    let x = abs(way) * dt;
    assert(x >= 0) by (nonlinear_arith)
        requires
            x == abs(way) * dt,
            dt >= 0,
    ;
    assert((-way) * dt == -(way * dt)) by (nonlinear_arith);
    let y = x + RETURN_MS - 1;
    lemma_fundamental_div_mod(y, RETURN_MS as int);
    assert(abs(step_along(way, dt)) == y / (RETURN_MS as int));
}

proof fn lemma_axis_on_time(way: int, left: int, dt: int, budget: int, base: int, cur: int)
    requires
        dt >= 1,
        on_time(way, left, budget),
        left == base - cur,
        i64::MIN <= base <= i64::MAX,
        i64::MIN <= cur <= i64::MAX,
    ensures
        on_time(way, left - toward(left, step_along(way, dt)), budget - dt),
        budget <= 0 ==> left == 0,
{
    lemma_axis_step(way, left, dt, base, cur);
    lemma_step_covers_time(way, dt);
    let st = abs(step_along(way, dt));
    let nl = abs(left - toward(left, step_along(way, dt)));
    let w = abs(way);
    let b = if budget > 0 { budget } else { 0 };
    let b2 = if budget - dt > 0 { budget - dt } else { 0 };
    assert(w * b2 >= 0) by (nonlinear_arith)
        requires
            w >= 0,
            b2 >= 0,
    ;
    if budget <= 0 {
        assert(abs(left) * RETURN_MS <= 0) by (nonlinear_arith)
            requires
                abs(left) * RETURN_MS <= w * b,
                b == 0,
        ;
    }
    if nl > 0 {
        assert(nl == abs(left) - st);
        assert(nl * RETURN_MS <= w * b2) by (nonlinear_arith)
            requires
                nl == abs(left) - st,
                nl > 0,
                abs(left) * RETURN_MS <= w * b,
                st * RETURN_MS >= w * dt,
                b == if budget > 0 { budget } else { 0 },
                b2 == if budget - dt > 0 { budget - dt } else { 0 },
                w >= 0,
                dt >= 1,
        ;
    }
}

/// A return to base takes no more ticks than its time needs: from its
/// origin, with ticks of `dt` milliseconds, it locks at base within `n`
/// ticks whenever `n - 1` ticks cover the return time, however far the
/// origin lies from base.
pub proof fn lemma_return_on_time(origin: Pos, dt: int, n: nat)
    requires
        dt >= 1,
        n >= 1,
        (n - 1) * dt >= RETURN_MS,
    ensures
        arrives_within(origin, origin, dt, n),
{
    assert(abs(BASE_X - origin.x) * RETURN_MS <= abs(BASE_X - origin.x) * RETURN_MS);
    lemma_schedule_arrives(origin, origin, dt, RETURN_MS as int, n);
}

proof fn lemma_schedule_arrives(origin: Pos, p: Pos, dt: int, budget: int, n: nat)
    requires
        dt >= 1,
        n >= 1,
        (n - 1) * dt >= budget,
        on_schedule(origin, p, budget),
    ensures
        arrives_within(origin, p, dt, n),
    decreases n,
{
    lemma_axis_on_time(BASE_X - origin.x, BASE_X - p.x, dt, budget, BASE_X as int, p.x as int);
    lemma_axis_on_time(BASE_Y - origin.y, BASE_Y - p.y, dt, budget, BASE_Y as int, p.y as int);
    lemma_axis_on_time(BASE_Z - origin.z, BASE_Z - p.z, dt, budget, BASE_Z as int, p.z as int);
    match return_step(origin, p, dt) {
        Some(q) => {
            assert(budget > 0);
            assert(n >= 2) by (nonlinear_arith)
                requires
                    (n - 1) * dt >= budget,
                    budget > 0,
                    n >= 1,
            ;
            assert((n - 2) * dt >= budget - dt) by (nonlinear_arith)
                requires
                    (n - 1) * dt >= budget,
            ;
            lemma_schedule_arrives(origin, q, dt, budget - dt, (n - 1) as nat);
        },
        None => {},
    }
}

} // verus!
