use claw_machine::claw::{
    base_pos, lift_anchor, ClawController, ClawControllerState, ClawLift, ClawLiftState,
    LiftColliders, Pos, ReturnTick, ToySensorLink, DWELL_MS, START_HEIGHT,
};
use claw_machine::collision::CollisionEvent;

const SENSOR: u64 = 1;
const STOPPER: u64 = 5;
const FLOOR: u64 = 9;
const TOY_SENSOR: u64 = 100;
const TOY: u64 = 200;

fn colliders() -> LiftColliders {
    LiftColliders {
        stopper: Some(STOPPER),
        sensor: Some(SENSOR),
        toy_sensors: vec![
            ToySensorLink { sensor: TOY_SENSOR, toy: Some(TOY) },
            ToySensorLink { sensor: 101, toy: None },
        ],
    }
}

fn lift(state: ClawLiftState, height: i64) -> ClawLift {
    ClawLift { state, height }
}

#[test]
fn new_lift_is_parked_at_start_height() {
    let l = ClawLift::new();
    assert_eq!(l.state, ClawLiftState::Off);
    assert_eq!(l.height, START_HEIGHT);
}

#[test]
fn descent_lowers_by_speed_times_dt() {
    let mut l = lift(ClawLiftState::Down, 3650);
    let r = l.tick(16, &vec![], &colliders());
    assert_eq!(l.height, 3634);
    assert_eq!(l.state, ClawLiftState::Down);
    assert!(r.caught.is_empty());
    assert!(!r.ascended);
}

#[test]
fn stopper_contact_starts_dwell() {
    let mut l = lift(ClawLiftState::Down, 1000);
    let r = l.tick(16, &vec![CollisionEvent::Started(FLOOR, STOPPER)], &colliders());
    assert_eq!(l.state, ClawLiftState::Wait(DWELL_MS));
    assert_eq!(l.state, ClawLiftState::Wait(1000));
    assert!(r.caught.is_empty());
}

#[test]
fn catch_and_stop_in_one_batch_both_happen() {
    let mut l = lift(ClawLiftState::Down, 1000);
    let events = vec![
        CollisionEvent::Started(SENSOR, TOY_SENSOR),
        CollisionEvent::Started(STOPPER, FLOOR),
    ];
    let r = l.tick(16, &events, &colliders());
    assert_eq!(r.caught, vec![TOY]);
    assert_eq!(l.state, ClawLiftState::Wait(1000));
}

#[test]
fn events_after_the_stopper_contact_are_not_read() {
    let mut l = lift(ClawLiftState::Down, 1000);
    let events = vec![
        CollisionEvent::Started(STOPPER, FLOOR),
        CollisionEvent::Started(TOY_SENSOR, SENSOR),
    ];
    let r = l.tick(16, &events, &colliders());
    assert!(r.caught.is_empty());
    assert_eq!(l.state, ClawLiftState::Wait(1000));
}

#[test]
fn ended_contacts_and_orphan_toy_sensors_catch_nothing() {
    let mut l = lift(ClawLiftState::Down, 1000);
    let events = vec![
        CollisionEvent::Stopped(SENSOR, TOY_SENSOR),
        CollisionEvent::Started(SENSOR, 101),
        CollisionEvent::Stopped(STOPPER, FLOOR),
    ];
    let r = l.tick(16, &events, &colliders());
    assert!(r.caught.is_empty());
    assert_eq!(l.state, ClawLiftState::Down);
}

#[test]
fn without_a_stopper_no_event_is_read() {
    let mut l = lift(ClawLiftState::Down, 1000);
    let mut c = colliders();
    c.stopper = None;
    let r = l.tick(10, &vec![CollisionEvent::Started(SENSOR, TOY_SENSOR)], &c);
    assert!(r.caught.is_empty());
    assert_eq!(l.state, ClawLiftState::Down);
    assert_eq!(l.height, 990);
}

#[test]
fn dwell_counts_down_then_ascends() {
    let mut l = lift(ClawLiftState::Wait(1000), 500);
    l.tick(16, &vec![], &colliders());
    assert_eq!(l.state, ClawLiftState::Wait(984));
    let mut l = lift(ClawLiftState::Wait(10), 500);
    l.tick(16, &vec![], &colliders());
    assert_eq!(l.state, ClawLiftState::Wait(0));
    l.tick(16, &vec![], &colliders());
    assert_eq!(l.state, ClawLiftState::Up);
    assert_eq!(l.height, 500);
}

#[test]
fn ascent_is_clamped_at_start_height() {
    let mut l = lift(ClawLiftState::Up, 3640);
    let r = l.tick(100, &vec![], &colliders());
    assert_eq!(l.height, START_HEIGHT);
    assert_eq!(l.state, ClawLiftState::Off);
    assert!(r.ascended);
}

#[test]
fn ascent_below_the_top_keeps_going() {
    let mut l = lift(ClawLiftState::Up, 3000);
    let r = l.tick(16, &vec![], &colliders());
    assert_eq!(l.height, 3016);
    assert_eq!(l.state, ClawLiftState::Up);
    assert!(!r.ascended);
}

#[test]
fn parked_lift_does_nothing() {
    let mut l = ClawLift::new();
    let r = l.tick(16, &vec![CollisionEvent::Started(STOPPER, FLOOR)], &colliders());
    assert_eq!(l, ClawLift::new());
    assert!(!r.ascended);
}

#[test]
fn release_sends_the_lift_down() {
    let mut l = ClawLift::new();
    l.release();
    assert_eq!(l.state, ClawLiftState::Down);
    assert_eq!(l.height, START_HEIGHT);
}

#[test]
fn lift_anchor_takes_carriage_plane_and_lift_height() {
    let p = lift_anchor(Pos { x: 1, y: 2, z: 3 }, 77);
    assert_eq!(p, Pos { x: 1, y: 77, z: 3 });
}

#[test]
fn controller_input_only_in_manual() {
    assert!(ClawController(ClawControllerState::Manual).accepts_input());
    assert!(!ClawController(ClawControllerState::Locked).accepts_input());
    assert!(!ClawController::new().accepts_input());
}

#[test]
fn return_step_moves_by_share_of_the_way() {
    let origin = Pos { x: 0, y: 3650, z: 0 };
    let mut c = ClawController::new();
    c.begin_return(origin);
    assert_eq!(c.0, ClawControllerState::ReturnToBase(origin));
    let r = c.return_tick(origin, 100);
    assert_eq!(r, ReturnTick::Moved(Pos { x: 45, y: 3650, z: 45 }));
}

#[test]
fn return_step_rounds_away_from_zero() {
    let origin = Pos { x: 1000, y: 3650, z: 540 };
    let mut c = ClawController(ClawControllerState::ReturnToBase(origin));
    let r = c.return_tick(origin, 100);
    assert_eq!(r, ReturnTick::Moved(Pos { x: 961, y: 3650, z: 540 }));
}

#[test]
fn return_reaches_base_and_locks() {
    let origin = Pos { x: 0, y: 3650, z: 0 };
    let mut c = ClawController(ClawControllerState::ReturnToBase(origin));
    let mut p = origin;
    let mut moves = 0;
    loop {
        match c.return_tick(p, 100) {
            ReturnTick::Moved(q) => {
                assert!((540 - q.x).abs() < (540 - p.x).abs());
                p = q;
                moves += 1;
            }
            ReturnTick::Arrived => break,
            ReturnTick::Idle => panic!("return stopped"),
        }
        assert!(moves < 100);
    }
    assert_eq!(moves, 11);
    assert_eq!(p, Pos { x: 495, y: 3650, z: 495 });
    assert_eq!(c.0, ClawControllerState::Locked);
}

#[test]
fn return_from_far_with_tiny_ticks_terminates() {
    let origin = Pos { x: -20_000, y: 0, z: 7 };
    let mut c = ClawController(ClawControllerState::ReturnToBase(origin));
    let mut p = origin;
    let mut ticks = 0;
    let start = (540i64 + 20_000).max(3650).max(533);
    let mut last = start;
    while let ReturnTick::Moved(q) = c.return_tick(p, 1) {
        let d = (540 - q.x).abs().max((3650 - q.y).abs()).max((540 - q.z).abs());
        assert!(d <= last);
        last = d;
        p = q;
        ticks += 1;
        assert!(ticks <= start + 1);
    }
    assert_eq!(c.0, ClawControllerState::Locked);
}

#[test]
fn locked_controller_does_not_return() {
    let mut c = ClawController::new();
    assert_eq!(c.return_tick(Pos { x: 0, y: 0, z: 0 }, 16), ReturnTick::Idle);
    assert_eq!(c.0, ClawControllerState::Locked);
}

#[test]
fn base_is_fixed() {
    assert_eq!(base_pos(), Pos { x: 540, y: 3650, z: 540 });
}

#[test]
fn return_takes_no_longer_than_its_time() {
    for origin in [
        Pos { x: -300_000, y: 3650, z: 90_000 },
        Pos { x: 541, y: 3649, z: 540 },
        Pos { x: 0, y: 0, z: 0 },
    ] {
        for dt in [1u32, 16, 100, 1_199, 5_000] {
            let mut c = ClawController(ClawControllerState::ReturnToBase(origin));
            let mut p = origin;
            let mut ticks: u64 = 1;
            while let ReturnTick::Moved(q) = c.return_tick(p, dt) {
                p = q;
                ticks += 1;
            }
            assert!((ticks - 1) * dt as u64 <= 1_200 + dt as u64);
            assert_eq!(c.0, ClawControllerState::Locked);
        }
    }
}
