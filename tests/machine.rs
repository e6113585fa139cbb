use claw_machine::claw::{
    ClawControllerState, ClawLiftState, LiftColliders, Pos, ReturnTick, ToySensorLink,
};
use claw_machine::collision::CollisionEvent;
use claw_machine::glue::Glue;
use claw_machine::machine::ClawMachine;

fn colliders() -> LiftColliders {
    LiftColliders {
        stopper: Some(5),
        sensor: Some(1),
        toy_sensors: vec![ToySensorLink { sensor: 100, toy: Some(200) }],
    }
}

#[test]
fn release_only_from_manual() {
    let mut m = ClawMachine::new();
    assert!(!m.release());
    assert_eq!(m.lift.state, ClawLiftState::Off);
    m.rearm();
    assert!(m.release());
    assert_eq!(m.controller.0, ClawControllerState::Locked);
    assert_eq!(m.lift.state, ClawLiftState::Down);
}

#[test]
fn full_attempt_catches_lifts_and_returns() {
    let mut m = ClawMachine::new();
    m.start_session();
    m.rearm();
    assert!(m.release());
    let carriage = Pos { x: 0, y: 3650, z: 0 };
    let anchors = vec![200];
    let events = vec![
        CollisionEvent::Started(1, 100),
        CollisionEvent::Started(5, 9),
    ];
    let t = m.tick(100, &events, &colliders(), carriage, &anchors);
    assert_eq!(t.caught, vec![200]);
    assert_eq!(t.glue.made, vec![Glue { holder: 1, target: 200 }]);
    assert_eq!(m.lift.state, ClawLiftState::Wait(1000));
    assert_eq!(m.lift.height, 3550);
    assert_eq!(m.glue.joint_of(1), Some(200));

    let mut ticks = 0;
    while m.lift.state != ClawLiftState::Up {
        m.tick(100, &vec![], &colliders(), carriage, &anchors);
        ticks += 1;
    }
    assert_eq!(ticks, 11);
    let t = m.tick(50, &vec![], &colliders(), carriage, &anchors);
    assert_eq!(t.carriage, ReturnTick::Idle);
    assert_eq!(m.lift.height, 3600);

    let t = m.tick(100, &vec![], &colliders(), carriage, &anchors);
    assert_eq!(m.lift.state, ClawLiftState::Off);
    assert_eq!(m.lift.height, 3650);
    assert_eq!(t.glue.released, vec![1]);
    assert_eq!(m.glue.joint_of(1), None);
    assert_eq!(m.controller.0, ClawControllerState::ReturnToBase(carriage));
    assert_eq!(t.carriage, ReturnTick::Moved(Pos { x: 45, y: 3650, z: 45 }));

    let mut p = Pos { x: 45, y: 3650, z: 45 };
    loop {
        match m.tick(100, &vec![], &colliders(), p, &anchors).carriage {
            ReturnTick::Moved(q) => p = q,
            ReturnTick::Arrived => break,
            ReturnTick::Idle => panic!("carriage idle while returning"),
        }
    }
    assert_eq!(m.controller.0, ClawControllerState::Locked);
}
