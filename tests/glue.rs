use claw_machine::glue::{Glue, GlueWorld};

#[test]
fn attach_makes_one_joint_at_end_of_tick() {
    let mut w = GlueWorld::new();
    w.attach(1, 200);
    assert_eq!(w.joint_of(1), None);
    assert_eq!(w.request_of(1), Some(200));
    let s = w.settle(&vec![200]);
    assert_eq!(s.made, vec![Glue { holder: 1, target: 200 }]);
    assert!(s.released.is_empty());
    assert_eq!(w.joint_of(1), Some(200));
    assert_eq!(w.joint_count(1, 200), 1);
}

#[test]
fn attaching_twice_makes_no_second_joint() {
    let mut w = GlueWorld::new();
    w.attach(1, 200);
    w.attach(1, 200);
    let s = w.settle(&vec![200]);
    assert_eq!(s.made.len(), 1);
    w.attach(1, 200);
    let s = w.settle(&vec![200]);
    assert!(s.made.is_empty());
    assert_eq!(w.joint_count(1, 200), 1);
}

#[test]
fn detach_removes_the_joint_in_the_same_tick() {
    let mut w = GlueWorld::new();
    w.attach(1, 200);
    w.settle(&vec![200]);
    w.detach(1);
    assert_eq!(w.request_of(1), None);
    let s = w.settle(&vec![200]);
    assert_eq!(s.released, vec![1]);
    assert_eq!(w.joint_of(1), None);
    assert_eq!(w.joint_count(1, 200), 0);
}

#[test]
fn detach_without_request_releases_nothing() {
    let mut w = GlueWorld::new();
    w.detach(7);
    let s = w.settle(&vec![]);
    assert!(s.released.is_empty());
    assert!(s.made.is_empty());
}

#[test]
fn target_that_cannot_anchor_waits() {
    let mut w = GlueWorld::new();
    w.attach(2, 300);
    let s = w.settle(&vec![]);
    assert!(s.made.is_empty());
    assert_eq!(w.joint_of(2), None);
    let s = w.settle(&vec![300]);
    assert_eq!(s.made, vec![Glue { holder: 2, target: 300 }]);
}

#[test]
fn new_request_keeps_the_existing_joint() {
    let mut w = GlueWorld::new();
    w.attach(1, 200);
    w.settle(&vec![200, 201]);
    w.attach(1, 201);
    let s = w.settle(&vec![200, 201]);
    assert!(s.made.is_empty());
    assert_eq!(w.request_of(1), Some(201));
    assert_eq!(w.joint_of(1), Some(200));
}

#[test]
fn holders_are_independent() {
    let mut w = GlueWorld::new();
    w.attach(1, 200);
    w.attach(2, 201);
    w.settle(&vec![200, 201]);
    w.detach(1);
    w.settle(&vec![200, 201]);
    assert_eq!(w.joint_of(1), None);
    assert_eq!(w.joint_of(2), Some(201));
}
