//! The machine's moving parts run together, one tick at a time, in the order
//! that keeps them consistent: lift, glue requests, carriage, joints.

use vstd::prelude::*;

use crate::claw::{
    return_outcome, descent_catches, ClawController, ClawControllerState, ClawLift, ClawLiftState,
    LiftColliders, Pos, ReturnTick,
};
use crate::collision::CollisionEvent;
use crate::glue::{
    count_of, lemma_attach_wf, lemma_detach_drops_joint, GlueState, GlueSync, GlueWorld,
};

verus! {

/// The claw machine's moving parts: the carriage, the lift, and the glue
/// that holds a caught toy.
pub struct ClawMachine {
    pub controller: ClawController,
    pub lift: ClawLift,
    pub glue: GlueWorld,
}

/// What one tick of the machine did.
pub struct MachineTick {
    /// The toys caught, in order; each is a catch for the session.
    pub caught: Vec<u64>,
    /// What the carriage did; `Arrived` means the claw is back at base.
    pub carriage: ReturnTick,
    /// The joints to create and to remove in the physics world.
    pub glue: GlueSync,
}

/// `s` after gluing `holder` to each of `toys` in turn.
pub open spec fn attach_each(s: GlueState, holder: u64, toys: Seq<u64>) -> GlueState
    decreases toys.len(),
{
    if toys.len() == 0 {
        s
    } else {
        attach_each(s, holder, toys.drop_last()).attach(holder, toys.last())
    }
}

/// The glue after a tick of the lift that caught `caught` and, where
/// `ascended`, reached the top: the claw sensor is glued to each toy caught,
/// let go of its toy at the top, and the joints follow at the tick's end.
pub open spec fn glue_after_tick(
    s: GlueState,
    sensor: Option<u64>,
    caught: Seq<u64>,
    ascended: bool,
    anchors: Seq<u64>,
) -> GlueState {
    let attached = match sensor {
        Some(h) => attach_each(s, h, caught),
        None => s,
    };
    let released = match sensor {
        Some(h) => if ascended {
            attached.detach(h)
        } else {
            attached
        },
        None => attached,
    };
    released.settle(anchors)
}

impl ClawMachine {
    pub open spec fn wf(&self) -> bool {
        self.lift.wf() && self.glue.wf()
    }

    /// A locked carriage, a parked lift, no glue.
    pub fn new() -> (r: ClawMachine)
        ensures
            r.controller.0 == ClawControllerState::Locked,
            r.lift == ClawLift::new_spec(),
            r.glue@ == (GlueState { requests: seq![], joints: seq![], released: seq![] }),
            r.wf(),
    {
        ClawMachine { controller: ClawController::new(), lift: ClawLift::new(), glue: GlueWorld::new() }
    }

    /// A session starts: the carriage locks until the countdown ends.
    pub fn start_session(&mut self)
        ensures
            final(self).controller.0 == ClawControllerState::Locked,
            final(self).lift == old(self).lift,
            final(self).glue == old(self).glue,
    {
        self.controller.0 = ClawControllerState::Locked;
    }

    /// Hands the carriage back to the player for another attempt.
    pub fn rearm(&mut self)
        ensures
            final(self).controller.0 == ClawControllerState::Manual,
            final(self).lift == old(self).lift,
            final(self).glue == old(self).glue,
    {
        self.controller.0 = ClawControllerState::Manual;
    }

    /// Releases the claw: a carriage that the player drives locks and the
    /// lift goes down. Elsewhere nothing happens. Returns whether it did.
    pub fn release(&mut self) -> (done: bool)
        ensures
            done == (old(self).controller.0 == ClawControllerState::Manual),
            done ==> final(self).controller.0 == ClawControllerState::Locked && final(self).lift
                == (ClawLift { state: ClawLiftState::Down, ..old(self).lift }),
            !done ==> final(self).controller == old(self).controller && final(self).lift == old(
                self,
            ).lift,
            final(self).glue == old(self).glue,
    {
        if self.controller.accepts_input() {
            self.controller.0 = ClawControllerState::Locked;
            self.lift.release();
            true
        } else {
            false
        }
    }

    /// One tick of `dt` milliseconds that saw `events`, with the carriage at
    /// `carriage` and `anchors` the bodies a joint can hold. In order: the
    /// lift moves and reads the events; each toy caught is glued to the claw
    /// sensor; at the top of the ascent the toy is let go and the carriage
    /// starts back from where it is; the carriage returns a step; the joints
    /// follow the glue.
    pub fn tick(
        &mut self,
        dt: u32,
        events: &Vec<CollisionEvent>,
        colliders: &LiftColliders,
        carriage: Pos,
        anchors: &Vec<u64>,
    ) -> (r: MachineTick)
        requires
            old(self).wf(),
        ensures
            final(self).wf(),
            final(self).lift == old(self).lift.next(dt, events@, colliders.stopper),
            r.caught@ == (if old(self).lift.state == ClawLiftState::Down {
                descent_catches(events@, colliders.stopper, colliders.sensor, colliders.toy_sensors@)
            } else {
                seq![]
            }),
            ({
                let mode = if old(self).lift.ascends(dt) {
                    ClawControllerState::ReturnToBase(carriage)
                } else {
                    old(self).controller.0
                };
                (final(self).controller.0, r.carriage) == return_outcome(mode, carriage, dt as int)
            }),
            final(self).glue@ == glue_after_tick(
                old(self).glue@,
                colliders.sensor,
                r.caught@,
                old(self).lift.ascends(dt),
                anchors@,
            ),
    {
        let lt = self.lift.tick(dt, events, colliders);
        let ghost g0 = self.glue@;
        let ghost l1 = self.lift;
        let ghost c0 = self.controller;
        if let Some(sensor) = colliders.sensor {
            let mut i: usize = 0;
            while i < lt.caught.len()
                invariant
                    0 <= i <= lt.caught@.len(),
                    self.glue.wf(),
                    self.lift == l1,
                    self.lift.wf(),
                    self.controller == c0,
                    self.glue@ == attach_each(g0, sensor, lt.caught@.take(i as int)),
                decreases lt.caught@.len() - i,
            {
                self.glue.attach(sensor, lt.caught[i]);
                i = i + 1;
                assert(lt.caught@.take(i as int).drop_last() == lt.caught@.take(i - 1));
            }
            assert(lt.caught@.take(lt.caught@.len() as int) == lt.caught@);
            if lt.ascended {
                self.glue.detach(sensor);
            }
        }
        if lt.ascended {
            self.controller.begin_return(carriage);
        }
        let carriage_step = self.controller.return_tick(carriage, dt);
        let sync = self.glue.settle(anchors);
        MachineTick { caught: lt.caught, carriage: carriage_step, glue: sync }
    }
}

proof fn lemma_attach_each_wf(s: GlueState, holder: u64, toys: Seq<u64>)
    requires
        s.wf(),
    ensures
        attach_each(s, holder, toys).wf(),
    decreases toys.len(),
{
    if toys.len() > 0 {
        lemma_attach_each_wf(s, holder, toys.drop_last());
        lemma_attach_wf(attach_each(s, holder, toys.drop_last()), holder, toys.last());
    }
}

/// On the tick the lift reaches the top, the claw sensor lets go of its
/// toy: by the end of that tick it is joined to nothing, whatever it caught
/// on the way.
pub proof fn lemma_top_lets_go(
    s: GlueState,
    sensor: u64,
    caught: Seq<u64>,
    anchors: Seq<u64>,
    toy: u64,
)
    requires
        s.wf(),
    ensures
        count_of(glue_after_tick(s, Some(sensor), caught, true, anchors).joints, sensor, toy) == 0,
{
    lemma_attach_each_wf(s, sensor, caught);
    lemma_detach_drops_joint(attach_each(s, sensor, caught), sensor, anchors, toy);
}

} // verus!
