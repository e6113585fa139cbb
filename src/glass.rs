//! The sound of the claw hitting the glass.

use vstd::prelude::*;

use crate::audio::{AudioCollection, SoundPool};
use crate::collision::{starts_with, CollisionEvent};

verus! {

/// Least time between two glass sounds, in milliseconds.
pub const GLASS_HIT_GAP_MS: u64 = 500;

/// Loudest glass sound, in thousandths of full volume.
pub const MAX_HIT_VOLUME: u64 = 1500;

/// When the last glass sound played, in milliseconds since start-up.
#[derive(Clone, Copy, Debug, PartialEq, Eq, Structural)]
pub struct GlassHitTime(pub u64);

/// A glass sound to play.
#[derive(Clone, Copy, Debug, PartialEq, Eq, Structural)]
pub struct GlassSound {
    pub sound: AudioCollection,
    /// Volume in thousandths of full volume.
    pub volume: u64,
}

/// Whether `events` hold a contact between the claw and one of the glass
/// walls.
pub open spec fn glass_hit_in(events: Seq<CollisionEvent>, claw: u64, glasses: Seq<u64>) -> bool {
    exists|i: int, j: int|
        0 <= i < events.len() && 0 <= j < glasses.len() && starts_with(events[i], claw)
            && starts_with(#[trigger] events[i], #[trigger] glasses[j])
}

/// Whether event `e` is a contact between the claw and a glass wall.
fn hits_glass(e: &CollisionEvent, claw: u64, glasses: &Vec<u64>) -> (r: bool)
    ensures
        r == (starts_with(*e, claw) && exists|j: int|
            0 <= j < glasses@.len() && starts_with(*e, #[trigger] glasses@[j])),
{
    if !e.starts_with(claw) {
        return false;
    }
    let mut j: usize = 0;
    while j < glasses.len()
        invariant
            0 <= j <= glasses@.len(),
            starts_with(*e, claw),
            forall|k: int| 0 <= k < j ==> !starts_with(*e, #[trigger] glasses@[k]),
        decreases glasses@.len() - j,
    {
        if e.starts_with(glasses[j]) {
            assert(starts_with(*e, glasses@[j as int]));
            return true;
        }
        j = j + 1;
    }
    false
}

fn any_glass_hit(events: &Vec<CollisionEvent>, claw: u64, glasses: &Vec<u64>) -> (r: bool)
    ensures
        r == glass_hit_in(events@, claw, glasses@),
{
    let mut i: usize = 0;
    while i < events.len()
        invariant
            0 <= i <= events@.len(),
            forall|k: int, j: int|
                0 <= k < i && 0 <= j < glasses@.len() ==> !(starts_with(events@[k], claw)
                    && starts_with(#[trigger] events@[k], #[trigger] glasses@[j])),
        decreases events@.len() - i,
    {
        if hits_glass(&events[i], claw, glasses) {
            proof {
                let j = choose|j: int| 0 <= j < glasses@.len() && starts_with(events@[i as int], #[trigger] glasses@[j]);
                assert(starts_with(events@[i as int], claw) && starts_with(events@[i as int], glasses@[j]));
            }
            return true;
        }
        i = i + 1;
    }
    false
}

impl GlassHitTime {
    /// Reacts to the claw hitting the glass: at `now`, with the claw moving
    /// at `speed` (its fastest axis, millimetres per second), a hit among
    /// `events` plays a glass sound, as loud as the claw is fast up to a
    /// limit, unless one played in the last half second.
    pub fn on_events(
        &mut self,
        events: &Vec<CollisionEvent>,
        claw: u64,
        glasses: &Vec<u64>,
        now: u64,
        speed: u64,
    ) -> (r: Option<GlassSound>)
        ensures
            r.is_some() == (glass_hit_in(events@, claw, glasses@) && now > old(self).0 + GLASS_HIT_GAP_MS),
            r.is_some() ==> final(self).0 == now,
            r.is_none() ==> *final(self) == *old(self),
            match r {
                Some(g) => SoundPool::Glass.members().contains(g.sound) && g.volume == if speed
                    > MAX_HIT_VOLUME {
                    MAX_HIT_VOLUME
                } else {
                    speed
                },
                None => true,
            },
    {
        let hit = any_glass_hit(events, claw, glasses);
        if hit && now > self.0 && now - self.0 > GLASS_HIT_GAP_MS {
            self.0 = now;
            let volume = if speed > MAX_HIT_VOLUME { MAX_HIT_VOLUME } else { speed };
            Some(GlassSound { sound: SoundPool::Glass.pick(), volume })
        } else {
            None
        }
    }
}

} // verus!
