//! The game's sounds, their files, and the pools from which one plays at
//! random.

use vstd::prelude::*;
use vstd::string::*;

verus! {

/// The sounds of the game.
#[derive(Clone, Copy, Debug, PartialEq, Eq, Hash, Structural)]
pub enum AudioCollection {
    Background1,
    Countdown,
    Glass3,
    Glass4,
    Drop1,
    Drop2,
    Drop3,
    Drop4,
    Drop5,
    Drop6,
    Gameplay1,
    Gameplay2,
    Gameplay3,
    Win1,
    Defeat1,
    Defeat2,
    Defeat3,
    Heartbeat,
    Button,
}

/// A set of interchangeable sounds, one of which plays at random.
#[derive(Clone, Copy, Debug, PartialEq, Eq, Structural)]
pub enum SoundPool {
    /// The claw is released.
    Drop,
    /// The claw hits the glass.
    Glass,
    /// Music during a session.
    Gameplay,
    /// A session is lost.
    Defeat,
}

impl AudioCollection {
    /// The sound's name.
    pub open spec fn name_text(self) -> Seq<char> {
        match self {
            AudioCollection::Background1 => "Background1"@,
            AudioCollection::Countdown => "Countdown"@,
            AudioCollection::Glass3 => "Glass3"@,
            AudioCollection::Glass4 => "Glass4"@,
            AudioCollection::Drop1 => "Drop1"@,
            AudioCollection::Drop2 => "Drop2"@,
            AudioCollection::Drop3 => "Drop3"@,
            AudioCollection::Drop4 => "Drop4"@,
            AudioCollection::Drop5 => "Drop5"@,
            AudioCollection::Drop6 => "Drop6"@,
            AudioCollection::Gameplay1 => "Gameplay1"@,
            AudioCollection::Gameplay2 => "Gameplay2"@,
            AudioCollection::Gameplay3 => "Gameplay3"@,
            AudioCollection::Win1 => "Win1"@,
            AudioCollection::Defeat1 => "Defeat1"@,
            AudioCollection::Defeat2 => "Defeat2"@,
            AudioCollection::Defeat3 => "Defeat3"@,
            AudioCollection::Heartbeat => "Heartbeat"@,
            AudioCollection::Button => "Button"@,
        }
    }

    /// The stem of the sound's file: its name in lower case.
    pub open spec fn stem_text(self) -> Seq<char> {
        match self {
            AudioCollection::Background1 => "background1"@,
            AudioCollection::Countdown => "countdown"@,
            AudioCollection::Glass3 => "glass3"@,
            AudioCollection::Glass4 => "glass4"@,
            AudioCollection::Drop1 => "drop1"@,
            AudioCollection::Drop2 => "drop2"@,
            AudioCollection::Drop3 => "drop3"@,
            AudioCollection::Drop4 => "drop4"@,
            AudioCollection::Drop5 => "drop5"@,
            AudioCollection::Drop6 => "drop6"@,
            AudioCollection::Gameplay1 => "gameplay1"@,
            AudioCollection::Gameplay2 => "gameplay2"@,
            AudioCollection::Gameplay3 => "gameplay3"@,
            AudioCollection::Win1 => "win1"@,
            AudioCollection::Defeat1 => "defeat1"@,
            AudioCollection::Defeat2 => "defeat2"@,
            AudioCollection::Defeat3 => "defeat3"@,
            AudioCollection::Heartbeat => "heartbeat"@,
            AudioCollection::Button => "button"@,
        }
    }

    /// The sound's name.
    pub fn name(&self) -> (r: &'static str)
        ensures
            r@ == self.name_text(),
    {
        match self {
            AudioCollection::Background1 => "Background1",
            AudioCollection::Countdown => "Countdown",
            AudioCollection::Glass3 => "Glass3",
            AudioCollection::Glass4 => "Glass4",
            AudioCollection::Drop1 => "Drop1",
            AudioCollection::Drop2 => "Drop2",
            AudioCollection::Drop3 => "Drop3",
            AudioCollection::Drop4 => "Drop4",
            AudioCollection::Drop5 => "Drop5",
            AudioCollection::Drop6 => "Drop6",
            AudioCollection::Gameplay1 => "Gameplay1",
            AudioCollection::Gameplay2 => "Gameplay2",
            AudioCollection::Gameplay3 => "Gameplay3",
            AudioCollection::Win1 => "Win1",
            AudioCollection::Defeat1 => "Defeat1",
            AudioCollection::Defeat2 => "Defeat2",
            AudioCollection::Defeat3 => "Defeat3",
            AudioCollection::Heartbeat => "Heartbeat",
            AudioCollection::Button => "Button",
        }
    }

    fn stem(&self) -> (r: &'static str)
        ensures
            r@ == self.stem_text(),
    {
        match self {
            AudioCollection::Background1 => "background1",
            AudioCollection::Countdown => "countdown",
            AudioCollection::Glass3 => "glass3",
            AudioCollection::Glass4 => "glass4",
            AudioCollection::Drop1 => "drop1",
            AudioCollection::Drop2 => "drop2",
            AudioCollection::Drop3 => "drop3",
            AudioCollection::Drop4 => "drop4",
            AudioCollection::Drop5 => "drop5",
            AudioCollection::Drop6 => "drop6",
            AudioCollection::Gameplay1 => "gameplay1",
            AudioCollection::Gameplay2 => "gameplay2",
            AudioCollection::Gameplay3 => "gameplay3",
            AudioCollection::Win1 => "win1",
            AudioCollection::Defeat1 => "defeat1",
            AudioCollection::Defeat2 => "defeat2",
            AudioCollection::Defeat3 => "defeat3",
            AudioCollection::Heartbeat => "heartbeat",
            AudioCollection::Button => "button",
        }
    }

    /// Where the sound's file lies among the assets: `audio/<stem>.ogg`.
    pub fn asset_path(&self) -> (r: String)
        ensures
            r@ == "audio/"@ + self.stem_text() + ".ogg"@,
    {
        let mut s = String::from_str("audio/");
        s.append(self.stem());
        s.append(".ogg");
        s
    }

    /// Every sound, each once.
    pub fn all() -> (r: Vec<AudioCollection>)
        ensures
            r@.len() == 19,
            forall|a: AudioCollection| r@.contains(a),
    {
        let r = vec![
            AudioCollection::Background1,
            AudioCollection::Countdown,
            AudioCollection::Glass3,
            AudioCollection::Glass4,
            AudioCollection::Drop1,
            AudioCollection::Drop2,
            AudioCollection::Drop3,
            AudioCollection::Drop4,
            AudioCollection::Drop5,
            AudioCollection::Drop6,
            AudioCollection::Gameplay1,
            AudioCollection::Gameplay2,
            AudioCollection::Gameplay3,
            AudioCollection::Win1,
            AudioCollection::Defeat1,
            AudioCollection::Defeat2,
            AudioCollection::Defeat3,
            AudioCollection::Heartbeat,
            AudioCollection::Button,
        ];
        proof {
            assert forall|a: AudioCollection| r@.contains(a) by {
                match a {
                    AudioCollection::Background1 => assert(r@[0] == a),
                    AudioCollection::Countdown => assert(r@[1] == a),
                    AudioCollection::Glass3 => assert(r@[2] == a),
                    AudioCollection::Glass4 => assert(r@[3] == a),
                    AudioCollection::Drop1 => assert(r@[4] == a),
                    AudioCollection::Drop2 => assert(r@[5] == a),
                    AudioCollection::Drop3 => assert(r@[6] == a),
                    AudioCollection::Drop4 => assert(r@[7] == a),
                    AudioCollection::Drop5 => assert(r@[8] == a),
                    AudioCollection::Drop6 => assert(r@[9] == a),
                    AudioCollection::Gameplay1 => assert(r@[10] == a),
                    AudioCollection::Gameplay2 => assert(r@[11] == a),
                    AudioCollection::Gameplay3 => assert(r@[12] == a),
                    AudioCollection::Win1 => assert(r@[13] == a),
                    AudioCollection::Defeat1 => assert(r@[14] == a),
                    AudioCollection::Defeat2 => assert(r@[15] == a),
                    AudioCollection::Defeat3 => assert(r@[16] == a),
                    AudioCollection::Heartbeat => assert(r@[17] == a),
                    AudioCollection::Button => assert(r@[18] == a),
                }
            }
        }
        r
    }
}

impl SoundPool {
    /// The sounds of the pool, in order.
    pub open spec fn members(self) -> Seq<AudioCollection> {
        match self {
            SoundPool::Drop => seq![
                AudioCollection::Drop1,
                AudioCollection::Drop2,
                AudioCollection::Drop3,
                AudioCollection::Drop4,
                AudioCollection::Drop5,
                AudioCollection::Drop6,
            ],
            SoundPool::Glass => seq![AudioCollection::Glass3, AudioCollection::Glass4],
            SoundPool::Gameplay => seq![
                AudioCollection::Gameplay1,
                AudioCollection::Gameplay2,
                AudioCollection::Gameplay3,
            ],
            SoundPool::Defeat => seq![
                AudioCollection::Defeat1,
                AudioCollection::Defeat2,
                AudioCollection::Defeat3,
            ],
        }
    }

    /// The sounds of the pool, in order.
    pub fn sounds(&self) -> (r: Vec<AudioCollection>)
        ensures
            r@ == self.members(),
    {
        let r = match self {
            SoundPool::Drop => vec![
                AudioCollection::Drop1,
                AudioCollection::Drop2,
                AudioCollection::Drop3,
                AudioCollection::Drop4,
                AudioCollection::Drop5,
                AudioCollection::Drop6,
            ],
            SoundPool::Glass => vec![AudioCollection::Glass3, AudioCollection::Glass4],
            SoundPool::Gameplay => vec![
                AudioCollection::Gameplay1,
                AudioCollection::Gameplay2,
                AudioCollection::Gameplay3,
            ],
            SoundPool::Defeat => vec![
                AudioCollection::Defeat1,
                AudioCollection::Defeat2,
                AudioCollection::Defeat3,
            ],
        };
        assert(r@ =~= self.members());
        r
    }

    /// One sound of the pool, drawn at random.
    pub fn pick(&self) -> (r: AudioCollection)
        ensures
            self.members().contains(r),
    {
        let sounds = self.sounds();
        pick_random(&sounds)
    }
}

/// Relies on rand's `thread_rng` and `Rng::gen_range`: a number drawn from
/// `0..len`, a range that must not be empty.
#[verifier::external_body]
fn random_below(len: usize) -> (r: usize)
    requires
        len > 0,
    ensures
        r < len,
{
    rand::Rng::gen_range(&mut rand::thread_rng(), 0..len)
}

/// One of `sounds`, drawn at random.
pub fn pick_random(sounds: &Vec<AudioCollection>) -> (r: AudioCollection)
    requires
        sounds@.len() > 0,
    ensures
        sounds@.contains(r),
{
    let i = random_below(sounds.len());
    let r = sounds[i];
    assert(sounds@[i as int] == r);
    r
}

} // verus!
