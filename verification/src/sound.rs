//! The sound clips the game knows. The game never plays a clip itself: it
//! hands out cues, and whoever drives it plays them.

use vstd::prelude::*;

verus! {

/// A sound clip.
#[derive(Clone, Copy, Debug, PartialEq, Eq)]
pub enum Sound {
    Startup,
    Move,
    Pew,
    Explode,
    Win,
    Lose,
}

impl Sound {
    /// The name the clip is loaded and played under, as a specification.
    pub open spec fn spec_name(self) -> Seq<char> {
        match self {
            Sound::Startup => "startup"@,
            Sound::Move => "move"@,
            Sound::Pew => "pew"@,
            Sound::Explode => "explode"@,
            Sound::Win => "win"@,
            Sound::Lose => "lose"@,
        }
    }

    /// The name the clip is loaded and played under.
    pub fn name(self) -> (name: &'static str)
        ensures
            name@ == self.spec_name(),
    {
        match self {
            Sound::Startup => "startup",
            Sound::Move => "move",
            Sound::Pew => "pew",
            Sound::Explode => "explode",
            Sound::Win => "win",
            Sound::Lose => "lose",
        }
    }

    /// The file the clip is loaded from, as a specification.
    pub open spec fn spec_path(self) -> Seq<char> {
        "./sounds/"@ + self.spec_name() + ".wav"@
    }

    /// The file the clip is loaded from.
    pub fn path(self) -> (path: String)
        ensures
            path@ == self.spec_path(),
    {
        let mut path = String::from_str("./sounds/");
        path.append(self.name());
        path.append(".wav");
        path
    }

    /// Every clip, in the order in which the clips are loaded.
    pub fn all() -> (clips: Vec<Sound>)
        ensures
            clips@ == seq![
                Sound::Explode,
                Sound::Lose,
                Sound::Move,
                Sound::Pew,
                Sound::Startup,
                Sound::Win,
            ],
    {
        let mut clips: Vec<Sound> = Vec::new();
        clips.push(Sound::Explode);
        clips.push(Sound::Lose);
        clips.push(Sound::Move);
        clips.push(Sound::Pew);
        clips.push(Sound::Startup);
        clips.push(Sound::Win);
        clips
    }
}

} // verus!
