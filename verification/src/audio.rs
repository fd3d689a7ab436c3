//! What the game asks of the sound system.

use vstd::prelude::*;
use crate::map::MapId;

verus! {

/// The recordings the game plays.
#[derive(Clone, Copy, Debug, PartialEq, Eq, Structural)]
pub enum Sound {
    Fall,
    Won,
    ButtonClick,
    WallMoving,
    GroundBackground,
    GroundBackgroundEffects,
    DirtBackground,
    StoneBackground,
    LavaBackground,
    LavaBackgroundEffects,
}

/// A request to replace whatever loops in the background by one recording
/// or by two that loop together.
#[derive(Clone, Copy, Debug, PartialEq, Eq)]
pub struct BackgroundAudio {
    pub handle: Sound,
    pub second: Option<Sound>,
}

impl BackgroundAudio {
    /// The recordings to loop, in order.
    pub open spec fn spec_handles(&self) -> Seq<Sound> {
        match self.second {
            Some(second) => seq![self.handle, second],
            None => seq![self.handle],
        }
    }

    /// What loops while the player walks on `map`.
    pub open spec fn spec_of_map(map: MapId) -> BackgroundAudio {
        match map {
            MapId::Ground => BackgroundAudio {
                handle: Sound::GroundBackground,
                second: Some(Sound::GroundBackgroundEffects),
            },
            MapId::Dirt => BackgroundAudio { handle: Sound::DirtBackground, second: None },
            MapId::Stone => BackgroundAudio { handle: Sound::StoneBackground, second: None },
            MapId::Lava => BackgroundAudio {
                handle: Sound::LavaBackground,
                second: Some(Sound::LavaBackgroundEffects),
            },
        }
    }

    /// What loops once the game is won.
    pub open spec fn spec_after_win() -> BackgroundAudio {
        BackgroundAudio { handle: Sound::GroundBackground, second: None }
    }

    /// Computes `spec_handles`.
    pub fn handles(&self) -> (handles: Vec<Sound>)
        ensures
            handles@ == self.spec_handles(),
    {
        let mut handles: Vec<Sound> = Vec::new();
        handles.push(self.handle);
        if let Some(second) = self.second {
            handles.push(second);
        }
        assert(handles@ =~= self.spec_handles());
        handles
    }

    /// Computes `spec_of_map`.
    pub fn of_map(map: &MapId) -> (background: BackgroundAudio)
        ensures
            background == BackgroundAudio::spec_of_map(*map),
    {
        match map {
            MapId::Ground => BackgroundAudio {
                handle: Sound::GroundBackground,
                second: Some(Sound::GroundBackgroundEffects),
            },
            MapId::Dirt => BackgroundAudio { handle: Sound::DirtBackground, second: None },
            MapId::Stone => BackgroundAudio { handle: Sound::StoneBackground, second: None },
            MapId::Lava => BackgroundAudio {
                handle: Sound::LavaBackground,
                second: Some(Sound::LavaBackgroundEffects),
            },
        }
    }

    /// Computes `spec_after_win`.
    pub fn after_win() -> (background: BackgroundAudio)
        ensures
            background == BackgroundAudio::spec_after_win(),
    {
        BackgroundAudio { handle: Sound::GroundBackground, second: None }
    }
}

} // verus!
