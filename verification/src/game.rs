//! The state of a running game, passed to every step of a frame.

use vstd::prelude::*;
use crate::map::{ButtonWall, Collide, MapId};
use crate::player::Transform;
use crate::scenes::{CutScene, TriggerScene};

verus! {

/// What the session is doing: whether a scene holds the player still, and how
/// far that scene has come.
#[derive(Clone, Copy, Debug, PartialEq, Eq)]
pub struct GameState {
    /// The player cannot move. Holds exactly while a scene plays.
    pub frozen: bool,
    /// The acorn has been caught.
    pub won: bool,
    /// The scene that plays, if any.
    pub scene: Option<CutScene>,
    /// When the scene started.
    pub scene_start: u64,
    /// How many of the scene's one-time effects have happened.
    pub scene_step: u8,
}

impl GameState {
    /// The player is held exactly while a scene plays.
    pub open spec fn well_formed(&self) -> bool {
        self.frozen == self.scene.is_some()
    }

    /// The state with its scene over.
    pub open spec fn released(self) -> GameState {
        GameState { scene: None, frozen: false, ..self }
    }

    /// Time the scene has played at `now`; none before it started.
    pub open spec fn elapsed(&self, now: u64) -> int {
        if now >= self.scene_start {
            now - self.scene_start
        } else {
            0
        }
    }

    /// Computes `elapsed`.
    pub fn elapsed_at(&self, now: u64) -> (elapsed: u64)
        ensures
            elapsed == self.elapsed(now),
    {
        if now >= self.scene_start {
            now - self.scene_start
        } else {
            0
        }
    }
}

impl Default for GameState {
    fn default() -> (state: GameState)
        ensures
            state == (GameState {
                frozen: false,
                won: false,
                scene: None,
                scene_start: 0,
                scene_step: 0,
            }),
    {
        GameState { frozen: false, won: false, scene: None, scene_start: 0, scene_step: 0 }
    }
}

/// Everything a frame reads and changes.
#[derive(Clone, Debug, PartialEq, Eq)]
pub struct Game {
    pub state: GameState,
    /// The map that is played.
    pub map: MapId,
    /// The map was set and has not been drawn since.
    pub map_changed: bool,
    /// The player's sprite, once it exists.
    pub player: Option<Transform>,
    /// The camera, once it exists.
    pub camera: Option<Transform>,
    /// The acorn's sprite, while it exists.
    pub acorn: Option<Transform>,
    /// The cells that tiles block.
    pub colliders: Vec<Collide>,
    /// The buttons of the map with their walls.
    pub elements: Vec<ButtonWall>,
    /// The scenes asked for in this frame.
    pub triggers: Vec<TriggerScene>,
}

/// A `Game` as a mathematical value.
pub struct GameView {
    pub state: GameState,
    pub map: MapId,
    pub map_changed: bool,
    pub player: Option<Transform>,
    pub camera: Option<Transform>,
    pub acorn: Option<Transform>,
    pub colliders: Seq<Collide>,
    pub elements: Seq<ButtonWall>,
    pub triggers: Seq<TriggerScene>,
}

impl View for Game {
    type V = GameView;

    open spec fn view(&self) -> GameView {
        GameView {
            state: self.state,
            map: self.map,
            map_changed: self.map_changed,
            player: self.player,
            camera: self.camera,
            acorn: self.acorn,
            colliders: self.colliders@,
            elements: self.elements@,
            triggers: self.triggers@,
        }
    }
}

impl Game {
    /// A game that is about to draw its first map: nothing exists yet and no
    /// scene plays.
    pub open spec fn fresh() -> GameView {
        GameView {
            state: GameState {
                frozen: false,
                won: false,
                scene: None,
                scene_start: 0,
                scene_step: 0,
            },
            map: MapId::Ground,
            map_changed: true,
            player: None,
            camera: None,
            acorn: None,
            colliders: Seq::empty(),
            elements: Seq::empty(),
            triggers: Seq::empty(),
        }
    }

    pub fn new() -> (game: Game)
        ensures
            game@ == Game::fresh(),
    {
        Game {
            state: GameState::default(),
            map: MapId::Ground,
            map_changed: true,
            player: None,
            camera: None,
            acorn: None,
            colliders: Vec::new(),
            elements: Vec::new(),
            triggers: Vec::new(),
        }
    }
}

} // verus!
