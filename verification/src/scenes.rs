//! The director: scripted scenes that take the camera away from the player,
//! advance by the clock alone and leave their mark on the game when they end.
//!
//! A scene with a camera journey has four spans, each given by its end:
//! the camera holds on the player, travels to its target, holds there, and
//! travels back. What a scene does once (a sound, a button going down, a wall
//! opening) is counted in `scene_step`, so that it happens on the first frame
//! that has reached its moment and never again, however the frames fall.

pub mod laws;

use vstd::prelude::*;
use crate::audio::{BackgroundAudio, Sound};
use crate::game::{Game, GameState, GameView};
use crate::map::{ButtonWall, MapId};
use crate::player::{place, placed, scale_to, scaled, Actions, Transform};
use crate::units::{interpolate, interpolate_point, lerp, lerp_point, Point, WHOLE};

verus! {

/// A scripted scene.
#[derive(Clone, Copy, Debug, PartialEq, Eq)]
pub enum CutScene {
    /// The camera shows the way from the start to the goal, where the acorn
    /// rolls into the hole, and comes back.
    Intro { camera_from: Point, camera_to: Point, acorn_falls: bool },
    /// A button goes down and the camera shows the wall that opens.
    ActivateButton { button: u32, wall: u32, camera_from: Point, camera_to: Point },
    /// The player falls through the goal into the next map, sliding from
    /// `camera_from` towards `camera_to` as it shrinks.
    MapTransition { camera_from: Point, camera_to: Point, to: MapId },
    /// The player has caught the acorn.
    Won,
}

/// A request to start a scene.
#[derive(Clone, Copy, Debug, PartialEq, Eq)]
pub struct TriggerScene {
    pub scene: CutScene,
}

/// What a scene asks of the world outside the library.
#[derive(Clone, Copy, Debug, PartialEq, Eq)]
pub enum Effect {
    /// Play a recording once.
    AudioEffect(Sound),
    /// Replace what loops in the background.
    BackgroundAudio(BackgroundAudio),
    /// Pause what loops in the background.
    PauseBackground,
    /// Silence every recording that plays once.
    StopAudioEffects,
    /// Take the acorn off the map.
    DespawnAcorn,
    /// Leave the acorn lying on the goal.
    SettleAcorn,
    /// Show the button with this handle pressed.
    PressButton(u32),
    /// Show the wall with this handle open and let the player pass.
    OpenWall(u32),
    /// Draw this map in place of the one shown.
    ChangeMap(MapId),
    /// Tell the player that the game is won.
    Won,
}

/// The game after a frame of a scene, and what the frame asks for.
pub struct Outcome {
    pub game: GameView,
    pub effects: Seq<Effect>,
}

/// The ends of the four spans of a camera journey, counted from the start of
/// the scene.
#[derive(Clone, Copy, Debug, PartialEq, Eq, Structural)]
pub struct Schedule {
    /// Until here the camera holds on the player.
    pub hold: u32,
    /// Until here it travels to its target.
    pub pan: u32,
    /// Until here it holds on the target.
    pub rest: u32,
    /// Until here it travels back.
    pub back: u32,
}

impl Schedule {
    /// The spans follow each other and none is empty.
    pub open spec fn well_formed(&self) -> bool {
        self.hold < self.pan < self.rest < self.back
    }
}

/// The journey of the introduction.
pub open spec fn intro_schedule() -> Schedule {
    Schedule { hold: 500000, pan: 1500000, rest: 2500000, back: 3500000 }
}

/// The journey to a wall that opens.
pub open spec fn button_schedule() -> Schedule {
    Schedule { hold: 300000, pan: 1000000, rest: 1500000, back: 2200000 }
}

/// How long the fall into the next map and the closing in on the caught
/// acorn take.
pub const ZOOM: u32 = 2000000;

/// Scale of the camera at the end of a fall.
pub const FALL_CAMERA_SCALE: i64 = 20;

/// Scale of the player at the end of a fall.
pub const FALL_PLAYER_SCALE: i64 = 50;

/// Scale of the camera when it has closed in on the caught acorn.
pub const WON_CAMERA_SCALE: i64 = 300;

/// Where a journey has the camera at `elapsed`; nowhere while it still holds
/// on the player, which leaves the camera as it is.
pub open spec fn camera_at(from: Point, to: Point, s: Schedule, elapsed: int) -> Option<Point> {
    if elapsed < s.hold {
        None
    } else if elapsed < s.pan {
        Some(lerp_point(from, to, elapsed - s.hold, s.pan - s.hold))
    } else if elapsed < s.rest {
        Some(to)
    } else if elapsed < s.back {
        Some(lerp_point(to, from, elapsed - s.rest, s.back - s.rest))
    } else {
        Some(from)
    }
}

/// The camera of a journey at `elapsed`.
pub open spec fn travelling(camera: Option<Transform>, from: Point, to: Point, s: Schedule, elapsed: int) -> Option<Transform> {
    match camera_at(from, to, s, elapsed) {
        Some(at) => placed(camera, at),
        None => camera,
    }
}

/// A scale taken down by a twentieth, rounded towards zero.
pub open spec fn shrunk(scale: int) -> int {
    if scale >= 0 {
        (scale * 95) / 100
    } else {
        -(((-scale) * 95) / 100)
    }
}

/// The acorn while the camera of the introduction holds on the goal, `into`
/// that span. Whether it falls in the end or stays, the acorn rolls to the
/// goal in the first half of the span and spins there, one turn in the second
/// half, growing smaller with every frame.
pub open spec fn rolled(acorn: Option<Transform>, map: MapId, into: int) -> Option<Transform> {
    let s = intro_schedule();
    let half = (s.rest - s.pan) / 2;
    let lies = map.anchor(map.acorn_slot());
    let goal = map.anchor(map.goal_slot());
    let lies = (lies.0 as i64, lies.1 as i64);
    let goal = (goal.0 as i64, goal.1 as i64);
    match acorn {
        Some(t) => if into < half {
            placed(acorn, lerp_point(lies, goal, into, half))
        } else {
            Some(
                Transform {
                    rotation: (into * WHOLE / half) as i64,
                    scale: shrunk(t.scale as int) as i64,
                    ..t
                },
            )
        },
        None => None,
    }
}

/// The acorn when the camera of the introduction turns back: gone if it
/// falls, at rest on the goal if it stays.
pub open spec fn rested(acorn: Option<Transform>, map: MapId, acorn_falls: bool) -> Option<Transform> {
    let goal = map.anchor(map.goal_slot());
    if acorn_falls {
        None
    } else {
        placed(acorn, (goal.0 as i64, goal.1 as i64))
    }
}

/// What the introduction asks for when the camera turns back.
pub open spec fn rest_effect(acorn_falls: bool) -> Effect {
    if acorn_falls {
        Effect::DespawnAcorn
    } else {
        Effect::SettleAcorn
    }
}

/// The player `elapsed` into a fall that leads from `from` towards `to`, the
/// target of the scene: on its way and shrinking. Without a camera nothing
/// falls.
pub open spec fn falling_player(g: GameView, from: Point, to: Point, elapsed: int) -> Option<Transform> {
    if g.camera is Some {
        scaled(
            placed(g.player, lerp_point(from, to, elapsed, ZOOM as int)),
            lerp(WHOLE as int, FALL_PLAYER_SCALE as int, elapsed, ZOOM as int) as i64,
        )
    } else {
        g.player
    }
}

/// The camera `elapsed` into a fall that leads from `from` towards `to`: on
/// the falling player, if there is one, and closing in.
pub open spec fn falling_camera(g: GameView, from: Point, to: Point, elapsed: int) -> Option<Transform> {
    scaled(
        if g.player is Some {
            placed(g.camera, lerp_point(from, to, elapsed, ZOOM as int))
        } else {
            g.camera
        },
        lerp(WHOLE as int, FALL_CAMERA_SCALE as int, elapsed, ZOOM as int) as i64,
    )
}

/// The camera of a win that begins: on the acorn, if there is one.
pub open spec fn on_acorn(g: GameView) -> Option<Transform> {
    match g.acorn {
        Some(acorn) => if g.state.scene_step == 0 {
            placed(g.camera, (acorn.x, acorn.y))
        } else {
            g.camera
        },
        None => g.camera,
    }
}

/// The buttons with every button of this handle shown pressed.
pub open spec fn pressed(elements: Seq<ButtonWall>, button: u32) -> Seq<ButtonWall> {
    Seq::new(
        elements.len(),
        |i: int|
            if elements[i].button == button {
                ButtonWall { pressed: true, ..elements[i] }
            } else {
                elements[i]
            },
    )
}

/// The buttons with every wall of this handle open.
pub open spec fn opened(elements: Seq<ButtonWall>, wall: u32) -> Seq<ButtonWall> {
    Seq::new(
        elements.len(),
        |i: int|
            if elements[i].wall == wall {
                ButtonWall { opened: true, ..elements[i] }
            } else {
                elements[i]
            },
    )
}

/// A frame of the introduction.
///
/// Skipped, it lets the acorn come to rest if that is still to happen, puts
/// the camera back and ends. Otherwise the camera goes its journey; while it
/// holds on the goal the acorn rolls there and spins, growing smaller; on the
/// first frame at or past the end of that span the acorn comes to rest, gone
/// if it falls and on the goal if it stays; at the end of the journey the
/// scene ends.
pub open spec fn intro_tick(g: GameView, skip: bool, now: u64) -> Outcome {
    match g.state.scene {
        Some(CutScene::Intro { camera_from, camera_to, acorn_falls }) => {
            let due = g.state.scene_step == 0;
            let s = intro_schedule();
            let elapsed = g.state.elapsed(now);
            if skip {
                Outcome {
                    game: GameView {
                        state: g.state.released(),
                        camera: placed(g.camera, camera_from),
                        acorn: if due {
                            rested(g.acorn, g.map, acorn_falls)
                        } else {
                            g.acorn
                        },
                        ..g
                    },
                    effects: if due {
                        seq![rest_effect(acorn_falls)]
                    } else {
                        seq![]
                    },
                }
            } else {
                let fire = due && elapsed >= s.rest;
                let state = GameState {
                    scene_step: if fire {
                        1
                    } else {
                        g.state.scene_step
                    },
                    ..g.state
                };
                Outcome {
                    game: GameView {
                        state: if elapsed >= s.back {
                            state.released()
                        } else {
                            state
                        },
                        camera: travelling(g.camera, camera_from, camera_to, s, elapsed),
                        acorn: if s.pan <= elapsed < s.rest {
                            rolled(g.acorn, g.map, elapsed - s.pan)
                        } else if fire {
                            rested(g.acorn, g.map, acorn_falls)
                        } else {
                            g.acorn
                        },
                        ..g
                    },
                    effects: if fire {
                        seq![rest_effect(acorn_falls)]
                    } else {
                        seq![]
                    },
                }
            }
        },
        _ => Outcome { game: g, effects: seq![] },
    }
}

/// A frame of the fall into the next map.
///
/// Skipped, it silences the sounds, leaves the player and the camera as the
/// fall would have left them, changes the map and ends. Otherwise the first
/// frame pauses the background and plays the fall; as long as the zoom lasts
/// the camera and the player shrink while the player slides from
/// `camera_from` towards `camera_to`, the target the scene was given, with
/// the camera on it; after that they are on that target, as small as they
/// get, the map changes and the scene ends.
pub open spec fn transition_tick(g: GameView, skip: bool, now: u64) -> Outcome {
    match g.state.scene {
        Some(CutScene::MapTransition { camera_from, camera_to, to }) => {
            let elapsed = g.state.elapsed(now);
            if skip {
                Outcome {
                    game: GameView {
                        state: g.state.released(),
                        player: falling_player(g, camera_from, camera_to, ZOOM as int),
                        camera: falling_camera(g, camera_from, camera_to, ZOOM as int),
                        map: to,
                        map_changed: true,
                        ..g
                    },
                    effects: seq![Effect::StopAudioEffects, Effect::ChangeMap(to)],
                }
            } else {
                let first = g.state.scene_step == 0;
                let state = GameState {
                    scene_step: if first {
                        1
                    } else {
                        g.state.scene_step
                    },
                    ..g.state
                };
                let opening = if first {
                    seq![Effect::PauseBackground, Effect::AudioEffect(Sound::Fall)]
                } else {
                    seq![]
                };
                if elapsed < ZOOM {
                    Outcome {
                        game: GameView {
                            state,
                            player: falling_player(g, camera_from, camera_to, elapsed),
                            camera: falling_camera(g, camera_from, camera_to, elapsed),
                            ..g
                        },
                        effects: opening,
                    }
                } else {
                    Outcome {
                        game: GameView {
                            state: state.released(),
                            player: falling_player(g, camera_from, camera_to, ZOOM as int),
                            camera: falling_camera(g, camera_from, camera_to, ZOOM as int),
                            map: to,
                            map_changed: true,
                            ..g
                        },
                        effects: opening.push(Effect::ChangeMap(to)),
                    }
                }
            }
        },
        _ => Outcome { game: g, effects: seq![] },
    }
}

/// A frame of the win.
///
/// Skipped, it silences the sounds, leaves the camera as the scene would
/// have left it, starts the closing music, marks the game won and ends.
/// Otherwise the first frame puts the camera on the acorn, pauses the
/// background and plays the fanfare; as long as the zoom lasts the camera
/// closes in; after that it is as close as it gets, the closing music
/// starts, the game is marked won and the scene ends.
pub open spec fn won_tick(g: GameView, skip: bool, now: u64) -> Outcome {
    match g.state.scene {
        Some(CutScene::Won) => {
            let elapsed = g.state.elapsed(now);
            let closing = seq![
                Effect::BackgroundAudio(BackgroundAudio::spec_after_win()),
                Effect::Won,
            ];
            if skip {
                Outcome {
                    game: GameView {
                        state: GameState { won: true, ..g.state.released() },
                        camera: scaled(on_acorn(g), WON_CAMERA_SCALE),
                        ..g
                    },
                    effects: seq![Effect::StopAudioEffects] + closing,
                }
            } else {
                let first = g.state.scene_step == 0;
                let state = GameState {
                    scene_step: if first {
                        1
                    } else {
                        g.state.scene_step
                    },
                    ..g.state
                };
                let opening = if first {
                    seq![Effect::PauseBackground, Effect::AudioEffect(Sound::Won)]
                } else {
                    seq![]
                };
                if elapsed < ZOOM {
                    Outcome {
                        game: GameView {
                            state,
                            camera: scaled(
                                on_acorn(g),
                                lerp(WHOLE as int, WON_CAMERA_SCALE as int, elapsed, ZOOM as int) as i64,
                            ),
                            ..g
                        },
                        effects: opening,
                    }
                } else {
                    Outcome {
                        game: GameView {
                            state: GameState { won: true, ..state.released() },
                            camera: scaled(on_acorn(g), WON_CAMERA_SCALE),
                            ..g
                        },
                        effects: opening + closing,
                    }
                }
            }
        },
        _ => Outcome { game: g, effects: seq![] },
    }
}

/// A frame of a button going down.
///
/// Skipped, it silences the sounds, presses the button and opens the wall as
/// far as that is still to happen, puts the camera back and ends. Otherwise,
/// in this order and each once: the first frame presses the button with a
/// click; the first frame in which the camera has set off plays the sound of
/// the wall; the first frame in which the camera has arrived opens the wall.
/// The camera goes its journey, and at its end the scene ends.
pub open spec fn button_tick(g: GameView, skip: bool, now: u64) -> Outcome {
    match g.state.scene {
        Some(CutScene::ActivateButton { button, wall, camera_from, camera_to }) => {
            let s = button_schedule();
            let elapsed = g.state.elapsed(now);
            let step = g.state.scene_step;
            if skip {
                let press = step == 0;
                let open = step < 3;
                let after_press = if press {
                    pressed(g.elements, button)
                } else {
                    g.elements
                };
                Outcome {
                    game: GameView {
                        state: g.state.released(),
                        camera: placed(g.camera, camera_from),
                        elements: if open {
                            opened(after_press, wall)
                        } else {
                            after_press
                        },
                        ..g
                    },
                    effects: seq![Effect::StopAudioEffects] + (if press {
                        seq![Effect::PressButton(button)]
                    } else {
                        seq![]
                    }) + (if open {
                        seq![Effect::OpenWall(wall)]
                    } else {
                        seq![]
                    }),
                }
            } else {
                let press = step == 0;
                let sound = (press || step == 1) && elapsed >= s.hold;
                let open = (sound || step == 2) && elapsed >= s.pan;
                let after_press = if press {
                    pressed(g.elements, button)
                } else {
                    g.elements
                };
                let state = GameState {
                    scene_step: if open {
                        3
                    } else if sound {
                        2
                    } else if press {
                        1
                    } else {
                        step
                    },
                    ..g.state
                };
                Outcome {
                    game: GameView {
                        state: if elapsed >= s.back {
                            state.released()
                        } else {
                            state
                        },
                        camera: travelling(g.camera, camera_from, camera_to, s, elapsed),
                        elements: if open {
                            opened(after_press, wall)
                        } else {
                            after_press
                        },
                        ..g
                    },
                    effects: (if press {
                        seq![Effect::PressButton(button), Effect::AudioEffect(Sound::ButtonClick)]
                    } else {
                        seq![]
                    }) + (if sound {
                        seq![Effect::AudioEffect(Sound::WallMoving)]
                    } else {
                        seq![]
                    }) + (if open {
                        seq![Effect::OpenWall(wall)]
                    } else {
                        seq![]
                    }),
                }
            }
        },
        _ => Outcome { game: g, effects: seq![] },
    }
}

/// A frame of whatever scene plays; nothing happens when none does.
pub open spec fn direct(g: GameView, skip: bool, now: u64) -> Outcome {
    match g.state.scene {
        Some(CutScene::Intro { .. }) => intro_tick(g, skip, now),
        Some(CutScene::ActivateButton { .. }) => button_tick(g, skip, now),
        Some(CutScene::MapTransition { .. }) => transition_tick(g, skip, now),
        Some(CutScene::Won) => won_tick(g, skip, now),
        None => Outcome { game: g, effects: seq![] },
    }
}

/// The game after the requests of a frame have been looked at. The first one
/// starts its scene if none plays; every other request is dropped.
pub open spec fn triggered(g: GameView, now: u64) -> GameView {
    GameView {
        state: if g.triggers.len() > 0 && g.state.scene is None {
            GameState {
                scene: Some(g.triggers[0].scene),
                frozen: true,
                scene_start: now,
                scene_step: 0,
                ..g.state
            }
        } else {
            g.state
        },
        triggers: Seq::empty(),
        ..g
    }
}

/// Computes `intro_schedule`.
pub fn intro_times() -> (s: Schedule)
    ensures
        s == intro_schedule(),
{
    Schedule { hold: 500000, pan: 1500000, rest: 2500000, back: 3500000 }
}

/// Computes `button_schedule`.
pub fn button_times() -> (s: Schedule)
    ensures
        s == button_schedule(),
{
    Schedule { hold: 300000, pan: 1000000, rest: 1500000, back: 2200000 }
}

/// Computes `camera_at`.
pub fn camera_in(from: Point, to: Point, s: &Schedule, elapsed: u64) -> (at: Option<Point>)
    requires
        s.well_formed(),
    ensures
        at == camera_at(from, to, *s, elapsed as int),
{
    if elapsed < s.hold as u64 {
        None
    } else if elapsed < s.pan as u64 {
        Some(interpolate_point(from, to, elapsed as u32 - s.hold, s.pan - s.hold))
    } else if elapsed < s.rest as u64 {
        Some(to)
    } else if elapsed < s.back as u64 {
        Some(interpolate_point(to, from, elapsed as u32 - s.rest, s.back - s.rest))
    } else {
        Some(from)
    }
}

fn travel_camera(camera: Option<Transform>, from: Point, to: Point, s: &Schedule, elapsed: u64) -> (put: Option<Transform>)
    requires
        s.well_formed(),
    ensures
        put == travelling(camera, from, to, *s, elapsed as int),
{
    match camera_in(from, to, s, elapsed) {
        Some(at) => place(camera, at),
        None => camera,
    }
}

/// Computes `shrunk`.
pub fn shrink(scale: i64) -> (less: i64)
    ensures
        less == shrunk(scale as int),
{
    if scale >= 0 {
        (scale as i128 * 95 / 100) as i64
    } else {
        (-((-(scale as i128)) * 95 / 100)) as i64
    }
}

fn roll(acorn: Option<Transform>, map: &MapId, into: u32) -> (put: Option<Transform>)
    requires
        into < intro_schedule().rest - intro_schedule().pan,
    ensures
        put == rolled(acorn, *map, into as int),
{
    let half: u32 = 500000;
    let lies = map.acorn_position();
    let goal = map.goal_position();
    match acorn {
        Some(t) => if into < half {
            place(acorn, interpolate_point(lies, goal, into, half))
        } else {
            Some(
                Transform {
                    x: t.x,
                    y: t.y,
                    rotation: (into as i64 * WHOLE) / (half as i64),
                    scale: shrink(t.scale),
                },
            )
        },
        None => None,
    }
}

fn rest(acorn: Option<Transform>, map: &MapId, acorn_falls: bool) -> (put: Option<Transform>)
    ensures
        put == rested(acorn, *map, acorn_falls),
{
    if acorn_falls {
        None
    } else {
        place(acorn, map.goal_position())
    }
}

fn rest_request(acorn_falls: bool) -> (effect: Effect)
    ensures
        effect == rest_effect(acorn_falls),
{
    if acorn_falls {
        Effect::DespawnAcorn
    } else {
        Effect::SettleAcorn
    }
}

fn fall(game: &mut Game, from: Point, to: Point, elapsed: u32)
    requires
        elapsed <= ZOOM,
    ensures
        final(game)@ == (GameView {
            player: falling_player(old(game)@, from, to, elapsed as int),
            camera: falling_camera(old(game)@, from, to, elapsed as int),
            ..old(game)@
        }),
{
    let at = interpolate_point(from, to, elapsed, ZOOM);
    let had_player = game.player.is_some();
    if game.camera.is_some() {
        game.player = scale_to(
            place(game.player, at),
            interpolate(WHOLE, FALL_PLAYER_SCALE, elapsed, ZOOM),
        );
    }
    if had_player {
        game.camera = place(game.camera, at);
    }
    game.camera = scale_to(game.camera, interpolate(WHOLE, FALL_CAMERA_SCALE, elapsed, ZOOM));
}

fn look_at_acorn(game: &mut Game)
    ensures
        final(game)@ == (GameView { camera: on_acorn(old(game)@), ..old(game)@ }),
{
    if game.state.scene_step == 0 {
        if let Some(acorn) = game.acorn {
            game.camera = place(game.camera, (acorn.x, acorn.y));
        }
    }
}

fn press_button(elements: &mut Vec<ButtonWall>, button: u32)
    ensures
        final(elements)@ == pressed(old(elements)@, button),
{
    let mut i: usize = 0;
    while i < elements.len()
        invariant
            i <= elements.len(),
            elements.len() == old(elements).len(),
            forall|k: int| 0 <= k < i ==> elements@[k] == pressed(old(elements)@, button)[k],
            forall|k: int| i <= k < elements.len() ==> elements@[k] == old(elements)@[k],
        decreases elements.len() - i,
    {
        if elements[i].button == button {
            let mut element = elements[i];
            element.pressed = true;
            elements.set(i, element);
        }
        i += 1;
    }
    assert(elements@ =~= pressed(old(elements)@, button));
}

fn open_wall(elements: &mut Vec<ButtonWall>, wall: u32)
    ensures
        final(elements)@ == opened(old(elements)@, wall),
{
    let mut i: usize = 0;
    while i < elements.len()
        invariant
            i <= elements.len(),
            elements.len() == old(elements).len(),
            forall|k: int| 0 <= k < i ==> elements@[k] == opened(old(elements)@, wall)[k],
            forall|k: int| i <= k < elements.len() ==> elements@[k] == old(elements)@[k],
        decreases elements.len() - i,
    {
        if elements[i].wall == wall {
            let mut element = elements[i];
            element.opened = true;
            elements.set(i, element);
        }
        i += 1;
    }
    assert(elements@ =~= opened(old(elements)@, wall));
}

/// Plays a frame of the introduction, if that is the scene.
pub fn run_intro(game: &mut Game, actions: &Actions, now: u64) -> (effects: Vec<Effect>)
    ensures
        final(game)@ == intro_tick(old(game)@, actions.skip_scene, now).game,
        effects@ == intro_tick(old(game)@, actions.skip_scene, now).effects,
{
    let mut effects: Vec<Effect> = Vec::new();
    if let Some(CutScene::Intro { camera_from, camera_to, acorn_falls }) = game.state.scene {
        let due = game.state.scene_step == 0;
        if actions.skip_scene {
            if due {
                game.acorn = rest(game.acorn, &game.map, acorn_falls);
                effects.push(rest_request(acorn_falls));
            }
            game.camera = place(game.camera, camera_from);
            game.state.scene = None;
            game.state.frozen = false;
        } else {
            let s = intro_times();
            let elapsed = game.state.elapsed_at(now);
            if s.pan as u64 <= elapsed && elapsed < s.rest as u64 {
                game.acorn = roll(game.acorn, &game.map, elapsed as u32 - s.pan);
            }
            if due && elapsed >= s.rest as u64 {
                game.state.scene_step = 1;
                game.acorn = rest(game.acorn, &game.map, acorn_falls);
                effects.push(rest_request(acorn_falls));
            }
            game.camera = travel_camera(game.camera, camera_from, camera_to, &s, elapsed);
            if elapsed >= s.back as u64 {
                game.state.scene = None;
                game.state.frozen = false;
            }
        }
    }
    assert(effects@ =~= intro_tick(old(game)@, actions.skip_scene, now).effects);
    effects
}

/// Plays a frame of the fall into the next map, if that is the scene.
pub fn run_transition_scene(game: &mut Game, actions: &Actions, now: u64) -> (effects: Vec<Effect>)
    ensures
        final(game)@ == transition_tick(old(game)@, actions.skip_scene, now).game,
        effects@ == transition_tick(old(game)@, actions.skip_scene, now).effects,
{
    let mut effects: Vec<Effect> = Vec::new();
    if let Some(CutScene::MapTransition { camera_from, camera_to, to }) = game.state.scene {
        if actions.skip_scene {
            effects.push(Effect::StopAudioEffects);
            effects.push(Effect::ChangeMap(to));
            fall(game, camera_from, camera_to, ZOOM);
            game.map = to;
            game.map_changed = true;
            game.state.scene = None;
            game.state.frozen = false;
        } else {
            if game.state.scene_step == 0 {
                game.state.scene_step = 1;
                effects.push(Effect::PauseBackground);
                effects.push(Effect::AudioEffect(Sound::Fall));
            }
            let elapsed = game.state.elapsed_at(now);
            if elapsed < ZOOM as u64 {
                fall(game, camera_from, camera_to, elapsed as u32);
            } else {
                effects.push(Effect::ChangeMap(to));
                fall(game, camera_from, camera_to, ZOOM);
                game.map = to;
                game.map_changed = true;
                game.state.scene = None;
                game.state.frozen = false;
            }
        }
    }
    assert(effects@ =~= transition_tick(old(game)@, actions.skip_scene, now).effects);
    effects
}

/// Plays a frame of the win, if that is the scene.
pub fn run_won_scene(game: &mut Game, actions: &Actions, now: u64) -> (effects: Vec<Effect>)
    ensures
        final(game)@ == won_tick(old(game)@, actions.skip_scene, now).game,
        effects@ == won_tick(old(game)@, actions.skip_scene, now).effects,
{
    let mut effects: Vec<Effect> = Vec::new();
    if let Some(CutScene::Won) = game.state.scene {
        if actions.skip_scene {
            effects.push(Effect::StopAudioEffects);
            effects.push(Effect::BackgroundAudio(BackgroundAudio::after_win()));
            effects.push(Effect::Won);
            look_at_acorn(game);
            game.camera = scale_to(game.camera, WON_CAMERA_SCALE);
            game.state.won = true;
            game.state.scene = None;
            game.state.frozen = false;
        } else {
            look_at_acorn(game);
            if game.state.scene_step == 0 {
                game.state.scene_step = 1;
                effects.push(Effect::PauseBackground);
                effects.push(Effect::AudioEffect(Sound::Won));
            }
            let elapsed = game.state.elapsed_at(now);
            if elapsed < ZOOM as u64 {
                game.camera = scale_to(
                    game.camera,
                    interpolate(WHOLE, WON_CAMERA_SCALE, elapsed as u32, ZOOM),
                );
            } else {
                effects.push(Effect::BackgroundAudio(BackgroundAudio::after_win()));
                effects.push(Effect::Won);
                game.camera = scale_to(game.camera, WON_CAMERA_SCALE);
                game.state.won = true;
                game.state.scene = None;
                game.state.frozen = false;
            }
        }
    }
    assert(effects@ =~= won_tick(old(game)@, actions.skip_scene, now).effects);
    effects
}

/// Plays a frame of a button going down, if that is the scene.
pub fn run_activate_button_scene(game: &mut Game, actions: &Actions, now: u64) -> (effects: Vec<Effect>)
    ensures
        final(game)@ == button_tick(old(game)@, actions.skip_scene, now).game,
        effects@ == button_tick(old(game)@, actions.skip_scene, now).effects,
{
    let mut effects: Vec<Effect> = Vec::new();
    if let Some(CutScene::ActivateButton { button, wall, camera_from, camera_to }) =
        game.state.scene {
        if actions.skip_scene {
            effects.push(Effect::StopAudioEffects);
            if game.state.scene_step == 0 {
                press_button(&mut game.elements, button);
                effects.push(Effect::PressButton(button));
            }
            if game.state.scene_step < 3 {
                open_wall(&mut game.elements, wall);
                effects.push(Effect::OpenWall(wall));
            }
            game.camera = place(game.camera, camera_from);
            game.state.scene = None;
            game.state.frozen = false;
        } else {
            let s = button_times();
            let elapsed = game.state.elapsed_at(now);
            if game.state.scene_step == 0 {
                game.state.scene_step = 1;
                press_button(&mut game.elements, button);
                effects.push(Effect::PressButton(button));
                effects.push(Effect::AudioEffect(Sound::ButtonClick));
            }
            if game.state.scene_step == 1 && elapsed >= s.hold as u64 {
                game.state.scene_step = 2;
                effects.push(Effect::AudioEffect(Sound::WallMoving));
            }
            if game.state.scene_step == 2 && elapsed >= s.pan as u64 {
                game.state.scene_step = 3;
                open_wall(&mut game.elements, wall);
                effects.push(Effect::OpenWall(wall));
            }
            game.camera = travel_camera(game.camera, camera_from, camera_to, &s, elapsed);
            if elapsed >= s.back as u64 {
                game.state.scene = None;
                game.state.frozen = false;
            }
        }
    }
    assert(effects@ =~= button_tick(old(game)@, actions.skip_scene, now).effects);
    effects
}

/// Plays a frame of whatever scene plays.
pub fn run_scene(game: &mut Game, actions: &Actions, now: u64) -> (effects: Vec<Effect>)
    ensures
        final(game)@ == direct(old(game)@, actions.skip_scene, now).game,
        effects@ == direct(old(game)@, actions.skip_scene, now).effects,
{
    match game.state.scene {
        Some(CutScene::Intro { .. }) => run_intro(game, actions, now),
        Some(CutScene::ActivateButton { .. }) => run_activate_button_scene(game, actions, now),
        Some(CutScene::MapTransition { .. }) => run_transition_scene(game, actions, now),
        Some(CutScene::Won) => run_won_scene(game, actions, now),
        None => Vec::new(),
    }
}

/// Looks at the requests of the frame.
pub fn trigger_scene(game: &mut Game, now: u64)
    ensures
        final(game)@ == triggered(old(game)@, now),
{
    if game.triggers.len() > 0 && game.state.scene.is_none() {
        game.state.scene = Some(game.triggers[0].scene);
        game.state.frozen = true;
        game.state.scene_start = now;
        game.state.scene_step = 0;
    }
    game.triggers = Vec::new();
}

} // verus!
