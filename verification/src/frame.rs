//! A frame of the game: every step in its place.
//!
//! The steps read what earlier steps of the same frame have written: a map
//! that was set is drawn before anything moves on it, the player moves before
//! the camera follows, the scene that plays is advanced after both, and a
//! scene that was asked for starts last, so that its first frame is the next.

use vstd::prelude::*;
use crate::game::{Game, GameView};
use crate::map::grid::{draw_map, drawn, drawn_tiles, MapData, MapTile};
use crate::map::{check_active_elements, checked, draw_active_elements, elements_redrawn};
use crate::player::{
    followed, move_camera, move_player, reset, reset_player_position, step, Actions, Viewport,
};
use crate::scenes::{direct, run_scene, trigger_scene, triggered, Effect};

verus! {

/// What a frame is given.
#[derive(Clone, Copy, Debug, PartialEq, Eq)]
pub struct Input {
    /// Time since the game started.
    pub now: u64,
    /// Time since the last frame.
    pub delta: u32,
    /// What the player asks for.
    pub actions: Actions,
    /// Size of the view.
    pub window: Viewport,
}

/// What a frame hands out.
#[derive(Debug, PartialEq, Eq)]
pub struct Output {
    /// The tiles to draw in place of those shown, if a map was drawn.
    pub tiles: Option<Vec<MapTile>>,
    /// What the frame asks of the world outside, in order.
    pub effects: Vec<Effect>,
}

/// The game once a grid that has come has been put up: the grid drawn, the
/// buttons of a map that was set drawn, the player and the camera at its
/// start. The map then counts as drawn. Without a grid nothing is put up.
pub open spec fn staged(g: GameView, input: Input, data: Option<MapData>) -> GameView {
    match data {
        Some(d) => GameView {
            map_changed: false,
            ..reset(elements_redrawn(drawn(g, d, input.window)), input.window).game
        },
        None => g,
    }
}

/// What putting up a grid asks for: the music of a map that was set.
pub open spec fn staged_effects(g: GameView, input: Input, data: Option<MapData>) -> Seq<Effect> {
    match data {
        Some(d) => reset(elements_redrawn(drawn(g, d, input.window)), input.window).effects,
        None => Seq::empty(),
    }
}

/// The game when the player has moved, the camera has followed and the
/// buttons have been looked at.
pub open spec fn played(g: GameView, input: Input, data: Option<MapData>) -> GameView {
    checked(
        followed(
            step(staged(g, input, data), input.actions, input.delta as int),
            input.actions,
            input.window,
        ),
        input.window,
    )
}

/// The game after a frame.
pub open spec fn frame_game(g: GameView, input: Input, data: Option<MapData>) -> GameView {
    triggered(direct(played(g, input, data), input.actions.skip_scene, input.now).game, input.now)
}

/// What a frame asks for: first what putting up the map asks for, then what
/// the scene asks for.
pub open spec fn frame_effects(g: GameView, input: Input, data: Option<MapData>) -> Seq<Effect> {
    staged_effects(g, input, data) + direct(
        played(g, input, data),
        input.actions.skip_scene,
        input.now,
    ).effects
}

/// Plays a frame. `map_data` is the grid of the map that was set, if it has
/// just been loaded: a map is put up in the first frame that has its grid.
pub fn frame(game: &mut Game, input: &Input, map_data: Option<MapData>) -> (output: Output)
    ensures
        final(game)@ == frame_game(old(game)@, *input, map_data),
        output.effects@ == frame_effects(old(game)@, *input, map_data),
        match map_data {
            Some(data) => output.tiles is Some && output.tiles.unwrap()@ == drawn_tiles(
                data,
                data.layer_count() as int,
            ),
            None => output.tiles is None,
        },
{
    let mut effects: Vec<Effect> = Vec::new();
    let loaded = map_data.is_some();
    let tiles = draw_map(game, map_data, &input.window);
    if loaded {
        draw_active_elements(game);
        effects = reset_player_position(game, &input.window);
        game.map_changed = false;
    }
    move_player(game, &input.actions, input.delta);
    move_camera(game, &input.actions, &input.window);
    check_active_elements(game, &input.window);
    let mut of_scene = run_scene(game, &input.actions, input.now);
    effects.append(&mut of_scene);
    trigger_scene(game, input.now);
    Output { tiles, effects }
}

/// A frame leaves no request behind, keeps the player held exactly while a
/// scene plays, and starts the first scene that was asked for if none played:
/// from then on the player is held, so that what asked for the scene cannot
/// ask again.
pub proof fn law_frame_settles_requests(g: GameView, input: Input, data: Option<MapData>)
    ensures
        ({
            let asked = direct(played(g, input, data), input.actions.skip_scene, input.now).game;
            let after = frame_game(g, input, data);
            &&& after.triggers.len() == 0
            &&& g.state.well_formed() ==> after.state.well_formed()
            &&& asked.triggers.len() > 0 && asked.state.scene is None ==> after.state.scene
                == Some(asked.triggers[0].scene) && after.state.frozen && after.state.scene_step
                == 0 && after.state.scene_start == input.now
            &&& after.state.frozen ==> step(after, input.actions, input.delta as int) == after
        }),
{
}

/// While a scene plays and no grid comes, a frame of the game is a frame of
/// the scene and nothing else: nothing moves but what the scene moves.
pub proof fn law_scene_frames(g: GameView, input: Input)
    requires
        g.state.frozen,
        g.triggers.len() == 0,
    ensures
        frame_game(g, input, None) == direct(g, input.actions.skip_scene, input.now).game,
        frame_effects(g, input, None) == direct(g, input.actions.skip_scene, input.now).effects,
{
    let scene = direct(g, input.actions.skip_scene, input.now);
    assert(checked(g, input.window) == g);
    assert(scene.game.triggers == g.triggers);
    assert(triggered(scene.game, input.now).triggers =~= scene.game.triggers);
    assert(Seq::<Effect>::empty() + scene.effects =~= scene.effects);
}

/// A scene that is asked for in a frame plays from the next frame on: a frame
/// that begins without a scene asks for nothing of a scene.
pub proof fn law_scenes_start_with_the_next_frame(g: GameView, input: Input, data: Option<MapData>)
    requires
        g.state.scene is None,
    ensures
        frame_effects(g, input, data) == staged_effects(g, input, data),
        frame_game(g, input, data).state.scene_step == 0 || frame_game(g, input, data).state
            == g.state,
{
    let asked = played(g, input, data);
    assert(asked.state == g.state);
    assert(staged_effects(g, input, data) + Seq::<Effect>::empty() =~= staged_effects(
        g,
        input,
        data,
    ));
}

} // verus!
