//! The player: how it moves over the grid, and where the camera may stand.

use vstd::prelude::*;
use crate::audio::BackgroundAudio;
use crate::game::{Game, GameView};
use crate::map::{ButtonWall, Collide, Dimensions};
use crate::scenes::{Effect, Outcome, TriggerScene};
use crate::units::{near, within, Point, HALF_TILE, SECOND, TILE_SIZE, WHOLE};

verus! {

/// Size of the visible part of the world.
#[derive(Clone, Copy, Debug, PartialEq, Eq, Structural)]
pub struct Viewport {
    pub width: u32,
    pub height: u32,
}

/// Where a sprite stands, how far it is turned (in thousandths of a full
/// turn) and how large it is drawn (in thousandths of its natural size).
#[derive(Clone, Copy, Debug, PartialEq, Eq, Structural)]
pub struct Transform {
    pub x: i64,
    pub y: i64,
    pub rotation: i64,
    pub scale: i64,
}

/// A sprite put at a point; nothing where there is no sprite.
pub open spec fn placed(sprite: Option<Transform>, at: Point) -> Option<Transform> {
    match sprite {
        Some(t) => Some(Transform { x: at.0, y: at.1, ..t }),
        None => None,
    }
}

/// A sprite drawn at a scale; nothing where there is no sprite.
pub open spec fn scaled(sprite: Option<Transform>, scale: i64) -> Option<Transform> {
    match sprite {
        Some(t) => Some(Transform { scale, ..t }),
        None => None,
    }
}

/// Computes `placed`.
pub fn place(sprite: Option<Transform>, at: Point) -> (put: Option<Transform>)
    ensures
        put == placed(sprite, at),
{
    match sprite {
        Some(t) => Some(Transform { x: at.0, y: at.1, rotation: t.rotation, scale: t.scale }),
        None => None,
    }
}

/// Computes `scaled`.
pub fn scale_to(sprite: Option<Transform>, scale: i64) -> (drawn: Option<Transform>)
    ensures
        drawn == scaled(sprite, scale),
{
    match sprite {
        Some(t) => Some(Transform { x: t.x, y: t.y, rotation: t.rotation, scale }),
        None => None,
    }
}

/// Speed of the player, in world units per second.
pub const SPEED: u64 = 250;

/// How close to the goal the player has to come to fall in.
pub const GOAL_RADIUS: u32 = 25000;

/// The direction the player wants to go, in thousandths: a vector of length
/// one, or no length at all.
#[derive(Clone, Copy, Debug, PartialEq, Eq, Structural)]
pub struct Intent {
    pub x: i16,
    pub y: i16,
}

/// What the input asks for in a frame.
#[derive(Clone, Copy, Debug, PartialEq, Eq)]
pub struct Actions {
    pub player_movement: Option<Intent>,
    pub skip_scene: bool,
}

/// Way made along one axis in `dt` when `part` of the speed goes that way. It
/// is rounded towards zero, so that both directions are treated alike.
pub open spec fn travel(part: int, dt: int) -> int {
    if part >= 0 {
        (part * SPEED * dt) / (SECOND as int)
    } else {
        -(((-part) * SPEED * dt) / (SECOND as int))
    }
}

/// The point along one axis whose cell decides over a move: the centre after
/// the move, pushed by half a tile, so that cells are told apart at their
/// borders and not at their anchors.
pub open spec fn probe(at: int, part: int, dt: int) -> int {
    at + travel(part, dt) + HALF_TILE
}

/// The cell a move leads into. A probe left of or below the grid has a
/// negative cell.
pub open spec fn target_cell(player: Transform, intent: Intent, dt: int) -> (int, int) {
    (
        probe(player.x as int, intent.x as int, dt) / (TILE_SIZE as int),
        probe(player.y as int, intent.y as int, dt) / (TILE_SIZE as int),
    )
}

/// Whether a tile blocks the cell.
pub open spec fn on_tile(colliders: Seq<Collide>, cell: (int, int)) -> bool {
    exists|i: int|
        0 <= i < colliders.len() && (#[trigger] colliders[i]).x == cell.0 && colliders[i].y
            == cell.1
}

/// Whether a closed wall blocks the cell.
pub open spec fn behind_wall(elements: Seq<ButtonWall>, cell: (int, int)) -> bool {
    exists|j: int|
        0 <= j < elements.len() && !(#[trigger] elements[j]).opened && elements[j].collide.x
            == cell.0 && elements[j].collide.y == cell.1
}

/// Whether a tile or a closed wall blocks the cell.
pub open spec fn blocked(colliders: Seq<Collide>, elements: Seq<ButtonWall>, cell: (int, int)) -> bool {
    on_tile(colliders, cell) || behind_wall(elements, cell)
}

/// Whether the move is refused: it leads off the grid or into a blocked cell.
pub open spec fn refused(g: GameView, player: Transform, intent: Intent, dt: int) -> bool {
    let cell = target_cell(player, intent, dt);
    ||| cell.0 < 0
    ||| cell.0 >= g.map.spec_dimensions().columns
    ||| cell.1 < 0
    ||| cell.1 >= g.map.spec_dimensions().rows
    ||| blocked(g.colliders, g.elements, cell)
}

/// The player after a move that was not refused.
pub open spec fn moved(player: Transform, intent: Intent, dt: int) -> Transform {
    Transform {
        x: (player.x + travel(intent.x as int, dt)) as i64,
        y: (player.y + travel(intent.y as int, dt)) as i64,
        ..player
    }
}

/// The game after the player's part of a frame that took `dt`. The player of
/// a frozen game stays; so does one without an intent, and one whose move is
/// refused: a move is made whole or not at all. A move that ends within
/// `GOAL_RADIUS` of the goal asks for the map's goal scene, and so does every
/// further such move: what keeps the player from asking twice is that a frame
/// freezes the game when it has looked at the request.
pub open spec fn step(g: GameView, actions: Actions, dt: int) -> GameView {
    if g.state.frozen {
        g
    } else {
        match (actions.player_movement, g.player) {
            (Some(intent), Some(player)) => {
                if refused(g, player, intent, dt) {
                    g
                } else {
                    let next = moved(player, intent, dt);
                    let goal = g.map.anchor(g.map.goal_slot());
                    GameView {
                        player: Some(next),
                        triggers: if near(
                            (next.x, next.y),
                            (goal.0 as i64, goal.1 as i64),
                            GOAL_RADIUS as int,
                        ) {
                            g.triggers.push(
                                TriggerScene { scene: g.map.spec_goal_scene((next.x, next.y)) },
                            )
                        } else {
                            g.triggers
                        },
                        ..g
                    }
                }
            },
            _ => g,
        }
    }
}

/// A move into a blocked cell leaves the player where it was.
pub proof fn law_blocked_move_stays(g: GameView, actions: Actions, dt: int)
    requires
        actions.player_movement is Some,
        g.player is Some,
        blocked(
            g.colliders,
            g.elements,
            target_cell(g.player.unwrap(), actions.player_movement.unwrap(), dt),
        ),
    ensures
        step(g, actions, dt) == g,
{
}

/// Without an intent to go anywhere the player stays, however long the frame.
pub proof fn law_zero_intent_stays(g: GameView, actions: Actions, dt: int)
    requires
        actions.player_movement == Some(Intent { x: 0, y: 0 }),
    ensures
        step(g, actions, dt).player == g.player,
{
    assert(travel(0, dt) == 0) by {
        assert(0 * SPEED * dt == 0) by (nonlinear_arith);
    }
}

/// A move that is made ends on the tiles of the grid.
pub proof fn law_moves_stay_on_grid(g: GameView, actions: Actions, dt: int)
    requires
        step(g, actions, dt).player != g.player,
    ensures
        ({
            let next = step(g, actions, dt).player.unwrap();
            &&& -HALF_TILE <= next.x < g.map.spec_dimensions().columns * TILE_SIZE - HALF_TILE
            &&& -HALF_TILE <= next.y < g.map.spec_dimensions().rows * TILE_SIZE - HALF_TILE
        }),
{
    let player = g.player.unwrap();
    let intent = actions.player_movement.unwrap();
    lemma_accepted_probe(player.x as int, intent.x as int, dt, g.map.spec_dimensions().columns as int);
    lemma_accepted_probe(player.y as int, intent.y as int, dt, g.map.spec_dimensions().rows as int);
}

/// A probe whose cell lies on the grid lies on the grid itself.
proof fn lemma_accepted_probe(at: int, part: int, dt: int, tiles: int)
    requires
        0 <= probe(at, part, dt) / (TILE_SIZE as int) < tiles,
    ensures
        0 <= probe(at, part, dt) < tiles * TILE_SIZE,
{
}

fn magnitude(part: i16) -> (size: u64)
    ensures
        size == if part >= 0 {
            part as int
        } else {
            -(part as int)
        },
{
    if part >= 0 {
        part as u64
    } else {
        (-(part as i64)) as u64
    }
}

fn travelled(part: i16, dt: u32) -> (way: i64)
    ensures
        way == travel(part as int, dt as int),
        -0x80_0000_0000_0000 <= way <= 0x80_0000_0000_0000,
{
    let size: u64 = magnitude(part);
    assert(size * SPEED * dt <= 32768 * 250 * 0x1_0000_0000) by (nonlinear_arith)
        requires
            size <= 32768,
            SPEED == 250,
            dt < 0x1_0000_0000,
    ;
    let way: u64 = size * SPEED * (dt as u64) / SECOND;
    if part >= 0 {
        way as i64
    } else {
        -(way as i64)
    }
}

fn probed(at: i64, way: i64) -> (point: i128)
    requires
        -0x80_0000_0000_0000 <= way <= 0x80_0000_0000_0000,
    ensures
        point == at + way + HALF_TILE,
{
    at as i128 + way as i128 + HALF_TILE as i128
}

/// Computes `blocked`.
pub fn is_blocked(colliders: &Vec<Collide>, elements: &Vec<ButtonWall>, x: usize, y: usize) -> (hit: bool)
    ensures
        hit == blocked(colliders@, elements@, (x as int, y as int)),
{
    let mut i: usize = 0;
    while i < colliders.len()
        invariant
            i <= colliders.len(),
            forall|k: int| 0 <= k < i ==> !((#[trigger] colliders[k]).x == x && colliders[k].y == y),
        decreases colliders.len() - i,
    {
        if colliders[i].x == x && colliders[i].y == y {
            return true;
        }
        i += 1;
    }
    let mut j: usize = 0;
    while j < elements.len()
        invariant
            j <= elements.len(),
            forall|k: int| 0 <= k < colliders.len() ==> !((#[trigger] colliders[k]).x == x && colliders[k].y == y),
            forall|k: int|
                0 <= k < j ==> !(!(#[trigger] elements[k]).opened && elements[k].collide.x == x
                    && elements[k].collide.y == y),
        decreases elements.len() - j,
    {
        if !elements[j].opened && elements[j].collide.x == x && elements[j].collide.y == y {
            return true;
        }
        j += 1;
    }
    false
}

/// Moves the player for a frame that took `dt`.
pub fn move_player(game: &mut Game, actions: &Actions, dt: u32)
    ensures
        final(game)@ == step(old(game)@, *actions, dt as int),
        actions.player_movement is Some && old(game).player is Some && blocked(
            old(game).colliders@,
            old(game).elements@,
            target_cell(old(game).player.unwrap(), actions.player_movement.unwrap(), dt as int),
        ) ==> final(game)@ == old(game)@,
        actions.player_movement == Some(Intent { x: 0, y: 0 }) ==> final(game).player == old(
            game,
        ).player,
{
    proof {
        if actions.player_movement == Some(Intent { x: 0, y: 0 }) {
            law_zero_intent_stays(game@, *actions, dt as int);
        }
    }
    if game.state.frozen {
        return ;
    }
    let intent = match actions.player_movement {
        Some(intent) => intent,
        None => { return ; },
    };
    let player = match game.player {
        Some(player) => player,
        None => { return ; },
    };
    let way_x: i64 = travelled(intent.x, dt);
    let way_y: i64 = travelled(intent.y, dt);
    let probe_x: i128 = probed(player.x, way_x);
    let probe_y: i128 = probed(player.y, way_y);
    let dimensions = game.map.dimensions();
    if probe_x < 0 || probe_y < 0 {
        return ;
    }
    let x: i128 = probe_x / (TILE_SIZE as i128);
    let y: i128 = probe_y / (TILE_SIZE as i128);
    if x >= dimensions.columns as i128 || y >= dimensions.rows as i128 {
        return ;
    }
    if is_blocked(&game.colliders, &game.elements, x as usize, y as usize) {
        return ;
    }
    let next = Transform {
        x: (player.x as i128 + way_x as i128) as i64,
        y: (player.y as i128 + way_y as i128) as i64,
        rotation: player.rotation,
        scale: player.scale,
    };
    game.player = Some(next);
    let goal = game.map.goal_position();
    if within((next.x, next.y), goal, GOAL_RADIUS) {
        if let Some(scene) = game.map.goal_scene((next.x, next.y)) {
            game.triggers.push(TriggerScene { scene });
        }
    }
}

/// Where the camera stands along one axis when it looks at `at`: as close to
/// `at` as it gets without showing anything beyond the map's border tiles, and
/// over the middle of the map where the map is no wider than the view.
pub open spec fn camera_axis(at: int, view: int, tiles: int) -> int {
    let low = view / 2 - HALF_TILE;
    let high = tiles * TILE_SIZE - view / 2 - HALF_TILE;
    if low < high {
        if at < low {
            low
        } else if at > high {
            high
        } else {
            at
        }
    } else {
        (tiles - 1) * HALF_TILE
    }
}

/// Where the camera stands when it looks at `at`.
pub open spec fn camera_position(at: (int, int), window: Viewport, map_dimensions: Dimensions) -> Point {
    (
        camera_axis(at.0, window.width as int, map_dimensions.columns as int) as i64,
        camera_axis(at.1, window.height as int, map_dimensions.rows as int) as i64,
    )
}

fn camera_on_axis(at: i64, view: u32, tiles: usize) -> (camera: i64)
    requires
        1 <= tiles <= crate::map::MAX_SIDE,
    ensures
        camera == camera_axis(at as int, view as int, tiles as int),
{
    let low: i64 = (view / 2) as i64 - HALF_TILE;
    let high: i64 = tiles as i64 * TILE_SIZE - (view / 2) as i64 - HALF_TILE;
    if low < high {
        if at < low {
            low
        } else if at > high {
            high
        } else {
            at
        }
    } else {
        (tiles - 1) as i64 * HALF_TILE
    }
}

/// Computes `camera_position`.
pub fn calc_camera_position(x: i64, y: i64, window: &Viewport, map_dimensions: &Dimensions) -> (camera: Point)
    requires
        map_dimensions.well_formed(),
    ensures
        camera == camera_position((x as int, y as int), *window, *map_dimensions),
{
    (
        camera_on_axis(x, window.width, map_dimensions.columns),
        camera_on_axis(y, window.height, map_dimensions.rows),
    )
}

/// The game after the camera's part of a frame: where the player may move,
/// the camera follows it as far as the map lets it.
pub open spec fn followed(g: GameView, actions: Actions, window: Viewport) -> GameView {
    if actions.player_movement is None || g.state.frozen {
        g
    } else {
        match g.player {
            Some(player) => GameView {
                camera: placed(
                    g.camera,
                    camera_position(
                        (player.x as int, player.y as int),
                        window,
                        g.map.spec_dimensions(),
                    ),
                ),
                ..g
            },
            None => g,
        }
    }
}

/// Lets the camera follow the player.
pub fn move_camera(game: &mut Game, actions: &Actions, window: &Viewport)
    ensures
        final(game)@ == followed(old(game)@, *actions, *window),
{
    if actions.player_movement.is_none() || game.state.frozen {
        return ;
    }
    if let Some(player) = game.player {
        let at = calc_camera_position(player.x, player.y, window, &game.map.dimensions());
        game.camera = place(game.camera, at);
    }
}

/// The player as it enters a map: on the start, upright and at full size.
pub open spec fn entering(g: GameView) -> Transform {
    let start = g.map.anchor(g.map.start_slot());
    Transform { x: start.0 as i64, y: start.1 as i64, rotation: 0, scale: WHOLE }
}

/// Puts the player on the start of the map.
pub fn spawn_player(game: &mut Game)
    ensures
        final(game)@ == (GameView { player: Some(entering(old(game)@)), ..old(game)@ }),
{
    let start = game.map.start_position();
    game.player = Some(Transform { x: start.0, y: start.1, rotation: 0, scale: WHOLE });
}

/// Takes the player off the map.
pub fn remove_player(game: &mut Game)
    ensures
        final(game)@ == (GameView { player: None, ..old(game)@ }),
{
    game.player = None;
}

/// The game after a map that was set has been entered: the player stands on
/// the start at full size, the camera on it as far as the map lets it, and
/// the music of the map is asked for. Nothing happens while the map is the
/// one that was drawn.
pub open spec fn reset(g: GameView, window: Viewport) -> Outcome {
    if g.map_changed {
        let start = g.map.anchor(g.map.start_slot());
        Outcome {
            game: GameView {
                player: scaled(placed(g.player, (start.0 as i64, start.1 as i64)), WHOLE),
                camera: scaled(
                    placed(g.camera, camera_position(start, window, g.map.spec_dimensions())),
                    WHOLE,
                ),
                ..g
            },
            effects: seq![Effect::BackgroundAudio(BackgroundAudio::spec_of_map(g.map))],
        }
    } else {
        Outcome { game: g, effects: Seq::empty() }
    }
}

/// Puts the player and the camera on the start of a map that was set.
pub fn reset_player_position(game: &mut Game, window: &Viewport) -> (effects: Vec<Effect>)
    ensures
        final(game)@ == reset(old(game)@, *window).game,
        effects@ == reset(old(game)@, *window).effects,
{
    let mut effects: Vec<Effect> = Vec::new();
    if game.map_changed {
        let start = game.map.start_position();
        game.player = scale_to(place(game.player, start), WHOLE);
        let at = calc_camera_position(start.0, start.1, window, &game.map.dimensions());
        game.camera = scale_to(place(game.camera, at), WHOLE);
        effects.push(Effect::BackgroundAudio(BackgroundAudio::of_map(&game.map)));
    }
    effects
}

} // verus!
