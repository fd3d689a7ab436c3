//! The maps of the game: their fixed anchors and buttons, the tile grid that a
//! loaded map is turned into, and the collision cells drawn from it.

pub mod grid;

use vstd::prelude::*;
use crate::game::{Game, GameView};
use crate::player::{calc_camera_position, camera_position, Viewport};
use crate::scenes::{CutScene, TriggerScene};
use crate::units::{near, within, Point, TILE_SIZE};

verus! {

/// How close to a button the player has to come to press it.
pub const BUTTON_RADIUS: u32 = 25000;

/// Largest number of columns or rows a map may have.
pub const MAX_SIDE: usize = 1000000;

/// A cell of a map, counted from the map's first column and first row.
#[derive(Clone, Copy, Debug, PartialEq, Eq, Structural)]
pub struct Slot {
    pub column: usize,
    pub row: usize,
}

/// The size of a map in tiles.
#[derive(Clone, Copy, Debug, PartialEq, Eq, Structural)]
pub struct Dimensions {
    pub columns: usize,
    pub rows: usize,
}

impl Dimensions {
    /// A map has at least one tile and at most `MAX_SIDE` tiles each way.
    pub open spec fn well_formed(&self) -> bool {
        &&& 1 <= self.columns <= MAX_SIDE
        &&& 1 <= self.rows <= MAX_SIDE
    }
}

/// A button and the wall it opens, both given as cells counted from the top
/// row of the map.
#[derive(Clone, Copy, Debug, PartialEq, Eq, Structural)]
pub enum ActiveElement {
    Button { position: Slot, connected_wall: Slot },
}

/// A cell that blocks the player.
#[derive(Clone, Copy, Debug, PartialEq, Eq, Structural)]
pub struct Collide {
    pub x: usize,
    pub y: usize,
}

/// A button and its wall as they stand on the drawn map.
#[derive(Clone, Copy, Debug, PartialEq, Eq, Structural)]
pub struct ButtonWall {
    /// Cell of the button, counted from the top row.
    pub button_slot: Slot,
    /// Cell of the wall, counted from the top row.
    pub wall_slot: Slot,
    /// Handle of the button's sprite.
    pub button: u32,
    /// Handle of the wall's sprite.
    pub wall: u32,
    /// The button still waits to be stepped on.
    pub trigger: bool,
    /// The button is shown pressed.
    pub pressed: bool,
    /// The wall is shown open and blocks nothing.
    pub opened: bool,
    /// The cell the wall blocks until it is opened.
    pub collide: Collide,
}

/// The maps, in the order in which the player passes through them.
#[derive(Clone, Copy, Debug, PartialEq, Eq, Structural)]
pub enum MapId {
    Ground,
    Dirt,
    Stone,
    Lava,
}

impl MapId {
    /// Name of the map.
    pub open spec fn spec_name(&self) -> Seq<char> {
        match self {
            MapId::Ground => "ground"@,
            MapId::Dirt => "dirt"@,
            MapId::Stone => "stone"@,
            MapId::Lava => "lava"@,
        }
    }

    /// Path of the map's file below the asset folder.
    pub open spec fn spec_file(&self) -> Seq<char> {
        match self {
            MapId::Ground => "map/ground.tmx"@,
            MapId::Dirt => "map/dirt.tmx"@,
            MapId::Stone => "map/stone.tmx"@,
            MapId::Lava => "map/lava.tmx"@,
        }
    }

    /// Size of the map.
    pub open spec fn spec_dimensions(&self) -> Dimensions {
        match self {
            MapId::Lava => Dimensions { columns: 30, rows: 30 },
            _ => Dimensions { columns: 20, rows: 20 },
        }
    }

    /// Cell at which the player enters the map, counted from the top row.
    pub open spec fn start_slot(&self) -> Slot {
        match self {
            MapId::Ground => Slot { column: 1, row: 0 },
            MapId::Dirt => Slot { column: 18, row: 16 },
            MapId::Stone => Slot { column: 7, row: 12 },
            MapId::Lava => Slot { column: 6, row: 23 },
        }
    }

    /// Cell of the hole the player has to reach, counted from the top row.
    pub open spec fn goal_slot(&self) -> Slot {
        match self {
            MapId::Ground => Slot { column: 9, row: 10 },
            MapId::Dirt => Slot { column: 12, row: 8 },
            MapId::Stone => Slot { column: 14, row: 5 },
            MapId::Lava => Slot { column: 22, row: 22 },
        }
    }

    /// Cell on which the acorn lies, counted from the top row.
    pub open spec fn acorn_slot(&self) -> Slot {
        match self {
            MapId::Ground => Slot { column: 8, row: 10 },
            MapId::Dirt => Slot { column: 10, row: 8 },
            MapId::Stone => Slot { column: 14, row: 7 },
            MapId::Lava => Slot { column: 22, row: 20 },
        }
    }

    /// The map that follows this one, if any.
    pub open spec fn next_map_on_goal(&self) -> Option<MapId> {
        match self {
            MapId::Ground => Some(MapId::Dirt),
            MapId::Dirt => Some(MapId::Stone),
            MapId::Stone => Some(MapId::Lava),
            MapId::Lava => None,
        }
    }

    /// The buttons of the map with their walls.
    pub open spec fn spec_active_elements(&self) -> Seq<ActiveElement> {
        match self {
            MapId::Ground => seq![
                ActiveElement::Button {
                    position: Slot { column: 5, row: 7 },
                    connected_wall: Slot { column: 2, row: 17 },
                },
                ActiveElement::Button {
                    position: Slot { column: 13, row: 9 },
                    connected_wall: Slot { column: 7, row: 10 },
                },
            ],
            _ => seq![],
        }
    }

    /// Whether the cell lies on the map.
    pub open spec fn holds(&self, slot: Slot) -> bool {
        slot.column < self.spec_dimensions().columns && slot.row < self.spec_dimensions().rows
    }

    /// The same cell counted from the bottom row, as the grid counts.
    pub open spec fn flipped(&self, slot: Slot) -> Slot
        recommends
            slot.row < self.spec_dimensions().rows,
    {
        Slot { column: slot.column, row: (self.spec_dimensions().rows - slot.row - 1) as usize }
    }

    /// World position of the anchor of a cell that is counted from the top row.
    pub open spec fn anchor(&self, slot: Slot) -> (int, int)
        recommends
            slot.row < self.spec_dimensions().rows,
    {
        (slot.column * TILE_SIZE, (self.spec_dimensions().rows - slot.row - 1) * TILE_SIZE)
    }

    /// The scene that plays when the map has been drawn: the camera, as the
    /// viewport lets it stand over the start, travels to where it may stand
    /// over the goal and back; on the last map the acorn stays.
    pub open spec fn spec_intro_scene(&self, window: Viewport) -> CutScene {
        CutScene::Intro {
            camera_from: camera_position(
                self.anchor(self.start_slot()),
                window,
                self.spec_dimensions(),
            ),
            camera_to: camera_position(
                self.anchor(self.goal_slot()),
                window,
                self.spec_dimensions(),
            ),
            acorn_falls: *self != MapId::Lava,
        }
    }

    /// The scene that plays when the player reaches the goal from `from`: the
    /// fall into the next map, towards where that map has its goal, or the
    /// win on the last one.
    pub open spec fn spec_goal_scene(&self, from: Point) -> CutScene {
        match self.next_map_on_goal() {
            Some(to) => CutScene::MapTransition {
                camera_from: from,
                camera_to: (
                    to.anchor(to.goal_slot()).0 as i64,
                    to.anchor(to.goal_slot()).1 as i64,
                ),
                to,
            },
            None => CutScene::Won,
        }
    }

    /// Name of the map.
    pub fn name(&self) -> (name: &'static str)
        ensures
            name@ == self.spec_name(),
    {
        match self {
            MapId::Ground => "ground",
            MapId::Dirt => "dirt",
            MapId::Stone => "stone",
            MapId::Lava => "lava",
        }
    }

    /// Path of the map's file below the asset folder.
    pub fn file(&self) -> (file: &'static str)
        ensures
            file@ == self.spec_file(),
    {
        match self {
            MapId::Ground => "map/ground.tmx",
            MapId::Dirt => "map/dirt.tmx",
            MapId::Stone => "map/stone.tmx",
            MapId::Lava => "map/lava.tmx",
        }
    }

    /// Size of the map.
    pub fn dimensions(&self) -> (dimensions: Dimensions)
        ensures
            dimensions == self.spec_dimensions(),
            dimensions.well_formed(),
    {
        match self {
            MapId::Lava => Dimensions { columns: 30, rows: 30 },
            _ => Dimensions { columns: 20, rows: 20 },
        }
    }

    /// World position at which the player enters the map.
    pub fn start_position(&self) -> (position: Point)
        ensures
            (position.0 as int, position.1 as int) == self.anchor(self.start_slot()),
    {
        match self {
            MapId::Ground => self.position_from_slot(Slot { column: 1, row: 0 }),
            MapId::Dirt => self.position_from_slot(Slot { column: 18, row: 16 }),
            MapId::Stone => self.position_from_slot(Slot { column: 7, row: 12 }),
            MapId::Lava => self.position_from_slot(Slot { column: 6, row: 23 }),
        }
    }

    /// World position of the hole the player has to reach.
    pub fn goal_position(&self) -> (position: Point)
        ensures
            (position.0 as int, position.1 as int) == self.anchor(self.goal_slot()),
    {
        match self {
            MapId::Ground => self.position_from_slot(Slot { column: 9, row: 10 }),
            MapId::Dirt => self.position_from_slot(Slot { column: 12, row: 8 }),
            MapId::Stone => self.position_from_slot(Slot { column: 14, row: 5 }),
            MapId::Lava => self.position_from_slot(Slot { column: 22, row: 22 }),
        }
    }

    /// World position on which the acorn lies.
    pub fn acorn_position(&self) -> (position: Point)
        ensures
            (position.0 as int, position.1 as int) == self.anchor(self.acorn_slot()),
    {
        match self {
            MapId::Ground => self.position_from_slot(Slot { column: 8, row: 10 }),
            MapId::Dirt => self.position_from_slot(Slot { column: 10, row: 8 }),
            MapId::Stone => self.position_from_slot(Slot { column: 14, row: 7 }),
            MapId::Lava => self.position_from_slot(Slot { column: 22, row: 20 }),
        }
    }

    /// Turns a cell counted from the top row into the same cell counted from
    /// the bottom row.
    pub fn tiled_slot_to_bevy_slot(&self, slot: Slot) -> (flipped: Slot)
        requires
            slot.row < self.spec_dimensions().rows,
        ensures
            flipped == self.flipped(slot),
    {
        Slot { column: slot.column, row: self.dimensions().rows - slot.row - 1 }
    }

    /// World position of the anchor of a cell that is counted from the top
    /// row.
    pub fn position_from_slot(&self, slot: Slot) -> (position: Point)
        requires
            slot.row < self.spec_dimensions().rows,
            slot.column * TILE_SIZE <= i64::MAX,
        ensures
            (position.0 as int, position.1 as int) == self.anchor(slot),
    {
        let dimensions = self.dimensions();
        (slot.column as i64 * TILE_SIZE, (dimensions.rows - slot.row - 1) as i64 * TILE_SIZE)
    }

    /// The scene that plays when the map has been drawn.
    pub fn intro_scene(&self, window: &Viewport) -> (scene: Option<CutScene>)
        ensures
            scene == Some(self.spec_intro_scene(*window)),
    {
        let start = self.start_position();
        let goal = self.goal_position();
        let camera_from = calc_camera_position(start.0, start.1, window, &self.dimensions());
        let camera_to = calc_camera_position(goal.0, goal.1, window, &self.dimensions());
        match self {
            MapId::Lava => Some(CutScene::Intro { camera_from, camera_to, acorn_falls: false }),
            _ => Some(CutScene::Intro { camera_from, camera_to, acorn_falls: true }),
        }
    }

    /// The scene that plays when the player reaches the goal from `from`.
    pub fn goal_scene(&self, from: Point) -> (scene: Option<CutScene>)
        ensures
            scene == Some(self.spec_goal_scene(from)),
    {
        match self {
            MapId::Ground => Some(
                CutScene::MapTransition {
                    to: MapId::Dirt,
                    camera_to: MapId::Dirt.goal_position(),
                    camera_from: from,
                },
            ),
            MapId::Dirt => Some(
                CutScene::MapTransition {
                    to: MapId::Stone,
                    camera_to: MapId::Stone.goal_position(),
                    camera_from: from,
                },
            ),
            MapId::Stone => Some(
                CutScene::MapTransition {
                    to: MapId::Lava,
                    camera_to: MapId::Lava.goal_position(),
                    camera_from: from,
                },
            ),
            MapId::Lava => Some(CutScene::Won),
        }
    }

    /// The buttons of the map with their walls.
    pub fn active_elements(&self) -> (elements: Vec<ActiveElement>)
        ensures
            elements@ == self.spec_active_elements(),
    {
        match self {
            MapId::Ground => {
                let mut elements: Vec<ActiveElement> = Vec::new();
                elements.push(
                    ActiveElement::Button {
                        position: Slot { column: 5, row: 7 },
                        connected_wall: Slot { column: 2, row: 17 },
                    },
                );
                elements.push(
                    ActiveElement::Button {
                        position: Slot { column: 13, row: 9 },
                        connected_wall: Slot { column: 7, row: 10 },
                    },
                );
                assert(elements@ =~= self.spec_active_elements());
                elements
            },
            _ => Vec::new(),
        }
    }
}

/// The start, the goal, the acorn and every button and wall of a map lie on
/// the map.
pub proof fn lemma_anchors_on_map(map: MapId)
    ensures
        map.holds(map.start_slot()),
        map.holds(map.goal_slot()),
        map.holds(map.acorn_slot()),
        forall|i: int|
            0 <= i < map.spec_active_elements().len() ==> map.holds(
                (#[trigger] map.spec_active_elements()[i])->position,
            ) && map.holds(map.spec_active_elements()[i]->connected_wall),
{
}

/// The `index`th button of a map as it is first drawn: armed, up, its wall
/// closed and blocking the wall's cell. The button's sprite gets the handle
/// `2 * index`, the wall's the next one.
pub open spec fn element_drawn(map: MapId, element: ActiveElement, index: int) -> ButtonWall {
    ButtonWall {
        button_slot: element->position,
        wall_slot: element->connected_wall,
        button: (2 * index) as u32,
        wall: (2 * index + 1) as u32,
        trigger: true,
        pressed: false,
        opened: false,
        collide: Collide {
            x: map.flipped(element->connected_wall).column,
            y: map.flipped(element->connected_wall).row,
        },
    }
}

/// The buttons of a map as they are first drawn.
pub open spec fn elements_drawn(map: MapId) -> Seq<ButtonWall> {
    Seq::new(
        map.spec_active_elements().len(),
        |i: int| element_drawn(map, map.spec_active_elements()[i], i),
    )
}

/// The game after the buttons of a map that was set have been drawn in place
/// of those that were there. Nothing happens while the map is the one that
/// was drawn.
pub open spec fn elements_redrawn(g: GameView) -> GameView {
    if g.map_changed {
        GameView { elements: elements_drawn(g.map), ..g }
    } else {
        g
    }
}

/// Draws the buttons and walls of a map that was set.
pub fn draw_active_elements(game: &mut Game)
    ensures
        final(game)@ == elements_redrawn(old(game)@),
{
    if !game.map_changed {
        return ;
    }
    let active_elements = game.map.active_elements();
    let mut elements: Vec<ButtonWall> = Vec::new();
    let mut i: usize = 0;
    proof {
        lemma_anchors_on_map(game.map);
    }
    while i < active_elements.len()
        invariant
            i <= active_elements.len() <= 2,
            active_elements@ == game.map.spec_active_elements(),
            forall|k: int|
                0 <= k < active_elements.len() ==> game.map.holds(
                    (#[trigger] active_elements[k])->connected_wall,
                ),
            elements@.len() == i,
            forall|k: int|
                0 <= k < i ==> #[trigger] elements@[k] == element_drawn(
                    game.map,
                    active_elements[k],
                    k,
                ),
        decreases active_elements.len() - i,
    {
        match active_elements[i] {
            ActiveElement::Button { position, connected_wall } => {
                let wall = game.map.tiled_slot_to_bevy_slot(connected_wall);
                elements.push(
                    ButtonWall {
                        button_slot: position,
                        wall_slot: connected_wall,
                        button: 2 * (i as u32),
                        wall: 2 * (i as u32) + 1,
                        trigger: true,
                        pressed: false,
                        opened: false,
                        collide: Collide { x: wall.column, y: wall.row },
                    },
                );
            },
        }
        i += 1;
    }
    assert(elements@ =~= elements_drawn(game.map));
    game.elements = elements;
}

/// Whether the player stands on a button that still waits for it. A button
/// that does not lie on the map, or whose wall does not, waits for nobody.
pub open spec fn stepped_on(g: GameView, element: ButtonWall) -> bool {
    &&& element.trigger
    &&& g.map.holds(element.button_slot)
    &&& g.map.holds(element.wall_slot)
    &&& g.player matches Some(player) && near(
        (player.x, player.y),
        (
            g.map.anchor(element.button_slot).0 as i64,
            g.map.anchor(element.button_slot).1 as i64,
        ),
        BUTTON_RADIUS as int,
    )
}

/// The scene of a button that goes down: the camera travels from where it
/// may stand over the player to where it may stand over the wall.
pub open spec fn button_scene(g: GameView, element: ButtonWall, window: Viewport) -> CutScene {
    let player = g.player.unwrap();
    CutScene::ActivateButton {
        button: element.button,
        wall: element.wall,
        camera_from: camera_position(
            (player.x as int, player.y as int),
            window,
            g.map.spec_dimensions(),
        ),
        camera_to: camera_position(
            g.map.anchor(element.wall_slot),
            window,
            g.map.spec_dimensions(),
        ),
    }
}

/// The scenes that the first `upto` buttons ask for, in the order of the
/// buttons.
pub open spec fn button_requests(g: GameView, window: Viewport, upto: int) -> Seq<TriggerScene>
    decreases upto,
{
    if upto <= 0 {
        Seq::empty()
    } else {
        let before = button_requests(g, window, upto - 1);
        if stepped_on(g, g.elements[upto - 1]) {
            before.push(TriggerScene { scene: button_scene(g, g.elements[upto - 1], window) })
        } else {
            before
        }
    }
}

/// The game after the buttons' part of a frame: every button the player
/// stands on stops waiting and asks for its scene. Nothing happens while the
/// game is frozen.
pub open spec fn checked(g: GameView, window: Viewport) -> GameView {
    if g.state.frozen {
        g
    } else {
        GameView {
            elements: Seq::new(
                g.elements.len(),
                |i: int|
                    if stepped_on(g, g.elements[i]) {
                        ButtonWall { trigger: false, ..g.elements[i] }
                    } else {
                        g.elements[i]
                    },
            ),
            triggers: g.triggers + button_requests(g, window, g.elements.len() as int),
            ..g
        }
    }
}

/// Looks whether the player stands on a button.
pub fn check_active_elements(game: &mut Game, window: &Viewport)
    ensures
        final(game)@ == checked(old(game)@, *window),
{
    if game.state.frozen {
        return ;
    }
    let player = match game.player {
        Some(player) => player,
        None => {
            assert(game@.elements =~= checked(game@, *window).elements);
            assert forall|k: int| 0 <= k <= game.elements.len() implies button_requests(
                game@,
                *window,
                k,
            ) == Seq::<TriggerScene>::empty() by {
                lemma_no_player_no_requests(game@, *window, k);
            }
            assert(game@.triggers =~= checked(game@, *window).triggers);
            return ;
        },
    };
    let dimensions = game.map.dimensions();
    let ghost before = game@;
    let mut i: usize = 0;
    while i < game.elements.len()
        invariant
            i <= game.elements.len(),
            game.elements.len() == before.elements.len(),
            before.player == Some(player),
            !before.state.frozen,
            dimensions == before.map.spec_dimensions(),
            dimensions.well_formed(),
            before.map == game.map,
            game@ == (GameView {
                elements: game@.elements,
                triggers: game@.triggers,
                ..before
            }),
            game@.triggers == before.triggers + button_requests(before, *window, i as int),
            forall|k: int|
                0 <= k < i ==> #[trigger] game.elements@[k] == checked(before, *window).elements[k],
            forall|k: int| i <= k < game.elements.len() ==> game.elements@[k] == before.elements[k],
        decreases game.elements.len() - i,
    {
        let element = game.elements[i];
        let on_map = element.button_slot.column < dimensions.columns && element.button_slot.row
            < dimensions.rows && element.wall_slot.column < dimensions.columns
            && element.wall_slot.row < dimensions.rows;
        if element.trigger && on_map {
            let button_at = game.map.position_from_slot(element.button_slot);
            if within((player.x, player.y), button_at, BUTTON_RADIUS) {
                let wall_at = game.map.position_from_slot(element.wall_slot);
                let scene = CutScene::ActivateButton {
                    button: element.button,
                    wall: element.wall,
                    camera_from: calc_camera_position(player.x, player.y, window, &dimensions),
                    camera_to: calc_camera_position(wall_at.0, wall_at.1, window, &dimensions),
                };
                let mut disarmed = element;
                disarmed.trigger = false;
                game.elements.set(i, disarmed);
                game.triggers.push(TriggerScene { scene });
            }
        }
        proof {
            assert(before.elements[i as int] == element);
            assert(on_map == (before.map.holds(element.button_slot) && before.map.holds(
                element.wall_slot,
            )));
            assert(game.elements@[i as int] == checked(before, *window).elements[i as int]);
            assert(game@.triggers =~= before.triggers + button_requests(before, *window, i + 1));
        }
        i += 1;
    }
    assert(game@.elements =~= checked(before, *window).elements);
}

proof fn lemma_no_player_no_requests(g: GameView, window: Viewport, upto: int)
    requires
        g.player is None,
    ensures
        button_requests(g, window, upto) == Seq::<TriggerScene>::empty(),
    decreases upto,
{
    if upto > 0 {
        lemma_no_player_no_requests(g, window, upto - 1);
    }
}

} // verus!
