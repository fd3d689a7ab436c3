use the_chase::audio::{BackgroundAudio, Sound};
use the_chase::frame::{frame, Input};
use the_chase::game::Game;
use the_chase::map::grid::{load_map, Layer, Property, PropertyValue, TiledMap, Tileset, TilesetTile};
use the_chase::map::{Collide, MapId};
use the_chase::player::{spawn_player, Actions, Intent, Transform, Viewport};
use the_chase::scenes::{CutScene, Effect};

fn window() -> Viewport {
    Viewport { width: 800_000, height: 600_000 }
}

fn input(now: u64, delta: u32, player_movement: Option<Intent>, skip_scene: bool) -> Input {
    Input { now, delta, actions: Actions { player_movement, skip_scene }, window: window() }
}

/// A map of twenty by twenty with grass everywhere and one rock at column 5,
/// row 5 from the bottom.
fn file() -> TiledMap {
    let mut rocks = vec![vec![0u32; 20]; 20];
    rocks[14][5] = 2;
    TiledMap {
        width: 20,
        height: 20,
        tilesets: vec![Tileset {
            first_gid: 1,
            tiles: vec![
                TilesetTile { id: 0, image: Some("../textures/grass.png".to_string()) },
                TilesetTile { id: 1, image: Some("../textures/rock.png".to_string()) },
            ],
        }],
        layers: vec![
            Layer { tiles: vec![vec![1u32; 20]; 20], properties: vec![] },
            Layer {
                tiles: rocks,
                properties: vec![Property {
                    name: "collide".to_string(),
                    value: PropertyValue::BoolValue(true),
                }],
            },
        ],
    }
}

fn started() -> Game {
    let mut game = Game::new();
    spawn_player(&mut game);
    game.camera = Some(Transform { x: 0, y: 0, rotation: 0, scale: 1000 });
    game
}

#[test]
fn the_first_frame_puts_the_map_up_and_starts_the_intro() {
    let mut game = started();
    let source = file();
    let data = load_map(game.map_changed, Some(&source));
    let output = frame(&mut game, &input(1_000_000, 16_667, None, false), data);
    assert_eq!(output.tiles.map(|tiles| tiles.len()), Some(401));
    assert_eq!(
        output.effects,
        vec![Effect::BackgroundAudio(BackgroundAudio {
            handle: Sound::GroundBackground,
            second: Some(Sound::GroundBackgroundEffects),
        })]
    );
    assert!(!game.map_changed);
    assert_eq!(game.colliders, vec![Collide { x: 5, y: 5 }]);
    assert_eq!(game.elements.len(), 2);
    assert_eq!(game.acorn, Some(Transform { x: 512_000, y: 576_000, rotation: 0, scale: 1000 }));
    assert_eq!(game.player, Some(Transform { x: 64_000, y: 1_216_000, rotation: 0, scale: 1000 }));
    assert_eq!(game.camera, Some(Transform { x: 368_000, y: 948_000, rotation: 0, scale: 1000 }));
    assert_eq!(
        game.state.scene,
        Some(CutScene::Intro { camera_from: (368_000, 948_000), camera_to: (576_000, 576_000), acorn_falls: true })
    );
    assert!(game.state.frozen);
    assert_eq!(game.state.scene_start, 1_000_000);
    assert!(game.triggers.is_empty());
}

#[test]
fn a_map_whose_file_is_not_there_yet_is_put_up_when_it_comes() {
    let mut game = started();
    let data = load_map(game.map_changed, None);
    let output = frame(&mut game, &input(0, 16_667, None, false), data);
    assert_eq!(output.tiles, None);
    assert!(game.map_changed);
    assert_eq!(game.state.scene, None);
    let source = file();
    let data = load_map(game.map_changed, Some(&source));
    let output = frame(&mut game, &input(16_667, 16_667, None, false), data);
    assert!(output.tiles.is_some());
    assert!(!game.map_changed);
    assert!(game.state.scene.is_some());
}

#[test]
fn a_map_that_was_drawn_is_not_loaded_again() {
    let mut game = started();
    let source = file();
    let data = load_map(game.map_changed, Some(&source));
    frame(&mut game, &input(0, 16_667, None, false), data);
    let data = load_map(game.map_changed, Some(&source));
    assert!(data.is_none());
    let output = frame(&mut game, &input(16_667, 16_667, None, false), data);
    assert_eq!(output.tiles, None);
    assert!(output.effects.is_empty());
}

#[test]
fn the_player_is_held_during_the_intro_and_free_after_it() {
    let mut game = started();
    let source = file();
    let right = Some(Intent { x: 1000, y: 0 });
    let data = load_map(game.map_changed, Some(&source));
    // the intro is asked for in this frame and starts at its end: until then
    // the player is free
    frame(&mut game, &input(0, 16_667, right, false), data);
    assert_eq!(game.player.unwrap().x, 64_000 + 4_166);
    assert!(game.state.frozen);
    let mut now: u64 = 0;
    let mut all: Vec<Effect> = vec![];
    while game.state.scene.is_some() {
        now += 16_667;
        let output = frame(&mut game, &input(now, 16_667, right, false), None);
        assert_eq!(game.player.unwrap().x, 64_000 + 4_166);
        all.extend(output.effects);
    }
    assert_eq!(now, 210 * 16_667);
    assert_eq!(all, vec![Effect::DespawnAcorn]);
    assert_eq!(game.camera, Some(Transform { x: 368_000, y: 948_000, rotation: 0, scale: 1000 }));
    now += 16_667;
    frame(&mut game, &input(now, 16_667, right, false), None);
    assert_eq!(game.player.unwrap().x, 64_000 + 2 * 4_166);
}

#[test]
fn the_scene_that_a_frame_asks_for_starts_with_the_next_frame() {
    let mut game = started();
    game.map_changed = false;
    game.player = Some(Transform { x: 576_000 - 26_000, y: 576_000, rotation: 0, scale: 1000 });
    let right = Some(Intent { x: 1000, y: 0 });
    // this frame reaches the goal: the scene is set but has not played
    let output = frame(&mut game, &input(5_000_000, 8_000, right, false), None);
    assert!(output.effects.is_empty());
    assert_eq!(game.player.unwrap().x, 552_000);
    assert_eq!(
        game.state.scene,
        Some(CutScene::MapTransition { camera_from: (552_000, 576_000), camera_to: (768_000, 704_000), to: MapId::Dirt })
    );
    assert_eq!(game.state.scene_step, 0);
    assert!(game.state.frozen);
    // the camera followed the player before the scene took over
    assert_eq!(game.camera.unwrap().x, 552_000);
    let output = frame(&mut game, &input(5_008_000, 8_000, right, false), None);
    assert_eq!(output.effects, vec![Effect::PauseBackground, Effect::AudioEffect(Sound::Fall)]);
    assert_eq!(game.state.scene_step, 1);
}

#[test]
fn falling_through_the_goal_leads_to_the_next_map() {
    let mut game = started();
    let source = file();
    let data = load_map(game.map_changed, Some(&source));
    frame(&mut game, &input(0, 16_667, None, false), data);
    // skip the intro, then stand next to the goal and step into it
    let output = frame(&mut game, &input(16_667, 16_667, None, true), None);
    assert_eq!(output.effects, vec![Effect::DespawnAcorn]);
    assert_eq!(game.state.scene, None);
    game.player = Some(Transform { x: 576_000, y: 576_000 - 26_000, rotation: 0, scale: 1000 });
    let up = Some(Intent { x: 0, y: 1000 });
    let mut now: u64 = 33_334;
    frame(&mut game, &input(now, 16_667, up, false), None);
    assert!(matches!(game.state.scene, Some(CutScene::MapTransition { to: MapId::Dirt, .. })));
    let mut all: Vec<Effect> = vec![];
    while game.state.scene.is_some() {
        now += 16_667;
        all.extend(frame(&mut game, &input(now, 16_667, up, false), None).effects);
    }
    assert_eq!(
        all,
        vec![Effect::PauseBackground, Effect::AudioEffect(Sound::Fall), Effect::ChangeMap(MapId::Dirt)]
    );
    assert_eq!(game.map, MapId::Dirt);
    assert!(game.map_changed);
    // the next frame puts the new map up: the player is at its start, at full
    // size, and the intro of the new map begins
    now += 16_667;
    let data = load_map(game.map_changed, Some(&source));
    let output = frame(&mut game, &input(now, 16_667, None, false), data);
    assert!(output.tiles.is_some());
    assert_eq!(
        output.effects,
        vec![Effect::BackgroundAudio(BackgroundAudio { handle: Sound::DirtBackground, second: None })]
    );
    assert_eq!(game.player, Some(Transform { x: 1_152_000, y: 192_000, rotation: 0, scale: 1000 }));
    assert_eq!(game.camera, Some(Transform { x: 848_000, y: 268_000, rotation: 0, scale: 1000 }));
    assert!(game.elements.is_empty());
    assert!(matches!(game.state.scene, Some(CutScene::Intro { acorn_falls: true, .. })));
    assert_eq!(game.state.scene_start, now);
    assert!(!game.map_changed);
}

#[test]
fn a_button_opens_its_wall_for_the_player() {
    let mut game = started();
    let source = file();
    let data = load_map(game.map_changed, Some(&source));
    frame(&mut game, &input(0, 16_667, None, false), data);
    frame(&mut game, &input(16_667, 16_667, None, true), None);
    // the wall of the first button blocks cell (2, 2)
    game.player = Some(Transform { x: 64_000, y: 128_000, rotation: 0, scale: 1000 });
    let right = Some(Intent { x: 1000, y: 0 });
    frame(&mut game, &input(33_334, 130_000, right, false), None);
    assert_eq!(game.player.unwrap().x, 64_000);
    // step on the button
    game.player = Some(Transform { x: 320_000, y: 768_000, rotation: 0, scale: 1000 });
    frame(&mut game, &input(50_001, 16_667, None, false), None);
    assert!(matches!(game.state.scene, Some(CutScene::ActivateButton { button: 0, wall: 1, .. })));
    assert!(!game.elements[0].trigger);
    let mut now: u64 = 50_001;
    let mut all: Vec<Effect> = vec![];
    while game.state.scene.is_some() {
        now += 16_667;
        all.extend(frame(&mut game, &input(now, 16_667, right, false), None).effects);
    }
    assert_eq!(
        all,
        vec![
            Effect::PressButton(0),
            Effect::AudioEffect(Sound::ButtonClick),
            Effect::AudioEffect(Sound::WallMoving),
            Effect::OpenWall(1),
        ]
    );
    assert_eq!(game.player.unwrap().x, 320_000);
    game.player = Some(Transform { x: 64_000, y: 128_000, rotation: 0, scale: 1000 });
    frame(&mut game, &input(now + 16_667, 130_000, right, false), None);
    assert_eq!(game.player.unwrap().x, 96_500);
}

#[test]
fn the_rock_blocks_and_the_grass_does_not() {
    let mut game = started();
    let source = file();
    let data = load_map(game.map_changed, Some(&source));
    frame(&mut game, &input(0, 16_667, None, false), data);
    frame(&mut game, &input(16_667, 16_667, None, true), None);
    game.player = Some(Transform { x: 4 * 64_000, y: 5 * 64_000, rotation: 0, scale: 1000 });
    let before = game.player;
    frame(&mut game, &input(33_334, 130_000, Some(Intent { x: 1000, y: 0 }), false), None);
    assert_eq!(game.player, before);
    frame(&mut game, &input(163_334, 130_000, Some(Intent { x: 0, y: 1000 }), false), None);
    assert_eq!(game.player, Some(Transform { x: 256_000, y: 352_500, rotation: 0, scale: 1000 }));
    assert_eq!(game.camera.unwrap().x, 368_000);
    assert_eq!(game.camera.unwrap().y, 352_500);
}
