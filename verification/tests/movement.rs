use the_chase::game::Game;
use the_chase::map::{ButtonWall, Collide, MapId, Slot};
use the_chase::player::{
    is_blocked, move_player, remove_player, reset_player_position, spawn_player, Actions, Intent,
    Transform, Viewport,
};
use the_chase::audio::{BackgroundAudio, Sound};
use the_chase::scenes::{CutScene, Effect, TriggerScene};

const RIGHT: Intent = Intent { x: 1000, y: 0 };
const LEFT: Intent = Intent { x: -1000, y: 0 };
const UP: Intent = Intent { x: 0, y: 1000 };
const DOWN: Intent = Intent { x: 0, y: -1000 };

fn go(intent: Intent) -> Actions {
    Actions { player_movement: Some(intent), skip_scene: false }
}

fn at_cell(column: i64, row: i64) -> Option<Transform> {
    Some(Transform { x: column * 64_000, y: row * 64_000, rotation: 0, scale: 1000 })
}

fn one_block() -> Game {
    let mut game = Game::new();
    game.map = MapId::Ground;
    game.colliders = vec![Collide { x: 5, y: 5 }];
    game.player = at_cell(4, 5);
    game
}

#[test]
fn a_move_into_a_blocked_cell_is_refused() {
    let mut game = one_block();
    let before = game.clone();
    // 130 ms at 250 a second is 32.5: the centre would cross the border
    // that lies 32 from the anchor
    move_player(&mut game, &go(RIGHT), 130_000);
    assert_eq!(game, before);
}

#[test]
fn a_move_into_a_free_cell_is_made() {
    let mut game = one_block();
    // into the cell above, which is free
    move_player(&mut game, &go(UP), 130_000);
    assert_eq!(game.player, Some(Transform { x: 256_000, y: 352_500, rotation: 0, scale: 1000 }));
    assert!(game.triggers.is_empty());
}

#[test]
fn a_short_move_stays_in_its_cell_and_is_made() {
    let mut game = one_block();
    // 31.999 ahead stays short of the border at 32
    move_player(&mut game, &go(RIGHT), 127_996);
    assert_eq!(game.player, Some(Transform { x: 287_999, y: 320_000, rotation: 0, scale: 1000 }));
    // the next step, however short, crosses it
    let before = game.clone();
    move_player(&mut game, &go(RIGHT), 4);
    assert_eq!(game, before);
}

#[test]
fn a_move_is_refused_whole() {
    let mut game = one_block();
    game.player = at_cell(4, 4);
    let before = game.clone();
    // up and to the right at once leads into the blocked cell: neither part
    // of the move is made, though each alone would be
    let diagonal = Intent { x: 707, y: 707 };
    move_player(&mut game, &go(diagonal), 200_000);
    assert_eq!(game, before);
    move_player(&mut game, &go(UP), 200_000);
    assert_eq!(game.player, Some(Transform { x: 256_000, y: 306_000, rotation: 0, scale: 1000 }));
}

#[test]
fn a_diagonal_move_goes_both_ways() {
    let mut game = one_block();
    game.player = at_cell(1, 1);
    // 707 thousandths of 250 a second for 16 ms: 2.828, counted as 2828
    move_player(&mut game, &go(Intent { x: 707, y: -707 }), 16_000);
    assert_eq!(game.player, Some(Transform { x: 64_000 + 2_828, y: 64_000 - 2_828, rotation: 0, scale: 1000 }));
}

#[test]
fn the_way_is_rounded_towards_zero_in_both_directions() {
    let mut game = one_block();
    game.player = at_cell(10, 10);
    // 250 a second for 16.667 ms: 4.16675
    move_player(&mut game, &go(RIGHT), 16_667);
    assert_eq!(game.player.unwrap().x, 640_000 + 4_166);
    game.player = at_cell(10, 10);
    move_player(&mut game, &go(LEFT), 16_667);
    assert_eq!(game.player.unwrap().x, 640_000 - 4_166);
}

#[test]
fn no_intent_no_move() {
    for dt in [0, 1, 16_667, 1_000_000, u32::MAX] {
        let mut game = one_block();
        move_player(&mut game, &go(Intent { x: 0, y: 0 }), dt);
        assert_eq!(game.player, at_cell(4, 5));
        let before = game.clone();
        move_player(&mut game, &Actions { player_movement: None, skip_scene: false }, dt);
        assert_eq!(game, before);
    }
}

#[test]
fn no_time_no_move() {
    let mut game = one_block();
    move_player(&mut game, &go(UP), 0);
    assert_eq!(game.player, at_cell(4, 5));
}

#[test]
fn the_player_cannot_leave_the_grid() {
    let mut game = Game::new();
    game.player = at_cell(0, 0);
    let before = game.clone();
    move_player(&mut game, &go(LEFT), 130_000);
    assert_eq!(game, before);
    move_player(&mut game, &go(DOWN), 130_000);
    assert_eq!(game, before);
    game.player = at_cell(19, 19);
    let before = game.clone();
    move_player(&mut game, &go(RIGHT), 130_000);
    assert_eq!(game, before);
    move_player(&mut game, &go(UP), 130_000);
    assert_eq!(game, before);
    // the last map is larger
    game.map = MapId::Lava;
    move_player(&mut game, &go(RIGHT), 130_000);
    assert_eq!(game.player.unwrap().x, 19 * 64_000 + 32_500);
}

#[test]
fn the_border_of_the_grid_is_the_border_of_its_first_tile() {
    let mut game = Game::new();
    game.player = Some(Transform { x: 0, y: 0, rotation: 0, scale: 1000 });
    // the centre may reach the border at -32 but not pass it
    move_player(&mut game, &go(LEFT), 128_000);
    assert_eq!(game.player.unwrap().x, -32_000);
    let before = game.clone();
    move_player(&mut game, &go(LEFT), 4);
    assert_eq!(game, before);
}

#[test]
fn a_long_frame_cannot_jump_off_the_grid() {
    let mut game = one_block();
    let before = game.clone();
    move_player(&mut game, &go(Intent { x: i16::MAX, y: i16::MIN }), u32::MAX);
    assert_eq!(game, before);
    move_player(&mut game, &go(Intent { x: i16::MIN, y: i16::MAX }), u32::MAX);
    assert_eq!(game, before);
    game.player = Some(Transform { x: i64::MAX, y: i64::MIN, rotation: 0, scale: 1000 });
    let before = game.clone();
    move_player(&mut game, &go(Intent { x: i16::MAX, y: i16::MIN }), u32::MAX);
    assert_eq!(game, before);
}

#[test]
fn a_frozen_player_stays() {
    let mut game = one_block();
    game.state.frozen = true;
    let before = game.clone();
    move_player(&mut game, &go(UP), 100_000);
    assert_eq!(game, before);
}

#[test]
fn a_missing_player_is_passed_over() {
    let mut game = one_block();
    game.player = None;
    let before = game.clone();
    move_player(&mut game, &go(UP), 100_000);
    assert_eq!(game, before);
}

fn wall(opened: bool) -> ButtonWall {
    ButtonWall {
        button_slot: Slot { column: 5, row: 7 },
        wall_slot: Slot { column: 2, row: 17 },
        button: 0,
        wall: 1,
        trigger: true,
        pressed: false,
        opened,
        collide: Collide { x: 2, y: 2 },
    }
}

#[test]
fn a_closed_wall_blocks_and_an_open_one_does_not() {
    let mut game = Game::new();
    game.elements = vec![wall(false)];
    game.player = at_cell(1, 2);
    let before = game.clone();
    move_player(&mut game, &go(RIGHT), 130_000);
    assert_eq!(game, before);
    game.elements = vec![wall(true)];
    move_player(&mut game, &go(RIGHT), 130_000);
    assert_eq!(game.player.unwrap().x, 64_000 + 32_500);
}

#[test]
fn blocked_cells_are_those_of_tiles_and_closed_walls() {
    let colliders = vec![Collide { x: 5, y: 5 }, Collide { x: 0, y: 9 }];
    let elements = vec![wall(false)];
    assert!(is_blocked(&colliders, &elements, 5, 5));
    assert!(is_blocked(&colliders, &elements, 0, 9));
    assert!(is_blocked(&colliders, &elements, 2, 2));
    assert!(!is_blocked(&colliders, &elements, 9, 0));
    assert!(!is_blocked(&colliders, &elements, 5, 4));
    assert!(!is_blocked(&colliders, &vec![wall(true)], 2, 2));
    assert!(!is_blocked(&vec![], &vec![], 0, 0));
}

#[test]
fn reaching_the_goal_asks_for_the_goal_scene() {
    let mut game = Game::new();
    // the goal of the first map lies at cell (9, 9)
    game.player = Some(Transform { x: 576_000 - 30_000, y: 576_000, rotation: 0, scale: 1000 });
    move_player(&mut game, &go(RIGHT), 16_000);
    assert_eq!(game.player.unwrap().x, 550_000);
    assert!(game.triggers.is_empty());
    // 25 away is not yet close enough
    move_player(&mut game, &go(RIGHT), 4_000);
    assert_eq!(game.player.unwrap().x, 551_000);
    assert!(game.triggers.is_empty());
    move_player(&mut game, &go(RIGHT), 4);
    assert_eq!(game.player.unwrap().x, 551_001);
    assert_eq!(
        game.triggers,
        vec![TriggerScene {
            scene: CutScene::MapTransition {
                camera_from: (551_001, 576_000),
                camera_to: (768_000, 704_000),
                to: MapId::Dirt,
            },
        }]
    );
}

#[test]
fn the_goal_of_the_last_map_wins_the_game() {
    let mut game = Game::new();
    game.map = MapId::Lava;
    game.player = Some(Transform { x: 1_408_000, y: 448_000 + 26_000, rotation: 0, scale: 1000 });
    move_player(&mut game, &go(DOWN), 8_000);
    assert_eq!(game.player.unwrap().y, 448_000 + 24_000);
    assert_eq!(game.triggers, vec![TriggerScene { scene: CutScene::Won }]);
}

#[test]
fn a_refused_move_near_the_goal_asks_for_nothing() {
    let mut game = Game::new();
    game.colliders = vec![Collide { x: 9, y: 9 }];
    game.player = Some(Transform { x: 576_000 - 20_000, y: 576_000 - 33_000, rotation: 0, scale: 1000 });
    let before = game.clone();
    move_player(&mut game, &go(UP), 4_000);
    assert_eq!(game, before);
}

#[test]
fn the_player_enters_and_leaves() {
    let mut game = Game::new();
    spawn_player(&mut game);
    assert_eq!(game.player, Some(Transform { x: 64_000, y: 19 * 64_000, rotation: 0, scale: 1000 }));
    game.map = MapId::Dirt;
    spawn_player(&mut game);
    assert_eq!(game.player, Some(Transform { x: 18 * 64_000, y: 3 * 64_000, rotation: 0, scale: 1000 }));
    remove_player(&mut game);
    assert_eq!(game.player, None);
}

#[test]
fn a_map_that_was_set_is_entered_at_its_start() {
    let window = Viewport { width: 800_000, height: 600_000 };
    let mut game = Game::new();
    game.map = MapId::Stone;
    game.map_changed = true;
    game.player = Some(Transform { x: 5, y: 6, rotation: 250, scale: 50 });
    game.camera = Some(Transform { x: 7, y: 8, rotation: 0, scale: 20 });
    let effects = reset_player_position(&mut game, &window);
    assert_eq!(game.player, Some(Transform { x: 448_000, y: 448_000, rotation: 250, scale: 1000 }));
    assert_eq!(game.camera, Some(Transform { x: 448_000, y: 448_000, rotation: 0, scale: 1000 }));
    assert_eq!(
        effects,
        vec![Effect::BackgroundAudio(BackgroundAudio { handle: Sound::StoneBackground, second: None })]
    );
    assert!(game.map_changed);
}

#[test]
fn a_map_that_was_drawn_is_not_entered_again() {
    let window = Viewport { width: 800_000, height: 600_000 };
    let mut game = Game::new();
    game.map_changed = false;
    game.player = Some(Transform { x: 5, y: 6, rotation: 0, scale: 50 });
    game.camera = Some(Transform { x: 7, y: 8, rotation: 0, scale: 20 });
    let before = game.clone();
    let effects = reset_player_position(&mut game, &window);
    assert_eq!(game, before);
    assert!(effects.is_empty());
}

#[test]
fn entering_a_map_passes_over_what_is_missing() {
    let window = Viewport { width: 800_000, height: 600_000 };
    let mut game = Game::new();
    let effects = reset_player_position(&mut game, &window);
    assert_eq!(game.player, None);
    assert_eq!(game.camera, None);
    assert_eq!(
        effects,
        vec![Effect::BackgroundAudio(BackgroundAudio {
            handle: Sound::GroundBackground,
            second: Some(Sound::GroundBackgroundEffects),
        })]
    );
}
