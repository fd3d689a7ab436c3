use the_chase::map::{ActiveElement, Dimensions, MapId, Slot};
use the_chase::player::Viewport;
use the_chase::scenes::CutScene;

const WINDOW: Viewport = Viewport { width: 800_000, height: 600_000 };

#[test]
fn maps_have_names_and_files() {
    assert_eq!(MapId::Ground.name(), "ground");
    assert_eq!(MapId::Dirt.name(), "dirt");
    assert_eq!(MapId::Stone.name(), "stone");
    assert_eq!(MapId::Lava.name(), "lava");
    assert_eq!(MapId::Ground.file(), "map/ground.tmx");
    assert_eq!(MapId::Lava.file(), "map/lava.tmx");
}

#[test]
fn maps_have_sizes() {
    assert_eq!(MapId::Ground.dimensions(), Dimensions { columns: 20, rows: 20 });
    assert_eq!(MapId::Dirt.dimensions(), Dimensions { columns: 20, rows: 20 });
    assert_eq!(MapId::Stone.dimensions(), Dimensions { columns: 20, rows: 20 });
    assert_eq!(MapId::Lava.dimensions(), Dimensions { columns: 30, rows: 30 });
}

#[test]
fn positions_count_rows_from_the_bottom() {
    // column 1, top row of twenty
    assert_eq!(MapId::Ground.start_position(), (64_000, 19 * 64_000));
    assert_eq!(MapId::Dirt.start_position(), (18 * 64_000, 3 * 64_000));
    assert_eq!(MapId::Stone.start_position(), (7 * 64_000, 7 * 64_000));
    assert_eq!(MapId::Lava.start_position(), (6 * 64_000, 6 * 64_000));
    assert_eq!(MapId::Ground.goal_position(), (9 * 64_000, 9 * 64_000));
    assert_eq!(MapId::Dirt.goal_position(), (12 * 64_000, 11 * 64_000));
    assert_eq!(MapId::Stone.goal_position(), (14 * 64_000, 14 * 64_000));
    assert_eq!(MapId::Lava.goal_position(), (22 * 64_000, 7 * 64_000));
    assert_eq!(MapId::Ground.acorn_position(), (8 * 64_000, 9 * 64_000));
    assert_eq!(MapId::Dirt.acorn_position(), (10 * 64_000, 11 * 64_000));
    assert_eq!(MapId::Stone.acorn_position(), (14 * 64_000, 12 * 64_000));
    assert_eq!(MapId::Lava.acorn_position(), (22 * 64_000, 9 * 64_000));
}

#[test]
fn slots_turn_over() {
    let map = MapId::Ground;
    assert_eq!(map.tiled_slot_to_bevy_slot(Slot { column: 2, row: 17 }), Slot { column: 2, row: 2 });
    assert_eq!(map.tiled_slot_to_bevy_slot(Slot { column: 0, row: 0 }), Slot { column: 0, row: 19 });
    assert_eq!(map.tiled_slot_to_bevy_slot(Slot { column: 7, row: 19 }), Slot { column: 7, row: 0 });
    assert_eq!(
        MapId::Lava.tiled_slot_to_bevy_slot(Slot { column: 29, row: 0 }),
        Slot { column: 29, row: 29 }
    );
    assert_eq!(map.position_from_slot(Slot { column: 2, row: 17 }), (128_000, 128_000));
    assert_eq!(map.position_from_slot(Slot { column: 0, row: 19 }), (0, 0));
}

#[test]
fn turning_a_slot_over_twice_gives_it_back() {
    for map in [MapId::Ground, MapId::Dirt, MapId::Stone, MapId::Lava] {
        let rows = map.dimensions().rows;
        for row in 0..rows {
            let slot = Slot { column: 3, row };
            assert_eq!(map.tiled_slot_to_bevy_slot(map.tiled_slot_to_bevy_slot(slot)), slot);
        }
    }
}

#[test]
fn only_the_first_map_has_buttons() {
    assert_eq!(
        MapId::Ground.active_elements(),
        vec![
            ActiveElement::Button {
                position: Slot { column: 5, row: 7 },
                connected_wall: Slot { column: 2, row: 17 },
            },
            ActiveElement::Button {
                position: Slot { column: 13, row: 9 },
                connected_wall: Slot { column: 7, row: 10 },
            },
        ]
    );
    assert!(MapId::Dirt.active_elements().is_empty());
    assert!(MapId::Stone.active_elements().is_empty());
    assert!(MapId::Lava.active_elements().is_empty());
}

#[test]
fn the_intro_goes_from_the_start_to_the_goal() {
    // the view is 800 by 600: on a map of twenty tiles the camera keeps
    // between 368 and 848 across and between 268 and 948 upwards
    assert_eq!(
        MapId::Ground.intro_scene(&WINDOW),
        Some(CutScene::Intro {
            camera_from: (368_000, 948_000),
            camera_to: (576_000, 576_000),
            acorn_falls: true,
        })
    );
    assert_eq!(
        MapId::Lava.intro_scene(&WINDOW),
        Some(CutScene::Intro {
            camera_from: (384_000, 384_000),
            camera_to: (1_408_000, 448_000),
            acorn_falls: false,
        })
    );
}

#[test]
fn the_acorn_falls_on_every_map_but_the_last() {
    for map in [MapId::Ground, MapId::Dirt, MapId::Stone] {
        match map.intro_scene(&WINDOW) {
            Some(CutScene::Intro { acorn_falls, .. }) => assert!(acorn_falls),
            other => panic!("no intro: {:?}", other),
        }
    }
    match MapId::Lava.intro_scene(&WINDOW) {
        Some(CutScene::Intro { acorn_falls, .. }) => assert!(!acorn_falls),
        other => panic!("no intro: {:?}", other),
    }
}

#[test]
fn the_goal_leads_to_the_goal_of_the_next_map() {
    let from = (570_000, 580_000);
    assert_eq!(
        MapId::Ground.goal_scene(from),
        Some(CutScene::MapTransition { camera_from: from, camera_to: (768_000, 704_000), to: MapId::Dirt })
    );
    assert_eq!(
        MapId::Dirt.goal_scene(from),
        Some(CutScene::MapTransition { camera_from: from, camera_to: (896_000, 896_000), to: MapId::Stone })
    );
    assert_eq!(
        MapId::Stone.goal_scene(from),
        Some(CutScene::MapTransition { camera_from: from, camera_to: (1_408_000, 448_000), to: MapId::Lava })
    );
    assert_eq!(MapId::Lava.goal_scene(from), Some(CutScene::Won));
}
