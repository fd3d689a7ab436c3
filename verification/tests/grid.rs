use the_chase::game::Game;
use the_chase::map::grid::{
    draw_map, load_map, Layer, MapTile, Property, PropertyValue, Tile, TiledMap, Tileset, TilesetTile,
};
use the_chase::map::{Collide, MapId};
use the_chase::player::{Transform, Viewport};
use the_chase::scenes::{CutScene, TriggerScene};

fn window() -> Viewport {
    Viewport { width: 800_000, height: 600_000 }
}

fn picture(path: &str) -> Tile {
    Tile { asset_path: Some(path.to_string()) }
}

fn empty() -> Tile {
    Tile { asset_path: None }
}

fn tileset() -> Tileset {
    Tileset {
        first_gid: 1,
        tiles: vec![
            TilesetTile { id: 0, image: Some("../textures/grass.png".to_string()) },
            TilesetTile { id: 2, image: Some("../textures/rock.png".to_string()) },
            TilesetTile { id: 5, image: None },
        ],
    }
}

fn collide(value: PropertyValue) -> Vec<Property> {
    vec![Property { name: "collide".to_string(), value }]
}

fn source() -> TiledMap {
    TiledMap {
        width: 3,
        height: 2,
        tilesets: vec![tileset()],
        layers: vec![
            Layer { tiles: vec![vec![1, 0, 3], vec![0, 6, 9]], properties: vec![] },
            Layer { tiles: vec![vec![0, 0, 0], vec![3, 0, 0]], properties: collide(PropertyValue::BoolValue(true)) },
        ],
    }
}

#[test]
fn a_map_is_loaded_only_when_it_was_set_and_is_there() {
    assert!(load_map(false, Some(&source())).is_none());
    assert!(load_map(true, None).is_none());
    assert!(load_map(false, None).is_none());
    assert!(load_map(true, Some(&source())).is_some());
}

#[test]
fn the_grid_has_the_size_of_the_map() {
    let data = load_map(true, Some(&source())).unwrap();
    assert_eq!(data.width(), 3);
    assert_eq!(data.height(), 2);
    assert_eq!(data.layers(), 2);
}

#[test]
fn the_rows_are_turned_over() {
    let data = load_map(true, Some(&source())).unwrap();
    // the top row of the file is the upper row of the grid
    assert_eq!(*data.tile_at(0, 1, 0), picture("../textures/grass.png"));
    assert_eq!(*data.tile_at(0, 1, 1), empty());
    assert_eq!(*data.tile_at(0, 1, 2), picture("../textures/rock.png"));
    assert_eq!(*data.tile_at(0, 0, 0), empty());
    assert_eq!(*data.tile_at(1, 0, 0), picture("../textures/rock.png"));
    assert_eq!(*data.tile_at(1, 1, 0), empty());
}

#[test]
fn a_number_that_no_tileset_knows_is_an_empty_tile() {
    let data = load_map(true, Some(&source())).unwrap();
    // nine is no tile of the set, six is one without a picture
    assert_eq!(*data.tile_at(0, 0, 2), empty());
    assert_eq!(*data.tile_at(0, 0, 1), empty());
}

#[test]
fn a_layer_blocks_if_its_property_says_so() {
    let data = load_map(true, Some(&source())).unwrap();
    assert!(!data.is_colliding(0));
    assert!(data.is_colliding(1));
    let mut map = source();
    map.layers[0].properties = collide(PropertyValue::BoolValue(false));
    map.layers[1].properties = collide(PropertyValue::Other);
    let data = load_map(true, Some(&map)).unwrap();
    assert!(!data.is_colliding(0));
    assert!(!data.is_colliding(1));
    map.layers[0].properties = vec![
        Property { name: "Collide".to_string(), value: PropertyValue::BoolValue(true) },
        Property { name: "collides".to_string(), value: PropertyValue::BoolValue(true) },
        Property { name: "".to_string(), value: PropertyValue::BoolValue(true) },
    ];
    map.layers[1].properties = vec![
        Property { name: "speed".to_string(), value: PropertyValue::Other },
        Property { name: "collide".to_string(), value: PropertyValue::BoolValue(true) },
    ];
    let data = load_map(true, Some(&map)).unwrap();
    assert!(!data.is_colliding(0));
    assert!(data.is_colliding(1));
}

#[test]
fn a_later_tile_replaces_an_earlier_one_of_the_same_number() {
    let mut map = source();
    map.tilesets.push(Tileset {
        first_gid: 3,
        tiles: vec![
            TilesetTile { id: 0, image: Some("water.png".to_string()) },
            TilesetTile { id: 6, image: Some("sand.png".to_string()) },
            TilesetTile { id: 6, image: Some("mud.png".to_string()) },
            TilesetTile { id: 6, image: None },
        ],
    });
    let data = load_map(true, Some(&map)).unwrap();
    assert_eq!(*data.tile_at(0, 1, 0), picture("../textures/grass.png"));
    assert_eq!(*data.tile_at(0, 1, 2), picture("water.png"));
    assert_eq!(*data.tile_at(0, 0, 2), picture("mud.png"));
}

#[test]
fn tile_numbers_beyond_the_range_name_nothing() {
    let mut map = source();
    map.tilesets = vec![Tileset {
        first_gid: u32::MAX,
        tiles: vec![
            TilesetTile { id: 0, image: Some("last.png".to_string()) },
            TilesetTile { id: 1, image: Some("beyond.png".to_string()) },
            TilesetTile { id: 2, image: Some("further.png".to_string()) },
        ],
    }];
    map.layers[0].tiles = vec![vec![u32::MAX, 0, 1], vec![0, 0, 0]];
    let data = load_map(true, Some(&map)).unwrap();
    assert_eq!(*data.tile_at(0, 1, 0), picture("last.png"));
    assert_eq!(*data.tile_at(0, 1, 1), empty());
    assert_eq!(*data.tile_at(0, 1, 2), empty());
}

#[test]
fn what_the_file_lacks_is_empty() {
    let mut map = source();
    // a layer without bounds has no rows, another is short of a row and a cell
    map.layers[0].tiles = vec![];
    map.layers[1].tiles = vec![vec![3, 3]];
    let data = load_map(true, Some(&map)).unwrap();
    for row in 0..2 {
        for column in 0..3 {
            assert_eq!(*data.tile_at(0, row, column), empty());
        }
    }
    assert_eq!(*data.tile_at(1, 0, 0), picture("../textures/rock.png"));
    assert_eq!(*data.tile_at(1, 0, 1), picture("../textures/rock.png"));
    assert_eq!(*data.tile_at(1, 0, 2), empty());
    assert_eq!(*data.tile_at(1, 1, 0), empty());
}

#[test]
fn what_the_file_has_too_much_is_left_out() {
    let mut map = source();
    map.layers[0].tiles = vec![vec![1, 1, 1, 1], vec![3, 3, 3, 3], vec![0, 1, 0, 1]];
    let data = load_map(true, Some(&map)).unwrap();
    assert_eq!(data.height(), 2);
    assert_eq!(data.width(), 3);
    assert_eq!(*data.tile_at(0, 0, 0), empty());
    assert_eq!(*data.tile_at(0, 0, 1), picture("../textures/grass.png"));
    assert_eq!(*data.tile_at(0, 1, 2), picture("../textures/rock.png"));
}

#[test]
fn a_map_without_tiles_or_layers_loads() {
    let map = TiledMap { width: 0, height: 0, tilesets: vec![], layers: vec![] };
    let data = load_map(true, Some(&map)).unwrap();
    assert_eq!((data.width(), data.height(), data.layers()), (0, 0, 0));
    let mut game = Game::new();
    assert_eq!(draw_map(&mut game, Some(data), &window()), Some(vec![]));
    assert!(game.colliders.is_empty());
}

#[test]
fn drawing_hands_out_the_tiles_and_lets_the_blocking_ones_block() {
    let mut game = Game::new();
    game.colliders = vec![Collide { x: 9, y: 9 }];
    let data = load_map(true, Some(&source())).unwrap();
    let tiles = draw_map(&mut game, Some(data), &window());
    assert_eq!(
        tiles,
        Some(vec![
            MapTile { column: 0, row: 1, tile: picture("../textures/grass.png") },
            MapTile { column: 2, row: 1, tile: picture("../textures/rock.png") },
            MapTile { column: 0, row: 0, tile: picture("../textures/rock.png") },
        ])
    );
    assert_eq!(game.colliders, vec![Collide { x: 0, y: 0 }]);
}

#[test]
fn every_tile_of_a_blocking_layer_blocks() {
    let mut map = source();
    map.layers[0].properties = collide(PropertyValue::BoolValue(true));
    let mut game = Game::new();
    let data = load_map(true, Some(&map)).unwrap();
    draw_map(&mut game, Some(data), &window());
    assert_eq!(
        game.colliders,
        vec![Collide { x: 0, y: 1 }, Collide { x: 2, y: 1 }, Collide { x: 0, y: 0 }]
    );
}

#[test]
fn drawing_puts_the_acorn_down_and_asks_for_the_intro() {
    let mut game = Game::new();
    game.map = MapId::Dirt;
    game.acorn = Some(Transform { x: 1, y: 1, rotation: 1500, scale: 300 });
    let data = load_map(true, Some(&source())).unwrap();
    draw_map(&mut game, Some(data), &window());
    assert_eq!(game.acorn, Some(Transform { x: 640_000, y: 704_000, rotation: 0, scale: 1000 }));
    assert_eq!(
        game.triggers,
        vec![TriggerScene {
            scene: CutScene::Intro {
                camera_from: (848_000, 268_000),
                camera_to: (768_000, 704_000),
                acorn_falls: true,
            },
        }]
    );
    assert!(game.map_changed);
    assert_eq!(game.map, MapId::Dirt);
}

#[test]
fn nothing_is_drawn_without_a_grid() {
    let mut game = Game::new();
    game.colliders = vec![Collide { x: 9, y: 9 }];
    let before = game.clone();
    assert_eq!(draw_map(&mut game, None, &window()), None);
    assert_eq!(game, before);
}
