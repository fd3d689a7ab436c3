//! The tile grid: how a parsed map file becomes layers of tiles, and how the
//! layers become sprites to draw and cells that block.

use std::collections::HashMap;
use vstd::prelude::*;
use crate::game::{Game, GameView};
use crate::map::Collide;
use crate::player::{on_tile, Transform, Viewport};
use crate::scenes::TriggerScene;
use crate::units::WHOLE;

verus! {

broadcast use vstd::std_specs::hash::group_hash_axioms;

/// A tile of the grid: the picture to draw, or nothing.
#[derive(Clone, Debug, PartialEq, Eq)]
pub struct Tile {
    pub asset_path: Option<String>,
}

/// A tile to draw, with its cell counted from the bottom row.
#[derive(Clone, Debug, PartialEq, Eq)]
pub struct MapTile {
    pub column: usize,
    pub row: usize,
    pub tile: Tile,
}

/// The value of a property of a layer, as far as the game reads it.
#[derive(Clone, Copy, Debug, PartialEq, Eq, Structural)]
pub enum PropertyValue {
    BoolValue(bool),
    Other,
}

/// A named property of a layer.
#[derive(Clone, Debug, PartialEq, Eq)]
pub struct Property {
    pub name: String,
    pub value: PropertyValue,
}

/// A tile of a tileset: its number within the set and the file of its first
/// picture, if it has one.
#[derive(Clone, Debug, PartialEq, Eq)]
pub struct TilesetTile {
    pub id: u32,
    pub image: Option<String>,
}

/// A tileset: its tiles, numbered in the map from `first_gid` on.
#[derive(Clone, Debug, PartialEq, Eq)]
pub struct Tileset {
    pub first_gid: u32,
    pub tiles: Vec<TilesetTile>,
}

/// A layer of a map file: the numbers of its tiles, row by row from the top,
/// and its properties. A layer without bounds has no rows.
#[derive(Clone, Debug, PartialEq, Eq)]
pub struct Layer {
    pub tiles: Vec<Vec<u32>>,
    pub properties: Vec<Property>,
}

/// A map file as its parser hands it over.
#[derive(Clone, Debug, PartialEq, Eq)]
pub struct TiledMap {
    pub width: u32,
    pub height: u32,
    pub tilesets: Vec<Tileset>,
    pub layers: Vec<Layer>,
}

/// The pictures of a run of tiles of a tileset, added to a table by the
/// numbers the map knows them by. A later tile replaces an earlier one of
/// the same number; a tile without a picture, or with a number beyond the
/// range of numbers, adds nothing.
pub open spec fn tile_paths(tiles: Seq<TilesetTile>, first_gid: u32, table: Map<u32, String>) -> Map<u32, String>
    decreases tiles.len(),
{
    if tiles.len() == 0 {
        table
    } else {
        let before = tile_paths(tiles.drop_last(), first_gid, table);
        let tile = tiles.last();
        match tile.image {
            Some(path) => if first_gid + tile.id <= u32::MAX {
                before.insert((first_gid + tile.id) as u32, path)
            } else {
                before
            },
            None => before,
        }
    }
}

/// The pictures of all tiles of all tilesets by the numbers the map knows
/// them by.
pub open spec fn path_table(tilesets: Seq<Tileset>) -> Map<u32, String>
    decreases tilesets.len(),
{
    if tilesets.len() == 0 {
        Map::empty()
    } else {
        tile_paths(
            tilesets.last().tiles@,
            tilesets.last().first_gid,
            path_table(tilesets.drop_last()),
        )
    }
}

/// Whether one of the tiles has a picture and is known to the map by `gid`.
pub open spec fn names(tiles: Seq<TilesetTile>, first_gid: u32, gid: u32) -> bool {
    exists|t: int|
        0 <= t < tiles.len() && (#[trigger] tiles[t]).image is Some && first_gid + tiles[t].id
            == gid
}

/// Whether a tile of one of the tilesets has a picture and is known to the
/// map by `gid`.
pub open spec fn known(tilesets: Seq<Tileset>, gid: u32) -> bool {
    exists|s: int|
        0 <= s < tilesets.len() && names(
            (#[trigger] tilesets[s]).tiles@,
            tilesets[s].first_gid,
            gid,
        )
}

proof fn lemma_tile_paths_names(tiles: Seq<TilesetTile>, first_gid: u32, table: Map<u32, String>, gid: u32)
    ensures
        tile_paths(tiles, first_gid, table).contains_key(gid) <==> table.contains_key(gid)
            || names(tiles, first_gid, gid),
    decreases tiles.len(),
{
    if tiles.len() > 0 {
        let before = tiles.drop_last();
        lemma_tile_paths_names(before, first_gid, table, gid);
        if names(before, first_gid, gid) {
            let t = choose|t: int|
                0 <= t < before.len() && (#[trigger] before[t]).image is Some && first_gid
                    + before[t].id == gid;
            assert(tiles[t] == before[t]);
        }
        if names(tiles, first_gid, gid) {
            let t = choose|t: int|
                0 <= t < tiles.len() && (#[trigger] tiles[t]).image is Some && first_gid
                    + tiles[t].id == gid;
            if t < before.len() {
                assert(before[t] == tiles[t]);
            }
        }
        let last = tiles.last();
        if last.image is Some && first_gid + last.id == gid {
            assert(tiles[tiles.len() - 1] == last);
        }
    }
}

/// The table has a picture for exactly the numbers by which the map knows a
/// tile that has one.
pub proof fn law_table_knows_pictured_tiles(tilesets: Seq<Tileset>, gid: u32)
    ensures
        path_table(tilesets).contains_key(gid) <==> known(tilesets, gid),
    decreases tilesets.len(),
{
    if tilesets.len() > 0 {
        let before = tilesets.drop_last();
        let last = tilesets.last();
        law_table_knows_pictured_tiles(before, gid);
        lemma_tile_paths_names(last.tiles@, last.first_gid, path_table(before), gid);
        if known(before, gid) {
            let s = choose|s: int|
                0 <= s < before.len() && names(
                    (#[trigger] before[s]).tiles@,
                    before[s].first_gid,
                    gid,
                );
            assert(tilesets[s] == before[s]);
        }
        if known(tilesets, gid) {
            let s = choose|s: int|
                0 <= s < tilesets.len() && names(
                    (#[trigger] tilesets[s]).tiles@,
                    tilesets[s].first_gid,
                    gid,
                );
            if s < before.len() {
                assert(before[s] == tilesets[s]);
            }
        }
        if names(last.tiles@, last.first_gid, gid) {
            assert(tilesets[tilesets.len() - 1] == last);
        }
    }
}

/// A layer blocks the player if it has a property `collide` that is set.
pub open spec fn layer_collides(properties: Seq<Property>) -> bool {
    exists|i: int|
        0 <= i < properties.len() && (#[trigger] properties[i]).name@ == "collide"@
            && properties[i].value == PropertyValue::BoolValue(true)
}

/// The tile at a cell of the grid. The grid counts its rows from the bottom,
/// the file from the top: row `row` of the grid is the row that far from the
/// last one of the file. Where the file has no number for the cell, or a
/// number that no tileset knows, the tile is empty.
pub open spec fn source_tile(rows: Seq<Vec<u32>>, table: Map<u32, String>, row: int, column: int) -> Tile {
    if 0 <= row < rows.len() && 0 <= column < rows[rows.len() - 1 - row]@.len() {
        let gid = rows[rows.len() - 1 - row]@[column];
        if table.contains_key(gid) {
            Tile { asset_path: Some(table[gid]) }
        } else {
            Tile { asset_path: None }
        }
    } else {
        Tile { asset_path: None }
    }
}

/// The grid of a loaded map: layers of `height` rows of `width` tiles, each
/// layer blocking or not.
#[derive(Debug, PartialEq, Eq)]
pub struct MapData {
    layers: Vec<Vec<Vec<Tile>>>,
    colliding_layers: Vec<bool>,
    height: usize,
    width: usize,
}

impl MapData {
    #[verifier::type_invariant]
    closed spec fn well_formed(&self) -> bool {
        &&& self.colliding_layers@.len() == self.layers@.len()
        &&& forall|l: int|
            0 <= l < self.layers@.len() ==> (#[trigger] self.layers@[l])@.len() == self.height
        &&& forall|l: int, r: int|
            0 <= l < self.layers@.len() && 0 <= r < self.height ==> (
            #[trigger] self.layers@[l]@[r])@.len() == self.width
    }

    /// Number of rows.
    pub closed spec fn rows(&self) -> nat {
        self.height as nat
    }

    /// Number of columns.
    pub closed spec fn columns(&self) -> nat {
        self.width as nat
    }

    /// Number of layers.
    pub closed spec fn layer_count(&self) -> nat {
        self.layers@.len()
    }

    /// Whether a layer blocks the player.
    pub closed spec fn collides(&self, layer: int) -> bool {
        self.colliding_layers@[layer]
    }

    /// The tile at a cell of a layer, rows counted from the bottom.
    pub closed spec fn tile(&self, layer: int, row: int, column: int) -> Tile {
        self.layers@[layer]@[row]@[column]
    }

    /// The grid holds what the file says: its size, its layers in order,
    /// which of them block, and each tile, with the rows turned over.
    pub open spec fn derived_from(&self, source: TiledMap) -> bool {
        &&& self.rows() == source.height
        &&& self.columns() == source.width
        &&& self.layer_count() == source.layers@.len()
        &&& forall|l: int|
            0 <= l < self.layer_count() ==> #[trigger] self.collides(l) == layer_collides(
                source.layers@[l].properties@,
            )
        &&& forall|l: int, r: int, c: int|
            0 <= l < self.layer_count() && 0 <= r < self.rows() && 0 <= c < self.columns()
                ==> #[trigger] self.tile(l, r, c) == source_tile(
                source.layers@[l].tiles@,
                path_table(source.tilesets@),
                r,
                c,
            )
    }

    /// A layer that has a number for every cell is turned over whole: a row
    /// of the grid shows the row of the file that lies as far from its last
    /// row as the row of the grid lies from the bottom.
    pub proof fn law_rows_are_turned_over(&self, source: TiledMap, layer: int, row: int, column: int)
        requires
            self.derived_from(source),
            0 <= layer < self.layer_count(),
            0 <= row < self.rows(),
            0 <= column < self.columns(),
            source.layers@[layer].tiles@.len() == source.height,
            source.layers@[layer].tiles@[source.height - 1 - row]@.len() == source.width,
        ensures
            ({
                let gid = source.layers@[layer].tiles@[source.height - 1 - row]@[column];
                let table = path_table(source.tilesets@);
                self.tile(layer, row, column).asset_path == if table.contains_key(gid) {
                    Some(table[gid])
                } else {
                    None::<String>
                }
            }),
    {
    }

    /// Number of rows.
    pub fn height(&self) -> (height: usize)
        ensures
            height == self.rows(),
    {
        self.height
    }

    /// Number of columns.
    pub fn width(&self) -> (width: usize)
        ensures
            width == self.columns(),
    {
        self.width
    }

    /// Number of layers.
    pub fn layers(&self) -> (layers: usize)
        ensures
            layers == self.layer_count(),
    {
        self.layers.len()
    }

    /// Whether a layer blocks the player.
    pub fn is_colliding(&self, layer: usize) -> (blocks: bool)
        requires
            layer < self.layer_count(),
        ensures
            blocks == self.collides(layer as int),
    {
        proof {
            use_type_invariant(self);
        }
        self.colliding_layers[layer]
    }

    /// The tile at a cell of a layer, rows counted from the bottom.
    pub fn tile_at(&self, layer: usize, row: usize, column: usize) -> (tile: &Tile)
        requires
            layer < self.layer_count(),
            row < self.rows(),
            column < self.columns(),
        ensures
            *tile == self.tile(layer as int, row as int, column as int),
    {
        proof {
            use_type_invariant(self);
        }
        &self.layers[layer][row][column]
    }
}

fn copy_tile(tile: &Tile) -> (copy: Tile)
    ensures
        copy == *tile,
{
    match &tile.asset_path {
        Some(path) => Tile { asset_path: Some(path.clone()) },
        None => Tile { asset_path: None },
    }
}

fn paths_of(tilesets: &Vec<Tileset>) -> (table: HashMap<u32, String>)
    ensures
        table@ == path_table(tilesets@),
{
    let mut table: HashMap<u32, String> = HashMap::new();
    let mut s: usize = 0;
    while s < tilesets.len()
        invariant
            s <= tilesets.len(),
            table@ == path_table(tilesets@.take(s as int)),
        decreases tilesets.len() - s,
    {
        let set = &tilesets[s];
        let ghost before = table@;
        let mut t: usize = 0;
        while t < set.tiles.len()
            invariant
                t <= set.tiles.len(),
                table@ == tile_paths(set.tiles@.take(t as int), set.first_gid, before),
            decreases set.tiles.len() - t,
        {
            let tile = &set.tiles[t];
            proof {
                assert(set.tiles@.take(t + 1).drop_last() =~= set.tiles@.take(t as int));
            }
            if let Some(path) = &tile.image {
                if tile.id <= u32::MAX - set.first_gid {
                    table.insert(set.first_gid + tile.id, path.clone());
                }
            }
            t += 1;
        }
        proof {
            assert(set.tiles@.take(t as int) =~= set.tiles@);
            assert(tilesets@.take(s + 1).drop_last() =~= tilesets@.take(s as int));
        }
        s += 1;
    }
    proof {
        assert(tilesets@.take(s as int) =~= tilesets@);
    }
    table
}

fn collides_of(properties: &Vec<Property>) -> (blocks: bool)
    ensures
        blocks == layer_collides(properties@),
{
    let wanted = "collide".to_owned();
    let mut i: usize = 0;
    while i < properties.len()
        invariant
            i <= properties.len(),
            wanted@ == "collide"@,
            forall|k: int|
                0 <= k < i ==> !((#[trigger] properties[k]).name@ == "collide"@
                    && properties[k].value == PropertyValue::BoolValue(true)),
        decreases properties.len() - i,
    {
        if properties[i].name == wanted {
            if let PropertyValue::BoolValue(true) = properties[i].value {
                return true;
            }
        }
        i += 1;
    }
    false
}

fn tile_from(rows: &Vec<Vec<u32>>, table: &HashMap<u32, String>, row: usize, column: usize) -> (tile: Tile)
    ensures
        tile == source_tile(rows@, table@, row as int, column as int),
{
    if row < rows.len() {
        let source = &rows[rows.len() - 1 - row];
        if column < source.len() {
            let gid: u32 = source[column];
            return match table.get(&gid) {
                Some(path) => Tile { asset_path: Some(path.clone()) },
                None => Tile { asset_path: None },
            };
        }
    }
    Tile { asset_path: None }
}

fn floor_of(rows: &Vec<Vec<u32>>, table: &HashMap<u32, String>, height: usize, width: usize) -> (floor: Vec<Vec<Tile>>)
    ensures
        floor@.len() == height,
        forall|r: int| 0 <= r < height ==> (#[trigger] floor@[r])@.len() == width,
        forall|r: int, c: int|
            0 <= r < height && 0 <= c < width ==> #[trigger] floor@[r]@[c] == source_tile(
                rows@,
                table@,
                r,
                c,
            ),
{
    let mut floor: Vec<Vec<Tile>> = Vec::new();
    let mut r: usize = 0;
    while r < height
        invariant
            r <= height,
            floor@.len() == r,
            forall|k: int| 0 <= k < r ==> (#[trigger] floor@[k])@.len() == width,
            forall|k: int, c: int|
                0 <= k < r && 0 <= c < width ==> #[trigger] floor@[k]@[c] == source_tile(
                    rows@,
                    table@,
                    k,
                    c,
                ),
        decreases height - r,
    {
        let mut row: Vec<Tile> = Vec::new();
        let mut c: usize = 0;
        while c < width
            invariant
                c <= width,
                row@.len() == c,
                forall|k: int|
                    0 <= k < c ==> #[trigger] row@[k] == source_tile(rows@, table@, r as int, k),
            decreases width - c,
        {
            row.push(tile_from(rows, table, r, c));
            c += 1;
        }
        floor.push(row);
        r += 1;
    }
    floor
}

/// Turns the file of the map into its grid, if the map has been set since it
/// was last drawn and its file is there.
pub fn load_map(changed: bool, source: Option<&TiledMap>) -> (data: Option<MapData>)
    ensures
        data is Some <==> changed && source is Some,
        data matches Some(d) ==> d.derived_from(*source.unwrap()),
{
    if !changed {
        return None;
    }
    let source = match source {
        Some(source) => source,
        None => { return None; },
    };
    let table = paths_of(&source.tilesets);
    let height = source.height as usize;
    let width = source.width as usize;
    let mut layers: Vec<Vec<Vec<Tile>>> = Vec::new();
    let mut colliding_layers: Vec<bool> = Vec::new();
    let mut l: usize = 0;
    while l < source.layers.len()
        invariant
            l <= source.layers.len(),
            height == source.height,
            width == source.width,
            table@ == path_table(source.tilesets@),
            layers@.len() == l,
            colliding_layers@.len() == l,
            forall|k: int| 0 <= k < l ==> (#[trigger] layers@[k])@.len() == height,
            forall|k: int, r: int|
                0 <= k < l && 0 <= r < height ==> (#[trigger] layers@[k]@[r])@.len() == width,
            forall|k: int|
                0 <= k < l ==> #[trigger] colliding_layers@[k] == layer_collides(
                    source.layers@[k].properties@,
                ),
            forall|k: int, r: int, c: int|
                0 <= k < l && 0 <= r < height && 0 <= c < width ==> #[trigger] layers@[k]@[r]@[c]
                    == source_tile(source.layers@[k].tiles@, table@, r, c),
        decreases source.layers.len() - l,
    {
        let layer = &source.layers[l];
        let floor = floor_of(&layer.tiles, &table, height, width);
        layers.push(floor);
        colliding_layers.push(collides_of(&layer.properties));
        l += 1;
    }
    Some(MapData { layers, colliding_layers, height, width })
}

/// The tiles to draw of the first `upto` cells of a row, left to right.
pub open spec fn row_tiles(data: MapData, layer: int, row: int, upto: int) -> Seq<MapTile>
    decreases upto,
{
    if upto <= 0 {
        Seq::empty()
    } else {
        let before = row_tiles(data, layer, row, upto - 1);
        let tile = data.tile(layer, row, upto - 1);
        if tile.asset_path is Some {
            before.push(MapTile { column: (upto - 1) as usize, row: row as usize, tile })
        } else {
            before
        }
    }
}

/// The tiles to draw of the first `upto` rows of a layer, bottom to top.
pub open spec fn layer_tiles(data: MapData, layer: int, upto: int) -> Seq<MapTile>
    decreases upto,
{
    if upto <= 0 {
        Seq::empty()
    } else {
        layer_tiles(data, layer, upto - 1) + row_tiles(
            data,
            layer,
            upto - 1,
            data.columns() as int,
        )
    }
}

/// The tiles to draw of the first `upto` layers.
pub open spec fn drawn_tiles(data: MapData, upto: int) -> Seq<MapTile>
    decreases upto,
{
    if upto <= 0 {
        Seq::empty()
    } else {
        drawn_tiles(data, upto - 1) + layer_tiles(data, upto - 1, data.rows() as int)
    }
}

/// The cells of a run of tiles.
pub open spec fn cells(tiles: Seq<MapTile>) -> Seq<Collide> {
    tiles.map_values(|t: MapTile| Collide { x: t.column, y: t.row })
}

/// The cells that the first `upto` layers block: one for every tile to draw
/// of a layer that blocks.
pub open spec fn drawn_colliders(data: MapData, upto: int) -> Seq<Collide>
    decreases upto,
{
    if upto <= 0 {
        Seq::empty()
    } else {
        drawn_colliders(data, upto - 1) + if data.collides(upto - 1) {
            cells(layer_tiles(data, upto - 1, data.rows() as int))
        } else {
            Seq::empty()
        }
    }
}

/// Whether one of the first `upto` layers blocks and has a tile to draw at
/// the cell.
pub open spec fn tile_blocks(data: MapData, upto: int, cell: (int, int)) -> bool {
    &&& 0 <= cell.0 < data.columns()
    &&& 0 <= cell.1 < data.rows()
    &&& exists|l: int|
        0 <= l < upto && data.collides(l) && (#[trigger] data.tile(l, cell.1, cell.0)).asset_path
            is Some
}

proof fn lemma_cells_push(tiles: Seq<MapTile>, tile: MapTile, cell: (int, int))
    ensures
        on_tile(cells(tiles.push(tile)), cell) <==> on_tile(cells(tiles), cell) || (tile.column
            == cell.0 && tile.row == cell.1),
{
    let longer = cells(tiles.push(tile));
    let shorter = cells(tiles);
    assert(longer =~= shorter.push(Collide { x: tile.column, y: tile.row }));
    if on_tile(shorter, cell) {
        let i = choose|i: int| 0 <= i < shorter.len() && shorter[i].x == cell.0 && shorter[i].y == cell.1;
        assert(longer[i] == shorter[i]);
    }
    if tile.column == cell.0 && tile.row == cell.1 {
        assert(longer[tiles.len() as int].x == cell.0);
    }
    if on_tile(longer, cell) {
        let i = choose|i: int| 0 <= i < longer.len() && longer[i].x == cell.0 && longer[i].y == cell.1;
        if i < shorter.len() {
            assert(shorter[i] == longer[i]);
        }
    }
}

proof fn lemma_on_tile_concat(a: Seq<Collide>, b: Seq<Collide>, cell: (int, int))
    ensures
        on_tile(a + b, cell) <==> on_tile(a, cell) || on_tile(b, cell),
{
    let both = a + b;
    if on_tile(a, cell) {
        let i = choose|i: int| 0 <= i < a.len() && a[i].x == cell.0 && a[i].y == cell.1;
        assert(both[i] == a[i]);
    }
    if on_tile(b, cell) {
        let i = choose|i: int| 0 <= i < b.len() && b[i].x == cell.0 && b[i].y == cell.1;
        assert(both[a.len() + i] == b[i]);
    }
    if on_tile(both, cell) {
        let i = choose|i: int| 0 <= i < both.len() && both[i].x == cell.0 && both[i].y == cell.1;
        if i < a.len() {
            assert(a[i] == both[i]);
        } else {
            assert(b[i - a.len()] == both[i]);
        }
    }
}

proof fn lemma_row_cells(data: MapData, layer: int, row: int, upto: int, cell: (int, int))
    requires
        0 <= row < data.rows(),
        0 <= upto <= data.columns(),
    ensures
        on_tile(cells(row_tiles(data, layer, row, upto)), cell) <==> cell.1 == row && 0 <= cell.0
            < upto && data.tile(layer, row, cell.0).asset_path is Some,
    decreases upto,
{
    if upto > 0 {
        lemma_row_cells(data, layer, row, upto - 1, cell);
        let before = row_tiles(data, layer, row, upto - 1);
        let tile = data.tile(layer, row, upto - 1);
        if tile.asset_path is Some {
            lemma_cells_push(
                before,
                MapTile { column: (upto - 1) as usize, row: row as usize, tile },
                cell,
            );
        }
    }
}

proof fn lemma_layer_cells(data: MapData, layer: int, upto: int, cell: (int, int))
    requires
        0 <= upto <= data.rows(),
    ensures
        on_tile(cells(layer_tiles(data, layer, upto)), cell) <==> 0 <= cell.1 < upto && 0
            <= cell.0 < data.columns() && data.tile(layer, cell.1, cell.0).asset_path is Some,
    decreases upto,
{
    if upto > 0 {
        lemma_layer_cells(data, layer, upto - 1, cell);
        lemma_row_cells(data, layer, upto - 1, data.columns() as int, cell);
        let before = layer_tiles(data, layer, upto - 1);
        let row = row_tiles(data, layer, upto - 1, data.columns() as int);
        assert(cells(before + row) =~= cells(before) + cells(row));
        lemma_on_tile_concat(cells(before), cells(row), cell);
    }
}

/// The cells that block are the cells at which a layer that blocks has a
/// tile to draw.
pub proof fn law_cells_block_where_tiles_are(data: MapData, upto: int, cell: (int, int))
    requires
        0 <= upto,
    ensures
        on_tile(drawn_colliders(data, upto), cell) <==> tile_blocks(data, upto, cell),
    decreases upto,
{
    if upto > 0 {
        law_cells_block_where_tiles_are(data, upto - 1, cell);
        let before = drawn_colliders(data, upto - 1);
        let layer = if data.collides(upto - 1) {
            cells(layer_tiles(data, upto - 1, data.rows() as int))
        } else {
            Seq::empty()
        };
        lemma_on_tile_concat(before, layer, cell);
        lemma_layer_cells(data, upto - 1, data.rows() as int, cell);
        if tile_blocks(data, upto, cell) {
            let l = choose|l: int|
                0 <= l < upto && data.collides(l) && (#[trigger] data.tile(
                    l,
                    cell.1,
                    cell.0,
                )).asset_path is Some;
            if l < upto - 1 {
                assert(tile_blocks(data, upto - 1, cell));
            }
        }
        if tile_blocks(data, upto - 1, cell) {
            let l = choose|l: int|
                0 <= l < upto - 1 && data.collides(l) && (#[trigger] data.tile(
                    l,
                    cell.1,
                    cell.0,
                )).asset_path is Some;
            assert(0 <= l < upto);
        }
        if on_tile(layer, cell) {
            assert(data.tile(upto - 1, cell.1, cell.0).asset_path is Some);
        }
    }
}

/// The game after a grid has been drawn: the grid's cells block, the acorn
/// lies on its cell, and the introduction of the map is asked for.
pub open spec fn drawn(g: GameView, data: MapData, window: Viewport) -> GameView {
    let lies = g.map.anchor(g.map.acorn_slot());
    GameView {
        colliders: drawn_colliders(data, data.layer_count() as int),
        acorn: Some(Transform { x: lies.0 as i64, y: lies.1 as i64, rotation: 0, scale: WHOLE }),
        triggers: g.triggers.push(TriggerScene { scene: g.map.spec_intro_scene(window) }),
        ..g
    }
}

fn tiles_of_layer(data: &MapData, layer: usize) -> (tiles: Vec<MapTile>)
    requires
        layer < data.layer_count(),
    ensures
        tiles@ == layer_tiles(*data, layer as int, data.rows() as int),
{
    let mut tiles: Vec<MapTile> = Vec::new();
    let height = data.height();
    let width = data.width();
    let mut row: usize = 0;
    while row < height
        invariant
            row <= height,
            layer < data.layer_count(),
            height == data.rows(),
            width == data.columns(),
            tiles@ == layer_tiles(*data, layer as int, row as int),
        decreases height - row,
    {
        let ghost before = tiles@;
        let mut column: usize = 0;
        while column < width
            invariant
                column <= width,
                row < height,
                layer < data.layer_count(),
                height == data.rows(),
                width == data.columns(),
                tiles@ == before + row_tiles(*data, layer as int, row as int, column as int),
            decreases width - column,
        {
            let tile = data.tile_at(layer, row, column);
            if tile.asset_path.is_some() {
                tiles.push(MapTile { column, row, tile: copy_tile(tile) });
            }
            assert(tiles@ =~= before + row_tiles(*data, layer as int, row as int, column + 1));
            column += 1;
        }
        row += 1;
    }
    tiles
}

/// Draws a grid: hands out its tiles and lets its cells block, puts the
/// acorn on the map and asks for the map's introduction. Without a grid
/// nothing is drawn.
pub fn draw_map(game: &mut Game, map_data: Option<MapData>, window: &Viewport) -> (tiles: Option<Vec<MapTile>>)
    ensures
        match map_data {
            Some(data) => {
                &&& final(game)@ == drawn(old(game)@, data, *window)
                &&& tiles is Some
                &&& tiles.unwrap()@ == drawn_tiles(data, data.layer_count() as int)
            },
            None => final(game)@ == old(game)@ && tiles is None,
        },
{
    let data = match map_data {
        Some(data) => data,
        None => { return None; },
    };
    let mut tiles: Vec<MapTile> = Vec::new();
    let mut colliders: Vec<Collide> = Vec::new();
    let count = data.layers();
    let mut layer: usize = 0;
    while layer < count
        invariant
            layer <= count,
            count == data.layer_count(),
            tiles@ == drawn_tiles(data, layer as int),
            colliders@ == drawn_colliders(data, layer as int),
        decreases count - layer,
    {
        let mut of_layer = tiles_of_layer(&data, layer);
        if data.is_colliding(layer) {
            let ghost before = colliders@;
            let mut i: usize = 0;
            while i < of_layer.len()
                invariant
                    i <= of_layer.len(),
                    colliders@ == before + cells(of_layer@.take(i as int)),
                decreases of_layer.len() - i,
            {
                colliders.push(Collide { x: of_layer[i].column, y: of_layer[i].row });
                proof {
                    assert(colliders@ =~= before + cells(of_layer@.take(i + 1)));
                }
                i += 1;
            }
            proof {
                assert(of_layer@.take(i as int) =~= of_layer@);
            }
        } else {
            proof {
                assert(colliders@ =~= colliders@ + Seq::<Collide>::empty());
            }
        }
        tiles.append(&mut of_layer);
        layer += 1;
    }
    let lies = game.map.acorn_position();
    game.colliders = colliders;
    game.acorn = Some(Transform { x: lies.0, y: lies.1, rotation: 0, scale: WHOLE });
    if let Some(scene) = game.map.intro_scene(window) {
        game.triggers.push(TriggerScene { scene });
    }
    Some(tiles)
}

} // verus!
