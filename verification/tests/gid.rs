use tiled::image::Image;
use tiled::map::TileMap;
use tiled::orientation::Orientation;
use tiled::properties::Properties;
use tiled::tileset::Tileset;

fn tileset(first_gid: u32, images: Vec<Image>) -> Tileset {
    Tileset {
        first_gid,
        name: format!("set{}", first_gid),
        tile_width: 32,
        tile_height: 32,
        spacing: 0,
        margin: 0,
        tilecount: None,
        images,
        tiles: Vec::new(),
        properties: Properties::new(),
    }
}

fn image(width: i32, height: i32) -> Image {
    Image { source: "tiles.png".to_string(), width, height, transparent_colour: None }
}

fn map_with(tilesets: Vec<Tileset>) -> TileMap {
    TileMap {
        version: "1.0".to_string(),
        orientation: Orientation::Orthogonal,
        width: 10,
        height: 10,
        tile_width: 32,
        tile_height: 32,
        tilesets,
        layers: Vec::new(),
        image_layers: Vec::new(),
        object_groups: Vec::new(),
        properties: Properties::new(),
        background_colour: None,
        infinite: false,
    }
}

#[test]
fn gid_resolves_to_tileset_with_largest_start() {
    let map = map_with(vec![tileset(1, vec![]), tileset(50, vec![]), tileset(100, vec![])]);
    assert_eq!(map.get_tileset_by_gid(49).map(|t| t.first_gid), Some(1));
    assert_eq!(map.get_tileset_by_gid(50).map(|t| t.first_gid), Some(50));
    assert_eq!(map.get_tileset_by_gid(99).map(|t| t.first_gid), Some(50));
    assert_eq!(map.get_tileset_by_gid(100).map(|t| t.first_gid), Some(100));
    assert_eq!(map.get_tileset_by_gid(u32::MAX).map(|t| t.first_gid), Some(100));
    assert!(map.get_tileset_by_gid(0).is_none());
}

#[test]
fn gid_resolution_does_not_need_sorted_tilesets() {
    let map = map_with(vec![tileset(100, vec![]), tileset(1, vec![]), tileset(50, vec![])]);
    assert_eq!(map.get_tileset_by_gid(49).map(|t| t.first_gid), Some(1));
    assert_eq!(map.get_tileset_by_gid(75).map(|t| t.first_gid), Some(50));
    assert_eq!(map.tileset_index_by_gid(75), Some(2));
    assert_eq!(map.tileset_index_by_gid(1000), Some(0));
}

#[test]
fn gid_tie_goes_to_the_tileset_declared_last() {
    let mut first = tileset(5, vec![]);
    first.name = "first".to_string();
    let mut second = tileset(5, vec![]);
    second.name = "second".to_string();
    let map = map_with(vec![first, second]);
    assert_eq!(map.tileset_index_by_gid(7), Some(1));
    assert_eq!(map.get_tileset_by_gid(7).map(|t| t.name.as_str()), Some("second"));
}

#[test]
fn gid_above_signed_range_is_resolved() {
    let map = map_with(vec![tileset(1, vec![]), tileset(0x9000_0000, vec![])]);
    assert_eq!(map.get_tileset_by_gid(0x9000_0001).map(|t| t.first_gid), Some(0x9000_0000));
}

#[test]
fn map_without_tilesets_owns_no_gid() {
    let map = map_with(vec![]);
    for gid in [0u32, 1, 2, 77, u32::MAX] {
        assert!(map.get_tileset_by_gid(gid).is_none());
        assert_eq!(map.tileset_index_by_gid(gid), None);
        assert_eq!(map.get_tile_rectangle_by_id(gid), None);
    }
}

#[test]
fn tile_rectangle_of_packed_tileset() {
    let map = map_with(vec![tileset(1, vec![image(256, 256)])]);
    assert_eq!(map.get_tile_rectangle_by_id(1 + 9), Some((32, 32, 32, 32)));
    assert_eq!(map.get_tile_rectangle_by_id(1), Some((0, 0, 32, 32)));
    assert_eq!(map.get_tile_rectangle_by_id(1 + 7), Some((224, 0, 32, 32)));
    assert_eq!(map.get_tile_rectangle_by_id(1 + 8), Some((0, 32, 32, 32)));
    assert_eq!(map.get_tile_rectangle_by_id(1 + 63), Some((224, 224, 32, 32)));
}

#[test]
fn tile_rectangle_with_margin_and_spacing() {
    let mut set = tileset(10, vec![image(100, 80)]);
    set.tile_width = 16;
    set.tile_height = 8;
    set.spacing = 2;
    set.margin = 3;
    let map = map_with(vec![set]);
    // 100 / (16 + 2) = 5 columns; local index 7 is column 2 of row 1.
    assert_eq!(map.get_tile_rectangle_by_id(17), Some((3 + 18 * 2, 3 + 10 * 1, 16, 8)));
    assert_eq!(map.get_tile_rectangle_by_id(10), Some((3, 3, 16, 8)));
}

#[test]
fn tile_rectangle_is_none_beyond_the_image() {
    let map = map_with(vec![tileset(1, vec![image(256, 64)])]);
    assert_eq!(map.get_tile_rectangle_by_id(1 + 15), Some((224, 32, 32, 32)));
    assert_eq!(map.get_tile_rectangle_by_id(1 + 16), None);
    assert_eq!(map.get_tile_rectangle_by_id(u32::MAX), None);
}

#[test]
fn tile_rectangle_is_none_without_image_or_tileset() {
    let map = map_with(vec![tileset(5, vec![])]);
    assert_eq!(map.get_tile_rectangle_by_id(6), None);
    assert_eq!(map.get_tile_rectangle_by_id(4), None);
}

#[test]
fn tile_rectangle_is_none_for_an_image_without_columns() {
    let map = map_with(vec![tileset(1, vec![image(16, 64)])]);
    assert_eq!(map.get_tile_rectangle_by_id(1), None);
    let mut flat = tileset(1, vec![image(64, 64)]);
    flat.tile_width = 0;
    assert_eq!(map_with(vec![flat]).get_tile_rectangle_by_id(1), None);
    assert_eq!(map_with(vec![tileset(1, vec![image(-5, 64)])]).get_tile_rectangle_by_id(1), None);
    assert_eq!(map_with(vec![tileset(1, vec![image(64, -5)])]).get_tile_rectangle_by_id(1), None);
}

#[test]
fn tile_rectangle_uses_the_first_image() {
    let map = map_with(vec![tileset(1, vec![image(64, 64), image(256, 256)])]);
    assert_eq!(map.get_tile_rectangle_by_id(1 + 3), Some((32, 32, 32, 32)));
    assert_eq!(map.get_tile_rectangle_by_id(1 + 4), None);
    assert_eq!(map.tilesets[0].rectangle(1 + 2), Some((0, 32, 32, 32)));
}
