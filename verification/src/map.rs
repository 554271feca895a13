//! The map, and the lookup of tiles by global id.

use vstd::prelude::*;
use crate::colour::Colour;
use crate::error::ErrorView;
use crate::events::views;
use crate::layers::{ImageLayer, ImageLayerView, Layer, LayerView};
use crate::objects::{ObjectGroup, ObjectGroupView};
use crate::orientation::Orientation;
use crate::properties::{Properties, PropertyValueView};
use crate::tileset::{Tileset, TilesetView};

verus! {

/// A whole map. Every document is read into one of these.
#[derive(Debug, PartialEq, Clone)]
pub struct TileMap {
    pub version: String,
    pub orientation: Orientation,
    /// Width of the map, in tiles.
    pub width: u32,
    /// Height of the map, in tiles.
    pub height: u32,
    pub tile_width: u32,
    pub tile_height: u32,
    pub tilesets: Vec<Tileset>,
    pub layers: Vec<Layer>,
    pub image_layers: Vec<ImageLayer>,
    pub object_groups: Vec<ObjectGroup>,
    pub properties: Properties,
    pub background_colour: Option<Colour>,
    pub infinite: bool,
}

/// A map as ghost data.
pub struct TileMapView {
    pub version: Seq<char>,
    pub orientation: Orientation,
    pub width: u32,
    pub height: u32,
    pub tile_width: u32,
    pub tile_height: u32,
    pub tilesets: Seq<TilesetView>,
    pub layers: Seq<LayerView>,
    pub image_layers: Seq<ImageLayerView>,
    pub object_groups: Seq<ObjectGroupView>,
    pub properties: Map<Seq<char>, PropertyValueView>,
    pub background_colour: Option<Colour>,
    pub infinite: bool,
}

impl View for TileMap {
    type V = TileMapView;

    open spec fn view(&self) -> TileMapView {
        TileMapView {
            version: self.version@,
            orientation: self.orientation,
            width: self.width,
            height: self.height,
            tile_width: self.tile_width,
            tile_height: self.tile_height,
            tilesets: views(self.tilesets@),
            layers: views(self.layers@),
            image_layers: views(self.image_layers@),
            object_groups: views(self.object_groups@),
            properties: self.properties@,
            background_colour: self.background_colour,
            infinite: self.infinite,
        }
    }
}

impl TileMapView {
    /// How many layers of any kind the map holds.
    pub open spec fn stack_height(self) -> nat {
        self.layers.len() + self.image_layers.len() + self.object_groups.len()
    }

    /// The layers of all three kinds are numbered as one stack: every index
    /// is below the number of layers, no two layers share one, and within
    /// each list the indices rise. So the indices are 0, 1, 2 and so on
    /// without a gap.
    pub open spec fn stacked(self) -> bool {
        let height = self.stack_height();
        &&& forall|i: int|
            0 <= i < self.layers.len() ==> (#[trigger] self.layers[i]).layer_index < height
        &&& forall|i: int|
            0 <= i < self.image_layers.len() ==> (#[trigger] self.image_layers[i]).layer_index
                < height
        &&& forall|i: int|
            0 <= i < self.object_groups.len() ==> (#[trigger] self.object_groups[i]).layer_index
                is Some && self.object_groups[i].layer_index->0 < height
        &&& forall|i: int, j: int|
            0 <= i < j < self.layers.len() ==> (#[trigger] self.layers[i]).layer_index < (
            #[trigger] self.layers[j]).layer_index
        &&& forall|i: int, j: int|
            0 <= i < j < self.image_layers.len() ==> (#[trigger] self.image_layers[i]).layer_index
                < (#[trigger] self.image_layers[j]).layer_index
        &&& forall|i: int, j: int|
            0 <= i < j < self.object_groups.len() ==> (#[trigger] self.object_groups[i]).layer_index->0
                < (#[trigger] self.object_groups[j]).layer_index->0
        &&& forall|i: int, j: int|
            0 <= i < self.layers.len() && 0 <= j < self.image_layers.len() ==> (
            #[trigger] self.layers[i]).layer_index != (#[trigger] self.image_layers[j]).layer_index
        &&& forall|i: int, j: int|
            0 <= i < self.layers.len() && 0 <= j < self.object_groups.len() ==> (
            #[trigger] self.layers[i]).layer_index != (
            #[trigger] self.object_groups[j]).layer_index->0
        &&& forall|i: int, j: int|
            0 <= i < self.image_layers.len() && 0 <= j < self.object_groups.len() ==> (
            #[trigger] self.image_layers[i]).layer_index != (
            #[trigger] self.object_groups[j]).layer_index->0
    }

    /// Width, height and the size of a tile are all above zero.
    pub open spec fn positive(self) -> bool {
        self.width > 0 && self.height > 0 && self.tile_width > 0 && self.tile_height > 0
    }

    /// What the `map` element's own attributes say is the same in both maps.
    pub open spec fn same_head(self, head: TileMapView) -> bool {
        &&& self.version == head.version
        &&& self.orientation == head.orientation
        &&& self.width == head.width
        &&& self.height == head.height
        &&& self.tile_width == head.tile_width
        &&& self.tile_height == head.tile_height
        &&& self.background_colour == head.background_colour
        &&& self.infinite == head.infinite
    }

    /// A map as the builder leaves it, for a `map` element whose attributes
    /// read as `head`: it has what those attributes say, its dimensions are
    /// positive, and its layers are numbered as one stack.
    pub open spec fn built_from(self, head: Result<TileMapView, ErrorView>) -> bool {
        &&& head matches Ok(first) && self.same_head(first)
        &&& self.positive()
        &&& self.stacked()
    }

    /// The map with one more tileset.
    pub open spec fn with_tileset(self, tileset: TilesetView) -> TileMapView {
        TileMapView { tilesets: self.tilesets.push(tileset), ..self }
    }
}

impl TileMap {
    /// Whether the tileset at `index` is the one that supplies the global
    /// tile id `gid`: of the tilesets that start at or below `gid` it starts
    /// highest, and of those that start there it is declared last.
    pub open spec fn owns(tilesets: Seq<TilesetView>, gid: u32, index: int) -> bool {
        &&& 0 <= index < tilesets.len()
        &&& tilesets[index].first_gid <= gid
        &&& forall|j: int|
            0 <= j < tilesets.len() && (#[trigger] tilesets[j]).first_gid <= gid
                ==> tilesets[j].first_gid <= tilesets[index].first_gid
        &&& forall|j: int|
            index < j < tilesets.len() ==> (#[trigger] tilesets[j]).first_gid
                != tilesets[index].first_gid
    }

    /// Whether no tileset supplies `gid`: every tileset starts above it.
    pub open spec fn unowned(tilesets: Seq<TilesetView>, gid: u32) -> bool {
        forall|j: int| 0 <= j < tilesets.len() ==> (#[trigger] tilesets[j]).first_gid > gid
    }

    /// The place, among the map's tilesets, of the one that supplies `gid`.
    pub fn tileset_index_by_gid(&self, gid: u32) -> (r: Option<usize>)
        ensures
            match r {
                Some(index) => TileMap::owns(self@.tilesets, gid, index as int),
                None => TileMap::unowned(self@.tilesets, gid),
            },
    {
        let ghost all = self@.tilesets;
        let mut best: Option<usize> = None;
        let mut i: usize = 0;
        while i < self.tilesets.len()
            invariant
                i <= self.tilesets@.len(),
                all == views(self.tilesets@),
                match best {
                    Some(index) => index < i && TileMap::owns(all.take(i as int), gid, index as int),
                    None => TileMap::unowned(all.take(i as int), gid),
                },
            decreases self.tilesets@.len() - i,
        {
            let first_gid = self.tilesets[i].first_gid;
            proof {
                assert(all[i as int].first_gid == first_gid);
                assert forall|j: int| 0 <= j < i implies all.take(i + 1)[j] == all.take(i as int)[j] by {
                }
                assert(all.take(i + 1)[i as int] == all[i as int]);
            }
            let better = first_gid <= gid && match best {
                Some(index) => self.tilesets[index].first_gid <= first_gid,
                None => true,
            };
            proof {
                if let Some(index) = best {
                    assert(all.take(i as int)[index as int] == all[index as int]);
                }
            }
            if better {
                best = Some(i);
            }
            i += 1;
        }
        assert(all.take(i as int) =~= all);
        best
    }

    /// The tileset that supplies the global tile id `gid`, if any does.
    pub fn get_tileset_by_gid(&self, gid: u32) -> (r: Option<&Tileset>)
        ensures
            match r {
                Some(tileset) => exists|index: int|
                    #![trigger self.tilesets@[index]]
                    TileMap::owns(self@.tilesets, gid, index) && *tileset == self.tilesets@[index],
                None => TileMap::unowned(self@.tilesets, gid),
            },
    {
        match self.tileset_index_by_gid(gid) {
            Some(index) => Some(&self.tilesets[index]),
            None => None,
        }
    }

    /// The rectangle, in the pixels of the map's image for it, of the tile
    /// with the global id `id`: the corner's x and y, then width and height.
    /// `None` where no tileset supplies the id, where the tileset has no
    /// image, or where the tile would not lie within the image.
    pub fn get_tile_rectangle_by_id(&self, id: u32) -> (r: Option<(u32, u32, u32, u32)>)
        ensures
            match self.tileset_owner(id) {
                Some(tileset) => r == tile_rectangle(tileset, id),
                None => r is None,
            },
    {
        match self.tileset_index_by_gid(id) {
            Some(index) => {
                proof {
                    lemma_owner_is_unique(self@.tilesets, id);
                }
                self.tilesets[index].rectangle(id)
            },
            None => None,
        }
    }

    /// The tileset that supplies `gid`, as ghost data.
    pub open spec fn tileset_owner(&self, gid: u32) -> Option<TilesetView> {
        if exists|index: int| TileMap::owns(self@.tilesets, gid, index) {
            Some(self@.tilesets[choose|index: int| TileMap::owns(self@.tilesets, gid, index)])
        } else {
            None
        }
    }
}

/// At most one tileset supplies a given id.
pub proof fn lemma_owner_is_unique(tilesets: Seq<TilesetView>, gid: u32)
    ensures
        forall|i: int, j: int|
            TileMap::owns(tilesets, gid, i) && TileMap::owns(tilesets, gid, j) ==> i == j,
        TileMap::unowned(tilesets, gid) ==> forall|i: int| !TileMap::owns(tilesets, gid, i),
{
    assert forall|i: int, j: int|
        TileMap::owns(tilesets, gid, i) && TileMap::owns(tilesets, gid, j) implies i == j by {
        if i < j {
            assert(tilesets[j].first_gid <= tilesets[i].first_gid);
            assert(tilesets[i].first_gid <= tilesets[j].first_gid);
        } else if j < i {
            assert(tilesets[j].first_gid <= tilesets[i].first_gid);
            assert(tilesets[i].first_gid <= tilesets[j].first_gid);
        }
    }
}

/// A map without tilesets supplies no tile.
pub proof fn lemma_no_tilesets_no_owner(tilesets: Seq<TilesetView>, gid: u32)
    requires
        tilesets.len() == 0,
    ensures
        TileMap::unowned(tilesets, gid),
        forall|index: int| !TileMap::owns(tilesets, gid, index),
{
}

/// The rectangle of the tile `gid` in the first image of its tileset. The
/// tiles are packed in rows from the top left, `margin` pixels from the
/// edges and `spacing` pixels apart; a row holds as many tiles as the image
/// width divided by tile width plus spacing, rounded down. `None` where the
/// tileset has no image, does not reach down to `gid`, has no column to
/// offer, or where the tile would reach beyond the image.
pub open spec fn tile_rectangle(tileset: TilesetView, gid: u32) -> Option<(u32, u32, u32, u32)> {
    if tileset.images.len() == 0 || gid < tileset.first_gid {
        None
    } else {
        let image = tileset.images[0];
        let local = gid - tileset.first_gid;
        let stride_x = tileset.tile_width + tileset.spacing;
        let stride_y = tileset.tile_height + tileset.spacing;
        let width = image.width as int;
        if stride_x == 0 || width <= 0 || width / stride_x == 0 {
            None
        } else {
            let columns = width / stride_x;
            let x = tileset.margin + stride_x * (local % columns);
            let y = tileset.margin + stride_y * (local / columns);
            if x + tileset.tile_width > image.width || y + tileset.tile_height > image.height {
                None
            } else {
                Some((x as u32, y as u32, tileset.tile_width, tileset.tile_height))
            }
        }
    }
}

impl Tileset {
    /// The rectangle of the tile with the global id `gid` in the tileset's
    /// first image.
    pub fn rectangle(&self, gid: u32) -> (r: Option<(u32, u32, u32, u32)>)
        ensures
            r == tile_rectangle(self@, gid),
    {
        if self.images.len() == 0 || gid < self.first_gid {
            return None;
        }
        assert(self@.images[0] == self.images@[0]@);
        let width = self.images[0].width;
        let height = self.images[0].height;
        let local: u64 = (gid - self.first_gid) as u64;
        let stride_x: u64 = self.tile_width as u64 + self.spacing as u64;
        let stride_y: u64 = self.tile_height as u64 + self.spacing as u64;
        if stride_x == 0 || width <= 0 || height < 0 {
            return None;
        }
        let columns: u64 = width as u64 / stride_x;
        if columns == 0 {
            return None;
        }
        let column: u64 = local % columns;
        let row: u64 = local / columns;
        assert(stride_x * column <= 0x2_0000_0000 * 0x1_0000_0000) by (nonlinear_arith)
            requires
                stride_x <= 0x2_0000_0000,
                column <= 0x1_0000_0000,
        ;
        assert(stride_y * row <= 0x2_0000_0000 * 0x1_0000_0000) by (nonlinear_arith)
            requires
                stride_y <= 0x2_0000_0000,
                row <= 0x1_0000_0000,
        ;
        let x: u128 = self.margin as u128 + (stride_x as u128) * (column as u128);
        let y: u128 = self.margin as u128 + (stride_y as u128) * (row as u128);
        if x + self.tile_width as u128 > width as u128 || y + self.tile_height as u128
            > height as u128 {
            return None;
        }
        Some((x as u32, y as u32, self.tile_width, self.tile_height))
    }
}

} // verus!
