//! Tile layers and image layers.
//!
//! Opacity and offsets are real numbers; they are kept as the text that the
//! document writes them with, once that text is known to write a number.

use vstd::prelude::*;
use crate::attrs::{
    attr_flag_or, attr_i32, attr_u32, attr_value, find_attr, get_flag_or, get_i32, get_u32,
};
use crate::data::{read_grid, rows_view, tile_grid, LayerTile};
use crate::error::{placed, ErrorView, TiledError};
use crate::events::{
    resume, step, step_at, views, Attribute, AttributeView, EventView, Step, StepView, XmlEvent,
};
use crate::image::{Image, ImageView};
use crate::number::{attr_real_or, get_real_or};
use crate::properties::{parse_properties, properties_body, Properties, PropertyValueView};
use crate::text::str_eq;

verus! {

/// A block of cells of an infinite map.
#[derive(Debug, PartialEq, Clone)]
pub struct Chunk {
    /// The column of the block's first cell.
    pub x: i32,
    /// The row of the block's first cell.
    pub y: i32,
    pub width: u32,
    pub height: u32,
    pub tiles: Vec<Vec<LayerTile>>,
}

/// A chunk as ghost data.
pub struct ChunkView {
    pub x: i32,
    pub y: i32,
    pub width: u32,
    pub height: u32,
    pub tiles: Seq<Seq<LayerTile>>,
}

impl View for Chunk {
    type V = ChunkView;

    open spec fn view(&self) -> ChunkView {
        ChunkView {
            x: self.x,
            y: self.y,
            width: self.width,
            height: self.height,
            tiles: rows_view(self.tiles@),
        }
    }
}

/// The error for a `chunk` element without its required attributes.
pub open spec fn malformed_chunk() -> ErrorView {
    ErrorView::MalformedAttributes(
        "chunk must have an x, y, width and height with correct types"@,
    )
}

impl Chunk {
    /// The chunk of a `chunk` element whose start tag is followed by the
    /// event at `pos`, and the position after what was read of it. `x`, `y`,
    /// `width` and `height` are required; the cells are packed as the
    /// attributes `packing` of the enclosing `data` element say.
    #[verifier::opaque]
    pub open spec fn element(
        events: Seq<EventView>,
        pos: int,
        attrs: Seq<AttributeView>,
        packing: Seq<AttributeView>,
    ) -> Result<(ChunkView, int), ErrorView> {
        match (
            attr_i32(attrs, "x"@),
            attr_i32(attrs, "y"@),
            attr_u32(attrs, "width"@),
            attr_u32(attrs, "height"@),
        ) {
            (Some(x), Some(y), Some(width), Some(height)) => match tile_grid(
                events,
                pos,
                packing,
                width,
                "chunk"@,
            ) {
                Err(e) => Err(e),
                Ok((tiles, next)) => Ok((ChunkView { x, y, width, height, tiles }, next)),
            },
            _ => Err(malformed_chunk()),
        }
    }

    /// Builds a chunk from its element.
    pub fn new(
        events: &Vec<XmlEvent>,
        pos: usize,
        attrs: &Vec<Attribute>,
        packing: &Vec<Attribute>,
    ) -> (r: Result<(Chunk, usize), TiledError>)
        ensures
            placed(r) == Chunk::element(
                views(events@),
                pos as int,
                views(attrs@),
                views(packing@),
            ),
            r matches Ok((_, next)) ==> pos < next <= events@.len(),
    {
        proof {
            reveal(Chunk::element);
        }
        let x = get_i32(attrs, "x");
        let y = get_i32(attrs, "y");
        let width = get_u32(attrs, "width");
        let height = get_u32(attrs, "height");
        match (x, y, width, height) {
            (Some(x), Some(y), Some(width), Some(height)) => {
                let (tiles, next) = read_grid(events, pos, packing, width, "chunk")?;
                Ok((Chunk { x, y, width, height, tiles }, next))
            },
            _ => Err(
                TiledError::MalformedAttributes(
                    "chunk must have an x, y, width and height with correct types".to_owned(),
                ),
            ),
        }
    }
}

/// The chunks collected from `pos` to the end tag of a `data` element,
/// appended to `acc` in the order of the document, and the position after
/// that end tag.
#[verifier::opaque]
pub open spec fn chunks_body(
    events: Seq<EventView>,
    pos: int,
    packing: Seq<AttributeView>,
    acc: Seq<ChunkView>,
) -> Result<(Seq<ChunkView>, int), ErrorView>
    decreases events.len() - pos,
{
    match step_at(events, pos, "data"@) {
        StepView::Fail(e) => Err(e),
        StepView::Close => Ok((acc, pos + 1)),
        StepView::Skip => chunks_body(events, pos + 1, packing, acc),
        StepView::Child { name, attributes } => if name == "chunk"@ {
            match Chunk::element(events, pos + 1, attributes, packing) {
                Err(e) => Err(e),
                Ok((chunk, next)) => chunks_body(
                    events,
                    resume(events, pos, next),
                    packing,
                    acc.push(chunk),
                ),
            }
        } else {
            chunks_body(events, pos + 1, packing, acc)
        },
    }
}

/// Reads the chunks of a `data` element, from the event after its start tag
/// through its end tag.
pub fn parse_chunks(events: &Vec<XmlEvent>, start: usize, packing: &Vec<Attribute>) -> (r: Result<
    (Vec<Chunk>, usize),
    TiledError,
>)
    ensures
        match r {
            Ok((chunks, next)) => chunks_body(
                views(events@),
                start as int,
                views(packing@),
                Seq::<ChunkView>::empty(),
            ) == Ok::<(Seq<ChunkView>, int), ErrorView>((views(chunks@), next as int)) && start
                < next <= events@.len(),
            Err(e) => chunks_body(
                views(events@),
                start as int,
                views(packing@),
                Seq::<ChunkView>::empty(),
            ) == Err::<(Seq<ChunkView>, int), ErrorView>(e@),
        },
{
    let ghost ev = views(events@);
    let mut chunks: Vec<Chunk> = Vec::new();
    let mut pos: usize = start;
    assert(views(chunks@) =~= Seq::<ChunkView>::empty());
    loop
        invariant
            start <= pos,
            ev == views(events@),
            chunks_body(ev, pos as int, views(packing@), views(chunks@)) == chunks_body(
                ev,
                start as int,
                views(packing@),
                Seq::<ChunkView>::empty(),
            ),
        decreases events@.len() - pos,
    {
        proof {
            reveal(chunks_body);
        }
        match step(events, pos, "data") {
            Step::Fail(e) => {
                return Err(e);
            },
            Step::Close => {
                return Ok((chunks, pos + 1));
            },
            Step::Skip => {
                pos += 1;
            },
            Step::Child { name, attributes } => {
                if str_eq(name.as_str(), "chunk") {
                    let (chunk, next) = Chunk::new(events, pos + 1, attributes, packing)?;
                    let ghost before = views(chunks@);
                    chunks.push(chunk);
                    assert(views(chunks@) =~= before.push(chunk@));
                    pos = next;
                } else {
                    pos += 1;
                }
            },
        }
    }
}

/// The cells of a layer.
#[derive(Debug, PartialEq, Clone)]
pub enum LayerData {
    /// The rows of a map of fixed size, top to bottom.
    Finite(Vec<Vec<LayerTile>>),
    /// The blocks of an infinite map, in the order of the document.
    Infinite(Vec<Chunk>),
}

/// The cells of a layer as ghost data.
pub enum LayerDataView {
    Finite(Seq<Seq<LayerTile>>),
    Infinite(Seq<ChunkView>),
}

impl View for LayerData {
    type V = LayerDataView;

    open spec fn view(&self) -> LayerDataView {
        match self {
            LayerData::Finite(rows) => LayerDataView::Finite(rows_view(rows@)),
            LayerData::Infinite(chunks) => LayerDataView::Infinite(views(chunks@)),
        }
    }
}

/// A layer of tiles.
#[derive(Debug, PartialEq, Clone)]
pub struct Layer {
    pub name: String,
    pub opacity: String,
    pub visible: bool,
    pub offset_x: String,
    pub offset_y: String,
    pub tiles: LayerData,
    pub properties: Properties,
    /// The layer's place in the map's stack, counted from 0 at the bottom.
    pub layer_index: u32,
}

/// A layer as ghost data.
pub struct LayerView {
    pub name: Seq<char>,
    pub opacity: Seq<char>,
    pub visible: bool,
    pub offset_x: Seq<char>,
    pub offset_y: Seq<char>,
    pub tiles: LayerDataView,
    pub properties: Map<Seq<char>, PropertyValueView>,
    pub layer_index: u32,
}

impl View for Layer {
    type V = LayerView;

    open spec fn view(&self) -> LayerView {
        LayerView {
            name: self.name@,
            opacity: self.opacity@,
            visible: self.visible,
            offset_x: self.offset_x@,
            offset_y: self.offset_y@,
            tiles: self.tiles@,
            properties: self.properties@,
            layer_index: self.layer_index,
        }
    }
}

/// The error for a layer without a name.
pub open spec fn unnamed_layer() -> ErrorView {
    ErrorView::MalformedAttributes("layer must have a name"@)
}

impl Layer {
    /// The layer that the attributes of a `layer` element describe, before
    /// its children are read: `name` is required; the layer has no cells and
    /// no properties until a child says otherwise.
    pub open spec fn from_attributes(attrs: Seq<AttributeView>, layer_index: u32) -> Result<
        LayerView,
        ErrorView,
    > {
        match attr_value(attrs, "name"@) {
            Some(name) => Ok(
                LayerView {
                    name,
                    opacity: attr_real_or(attrs, "opacity"@, "1"@),
                    visible: attr_flag_or(attrs, "visible"@, true),
                    offset_x: attr_real_or(attrs, "offsetx"@, "0"@),
                    offset_y: attr_real_or(attrs, "offsety"@, "0"@),
                    tiles: LayerDataView::Finite(Seq::empty()),
                    properties: Map::empty(),
                    layer_index,
                },
            ),
            None => Err(unnamed_layer()),
        }
    }

    /// The layer `acc` with one child element applied, and the position after
    /// that child. The child's start tag is the event at `pos`. A `data`
    /// element sets the cells: rows of `width` cells, or chunks where the map
    /// is infinite. A `properties` element sets the properties. Any other
    /// element is passed over.
    pub open spec fn child(
        events: Seq<EventView>,
        pos: int,
        name: Seq<char>,
        attributes: Seq<AttributeView>,
        acc: LayerView,
        width: u32,
        infinite: bool,
    ) -> Result<(LayerView, int), ErrorView> {
        if name == "data"@ {
            if infinite {
                match chunks_body(events, pos + 1, attributes, Seq::empty()) {
                    Err(e) => Err(e),
                    Ok((chunks, next)) => Ok(
                        (LayerView { tiles: LayerDataView::Infinite(chunks), ..acc }, next),
                    ),
                }
            } else {
                match tile_grid(events, pos + 1, attributes, width, "data"@) {
                    Err(e) => Err(e),
                    Ok((rows, next)) => Ok(
                        (LayerView { tiles: LayerDataView::Finite(rows), ..acc }, next),
                    ),
                }
            }
        } else if name == "properties"@ {
            match properties_body(events, pos + 1, Map::empty()) {
                Err(e) => Err(e),
                Ok((properties, next)) => Ok((LayerView { properties, ..acc }, next)),
            }
        } else {
            Ok((acc, pos + 1))
        }
    }

    /// The layer after the children from `pos` to the end tag of its element
    /// have been applied to `acc`, and the position after that end tag.
    #[verifier::opaque]
    pub open spec fn body(
        events: Seq<EventView>,
        pos: int,
        acc: LayerView,
        width: u32,
        infinite: bool,
    ) -> Result<(LayerView, int), ErrorView>
        decreases events.len() - pos,
    {
        match step_at(events, pos, "layer"@) {
            StepView::Fail(e) => Err(e),
            StepView::Close => Ok((acc, pos + 1)),
            StepView::Skip => Layer::body(events, pos + 1, acc, width, infinite),
            StepView::Child { name, attributes } => match Layer::child(
                events,
                pos,
                name,
                attributes,
                acc,
                width,
                infinite,
            ) {
                Err(e) => Err(e),
                Ok((grown, next)) => Layer::body(
                    events,
                    resume(events, pos, next),
                    grown,
                    width,
                    infinite,
                ),
            },
        }
    }

    /// The layer of a `layer` element whose start tag is followed by the
    /// event at `pos`, and the position after its end tag.
    #[verifier::opaque]
    pub open spec fn element(
        events: Seq<EventView>,
        pos: int,
        attrs: Seq<AttributeView>,
        width: u32,
        layer_index: u32,
        infinite: bool,
    ) -> Result<(LayerView, int), ErrorView> {
        match Layer::from_attributes(attrs, layer_index) {
            Err(e) => Err(e),
            Ok(layer) => Layer::body(events, pos, layer, width, infinite),
        }
    }

    /// Applies to the layer the child element whose start tag is the event at `pos`.
    pub(crate) fn add_child(
        &mut self,
        events: &Vec<XmlEvent>,
        pos: usize,
        name: &str,
        attributes: &Vec<Attribute>,
        width: u32,
        infinite: bool,
    ) -> (r: Result<usize, TiledError>)
        requires
            pos < events@.len() <= usize::MAX,
        ensures
            match r {
                Ok(next) => Layer::child(
                    views(events@),
                    pos as int,
                    name@,
                    views(attributes@),
                    old(self)@,
                    width,
                    infinite,
                ) == Ok::<(LayerView, int), ErrorView>((final(self)@, next as int)) && pos < next
                    <= events@.len(),
                Err(e) => Layer::child(
                    views(events@),
                    pos as int,
                    name@,
                    views(attributes@),
                    old(self)@,
                    width,
                    infinite,
                ) == Err::<(LayerView, int), ErrorView>(e@),
            },
    {
        if str_eq(name, "data") {
            if infinite {
                let (chunks, next) = parse_chunks(events, pos + 1, attributes)?;
                self.tiles = LayerData::Infinite(chunks);
                Ok(next)
            } else {
                let (rows, next) = read_grid(events, pos + 1, attributes, width, "data")?;
                self.tiles = LayerData::Finite(rows);
                Ok(next)
            }
        } else if str_eq(name, "properties") {
            let (properties, next) = parse_properties(events, pos + 1)?;
            self.properties = properties;
            Ok(next)
        } else {
            Ok(pos + 1)
        }
    }

    /// Builds a layer from its element. `width` is the width of the map in
    /// tiles, `layer_index` the layer's place in the stack.
    pub fn new(
        events: &Vec<XmlEvent>,
        start: usize,
        attrs: &Vec<Attribute>,
        width: u32,
        layer_index: u32,
        infinite: bool,
    ) -> (r: Result<(Layer, usize), TiledError>)
        ensures
            placed(r) == Layer::element(
                views(events@),
                start as int,
                views(attrs@),
                width,
                layer_index,
                infinite,
            ),
            r matches Ok((_, next)) ==> start < next <= events@.len(),
    {
        proof {
            reveal(Layer::element);
        }
        let name = match find_attr(attrs, "name") {
            Some(name) => name.clone(),
            None => {
                return Err(TiledError::MalformedAttributes("layer must have a name".to_owned()));
            },
        };
        let rows: Vec<Vec<LayerTile>> = Vec::new();
        assert(rows_view(rows@) =~= Seq::<Seq<LayerTile>>::empty());
        let mut layer = Layer {
            name,
            opacity: get_real_or(attrs, "opacity", "1"),
            visible: get_flag_or(attrs, "visible", true),
            offset_x: get_real_or(attrs, "offsetx", "0"),
            offset_y: get_real_or(attrs, "offsety", "0"),
            tiles: LayerData::Finite(rows),
            properties: Properties::new(),
            layer_index,
        };
        let ghost ev = views(events@);
        let ghost first = layer@;
        let mut pos: usize = start;
        loop
            invariant
                start <= pos,
                ev == views(events@),
                Layer::from_attributes(views(attrs@), layer_index) == Ok::<LayerView, ErrorView>(
                    first,
                ),
                Layer::body(ev, pos as int, layer@, width, infinite) == Layer::body(
                    ev,
                    start as int,
                    first,
                    width,
                    infinite,
                ),
            decreases events@.len() - pos,
        {
            proof {
                reveal(Layer::element);
                reveal(Layer::body);
            }
            match step(events, pos, "layer") {
                Step::Fail(e) => {
                    return Err(e);
                },
                Step::Close => {
                    return Ok((layer, pos + 1));
                },
                Step::Skip => {
                    pos += 1;
                },
                Step::Child { name, attributes } => {
                    pos = layer.add_child(events, pos, name.as_str(), attributes, width, infinite)?;
                },
            }
        }
    }
}

/// A layer that shows one image.
#[derive(Debug, PartialEq, Clone)]
pub struct ImageLayer {
    pub name: String,
    pub opacity: String,
    pub visible: bool,
    pub offset_x: String,
    pub offset_y: String,
    pub image: Option<Image>,
    pub properties: Properties,
    /// The layer's place in the map's stack, counted from 0 at the bottom.
    pub layer_index: u32,
}

/// An image layer as ghost data.
pub struct ImageLayerView {
    pub name: Seq<char>,
    pub opacity: Seq<char>,
    pub visible: bool,
    pub offset_x: Seq<char>,
    pub offset_y: Seq<char>,
    pub image: Option<ImageView>,
    pub properties: Map<Seq<char>, PropertyValueView>,
    pub layer_index: u32,
}

impl View for ImageLayer {
    type V = ImageLayerView;

    open spec fn view(&self) -> ImageLayerView {
        ImageLayerView {
            name: self.name@,
            opacity: self.opacity@,
            visible: self.visible,
            offset_x: self.offset_x@,
            offset_y: self.offset_y@,
            image: match self.image {
                Some(image) => Some(image@),
                None => None,
            },
            properties: self.properties@,
            layer_index: self.layer_index,
        }
    }
}

impl ImageLayer {
    /// The image layer that the attributes of an `imagelayer` element
    /// describe, before its children are read: `name` is required.
    pub open spec fn from_attributes(attrs: Seq<AttributeView>, layer_index: u32) -> Result<
        ImageLayerView,
        ErrorView,
    > {
        match attr_value(attrs, "name"@) {
            Some(name) => Ok(
                ImageLayerView {
                    name,
                    opacity: attr_real_or(attrs, "opacity"@, "1"@),
                    visible: attr_flag_or(attrs, "visible"@, true),
                    offset_x: attr_real_or(attrs, "offsetx"@, "0"@),
                    offset_y: attr_real_or(attrs, "offsety"@, "0"@),
                    image: None,
                    properties: Map::empty(),
                    layer_index,
                },
            ),
            None => Err(unnamed_layer()),
        }
    }

    /// The image layer after the children from `pos` to the end tag of its
    /// element have been applied to `acc`, and the position after that end
    /// tag: `image` sets the image, `properties` the properties.
    #[verifier::opaque]
    pub open spec fn body(events: Seq<EventView>, pos: int, acc: ImageLayerView) -> Result<
        (ImageLayerView, int),
        ErrorView,
    >
        decreases events.len() - pos,
    {
        match step_at(events, pos, "imagelayer"@) {
            StepView::Fail(e) => Err(e),
            StepView::Close => Ok((acc, pos + 1)),
            StepView::Skip => ImageLayer::body(events, pos + 1, acc),
            StepView::Child { name, attributes } => if name == "image"@ {
                match Image::element(events, pos + 1, attributes) {
                    Err(e) => Err(e),
                    Ok((image, next)) => ImageLayer::body(
                        events,
                        resume(events, pos, next),
                        ImageLayerView { image: Some(image), ..acc },
                    ),
                }
            } else if name == "properties"@ {
                match properties_body(events, pos + 1, Map::empty()) {
                    Err(e) => Err(e),
                    Ok((properties, next)) => ImageLayer::body(
                        events,
                        resume(events, pos, next),
                        ImageLayerView { properties, ..acc },
                    ),
                }
            } else {
                ImageLayer::body(events, pos + 1, acc)
            },
        }
    }

    /// The image layer of an `imagelayer` element whose start tag is followed
    /// by the event at `pos`, and the position after its end tag.
    #[verifier::opaque]
    pub open spec fn element(
        events: Seq<EventView>,
        pos: int,
        attrs: Seq<AttributeView>,
        layer_index: u32,
    ) -> Result<(ImageLayerView, int), ErrorView> {
        match ImageLayer::from_attributes(attrs, layer_index) {
            Err(e) => Err(e),
            Ok(layer) => ImageLayer::body(events, pos, layer),
        }
    }

    /// Builds an image layer from its element.
    pub fn new(events: &Vec<XmlEvent>, start: usize, attrs: &Vec<Attribute>, layer_index: u32) -> (r:
        Result<(ImageLayer, usize), TiledError>)
        ensures
            placed(r) == ImageLayer::element(
                views(events@),
                start as int,
                views(attrs@),
                layer_index,
            ),
            r matches Ok((_, next)) ==> start < next <= events@.len(),
    {
        proof {
            reveal(ImageLayer::element);
        }
        let name = match find_attr(attrs, "name") {
            Some(name) => name.clone(),
            None => {
                return Err(TiledError::MalformedAttributes("layer must have a name".to_owned()));
            },
        };
        let mut layer = ImageLayer {
            name,
            opacity: get_real_or(attrs, "opacity", "1"),
            visible: get_flag_or(attrs, "visible", true),
            offset_x: get_real_or(attrs, "offsetx", "0"),
            offset_y: get_real_or(attrs, "offsety", "0"),
            image: None,
            properties: Properties::new(),
            layer_index,
        };
        let ghost ev = views(events@);
        let ghost first = layer@;
        let mut pos: usize = start;
        loop
            invariant
                start <= pos,
                ev == views(events@),
                ImageLayer::from_attributes(views(attrs@), layer_index) == Ok::<
                    ImageLayerView,
                    ErrorView,
                >(first),
                ImageLayer::body(ev, pos as int, layer@) == ImageLayer::body(
                    ev,
                    start as int,
                    first,
                ),
            decreases events@.len() - pos,
        {
            proof {
                reveal(ImageLayer::element);
                reveal(ImageLayer::body);
            }
            match step(events, pos, "imagelayer") {
                Step::Fail(e) => {
                    return Err(e);
                },
                Step::Close => {
                    return Ok((layer, pos + 1));
                },
                Step::Skip => {
                    pos += 1;
                },
                Step::Child { name, attributes } => {
                    if str_eq(name.as_str(), "image") {
                        let (image, next) = Image::new(events, pos + 1, attributes)?;
                        layer.image = Some(image);
                        pos = next;
                    } else if str_eq(name.as_str(), "properties") {
                        let (properties, next) = parse_properties(events, pos + 1)?;
                        layer.properties = properties;
                        pos = next;
                    } else {
                        pos += 1;
                    }
                },
            }
        }
    }
}

} // verus!
