//! The tiles of a tileset that carry data of their own.

use vstd::prelude::*;
use crate::animation::Frame;
use crate::attrs::{attr_text, attr_u32, get_string, get_u32, text_of};
use crate::error::{placed, ErrorView, TiledError};
use crate::events::{
    resume, step, step_at, views, Attribute, AttributeView, EventView, Step, StepView, XmlEvent,
};
use crate::image::{Image, ImageView};
use crate::number::{attr_real_or, get_real_or};
use crate::objects::{ObjectGroup, ObjectGroupView};
use crate::properties::{parse_properties, properties_body, Properties, PropertyValueView};
use crate::text::str_eq;

verus! {

/// The frames collected from `pos` to the end tag of an `animation` element,
/// appended to `acc`, and the position after that end tag.
#[verifier::opaque]
pub open spec fn animation_body(events: Seq<EventView>, pos: int, acc: Seq<Frame>) -> Result<
    (Seq<Frame>, int),
    ErrorView,
>
    decreases events.len() - pos,
{
    match step_at(events, pos, "animation"@) {
        StepView::Fail(e) => Err(e),
        StepView::Close => Ok((acc, pos + 1)),
        StepView::Skip => animation_body(events, pos + 1, acc),
        StepView::Child { name, attributes } => if name == "frame"@ {
            match Frame::from_attributes(attributes) {
                Err(e) => Err(e),
                Ok(frame) => animation_body(events, pos + 1, acc.push(frame)),
            }
        } else {
            animation_body(events, pos + 1, acc)
        },
    }
}

/// Reads the frames of an `animation` element, from the event after its
/// start tag through its end tag.
pub fn parse_animation(events: &Vec<XmlEvent>, start: usize) -> (r: Result<
    (Vec<Frame>, usize),
    TiledError,
>)
    ensures
        placed(r) == animation_body(views(events@), start as int, Seq::<Frame>::empty()),
        r matches Ok((_, next)) ==> start < next <= events@.len(),
{
    let ghost ev = views(events@);
    let mut frames: Vec<Frame> = Vec::new();
    let mut pos: usize = start;
    loop
        invariant
            start <= pos,
            ev == views(events@),
            animation_body(ev, pos as int, frames@) == animation_body(
                ev,
                start as int,
                Seq::<Frame>::empty(),
            ),
        decreases events@.len() - pos,
    {
        proof {
            reveal(animation_body);
        }
        match step(events, pos, "animation") {
            Step::Fail(e) => {
                return Err(e);
            },
            Step::Close => {
                return Ok((frames, pos + 1));
            },
            Step::Skip => {
                pos += 1;
            },
            Step::Child { name, attributes } => {
                if str_eq(name.as_str(), "frame") {
                    let frame = Frame::new(attributes)?;
                    frames.push(frame);
                }
                pos += 1;
            },
        }
    }
}

/// A tile with data beyond its place in the tileset's image.
#[derive(Debug, PartialEq, Clone)]
pub struct Tile {
    /// The tile's id within its tileset.
    pub id: u32,
    pub images: Vec<Image>,
    pub properties: Properties,
    /// The shapes drawn on the tile, such as its collision outline.
    pub objectgroup: Option<ObjectGroup>,
    pub animation: Option<Vec<Frame>>,
    pub tile_type: Option<String>,
    /// How likely the tile is to be picked, as written; 1 by default.
    pub probability: String,
}

/// A tile as ghost data.
pub struct TileView {
    pub id: u32,
    pub images: Seq<ImageView>,
    pub properties: Map<Seq<char>, PropertyValueView>,
    pub objectgroup: Option<ObjectGroupView>,
    pub animation: Option<Seq<Frame>>,
    pub tile_type: Option<Seq<char>>,
    pub probability: Seq<char>,
}

impl View for Tile {
    type V = TileView;

    open spec fn view(&self) -> TileView {
        TileView {
            id: self.id,
            images: views(self.images@),
            properties: self.properties@,
            objectgroup: match self.objectgroup {
                Some(group) => Some(group@),
                None => None,
            },
            animation: match self.animation {
                Some(frames) => Some(frames@),
                None => None,
            },
            tile_type: text_of(self.tile_type),
            probability: self.probability@,
        }
    }
}

/// The error for a `tile` element without an id.
pub open spec fn malformed_tile() -> ErrorView {
    ErrorView::MalformedAttributes("tile must have an id with the correct type"@)
}

impl Tile {
    /// The tile that the attributes of a `tile` element describe, before its
    /// children are read: `id` is required.
    pub open spec fn from_attributes(attrs: Seq<AttributeView>) -> Result<TileView, ErrorView> {
        match attr_u32(attrs, "id"@) {
            Some(id) => Ok(
                TileView {
                    id,
                    images: Seq::empty(),
                    properties: Map::empty(),
                    objectgroup: None,
                    animation: None,
                    tile_type: attr_text(attrs, "type"@),
                    probability: attr_real_or(attrs, "probability"@, "1"@),
                },
            ),
            None => Err(malformed_tile()),
        }
    }

    /// The tile after the children from `pos` to the end tag of its element
    /// have been applied to `acc`, and the position after that end tag: each
    /// `image` is appended; `properties`, `objectgroup` and `animation` each
    /// replace what was set before.
    pub open spec fn body(events: Seq<EventView>, pos: int, acc: TileView) -> Result<
        (TileView, int),
        ErrorView,
    >
        decreases events.len() - pos,
    {
        match step_at(events, pos, "tile"@) {
            StepView::Fail(e) => Err(e),
            StepView::Close => Ok((acc, pos + 1)),
            StepView::Skip => Tile::body(events, pos + 1, acc),
            StepView::Child { name, attributes } => if name == "image"@ {
                match Image::element(events, pos + 1, attributes) {
                    Err(e) => Err(e),
                    Ok((image, next)) => Tile::body(
                        events,
                        resume(events, pos, next),
                        TileView { images: acc.images.push(image), ..acc },
                    ),
                }
            } else if name == "properties"@ {
                match properties_body(events, pos + 1, Map::empty()) {
                    Err(e) => Err(e),
                    Ok((properties, next)) => Tile::body(
                        events,
                        resume(events, pos, next),
                        TileView { properties, ..acc },
                    ),
                }
            } else if name == "objectgroup"@ {
                match ObjectGroup::element(events, pos + 1, attributes, None) {
                    Err(e) => Err(e),
                    Ok((group, next)) => Tile::body(
                        events,
                        resume(events, pos, next),
                        TileView { objectgroup: Some(group), ..acc },
                    ),
                }
            } else if name == "animation"@ {
                match animation_body(events, pos + 1, Seq::empty()) {
                    Err(e) => Err(e),
                    Ok((frames, next)) => Tile::body(
                        events,
                        resume(events, pos, next),
                        TileView { animation: Some(frames), ..acc },
                    ),
                }
            } else {
                Tile::body(events, pos + 1, acc)
            },
        }
    }

    /// The tile of a `tile` element whose start tag is followed by the event
    /// at `pos`, and the position after its end tag.
    #[verifier::opaque]
    pub open spec fn element(events: Seq<EventView>, pos: int, attrs: Seq<AttributeView>) -> Result<
        (TileView, int),
        ErrorView,
    > {
        match Tile::from_attributes(attrs) {
            Err(e) => Err(e),
            Ok(tile) => Tile::body(events, pos, tile),
        }
    }

    /// Builds a tile from its element.
    pub fn new(events: &Vec<XmlEvent>, start: usize, attrs: &Vec<Attribute>) -> (r: Result<
        (Tile, usize),
        TiledError,
    >)
        ensures
            placed(r) == Tile::element(views(events@), start as int, views(attrs@)),
            r matches Ok((_, next)) ==> start < next <= events@.len(),
    {
        proof {
            reveal(Tile::element);
        }
        let id = match get_u32(attrs, "id") {
            Some(id) => id,
            None => {
                return Err(
                    TiledError::MalformedAttributes(
                        "tile must have an id with the correct type".to_owned(),
                    ),
                );
            },
        };
        let mut tile = Tile {
            id,
            images: Vec::new(),
            properties: Properties::new(),
            objectgroup: None,
            animation: None,
            tile_type: get_string(attrs, "type"),
            probability: get_real_or(attrs, "probability", "1"),
        };
        let ghost ev = views(events@);
        let ghost first = tile@;
        assert(first.images =~= Seq::<ImageView>::empty());
        let mut pos: usize = start;
        loop
            invariant
                start <= pos,
                ev == views(events@),
                Tile::from_attributes(views(attrs@)) == Ok::<TileView, ErrorView>(first),
                Tile::body(ev, pos as int, tile@) == Tile::body(ev, start as int, first),
            decreases events@.len() - pos,
        {
            proof {
                reveal(Tile::element);
            }
            match step(events, pos, "tile") {
                Step::Fail(e) => {
                    return Err(e);
                },
                Step::Close => {
                    return Ok((tile, pos + 1));
                },
                Step::Skip => {
                    pos += 1;
                },
                Step::Child { name, attributes } => {
                    if str_eq(name.as_str(), "image") {
                        let (image, next) = Image::new(events, pos + 1, attributes)?;
                        let ghost before = views(tile.images@);
                        tile.images.push(image);
                        assert(views(tile.images@) =~= before.push(image@));
                        pos = next;
                    } else if str_eq(name.as_str(), "properties") {
                        let (properties, next) = parse_properties(events, pos + 1)?;
                        tile.properties = properties;
                        pos = next;
                    } else if str_eq(name.as_str(), "objectgroup") {
                        let (group, next) = ObjectGroup::new(events, pos + 1, attributes, None)?;
                        tile.objectgroup = Some(group);
                        pos = next;
                    } else if str_eq(name.as_str(), "animation") {
                        let (frames, next) = parse_animation(events, pos + 1)?;
                        tile.animation = Some(frames);
                        pos = next;
                    } else {
                        pos += 1;
                    }
                },
            }
        }
    }
}

} // verus!
