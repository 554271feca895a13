//! Tilesets: a range of global tile ids and the images that the tiles are cut from.

use vstd::prelude::*;
use crate::attrs::{attr_u32, attr_u32_or, attr_value, find_attr, get_u32, get_u32_or};
use crate::error::{placed, viewed, ErrorView, TiledError};
use crate::events::{
    find_root, read_events, resume, root_of, step, step_at, views, xml_events,
    Attribute, AttributeView, EventView, Step, StepView, XmlEvent,
};
use crate::image::{Image, ImageView};
use crate::properties::{parse_properties, properties_body, Properties, PropertyValueView};
use crate::text::str_eq;
use crate::tile::{Tile, TileView};

verus! {

/// A tileset. It supplies the global tile ids from `first_gid` upward.
#[derive(Debug, PartialEq, Clone)]
pub struct Tileset {
    /// The global id of the tileset's first tile.
    pub first_gid: u32,
    pub name: String,
    pub tile_width: u32,
    pub tile_height: u32,
    /// The gap between neighbouring tiles in the image, in pixels.
    pub spacing: u32,
    /// The border around the tiles in the image, in pixels.
    pub margin: u32,
    pub tilecount: Option<u32>,
    pub images: Vec<Image>,
    pub tiles: Vec<Tile>,
    pub properties: Properties,
}

/// A tileset as ghost data.
pub struct TilesetView {
    pub first_gid: u32,
    pub name: Seq<char>,
    pub tile_width: u32,
    pub tile_height: u32,
    pub spacing: u32,
    pub margin: u32,
    pub tilecount: Option<u32>,
    pub images: Seq<ImageView>,
    pub tiles: Seq<TileView>,
    pub properties: Map<Seq<char>, PropertyValueView>,
}

impl View for Tileset {
    type V = TilesetView;

    open spec fn view(&self) -> TilesetView {
        TilesetView {
            first_gid: self.first_gid,
            name: self.name@,
            tile_width: self.tile_width,
            tile_height: self.tile_height,
            spacing: self.spacing,
            margin: self.margin,
            tilecount: self.tilecount,
            images: views(self.images@),
            tiles: views(self.tiles@),
            properties: self.properties@,
        }
    }
}

/// What a `tileset` element inside a map declares.
pub enum Declared {
    /// The tileset is written out in the map.
    Inline(Tileset),
    /// The tileset is in a file of its own; the map gives its first global id.
    External { first_gid: u32, source: String },
}

/// A declaration as ghost data.
pub enum DeclaredView {
    Inline(TilesetView),
    External { first_gid: u32, source: Seq<char> },
}

impl View for Declared {
    type V = DeclaredView;

    open spec fn view(&self) -> DeclaredView {
        match self {
            Declared::Inline(tileset) => DeclaredView::Inline(tileset@),
            Declared::External { first_gid, source } => DeclaredView::External {
                first_gid: *first_gid,
                source: source@,
            },
        }
    }
}

/// The error for a `tileset` element in a map that is neither written out
/// nor a reference.
pub open spec fn malformed_tileset() -> ErrorView {
    ErrorView::MalformedAttributes(
        "tileset must have a firstgid, and a source or a name, tile width and height with correct types"@,
    )
}

/// The error for the root of a tileset file without its required attributes.
pub open spec fn malformed_tileset_file() -> ErrorView {
    ErrorView::MalformedAttributes(
        "tileset must have a name, tile width and height with correct types"@,
    )
}

/// The message for a tileset file without a `tileset` element.
pub open spec fn no_tileset() -> Seq<char> {
    "Tileset Document ended before map was parsed"@
}

impl Tileset {
    /// The tileset that the attributes of a `tileset` element describe once
    /// its first global id is known, before its children are read: `name`,
    /// `tilewidth` and `tileheight` are required; `spacing` and `margin` are
    /// 0 unless given.
    pub open spec fn from_attributes(attrs: Seq<AttributeView>, first_gid: u32) -> Option<
        TilesetView,
    > {
        match (attr_value(attrs, "name"@), attr_u32(attrs, "tilewidth"@), attr_u32(attrs, "tileheight"@)) {
            (Some(name), Some(tile_width), Some(tile_height)) => Some(
                TilesetView {
                    first_gid,
                    name,
                    tile_width,
                    tile_height,
                    spacing: attr_u32_or(attrs, "spacing"@, 0),
                    margin: attr_u32_or(attrs, "margin"@, 0),
                    tilecount: attr_u32(attrs, "tilecount"@),
                    images: Seq::empty(),
                    tiles: Seq::empty(),
                    properties: Map::empty(),
                },
            ),
            _ => None,
        }
    }

    /// What a `tileset` element of a map declares. `firstgid` is required.
    /// With `name`, `tilewidth` and `tileheight` the tileset is written out
    /// (its children are still to be read); failing that, with `source` it
    /// is a reference to a file.
    pub open spec fn declared(attrs: Seq<AttributeView>) -> Result<DeclaredView, ErrorView> {
        match attr_u32(attrs, "firstgid"@) {
            None => Err(malformed_tileset()),
            Some(first_gid) => match Tileset::from_attributes(attrs, first_gid) {
                Some(tileset) => Ok(DeclaredView::Inline(tileset)),
                None => match attr_value(attrs, "source"@) {
                    Some(source) => Ok(DeclaredView::External { first_gid, source }),
                    None => Err(malformed_tileset()),
                },
            },
        }
    }

    /// The tileset `acc` with one child element added, and the position after
    /// that child. The child's start tag is the event at `pos`. An `image` or
    /// a `tile` is appended, `properties` sets the properties, and any other
    /// element is passed over.
    pub open spec fn child(
        events: Seq<EventView>,
        pos: int,
        name: Seq<char>,
        attributes: Seq<AttributeView>,
        acc: TilesetView,
    ) -> Result<(TilesetView, int), ErrorView> {
        if name == "image"@ {
            match Image::element(events, pos + 1, attributes) {
                Err(e) => Err(e),
                Ok((image, next)) => Ok((TilesetView { images: acc.images.push(image), ..acc }, next)),
            }
        } else if name == "properties"@ {
            match properties_body(events, pos + 1, Map::empty()) {
                Err(e) => Err(e),
                Ok((properties, next)) => Ok((TilesetView { properties, ..acc }, next)),
            }
        } else if name == "tile"@ {
            match Tile::element(events, pos + 1, attributes) {
                Err(e) => Err(e),
                Ok((tile, next)) => Ok((TilesetView { tiles: acc.tiles.push(tile), ..acc }, next)),
            }
        } else {
            Ok((acc, pos + 1))
        }
    }

    /// The tileset after the children from `pos` to the end tag of its
    /// element have been added to `acc`, and the position after that end tag.
    #[verifier::opaque]
    pub open spec fn body(events: Seq<EventView>, pos: int, acc: TilesetView) -> Result<
        (TilesetView, int),
        ErrorView,
    >
        decreases events.len() - pos,
    {
        match step_at(events, pos, "tileset"@) {
            StepView::Fail(e) => Err(e),
            StepView::Close => Ok((acc, pos + 1)),
            StepView::Skip => Tileset::body(events, pos + 1, acc),
            StepView::Child { name, attributes } => match Tileset::child(
                events,
                pos,
                name,
                attributes,
                acc,
            ) {
                Err(e) => Err(e),
                Ok((grown, next)) => Tileset::body(events, resume(events, pos, next), grown),
            },
        }
    }

    /// The tileset that a tileset file holds, given the first global id that
    /// the referring map assigns: the first `tileset` element of the document.
    #[verifier::opaque]
    pub open spec fn document(events: Seq<EventView>, first_gid: u32) -> Result<
        TilesetView,
        ErrorView,
    > {
        match root_of(events, 0, "tileset"@, no_tileset()) {
            Err(e) => Err(e),
            Ok((attrs, pos)) => match Tileset::from_attributes(attrs, first_gid) {
                None => Err(malformed_tileset_file()),
                Some(head) => match Tileset::body(events, pos, head) {
                    Err(e) => Err(e),
                    Ok((tileset, _)) => Ok(tileset),
                },
            },
        }
    }

    /// Reads the attributes of a `tileset` element, given its first global id.
    pub fn head(attrs: &Vec<Attribute>, first_gid: u32) -> (r: Option<Tileset>)
        ensures
            match r {
                Some(tileset) => Tileset::from_attributes(views(attrs@), first_gid) == Some(
                    tileset@,
                ),
                None => Tileset::from_attributes(views(attrs@), first_gid) is None,
            },
    {
        let name = find_attr(attrs, "name");
        let tile_width = get_u32(attrs, "tilewidth");
        let tile_height = get_u32(attrs, "tileheight");
        match (name, tile_width, tile_height) {
            (Some(name), Some(tile_width), Some(tile_height)) => {
                let tileset = Tileset {
                    first_gid,
                    name: name.clone(),
                    tile_width,
                    tile_height,
                    spacing: get_u32_or(attrs, "spacing", 0),
                    margin: get_u32_or(attrs, "margin", 0),
                    tilecount: get_u32(attrs, "tilecount"),
                    images: Vec::new(),
                    tiles: Vec::new(),
                    properties: Properties::new(),
                };
                assert(tileset@.images =~= Seq::<ImageView>::empty());
                assert(tileset@.tiles =~= Seq::<TileView>::empty());
                Some(tileset)
            },
            _ => None,
        }
    }

    /// Reads the attributes of a `tileset` element of a map.
    pub fn declare(attrs: &Vec<Attribute>) -> (r: Result<Declared, TiledError>)
        ensures
            viewed(r) == Tileset::declared(views(attrs@)),
    {
        let first_gid = match get_u32(attrs, "firstgid") {
            Some(first_gid) => first_gid,
            None => {
                return Err(
                    TiledError::MalformedAttributes(
                        "tileset must have a firstgid, and a source or a name, tile width and height with correct types".to_owned(),
                    ),
                );
            },
        };
        match Tileset::head(attrs, first_gid) {
            Some(tileset) => Ok(Declared::Inline(tileset)),
            None => match find_attr(attrs, "source") {
                Some(source) => Ok(Declared::External { first_gid, source: source.clone() }),
                None => Err(
                    TiledError::MalformedAttributes(
                        "tileset must have a firstgid, and a source or a name, tile width and height with correct types".to_owned(),
                    ),
                ),
            },
        }
    }

    /// Adds to the tileset the child element whose start tag is the event at `pos`.
    pub(crate) fn add_child(
        &mut self,
        events: &Vec<XmlEvent>,
        pos: usize,
        name: &str,
        attributes: &Vec<Attribute>,
    ) -> (r: Result<usize, TiledError>)
        requires
            pos < events@.len() <= usize::MAX,
        ensures
            match r {
                Ok(next) => Tileset::child(
                    views(events@),
                    pos as int,
                    name@,
                    views(attributes@),
                    old(self)@,
                ) == Ok::<(TilesetView, int), ErrorView>((final(self)@, next as int)) && pos < next
                    <= events@.len(),
                Err(e) => Tileset::child(
                    views(events@),
                    pos as int,
                    name@,
                    views(attributes@),
                    old(self)@,
                ) == Err::<(TilesetView, int), ErrorView>(e@),
            },
    {
        if str_eq(name, "image") {
            let (image, next) = Image::new(events, pos + 1, attributes)?;
            let ghost before = views(self.images@);
            self.images.push(image);
            assert(views(self.images@) =~= before.push(image@));
            Ok(next)
        } else if str_eq(name, "properties") {
            let (properties, next) = parse_properties(events, pos + 1)?;
            self.properties = properties;
            Ok(next)
        } else if str_eq(name, "tile") {
            let (tile, next) = Tile::new(events, pos + 1, attributes)?;
            let ghost before = views(self.tiles@);
            self.tiles.push(tile);
            assert(views(self.tiles@) =~= before.push(tile@));
            Ok(next)
        } else {
            Ok(pos + 1)
        }
    }

    /// Reads the children of a `tileset` element into `head`, from the
    /// event after its start tag through its end tag.
    pub fn fill(events: &Vec<XmlEvent>, start: usize, head: Tileset) -> (r: Result<
        (Tileset, usize),
        TiledError,
    >)
        ensures
            placed(r) == Tileset::body(views(events@), start as int, head@),
            r matches Ok((_, next)) ==> start < next <= events@.len(),
    {
        let ghost ev = views(events@);
        let ghost first = head@;
        let mut tileset = head;
        let mut pos: usize = start;
        loop
            invariant
                start <= pos,
                ev == views(events@),
                first == head@,
                Tileset::body(ev, pos as int, tileset@) == Tileset::body(ev, start as int, first),
            decreases events@.len() - pos,
        {
            proof {
                reveal(Tileset::body);
            }
            match step(events, pos, "tileset") {
                Step::Fail(e) => {
                    return Err(e);
                },
                Step::Close => {
                    return Ok((tileset, pos + 1));
                },
                Step::Skip => {
                    pos += 1;
                },
                Step::Child { name, attributes } => {
                    pos = tileset.add_child(events, pos, name.as_str(), attributes)?;
                },
            }
        }
    }

    /// Builds a tileset from the events of a tileset file.
    pub fn new_external(events: &Vec<XmlEvent>, first_gid: u32) -> (r: Result<Tileset, TiledError>)
        ensures
            viewed(r) == Tileset::document(views(events@), first_gid),
    {
        proof {
            reveal(Tileset::document);
        }
        let (attrs, pos) = find_root(
            events,
            "tileset",
            "Tileset Document ended before map was parsed",
        )?;
        match Tileset::head(attrs, first_gid) {
            None => Err(
                TiledError::MalformedAttributes(
                    "tileset must have a name, tile width and height with correct types".to_owned(),
                ),
            ),
            Some(head) => {
                let (tileset, _) = Tileset::fill(events, pos, head)?;
                Ok(tileset)
            },
        }
    }

    /// The tileset that comes of what a loader answered: its error, or the
    /// tileset that the bytes hold as a tileset file.
    pub open spec fn loaded(answer: Result<Seq<u8>, ErrorView>, first_gid: u32) -> Result<
        TilesetView,
        ErrorView,
    > {
        match answer {
            Err(e) => Err(e),
            Ok(bytes) => Tileset::document(xml_events(bytes), first_gid),
        }
    }

    /// Builds the tileset of an external reference from what the loader
    /// answered for it.
    pub fn from_answer(answer: Result<Vec<u8>, TiledError>, first_gid: u32) -> (r: Result<
        Tileset,
        TiledError,
    >)
        ensures
            viewed(r) == Tileset::loaded(answer_view(answer), first_gid),
    {
        match answer {
            Err(e) => Err(e),
            Ok(bytes) => {
                let events = read_events(bytes.as_slice());
                Tileset::new_external(&events, first_gid)
            },
        }
    }
}

/// What a loader answered, as ghost data.
pub open spec fn answer_view(answer: Result<Vec<u8>, TiledError>) -> Result<Seq<u8>, ErrorView> {
    match answer {
        Ok(bytes) => Ok(bytes@),
        Err(e) => Err(e@),
    }
}

} // verus!
