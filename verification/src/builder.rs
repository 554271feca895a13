//! The building of a map from the events of its document.
//!
//! A map is built in steps. The builder reads the children of the `map`
//! element until the element ends or until a `tileset` refers to a file. In
//! the second case it rests: whoever drives it asks a loader for the file,
//! adds the tileset, and lets the builder read on.

use vstd::prelude::*;
use crate::attrs::{attr_u32, attr_value, find_attr, get_u32};
use crate::error::{viewed, ErrorView, TiledError};
use crate::events::{
    resume, step, step_at, views, Attribute, AttributeView, EventView, Step, StepView, XmlEvent,
};
use crate::image::{attr_colour, get_colour};
use crate::layers::{ImageLayer, ImageLayerView, Layer, LayerView};
use crate::map::{TileMap, TileMapView};
use crate::objects::{ObjectGroup, ObjectGroupView};
use crate::orientation::Orientation;
use crate::properties::{parse_properties, properties_body, Properties};
use crate::text::str_eq;
use crate::tileset::{answer_view, Declared, DeclaredView, Tileset, TilesetView};

verus! {

/// What one child element of a map comes to.
pub enum Grown {
    /// The child was taken into the map; the next layer gets `layer_index`,
    /// and reading goes on at `next`.
    Added { layer_index: u32, next: usize },
    /// The child refers to a tileset file, which has to be had first.
    /// Reading goes on at `next`.
    External { first_gid: u32, source: String, next: usize },
}

/// The outcome of one child element as ghost data, with the map it leaves.
pub enum GrownView {
    Added { map: TileMapView, layer_index: u32, next: int },
    External { first_gid: u32, source: Seq<char>, next: int },
}

/// How far the building of a map has come.
pub enum Progress {
    /// The end tag of the map was reached.
    Complete(TileMap),
    /// The map so far, waiting for the tileset file `source`. With that
    /// tileset added, reading goes on at `pos`, and the next layer gets
    /// `layer_index`.
    Waiting { map: TileMap, layer_index: u32, pos: usize, first_gid: u32, source: String },
}

/// The state of a builder as ghost data.
pub enum ProgressView {
    Complete(TileMapView),
    Waiting { map: TileMapView, layer_index: u32, pos: int, first_gid: u32, source: Seq<char> },
}

impl View for Progress {
    type V = ProgressView;

    open spec fn view(&self) -> ProgressView {
        match self {
            Progress::Complete(map) => ProgressView::Complete(map@),
            Progress::Waiting { map, layer_index, pos, first_gid, source } => ProgressView::Waiting {
                map: map@,
                layer_index: *layer_index,
                pos: *pos as int,
                first_gid: *first_gid,
                source: source@,
            },
        }
    }
}

/// The error for a `map` element without its required attributes.
pub open spec fn malformed_map() -> ErrorView {
    ErrorView::MalformedAttributes("map must have a version, width and height with correct types"@)
}

/// The error for a map of no width or height, or with tiles of none.
pub open spec fn empty_map() -> ErrorView {
    ErrorView::MalformedAttributes("map must have a width, height and tile size above zero"@)
}

/// The error for a map with more layers than can be numbered.
pub open spec fn too_many_layers() -> ErrorView {
    ErrorView::Other("A map cannot hold more layers"@)
}

/// The error for a reference to a tileset file where no file can be had.
pub open spec fn no_location() -> ErrorView {
    ErrorView::Other(
        "Maps with external tilesets must know their file location.  See parse_with_path(Path)."@,
    )
}

/// The message for a document without a `map` element.
pub open spec fn no_map() -> Seq<char> {
    "Document ended before map was parsed"@
}

/// The orientation that an attribute names, if it is there and names one.
pub open spec fn attr_orientation(attrs: Seq<AttributeView>, name: Seq<char>) -> Option<
    Orientation,
> {
    match attr_value(attrs, name) {
        Some(text) => match Orientation::parse_spec(text) {
            Ok(o) => Some(o),
            Err(_) => None,
        },
        None => None,
    }
}

/// Whether the attribute `infinite` is there and is `1`.
pub open spec fn attr_infinite(attrs: Seq<AttributeView>) -> bool {
    attr_value(attrs, "infinite"@) == Some("1"@)
}

/// The tileset file that a builder in the state `state` waits for, if it
/// waits for one.
pub open spec fn wanted(state: Result<ProgressView, ErrorView>) -> Option<Seq<char>> {
    match state {
        Ok(ProgressView::Waiting { source, .. }) => Some(source),
        _ => None,
    }
}

/// What a loader answered, one after the other, as ghost data.
pub open spec fn answer_views(answers: Seq<Result<Vec<u8>, TiledError>>) -> Seq<
    Result<Seq<u8>, ErrorView>,
> {
    answers.map_values(|answer: Result<Vec<u8>, TiledError>| answer_view(answer))
}

/// What a loader is known to have given: whether it gave `answer` when it
/// was asked for the tileset file that a map calls `source`.
pub type Given = spec_fn(Seq<char>, Result<Vec<u8>, TiledError>) -> bool;

/// A loader that is asked for a file by the name the map gives it.
pub open spec fn by_source<F: FnMut(&str) -> Result<Vec<u8>, TiledError>>(loader: F) -> Given {
    |source: Seq<char>, answer: Result<Vec<u8>, TiledError>|
        exists|name: &str| name@ == source && #[trigger] call_ensures(loader, (name,), answer)
}

/// A loader that is asked for a file by two values: the place of the map,
/// which is `location`, and the name the map gives the file.
pub open spec fn beside<F: FnMut(&str, &str) -> Result<Vec<u8>, TiledError>>(
    loader: F,
    location: Seq<char>,
) -> Given {
    |source: Seq<char>, answer: Result<Vec<u8>, TiledError>|
        exists|place: &str, name: &str|
            place@ == location && name@ == source && #[trigger] call_ensures(
                loader,
                (place, name),
                answer,
            )
}

/// Whether the answer at `index` came as it should: the builder, after the
/// answers before it, waited for a tileset file, and the loader gave this
/// answer when it was asked for that file.
pub open spec fn asked_at(
    events: Seq<EventView>,
    state: Result<ProgressView, ErrorView>,
    given: Given,
    answers: Seq<Result<Vec<u8>, TiledError>>,
    index: int,
) -> bool {
    let before = TileMap::replay(events, state, answer_views(answers).take(index));
    wanted(before) is Some && given(wanted(before)->0, answers[index])
}

/// Whether `answers` are what the loader gave to a builder that began in
/// the state `state`, request by request: each answer came when the builder
/// waited for a tileset file, the loader gave it for that file, and after
/// the last one the builder waits for nothing.
pub open spec fn asked_in_turn(
    events: Seq<EventView>,
    state: Result<ProgressView, ErrorView>,
    given: Given,
    answers: Seq<Result<Vec<u8>, TiledError>>,
) -> bool {
    &&& wanted(TileMap::replay(events, state, answer_views(answers))) is None
    &&& forall|i: int| 0 <= i < answers.len() ==> #[trigger] asked_at(events, state, given, answers, i)
}

impl TileMap {
    /// The map that the attributes of a `map` element describe, before its
    /// children are read: `version`, `orientation`, `width`, `height`,
    /// `tilewidth` and `tileheight` are required, and the last four must be
    /// above zero; `backgroundcolor` and `infinite` are optional.
    pub open spec fn from_attributes(attrs: Seq<AttributeView>) -> Result<TileMapView, ErrorView> {
        match (
            attr_value(attrs, "version"@),
            attr_orientation(attrs, "orientation"@),
            attr_u32(attrs, "width"@),
            attr_u32(attrs, "height"@),
            attr_u32(attrs, "tilewidth"@),
            attr_u32(attrs, "tileheight"@),
        ) {
            (
                Some(version),
                Some(orientation),
                Some(width),
                Some(height),
                Some(tile_width),
                Some(tile_height),
            ) => if width == 0 || height == 0 || tile_width == 0 || tile_height == 0 {
                Err(empty_map())
            } else {
                Ok(
                    TileMapView {
                        version,
                        orientation,
                        width,
                        height,
                        tile_width,
                        tile_height,
                        tilesets: Seq::empty(),
                        layers: Seq::empty(),
                        image_layers: Seq::empty(),
                        object_groups: Seq::empty(),
                        properties: Map::empty(),
                        background_colour: attr_colour(attrs, "backgroundcolor"@),
                        infinite: attr_infinite(attrs),
                    },
                )
            },
            _ => Err(malformed_map()),
        }
    }

    /// What the child element whose start tag is the event at `pos` comes to,
    /// for the map `acc` whose next layer gets `layer_index`.
    ///
    /// A `tileset` written out is appended; one that refers to a file is
    /// reported, and the map is left as it is. A `layer`, an `imagelayer` or
    /// an `objectgroup` is appended to its list with the index `layer_index`,
    /// and the next layer gets the index after it. `properties` replaces the
    /// map's properties. Any other element is passed over.
    pub open spec fn child(
        events: Seq<EventView>,
        pos: int,
        name: Seq<char>,
        attributes: Seq<AttributeView>,
        acc: TileMapView,
        layer_index: u32,
    ) -> Result<GrownView, ErrorView> {
        if name == "tileset"@ {
            match Tileset::declared(attributes) {
                Err(e) => Err(e),
                Ok(DeclaredView::External { first_gid, source }) => Ok(
                    GrownView::External { first_gid, source, next: pos + 1 },
                ),
                Ok(DeclaredView::Inline(head)) => match Tileset::body(events, pos + 1, head) {
                    Err(e) => Err(e),
                    Ok((tileset, next)) => Ok(
                        GrownView::Added { map: acc.with_tileset(tileset), layer_index, next },
                    ),
                },
            }
        } else if name == "layer"@ {
            if layer_index == u32::MAX {
                Err(too_many_layers())
            } else {
                match Layer::element(
                    events,
                    pos + 1,
                    attributes,
                    acc.width,
                    layer_index,
                    acc.infinite,
                ) {
                    Err(e) => Err(e),
                    Ok((layer, next)) => Ok(
                        GrownView::Added {
                            map: TileMapView {
                                layers: acc.layers.push(LayerView { layer_index, ..layer }),
                                ..acc
                            },
                            layer_index: (layer_index + 1) as u32,
                            next,
                        },
                    ),
                }
            }
        } else if name == "imagelayer"@ {
            if layer_index == u32::MAX {
                Err(too_many_layers())
            } else {
                match ImageLayer::element(events, pos + 1, attributes, layer_index) {
                    Err(e) => Err(e),
                    Ok((layer, next)) => Ok(
                        GrownView::Added {
                            map: TileMapView {
                                image_layers: acc.image_layers.push(
                                    ImageLayerView { layer_index, ..layer },
                                ),
                                ..acc
                            },
                            layer_index: (layer_index + 1) as u32,
                            next,
                        },
                    ),
                }
            }
        } else if name == "objectgroup"@ {
            if layer_index == u32::MAX {
                Err(too_many_layers())
            } else {
                match ObjectGroup::element(events, pos + 1, attributes, Some(layer_index)) {
                    Err(e) => Err(e),
                    Ok((group, next)) => Ok(
                        GrownView::Added {
                            map: TileMapView {
                                object_groups: acc.object_groups.push(
                                    ObjectGroupView { layer_index: Some(layer_index), ..group },
                                ),
                                ..acc
                            },
                            layer_index: (layer_index + 1) as u32,
                            next,
                        },
                    ),
                }
            }
        } else if name == "properties"@ {
            match properties_body(events, pos + 1, Map::empty()) {
                Err(e) => Err(e),
                Ok((properties, next)) => Ok(
                    GrownView::Added { map: TileMapView { properties, ..acc }, layer_index, next },
                ),
            }
        } else {
            Ok(GrownView::Added { map: acc, layer_index, next: pos + 1 })
        }
    }

    /// How far the map `acc` comes when its children are read from `pos` on:
    /// to the end tag of the `map` element, or to the first reference to a
    /// tileset file.
    #[verifier::opaque]
    pub open spec fn progress(
        events: Seq<EventView>,
        pos: int,
        acc: TileMapView,
        layer_index: u32,
    ) -> Result<ProgressView, ErrorView>
        decreases events.len() - pos,
    {
        match step_at(events, pos, "map"@) {
            StepView::Fail(e) => Err(e),
            StepView::Close => Ok(ProgressView::Complete(acc)),
            StepView::Skip => TileMap::progress(events, pos + 1, acc, layer_index),
            StepView::Child { name, attributes } => match TileMap::child(
                events,
                pos,
                name,
                attributes,
                acc,
                layer_index,
            ) {
                Err(e) => Err(e),
                Ok(GrownView::External { first_gid, source, next }) => Ok(
                    ProgressView::Waiting { map: acc, layer_index, pos: next, first_gid, source },
                ),
                Ok(GrownView::Added { map, layer_index: following, next }) => TileMap::progress(
                    events,
                    resume(events, pos, next),
                    map,
                    following,
                ),
            },
        }
    }

    /// The state that follows `state` when the loader answers `answer`: a
    /// builder that waits for a tileset file fails with the loader's error or
    /// with that of the file, or else takes the tileset and reads on; a
    /// builder that waits for nothing stays as it is.
    pub open spec fn feed(
        events: Seq<EventView>,
        state: Result<ProgressView, ErrorView>,
        answer: Result<Seq<u8>, ErrorView>,
    ) -> Result<ProgressView, ErrorView> {
        match state {
            Ok(ProgressView::Waiting { map, layer_index, pos, first_gid, source }) => match Tileset::loaded(
                answer,
                first_gid,
            ) {
                Err(e) => Err(e),
                Ok(tileset) => TileMap::progress(
                    events,
                    pos,
                    map.with_tileset(tileset),
                    layer_index,
                ),
            },
            _ => state,
        }
    }

    /// The state that follows `state` when the loader answers the builder's
    /// requests with `answers`, in that order.
    #[verifier::opaque]
    pub open spec fn replay(
        events: Seq<EventView>,
        state: Result<ProgressView, ErrorView>,
        answers: Seq<Result<Seq<u8>, ErrorView>>,
    ) -> Result<ProgressView, ErrorView>
        decreases answers.len(),
    {
        if answers.len() == 0 {
            state
        } else {
            TileMap::replay(events, TileMap::feed(events, state, answers[0]), answers.skip(1))
        }
    }

    /// What a builder that gets no further answer ends with: its map, its
    /// error, or, where it still waits for a tileset file, the error of a
    /// map that does not know where its files are.
    pub open spec fn finish(state: Result<ProgressView, ErrorView>) -> Result<
        TileMapView,
        ErrorView,
    > {
        match state {
            Err(e) => Err(e),
            Ok(ProgressView::Complete(map)) => Ok(map),
            Ok(ProgressView::Waiting { .. }) => Err(no_location()),
        }
    }

    /// The map that a builder in the state `state` ends with, when the
    /// loader answers its requests for tileset files with `answers`, in that
    /// order, and has no more to give.
    pub open spec fn settle(
        events: Seq<EventView>,
        state: Result<ProgressView, ErrorView>,
        answers: Seq<Result<Seq<u8>, ErrorView>>,
    ) -> Result<TileMapView, ErrorView> {
        TileMap::finish(TileMap::replay(events, state, answers))
    }

    /// The state in which the building of a `map` element first comes to
    /// rest, where the element's start tag, with the attributes `attrs`, is
    /// followed by the event at `pos`.
    pub open spec fn first_state(
        events: Seq<EventView>,
        pos: int,
        attrs: Seq<AttributeView>,
    ) -> Result<ProgressView, ErrorView> {
        match TileMap::from_attributes(attrs) {
            Err(e) => Err(e),
            Ok(head) => TileMap::progress(events, pos, head, 0),
        }
    }

    /// The map of a `map` element whose start tag, with the attributes
    /// `attrs`, is followed by the event at `pos`.
    pub open spec fn element(
        events: Seq<EventView>,
        pos: int,
        attrs: Seq<AttributeView>,
        answers: Seq<Result<Seq<u8>, ErrorView>>,
    ) -> Result<TileMapView, ErrorView> {
        TileMap::settle(events, TileMap::first_state(events, pos, attrs), answers)
    }

    /// The state in which the reading of a document first comes to rest: that
    /// of its first `map` element.
    pub open spec fn opening(events: Seq<EventView>) -> Result<ProgressView, ErrorView> {
        match crate::events::root_of(events, 0, "map"@, no_map()) {
            Err(e) => Err(e),
            Ok((attrs, pos)) => TileMap::first_state(events, pos, attrs),
        }
    }

    /// What the attributes of a document's first `map` element say.
    pub open spec fn head_of(events: Seq<EventView>) -> Result<TileMapView, ErrorView> {
        match crate::events::root_of(events, 0, "map"@, no_map()) {
            Err(e) => Err(e),
            Ok((attrs, _)) => TileMap::from_attributes(attrs),
        }
    }

    /// The map that a document holds: its first `map` element.
    pub open spec fn document(
        events: Seq<EventView>,
        answers: Seq<Result<Seq<u8>, ErrorView>>,
    ) -> Result<TileMapView, ErrorView> {
        TileMap::settle(events, TileMap::opening(events), answers)
    }

    /// Whether the reading of a document comes to a reference to a tileset
    /// file: the document has a `map` element with its required attributes,
    /// and the children of that element are read without error up to a
    /// `tileset` that is not written out.
    pub open spec fn refers_to_file(events: Seq<EventView>) -> bool {
        wanted(TileMap::opening(events)) is Some
    }

    /// The attributes that a `map` element must have.
    pub open spec fn required() -> Seq<Seq<char>> {
        seq!["version"@, "orientation"@, "width"@, "height"@, "tilewidth"@, "tileheight"@]
    }

    /// Reads the attributes of a `map` element.
    pub fn head(attrs: &Vec<Attribute>) -> (r: Result<TileMap, TiledError>)
        ensures
            viewed(r) == TileMap::from_attributes(views(attrs@)),
            r matches Ok(map) ==> map@.positive(),
    {
        let version = find_attr(attrs, "version");
        let orientation = match find_attr(attrs, "orientation") {
            Some(text) => match Orientation::from_str(text.as_str()) {
                Ok(o) => Some(o),
                Err(_) => None,
            },
            None => None,
        };
        let width = get_u32(attrs, "width");
        let height = get_u32(attrs, "height");
        let tile_width = get_u32(attrs, "tilewidth");
        let tile_height = get_u32(attrs, "tileheight");
        let infinite = match find_attr(attrs, "infinite") {
            Some(text) => str_eq(text.as_str(), "1"),
            None => false,
        };
        match (version, orientation, width, height, tile_width, tile_height) {
            (
                Some(version),
                Some(orientation),
                Some(width),
                Some(height),
                Some(tile_width),
                Some(tile_height),
            ) => {
                if width == 0 || height == 0 || tile_width == 0 || tile_height == 0 {
                    return Err(
                        TiledError::MalformedAttributes(
                            "map must have a width, height and tile size above zero".to_owned(),
                        ),
                    );
                }
                let map = TileMap {
                    version: version.clone(),
                    orientation,
                    width,
                    height,
                    tile_width,
                    tile_height,
                    tilesets: Vec::new(),
                    layers: Vec::new(),
                    image_layers: Vec::new(),
                    object_groups: Vec::new(),
                    properties: Properties::new(),
                    background_colour: get_colour(attrs, "backgroundcolor"),
                    infinite,
                };
                assert(map@.tilesets =~= Seq::<TilesetView>::empty());
                assert(map@.layers =~= Seq::<LayerView>::empty());
                assert(map@.image_layers =~= Seq::<ImageLayerView>::empty());
                assert(map@.object_groups =~= Seq::<ObjectGroupView>::empty());
                Ok(map)
            },
            _ => Err(
                TiledError::MalformedAttributes(
                    "map must have a version, width and height with correct types".to_owned(),
                ),
            ),
        }
    }

    /// Adds a tileset to the map.
    pub fn push_tileset(&mut self, tileset: Tileset)
        ensures
            final(self)@ == old(self)@.with_tileset(tileset@),
    {
        let ghost before = views(self.tilesets@);
        self.tilesets.push(tileset);
        assert(views(self.tilesets@) =~= before.push(tileset@));
    }

    /// Takes into the map the child element whose start tag is the event at `pos`.
    pub(crate) fn add_child(
        &mut self,
        events: &Vec<XmlEvent>,
        pos: usize,
        name: &str,
        attributes: &Vec<Attribute>,
        layer_index: u32,
    ) -> (r: Result<Grown, TiledError>)
        requires
            pos < events@.len() <= usize::MAX,
        ensures
            match r {
                Ok(Grown::Added { layer_index: following, next }) => TileMap::child(
                    views(events@),
                    pos as int,
                    name@,
                    views(attributes@),
                    old(self)@,
                    layer_index,
                ) == Ok::<GrownView, ErrorView>(
                    GrownView::Added { map: final(self)@, layer_index: following, next: next as int },
                ) && pos < next <= events@.len(),
                Ok(Grown::External { first_gid, source, next }) => TileMap::child(
                    views(events@),
                    pos as int,
                    name@,
                    views(attributes@),
                    old(self)@,
                    layer_index,
                ) == Ok::<GrownView, ErrorView>(
                    GrownView::External { first_gid, source: source@, next: next as int },
                ) && next == pos + 1 && final(self)@ == old(self)@,
                Err(e) => TileMap::child(
                    views(events@),
                    pos as int,
                    name@,
                    views(attributes@),
                    old(self)@,
                    layer_index,
                ) == Err::<GrownView, ErrorView>(e@),
            },
    {
        if str_eq(name, "tileset") {
            match Tileset::declare(attributes)? {
                Declared::External { first_gid, source } => Ok(
                    Grown::External { first_gid, source, next: pos + 1 },
                ),
                Declared::Inline(head) => {
                    let (tileset, next) = Tileset::fill(events, pos + 1, head)?;
                    self.push_tileset(tileset);
                    Ok(Grown::Added { layer_index, next })
                },
            }
        } else if str_eq(name, "layer") {
            if layer_index == u32::MAX {
                return Err(TiledError::Other("A map cannot hold more layers".to_owned()));
            }
            let (layer, next) = Layer::new(
                events,
                pos + 1,
                attributes,
                self.width,
                layer_index,
                self.infinite,
            )?;
            let mut layer = layer;
            layer.layer_index = layer_index;
            let ghost before = views(self.layers@);
            self.layers.push(layer);
            assert(views(self.layers@) =~= before.push(layer@));
            Ok(Grown::Added { layer_index: layer_index + 1, next })
        } else if str_eq(name, "imagelayer") {
            if layer_index == u32::MAX {
                return Err(TiledError::Other("A map cannot hold more layers".to_owned()));
            }
            let (layer, next) = ImageLayer::new(events, pos + 1, attributes, layer_index)?;
            let mut layer = layer;
            layer.layer_index = layer_index;
            let ghost before = views(self.image_layers@);
            self.image_layers.push(layer);
            assert(views(self.image_layers@) =~= before.push(layer@));
            Ok(Grown::Added { layer_index: layer_index + 1, next })
        } else if str_eq(name, "objectgroup") {
            if layer_index == u32::MAX {
                return Err(TiledError::Other("A map cannot hold more layers".to_owned()));
            }
            let (group, next) = ObjectGroup::new(events, pos + 1, attributes, Some(layer_index))?;
            let mut group = group;
            group.layer_index = Some(layer_index);
            let ghost before = views(self.object_groups@);
            self.object_groups.push(group);
            assert(views(self.object_groups@) =~= before.push(group@));
            Ok(Grown::Added { layer_index: layer_index + 1, next })
        } else if str_eq(name, "properties") {
            let (properties, next) = parse_properties(events, pos + 1)?;
            self.properties = properties;
            Ok(Grown::Added { layer_index, next })
        } else {
            Ok(Grown::Added { layer_index, next: pos + 1 })
        }
    }

    /// Reads the children of a `map` element into `head`, from `start` on,
    /// until the map is complete or a tileset file is wanted.
    pub fn advance(events: &Vec<XmlEvent>, start: usize, head: TileMap, layer_index: u32) -> (r:
        Result<Progress, TiledError>)
        ensures
            viewed(r) == TileMap::progress(views(events@), start as int, head@, layer_index),
            r matches Ok(Progress::Waiting { pos, .. }) ==> start < pos <= events@.len(),
    {
        let ghost ev = views(events@);
        let ghost first = head@;
        let mut map = head;
        let mut index: u32 = layer_index;
        let mut pos: usize = start;
        loop
            invariant
                start <= pos,
                ev == views(events@),
                first == head@,
                TileMap::progress(ev, pos as int, map@, index) == TileMap::progress(
                    ev,
                    start as int,
                    first,
                    layer_index,
                ),
            decreases events@.len() - pos,
        {
            proof {
                reveal(TileMap::progress);
            }
            match step(events, pos, "map") {
                Step::Fail(e) => {
                    return Err(e);
                },
                Step::Close => {
                    return Ok(Progress::Complete(map));
                },
                Step::Skip => {
                    pos += 1;
                },
                Step::Child { name, attributes } => {
                    match map.add_child(events, pos, name.as_str(), attributes, index)? {
                        Grown::External { first_gid, source, next } => {
                            return Ok(
                                Progress::Waiting {
                                    map,
                                    layer_index: index,
                                    pos: next,
                                    first_gid,
                                    source,
                                },
                            );
                        },
                        Grown::Added { layer_index: following, next } => {
                            index = following;
                            pos = next;
                        },
                    }
                },
            }
        }
    }

    /// Gives a builder that waits for a tileset file what the loader answered
    /// for it, and lets it read on: `map`, `layer_index`, `pos` and
    /// `first_gid` are those of the waiting builder.
    pub fn supply(
        events: &Vec<XmlEvent>,
        map: TileMap,
        layer_index: u32,
        pos: usize,
        first_gid: u32,
        answer: Result<Vec<u8>, TiledError>,
    ) -> (r: Result<Progress, TiledError>)
        ensures
            forall|source: Seq<char>|
                viewed(r) == #[trigger] TileMap::feed(
                    views(events@),
                    Ok(
                        ProgressView::Waiting {
                            map: map@,
                            layer_index,
                            pos: pos as int,
                            first_gid,
                            source,
                        },
                    ),
                    answer_view(answer),
                ),
            r matches Ok(Progress::Waiting { pos: at, .. }) ==> pos < at <= events@.len(),
    {
        let tileset = Tileset::from_answer(answer, first_gid)?;
        let mut map = map;
        map.push_tileset(tileset);
        TileMap::advance(events, pos, map, layer_index)
    }

    /// Builds a map from its element where no tileset file can be had: a
    /// reference to one fails the map.
    pub fn new_alone(events: &Vec<XmlEvent>, pos: usize, attrs: &Vec<Attribute>) -> (r: Result<
        TileMap,
        TiledError,
    >)
        ensures
            viewed(r) == TileMap::element(
                views(events@),
                pos as int,
                views(attrs@),
                Seq::<Result<Seq<u8>, ErrorView>>::empty(),
            ),
            r matches Ok(map) ==> map@.built_from(TileMap::from_attributes(views(attrs@))),
    {
        proof {
            reveal(TileMap::replay);
            crate::stack::lemma_element_is_built(
                views(events@),
                pos as int,
                views(attrs@),
                Seq::<Result<Seq<u8>, ErrorView>>::empty(),
            );
        }
        let head = TileMap::head(attrs)?;
        match TileMap::advance(events, pos, head, 0)? {
            Progress::Complete(map) => Ok(map),
            Progress::Waiting { .. } => Err(
                TiledError::Other(
                    "Maps with external tilesets must know their file location.  See parse_with_path(Path).".to_owned(),
                ),
            ),
        }
    }

    /// Builds a map from its element. Each tileset file that the map refers
    /// to is asked of `loader`, when the reference is met, by the name that
    /// the map gives it. The map is the one that the loader's answers lead to.
    pub fn new<F: FnMut(&str) -> Result<Vec<u8>, TiledError>>(
        events: &Vec<XmlEvent>,
        pos: usize,
        attrs: &Vec<Attribute>,
        loader: F,
    ) -> (r: Result<TileMap, TiledError>)
        requires
            forall|name: &str| call_requires(loader, (name,)),
        ensures
            exists|answers: Seq<Result<Vec<u8>, TiledError>>|
                viewed(r) == TileMap::element(
                    views(events@),
                    pos as int,
                    views(attrs@),
                    answer_views(answers),
                ) && #[trigger] asked_in_turn(
                    views(events@),
                    TileMap::first_state(views(events@), pos as int, views(attrs@)),
                    by_source(loader),
                    answers,
                ),
            r matches Ok(map) ==> map@.built_from(TileMap::from_attributes(views(attrs@))),
    {
        let ghost ev = views(events@);
        let ghost first = TileMap::first_state(ev, pos as int, views(attrs@));
        let ghost given = by_source(loader);
        let ghost mut used = Seq::<Result<Vec<u8>, TiledError>>::empty();
        let mut ask = loader;
        let mut state = match TileMap::head(attrs) {
            Ok(head) => TileMap::advance(events, pos, head, 0),
            Err(e) => Err(e),
        };
        proof {
            lemma_replay_none(ev, first);
        }
        loop
            invariant
                ev == views(events@),
                first == TileMap::first_state(ev, pos as int, views(attrs@)),
                given == by_source(loader),
                ask == loader,
                forall|name: &str| call_requires(ask, (name,)),
                state matches Ok(Progress::Waiting { pos: at, .. }) ==> at <= events@.len(),
                viewed(state) == TileMap::replay(ev, first, answer_views(used)),
                forall|i: int|
                    0 <= i < used.len() ==> #[trigger] asked_at(ev, first, given, used, i),
            decreases
                    match state {
                        Ok(Progress::Waiting { pos: at, .. }) => events@.len() + 1 - at,
                        _ => 0,
                    },
        {
            match state {
                Err(e) => {
                    proof {
                        lemma_driven(ev, pos as int, views(attrs@), given, used);
                    }
                    return Err(e);
                },
                Ok(Progress::Complete(map)) => {
                    proof {
                        lemma_driven(ev, pos as int, views(attrs@), given, used);
                    }
                    return Ok(map);
                },
                Ok(Progress::Waiting { map, layer_index, pos: at, first_gid, source }) => {
                    let answer = ask(source.as_str());
                    proof {
                        assert(given(source@, answer));
                        lemma_asked_push(ev, first, given, used, answer);
                        used = used.push(answer);
                    }
                    state = TileMap::supply(events, map, layer_index, at, first_gid, answer);
                },
            }
        }
    }

    /// Builds a map from its element, for a map whose own place is
    /// `location`. Each tileset file that the map refers to is asked of
    /// `loader`, when the reference is met, by two values: `location`, and
    /// the name that the map gives the file. The map is the one that the
    /// loader's answers lead to.
    pub fn new_beside<F: FnMut(&str, &str) -> Result<Vec<u8>, TiledError>>(
        events: &Vec<XmlEvent>,
        pos: usize,
        attrs: &Vec<Attribute>,
        location: &str,
        loader: F,
    ) -> (r: Result<TileMap, TiledError>)
        requires
            forall|place: &str, name: &str| call_requires(loader, (place, name)),
        ensures
            exists|answers: Seq<Result<Vec<u8>, TiledError>>|
                viewed(r) == TileMap::element(
                    views(events@),
                    pos as int,
                    views(attrs@),
                    answer_views(answers),
                ) && #[trigger] asked_in_turn(
                    views(events@),
                    TileMap::first_state(views(events@), pos as int, views(attrs@)),
                    beside(loader, location@),
                    answers,
                ),
            r matches Ok(map) ==> map@.built_from(TileMap::from_attributes(views(attrs@))),
    {
        let ghost ev = views(events@);
        let ghost first = TileMap::first_state(ev, pos as int, views(attrs@));
        let ghost given = beside(loader, location@);
        let ghost mut used = Seq::<Result<Vec<u8>, TiledError>>::empty();
        let mut ask = loader;
        let mut state = match TileMap::head(attrs) {
            Ok(head) => TileMap::advance(events, pos, head, 0),
            Err(e) => Err(e),
        };
        proof {
            lemma_replay_none(ev, first);
        }
        loop
            invariant
                ev == views(events@),
                first == TileMap::first_state(ev, pos as int, views(attrs@)),
                given == beside(loader, location@),
                ask == loader,
                forall|place: &str, name: &str| call_requires(ask, (place, name)),
                state matches Ok(Progress::Waiting { pos: at, .. }) ==> at <= events@.len(),
                viewed(state) == TileMap::replay(ev, first, answer_views(used)),
                forall|i: int|
                    0 <= i < used.len() ==> #[trigger] asked_at(ev, first, given, used, i),
            decreases
                    match state {
                        Ok(Progress::Waiting { pos: at, .. }) => events@.len() + 1 - at,
                        _ => 0,
                    },
        {
            match state {
                Err(e) => {
                    proof {
                        lemma_driven(ev, pos as int, views(attrs@), given, used);
                    }
                    return Err(e);
                },
                Ok(Progress::Complete(map)) => {
                    proof {
                        lemma_driven(ev, pos as int, views(attrs@), given, used);
                    }
                    return Ok(map);
                },
                Ok(Progress::Waiting { map, layer_index, pos: at, first_gid, source }) => {
                    let answer = ask(location, source.as_str());
                    proof {
                        assert(given(source@, answer));
                        lemma_asked_push(ev, first, given, used, answer);
                        used = used.push(answer);
                    }
                    state = TileMap::supply(events, map, layer_index, at, first_gid, answer);
                },
            }
        }
    }
}

/// Without answers a builder stays in its state.
pub proof fn lemma_replay_none(events: Seq<EventView>, state: Result<ProgressView, ErrorView>)
    ensures
        TileMap::replay(
            events,
            state,
            answer_views(Seq::<Result<Vec<u8>, TiledError>>::empty()),
        ) == state,
{
    reveal(TileMap::replay);
    assert(answer_views(Seq::<Result<Vec<u8>, TiledError>>::empty()) =~= Seq::<
        Result<Seq<u8>, ErrorView>,
    >::empty());
}

/// One more answer, given for the file that the builder waited for, keeps
/// the answers in turn, and is fed to the state that the earlier ones led to.
pub proof fn lemma_asked_push(
    events: Seq<EventView>,
    first: Result<ProgressView, ErrorView>,
    given: Given,
    used: Seq<Result<Vec<u8>, TiledError>>,
    answer: Result<Vec<u8>, TiledError>,
)
    requires
        forall|i: int| 0 <= i < used.len() ==> #[trigger] asked_at(events, first, given, used, i),
        wanted(TileMap::replay(events, first, answer_views(used))) is Some,
        given(wanted(TileMap::replay(events, first, answer_views(used)))->0, answer),
    ensures
        forall|i: int|
            0 <= i < used.len() + 1 ==> #[trigger] asked_at(
                events,
                first,
                given,
                used.push(answer),
                i,
            ),
        TileMap::replay(events, first, answer_views(used.push(answer))) == TileMap::feed(
            events,
            TileMap::replay(events, first, answer_views(used)),
            answer_view(answer),
        ),
{
    let more = used.push(answer);
    assert(answer_views(more) =~= answer_views(used).push(answer_view(answer)));
    lemma_replay_push(events, first, answer_views(used), answer_view(answer));
    assert(answer_views(more).take(used.len() as int) =~= answer_views(used));
    assert forall|i: int| 0 <= i < more.len() implies #[trigger] asked_at(
        events,
        first,
        given,
        more,
        i,
    ) by {
        if i < used.len() {
            assert(answer_views(more).take(i) =~= answer_views(used).take(i));
            assert(more[i] == used[i]);
            assert(asked_at(events, first, given, used, i));
        }
    }
}

/// Where the answers came in turn and the builder waits for nothing more,
/// what it ends with is the map of the element for those answers, and a map
/// that it ends with is built from the element's attributes.
pub proof fn lemma_driven(
    events: Seq<EventView>,
    pos: int,
    attrs: Seq<AttributeView>,
    given: Given,
    used: Seq<Result<Vec<u8>, TiledError>>,
)
    requires
        forall|i: int|
            0 <= i < used.len() ==> #[trigger] asked_at(
                events,
                TileMap::first_state(events, pos, attrs),
                given,
                used,
                i,
            ),
        wanted(
            TileMap::replay(events, TileMap::first_state(events, pos, attrs), answer_views(used)),
        ) is None,
    ensures
        asked_in_turn(events, TileMap::first_state(events, pos, attrs), given, used),
        TileMap::element(events, pos, attrs, answer_views(used)) == TileMap::finish(
            TileMap::replay(events, TileMap::first_state(events, pos, attrs), answer_views(used)),
        ),
        TileMap::element(events, pos, attrs, answer_views(used)) matches Ok(map)
            ==> map.built_from(TileMap::from_attributes(attrs)),
{
    crate::stack::lemma_element_is_built(events, pos, attrs, answer_views(used));
}

/// One more answer at the end is fed to the state that the earlier answers led to.
pub proof fn lemma_replay_push(
    events: Seq<EventView>,
    state: Result<ProgressView, ErrorView>,
    answers: Seq<Result<Seq<u8>, ErrorView>>,
    answer: Result<Seq<u8>, ErrorView>,
)
    ensures
        TileMap::replay(events, state, answers.push(answer)) == TileMap::feed(
            events,
            TileMap::replay(events, state, answers),
            answer,
        ),
    decreases answers.len(),
{
    reveal_with_fuel(TileMap::replay, 2);
    let more = answers.push(answer);
    if answers.len() == 0 {
        assert(more.skip(1) =~= answers);
        assert(more[0] == answer);
    } else {
        assert(more.skip(1) =~= answers.skip(1).push(answer));
        assert(more[0] == answers[0]);
        lemma_replay_push(events, TileMap::feed(events, state, answers[0]), answers.skip(1), answer);
    }
}

/// A document that refers to a tileset file is no map where no file can be
/// had: it fails for want of a location.
pub proof fn lemma_file_needs_location(events: Seq<EventView>)
    ensures
        TileMap::refers_to_file(events) ==> TileMap::document(
            events,
            Seq::<Result<Seq<u8>, ErrorView>>::empty(),
        ) == Err::<TileMapView, ErrorView>(no_location()),
{
    reveal(TileMap::replay);
}

/// A `map` element that lacks one of its required attributes is malformed,
/// whatever other attributes it has.
pub proof fn lemma_map_needs_required(attrs: Seq<AttributeView>, name: Seq<char>)
    requires
        TileMap::required().contains(name),
        attr_value(attrs, name) is None,
    ensures
        TileMap::from_attributes(attrs) == Err::<TileMapView, ErrorView>(malformed_map()),
{
    let required = TileMap::required();
    let i = choose|i: int| 0 <= i < required.len() && required[i] == name;
    assert(required[i] == name);
    if i == 0 {
    } else if i == 1 {
    } else if i == 2 {
    } else if i == 3 {
    } else if i == 4 {
    } else {
    }
}

/// Where a builder waits for no tileset file, answers change nothing.
pub proof fn lemma_replay_at_rest(
    events: Seq<EventView>,
    state: Result<ProgressView, ErrorView>,
    answers: Seq<Result<Seq<u8>, ErrorView>>,
)
    requires
        wanted(state) is None,
    ensures
        TileMap::replay(events, state, answers) == state,
    decreases answers.len(),
{
    reveal(TileMap::replay);
    if answers.len() > 0 {
        lemma_replay_at_rest(events, state, answers.skip(1));
    }
}

/// A document that refers to no tileset file is read the same whatever a
/// loader would answer.
pub proof fn lemma_alone_needs_no_loader(
    events: Seq<EventView>,
    answers: Seq<Result<Seq<u8>, ErrorView>>,
)
    requires
        !TileMap::refers_to_file(events),
    ensures
        TileMap::document(events, answers) == TileMap::document(
            events,
            Seq::<Result<Seq<u8>, ErrorView>>::empty(),
        ),
{
    lemma_replay_at_rest(events, TileMap::opening(events), answers);
    lemma_replay_at_rest(
        events,
        TileMap::opening(events),
        Seq::<Result<Seq<u8>, ErrorView>>::empty(),
    );
}

/// Whether no element of a document is called `tileset`.
pub open spec fn has_no_tileset(events: Seq<EventView>) -> bool {
    forall|i: int|
        0 <= i < events.len() ==> !(#[trigger] events[i] matches EventView::StartElement {
            name,
            ..
        } && name == "tileset"@)
}

/// Without `tileset` elements the builder never waits for a file, and the
/// map gains no tileset.
pub proof fn lemma_progress_without_tilesets(
    events: Seq<EventView>,
    pos: int,
    acc: TileMapView,
    layer_index: u32,
)
    requires
        has_no_tileset(events),
    ensures
        match TileMap::progress(events, pos, acc, layer_index) {
            Ok(ProgressView::Complete(map)) => map.tilesets == acc.tilesets,
            Ok(ProgressView::Waiting { .. }) => false,
            Err(_) => true,
        },
    decreases events.len() - pos,
{
    reveal(TileMap::progress);
    match step_at(events, pos, "map"@) {
        StepView::Skip => {
            lemma_progress_without_tilesets(events, pos + 1, acc, layer_index);
        },
        StepView::Child { name, attributes } => {
            assert(events[pos] is StartElement);
            assert(name != "tileset"@);
            match TileMap::child(events, pos, name, attributes, acc, layer_index) {
                Ok(GrownView::Added { map, layer_index: following, next }) => {
                    lemma_progress_without_tilesets(
                        events,
                        resume(events, pos, next),
                        map,
                        following,
                    );
                },
                _ => {},
            }
        },
        _ => {},
    }
}

/// A document without `tileset` elements gives, where it gives a map at all,
/// a map without tilesets, whatever a loader would answer; and no global
/// tile id has an owner in it.
pub proof fn lemma_map_without_tilesets(
    events: Seq<EventView>,
    answers: Seq<Result<Seq<u8>, ErrorView>>,
    gid: u32,
)
    requires
        has_no_tileset(events),
    ensures
        !TileMap::refers_to_file(events),
        TileMap::document(events, answers) matches Ok(map) ==> map.tilesets.len() == 0
            && TileMap::unowned(map.tilesets, gid),
{
    match crate::events::root_of(events, 0, "map"@, no_map()) {
        Ok((attrs, pos)) => {
            match TileMap::from_attributes(attrs) {
                Ok(head) => {
                    lemma_progress_without_tilesets(events, pos, head, 0);
                },
                Err(_) => {},
            }
        },
        Err(_) => {},
    }
    lemma_replay_at_rest(events, TileMap::opening(events), answers);
}

} // verus!
