//! Object groups: freely placed shapes in a map's stack of layers.
//!
//! Positions, sizes and angles are real numbers; they are kept as the text
//! that the document writes them with, once that text is known to write a
//! number.

use vstd::prelude::*;
use crate::attrs::{attr_flag_or, attr_text_or, attr_u32_or, get_flag_or, get_string_or, get_u32_or};
use crate::colour::Colour;
use crate::error::{placed, ErrorView, TiledError};
use crate::events::{
    resume, step, step_at, views, Attribute, AttributeView, EventView, Step, StepView, XmlEvent,
};
use crate::image::{attr_colour, get_colour};
use crate::number::{attr_path, attr_real, attr_real_or, get_path, get_real, get_real_or};
use crate::properties::{parse_properties, properties_body, Properties, PropertyValueView};
use crate::text::str_eq;

verus! {

/// The outline of an object.
#[derive(Debug, PartialEq, Clone)]
pub enum ObjectShape {
    /// A rectangle of the object's width and height.
    Rect,
    /// An ellipse within the object's width and height.
    Ellipse,
    /// An open path; `points` is the list of its corners as written.
    Polyline { points: String },
    /// A closed path; `points` is the list of its corners as written.
    Polygon { points: String },
    /// A single point.
    Point,
}

/// A shape as ghost data.
pub enum ObjectShapeView {
    Rect,
    Ellipse,
    Polyline { points: Seq<char> },
    Polygon { points: Seq<char> },
    Point,
}

impl View for ObjectShape {
    type V = ObjectShapeView;

    open spec fn view(&self) -> ObjectShapeView {
        match self {
            ObjectShape::Rect => ObjectShapeView::Rect,
            ObjectShape::Ellipse => ObjectShapeView::Ellipse,
            ObjectShape::Polyline { points } => ObjectShapeView::Polyline { points: points@ },
            ObjectShape::Polygon { points } => ObjectShapeView::Polygon { points: points@ },
            ObjectShape::Point => ObjectShapeView::Point,
        }
    }
}

/// One object of an object group.
#[derive(Debug, PartialEq, Clone)]
pub struct Object {
    pub id: u32,
    /// The global id of the tile that the object shows, or 0.
    pub gid: u32,
    pub name: String,
    pub obj_type: String,
    pub x: String,
    pub y: String,
    pub width: String,
    pub height: String,
    pub rotation: String,
    pub visible: bool,
    pub shape: ObjectShape,
    pub properties: Properties,
}

/// An object as ghost data.
pub struct ObjectView {
    pub id: u32,
    pub gid: u32,
    pub name: Seq<char>,
    pub obj_type: Seq<char>,
    pub x: Seq<char>,
    pub y: Seq<char>,
    pub width: Seq<char>,
    pub height: Seq<char>,
    pub rotation: Seq<char>,
    pub visible: bool,
    pub shape: ObjectShapeView,
    pub properties: Map<Seq<char>, PropertyValueView>,
}

impl View for Object {
    type V = ObjectView;

    open spec fn view(&self) -> ObjectView {
        ObjectView {
            id: self.id,
            gid: self.gid,
            name: self.name@,
            obj_type: self.obj_type@,
            x: self.x@,
            y: self.y@,
            width: self.width@,
            height: self.height@,
            rotation: self.rotation@,
            visible: self.visible,
            shape: self.shape@,
            properties: self.properties@,
        }
    }
}

/// The error for an `object` element without a position.
pub open spec fn malformed_object() -> ErrorView {
    ErrorView::MalformedAttributes("objects must have an x and a y number"@)
}

/// The error for a path without well written corners.
pub open spec fn malformed_path() -> ErrorView {
    ErrorView::MalformedAttributes("A polyline or polygon must have points"@)
}

impl Object {
    /// The object that the attributes of an `object` element describe, before
    /// its children are read: `x` and `y` are required and must write real
    /// numbers; a rectangle without properties until a child says otherwise.
    pub open spec fn from_attributes(attrs: Seq<AttributeView>) -> Result<ObjectView, ErrorView> {
        match (attr_real(attrs, "x"@), attr_real(attrs, "y"@)) {
            (Some(x), Some(y)) => Ok(
                ObjectView {
                    id: attr_u32_or(attrs, "id"@, 0),
                    gid: attr_u32_or(attrs, "gid"@, 0),
                    name: attr_text_or(attrs, "name"@, ""@),
                    obj_type: attr_text_or(attrs, "type"@, ""@),
                    x,
                    y,
                    width: attr_real_or(attrs, "width"@, "0"@),
                    height: attr_real_or(attrs, "height"@, "0"@),
                    rotation: attr_real_or(attrs, "rotation"@, "0"@),
                    visible: attr_flag_or(attrs, "visible"@, true),
                    shape: ObjectShapeView::Rect,
                    properties: Map::empty(),
                },
            ),
            _ => Err(malformed_object()),
        }
    }

    /// The object after the children from `pos` to the end tag of its element
    /// have been applied to `acc`, and the position after that end tag. The
    /// children `ellipse`, `point`, `polyline` and `polygon` set the shape
    /// (the last two need `points` that write a path), `properties` sets the
    /// properties; a later child replaces an earlier one.
    pub open spec fn body(events: Seq<EventView>, pos: int, acc: ObjectView) -> Result<
        (ObjectView, int),
        ErrorView,
    >
        decreases events.len() - pos,
    {
        match step_at(events, pos, "object"@) {
            StepView::Fail(e) => Err(e),
            StepView::Close => Ok((acc, pos + 1)),
            StepView::Skip => Object::body(events, pos + 1, acc),
            StepView::Child { name, attributes } => if name == "ellipse"@ {
                Object::body(events, pos + 1, ObjectView { shape: ObjectShapeView::Ellipse, ..acc })
            } else if name == "point"@ {
                Object::body(events, pos + 1, ObjectView { shape: ObjectShapeView::Point, ..acc })
            } else if name == "polyline"@ {
                match attr_path(attributes, "points"@) {
                    Some(points) => Object::body(
                        events,
                        pos + 1,
                        ObjectView { shape: ObjectShapeView::Polyline { points }, ..acc },
                    ),
                    None => Err(malformed_path()),
                }
            } else if name == "polygon"@ {
                match attr_path(attributes, "points"@) {
                    Some(points) => Object::body(
                        events,
                        pos + 1,
                        ObjectView { shape: ObjectShapeView::Polygon { points }, ..acc },
                    ),
                    None => Err(malformed_path()),
                }
            } else if name == "properties"@ {
                match properties_body(events, pos + 1, Map::empty()) {
                    Err(e) => Err(e),
                    Ok((properties, next)) => Object::body(
                        events,
                        resume(events, pos, next),
                        ObjectView { properties, ..acc },
                    ),
                }
            } else {
                Object::body(events, pos + 1, acc)
            },
        }
    }

    /// The object of an `object` element whose start tag is followed by the
    /// event at `pos`, and the position after its end tag.
    #[verifier::opaque]
    pub open spec fn element(events: Seq<EventView>, pos: int, attrs: Seq<AttributeView>) -> Result<
        (ObjectView, int),
        ErrorView,
    > {
        match Object::from_attributes(attrs) {
            Err(e) => Err(e),
            Ok(object) => Object::body(events, pos, object),
        }
    }

    /// Builds an object from its element.
    pub fn new(events: &Vec<XmlEvent>, start: usize, attrs: &Vec<Attribute>) -> (r: Result<
        (Object, usize),
        TiledError,
    >)
        ensures
            placed(r) == Object::element(views(events@), start as int, views(attrs@)),
            r matches Ok((_, next)) ==> start < next <= events@.len(),
    {
        proof {
            reveal(Object::element);
        }
        let (x, y) = match (get_real(attrs, "x"), get_real(attrs, "y")) {
            (Some(x), Some(y)) => (x, y),
            _ => {
                return Err(
                    TiledError::MalformedAttributes(
                        "objects must have an x and a y number".to_owned(),
                    ),
                );
            },
        };
        let mut object = Object {
            id: get_u32_or(attrs, "id", 0),
            gid: get_u32_or(attrs, "gid", 0),
            name: get_string_or(attrs, "name", ""),
            obj_type: get_string_or(attrs, "type", ""),
            x,
            y,
            width: get_real_or(attrs, "width", "0"),
            height: get_real_or(attrs, "height", "0"),
            rotation: get_real_or(attrs, "rotation", "0"),
            visible: get_flag_or(attrs, "visible", true),
            shape: ObjectShape::Rect,
            properties: Properties::new(),
        };
        let ghost ev = views(events@);
        let ghost first = object@;
        let mut pos: usize = start;
        loop
            invariant
                start <= pos,
                ev == views(events@),
                Object::from_attributes(views(attrs@)) == Ok::<ObjectView, ErrorView>(first),
                Object::body(ev, pos as int, object@) == Object::body(ev, start as int, first),
            decreases events@.len() - pos,
        {
            proof {
                reveal(Object::element);
            }
            match step(events, pos, "object") {
                Step::Fail(e) => {
                    return Err(e);
                },
                Step::Close => {
                    return Ok((object, pos + 1));
                },
                Step::Skip => {
                    pos += 1;
                },
                Step::Child { name, attributes } => {
                    if str_eq(name.as_str(), "ellipse") {
                        object.shape = ObjectShape::Ellipse;
                        pos += 1;
                    } else if str_eq(name.as_str(), "point") {
                        object.shape = ObjectShape::Point;
                        pos += 1;
                    } else if str_eq(name.as_str(), "polyline") {
                        match get_path(attributes, "points") {
                            Some(points) => {
                                object.shape = ObjectShape::Polyline { points };
                                pos += 1;
                            },
                            None => {
                                return Err(
                                    TiledError::MalformedAttributes(
                                        "A polyline or polygon must have points".to_owned(),
                                    ),
                                );
                            },
                        }
                    } else if str_eq(name.as_str(), "polygon") {
                        match get_path(attributes, "points") {
                            Some(points) => {
                                object.shape = ObjectShape::Polygon { points };
                                pos += 1;
                            },
                            None => {
                                return Err(
                                    TiledError::MalformedAttributes(
                                        "A polyline or polygon must have points".to_owned(),
                                    ),
                                );
                            },
                        }
                    } else if str_eq(name.as_str(), "properties") {
                        let (properties, next) = parse_properties(events, pos + 1)?;
                        object.properties = properties;
                        pos = next;
                    } else {
                        pos += 1;
                    }
                },
            }
        }
    }
}

/// A group of objects. It takes a place in the map's stack of layers when it
/// is a child of the map, and none when it belongs to a tile.
#[derive(Debug, PartialEq, Clone)]
pub struct ObjectGroup {
    pub name: String,
    pub opacity: String,
    pub visible: bool,
    pub objects: Vec<Object>,
    pub colour: Option<Colour>,
    pub layer_index: Option<u32>,
    pub properties: Properties,
}

/// An object group as ghost data.
pub struct ObjectGroupView {
    pub name: Seq<char>,
    pub opacity: Seq<char>,
    pub visible: bool,
    pub objects: Seq<ObjectView>,
    pub colour: Option<Colour>,
    pub layer_index: Option<u32>,
    pub properties: Map<Seq<char>, PropertyValueView>,
}

impl View for ObjectGroup {
    type V = ObjectGroupView;

    open spec fn view(&self) -> ObjectGroupView {
        ObjectGroupView {
            name: self.name@,
            opacity: self.opacity@,
            visible: self.visible,
            objects: views(self.objects@),
            colour: self.colour,
            layer_index: self.layer_index,
            properties: self.properties@,
        }
    }
}

impl ObjectGroup {
    /// The group that the attributes of an `objectgroup` element describe,
    /// before its children are read. No attribute is required.
    pub open spec fn from_attributes(attrs: Seq<AttributeView>, layer_index: Option<u32>) -> ObjectGroupView {
        ObjectGroupView {
            name: attr_text_or(attrs, "name"@, ""@),
            opacity: attr_real_or(attrs, "opacity"@, "1"@),
            visible: attr_flag_or(attrs, "visible"@, true),
            objects: Seq::empty(),
            colour: attr_colour(attrs, "color"@),
            layer_index,
            properties: Map::empty(),
        }
    }

    /// The group after the children from `pos` to the end tag of its element
    /// have been applied to `acc`, and the position after that end tag: each
    /// `object` is appended, `properties` sets the properties.
    pub open spec fn body(events: Seq<EventView>, pos: int, acc: ObjectGroupView) -> Result<
        (ObjectGroupView, int),
        ErrorView,
    >
        decreases events.len() - pos,
    {
        match step_at(events, pos, "objectgroup"@) {
            StepView::Fail(e) => Err(e),
            StepView::Close => Ok((acc, pos + 1)),
            StepView::Skip => ObjectGroup::body(events, pos + 1, acc),
            StepView::Child { name, attributes } => if name == "object"@ {
                match Object::element(events, pos + 1, attributes) {
                    Err(e) => Err(e),
                    Ok((object, next)) => ObjectGroup::body(
                        events,
                        resume(events, pos, next),
                        ObjectGroupView { objects: acc.objects.push(object), ..acc },
                    ),
                }
            } else if name == "properties"@ {
                match properties_body(events, pos + 1, Map::empty()) {
                    Err(e) => Err(e),
                    Ok((properties, next)) => ObjectGroup::body(
                        events,
                        resume(events, pos, next),
                        ObjectGroupView { properties, ..acc },
                    ),
                }
            } else {
                ObjectGroup::body(events, pos + 1, acc)
            },
        }
    }

    /// The group of an `objectgroup` element whose start tag is followed by
    /// the event at `pos`, and the position after its end tag.
    #[verifier::opaque]
    pub open spec fn element(
        events: Seq<EventView>,
        pos: int,
        attrs: Seq<AttributeView>,
        layer_index: Option<u32>,
    ) -> Result<(ObjectGroupView, int), ErrorView> {
        ObjectGroup::body(events, pos, ObjectGroup::from_attributes(attrs, layer_index))
    }

    /// Builds an object group from its element.
    pub fn new(
        events: &Vec<XmlEvent>,
        start: usize,
        attrs: &Vec<Attribute>,
        layer_index: Option<u32>,
    ) -> (r: Result<(ObjectGroup, usize), TiledError>)
        ensures
            placed(r) == ObjectGroup::element(
                views(events@),
                start as int,
                views(attrs@),
                layer_index,
            ),
            r matches Ok((_, next)) ==> start < next <= events@.len(),
    {
        proof {
            reveal(ObjectGroup::element);
        }
        let mut group = ObjectGroup {
            name: get_string_or(attrs, "name", ""),
            opacity: get_real_or(attrs, "opacity", "1"),
            visible: get_flag_or(attrs, "visible", true),
            objects: Vec::new(),
            colour: get_colour(attrs, "color"),
            layer_index,
            properties: Properties::new(),
        };
        let ghost ev = views(events@);
        let ghost first = group@;
        assert(first.objects =~= Seq::<ObjectView>::empty());
        let mut pos: usize = start;
        loop
            invariant
                start <= pos,
                ev == views(events@),
                first == ObjectGroup::from_attributes(views(attrs@), layer_index),
                ObjectGroup::body(ev, pos as int, group@) == ObjectGroup::body(
                    ev,
                    start as int,
                    first,
                ),
            decreases events@.len() - pos,
        {
            proof {
                reveal(ObjectGroup::element);
            }
            match step(events, pos, "objectgroup") {
                Step::Fail(e) => {
                    return Err(e);
                },
                Step::Close => {
                    return Ok((group, pos + 1));
                },
                Step::Skip => {
                    pos += 1;
                },
                Step::Child { name, attributes } => {
                    if str_eq(name.as_str(), "object") {
                        let (object, next) = Object::new(events, pos + 1, attributes)?;
                        let ghost before = views(group.objects@);
                        group.objects.push(object);
                        assert(views(group.objects@) =~= before.push(object@));
                        pos = next;
                    } else if str_eq(name.as_str(), "properties") {
                        let (properties, next) = parse_properties(events, pos + 1)?;
                        group.properties = properties;
                        pos = next;
                    } else {
                        pos += 1;
                    }
                },
            }
        }
    }
}

} // verus!
