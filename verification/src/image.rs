//! Source images of tilesets and image layers.

use vstd::prelude::*;
use crate::attrs::{attr_i32, attr_value, find_attr, get_i32};
use crate::colour::Colour;
use crate::error::{placed, ErrorView, TiledError};
use crate::events::{close_of, skip_to_close, views, Attribute, AttributeView, EventView, XmlEvent};

verus! {

/// An image file and its size in pixels.
#[derive(Debug, PartialEq, Eq, Clone)]
pub struct Image {
    /// Where the image is, as the document says it.
    pub source: String,
    pub width: i32,
    pub height: i32,
    /// The colour that stands for transparency, if one is given and well written.
    pub transparent_colour: Option<Colour>,
}

/// An image as ghost data.
pub struct ImageView {
    pub source: Seq<char>,
    pub width: i32,
    pub height: i32,
    pub transparent_colour: Option<Colour>,
}

impl View for Image {
    type V = ImageView;

    open spec fn view(&self) -> ImageView {
        ImageView {
            source: self.source@,
            width: self.width,
            height: self.height,
            transparent_colour: self.transparent_colour,
        }
    }
}

/// An optional colour attribute: absent where it is missing or ill written.
pub open spec fn attr_colour(attrs: Seq<AttributeView>, name: Seq<char>) -> Option<Colour> {
    match attr_value(attrs, name) {
        Some(text) => match Colour::parse_spec(text) {
            Ok(c) => Some(c),
            Err(_) => None,
        },
        None => None,
    }
}

/// Reads an optional colour attribute.
pub fn get_colour(attrs: &Vec<Attribute>, name: &str) -> (r: Option<Colour>)
    ensures
        r == attr_colour(views(attrs@), name@),
{
    match find_attr(attrs, name) {
        Some(text) => match Colour::from_str(text.as_str()) {
            Ok(c) => Some(c),
            Err(_) => None,
        },
        None => None,
    }
}

/// The error for an `image` element without its required attributes.
pub open spec fn malformed_image() -> ErrorView {
    ErrorView::MalformedAttributes(
        "image must have a source, width and height with correct types"@,
    )
}

impl Image {
    /// The image that the attributes of an `image` element describe:
    /// `source`, `width` and `height` are required, `trans` is optional.
    pub open spec fn from_attributes(attrs: Seq<AttributeView>) -> Result<ImageView, ErrorView> {
        match (attr_value(attrs, "source"@), attr_i32(attrs, "width"@), attr_i32(attrs, "height"@)) {
            (Some(source), Some(width), Some(height)) => Ok(
                ImageView { source, width, height, transparent_colour: attr_colour(attrs, "trans"@) },
            ),
            _ => Err(malformed_image()),
        }
    }

    /// The image of an `image` element whose start tag is followed by the
    /// event at `pos`, and the position after its end tag.
    #[verifier::opaque]
    pub open spec fn element(events: Seq<EventView>, pos: int, attrs: Seq<AttributeView>) -> Result<
        (ImageView, int),
        ErrorView,
    > {
        match Image::from_attributes(attrs) {
            Err(e) => Err(e),
            Ok(image) => match close_of(events, pos, "image"@) {
                Err(e) => Err(e),
                Ok(next) => Ok((image, next)),
            },
        }
    }

    /// Builds an image from its element.
    pub fn new(events: &Vec<XmlEvent>, pos: usize, attrs: &Vec<Attribute>) -> (r: Result<
        (Image, usize),
        TiledError,
    >)
        ensures
            placed(r) == Image::element(views(events@), pos as int, views(attrs@)),
            r matches Ok((_, next)) ==> pos < next <= events@.len(),
    {
        proof {
            reveal(Image::element);
        }
        let source = find_attr(attrs, "source");
        let width = get_i32(attrs, "width");
        let height = get_i32(attrs, "height");
        let transparent_colour = get_colour(attrs, "trans");
        match (source, width, height) {
            (Some(source), Some(width), Some(height)) => {
                let next = skip_to_close(events, pos, "image")?;
                Ok((Image { source: source.clone(), width, height, transparent_colour }, next))
            },
            _ => Err(
                TiledError::MalformedAttributes(
                    "image must have a source, width and height with correct types".to_owned(),
                ),
            ),
        }
    }
}

} // verus!
