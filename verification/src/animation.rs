//! Animation frames of a tile.

use vstd::prelude::*;
use crate::attrs::{attr_u32, get_u32};
use crate::error::{plain, ErrorView, TiledError};
use crate::events::{views, Attribute, AttributeView};
use crate::text::{lemma_decimal_parses, decimal};

verus! {

/// One keyframe of a tile's animation: the tile to show, by its id within the
/// tileset, and for how many milliseconds.
#[derive(Debug, PartialEq, Eq, Clone, Copy, Structural)]
pub struct Frame {
    pub tile_id: u32,
    pub duration: u32,
}

impl Frame {
    /// The frame that a `frame` element's attributes describe: `tileid` and
    /// `duration` are both required and both unsigned integers.
    pub open spec fn from_attributes(attrs: Seq<AttributeView>) -> Result<Frame, ErrorView> {
        match (attr_u32(attrs, "tileid"@), attr_u32(attrs, "duration"@)) {
            (Some(tile_id), Some(duration)) => Ok(Frame { tile_id, duration }),
            _ => Err(ErrorView::MalformedAttributes("A frame must have tileid and duration"@)),
        }
    }

    /// The attributes that write this frame down.
    pub open spec fn attributes(self) -> Seq<AttributeView> {
        seq![
            AttributeView { name: "tileid"@, value: decimal(self.tile_id as nat) },
            AttributeView { name: "duration"@, value: decimal(self.duration as nat) },
        ]
    }

    /// Builds a frame from the attributes of its element.
    pub fn new(attrs: &Vec<Attribute>) -> (r: Result<Frame, TiledError>)
        ensures
            plain(r) == Frame::from_attributes(views(attrs@)),
    {
        let tile_id = get_u32(attrs, "tileid");
        let duration = get_u32(attrs, "duration");
        match (tile_id, duration) {
            (Some(tile_id), Some(duration)) => Ok(Frame { tile_id, duration }),
            _ => Err(
                TiledError::MalformedAttributes("A frame must have tileid and duration".to_owned()),
            ),
        }
    }
}

/// Writing a frame as attributes and reading them back gives the same frame.
pub proof fn lemma_frame_round_trip(frame: Frame)
    ensures
        Frame::from_attributes(frame.attributes()) == Ok::<Frame, ErrorView>(frame),
{
    reveal_strlit("tileid");
    reveal_strlit("duration");
    let attrs = frame.attributes();
    lemma_decimal_parses(frame.tile_id as nat);
    lemma_decimal_parses(frame.duration as nat);
    assert("tileid"@ != "duration"@) by {
        assert("tileid"@.len() == 6);
        assert("duration"@.len() == 8);
    }
    assert(attrs.last().name == "duration"@);
    assert(attrs.drop_last().last().name == "tileid"@);
    reveal_with_fuel(crate::attrs::attr_value, 3);
}

/// A frame without `tileid` or without `duration` is malformed, whatever
/// else its element carries.
pub proof fn lemma_frame_needs_both(attrs: Seq<AttributeView>)
    requires
        crate::attrs::attr_value(attrs, "tileid"@) is None || crate::attrs::attr_value(
            attrs,
            "duration"@,
        ) is None,
    ensures
        Frame::from_attributes(attrs) == Err::<Frame, ErrorView>(
            ErrorView::MalformedAttributes("A frame must have tileid and duration"@),
        ),
{
}

} // verus!
