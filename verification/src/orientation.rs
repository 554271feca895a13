//! The projection of a map's tile grid.

use vstd::prelude::*;
use crate::error::ParseTileError;
use crate::text::str_eq;

verus! {

/// How the tile grid is projected.
#[derive(Debug, PartialEq, Eq, Copy, Clone, Structural)]
pub enum Orientation {
    Orthogonal,
    Isometric,
    Staggered,
    Hexagonal,
}

impl Orientation {
    /// The token that names the orientation in a document.
    pub open spec fn token(self) -> Seq<char> {
        match self {
            Orientation::Orthogonal => "orthogonal"@,
            Orientation::Isometric => "isometric"@,
            Orientation::Staggered => "staggered"@,
            Orientation::Hexagonal => "hexagonal"@,
        }
    }

    /// The orientation that a text names: one of the four tokens, letter for
    /// letter. Any other text names none.
    pub open spec fn parse_spec(s: Seq<char>) -> Result<Orientation, ParseTileError> {
        if s == "orthogonal"@ {
            Ok(Orientation::Orthogonal)
        } else if s == "isometric"@ {
            Ok(Orientation::Isometric)
        } else if s == "staggered"@ {
            Ok(Orientation::Staggered)
        } else if s == "hexagonal"@ {
            Ok(Orientation::Hexagonal)
        } else {
            Err(ParseTileError::OrientationError)
        }
    }

    /// Reads an orientation from its token.
    pub fn from_str(s: &str) -> (r: Result<Orientation, ParseTileError>)
        ensures
            r == Orientation::parse_spec(s@),
    {
        if str_eq(s, "orthogonal") {
            Ok(Orientation::Orthogonal)
        } else if str_eq(s, "isometric") {
            Ok(Orientation::Isometric)
        } else if str_eq(s, "staggered") {
            Ok(Orientation::Staggered)
        } else if str_eq(s, "hexagonal") {
            Ok(Orientation::Hexagonal)
        } else {
            Err(ParseTileError::OrientationError)
        }
    }

    /// Writes the orientation as its token.
    pub fn to_string(&self) -> (s: String)
        ensures
            s@ == self.token(),
    {
        match self {
            Orientation::Orthogonal => "orthogonal".to_owned(),
            Orientation::Isometric => "isometric".to_owned(),
            Orientation::Staggered => "staggered".to_owned(),
            Orientation::Hexagonal => "hexagonal".to_owned(),
        }
    }
}

/// The four tokens are four different texts.
pub proof fn lemma_tokens_differ()
    ensures
        "orthogonal"@ != "isometric"@,
        "orthogonal"@ != "staggered"@,
        "orthogonal"@ != "hexagonal"@,
        "isometric"@ != "staggered"@,
        "isometric"@ != "hexagonal"@,
        "staggered"@ != "hexagonal"@,
{
    reveal_strlit("orthogonal");
    reveal_strlit("isometric");
    reveal_strlit("staggered");
    reveal_strlit("hexagonal");
    assert("orthogonal"@.len() == 10);
    assert("isometric"@[0] == 'i');
    assert("staggered"@[0] == 's');
    assert("hexagonal"@[0] == 'h');
}

/// The token of an orientation reads back as that orientation.
pub proof fn lemma_orientation_round_trip(o: Orientation)
    ensures
        Orientation::parse_spec(o.token()) == Ok::<Orientation, ParseTileError>(o),
{
    lemma_tokens_differ();
}

/// A text reads as an orientation only if it is that orientation's token:
/// reading is one-to-one between the four tokens and the four orientations,
/// and every other text is refused with `OrientationError`.
pub proof fn lemma_orientation_parse_exact(s: Seq<char>, o: Orientation)
    ensures
        Orientation::parse_spec(s) == Ok::<Orientation, ParseTileError>(o) <==> s == o.token(),
        Orientation::parse_spec(s) is Err ==> Orientation::parse_spec(s) == Err::<
            Orientation,
            ParseTileError,
        >(ParseTileError::OrientationError),
{
    lemma_tokens_differ();
}

} // verus!
