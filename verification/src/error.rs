//! The ways in which reading a map can fail.

use vstd::prelude::*;

verus! {

/// Why a value could not be read from its text.
#[derive(Debug, Clone, Copy, PartialEq, Eq, Structural)]
pub enum ParseTileError {
    /// The text is no colour.
    ColourError,
    /// The text names no orientation.
    OrientationError,
}

/// Why a document could not be read. Each variant but the last two carries a
/// message for people.
#[derive(Debug, Clone, PartialEq, Eq)]
pub enum TiledError {
    /// A required attribute is missing or has the wrong form.
    MalformedAttributes(String),
    /// Compressed tile data could not be inflated.
    DecompressingError(String),
    /// Tile data is not valid base64.
    Base64DecodingError(String),
    /// The XML reader rejected the document.
    XmlDecodingError(String),
    /// The document ended inside an element.
    PrematureEnd(String),
    /// Anything else, such as a tileset file that could not be had.
    Other(String),
}

/// What a `TiledError` says, with its message as a sequence of characters.
pub enum ErrorView {
    MalformedAttributes(Seq<char>),
    DecompressingError(Seq<char>),
    Base64DecodingError(Seq<char>),
    XmlDecodingError(Seq<char>),
    PrematureEnd(Seq<char>),
    Other(Seq<char>),
}

impl View for TiledError {
    type V = ErrorView;

    open spec fn view(&self) -> ErrorView {
        match self {
            TiledError::MalformedAttributes(m) => ErrorView::MalformedAttributes(m@),
            TiledError::DecompressingError(m) => ErrorView::DecompressingError(m@),
            TiledError::Base64DecodingError(m) => ErrorView::Base64DecodingError(m@),
            TiledError::XmlDecodingError(m) => ErrorView::XmlDecodingError(m@),
            TiledError::PrematureEnd(m) => ErrorView::PrematureEnd(m@),
            TiledError::Other(m) => ErrorView::Other(m@),
        }
    }
}

impl TiledError {
    /// The message carried by the error.
    pub fn message(&self) -> (text: &String)
        ensures
            text@ == match self@ {
                ErrorView::MalformedAttributes(m) => m,
                ErrorView::DecompressingError(m) => m,
                ErrorView::Base64DecodingError(m) => m,
                ErrorView::XmlDecodingError(m) => m,
                ErrorView::PrematureEnd(m) => m,
                ErrorView::Other(m) => m,
            },
    {
        match self {
            TiledError::MalformedAttributes(m) => m,
            TiledError::DecompressingError(m) => m,
            TiledError::Base64DecodingError(m) => m,
            TiledError::XmlDecodingError(m) => m,
            TiledError::PrematureEnd(m) => m,
            TiledError::Other(m) => m,
        }
    }
}

/// A result with its error as ghost data and its value as it is.
pub open spec fn plain<T>(r: Result<T, TiledError>) -> Result<T, ErrorView> {
    match r {
        Ok(value) => Ok(value),
        Err(e) => Err(e@),
    }
}

/// A result with both its value and its error as ghost data.
pub open spec fn viewed<T: View>(r: Result<T, TiledError>) -> Result<T::V, ErrorView> {
    match r {
        Ok(value) => Ok(value@),
        Err(e) => Err(e@),
    }
}

/// The result of a builder that also says where it stopped reading.
pub open spec fn placed<T: View>(r: Result<(T, usize), TiledError>) -> Result<(T::V, int), ErrorView> {
    match r {
        Ok((value, next)) => Ok((value@, next as int)),
        Err(e) => Err(e@),
    }
}

} // verus!
