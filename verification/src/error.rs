//! The closed set of failures a map file can produce.

use vstd::prelude::*;

verus! {

/// Why the bytes of the map could not be read.
#[derive(Debug, Clone, Copy, PartialEq, Eq, Structural)]
pub enum IoErrorKind {
    /// Fewer bytes were left than the field being read is wide.
    UnexpectedEof,
    /// Any other failure of the underlying storage.
    Other,
}

/// Everything that can go wrong while opening a map or fetching a tile.
#[derive(Debug, Clone, Copy, PartialEq, Eq, Structural)]
pub enum MapforgeError {
    /// The bytes ended early, or the storage failed.
    Io(IoErrorKind),
    /// The file does not start with the expected magic bytes.
    InvalidMagic,
    /// The file declares a format version that is not supported.
    UnsupportedVersion(u32),
    /// The bounding box is inverted on one of its axes.
    InvalidBoundingBox,
    /// The declared header size is out of range.
    InvalidHeaderSize(u32),
    /// The field in front of a tile index does not hold the index marker.
    InvalidTileIndexSignature,
    /// The field in front of a tile record does not hold the tile marker.
    InvalidTileSignature,
    /// The field in front of a point record does not hold the point marker.
    InvalidTilePOISignature,
    /// The queried tile lies outside the index of its zoom interval.
    TileOutOfBounds,
    /// A variable-byte integer is too long or too large for its type.
    InvalidVBEInteger,
    /// No zoom interval of the map covers the queried zoom level.
    ZoomNotCovered,
}

impl MapforgeError {
    /// The error of a read that ran past the end of the bytes.
    pub open spec fn short_read() -> MapforgeError {
        MapforgeError::Io(IoErrorKind::UnexpectedEof)
    }

    /// Whether this error is one that a caller near the edge of the data
    /// should expect and can recover from, as opposed to a damaged file.
    pub fn is_recoverable(&self) -> (b: bool)
        ensures
            b == (*self == MapforgeError::TileOutOfBounds),
    {
        match self {
            MapforgeError::TileOutOfBounds => true,
            _ => false,
        }
    }
}

} // verus!
