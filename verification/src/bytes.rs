//! Reading fixed-width fields out of the bytes of a map file.
//!
//! The file is modelled as a `Seq<u8>`. Every reader takes the bytes and a
//! position and returns the value it read together with the position behind
//! it; a field that does not fit between the position and the end of the
//! bytes is a short read.

use byteorder::ReadBytesExt;
use vstd::prelude::*;
use vstd::slice::slice_subrange;

use crate::error::{IoErrorKind, MapforgeError};

verus! {

/// Marker that precedes a tile index when the map carries debug fields.
pub const TILE_INDEX_SIGNATURE: &'static str = "+++IndexStart+++";

/// Marker that precedes a tile record when the map carries debug fields.
pub const TILE_SIGNATURE: &'static str = "###TileStartX,Y###";

/// Marker that precedes a point record when the map carries debug fields.
pub const POI_SIGNATURE: &'static str = "***POIStartX***";

/// Width in bytes of the field that holds the index marker.
pub const TILE_INDEX_SIGNATURE_WIDTH: usize = 16;

/// Width in bytes of the field that holds the tile marker.
pub const TILE_SIGNATURE_WIDTH: usize = 32;

/// Width in bytes of the field that holds the point marker.
pub const POI_SIGNATURE_WIDTH: usize = 32;

/// Whether a field of `width` bytes lies wholly inside `data` at `pos`.
pub open spec fn in_range(data: Seq<u8>, pos: int, width: int) -> bool {
    0 <= pos && 0 <= width && pos + width <= data.len()
}

/// An executable outcome with its position read as a mathematical integer.
pub open spec fn lift<T>(r: Result<(T, usize), MapforgeError>) -> Result<(T, int), MapforgeError> {
    match r {
        Ok((v, p)) => Ok((v, p as int)),
        Err(e) => Err(e),
    }
}

/// The byte at `pos`, and the position behind it.
pub open spec fn spec_read_u8(data: Seq<u8>, pos: int) -> Result<(u8, int), MapforgeError> {
    if in_range(data, pos, 1) {
        Ok((data[pos], pos + 1))
    } else {
        Err(MapforgeError::short_read())
    }
}

/// The number that four bytes spell, most significant byte first.
pub open spec fn be_u32(b0: u8, b1: u8, b2: u8, b3: u8) -> int {
    b0 * 0x100_0000 + b1 * 0x1_0000 + b2 * 0x100 + b3
}

/// The big-endian 32-bit number at `pos`, and the position behind it.
pub open spec fn spec_read_be_u32(data: Seq<u8>, pos: int) -> Result<(u32, int), MapforgeError> {
    if in_range(data, pos, 4) {
        Ok((be_u32(data[pos], data[pos + 1], data[pos + 2], data[pos + 3]) as u32, pos + 4))
    } else {
        Err(MapforgeError::short_read())
    }
}

/// The text that `String::from_utf8_lossy` makes of `bytes`.
pub uninterp spec fn spec_utf8_lossy(bytes: Seq<u8>) -> Seq<char>;

/// What `str::trim` leaves of `text`.
pub uninterp spec fn spec_trim(text: Seq<char>) -> Seq<char>;

/// Whether a signature field reads as `marker` once decoded and trimmed.
pub open spec fn field_reads(field: Seq<u8>, marker: Seq<char>) -> bool {
    spec_trim(spec_utf8_lossy(field)) == marker
}

/// Outcome of checking the signature field of `width` bytes at `pos`: the
/// position behind the field where it reads as `marker`, `mismatch` where it
/// is complete but reads otherwise, a short read where it is cut off.
pub open spec fn spec_expect_signature(
    data: Seq<u8>,
    pos: int,
    width: int,
    marker: Seq<char>,
    mismatch: MapforgeError,
) -> Result<int, MapforgeError> {
    if !in_range(data, pos, width) {
        Err(MapforgeError::short_read())
    } else if !field_reads(data.subrange(pos, pos + width), marker) {
        Err(mismatch)
    } else {
        Ok(pos + width)
    }
}

/// Outcome of the signature check in front of a record: nothing is read
/// where the map carries no debug fields.
pub open spec fn spec_debug_signature(
    data: Seq<u8>,
    pos: int,
    debug: bool,
    width: int,
    marker: Seq<char>,
    mismatch: MapforgeError,
) -> Result<int, MapforgeError> {
    if debug {
        spec_expect_signature(data, pos, width, marker, mismatch)
    } else {
        Ok(pos)
    }
}

/// Calls `byteorder::ReadBytesExt::read_u8` on the bytes from `pos` on.
/// On a slice that call yields the first byte if there is one and fails
/// otherwise; the failure is handed back as `None`.
#[verifier::external_body]
fn next_byte(data: &[u8], pos: usize) -> (b: Option<u8>)
    requires
        pos <= data@.len(),
    ensures
        b == (if pos < data@.len() {
            Some(data@[pos as int])
        } else {
            None::<u8>
        }),
{
    let mut rest: &[u8] = &data[pos..];
    rest.read_u8().ok()
}

/// Calls `String::from_utf8_lossy` and keeps the text it returns. The text
/// depends on the bytes alone; nothing more is claimed of it.
#[verifier::external_body]
fn utf8_lossy(bytes: &[u8]) -> (text: String)
    ensures
        text@ == spec_utf8_lossy(bytes@),
{
    String::from_utf8_lossy(bytes).into_owned()
}

/// Calls `str::trim`. What is left depends on the text alone; nothing more
/// is claimed of it.
#[verifier::external_body]
fn trim<'a>(text: &'a str) -> (trimmed: &'a str)
    ensures
        trimmed@ == spec_trim(text@),
{
    text.trim()
}

/// Reads one byte at `pos`.
pub fn read_u8(data: &[u8], pos: usize) -> (r: Result<(u8, usize), MapforgeError>)
    ensures
        lift(r) == spec_read_u8(data@, pos as int),
{
    if pos > data.len() {
        return Err(MapforgeError::Io(IoErrorKind::UnexpectedEof));
    }
    match next_byte(data, pos) {
        Some(b) => Ok((b, pos + 1)),
        None => Err(MapforgeError::Io(IoErrorKind::UnexpectedEof)),
    }
}

/// Reads a big-endian 32-bit number at `pos`.
pub fn read_be_u32(data: &[u8], pos: usize) -> (r: Result<(u32, usize), MapforgeError>)
    ensures
        lift(r) == spec_read_be_u32(data@, pos as int),
{
    if pos > data.len() || data.len() - pos < 4 {
        return Err(MapforgeError::Io(IoErrorKind::UnexpectedEof));
    }
    let b0: u32 = data[pos] as u32;
    let b1: u32 = data[pos + 1] as u32;
    let b2: u32 = data[pos + 2] as u32;
    let b3: u32 = data[pos + 3] as u32;
    Ok((b0 * 0x100_0000 + b1 * 0x1_0000 + b2 * 0x100 + b3, pos + 4))
}

/// Whether the text left of a signature field is the marker.
pub fn text_is_marker(trimmed: &str, marker: &str) -> (same: bool)
    ensures
        same == (trimmed@ == marker@),
{
    let left: String = trimmed.to_owned();
    let right: String = marker.to_owned();
    left == right
}

/// Checks the signature field of `width` bytes at `pos` against `marker`.
pub fn expect_signature(
    data: &[u8],
    pos: usize,
    width: usize,
    marker: &str,
    mismatch: MapforgeError,
) -> (r: Result<usize, MapforgeError>)
    ensures
        match r {
            Ok(end) => spec_expect_signature(data@, pos as int, width as int, marker@, mismatch)
                == Ok::<int, MapforgeError>(end as int),
            Err(e) => spec_expect_signature(data@, pos as int, width as int, marker@, mismatch)
                == Err::<int, MapforgeError>(e),
        },
{
    if pos > data.len() || data.len() - pos < width {
        return Err(MapforgeError::Io(IoErrorKind::UnexpectedEof));
    }
    let field = slice_subrange(data, pos, pos + width);
    let text = utf8_lossy(field);
    let trimmed = trim(text.as_str());
    if text_is_marker(trimmed, marker) {
        Ok(pos + width)
    } else {
        Err(mismatch)
    }
}

/// Checks the marker in front of a record where the map carries debug
/// fields, and reads nothing where it does not.
pub fn debug_signature(
    data: &[u8],
    pos: usize,
    debug: bool,
    width: usize,
    marker: &str,
    mismatch: MapforgeError,
) -> (r: Result<usize, MapforgeError>)
    ensures
        match r {
            Ok(end) => spec_debug_signature(
                data@,
                pos as int,
                debug,
                width as int,
                marker@,
                mismatch,
            ) == Ok::<int, MapforgeError>(end as int),
            Err(e) => spec_debug_signature(
                data@,
                pos as int,
                debug,
                width as int,
                marker@,
                mismatch,
            ) == Err::<int, MapforgeError>(e),
        },
{
    if debug {
        expect_signature(data, pos, width, marker, mismatch)
    } else {
        Ok(pos)
    }
}

} // verus!
