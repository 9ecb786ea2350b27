//! Building the tile index of one zoom interval.
//!
//! An index is an array of five-byte records, one per tile of the grid that
//! the map covers at the interval's base zoom level, row by row. The top bit
//! of a record's first byte is the water flag; its other 39 bits, most
//! significant byte first, are the offset of the tile's record.

use vstd::prelude::*;

use crate::bytes::{
    debug_signature, in_range, spec_debug_signature, TILE_INDEX_SIGNATURE,
    TILE_INDEX_SIGNATURE_WIDTH,
};
use crate::error::{IoErrorKind, MapforgeError};
use crate::grid::TileGrid;
use crate::types::{TileIndexEntry, ZoomInterval};

verus! {

/// Bit of a record's first byte that marks a tile as all water.
pub const WATER_TILE_MASK: u8 = 0x80;

/// Width in bytes of one record of a tile index.
pub const TILE_INDEX_ENTRY_WIDTH: usize = 5;

/// The offset that the five bytes of a record spell once the water flag is
/// cleared.
pub open spec fn spec_entry_offset(b0: u8, b1: u8, b2: u8, b3: u8, b4: u8) -> int {
    (b0 % 128) * 0x1_0000_0000 + b1 * 0x100_0000 + b2 * 0x1_0000 + b3 * 0x100 + b4
}

/// The entry that the five bytes of a record spell.
pub open spec fn spec_decode_entry(bytes: Seq<u8>) -> TileIndexEntry {
    TileIndexEntry {
        is_water: bytes[0] >= 128,
        offset: spec_entry_offset(bytes[0], bytes[1], bytes[2], bytes[3], bytes[4]) as u64,
    }
}

/// The entry spelled by record `i` of the array of records at `start`.
pub open spec fn spec_entry_at(data: Seq<u8>, start: int, i: int) -> TileIndexEntry {
    spec_decode_entry(
        data.subrange(
            start + TILE_INDEX_ENTRY_WIDTH * i,
            start + TILE_INDEX_ENTRY_WIDTH * i + TILE_INDEX_ENTRY_WIDTH,
        ),
    )
}

/// The entries spelled by the first `count` records at `start`.
pub open spec fn spec_index_entries(data: Seq<u8>, start: int, count: nat) -> Seq<TileIndexEntry> {
    Seq::new(count, |i: int| spec_entry_at(data, start, i))
}

/// The position of the first record of an interval's index: the start of
/// the sub-file, or the end of the index marker where the map carries debug
/// fields.
pub open spec fn spec_index_records_start(
    data: Seq<u8>,
    interval: ZoomInterval,
    debug: bool,
) -> Result<int, MapforgeError> {
    spec_debug_signature(
        data,
        interval.sub_file_start as int,
        debug,
        TILE_INDEX_SIGNATURE_WIDTH as int,
        TILE_INDEX_SIGNATURE@,
        MapforgeError::InvalidTileIndexSignature,
    )
}

/// The tile index of `interval`, whose grid at the base zoom level is
/// `grid`.
///
/// The marker is checked first, where the map carries debug fields. Then
/// one record is read for each tile of the grid; a grid without tiles is an
/// invalid bounding box, and records that do not all fit in the bytes are a
/// short read.
pub open spec fn spec_build_tile_index(
    data: Seq<u8>,
    interval: ZoomInterval,
    debug: bool,
    grid: TileGrid,
) -> Result<Seq<TileIndexEntry>, MapforgeError> {
    match spec_index_records_start(data, interval, debug) {
        Err(e) => Err(e),
        Ok(start) => if !grid.is_valid() {
            Err(MapforgeError::InvalidBoundingBox)
        } else if !in_range(data, start, TILE_INDEX_ENTRY_WIDTH * grid.spec_total_tiles()) {
            Err(MapforgeError::short_read())
        } else {
            Ok(spec_index_entries(data, start, grid.spec_total_tiles() as nat))
        },
    }
}

impl TileIndexEntry {
    /// Decodes one record of a tile index.
    pub fn from_bytes(bytes: [u8; 5]) -> (entry: TileIndexEntry)
        ensures
            entry == spec_decode_entry(bytes@),
    {
        let first: u8 = bytes[0];
        let is_water = first & WATER_TILE_MASK != 0;
        let high: u8 = first & !WATER_TILE_MASK;
        assert((first & 0x80 != 0) == (first >= 128)) by (bit_vector);
        assert(high == first % 128) by (bit_vector)
            requires
                high == first & !0x80u8,
        ;
        let offset: u64 = (high as u64) * 0x1_0000_0000 + (bytes[1] as u64) * 0x100_0000 + (
        bytes[2] as u64) * 0x1_0000 + (bytes[3] as u64) * 0x100 + (bytes[4] as u64);
        TileIndexEntry { is_water, offset }
    }
}

/// Builds the tile index of `interval` from the bytes of the map.
pub fn build_tile_index(data: &[u8], interval: &ZoomInterval, debug: bool, grid: &TileGrid) -> (r:
    Result<Vec<TileIndexEntry>, MapforgeError>)
    ensures
        match r {
            Ok(index) => spec_build_tile_index(data@, *interval, debug, *grid) == Ok::<
                Seq<TileIndexEntry>,
                MapforgeError,
            >(index@),
            Err(e) => spec_build_tile_index(data@, *interval, debug, *grid) == Err::<
                Seq<TileIndexEntry>,
                MapforgeError,
            >(e),
        },
        r matches Ok(index) ==> index@.len() == grid.spec_total_tiles(),
{
    let len = data.len();
    if interval.sub_file_start > len as u64 {
        if debug {
            return Err(MapforgeError::Io(IoErrorKind::UnexpectedEof));
        }
        if !grid.check_valid() {
            return Err(MapforgeError::InvalidBoundingBox);
        }
        assert(grid.spec_total_tiles() >= 1) by (nonlinear_arith)
            requires
                grid.width() >= 1,
                grid.height() >= 1,
                grid.spec_total_tiles() == grid.width() * grid.height(),
        ;
        return Err(MapforgeError::Io(IoErrorKind::UnexpectedEof));
    }
    let start = debug_signature(
        data,
        interval.sub_file_start as usize,
        debug,
        TILE_INDEX_SIGNATURE_WIDTH,
        TILE_INDEX_SIGNATURE,
        MapforgeError::InvalidTileIndexSignature,
    )?;
    if !grid.check_valid() {
        return Err(MapforgeError::InvalidBoundingBox);
    }
    let room: usize = (len - start) / TILE_INDEX_ENTRY_WIDTH;
    let count: usize = match grid.total_tiles_within(room as u64) {
        Some(total) => total as usize,
        None => {
            return Err(MapforgeError::Io(IoErrorKind::UnexpectedEof));
        },
    };
    let mut index: Vec<TileIndexEntry> = Vec::new();
    let mut i: usize = 0;
    while i < count
        invariant
            i <= count,
            len == data@.len(),
            start + TILE_INDEX_ENTRY_WIDTH * count <= len,
            index@ =~= spec_index_entries(data@, start as int, i as nat),
        decreases count - i,
    {
        let at: usize = start + TILE_INDEX_ENTRY_WIDTH * i;
        let record: [u8; 5] = [data[at], data[at + 1], data[at + 2], data[at + 3], data[at + 4]];
        assert(record@ =~= data@.subrange(at as int, at + TILE_INDEX_ENTRY_WIDTH));
        index.push(TileIndexEntry::from_bytes(record));
        i = i + 1;
    }
    Ok(index)
}

/// An index holds one record for each tile of its grid, and no more.
///
/// Where the index of an interval can be built, it has as many entries as
/// the grid has tiles; the records lie back to back behind the start of the
/// index, five bytes each, and entry `k` is spelled by record `k`.
pub proof fn lemma_index_holds_one_record_per_tile(
    data: Seq<u8>,
    interval: ZoomInterval,
    debug: bool,
    grid: TileGrid,
    index: Seq<TileIndexEntry>,
)
    requires
        spec_build_tile_index(data, interval, debug, grid) == Ok::<
            Seq<TileIndexEntry>,
            MapforgeError,
        >(index),
    ensures
        index.len() == grid.spec_total_tiles(),
        spec_index_records_start(data, interval, debug) is Ok,
        in_range(
            data,
            spec_index_records_start(data, interval, debug)->Ok_0,
            5 * grid.spec_total_tiles(),
        ),
        forall|k: int|
            0 <= k < index.len() ==> #[trigger] index[k] == spec_decode_entry(
                data.subrange(
                    spec_index_records_start(data, interval, debug)->Ok_0 + 5 * k,
                    spec_index_records_start(data, interval, debug)->Ok_0 + 5 * k + 5,
                ),
            ),
{
}

} // verus!
