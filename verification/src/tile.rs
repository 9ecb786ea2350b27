//! Decoding one tile record: its zoom table, the offset of its first way
//! and its points of interest.

use vstd::prelude::*;

use crate::bytes::{
    debug_signature, read_be_u32, read_u8, spec_debug_signature, spec_read_be_u32, spec_read_u8,
    POI_SIGNATURE, POI_SIGNATURE_WIDTH, TILE_SIGNATURE, TILE_SIGNATURE_WIDTH,
};
use crate::error::{IoErrorKind, MapforgeError};
use crate::types::{
    find_interval, poi_views, spec_find_interval, texts, MapHeader, PoiView, Tile, TileView,
    ZoomInterval, POI,
};
use crate::vbe::{spec_read_vbe_s_int, spec_read_vbe_u_int};

verus! {

/// The layer that a point's special byte names: its high nibble less five.
pub open spec fn spec_layer(special: u8) -> int {
    special / 16 - 5
}

/// The number of tags that a point's special byte announces: its low nibble.
pub open spec fn spec_tag_count(special: u8) -> nat {
    (special % 16) as nat
}

/// Whether a point's flag byte announces a name.
pub open spec fn spec_has_name(flags: u8) -> bool {
    flags % 2 == 1
}

/// Whether a point's flag byte announces a house number.
pub open spec fn spec_has_house_number(flags: u8) -> bool {
    (flags / 2) % 2 == 1
}

/// Whether a point's flag byte announces an elevation.
pub open spec fn spec_has_elevation(flags: u8) -> bool {
    (flags / 4) % 2 == 1
}

/// The 32 bits of `v` read as a signed number.
pub open spec fn spec_reinterpret(v: u32) -> int {
    if v <= i32::MAX {
        v as int
    } else {
        v - 0x1_0000_0000
    }
}

/// The first `levels` rows of the zoom table at `pos`, each a count of
/// points and a count of ways, and the position behind them.
pub open spec fn spec_read_zoom_table(data: Seq<u8>, pos: int, levels: nat) -> Result<
    (Seq<(u32, u32)>, int),
    MapforgeError,
>
    decreases levels,
{
    if levels == 0 {
        Ok((Seq::empty(), pos))
    } else {
        match spec_read_zoom_table(data, pos, (levels - 1) as nat) {
            Err(e) => Err(e),
            Ok((rows, pos0)) => match spec_read_vbe_u_int(data, pos0) {
                Err(e) => Err(e),
                Ok((pois, pos1)) => match spec_read_vbe_u_int(data, pos1) {
                    Err(e) => Err(e),
                    Ok((ways, pos2)) => Ok((rows.push((pois, ways)), pos2)),
                },
            },
        }
    }
}

/// The names of the first `count` tag ids at `pos` that `table` knows, and
/// the position behind the ids. An id that the table does not hold adds no
/// name; the position moves past it all the same.
pub open spec fn spec_read_tags(data: Seq<u8>, pos: int, count: nat, table: Seq<Seq<char>>) -> Result<
    (Seq<Seq<char>>, int),
    MapforgeError,
>
    decreases count,
{
    if count == 0 {
        Ok((Seq::empty(), pos))
    } else {
        match spec_read_tags(data, pos, (count - 1) as nat, table) {
            Err(e) => Err(e),
            Ok((names, pos0)) => match spec_read_vbe_u_int(data, pos0) {
                Err(e) => Err(e),
                Ok((id, pos1)) => Ok(
                    (
                        if id < table.len() {
                            names.push(table[id as int])
                        } else {
                            names
                        },
                        pos1,
                    ),
                ),
            },
        }
    }
}

/// The point record at `pos`, and the position behind it.
///
/// A name and a house number are never read, whatever the flag byte says;
/// an elevation is read where the flag byte announces one.
pub open spec fn spec_read_poi(data: Seq<u8>, pos: int, debug: bool, table: Seq<Seq<char>>) -> Result<
    (PoiView, int),
    MapforgeError,
> {
    match spec_debug_signature(
        data,
        pos,
        debug,
        POI_SIGNATURE_WIDTH as int,
        POI_SIGNATURE@,
        MapforgeError::InvalidTilePOISignature,
    ) {
        Err(e) => Err(e),
        Ok(pos0) => match spec_read_vbe_s_int(data, pos0) {
            Err(e) => Err(e),
            Ok((lat, pos1)) => match spec_read_vbe_s_int(data, pos1) {
                Err(e) => Err(e),
                Ok((lon, pos2)) => match spec_read_u8(data, pos2) {
                    Err(e) => Err(e),
                    Ok((special, pos3)) => match spec_read_tags(
                        data,
                        pos3,
                        spec_tag_count(special),
                        table,
                    ) {
                        Err(e) => Err(e),
                        Ok((names, pos4)) => match spec_read_u8(data, pos4) {
                            Err(e) => Err(e),
                            Ok((flags, pos5)) => {
                                let poi = PoiView {
                                    position_offset: (lat, lon),
                                    layer: spec_layer(special) as i8,
                                    tag: names,
                                    name: None,
                                    house_number: None,
                                    elevation: None,
                                };
                                if spec_has_elevation(flags) {
                                    match spec_read_vbe_u_int(data, pos5) {
                                        Err(e) => Err(e),
                                        Ok((height, pos6)) => Ok(
                                            (
                                                PoiView {
                                                    elevation: Some(
                                                        spec_reinterpret(height) as i32,
                                                    ),
                                                    ..poi
                                                },
                                                pos6,
                                            ),
                                        ),
                                    }
                                } else {
                                    Ok((poi, pos5))
                                }
                            },
                        },
                    },
                },
            },
        },
    }
}

/// The first `count` point records at `pos`, and the position behind them.
pub open spec fn spec_read_pois(
    data: Seq<u8>,
    pos: int,
    count: nat,
    debug: bool,
    table: Seq<Seq<char>>,
) -> Result<(Seq<PoiView>, int), MapforgeError>
    decreases count,
{
    if count == 0 {
        Ok((Seq::empty(), pos))
    } else {
        match spec_read_pois(data, pos, (count - 1) as nat, debug, table) {
            Err(e) => Err(e),
            Ok((pois, pos0)) => match spec_read_poi(data, pos0, debug, table) {
                Err(e) => Err(e),
                Ok((poi, pos1)) => Ok((pois.push(poi), pos1)),
            },
        }
    }
}

/// The tile whose record starts at `offset`, read for zoom level `zoom`.
///
/// The record is, in order: the tile marker where the map carries debug
/// fields; one row of the zoom table for each level of the first interval
/// that covers `zoom`; the offset of the first way, four bytes, most
/// significant first; and as many points as the row of `zoom` counts.
pub open spec fn spec_decode_tile(
    data: Seq<u8>,
    offset: int,
    debug: bool,
    intervals: Seq<ZoomInterval>,
    zoom: u8,
    table: Seq<Seq<char>>,
) -> Result<TileView, MapforgeError> {
    match spec_debug_signature(
        data,
        offset,
        debug,
        TILE_SIGNATURE_WIDTH as int,
        TILE_SIGNATURE@,
        MapforgeError::InvalidTileSignature,
    ) {
        Err(e) => Err(e),
        Ok(pos0) => match spec_find_interval(intervals, zoom) {
            None => Err(MapforgeError::ZoomNotCovered),
            Some(i) => match spec_read_zoom_table(data, pos0, intervals[i].levels() as nat) {
                Err(e) => Err(e),
                Ok((zoom_table, pos1)) => match spec_read_be_u32(data, pos1) {
                    Err(e) => Err(e),
                    Ok((first_way_offset, pos2)) => match spec_read_pois(
                        data,
                        pos2,
                        zoom_table[zoom - intervals[i].min_zoom_level].0 as nat,
                        debug,
                        table,
                    ) {
                        Err(e) => Err(e),
                        Ok((pois, _)) => Ok(TileView { zoom_table, first_way_offset, pois }),
                    },
                },
            },
        }
    }
}

/// A row count that failed to read fails every longer zoom table as well.
proof fn lemma_zoom_table_error_persists(data: Seq<u8>, pos: int, m: nat, n: nat)
    requires
        m <= n,
        spec_read_zoom_table(data, pos, m) is Err,
    ensures
        spec_read_zoom_table(data, pos, n) == spec_read_zoom_table(data, pos, m),
    decreases n,
{
    if m < n {
        lemma_zoom_table_error_persists(data, pos, m, (n - 1) as nat);
    }
}

/// A tag id that failed to read fails every longer tag list as well.
proof fn lemma_tags_error_persists(data: Seq<u8>, pos: int, m: nat, n: nat, table: Seq<Seq<char>>)
    requires
        m <= n,
        spec_read_tags(data, pos, m, table) is Err,
    ensures
        spec_read_tags(data, pos, n, table) == spec_read_tags(data, pos, m, table),
    decreases n,
{
    if m < n {
        lemma_tags_error_persists(data, pos, m, (n - 1) as nat, table);
    }
}

/// A point that failed to read fails every longer list of points as well.
proof fn lemma_pois_error_persists(
    data: Seq<u8>,
    pos: int,
    m: nat,
    n: nat,
    debug: bool,
    table: Seq<Seq<char>>,
)
    requires
        m <= n,
        spec_read_pois(data, pos, m, debug, table) is Err,
    ensures
        spec_read_pois(data, pos, n, debug, table) == spec_read_pois(data, pos, m, debug, table),
    decreases n,
{
    if m < n {
        lemma_pois_error_persists(data, pos, m, (n - 1) as nat, debug, table);
    }
}

/// Splits a point's special byte into its layer and its number of tags.
pub fn decode_special_byte(special: u8) -> (r: (i8, u8))
    ensures
        r.0 == spec_layer(special),
        r.1 == spec_tag_count(special),
{
    let high: u8 = (special & 0xf0) >> 4;
    let low: u8 = special & 0x0f;
    assert(high == special / 16) by (bit_vector)
        requires
            high == (special & 0xf0) >> 4,
    ;
    assert(low == special % 16) by (bit_vector)
        requires
            low == special & 0x0f,
    ;
    (high as i8 - 5, low)
}

/// What a point's flag byte announces.
#[derive(Debug, Clone, Copy, PartialEq, Eq, Structural)]
pub struct PoiFlags {
    pub has_name: bool,
    pub has_house_number: bool,
    pub has_elevation: bool,
}

/// Reads the three low bits of a point's flag byte.
pub fn decode_poi_flags(flags: u8) -> (r: PoiFlags)
    ensures
        r.has_name == spec_has_name(flags),
        r.has_house_number == spec_has_house_number(flags),
        r.has_elevation == spec_has_elevation(flags),
{
    assert((flags & 0x01 != 0) == (flags % 2 == 1)) by (bit_vector);
    assert((flags & 0x02 != 0) == ((flags / 2) % 2 == 1)) by (bit_vector);
    assert((flags & 0x04 != 0) == ((flags / 4) % 2 == 1)) by (bit_vector);
    PoiFlags {
        has_name: flags & 0x01 != 0,
        has_house_number: flags & 0x02 != 0,
        has_elevation: flags & 0x04 != 0,
    }
}

/// Reads the 32 bits of an unsigned number as a signed one.
pub fn reinterpret(v: u32) -> (r: i32)
    ensures
        r == spec_reinterpret(v),
{
    if v <= 0x7fff_ffff {
        v as i32
    } else {
        (v as i64 - 0x1_0000_0000) as i32
    }
}

/// Looks a tag id up in the table of tag names; an id that the table does
/// not hold has no name.
pub fn resolve_tag(table: &Vec<String>, id: u32) -> (name: Option<String>)
    ensures
        match name {
            Some(s) => id < table@.len() && s@ == table@[id as int]@,
            None => id >= table@.len(),
        },
{
    if (id as usize) < table.len() {
        Some(table[id as usize].clone())
    } else {
        None
    }
}

/// Reads `levels` rows of a zoom table at `pos`.
pub fn read_zoom_table(data: &[u8], pos: usize, levels: usize) -> (r: Result<
    (Vec<(u32, u32)>, usize),
    MapforgeError,
>)
    ensures
        match r {
            Ok((rows, end)) => spec_read_zoom_table(data@, pos as int, levels as nat) == Ok::<
                (Seq<(u32, u32)>, int),
                MapforgeError,
            >((rows@, end as int)),
            Err(e) => spec_read_zoom_table(data@, pos as int, levels as nat) == Err::<
                (Seq<(u32, u32)>, int),
                MapforgeError,
            >(e),
        },
        r matches Ok((rows, _)) ==> rows@.len() == levels,
{
    let mut rows: Vec<(u32, u32)> = Vec::new();
    let mut at: usize = pos;
    let mut i: usize = 0;
    while i < levels
        invariant
            i <= levels,
            rows@.len() == i,
            spec_read_zoom_table(data@, pos as int, i as nat) == Ok::<
                (Seq<(u32, u32)>, int),
                MapforgeError,
            >((rows@, at as int)),
        decreases levels - i,
    {
        let (pois, after_pois) = match MapHeader::read_vbe_u_int(data, at) {
            Ok(read) => read,
            Err(e) => {
                proof {
                    lemma_zoom_table_error_persists(data@, pos as int, (i + 1) as nat, levels as nat);
                }
                return Err(e);
            },
        };
        let (ways, after_ways) = match MapHeader::read_vbe_u_int(data, after_pois) {
            Ok(read) => read,
            Err(e) => {
                proof {
                    lemma_zoom_table_error_persists(data@, pos as int, (i + 1) as nat, levels as nat);
                }
                return Err(e);
            },
        };
        rows.push((pois, ways));
        at = after_ways;
        i = i + 1;
    }
    Ok((rows, at))
}

/// Reads `count` tag ids at `pos` and resolves them against `table`.
pub fn read_tags(data: &[u8], pos: usize, count: u8, table: &Vec<String>) -> (r: Result<
    (Vec<String>, usize),
    MapforgeError,
>)
    ensures
        match r {
            Ok((names, end)) => spec_read_tags(data@, pos as int, count as nat, texts(table@))
                == Ok::<(Seq<Seq<char>>, int), MapforgeError>((texts(names@), end as int)),
            Err(e) => spec_read_tags(data@, pos as int, count as nat, texts(table@)) == Err::<
                (Seq<Seq<char>>, int),
                MapforgeError,
            >(e),
        },
{
    let mut names: Vec<String> = Vec::new();
    let mut at: usize = pos;
    let mut i: u8 = 0;
    assert(texts(names@) =~= Seq::<Seq<char>>::empty());
    while i < count
        invariant
            i <= count,
            spec_read_tags(data@, pos as int, i as nat, texts(table@)) == Ok::<
                (Seq<Seq<char>>, int),
                MapforgeError,
            >((texts(names@), at as int)),
        decreases count - i,
    {
        let (id, next) = match MapHeader::read_vbe_u_int(data, at) {
            Ok(read) => read,
            Err(e) => {
                proof {
                    lemma_tags_error_persists(
                        data@,
                        pos as int,
                        (i + 1) as nat,
                        count as nat,
                        texts(table@),
                    );
                }
                return Err(e);
            },
        };
        let ghost before = names@;
        match resolve_tag(table, id) {
            Some(name) => {
                names.push(name);
                assert(texts(names@) =~= texts(before).push(texts(table@)[id as int]));
            },
            None => {},
        }
        at = next;
        i = i + 1;
    }
    Ok((names, at))
}

/// Reads one point record at `pos`.
pub fn read_poi(data: &[u8], pos: usize, debug: bool, table: &Vec<String>) -> (r: Result<
    (POI, usize),
    MapforgeError,
>)
    ensures
        match r {
            Ok((poi, end)) => spec_read_poi(data@, pos as int, debug, texts(table@)) == Ok::<
                (PoiView, int),
                MapforgeError,
            >((poi@, end as int)),
            Err(e) => spec_read_poi(data@, pos as int, debug, texts(table@)) == Err::<
                (PoiView, int),
                MapforgeError,
            >(e),
        },
{
    let pos0 = debug_signature(
        data,
        pos,
        debug,
        POI_SIGNATURE_WIDTH,
        POI_SIGNATURE,
        MapforgeError::InvalidTilePOISignature,
    )?;
    let (lat, pos1) = MapHeader::read_vbe_s_int(data, pos0)?;
    let (lon, pos2) = MapHeader::read_vbe_s_int(data, pos1)?;
    let (special, pos3) = read_u8(data, pos2)?;
    let (layer, tag_count) = decode_special_byte(special);
    let (tag, pos4) = read_tags(data, pos3, tag_count, table)?;
    let (flag_byte, pos5) = read_u8(data, pos4)?;
    let flags = decode_poi_flags(flag_byte);
    if flags.has_elevation {
        let (height, pos6) = MapHeader::read_vbe_u_int(data, pos5)?;
        let poi = POI {
            position_offset: (lat, lon),
            layer,
            tag,
            name: None,
            house_number: None,
            elevation: Some(reinterpret(height)),
        };
        Ok((poi, pos6))
    } else {
        let poi = POI {
            position_offset: (lat, lon),
            layer,
            tag,
            name: None,
            house_number: None,
            elevation: None,
        };
        Ok((poi, pos5))
    }
}

/// Reads `count` point records at `pos`.
pub fn read_pois(data: &[u8], pos: usize, count: u32, debug: bool, table: &Vec<String>) -> (r:
    Result<(Vec<POI>, usize), MapforgeError>)
    ensures
        match r {
            Ok((pois, end)) => spec_read_pois(
                data@,
                pos as int,
                count as nat,
                debug,
                texts(table@),
            ) == Ok::<(Seq<PoiView>, int), MapforgeError>((poi_views(pois@), end as int)),
            Err(e) => spec_read_pois(data@, pos as int, count as nat, debug, texts(table@))
                == Err::<(Seq<PoiView>, int), MapforgeError>(e),
        },
{
    let mut pois: Vec<POI> = Vec::new();
    let mut at: usize = pos;
    let mut i: u32 = 0;
    assert(poi_views(pois@) =~= Seq::<PoiView>::empty());
    while i < count
        invariant
            i <= count,
            spec_read_pois(data@, pos as int, i as nat, debug, texts(table@)) == Ok::<
                (Seq<PoiView>, int),
                MapforgeError,
            >((poi_views(pois@), at as int)),
        decreases count - i,
    {
        let (poi, next) = match read_poi(data, at, debug, table) {
            Ok(read) => read,
            Err(e) => {
                proof {
                    lemma_pois_error_persists(
                        data@,
                        pos as int,
                        (i + 1) as nat,
                        count as nat,
                        debug,
                        texts(table@),
                    );
                }
                return Err(e);
            },
        };
        let ghost before = pois@;
        let ghost added = poi@;
        pois.push(poi);
        assert(poi_views(pois@) =~= poi_views(before).push(added));
        at = next;
        i = i + 1;
    }
    Ok((pois, at))
}

/// Decodes the tile whose record starts at `offset`, for zoom level `zoom`.
///
/// Fails with the error of the first field, in the order of the record,
/// that is cut off or malformed; with `InvalidTileSignature` where the map
/// carries debug fields and the record does not start with the tile marker;
/// and with `ZoomNotCovered` where no zoom interval of the header covers
/// `zoom`.
pub fn decode_tile(data: &[u8], offset: u64, header: &MapHeader, zoom: u8) -> (r: Result<
    Tile,
    MapforgeError,
>)
    ensures
        match r {
            Ok(tile) => spec_decode_tile(
                data@,
                offset as int,
                header.has_debug_info(),
                header.zoom_interval_configuration@,
                zoom,
                texts(header.poi_tags@),
            ) == Ok::<TileView, MapforgeError>(tile@),
            Err(e) => spec_decode_tile(
                data@,
                offset as int,
                header.has_debug_info(),
                header.zoom_interval_configuration@,
                zoom,
                texts(header.poi_tags@),
            ) == Err::<TileView, MapforgeError>(e),
        },
{
    let debug = header.debug_info();
    if offset > data.len() as u64 {
        if debug {
            return Err(MapforgeError::Io(IoErrorKind::UnexpectedEof));
        }
        return match find_interval(&header.zoom_interval_configuration, zoom) {
            None => Err(MapforgeError::ZoomNotCovered),
            Some(i) => {
                proof {
                    let levels = header.zoom_interval_configuration@[i as int].levels() as nat;
                    assert(spec_read_zoom_table(data@, offset as int, 0) is Ok);
                    assert(spec_read_zoom_table(data@, offset as int, 1) == Err::<
                        (Seq<(u32, u32)>, int),
                        MapforgeError,
                    >(MapforgeError::short_read())) by {
                        reveal_with_fuel(spec_read_zoom_table, 2);
                    }
                    lemma_zoom_table_error_persists(data@, offset as int, 1, levels);
                }
                Err(MapforgeError::Io(IoErrorKind::UnexpectedEof))
            },
        };
    }
    let start: usize = offset as usize;
    let pos0 = debug_signature(
        data,
        start,
        debug,
        TILE_SIGNATURE_WIDTH,
        TILE_SIGNATURE,
        MapforgeError::InvalidTileSignature,
    )?;
    let i = match find_interval(&header.zoom_interval_configuration, zoom) {
        Some(i) => i,
        None => {
            return Err(MapforgeError::ZoomNotCovered);
        },
    };
    let interval = &header.zoom_interval_configuration[i];
    let levels: usize = (interval.max_zoom_level - interval.min_zoom_level) as usize + 1;
    let (zoom_table, pos1) = read_zoom_table(data, pos0, levels)?;
    let (first_way_offset, pos2) = read_be_u32(data, pos1)?;
    let row: usize = (zoom - interval.min_zoom_level) as usize;
    let poi_count: u32 = zoom_table[row].0;
    let (pois, _) = read_pois(data, pos2, poi_count, debug, &header.poi_tags)?;
    Ok(Tile { zoom_table, first_way_offset, pois })
}

/// A tag id that the table does not hold is passed over.
///
/// Where the id behind the first `count` ids reads as `id`, and the table
/// holds no name for it, the list of names stays as it was and the position
/// moves to the end of the id.
pub proof fn lemma_unknown_tag_is_dropped(
    data: Seq<u8>,
    pos: int,
    count: nat,
    table: Seq<Seq<char>>,
    names: Seq<Seq<char>>,
    at: int,
    id: u32,
    end: int,
)
    requires
        spec_read_tags(data, pos, count, table) == Ok::<(Seq<Seq<char>>, int), MapforgeError>(
            (names, at),
        ),
        spec_read_vbe_u_int(data, at) == Ok::<(u32, int), MapforgeError>((id, end)),
        id >= table.len(),
    ensures
        spec_read_tags(data, pos, count + 1, table) == Ok::<(Seq<Seq<char>>, int), MapforgeError>(
            (names, end),
        ),
{
}

/// How far a list of tag ids reaches does not depend on the table of names.
///
/// Read against any two tables, the same ids fail with the same error or
/// end at the same position.
pub proof fn lemma_tags_end_is_independent_of_table(
    data: Seq<u8>,
    pos: int,
    count: nat,
    one: Seq<Seq<char>>,
    other: Seq<Seq<char>>,
)
    ensures
        match (spec_read_tags(data, pos, count, one), spec_read_tags(data, pos, count, other)) {
            (Ok((_, end_one)), Ok((_, end_other))) => end_one == end_other,
            (Err(e), Err(f)) => e == f,
            _ => false,
        },
    decreases count,
{
    if count > 0 {
        lemma_tags_end_is_independent_of_table(data, pos, (count - 1) as nat, one, other);
    }
}

} // verus!
