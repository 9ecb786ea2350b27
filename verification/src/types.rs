//! The data model of a map file: header, zoom intervals, tile index entries
//! and decoded tiles.
//!
//! Angles are held as whole millionths of a degree, the unit in which the
//! file stores them.

use vstd::prelude::*;

verus! {

/// Bit of the header's flag byte that says the map carries debug fields.
pub const DEBUG_INFO_MASK: u8 = 0x80;

/// The area a map covers, in millionths of a degree.
#[derive(Debug, Clone, Copy, PartialEq, Eq, Structural)]
pub struct BoundingBox {
    pub min_lat: i32,
    pub min_lon: i32,
    pub max_lat: i32,
    pub max_lon: i32,
}

/// One band of zoom levels that share a sub-file and a tile index.
#[derive(Debug, Clone, Copy, PartialEq, Eq, Structural)]
pub struct ZoomInterval {
    pub base_zoom_level: u8,
    pub min_zoom_level: u8,
    pub max_zoom_level: u8,
    pub sub_file_start: u64,
    pub sub_file_size: u64,
}

impl ZoomInterval {
    /// Whether `zoom` lies between the interval's lowest and highest level.
    pub open spec fn covers(&self, zoom: u8) -> bool {
        self.min_zoom_level <= zoom && zoom <= self.max_zoom_level
    }

    /// How many zoom levels the interval spans.
    pub open spec fn levels(&self) -> int {
        self.max_zoom_level - self.min_zoom_level + 1
    }

    /// Tells whether `zoom` lies in the interval.
    pub fn contains_zoom(&self, zoom: u8) -> (b: bool)
        ensures
            b == self.covers(zoom),
    {
        zoom >= self.min_zoom_level && zoom <= self.max_zoom_level
    }
}

/// Whether interval `i` covers `zoom` and none before it does.
pub open spec fn is_first_covering(intervals: Seq<ZoomInterval>, zoom: u8, i: int) -> bool {
    &&& 0 <= i < intervals.len()
    &&& intervals[i].covers(zoom)
    &&& forall|j: int| 0 <= j < i ==> !#[trigger] intervals[j].covers(zoom)
}

/// Index of the first interval that covers `zoom`, if any does.
pub open spec fn spec_find_interval(intervals: Seq<ZoomInterval>, zoom: u8) -> Option<int> {
    if exists|i: int| is_first_covering(intervals, zoom, i) {
        Some(choose|i: int| is_first_covering(intervals, zoom, i))
    } else {
        None
    }
}

/// At most one interval is the first to cover a zoom level, so the first
/// covering interval is the one that `spec_find_interval` names.
pub proof fn lemma_first_covering_is_found(intervals: Seq<ZoomInterval>, zoom: u8, i: int)
    requires
        is_first_covering(intervals, zoom, i),
    ensures
        spec_find_interval(intervals, zoom) == Some(i),
{
    let k = choose|k: int| is_first_covering(intervals, zoom, k);
    assert(is_first_covering(intervals, zoom, k));
    if k < i {
        assert(!intervals[k].covers(zoom));
    }
    if i < k {
        assert(!intervals[i].covers(zoom));
    }
}

/// Finds the first interval that covers `zoom`; `None` says that no
/// interval covers it.
pub fn find_interval(intervals: &Vec<ZoomInterval>, zoom: u8) -> (found: Option<usize>)
    ensures
        match found {
            Some(i) => spec_find_interval(intervals@, zoom) == Some(i as int),
            None => spec_find_interval(intervals@, zoom).is_none(),
        },
        found.is_some() <==> exists|j: int|
            0 <= j < intervals@.len() && #[trigger] intervals@[j].covers(zoom),
        found matches Some(i) ==> is_first_covering(intervals@, zoom, i as int),
{
    let mut i: usize = 0;
    while i < intervals.len()
        invariant
            i <= intervals@.len(),
            forall|j: int| 0 <= j < i ==> !#[trigger] intervals@[j].covers(zoom),
        decreases intervals@.len() - i,
    {
        if intervals[i].contains_zoom(zoom) {
            proof {
                lemma_first_covering_is_found(intervals@, zoom, i as int);
            }
            return Some(i);
        }
        i += 1;
    }
    None
}

/// What the head of a map file declares.
#[derive(Debug, Clone, PartialEq, Eq)]
pub struct MapHeader {
    pub magic: String,
    pub header_size: u32,
    pub file_version: u32,
    pub file_size: u64,
    pub creation_date: u64,
    pub bounding_box: BoundingBox,
    pub tile_size: u16,
    pub projection: String,
    pub flags: u8,
    pub map_start_position: Option<(i32, i32)>,
    pub start_zoom_level: Option<u8>,
    pub language_preference: Option<String>,
    pub comment: Option<String>,
    pub created_by: Option<String>,
    pub poi_tags: Vec<String>,
    pub way_tags: Vec<String>,
    pub num_zoom_intervals: u8,
    pub zoom_interval_configuration: Vec<ZoomInterval>,
}

impl MapHeader {
    /// Whether the flag byte says that the map carries debug fields.
    pub open spec fn has_debug_info(&self) -> bool {
        self.flags >= 128
    }

    /// Tells whether the map carries debug fields.
    pub fn debug_info(&self) -> (b: bool)
        ensures
            b == self.has_debug_info(),
    {
        let flags = self.flags;
        assert((flags & 0x80 != 0) == (flags >= 128)) by (bit_vector);
        flags & DEBUG_INFO_MASK != 0
    }
}

/// Where one tile's record starts, and whether the tile is all water.
#[derive(Debug, Clone, Copy, PartialEq, Eq, Structural)]
pub struct TileIndexEntry {
    pub is_water: bool,
    pub offset: u64,
}

/// An opened map: its header, its bytes, and one tile index per zoom
/// interval, in the order of the header's intervals.
#[derive(Debug, Clone, PartialEq, Eq)]
pub struct MapFile {
    pub header: MapHeader,
    pub data: Vec<u8>,
    pub tile_indices: Vec<Vec<TileIndexEntry>>,
}

/// One decoded tile.
#[derive(Debug, PartialEq, Eq)]
pub struct Tile {
    pub zoom_table: Vec<(u32, u32)>,
    pub first_way_offset: u32,
    pub pois: Vec<POI>,
}

/// One decoded point of interest.
#[derive(Debug, PartialEq, Eq)]
pub struct POI {
    /// Latitude and longitude, in millionths of a degree.
    pub position_offset: (i32, i32),
    pub layer: i8,
    pub tag: Vec<String>,
    pub name: Option<String>,
    pub house_number: Option<String>,
    pub elevation: Option<i32>,
}

/// A way as the format defines it.
#[derive(Debug, PartialEq, Eq)]
pub struct Way {
    pub sub_tile_bitmap: u16,
    pub layer: i8,
    pub tag_ids: Vec<u32>,
    pub name: Option<String>,
    pub house_number: Option<String>,
    pub reference: Option<String>,
    pub label_position: Option<(i32, i32)>,
    pub coordinate_blocks: Vec<WayCoordinateBlock>,
    pub double_delta_encoding: bool,
}

/// One run of a way's coordinates.
#[derive(Debug, PartialEq, Eq)]
pub struct WayCoordinateBlock {
    pub initial_position: (i32, i32),
    pub coordinates: Vec<(i32, i32)>,
}

/// The tag names of a map, addressed by tag id.
#[derive(Debug, Clone, PartialEq, Eq)]
pub struct TagMapping {
    pub poi_tags: Vec<String>,
    pub way_tags: Vec<String>,
}

/// The texts that a list of strings holds.
pub open spec fn texts(names: Seq<String>) -> Seq<Seq<char>> {
    names.map_values(|s: String| s@)
}

/// The text that an optional string holds.
pub open spec fn opt_text(name: Option<String>) -> Option<Seq<char>> {
    match name {
        Some(s) => Some(s@),
        None => None,
    }
}

/// A point of interest as a mathematical value.
pub struct PoiView {
    pub position_offset: (i32, i32),
    pub layer: i8,
    pub tag: Seq<Seq<char>>,
    pub name: Option<Seq<char>>,
    pub house_number: Option<Seq<char>>,
    pub elevation: Option<i32>,
}

impl View for POI {
    type V = PoiView;

    open spec fn view(&self) -> PoiView {
        PoiView {
            position_offset: self.position_offset,
            layer: self.layer,
            tag: texts(self.tag@),
            name: opt_text(self.name),
            house_number: opt_text(self.house_number),
            elevation: self.elevation,
        }
    }
}

/// The points that a list of decoded points holds.
pub open spec fn poi_views(pois: Seq<POI>) -> Seq<PoiView> {
    pois.map_values(|p: POI| p@)
}

/// A tile as a mathematical value.
pub struct TileView {
    pub zoom_table: Seq<(u32, u32)>,
    pub first_way_offset: u32,
    pub pois: Seq<PoiView>,
}

impl View for Tile {
    type V = TileView;

    open spec fn view(&self) -> TileView {
        TileView {
            zoom_table: self.zoom_table@,
            first_way_offset: self.first_way_offset,
            pois: poi_views(self.pois@),
        }
    }
}

} // verus!
