//! An opened map: building its tile indices, resolving a tile coordinate to
//! an index entry, and fetching the tile behind it.

use vstd::prelude::*;

use crate::error::MapforgeError;
use crate::grid::{
    lemma_contained_tile_has_a_place, lemma_corner_places, lemma_tile_beyond_has_no_place,
    lies_beyond, TileGrid,
};
use crate::index::{build_tile_index, spec_build_tile_index};
use crate::tile::{decode_tile, spec_decode_tile};
use crate::types::{
    find_interval, is_first_covering, lemma_first_covering_is_found, spec_find_interval, texts,
    MapFile, MapHeader, Tile, TileIndexEntry, TileView, ZoomInterval,
};

verus! {

/// The entries that a list of tile indices holds.
pub open spec fn index_views(indices: Seq<Vec<TileIndexEntry>>) -> Seq<Seq<TileIndexEntry>> {
    indices.map_values(|index: Vec<TileIndexEntry>| index@)
}

/// The tile indices of the first `n` zoom intervals, each built over the
/// grid of the same position in `grids`; the error of the first interval
/// whose index cannot be built.
pub open spec fn spec_build_indices(
    data: Seq<u8>,
    intervals: Seq<ZoomInterval>,
    debug: bool,
    grids: Seq<TileGrid>,
    n: nat,
) -> Result<Seq<Seq<TileIndexEntry>>, MapforgeError>
    decreases n,
{
    if n == 0 {
        Ok(Seq::empty())
    } else {
        match spec_build_indices(data, intervals, debug, grids, (n - 1) as nat) {
            Err(e) => Err(e),
            Ok(indices) => match spec_build_tile_index(
                data,
                intervals[n - 1],
                debug,
                grids[n - 1],
            ) {
                Err(e) => Err(e),
                Ok(index) => Ok(indices.push(index)),
            },
        }
    }
}

/// An index that cannot be built fails every longer list of indices too.
proof fn lemma_indices_error_persists(
    data: Seq<u8>,
    intervals: Seq<ZoomInterval>,
    debug: bool,
    grids: Seq<TileGrid>,
    m: nat,
    n: nat,
)
    requires
        m <= n,
        spec_build_indices(data, intervals, debug, grids, m) is Err,
    ensures
        spec_build_indices(data, intervals, debug, grids, n) == spec_build_indices(
            data,
            intervals,
            debug,
            grids,
            m,
        ),
    decreases n,
{
    if m < n {
        lemma_indices_error_persists(data, intervals, debug, grids, m, (n - 1) as nat);
    }
}

impl MapFile {
    /// Whether the map holds one tile index for each zoom interval of its
    /// header.
    pub open spec fn wf(&self) -> bool {
        self.tile_indices@.len() == self.header.zoom_interval_configuration@.len()
    }

    /// The index entry of tile `(x, y)` at zoom level `zoom`, where `grid`
    /// is the grid that the map covers at that level.
    ///
    /// The entry is taken from the index of the first interval that covers
    /// `zoom`, at the tile's place in the row-by-row numbering of `grid`.
    pub open spec fn spec_tile_entry(&self, x: i64, y: i64, zoom: u8, grid: TileGrid) -> Result<
        TileIndexEntry,
        MapforgeError,
    > {
        match spec_find_interval(self.header.zoom_interval_configuration@, zoom) {
            None => Err(MapforgeError::ZoomNotCovered),
            Some(i) => {
                let index = self.tile_indices@[i]@;
                let place = grid.linear_index(x, y);
                if 0 <= place < index.len() {
                    Ok(index[place])
                } else {
                    Err(MapforgeError::TileOutOfBounds)
                }
            },
        }
    }

    /// The tile `(x, y)` at zoom level `zoom`: the record that the tile's
    /// index entry points at, decoded.
    pub open spec fn spec_get_tile_at(&self, x: i64, y: i64, zoom: u8, grid: TileGrid) -> Result<
        TileView,
        MapforgeError,
    > {
        match self.spec_tile_entry(x, y, zoom, grid) {
            Err(e) => Err(e),
            Ok(entry) => spec_decode_tile(
                self.data@,
                entry.offset as int,
                self.header.has_debug_info(),
                self.header.zoom_interval_configuration@,
                zoom,
                texts(self.header.poi_tags@),
            ),
        }
    }

    /// Whether `outcome` is what fetching tile `(x, y)` at zoom level `zoom`
    /// gives on this map: the tile that the bytes spell, or the error that
    /// they give rise to.
    pub open spec fn answers(
        &self,
        x: i64,
        y: i64,
        zoom: u8,
        grid: TileGrid,
        outcome: Result<Tile, MapforgeError>,
    ) -> bool {
        match outcome {
            Ok(tile) => self.spec_get_tile_at(x, y, zoom, grid) == Ok::<TileView, MapforgeError>(
                tile@,
            ),
            Err(e) => self.spec_get_tile_at(x, y, zoom, grid) == Err::<TileView, MapforgeError>(e),
        }
    }

    /// Opens a map from its header and its bytes. `grids` holds, for each
    /// zoom interval of the header, the grid that the bounding box covers at
    /// the interval's base zoom level.
    ///
    /// The tile index of every interval is built, in the order of the
    /// header; the first index that cannot be built fails the whole call.
    pub fn open(header: MapHeader, data: Vec<u8>, grids: &Vec<TileGrid>) -> (r: Result<
        MapFile,
        MapforgeError,
    >)
        requires
            grids@.len() == header.zoom_interval_configuration@.len(),
        ensures
            match r {
                Ok(map) => {
                    &&& map.header == header
                    &&& map.data == data
                    &&& map.wf()
                    &&& spec_build_indices(
                        data@,
                        header.zoom_interval_configuration@,
                        header.has_debug_info(),
                        grids@,
                        grids@.len(),
                    ) == Ok::<Seq<Seq<TileIndexEntry>>, MapforgeError>(
                        index_views(map.tile_indices@),
                    )
                },
                Err(e) => spec_build_indices(
                    data@,
                    header.zoom_interval_configuration@,
                    header.has_debug_info(),
                    grids@,
                    grids@.len(),
                ) == Err::<Seq<Seq<TileIndexEntry>>, MapforgeError>(e),
            },
    {
        let debug = header.debug_info();
        let count = header.zoom_interval_configuration.len();
        let mut tile_indices: Vec<Vec<TileIndexEntry>> = Vec::new();
        let mut i: usize = 0;
        assert(index_views(tile_indices@) =~= Seq::<Seq<TileIndexEntry>>::empty());
        while i < count
            invariant
                i <= count,
                count == header.zoom_interval_configuration@.len(),
                count == grids@.len(),
                debug == header.has_debug_info(),
                tile_indices@.len() == i,
                spec_build_indices(
                    data@,
                    header.zoom_interval_configuration@,
                    debug,
                    grids@,
                    i as nat,
                ) == Ok::<Seq<Seq<TileIndexEntry>>, MapforgeError>(index_views(tile_indices@)),
            decreases count - i,
        {
            let built = build_tile_index(
                data.as_slice(),
                &header.zoom_interval_configuration[i],
                debug,
                &grids[i],
            );
            let index = match built {
                Ok(index) => index,
                Err(e) => {
                    proof {
                        lemma_indices_error_persists(
                            data@,
                            header.zoom_interval_configuration@,
                            debug,
                            grids@,
                            (i + 1) as nat,
                            count as nat,
                        );
                    }
                    return Err(e);
                },
            };
            let ghost before = tile_indices@;
            let ghost added = index@;
            tile_indices.push(index);
            assert(index_views(tile_indices@) =~= index_views(before).push(added));
            i = i + 1;
        }
        Ok(MapFile { header, data, tile_indices })
    }

    /// Resolves tile `(x, y)` at zoom level `zoom` to its index entry.
    /// `grid` is the grid that the map covers at that zoom level.
    ///
    /// Fails with `ZoomNotCovered` where no interval covers `zoom`, and with
    /// `TileOutOfBounds` where the tile's place lies outside the index.
    pub fn calculate_tile_entry(&self, x: i64, y: i64, zoom: u8, grid: &TileGrid) -> (r: Result<
        TileIndexEntry,
        MapforgeError,
    >)
        requires
            self.wf(),
        ensures
            r == self.spec_tile_entry(x, y, zoom, *grid),
    {
        let i = match find_interval(&self.header.zoom_interval_configuration, zoom) {
            Some(i) => i,
            None => {
                return Err(MapforgeError::ZoomNotCovered);
            },
        };
        let index = &self.tile_indices[i];
        match grid.entry_index(x, y, index.len()) {
            Some(place) => Ok(index[place]),
            None => Err(MapforgeError::TileOutOfBounds),
        }
    }

    /// Fetches tile `(x, y)` at zoom level `zoom`. `grid` is the grid that
    /// the map covers at that zoom level.
    ///
    /// The tile is decoded afresh from the bytes of the map on every call;
    /// the map itself is left as it was.
    pub fn get_tile_at(&self, x: i64, y: i64, zoom: u8, grid: &TileGrid) -> (r: Result<
        Tile,
        MapforgeError,
    >)
        requires
            self.wf(),
        ensures
            self.answers(x, y, zoom, *grid, r),
    {
        let entry = self.calculate_tile_entry(x, y, zoom, grid)?;
        decode_tile(self.data.as_slice(), entry.offset, &self.header, zoom)
    }

    /// The number of tiles of `grid`: its columns times its rows.
    pub fn calculate_total_tiles(grid: &TileGrid) -> (total: u32)
        requires
            grid.is_valid(),
            grid.spec_total_tiles() <= u32::MAX,
        ensures
            total == grid.spec_total_tiles(),
    {
        let num_x: i128 = grid.x_max as i128 - grid.x_min as i128 + 1;
        let num_y: i128 = grid.y_max as i128 - grid.y_min as i128 + 1;
        assert(num_x <= num_x * num_y && num_y <= num_x * num_y) by (nonlinear_arith)
            requires
                num_x >= 1,
                num_y >= 1,
        ;
        (num_x * num_y) as u32
    }
}

/// The indices of an opened map are the indices of its intervals.
///
/// Where the indices of the first `n` intervals can be built, there are `n`
/// of them, and index `i` is the index of interval `i` over grid `i`: it
/// holds one entry for each tile of that grid.
pub proof fn lemma_indices_match_intervals(
    data: Seq<u8>,
    intervals: Seq<ZoomInterval>,
    debug: bool,
    grids: Seq<TileGrid>,
    n: nat,
    indices: Seq<Seq<TileIndexEntry>>,
)
    requires
        spec_build_indices(data, intervals, debug, grids, n) == Ok::<
            Seq<Seq<TileIndexEntry>>,
            MapforgeError,
        >(indices),
    ensures
        indices.len() == n,
        forall|i: int|
            0 <= i < n ==> spec_build_tile_index(data, intervals[i], debug, grids[i]) == Ok::<
                Seq<TileIndexEntry>,
                MapforgeError,
            >(#[trigger] indices[i]),
        forall|i: int| 0 <= i < n ==> (#[trigger] indices[i]).len() == grids[i].spec_total_tiles(),
    decreases n,
{
    if n > 0 {
        let shorter = spec_build_indices(data, intervals, debug, grids, (n - 1) as nat);
        lemma_indices_match_intervals(
            data,
            intervals,
            debug,
            grids,
            (n - 1) as nat,
            shorter->Ok_0,
        );
        assert forall|i: int| 0 <= i < n implies spec_build_tile_index(
            data,
            intervals[i],
            debug,
            grids[i],
        ) == Ok::<Seq<TileIndexEntry>, MapforgeError>(#[trigger] indices[i]) by {
            if i < n - 1 {
                assert(indices[i] == shorter->Ok_0[i]);
            }
        }
    }
}

/// A tile inside the grid resolves to the entry at its row-by-row number.
///
/// Where interval `i` is the first to cover `zoom`, its index holds an
/// entry for every tile of the valid grid `grid`, and `(x, y)` lies inside
/// the grid, the tile's entry is entry `(y - y_min) * width + (x - x_min)`
/// of that index.
pub proof fn lemma_contained_tile_resolves(
    map: MapFile,
    x: i64,
    y: i64,
    zoom: u8,
    grid: TileGrid,
    i: int,
)
    requires
        map.wf(),
        is_first_covering(map.header.zoom_interval_configuration@, zoom, i),
        grid.is_valid(),
        grid.contains(x, y),
        map.tile_indices@[i]@.len() >= grid.spec_total_tiles(),
    ensures
        0 <= (y - grid.y_min) * (grid.x_max - grid.x_min + 1) + (x - grid.x_min)
            < map.tile_indices@[i]@.len(),
        map.spec_tile_entry(x, y, zoom, grid) == Ok::<TileIndexEntry, MapforgeError>(
            map.tile_indices@[i]@[(y - grid.y_min) * (grid.x_max - grid.x_min + 1) + (x
                - grid.x_min)],
        ),
{
    lemma_first_covering_is_found(map.header.zoom_interval_configuration@, zoom, i);
    lemma_contained_tile_has_a_place(grid, x, y);
}

/// The corners of the grid resolve, and a tile beyond the grid does not.
///
/// Where interval `i` is the first to cover `zoom` and its index holds
/// exactly one entry for every tile of the valid grid `grid`: the
/// north-east corner of the grid resolves to the last entry of the first
/// row, the south-east corner to the last entry of the index, and every
/// tile that lies beyond the grid is out of bounds.
pub proof fn lemma_grid_boundary(map: MapFile, zoom: u8, grid: TileGrid, i: int)
    requires
        map.wf(),
        is_first_covering(map.header.zoom_interval_configuration@, zoom, i),
        grid.is_valid(),
        map.tile_indices@[i]@.len() == grid.spec_total_tiles(),
    ensures
        map.spec_tile_entry(grid.x_max, grid.y_min, zoom, grid) == Ok::<
            TileIndexEntry,
            MapforgeError,
        >(map.tile_indices@[i]@[grid.width() - 1]),
        map.spec_tile_entry(grid.x_max, grid.y_max, zoom, grid) == Ok::<
            TileIndexEntry,
            MapforgeError,
        >(map.tile_indices@[i]@[grid.spec_total_tiles() - 1]),
        forall|x: i64, y: i64| #[trigger]
            lies_beyond(grid, x, y) ==> map.spec_tile_entry(x, y, zoom, grid) == Err::<
                TileIndexEntry,
                MapforgeError,
            >(MapforgeError::TileOutOfBounds),
{
    lemma_first_covering_is_found(map.header.zoom_interval_configuration@, zoom, i);
    lemma_corner_places(grid);
    assert forall|x: i64, y: i64| #[trigger] lies_beyond(grid, x, y) implies map.spec_tile_entry(
        x,
        y,
        zoom,
        grid,
    ) == Err::<TileIndexEntry, MapforgeError>(MapforgeError::TileOutOfBounds) by {
        lemma_tile_beyond_has_no_place(grid, x, y);
    }
}

/// Asking twice gives the same answer.
///
/// Whatever two calls of `get_tile_at` with the same tile, zoom level and
/// grid return on one map, they return the same: both fail with the same
/// error, or both give tiles with the same zoom table, the same offset of
/// the first way and the same points.
pub proof fn lemma_repeated_query_agrees(
    map: MapFile,
    x: i64,
    y: i64,
    zoom: u8,
    grid: TileGrid,
    first: Result<Tile, MapforgeError>,
    second: Result<Tile, MapforgeError>,
)
    requires
        map.answers(x, y, zoom, grid, first),
        map.answers(x, y, zoom, grid, second),
    ensures
        first is Ok <==> second is Ok,
        first is Ok ==> first->Ok_0@ == second->Ok_0@,
        first is Err ==> first->Err_0 == second->Err_0,
{
}

} // verus!
