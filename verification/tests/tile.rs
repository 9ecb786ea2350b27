use mapsforge_rs::error::{IoErrorKind, MapforgeError};
use mapsforge_rs::tile::{
    decode_poi_flags, decode_special_byte, decode_tile, read_poi, read_pois, read_tags,
    read_zoom_table, reinterpret, resolve_tag, PoiFlags,
};
use mapsforge_rs::types::{BoundingBox, MapHeader, Tile, ZoomInterval, POI};

const TRUNCATED: MapforgeError = MapforgeError::Io(IoErrorKind::UnexpectedEof);

fn tag_table() -> Vec<String> {
    vec!["amenity=cafe".to_string(), "amenity=bank".to_string(), "shop=bakery".to_string()]
}

fn header_with(flags: u8, intervals: Vec<ZoomInterval>) -> MapHeader {
    MapHeader {
        magic: "mapsforge binary OSM".to_string(),
        header_size: 100,
        file_version: 3,
        file_size: 1000,
        creation_date: 0,
        bounding_box: BoundingBox {
            min_lat: 10_000,
            min_lon: 10_000,
            max_lat: 100_000,
            max_lon: 100_000,
        },
        tile_size: 256,
        projection: "Mercator".to_string(),
        flags,
        map_start_position: None,
        start_zoom_level: None,
        language_preference: None,
        comment: None,
        created_by: None,
        poi_tags: tag_table(),
        way_tags: Vec::new(),
        num_zoom_intervals: intervals.len() as u8,
        zoom_interval_configuration: intervals,
    }
}

fn band(min: u8, max: u8) -> ZoomInterval {
    ZoomInterval {
        base_zoom_level: min,
        min_zoom_level: min,
        max_zoom_level: max,
        sub_file_start: 0,
        sub_file_size: 0,
    }
}

fn marker_field(text: &str) -> Vec<u8> {
    let mut field = text.as_bytes().to_vec();
    field.resize(32, b' ');
    field
}

/// lat 52.520008, lon 13.404954, layer 0, tags 0 and 2, no elevation.
fn plain_point() -> Vec<u8> {
    let mut bytes = Vec::new();
    // 52_520_008 = 0x3216448: groups 0x48, 0x48, 0x05, 0x19 -> last holds 0x19
    bytes.extend_from_slice(&[0xc8, 0xc8, 0x85, 0x19]);
    // 13_404_954 = groups 0x1a, 0x16, 0x32, 0x06
    bytes.extend_from_slice(&[0x9a, 0x96, 0xb2, 0x06]);
    bytes.push(0x52);
    bytes.extend_from_slice(&[0x00, 0x02]);
    bytes.push(0x00);
    bytes
}

fn plain_point_value() -> POI {
    POI {
        position_offset: (52_520_008, 13_404_954),
        layer: 0,
        tag: vec!["amenity=cafe".to_string(), "shop=bakery".to_string()],
        name: None,
        house_number: None,
        elevation: None,
    }
}

#[test]
fn special_byte_zero_is_layer_minus_five() {
    assert_eq!(decode_special_byte(0x00), (-5, 0));
}

#[test]
fn special_byte_high_nibble_fifteen_is_layer_ten() {
    assert_eq!(decode_special_byte(0xf0), (10, 0));
}

#[test]
fn special_byte_nibbles_are_independent() {
    assert_eq!(decode_special_byte(0x0f), (-5, 15));
    assert_eq!(decode_special_byte(0xff), (10, 15));
    assert_eq!(decode_special_byte(0x50), (0, 0));
    assert_eq!(decode_special_byte(0x53), (0, 3));
    assert_eq!(decode_special_byte(0x7a), (2, 10));
    for byte in 0u16..256 {
        let byte = byte as u8;
        let (layer, tags) = decode_special_byte(byte);
        assert_eq!(layer as i16, (byte >> 4) as i16 - 5);
        assert_eq!(tags, byte & 0x0f);
        assert_eq!(decode_special_byte(byte & 0xf0).0, layer);
        assert_eq!(decode_special_byte(byte & 0x0f).1, tags);
    }
}

#[test]
fn flag_byte_bits() {
    assert_eq!(
        decode_poi_flags(0x00),
        PoiFlags { has_name: false, has_house_number: false, has_elevation: false }
    );
    assert_eq!(
        decode_poi_flags(0x01),
        PoiFlags { has_name: true, has_house_number: false, has_elevation: false }
    );
    assert_eq!(
        decode_poi_flags(0x02),
        PoiFlags { has_name: false, has_house_number: true, has_elevation: false }
    );
    assert_eq!(
        decode_poi_flags(0x04),
        PoiFlags { has_name: false, has_house_number: false, has_elevation: true }
    );
    assert_eq!(
        decode_poi_flags(0xff),
        PoiFlags { has_name: true, has_house_number: true, has_elevation: true }
    );
    assert_eq!(
        decode_poi_flags(0xf8),
        PoiFlags { has_name: false, has_house_number: false, has_elevation: false }
    );
}

#[test]
fn reinterpret_keeps_the_bits() {
    assert_eq!(reinterpret(0), 0);
    assert_eq!(reinterpret(1234), 1234);
    assert_eq!(reinterpret(0x7fff_ffff), i32::MAX);
    assert_eq!(reinterpret(0x8000_0000), i32::MIN);
    assert_eq!(reinterpret(u32::MAX), -1);
}

#[test]
fn resolve_tag_looks_the_id_up() {
    let table = tag_table();
    assert_eq!(resolve_tag(&table, 0), Some("amenity=cafe".to_string()));
    assert_eq!(resolve_tag(&table, 2), Some("shop=bakery".to_string()));
    assert_eq!(resolve_tag(&table, 3), None);
    assert_eq!(resolve_tag(&table, u32::MAX), None);
    assert_eq!(resolve_tag(&Vec::new(), 0), None);
}

#[test]
fn tags_resolve_in_order() {
    let table = tag_table();
    let data = [0x02, 0x00, 0x01, 0x02];
    assert_eq!(
        read_tags(&data, 0, 4, &table),
        Ok((
            vec![
                "shop=bakery".to_string(),
                "amenity=cafe".to_string(),
                "amenity=bank".to_string(),
                "shop=bakery".to_string()
            ],
            4
        ))
    );
    assert_eq!(read_tags(&data, 1, 0, &table), Ok((Vec::new(), 1)));
}

#[test]
fn unknown_tag_id_is_dropped_and_its_bytes_are_consumed() {
    let table = tag_table();
    // ids 1, 300 (two bytes), 2
    let data = [0x01, 0xac, 0x02, 0x02, 0x77];
    assert_eq!(
        read_tags(&data, 0, 3, &table),
        Ok((vec!["amenity=bank".to_string(), "shop=bakery".to_string()], 4))
    );
    // id 3 is the first id past the table
    assert_eq!(read_tags(&[0x03], 0, 1, &table), Ok((Vec::new(), 1)));
    // the same ids against an empty table end at the same position
    assert_eq!(read_tags(&data, 0, 3, &Vec::new()), Ok((Vec::new(), 4)));
}

#[test]
fn tags_fail_with_the_error_of_the_first_bad_id() {
    let table = tag_table();
    assert_eq!(read_tags(&[0x01], 0, 2, &table), Err(TRUNCATED));
    assert_eq!(read_tags(&[0x01, 0x80], 0, 2, &table), Err(TRUNCATED));
    assert_eq!(
        read_tags(&[0x01, 0x80, 0x80, 0x80, 0x80, 0x80, 0x01], 0, 2, &table),
        Err(MapforgeError::InvalidVBEInteger)
    );
}

#[test]
fn zoom_table_pairs_counts_per_level() {
    let data = [0x01, 0x02, 0x80, 0x01, 0x00, 0x05, 0x06, 0xff];
    assert_eq!(read_zoom_table(&data, 0, 3), Ok((vec![(1, 2), (128, 0), (5, 6)], 7)));
    assert_eq!(read_zoom_table(&data, 0, 0), Ok((Vec::new(), 0)));
    assert_eq!(read_zoom_table(&data, 5, 1), Ok((vec![(5, 6)], 7)));
}

#[test]
fn zoom_table_cut_off_is_a_short_read() {
    let data = [0x01, 0x02, 0x03];
    assert_eq!(read_zoom_table(&data, 0, 2), Err(TRUNCATED));
    assert_eq!(read_zoom_table(&data, 3, 1), Err(TRUNCATED));
    assert_eq!(
        read_zoom_table(&[0x01, 0xff, 0xff, 0xff, 0xff, 0xff], 0, 1),
        Err(MapforgeError::InvalidVBEInteger)
    );
}

#[test]
fn point_without_elevation() {
    let data = plain_point();
    assert_eq!(read_poi(&data, 0, false, &tag_table()), Ok((plain_point_value(), data.len())));
}

#[test]
fn point_with_elevation() {
    let mut data = vec![0x41, 0x02, 0xa0, 0x04, 0xac, 0x02];
    data.push(0xee);
    let expected = POI {
        position_offset: (-1, 2),
        layer: 5,
        tag: Vec::new(),
        name: None,
        house_number: None,
        elevation: Some(300),
    };
    assert_eq!(read_poi(&data, 0, false, &tag_table()), Ok((expected, 6)));
}

#[test]
fn point_name_and_house_number_are_never_read() {
    // flags announce a name and a house number; nothing behind the flag byte is consumed
    let data = [0x00, 0x00, 0x50, 0x03, b'x', b'y'];
    let expected = POI {
        position_offset: (0, 0),
        layer: 0,
        tag: Vec::new(),
        name: None,
        house_number: None,
        elevation: None,
    };
    assert_eq!(read_poi(&data, 0, false, &tag_table()), Ok((expected, 4)));
    // with all three flags the elevation follows the flag byte directly
    let data = [0x00, 0x00, 0x50, 0x07, 0x09, b'y'];
    let (poi, end) = read_poi(&data, 0, false, &tag_table()).unwrap();
    assert_eq!(poi.elevation, Some(9));
    assert_eq!(poi.name, None);
    assert_eq!(poi.house_number, None);
    assert_eq!(end, 5);
}

#[test]
fn point_with_debug_marker() {
    let mut data = marker_field("***POIStartX***");
    data.extend_from_slice(&plain_point());
    assert_eq!(read_poi(&data, 0, true, &tag_table()), Ok((plain_point_value(), data.len())));
    let mut wrong = marker_field("***POIStart7***");
    wrong.extend_from_slice(&plain_point());
    assert_eq!(
        read_poi(&wrong, 0, true, &tag_table()),
        Err(MapforgeError::InvalidTilePOISignature)
    );
    assert_eq!(read_poi(&data[..31], 0, true, &tag_table()), Err(TRUNCATED));
}

#[test]
fn point_cut_off_anywhere_is_a_short_read() {
    let data = plain_point();
    for cut in 0..data.len() {
        assert_eq!(read_poi(&data[..cut], 0, false, &tag_table()), Err(TRUNCATED));
    }
}

#[test]
fn points_are_read_back_to_back() {
    let mut data = plain_point();
    let first_end = data.len();
    data.extend_from_slice(&[0x41, 0x02, 0xa0, 0x04, 0xac, 0x02]);
    let (pois, end) = read_pois(&data, 0, 2, false, &tag_table()).unwrap();
    assert_eq!(end, first_end + 6);
    assert_eq!(pois.len(), 2);
    assert_eq!(pois[0], plain_point_value());
    assert_eq!(pois[1].position_offset, (-1, 2));
    assert_eq!(pois[1].elevation, Some(300));
    assert_eq!(read_pois(&data, 0, 0, false, &tag_table()), Ok((Vec::new(), 0)));
    assert_eq!(read_pois(&data, 0, 3, false, &tag_table()), Err(TRUNCATED));
}

fn sample_tile() -> Vec<u8> {
    let mut record = Vec::new();
    // zoom table of the band 10..=14: the row of level 12 counts one point
    record.extend_from_slice(&[0x00, 0x00, 0x00, 0x01, 0x01, 0x07, 0x02, 0x00, 0x03, 0x09]);
    record.extend_from_slice(&[0x00, 0x01, 0x02, 0x03]);
    record.extend_from_slice(&plain_point());
    record
}

#[test]
fn tile_is_decoded_for_the_level_asked() {
    let header = header_with(0, vec![band(10, 14)]);
    let record = sample_tile();
    let tile = decode_tile(&record, 0, &header, 12).unwrap();
    assert_eq!(
        tile,
        Tile {
            zoom_table: vec![(0, 0), (0, 1), (1, 7), (2, 0), (3, 9)],
            first_way_offset: 0x0001_0203,
            pois: vec![plain_point_value()],
        }
    );
    let empty = decode_tile(&record, 0, &header, 10).unwrap();
    assert_eq!(empty.pois, Vec::new());
    assert_eq!(empty.zoom_table.len(), 5);
    assert_eq!(decode_tile(&record, 0, &header, 13), Err(TRUNCATED));
}

#[test]
fn tile_is_read_at_its_offset() {
    let header = header_with(0, vec![band(10, 14)]);
    let mut data = vec![0xffu8; 9];
    data.extend_from_slice(&sample_tile());
    let tile = decode_tile(&data, 9, &header, 12).unwrap();
    assert_eq!(tile.pois, vec![plain_point_value()]);
    assert_eq!(tile.first_way_offset, 0x0001_0203);
    assert_eq!(decode_tile(&data, data.len() as u64, &header, 12), Err(TRUNCATED));
    assert_eq!(decode_tile(&data, u64::MAX, &header, 12), Err(TRUNCATED));
}

#[test]
fn tile_zoom_not_covered() {
    let header = header_with(0, vec![band(10, 14)]);
    let record = sample_tile();
    assert_eq!(decode_tile(&record, 0, &header, 9), Err(MapforgeError::ZoomNotCovered));
    assert_eq!(decode_tile(&record, 0, &header, 15), Err(MapforgeError::ZoomNotCovered));
    assert_eq!(decode_tile(&record, 1 << 40, &header, 15), Err(MapforgeError::ZoomNotCovered));
    let none = header_with(0, Vec::new());
    assert_eq!(decode_tile(&record, 0, &none, 12), Err(MapforgeError::ZoomNotCovered));
}

#[test]
fn tile_uses_the_first_interval_that_covers_the_level() {
    let header = header_with(0, vec![band(0, 7), band(8, 12), band(12, 14)]);
    // band 8..=12 has five levels; level 12 is its last row
    let mut record = vec![0, 0, 0, 0, 0, 0, 0, 0, 1, 0];
    record.extend_from_slice(&[0, 0, 0, 9]);
    record.extend_from_slice(&plain_point());
    let tile = decode_tile(&record, 0, &header, 12).unwrap();
    assert_eq!(tile.zoom_table.len(), 5);
    assert_eq!(tile.pois.len(), 1);
    assert_eq!(tile.first_way_offset, 9);
}

#[test]
fn tile_with_debug_markers() {
    let header = header_with(0x80, vec![band(12, 12)]);
    let mut record = marker_field("###TileStartX,Y###");
    record.extend_from_slice(&[0x02, 0x00]);
    record.extend_from_slice(&[0, 0, 0, 0]);
    for _ in 0..2 {
        record.extend_from_slice(&marker_field("***POIStartX***"));
        record.extend_from_slice(&plain_point());
    }
    let tile = decode_tile(&record, 0, &header, 12).unwrap();
    assert_eq!(tile.pois, vec![plain_point_value(), plain_point_value()]);
    assert_eq!(tile.zoom_table, vec![(2, 0)]);
}

#[test]
fn tile_with_wrong_markers() {
    let header = header_with(0x80, vec![band(12, 12)]);
    let mut record = marker_field("###TileStart5,9###");
    record.extend_from_slice(&[0x00, 0x00, 0, 0, 0, 0]);
    assert_eq!(decode_tile(&record, 0, &header, 12), Err(MapforgeError::InvalidTileSignature));
    // the marker is checked before the zoom level is looked up
    assert_eq!(decode_tile(&record, 0, &header, 3), Err(MapforgeError::InvalidTileSignature));
    assert_eq!(decode_tile(&record[..20], 0, &header, 3), Err(TRUNCATED));
    let mut record = marker_field("###TileStartX,Y###");
    record.extend_from_slice(&[0x01, 0x00, 0, 0, 0, 0]);
    record.extend_from_slice(&marker_field("***POIStart***"));
    record.extend_from_slice(&plain_point());
    assert_eq!(decode_tile(&record, 0, &header, 12), Err(MapforgeError::InvalidTilePOISignature));
    assert_eq!(decode_tile(&record, 0, &header, 3), Err(MapforgeError::ZoomNotCovered));
}

#[test]
fn tile_without_debug_flag_reads_no_markers() {
    // every flag but the debug bit is set
    let header = header_with(0x7f, vec![band(12, 12)]);
    let mut record = vec![0x01, 0x00, 0, 0, 0, 0];
    record.extend_from_slice(&plain_point());
    assert_eq!(decode_tile(&record, 0, &header, 12).unwrap().pois, vec![plain_point_value()]);
}

#[test]
fn tile_with_malformed_integer() {
    let header = header_with(0, vec![band(12, 12)]);
    let record = [0x80, 0x80, 0x80, 0x80, 0x80, 0x00, 0, 0, 0, 0, 0];
    assert_eq!(decode_tile(&record, 0, &header, 12), Err(MapforgeError::InvalidVBEInteger));
}

#[test]
fn tile_whose_interval_spans_all_levels() {
    let header = header_with(0, vec![band(0, 255)]);
    let mut record = vec![0u8; 512];
    record[2 * 200] = 1;
    record.extend_from_slice(&[0, 0, 0, 1]);
    record.extend_from_slice(&plain_point());
    let tile = decode_tile(&record, 0, &header, 200).unwrap();
    assert_eq!(tile.zoom_table.len(), 256);
    assert_eq!(tile.pois, vec![plain_point_value()]);
    assert_eq!(decode_tile(&record, 0, &header, 199).unwrap().pois, Vec::new());
}
