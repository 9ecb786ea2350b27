use mapsforge_rs::bytes::{
    debug_signature, expect_signature, text_is_marker, POI_SIGNATURE, POI_SIGNATURE_WIDTH,
    TILE_INDEX_SIGNATURE, TILE_INDEX_SIGNATURE_WIDTH, TILE_SIGNATURE, TILE_SIGNATURE_WIDTH,
};
use mapsforge_rs::error::{IoErrorKind, MapforgeError};

const CUT_OFF: MapforgeError = MapforgeError::Io(IoErrorKind::UnexpectedEof);

fn padded(text: &str, width: usize) -> Vec<u8> {
    let mut field = text.as_bytes().to_vec();
    while field.len() < width {
        field.push(b' ');
    }
    field
}

#[test]
fn markers_and_widths() {
    assert_eq!(TILE_INDEX_SIGNATURE, "+++IndexStart+++");
    assert_eq!(TILE_SIGNATURE, "###TileStartX,Y###");
    assert_eq!(POI_SIGNATURE, "***POIStartX***");
    assert_eq!(TILE_INDEX_SIGNATURE_WIDTH, 16);
    assert_eq!(TILE_SIGNATURE_WIDTH, 32);
    assert_eq!(POI_SIGNATURE_WIDTH, 32);
}

#[test]
fn text_is_marker_compares_whole_texts() {
    assert!(text_is_marker("abc", "abc"));
    assert!(text_is_marker("", ""));
    assert!(!text_is_marker("abc", "abd"));
    assert!(!text_is_marker("abc", "abcd"));
    assert!(!text_is_marker(" abc", "abc"));
}

#[test]
fn signature_field_is_trimmed_before_it_is_compared() {
    let field = padded(TILE_SIGNATURE, 32);
    assert_eq!(
        expect_signature(&field, 0, 32, TILE_SIGNATURE, MapforgeError::InvalidTileSignature),
        Ok(32)
    );
    let mut leading = b"   \t\n ".to_vec();
    leading.extend_from_slice(TILE_SIGNATURE.as_bytes());
    let leading = padded(std::str::from_utf8(&leading).unwrap(), 32);
    assert_eq!(
        expect_signature(&leading, 0, 32, TILE_SIGNATURE, MapforgeError::InvalidTileSignature),
        Ok(32)
    );
}

#[test]
fn signature_field_with_untrimmed_text_is_a_mismatch() {
    let field = padded("###TileStart12,7###", 32);
    assert_eq!(
        expect_signature(&field, 0, 32, TILE_SIGNATURE, MapforgeError::InvalidTileSignature),
        Err(MapforgeError::InvalidTileSignature)
    );
    let zeros = {
        let mut f = TILE_SIGNATURE.as_bytes().to_vec();
        f.resize(32, 0);
        f
    };
    assert_eq!(
        expect_signature(&zeros, 0, 32, TILE_SIGNATURE, MapforgeError::InvalidTileSignature),
        Err(MapforgeError::InvalidTileSignature)
    );
    let blank = padded("", 32);
    assert_eq!(
        expect_signature(&blank, 0, 32, POI_SIGNATURE, MapforgeError::InvalidTilePOISignature),
        Err(MapforgeError::InvalidTilePOISignature)
    );
}

#[test]
fn signature_field_that_is_not_text_is_a_mismatch() {
    let mut field = padded(POI_SIGNATURE, 32);
    field[31] = 0xff;
    assert_eq!(
        expect_signature(&field, 0, 32, POI_SIGNATURE, MapforgeError::InvalidTilePOISignature),
        Err(MapforgeError::InvalidTilePOISignature)
    );
}

#[test]
fn signature_field_is_read_at_the_position() {
    let mut data = vec![1u8, 2, 3];
    data.extend_from_slice(&padded(POI_SIGNATURE, 32));
    data.push(9);
    assert_eq!(
        expect_signature(&data, 3, 32, POI_SIGNATURE, MapforgeError::InvalidTilePOISignature),
        Ok(35)
    );
    assert_eq!(
        expect_signature(&data, 4, 32, POI_SIGNATURE, MapforgeError::InvalidTilePOISignature),
        Err(MapforgeError::InvalidTilePOISignature)
    );
    assert_eq!(
        expect_signature(&data, 5, 32, POI_SIGNATURE, MapforgeError::InvalidTilePOISignature),
        Err(CUT_OFF)
    );
    assert_eq!(
        expect_signature(&data, 99, 32, POI_SIGNATURE, MapforgeError::InvalidTilePOISignature),
        Err(CUT_OFF)
    );
}

#[test]
fn debug_signature_reads_nothing_without_debug_fields() {
    let data = [0u8; 4];
    assert_eq!(
        debug_signature(&data, 2, false, 32, TILE_SIGNATURE, MapforgeError::InvalidTileSignature),
        Ok(2)
    );
    assert_eq!(
        debug_signature(&data, 2, true, 32, TILE_SIGNATURE, MapforgeError::InvalidTileSignature),
        Err(CUT_OFF)
    );
    let field = padded(TILE_INDEX_SIGNATURE, 16);
    assert_eq!(
        debug_signature(
            &field,
            0,
            true,
            16,
            TILE_INDEX_SIGNATURE,
            MapforgeError::InvalidTileIndexSignature
        ),
        Ok(16)
    );
}
