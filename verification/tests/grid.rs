use mapsforge_rs::grid::TileGrid;
use mapsforge_rs::types::MapFile;

fn grid_of(x_min: i64, x_max: i64, y_min: i64, y_max: i64) -> TileGrid {
    TileGrid { x_min, x_max, y_min, y_max }
}

#[test]
fn total_tiles_is_columns_times_rows() {
    assert_eq!(MapFile::calculate_total_tiles(&grid_of(2048, 2049, 2046, 2047)), 4);
    assert_eq!(MapFile::calculate_total_tiles(&grid_of(10, 14, 3, 5)), 15);
    assert_eq!(MapFile::calculate_total_tiles(&grid_of(7, 7, 9, 9)), 1);
    assert_eq!(MapFile::calculate_total_tiles(&grid_of(-3, 3, -1, 1)), 21);
    assert_eq!(MapFile::calculate_total_tiles(&grid_of(0, 65535, 0, 65534)), 65536 * 65535);
}

#[test]
fn checked_total_tiles_refuses_an_empty_or_oversized_grid() {
    assert_eq!(grid_of(10, 14, 3, 5).checked_total_tiles(), Some(15));
    assert_eq!(grid_of(14, 10, 3, 5).checked_total_tiles(), None);
    assert_eq!(grid_of(10, 14, 5, 3).checked_total_tiles(), None);
    assert_eq!(grid_of(0, 65535, 0, 65535).checked_total_tiles(), None);
    assert_eq!(grid_of(0, u32::MAX as i64 - 1, 0, 0).checked_total_tiles(), Some(u32::MAX));
    assert_eq!(grid_of(i64::MIN, i64::MAX, i64::MIN, i64::MAX).checked_total_tiles(), None);
}

#[test]
fn total_tiles_within_a_limit() {
    let grid = grid_of(0, 9, 0, 9);
    assert_eq!(grid.total_tiles_within(100), Some(100));
    assert_eq!(grid.total_tiles_within(99), None);
    assert_eq!(grid.total_tiles_within(u64::MAX), Some(100));
    assert_eq!(grid_of(0, (1 << 32) - 1, 0, (1 << 31) - 1).total_tiles_within(u64::MAX), Some(1 << 63));
    assert_eq!(grid_of(i64::MIN, i64::MAX, 0, 0).total_tiles_within(u64::MAX), None);
    assert_eq!(grid_of(i64::MIN, i64::MAX, i64::MIN, i64::MAX).total_tiles_within(u64::MAX), None);
}

#[test]
fn check_valid_wants_one_column_and_one_row() {
    assert!(grid_of(1, 1, 1, 1).check_valid());
    assert!(grid_of(-5, 5, -5, 5).check_valid());
    assert!(!grid_of(2, 1, 1, 1).check_valid());
    assert!(!grid_of(1, 1, 2, 1).check_valid());
}

#[test]
fn entry_index_numbers_the_grid_row_by_row() {
    let grid = grid_of(100, 102, 50, 51);
    assert_eq!(grid.entry_index(100, 50, 6), Some(0));
    assert_eq!(grid.entry_index(101, 50, 6), Some(1));
    assert_eq!(grid.entry_index(102, 50, 6), Some(2));
    assert_eq!(grid.entry_index(100, 51, 6), Some(3));
    assert_eq!(grid.entry_index(101, 51, 6), Some(4));
    assert_eq!(grid.entry_index(102, 51, 6), Some(5));
}

#[test]
fn entry_index_outside_the_index_is_none() {
    let grid = grid_of(100, 102, 50, 51);
    assert_eq!(grid.entry_index(100, 49, 6), None);
    assert_eq!(grid.entry_index(102, 49, 6), None);
    assert_eq!(grid.entry_index(100, 52, 6), None);
    assert_eq!(grid.entry_index(99, 50, 6), None);
    assert_eq!(grid.entry_index(103, 51, 6), None);
    assert_eq!(grid.entry_index(101, 51, 4), None);
    assert_eq!(grid.entry_index(100, 50, 0), None);
}

#[test]
fn entry_index_follows_the_formula_past_the_end_of_a_row() {
    let grid = grid_of(100, 102, 50, 51);
    assert_eq!(grid.entry_index(103, 50, 6), Some(3));
    assert_eq!(grid.entry_index(99, 51, 6), Some(2));
}

#[test]
fn entry_index_survives_extreme_coordinates() {
    let whole = grid_of(i64::MIN, i64::MAX, i64::MIN, i64::MAX);
    assert_eq!(whole.entry_index(i64::MIN, i64::MIN, 10), Some(0));
    assert_eq!(whole.entry_index(i64::MIN + 9, i64::MIN, 10), Some(9));
    assert_eq!(whole.entry_index(i64::MAX, i64::MAX, usize::MAX), None);
    assert_eq!(whole.entry_index(0, 0, usize::MAX), None);
    let thin = grid_of(i64::MIN, i64::MIN, 0, i64::MAX);
    assert_eq!(thin.entry_index(i64::MIN, 7, 8), Some(7));
    assert_eq!(thin.entry_index(i64::MAX, -1, usize::MAX), Some(usize::MAX - 1));
    let inverted = grid_of(5, 3, 0, 0);
    assert_eq!(inverted.entry_index(6, -1, 4), Some(2));
}
