use rasterizer::grid::{checkerboard, copy_region, filled, rows_of};

#[test]
fn filled_buffer_has_shape_and_value() {
    let g = filled(3, 2, 7u8);
    assert_eq!(g, vec![vec![7, 7, 7], vec![7, 7, 7]]);
    assert!(filled(0, 0, 1u8).is_empty());
}

#[test]
fn checkerboard_alternates_squares() {
    let g = checkerboard(5, 3, 2, 'a', 'b');
    assert_eq!(g[0], vec!['a', 'a', 'b', 'b', 'a']);
    assert_eq!(g[1], vec!['a', 'a', 'b', 'b', 'a']);
    assert_eq!(g[2], vec!['b', 'b', 'a', 'a', 'b']);
}

#[test]
fn checkerboard_of_single_cells() {
    let g = checkerboard(3, 2, 1, 0u8, 1u8);
    assert_eq!(g, vec![vec![0, 1, 0], vec![1, 0, 1]]);
}

#[test]
fn copy_region_copies_the_overlap() {
    let mut dst = filled(3, 3, 0u8);
    let src = vec![vec![1u8, 2, 3, 4], vec![5, 6, 7, 8]];
    copy_region(&mut dst, 3, 3, &src, 4, 2);
    assert_eq!(dst, vec![vec![1, 2, 3], vec![5, 6, 7], vec![0, 0, 0]]);
}

#[test]
fn rows_of_drops_partial_row() {
    let items = vec![1, 2, 3, 4, 5, 6, 7];
    assert_eq!(rows_of(&items, 3), vec![vec![1, 2, 3], vec![4, 5, 6]]);
    assert_eq!(rows_of(&items, 7), vec![items.clone()]);
    assert!(rows_of(&items, 8).is_empty());
}
