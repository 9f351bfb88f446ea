use rasterizer::clip::{clip_plan, EdgeCut};
use rasterizer::topology::Triangle;

fn cut(from: usize, to: usize, from_tex: usize, to_tex: usize) -> EdgeCut {
    EdgeCut { from, to, from_tex, to_tex }
}

#[test]
fn clip_keeps_triangle_wholly_inside() {
    let tris: Vec<Triangle> = vec![(0, 1, 2)];
    let texs: Vec<Triangle> = vec![(3, 4, 5)];
    let plan = clip_plan(&tris, &texs, &vec![true, true, true], 6);
    assert_eq!(plan.pieces.len(), 1);
    assert_eq!(plan.pieces[0].corners, (0, 1, 2));
    assert_eq!(plan.pieces[0].tex, (3, 4, 5));
    assert_eq!(plan.pieces[0].source, 0);
    assert!(plan.cuts.is_empty());
}

#[test]
fn clip_drops_triangle_wholly_outside() {
    let plan = clip_plan(&vec![(0, 1, 2)], &vec![(0, 1, 2)], &vec![false, false, false], 3);
    assert!(plan.pieces.is_empty());
    assert!(plan.cuts.is_empty());
}

#[test]
fn clip_one_corner_inside_gives_one_triangle() {
    // corner 1 (vertex 1) is inside; the others are cut towards it
    let plan = clip_plan(&vec![(0, 1, 2)], &vec![(5, 6, 7)], &vec![false, true, false], 8);
    assert_eq!(plan.pieces.len(), 1);
    assert_eq!(plan.pieces[0].corners, (1, 3, 4));
    assert_eq!(plan.pieces[0].tex, (6, 8, 9));
    assert_eq!(plan.cuts, vec![cut(2, 1, 7, 6), cut(0, 1, 5, 6)]);
}

#[test]
fn clip_two_corners_inside_gives_two_triangles() {
    // corner 2 (vertex 2) is outside
    let plan = clip_plan(&vec![(0, 1, 2)], &vec![(0, 1, 2)], &vec![true, true, false], 3);
    assert_eq!(plan.pieces.len(), 2);
    assert_eq!(plan.pieces[0].corners, (0, 1, 3));
    assert_eq!(plan.pieces[0].tex, (0, 1, 3));
    assert_eq!(plan.pieces[1].corners, (3, 1, 4));
    assert_eq!(plan.pieces[1].tex, (3, 1, 4));
    assert_eq!(plan.cuts, vec![cut(2, 0, 2, 0), cut(2, 1, 2, 1)]);
}

#[test]
fn clip_orders_kept_triangles_before_new_ones() {
    // vertex 3 is outside; triangle 0 crosses, triangle 1 is inside, triangle 2 is outside
    let tris: Vec<Triangle> = vec![(0, 3, 1), (0, 1, 2), (3, 3, 3)];
    let texs: Vec<Triangle> = vec![(0, 0, 0), (1, 1, 1), (2, 2, 2)];
    let plan = clip_plan(&tris, &texs, &vec![true, true, true, false], 3);
    let sources: Vec<usize> = plan.pieces.iter().map(|p| p.source).collect();
    assert_eq!(sources, vec![1, 0, 0]);
    assert_eq!(plan.pieces[0].corners, (0, 1, 2));
    // rotation starts at the outside corner (position 1): (3, 1, 0)
    assert_eq!(plan.pieces[1].corners, (1, 0, 4));
    assert_eq!(plan.pieces[2].corners, (4, 0, 5));
    assert_eq!(plan.cuts, vec![cut(3, 1, 0, 0), cut(3, 0, 0, 0)]);
}

#[test]
fn clip_numbers_new_vertices_in_order() {
    let tris: Vec<Triangle> = vec![(0, 1, 2), (2, 1, 0)];
    let texs: Vec<Triangle> = vec![(0, 1, 2), (2, 1, 0)];
    let plan = clip_plan(&tris, &texs, &vec![true, false, false], 10);
    assert_eq!(plan.pieces.len(), 2);
    assert_eq!(plan.pieces[0].corners, (0, 3, 4));
    assert_eq!(plan.pieces[0].tex, (0, 10, 11));
    assert_eq!(plan.pieces[1].corners, (0, 5, 6));
    assert_eq!(plan.pieces[1].tex, (0, 12, 13));
    assert_eq!(plan.cuts.len(), 4);
}
