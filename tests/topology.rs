use rasterizer::shading::LightingMode;
use rasterizer::topology::{referenced_vertices, triangles_within, Triangle};

#[test]
fn triangles_within_detects_out_of_range_index() {
    let tris: Vec<Triangle> = vec![(0, 1, 2), (2, 3, 0)];
    assert!(triangles_within(&tris, 4));
    assert!(!triangles_within(&tris, 3));
    assert!(triangles_within(&Vec::new(), 0));
}

#[test]
fn referenced_vertices_marks_corners_only() {
    let tris: Vec<Triangle> = vec![(0, 1, 2), (2, 1, 4)];
    assert_eq!(referenced_vertices(&tris, 6), vec![true, true, true, false, true, false]);
}

#[test]
fn lighting_modes_compare() {
    assert_eq!(LightingMode::Flat, LightingMode::Flat);
    assert_ne!(LightingMode::Smooth, LightingMode::Unlit);
}
