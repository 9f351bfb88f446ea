use rasterizer::mtl::material_fields;
use rasterizer::obj::{material_file, parse_faces, read_face, split_at_byte, ObjError};

#[test]
fn split_keeps_empty_parts() {
    assert_eq!(split_at_byte(b"a  bc", b' '), vec![b"a".to_vec(), vec![], b"bc".to_vec()]);
    assert_eq!(split_at_byte(b"", b'/'), vec![Vec::<u8>::new()]);
    assert_eq!(split_at_byte(b"1//3", b'/'), vec![b"1".to_vec(), vec![], b"3".to_vec()]);
}

#[test]
fn faces_of_vertex_indices_only() {
    let faces = parse_faces("v 0.0 0.0 0.0\nf 1 2 3\nf 3 2 4\n").unwrap();
    assert!(!faces.tex_coords_included);
    assert!(!faces.normals_included);
    assert_eq!(faces.triangles, vec![(0, 1, 2), (2, 1, 3)]);
    assert_eq!(faces.tex_tris, vec![(0, 0, 0), (0, 0, 0)]);
}

#[test]
fn faces_with_texture_and_normals() {
    let faces = parse_faces("f 1/4/1 2/5/2 3/6/3\nf 4/1/4 5/2/5 6/3/6\n").unwrap();
    assert!(faces.tex_coords_included);
    assert!(faces.normals_included);
    assert_eq!(faces.triangles, vec![(0, 1, 2), (3, 4, 5)]);
    assert_eq!(faces.tex_tris, vec![(3, 4, 5), (0, 1, 2)]);
}

#[test]
fn faces_with_normals_only() {
    let faces = parse_faces("f 1//7 2//8 3//9\n").unwrap();
    assert!(!faces.tex_coords_included);
    assert!(faces.normals_included);
    assert_eq!(faces.triangles, vec![(0, 1, 2)]);
    assert_eq!(faces.tex_tris, vec![(0, 0, 0)]);
}

#[test]
fn faces_with_texture_only() {
    let faces = parse_faces("f 1/4 2/5 3/6\n").unwrap();
    assert!(faces.tex_coords_included);
    assert!(!faces.normals_included);
    assert_eq!(faces.tex_tris, vec![(3, 4, 5)]);
}

#[test]
fn faces_errors() {
    assert_eq!(parse_faces("v 1.0 2.0 3.0\n").err(), Some(ObjError::NoFaces));
    assert_eq!(parse_faces("f 0 1 2\n").err(), Some(ObjError::ZeroIndex));
    assert_eq!(parse_faces("f 99999999999999999999999 1 2\n").err(), Some(ObjError::BadIndex));
}

#[test]
fn read_face_line() {
    assert_eq!(read_face(b"f 1/2 3/4 5/6", true), Ok(((0, 2, 4), (1, 3, 5))));
    assert_eq!(read_face(b"f 1/2 3/4 5/6", false), Ok(((0, 2, 4), (0, 0, 0))));
    assert_eq!(read_face(b"f 1 2", false), Err(ObjError::BadIndex));
    assert_eq!(read_face(b"f 1 2 3", true), Err(ObjError::BadIndex));
    assert_eq!(read_face(b"f 1 2 0", false), Err(ObjError::ZeroIndex));
}

#[test]
fn material_library_name() {
    assert_eq!(material_file("# cube\nmtllib cube_1.mtl\nv 1.0 1.0 1.0\n"), Some("cube_1.mtl".to_string()));
    assert_eq!(material_file("v 1.0 1.0 1.0\n"), None);
}

#[test]
fn material_fields_found_and_missing() {
    let text = "newmtl stone\nKa 0.20 0.20 0.20\nKd 0.50 0.40 0.30\nNs 12.5\nmap_Kd granite.ppm\n";
    let f = material_fields(text);
    assert_eq!(f.name.as_deref(), Some("stone"));
    assert_eq!(f.ambient.as_deref(), Some("0.20 0.20 0.20"));
    assert_eq!(f.diffuse.as_deref(), Some("0.50 0.40 0.30"));
    assert_eq!(f.specular, None);
    assert_eq!(f.highlights.as_deref(), Some("12.5"));
    assert_eq!(f.opacity, None);
    assert_eq!(f.texture.as_deref(), Some("granite"));
}
