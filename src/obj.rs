//! Reading the faces of Wavefront OBJ text: which attributes a face carries,
//! and each face's vertex and texture-coordinate indices.
use vstd::prelude::*;
use vstd::string::StringSliceAdditionalSpecFns;
use vstd::utf8::encode_utf8;
use crate::ppm::{number_in, parse_number};
use crate::search::{all_matches, find_all, find_first, find_group, first_group, first_match};
use crate::topology::Triangle;

verus! {

/// The first face line, with the texture and normal indices of its first
/// corner (each empty where the face has none).
pub const OBJ_FACE_FORMAT: &'static str = "f [0-9]+/?(?<tx>[0-9]*)/?(?<vn>[0-9]*)";

/// A face of three corners of vertex indices only.
pub const OBJ_FACE_V: &'static str = "f [0-9]+ [0-9]+ [0-9]+";

/// A face of three corners of vertex and texture-coordinate indices.
pub const OBJ_FACE_VT: &'static str = "f [0-9]+/[0-9]+ [0-9]+/[0-9]+ [0-9]+/[0-9]+";

/// A face of three corners of vertex and normal indices.
pub const OBJ_FACE_VN: &'static str = "f [0-9]+//[0-9]+ [0-9]+//[0-9]+ [0-9]+//[0-9]+";

/// A face of three corners of vertex, texture-coordinate and normal indices.
pub const OBJ_FACE_VTN: &'static str = "f [0-9]+/[0-9]+/[0-9]+ [0-9]+/[0-9]+/[0-9]+ [0-9]+/[0-9]+/[0-9]+";

/// The pattern of the faces that carry texture coordinates (`tex`) and
/// normals (`norm`) or not.
pub open spec fn face_pattern(tex: bool, norm: bool) -> Seq<char> {
    if tex && norm {
        OBJ_FACE_VTN@
    } else if tex {
        OBJ_FACE_VT@
    } else if norm {
        OBJ_FACE_VN@
    } else {
        OBJ_FACE_V@
    }
}

/// The parts of `b` between occurrences of `sep`, as `str::split` gives them.
pub open spec fn split_bytes(b: Seq<u8>, sep: u8) -> Seq<Seq<u8>>
    decreases b.len(),
{
    if b.len() == 0 {
        seq![seq![]]
    } else {
        let rest = split_bytes(b.drop_last(), sep);
        if b.last() == sep {
            rest.push(seq![])
        } else {
            rest.update(rest.len() - 1, rest.last().push(b.last()))
        }
    }
}

/// The contents of each vector.
pub open spec fn byte_views(v: Seq<Vec<u8>>) -> Seq<Seq<u8>> {
    v.map_values(|x: Vec<u8>| x@)
}

proof fn lemma_split_nonempty(b: Seq<u8>, sep: u8)
    ensures
        split_bytes(b, sep).len() >= 1,
    decreases b.len(),
{
    if b.len() > 0 {
        lemma_split_nonempty(b.drop_last(), sep);
    }
}

/// Splits `b` at each occurrence of `sep`.
pub fn split_at_byte(b: &[u8], sep: u8) -> (r: Vec<Vec<u8>>)
    ensures
        byte_views(r@) == split_bytes(b@, sep),
{
    let mut parts: Vec<Vec<u8>> = Vec::new();
    let mut cur: Vec<u8> = Vec::new();
    let mut i: usize = 0;
    assert(b@.take(0) =~= seq![]);
    assert(byte_views(parts@).push(cur@) =~= split_bytes(b@.take(0), sep));
    while i < b.len()
        invariant
            i <= b@.len(),
            byte_views(parts@).push(cur@) == split_bytes(b@.take(i as int), sep),
        decreases b.len() - i,
    {
        let c = b[i];
        let ghost before = split_bytes(b@.take(i as int), sep);
        assert(b@.take(i as int + 1).drop_last() =~= b@.take(i as int));
        if c == sep {
            parts.push(cur);
            cur = Vec::new();
            assert(byte_views(parts@).push(cur@) =~= before.push(seq![]));
        } else {
            let ghost old_parts = parts@;
            cur.push(c);
            assert(byte_views(parts@).push(cur@) =~= before.update(
                before.len() - 1,
                before.last().push(c),
            ));
        }
        i += 1;
    }
    assert(b@.take(i as int) =~= b@);
    parts.push(cur);
    assert(byte_views(parts@) =~= split_bytes(b@, sep));
    parts
}

/// The material library that OBJ text names.
pub const OBJ_MTLLIB: &'static str = "mtllib (?<mtlfile>[a-zA-Z0-9_-]+.mtl)";

/// Why the faces of OBJ text could not be read.
#[derive(Clone, Copy, Debug, PartialEq, Eq, Structural)]
pub enum ObjError {
    /// No face line was found.
    NoFaces,
    /// A face index is missing or does not fit a `usize`.
    BadIndex,
    /// A face index is zero; indices count from one.
    ZeroIndex,
}

/// The faces of a mesh: whether they carry texture coordinates and normals,
/// and for each face its vertex indices and its texture-coordinate indices,
/// counted from zero.
pub struct ObjFaces {
    pub tex_coords_included: bool,
    pub normals_included: bool,
    pub triangles: Vec<Triangle>,
    pub tex_tris: Vec<Triangle>,
}

/// The vertex number and texture-coordinate number (both counted from one)
/// of a face corner such as `7/3/5`; where the faces carry no texture
/// coordinates (`tex` false), the texture-coordinate number is 1.
pub open spec fn corner_numbers(tok: Seq<u8>, tex: bool) -> Option<(usize, usize)> {
    let d = split_bytes(tok, 47u8);
    if number_in(d[0]).is_none() {
        None
    } else if !tex {
        Some((number_in(d[0]).unwrap(), 1usize))
    } else if d.len() < 2 || number_in(d[1]).is_none() {
        None
    } else {
        Some((number_in(d[0]).unwrap(), number_in(d[1]).unwrap()))
    }
}

/// The vertex and texture-coordinate triangles of a face line `m` such as
/// `f 1/1 2/2 3/3`: every corner after the `f` must read, the first three
/// make the face.
pub open spec fn face_read(m: Seq<u8>, tex: bool) -> Result<(Triangle, Triangle), ObjError> {
    let toks = split_bytes(m, 32u8).drop_first();
    if exists|i: int| 0 <= i < toks.len() && (#[trigger] corner_numbers(toks[i], tex)).is_none() {
        Err(ObjError::BadIndex)
    } else if toks.len() < 3 {
        Err(ObjError::BadIndex)
    } else {
        let a = corner_numbers(toks[0], tex).unwrap();
        let b = corner_numbers(toks[1], tex).unwrap();
        let c = corner_numbers(toks[2], tex).unwrap();
        if a.0 == 0 || b.0 == 0 || c.0 == 0 || a.1 == 0 || b.1 == 0 || c.1 == 0 {
            Err(ObjError::ZeroIndex)
        } else {
            Ok(
                (
                    ((a.0 - 1) as usize, (b.0 - 1) as usize, (c.0 - 1) as usize),
                    ((a.1 - 1) as usize, (b.1 - 1) as usize, (c.1 - 1) as usize),
                ),
            )
        }
    }
}

/// The face that the groups `m` of a face match give.
pub open spec fn match_face(m: Seq<Seq<char>>, tex: bool) -> Result<(Triangle, Triangle), ObjError> {
    if m.len() < 1 {
        Err(ObjError::BadIndex)
    } else {
        face_read(encode_utf8(m[0]), tex)
    }
}

/// Whether the faces of the text with UTF-8 bytes `bytes` carry texture
/// coordinates and normals, as its first face line shows; `None` where it
/// has none.
pub open spec fn face_format(bytes: Seq<u8>) -> Option<(bool, bool)> {
    let g = first_match(OBJ_FACE_FORMAT@, bytes);
    if g.is_none() || g.unwrap().len() < 3 {
        None
    } else {
        Some((g.unwrap()[1].len() != 0, g.unwrap()[2].len() != 0))
    }
}

fn read_corner(tok: &[u8], tex: bool) -> (r: Option<(usize, usize)>)
    ensures
        r == corner_numbers(tok@, tex),
{
    let d = split_at_byte(tok, 47u8);
    proof {
        lemma_split_nonempty(tok@, 47u8);
        assert(d@[0]@ == split_bytes(tok@, 47u8)[0]);
    }
    let v = match parse_number(d[0].as_slice()) {
        Some(v) => v,
        None => return None,
    };
    if !tex {
        return Some((v, 1));
    }
    if d.len() < 2 {
        return None;
    }
    assert(d@[1]@ == split_bytes(tok@, 47u8)[1]);
    let u = match parse_number(d[1].as_slice()) {
        Some(u) => u,
        None => return None,
    };
    Some((v, u))
}

/// Reads one face line such as `f 1/1 2/2 3/3`.
pub fn read_face(m: &[u8], tex: bool) -> (r: Result<(Triangle, Triangle), ObjError>)
    ensures
        r == face_read(m@, tex),
{
    let toks = split_at_byte(m, 32u8);
    let ghost rest = split_bytes(m@, 32u8).drop_first();
    proof {
        lemma_split_nonempty(m@, 32u8);
    }
    let mut cs: Vec<(usize, usize)> = Vec::new();
    let mut i: usize = 1;
    while i < toks.len()
        invariant
            1 <= i <= toks@.len(),
            byte_views(toks@) == split_bytes(m@, 32u8),
            rest == split_bytes(m@, 32u8).drop_first(),
            cs@.len() == i - 1,
            forall|k: int| 0 <= k < i - 1 ==> corner_numbers(rest[k], tex) == Some(#[trigger] cs@[k]),
        decreases toks.len() - i,
    {
        assert(toks@[i as int]@ == rest[i - 1]);
        match read_corner(toks[i].as_slice(), tex) {
            Some(c) => cs.push(c),
            None => {
                assert(corner_numbers(rest[i - 1], tex).is_none());
                return Err(ObjError::BadIndex);
            },
        }
        i += 1;
    }
    assert forall|k: int| 0 <= k < rest.len() implies (#[trigger] corner_numbers(rest[k], tex)).is_some() by {
        assert(corner_numbers(rest[k], tex) == Some(cs@[k]));
    }
    if cs.len() < 3 {
        return Err(ObjError::BadIndex);
    }
    let (a, b, c) = (cs[0], cs[1], cs[2]);
    assert(corner_numbers(rest[0], tex) == Some(a));
    assert(corner_numbers(rest[1], tex) == Some(b));
    assert(corner_numbers(rest[2], tex) == Some(c));
    if a.0 == 0 || b.0 == 0 || c.0 == 0 || a.1 == 0 || b.1 == 0 || c.1 == 0 {
        return Err(ObjError::ZeroIndex);
    }
    Ok(((a.0 - 1, b.0 - 1, c.0 - 1), (a.1 - 1, b.1 - 1, c.1 - 1)))
}

/// The name of the material library that OBJ text names, if any.
pub fn material_file(text: &str) -> (r: Option<String>)
    ensures
        r.is_some() == first_group(OBJ_MTLLIB@, text.spec_bytes()).is_some(),
        r.is_some() ==> r.unwrap()@ == first_group(OBJ_MTLLIB@, text.spec_bytes()).unwrap(),
{
    find_group(OBJ_MTLLIB, text)
}

/// Reads the faces of OBJ text. The first face line decides whether faces
/// carry texture coordinates and normals; then every face line of that form
/// is read, in order. The result's indices count from zero.
#[verifier::loop_isolation(false)]
pub fn parse_faces(text: &str) -> (r: Result<ObjFaces, ObjError>)
    ensures
        face_format(text.spec_bytes()).is_none() <==> r == Err::<ObjFaces, ObjError>(ObjError::NoFaces),
        face_format(text.spec_bytes()).is_some() ==> ({
            let (tex, norm) = face_format(text.spec_bytes()).unwrap();
            let ms = all_matches(face_pattern(tex, norm), text.spec_bytes());
            &&& r is Ok <==> forall|i: int| 0 <= i < ms.len() ==> (#[trigger] match_face(ms[i], tex)) is Ok
            &&& r is Ok ==> ({
                let f = r->Ok_0;
                &&& f.tex_coords_included == tex
                &&& f.normals_included == norm
                &&& f.triangles@.len() == ms.len()
                &&& f.tex_tris@.len() == ms.len()
                &&& forall|i: int|
                    0 <= i < ms.len() ==> match_face(ms[i], tex) == Ok::<(Triangle, Triangle), ObjError>(
                        (#[trigger] f.triangles@[i], f.tex_tris@[i]),
                    )
            })
            &&& r is Err ==> exists|i: int|
                0 <= i < ms.len() && match_face(ms[i], tex) == Err::<(Triangle, Triangle), ObjError>(r->Err_0)
                    && forall|j: int| 0 <= j < i ==> (#[trigger] match_face(ms[j], tex)) is Ok
        }),
{
    let format = match find_first(OBJ_FACE_FORMAT, text) {
        Some(g) => g,
        None => return Err(ObjError::NoFaces),
    };
    if format.len() < 3 {
        return Err(ObjError::NoFaces);
    }
    let tex = !format[1].as_str().is_empty();
    let norm = !format[2].as_str().is_empty();
    proof {
        let g = first_match(OBJ_FACE_FORMAT@, text.spec_bytes()).unwrap();
        assert(g[1] == format@[1]@);
        assert(g[2] == format@[2]@);
    }
    let pattern = if tex && norm {
        OBJ_FACE_VTN
    } else if tex {
        OBJ_FACE_VT
    } else if norm {
        OBJ_FACE_VN
    } else {
        OBJ_FACE_V
    };
    let matches = find_all(pattern, text);
    let ghost ms = all_matches(face_pattern(tex, norm), text.spec_bytes());
    let mut triangles: Vec<Triangle> = Vec::new();
    let mut tex_tris: Vec<Triangle> = Vec::new();
    let mut i: usize = 0;
    while i < matches.len()
        invariant
            i <= matches@.len(),
            matches@.len() == ms.len(),
            forall|k: int|
                0 <= k < matches@.len() ==> (#[trigger] matches@[k]@).map_values(|s: String| s@) == ms[k],
            triangles@.len() == i,
            tex_tris@.len() == i,
            forall|k: int|
                0 <= k < i ==> match_face(ms[k], tex) == Ok::<(Triangle, Triangle), ObjError>(
                    (#[trigger] triangles@[k], tex_tris@[k]),
                ),
        decreases matches.len() - i,
    {
        let m = &matches[i];
        if m.len() < 1 {
            assert(match_face(ms[i as int], tex) == Err::<(Triangle, Triangle), ObjError>(ObjError::BadIndex));
            assert forall|j: int| 0 <= j < i implies (#[trigger] match_face(ms[j], tex)) is Ok by {
                assert(match_face(ms[j], tex) == Ok::<(Triangle, Triangle), ObjError>((triangles@[j], tex_tris@[j])));
            }
            return Err(ObjError::BadIndex);
        }
        assert(ms[i as int][0] == m@[0]@);
        match read_face(m[0].as_str().as_bytes(), tex) {
            Ok((t, x)) => {
                triangles.push(t);
                tex_tris.push(x);
            },
            Err(e) => {
                assert forall|j: int| 0 <= j < i implies (#[trigger] match_face(ms[j], tex)) is Ok by {
                    assert(match_face(ms[j], tex) == Ok::<(Triangle, Triangle), ObjError>((triangles@[j], tex_tris@[j])));
                }
                return Err(e);
            },
        }
        i += 1;
    }
    assert forall|k: int| 0 <= k < ms.len() implies (#[trigger] match_face(ms[k], tex)) is Ok by {
        assert(match_face(ms[k], tex) == Ok::<(Triangle, Triangle), ObjError>((triangles@[k], tex_tris@[k])));
    }
    Ok(ObjFaces { tex_coords_included: tex, normals_included: norm, triangles, tex_tris })
}

} // verus!
