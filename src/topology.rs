//! Index topology of a triangle mesh: each triangle is a triple of indices
//! into an arena of vertices (or of texture coordinates).
use vstd::prelude::*;

verus! {

/// Three corner indices, in clockwise order as seen from the camera.
pub type Triangle = (usize, usize, usize);

/// Every corner of `t` indexes an arena of `n` entries.
pub open spec fn tri_within(t: Triangle, n: nat) -> bool {
    t.0 < n && t.1 < n && t.2 < n
}

/// Every triangle of `tris` indexes an arena of `n` entries.
pub open spec fn all_within(tris: Seq<Triangle>, n: nat) -> bool {
    forall|i: int| 0 <= i < tris.len() ==> #[trigger] tri_within(tris[i], n)
}

/// `v` is one of the corners of `t`.
pub open spec fn is_corner(t: Triangle, v: int) -> bool {
    t.0 == v || t.1 == v || t.2 == v
}

/// Whether every triangle indexes an arena of `n` entries.
pub fn triangles_within(tris: &Vec<Triangle>, n: usize) -> (r: bool)
    ensures
        r == all_within(tris@, n as nat),
{
    let mut i: usize = 0;
    while i < tris.len()
        invariant
            i <= tris.len(),
            all_within(tris@.take(i as int), n as nat),
        decreases tris.len() - i,
    {
        let t = tris[i];
        if !(t.0 < n && t.1 < n && t.2 < n) {
            assert(!tri_within(tris@[i as int], n as nat));
            return false;
        }
        assert(tris@.take(i as int + 1) =~= tris@.take(i as int).push(t));
        i += 1;
    }
    assert(tris@.take(i as int) =~= tris@);
    true
}

/// For each of `n` vertices, whether some triangle has it as a corner.
/// A vertex that no triangle uses gets no normal from its neighbours.
pub fn referenced_vertices(tris: &Vec<Triangle>, n: usize) -> (r: Vec<bool>)
    requires
        all_within(tris@, n as nat),
    ensures
        r@.len() == n,
        forall|v: int|
            0 <= v < n ==> #[trigger] r@[v] == exists|i: int|
                0 <= i < tris.len() && #[trigger] is_corner(tris@[i], v),
{
    let mut r: Vec<bool> = Vec::new();
    let mut v: usize = 0;
    while v < n
        invariant
            v <= n,
            r@.len() == v,
            forall|u: int| 0 <= u < v ==> r@[u] == false,
        decreases n - v,
    {
        r.push(false);
        v += 1;
    }
    let mut i: usize = 0;
    while i < tris.len()
        invariant
            i <= tris.len(),
            r@.len() == n,
            all_within(tris@, n as nat),
            forall|u: int|
                0 <= u < n ==> #[trigger] r@[u] == exists|j: int|
                    0 <= j < i && #[trigger] is_corner(tris@[j], u),
        decreases tris.len() - i,
    {
        let t = tris[i];
        assert(tri_within(tris@[i as int], n as nat));
        let ghost prev = r@;
        r.set(t.0, true);
        r.set(t.1, true);
        r.set(t.2, true);
        assert forall|u: int| 0 <= u < n implies #[trigger] r@[u] == exists|j: int|
            0 <= j < i + 1 && #[trigger] is_corner(tris@[j], u) by {
            if is_corner(tris@[i as int], u) {
                assert(r@[u]);
            } else {
                assert(r@[u] == prev[u]);
                if exists|j: int| 0 <= j < i + 1 && #[trigger] is_corner(tris@[j], u) {
                    let j = choose|j: int| 0 <= j < i + 1 && #[trigger] is_corner(tris@[j], u);
                    assert(j < i);
                }
            }
        }
        i += 1;
    }
    r
}

} // verus!
