//! Clipping a mesh's triangles against a plane, on indices. Which side of the
//! plane each vertex lies on is given; the result says which triangles stay,
//! which new triangles replace the ones that cross the plane, and where each
//! new vertex lies (on an edge from an outside vertex to an inside one).
use vstd::prelude::*;
use crate::topology::{Triangle, tri_within, all_within};

verus! {

/// A new vertex on the edge from vertex `from` (outside the plane) to vertex
/// `to` (inside), with its texture coordinate on the edge from `from_tex` to
/// `to_tex`. Position, normal and texture coordinate all take the same
/// interpolation factor, the one at which the edge meets the plane.
#[derive(Clone, Copy, Debug, PartialEq, Eq, Structural)]
pub struct EdgeCut {
    pub from: usize,
    pub to: usize,
    pub from_tex: usize,
    pub to_tex: usize,
}

/// One triangle of a clipped mesh: its corners, its texture corners, and the
/// triangle of the unclipped mesh whose face normal it keeps.
#[derive(Clone, Copy, Debug)]
pub struct Piece {
    pub corners: Triangle,
    pub tex: Triangle,
    pub source: usize,
}

/// The outcome of clipping: the triangles of the clipped mesh in order, and
/// the new vertices, which are appended to the vertex arena (and, in the same
/// order, to the texture-coordinate arena).
pub struct ClipPlan {
    pub pieces: Vec<Piece>,
    pub cuts: Vec<EdgeCut>,
}

/// Corner `k` (0, 1 or 2) of `t`.
pub open spec fn corner(t: Triangle, k: int) -> usize {
    if k == 0 {
        t.0
    } else if k == 1 {
        t.1
    } else {
        t.2
    }
}

/// How many corners of `t` lie inside the plane.
pub open spec fn inside_count(t: Triangle, inside: Seq<bool>) -> nat {
    (if inside[t.0 as int] { 1nat } else { 0nat }) + (if inside[t.1 as int] { 1nat } else { 0nat })
        + (if inside[t.2 as int] { 1nat } else { 0nat })
}

/// The position of the corner on its own side of the plane, when the other
/// two share a side: the one inside when one is, the one outside when two are.
pub open spec fn lone_corner(t: Triangle, inside: Seq<bool>) -> int {
    if inside[t.1 as int] == inside[t.2 as int] {
        0
    } else if inside[t.0 as int] == inside[t.2 as int] {
        1
    } else {
        2
    }
}

/// The cut on the edge from corner `a` to corner `b` of a triangle.
pub open spec fn cut_between(t: Triangle, tex: Triangle, a: int, b: int) -> EdgeCut {
    EdgeCut { from: corner(t, a), to: corner(t, b), from_tex: corner(tex, a), to_tex: corner(tex, b) }
}

/// The new vertices that clipping one triangle makes. The corners after the
/// lone one are taken in turn, which keeps the triangle's winding.
pub open spec fn tri_cuts(t: Triangle, tex: Triangle, inside: Seq<bool>) -> Seq<EdgeCut> {
    let k = lone_corner(t, inside);
    let (p, q) = ((k + 1) % 3, (k + 2) % 3);
    if inside_count(t, inside) == 1 {
        seq![cut_between(t, tex, p, k), cut_between(t, tex, q, k)]
    } else if inside_count(t, inside) == 2 {
        seq![cut_between(t, tex, k, p), cut_between(t, tex, k, q)]
    } else {
        seq![]
    }
}

/// The triangles that replace triangle number `s` when it crosses the plane;
/// its two new vertices have indices `nv` and `nv + 1`, their texture
/// coordinates `nt` and `nt + 1`.
pub open spec fn tri_pieces(
    t: Triangle,
    tex: Triangle,
    inside: Seq<bool>,
    nv: usize,
    nt: usize,
    s: usize,
) -> Seq<Piece> {
    let k = lone_corner(t, inside);
    let (p, q) = ((k + 1) % 3, (k + 2) % 3);
    if inside_count(t, inside) == 1 {
        seq![
            Piece {
                corners: (corner(t, k), nv, (nv + 1) as usize),
                tex: (corner(tex, k), nt, (nt + 1) as usize),
                source: s,
            },
        ]
    } else if inside_count(t, inside) == 2 {
        seq![
            Piece { corners: (corner(t, p), corner(t, q), nv), tex: (corner(tex, p), corner(tex, q), nt), source: s },
            Piece {
                corners: (nv, corner(t, q), (nv + 1) as usize),
                tex: (nt, corner(tex, q), (nt + 1) as usize),
                source: s,
            },
        ]
    } else {
        seq![]
    }
}

/// The new vertices made by the first `n` triangles, in order.
pub open spec fn cuts_upto(tris: Seq<Triangle>, texs: Seq<Triangle>, inside: Seq<bool>, n: nat) -> Seq<
    EdgeCut,
>
    decreases n,
{
    if n == 0 {
        seq![]
    } else {
        cuts_upto(tris, texs, inside, (n - 1) as nat) + tri_cuts(
            tris[n - 1],
            texs[n - 1],
            inside,
        )
    }
}

/// The triangles among the first `n` that lie wholly inside, unchanged.
pub open spec fn kept_upto(tris: Seq<Triangle>, texs: Seq<Triangle>, inside: Seq<bool>, n: nat) -> Seq<
    Piece,
>
    decreases n,
{
    if n == 0 {
        seq![]
    } else {
        kept_upto(tris, texs, inside, (n - 1) as nat) + if inside_count(tris[n - 1], inside) == 3 {
            seq![Piece { corners: tris[n - 1], tex: texs[n - 1], source: (n - 1) as usize }]
        } else {
            seq![]
        }
    }
}

/// The triangles that replace those among the first `n` that cross the plane,
/// for a mesh of `nv` vertices and `nt` texture coordinates.
pub open spec fn made_upto(
    tris: Seq<Triangle>,
    texs: Seq<Triangle>,
    inside: Seq<bool>,
    nv: nat,
    nt: nat,
    n: nat,
) -> Seq<Piece>
    decreases n,
{
    if n == 0 {
        seq![]
    } else {
        let c = cuts_upto(tris, texs, inside, (n - 1) as nat).len();
        made_upto(tris, texs, inside, nv, nt, (n - 1) as nat) + tri_pieces(
            tris[n - 1],
            texs[n - 1],
            inside,
            (nv + c) as usize,
            (nt + c) as usize,
            (n - 1) as usize,
        )
    }
}

/// The triangles of the clipped mesh: first those wholly inside, in their
/// order, then the replacements of those that cross the plane, in order.
pub open spec fn clip_pieces(tris: Seq<Triangle>, texs: Seq<Triangle>, inside: Seq<bool>, nt: nat) -> Seq<
    Piece,
> {
    kept_upto(tris, texs, inside, tris.len()) + made_upto(
        tris,
        texs,
        inside,
        inside.len(),
        nt,
        tris.len(),
    )
}

/// The new vertices of the clipped mesh, in order.
pub open spec fn clip_cuts(tris: Seq<Triangle>, texs: Seq<Triangle>, inside: Seq<bool>) -> Seq<EdgeCut> {
    cuts_upto(tris, texs, inside, tris.len())
}

proof fn lemma_cuts_len(tris: Seq<Triangle>, texs: Seq<Triangle>, inside: Seq<bool>, n: nat)
    ensures
        cuts_upto(tris, texs, inside, n).len() <= 2 * n,
    decreases n,
{
    if n > 0 {
        lemma_cuts_len(tris, texs, inside, (n - 1) as nat);
    }
}

fn corner_at(t: Triangle, k: usize) -> (r: usize)
    requires
        k < 3,
    ensures
        r == corner(t, k as int),
{
    if k == 0 {
        t.0
    } else if k == 1 {
        t.1
    } else {
        t.2
    }
}

fn cut_at(t: Triangle, tex: Triangle, a: usize, b: usize) -> (r: EdgeCut)
    requires
        a < 3,
        b < 3,
    ensures
        r == cut_between(t, tex, a as int, b as int),
{
    EdgeCut { from: corner_at(t, a), to: corner_at(t, b), from_tex: corner_at(tex, a), to_tex: corner_at(tex, b) }
}

/// Clips every triangle against a plane, given for each vertex of the mesh
/// whether it lies inside (`inside`, one flag per vertex). A triangle with no
/// corner inside is dropped; one with all three inside stays as it is; one
/// with one corner inside becomes one triangle, one with two inside becomes
/// two, on two new vertices each. New vertices are numbered after the mesh's
/// own, and their texture coordinates after the mesh's `tex_count` ones.
pub fn clip_plan(tris: &Vec<Triangle>, texs: &Vec<Triangle>, inside: &Vec<bool>, tex_count: usize) -> (plan:
    ClipPlan)
    requires
        texs.len() == tris.len(),
        all_within(tris@, inside.len() as nat),
        inside.len() + 2 * tris.len() <= usize::MAX,
        tex_count + 2 * tris.len() <= usize::MAX,
    ensures
        plan.pieces@ == clip_pieces(tris@, texs@, inside@, tex_count as nat),
        plan.cuts@ == clip_cuts(tris@, texs@, inside@),
{
    let nv = inside.len();
    let mut kept: Vec<Piece> = Vec::new();
    let mut made: Vec<Piece> = Vec::new();
    let mut cuts: Vec<EdgeCut> = Vec::new();
    let mut t: usize = 0;
    while t < tris.len()
        invariant
            t <= tris.len(),
            texs.len() == tris.len(),
            nv == inside.len(),
            all_within(tris@, nv as nat),
            nv + 2 * tris.len() <= usize::MAX,
            tex_count + 2 * tris.len() <= usize::MAX,
            kept@ == kept_upto(tris@, texs@, inside@, t as nat),
            made@ == made_upto(tris@, texs@, inside@, nv as nat, tex_count as nat, t as nat),
            cuts@ == cuts_upto(tris@, texs@, inside@, t as nat),
        decreases tris.len() - t,
    {
        proof {
            lemma_cuts_len(tris@, texs@, inside@, t as nat);
        }
        let tri = tris[t];
        let tex = texs[t];
        assert(tri_within(tris@[t as int], nv as nat));
        let count: usize = (if inside[tri.0] { 1usize } else { 0usize }) + (if inside[tri.1] {
            1usize
        } else {
            0usize
        }) + (if inside[tri.2] { 1usize } else { 0usize });
        let ghost old_made = made@;
        let ghost old_cuts = cuts@;
        let ghost old_kept = kept@;
        if count == 3 {
            kept.push(Piece { corners: tri, tex, source: t });
        } else if count == 1 || count == 2 {
            let k: usize = if inside[tri.1] == inside[tri.2] {
                0
            } else if inside[tri.0] == inside[tri.2] {
                1
            } else {
                2
            };
            assert(k == lone_corner(tri, inside@));
            let p: usize = (k + 1) % 3;
            let q: usize = (k + 2) % 3;
            let a: usize = nv + cuts.len();
            let at: usize = tex_count + cuts.len();
            if count == 1 {
                made.push(
                    Piece {
                        corners: (corner_at(tri, k), a, a + 1),
                        tex: (corner_at(tex, k), at, at + 1),
                        source: t,
                    },
                );
                cuts.push(cut_at(tri, tex, p, k));
                cuts.push(cut_at(tri, tex, q, k));
            } else {
                made.push(
                    Piece {
                        corners: (corner_at(tri, p), corner_at(tri, q), a),
                        tex: (corner_at(tex, p), corner_at(tex, q), at),
                        source: t,
                    },
                );
                made.push(
                    Piece { corners: (a, corner_at(tri, q), a + 1), tex: (at, corner_at(tex, q), at + 1), source: t },
                );
                cuts.push(cut_at(tri, tex, k, p));
                cuts.push(cut_at(tri, tex, k, q));
            }
        }
        proof {
            let n = (t + 1) as nat;
            assert(n - 1 == t);
            assert(kept@ =~= kept_upto(tris@, texs@, inside@, n));
            assert(cuts@ =~= cuts_upto(tris@, texs@, inside@, n));
            assert(made@ =~= made_upto(tris@, texs@, inside@, nv as nat, tex_count as nat, n));
        }
        t += 1;
    }
    kept.append(&mut made);
    ClipPlan { pieces: kept, cuts }
}

/// Index `c` is either a new vertex (at or past `inside.len()`) or a vertex
/// inside the plane.
pub open spec fn kept_side(c: usize, inside: Seq<bool>) -> bool {
    c < inside.len() ==> inside[c as int]
}

/// A triangle of the clipped mesh is sound when it lies on the inside
/// (each corner a vertex inside, or a new vertex on the plane) and its
/// indices fall within the arenas grown by `ncuts` new entries.
pub open spec fn piece_sound(p: Piece, inside: Seq<bool>, nt: nat, ncuts: nat, ntris: nat) -> bool {
    &&& tri_within(p.corners, inside.len() + ncuts)
    &&& tri_within(p.tex, nt + ncuts)
    &&& p.source < ntris
    &&& kept_side(p.corners.0, inside)
    &&& kept_side(p.corners.1, inside)
    &&& kept_side(p.corners.2, inside)
}

/// A new vertex is sound when it lies on an edge from an outside vertex to an
/// inside one, between texture coordinates of the mesh.
pub open spec fn cut_sound(c: EdgeCut, inside: Seq<bool>, nt: nat) -> bool {
    &&& c.from < inside.len()
    &&& c.to < inside.len()
    &&& !inside[c.from as int]
    &&& inside[c.to as int]
    &&& c.from_tex < nt
    &&& c.to_tex < nt
}

proof fn lemma_prefix_sound(
    tris: Seq<Triangle>,
    texs: Seq<Triangle>,
    inside: Seq<bool>,
    nt: nat,
    n: nat,
)
    requires
        inside.len() + 2 * tris.len() <= usize::MAX,
        nt + 2 * tris.len() <= usize::MAX,
        n <= tris.len(),
        texs.len() == tris.len(),
        all_within(tris, inside.len()),
        all_within(texs, nt),
    ensures
        forall|i: int|
            0 <= i < kept_upto(tris, texs, inside, n).len() ==> #[trigger] piece_sound(
                kept_upto(tris, texs, inside, n)[i],
                inside,
                nt,
                0,
                n,
            ),
        forall|i: int|
            0 <= i < made_upto(tris, texs, inside, inside.len(), nt, n).len() ==> #[trigger] piece_sound(
                made_upto(tris, texs, inside, inside.len(), nt, n)[i],
                inside,
                nt,
                cuts_upto(tris, texs, inside, n).len(),
                n,
            ),
        forall|i: int|
            0 <= i < cuts_upto(tris, texs, inside, n).len() ==> #[trigger] cut_sound(
                cuts_upto(tris, texs, inside, n)[i],
                inside,
                nt,
            ),
    decreases n,
{
    if n > 0 {
        let m = (n - 1) as nat;
        lemma_prefix_sound(tris, texs, inside, nt, m);
        lemma_cuts_len(tris, texs, inside, m);
        let t = tris[m as int];
        let x = texs[m as int];
        assert(tri_within(t, inside.len()));
        assert(tri_within(x, nt));
        let kept = kept_upto(tris, texs, inside, n);
        let made = made_upto(tris, texs, inside, inside.len(), nt, n);
        let cuts = cuts_upto(tris, texs, inside, n);
        let c0 = cuts_upto(tris, texs, inside, m).len();
        assert forall|i: int| 0 <= i < kept.len() implies #[trigger] piece_sound(kept[i], inside, nt, 0, n) by {
            if i < kept_upto(tris, texs, inside, m).len() {
                assert(piece_sound(kept_upto(tris, texs, inside, m)[i], inside, nt, 0, m));
            }
        }
        assert forall|i: int| 0 <= i < made.len() implies #[trigger] piece_sound(made[i], inside, nt, cuts.len(), n) by {
            let old_made = made_upto(tris, texs, inside, inside.len(), nt, m);
            let tp = tri_pieces(t, x, inside, (inside.len() + c0) as usize, (nt + c0) as usize, m as usize);
            assert(made =~= old_made + tp);
            assert(cuts =~= cuts_upto(tris, texs, inside, m) + tri_cuts(t, x, inside));
            if i < old_made.len() {
                assert(piece_sound(old_made[i], inside, nt, c0, m));
            } else {
                assert(made[i] == tp[i - old_made.len()]);
            }
        }
        assert forall|i: int| 0 <= i < cuts.len() implies #[trigger] cut_sound(cuts[i], inside, nt) by {
            if i < c0 {
                assert(cut_sound(cuts_upto(tris, texs, inside, m)[i], inside, nt));
            }
        }
    }
}

/// Clipping keeps a mesh well formed and does what it is for: every triangle
/// of the clipped mesh lies on the inside of the plane (each corner is an
/// inside vertex or a new vertex on the plane), all of its indices fall within
/// the grown arenas, and each new vertex lies on an edge from an outside
/// vertex to an inside one.
pub proof fn lemma_clip_sound(tris: Seq<Triangle>, texs: Seq<Triangle>, inside: Seq<bool>, nt: nat)
    requires
        inside.len() + 2 * tris.len() <= usize::MAX,
        nt + 2 * tris.len() <= usize::MAX,
        texs.len() == tris.len(),
        all_within(tris, inside.len()),
        all_within(texs, nt),
    ensures
        forall|i: int|
            0 <= i < clip_pieces(tris, texs, inside, nt).len() ==> #[trigger] piece_sound(
                clip_pieces(tris, texs, inside, nt)[i],
                inside,
                nt,
                clip_cuts(tris, texs, inside).len(),
                tris.len(),
            ),
        forall|i: int|
            0 <= i < clip_cuts(tris, texs, inside).len() ==> #[trigger] cut_sound(
                clip_cuts(tris, texs, inside)[i],
                inside,
                nt,
            ),
{
    let n = tris.len();
    lemma_prefix_sound(tris, texs, inside, nt, n);
    let kept = kept_upto(tris, texs, inside, n);
    let all = clip_pieces(tris, texs, inside, nt);
    let nc = clip_cuts(tris, texs, inside).len();
    assert forall|i: int| 0 <= i < all.len() implies #[trigger] piece_sound(all[i], inside, nt, nc, n) by {
        if i < kept.len() {
            assert(piece_sound(kept[i], inside, nt, 0, n));
        } else {
            assert(all[i] == made_upto(tris, texs, inside, inside.len(), nt, n)[i - kept.len()]);
        }
    }
}

/// Clipping one triangle: wholly inside, it stays as it is and no vertex is
/// made; wholly outside, nothing is left; with one corner inside it becomes
/// one triangle, with two inside it becomes two, on two new vertices.
pub proof fn lemma_clip_single(t: Triangle, tex: Triangle, inside: Seq<bool>, nt: nat)
    requires
        tri_within(t, inside.len()),
    ensures
        inside_count(t, inside) == 3 ==> clip_pieces(seq![t], seq![tex], inside, nt) == seq![
            Piece { corners: t, tex, source: 0 },
        ] && clip_cuts(seq![t], seq![tex], inside).len() == 0,
        inside_count(t, inside) == 0 ==> clip_pieces(seq![t], seq![tex], inside, nt).len() == 0
            && clip_cuts(seq![t], seq![tex], inside).len() == 0,
        inside_count(t, inside) == 1 ==> clip_pieces(seq![t], seq![tex], inside, nt).len() == 1
            && clip_cuts(seq![t], seq![tex], inside).len() == 2,
        inside_count(t, inside) == 2 ==> clip_pieces(seq![t], seq![tex], inside, nt).len() == 2
            && clip_cuts(seq![t], seq![tex], inside).len() == 2,
{
    let tris = seq![t];
    let texs = seq![tex];
    assert(tris[0] == t);
    assert(texs[0] == tex);
    assert(cuts_upto(tris, texs, inside, 0) =~= seq![]);
    assert(kept_upto(tris, texs, inside, 0) =~= seq![]);
    assert(made_upto(tris, texs, inside, inside.len(), nt, 0) =~= seq![]);
    assert(cuts_upto(tris, texs, inside, 1) =~= tri_cuts(t, tex, inside));
    assert(clip_pieces(tris, texs, inside, nt) =~= kept_upto(tris, texs, inside, 1) + made_upto(
        tris,
        texs,
        inside,
        inside.len(),
        nt,
        1,
    ));
    if inside_count(t, inside) == 3 {
        assert(clip_pieces(tris, texs, inside, nt) =~= seq![Piece { corners: t, tex, source: 0 }]);
    }
}

} // verus!
