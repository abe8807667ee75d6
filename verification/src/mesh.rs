//! Triangle topology of the meshes the editor builds for boxes, cones,
//! arrows, rings and camera frusta: which vertices each triangle joins.
//! Vertex positions are floating point and are computed by the caller in the
//! order these indices assume.
use vstd::prelude::*;

verus! {

/// Segments of the cone that heads an arrow.
pub const ARROW_CONE_SEGMENTS: usize = 12;

/// Edges of a camera frustum: four near, four far and four joining them.
pub const FRUSTUM_EDGES: usize = 12;

/// The 36 indices of the 12 triangles of a box whose corners are numbered
/// as the box builder numbers them (0-3 one end, 4-7 the other).
pub open spec fn box_index_seq() -> Seq<u32> {
    seq![
        0u32, 1, 2, 0, 2, 3,
        4, 6, 5, 4, 7, 6,
        0, 4, 5, 0, 5, 1,
        3, 2, 6, 3, 6, 7,
        1, 5, 6, 1, 6, 2,
        0, 3, 7, 0, 7, 4
    ]
}

/// Every index of `s` names one of `n` vertices.
pub open spec fn indices_below(s: Seq<u32>, n: int) -> bool {
    forall|j: int| 0 <= j < s.len() ==> #[trigger] s[j] < n
}

/// `s` with `base` added to each index.
pub open spec fn shifted(s: Seq<u32>, base: int) -> Seq<u32> {
    Seq::new(s.len(), |j: int| (s[j] + base) as u32)
}

/// Vertices of a cone of `s` segments: the base centre, the base ring, the
/// side ring and the tip.
pub open spec fn cone_vertex_count(s: int) -> int {
    2 * s + 2
}

/// Index `j` of a cone of `s` segments: first `s` base triangles
/// `(0, 1 + (i + 1) % s, 1 + i)`, then `s` side triangles
/// `(s + 1 + i, s + 1 + (i + 1) % s, 2 s + 1)`.
pub open spec fn cone_index(s: int, j: int) -> u32 {
    if j < 3 * s {
        let i = j / 3;
        let c = j % 3;
        if c == 0 {
            0u32
        } else if c == 1 {
            (1 + (i + 1) % s) as u32
        } else {
            (1 + i) as u32
        }
    } else {
        let i = (j - 3 * s) / 3;
        let c = (j - 3 * s) % 3;
        if c == 0 {
            (s + 1 + i) as u32
        } else if c == 1 {
            (s + 1 + (i + 1) % s) as u32
        } else {
            (2 * s + 1) as u32
        }
    }
}

/// The indices of a cone of `s` segments.
pub open spec fn cone_index_seq(s: int) -> Seq<u32> {
    Seq::new((6 * s) as nat, |j: int| cone_index(s, j))
}

/// The indices of `n` boxes laid one after the other, box `k` owning
/// vertices `8 k .. 8 k + 8`.
pub open spec fn box_chain_index_seq(n: int) -> Seq<u32>
    decreases n,
{
    if n <= 0 {
        Seq::empty()
    } else {
        box_chain_index_seq(n - 1) + shifted(box_index_seq(), 8 * (n - 1))
    }
}

/// The indices of an arrow: a box for the shaft, then a cone of
/// `ARROW_CONE_SEGMENTS` segments for the head, whose vertices follow the
/// box's.
pub open spec fn arrow_index_seq() -> Seq<u32> {
    box_index_seq() + shifted(cone_index_seq(ARROW_CONE_SEGMENTS as int), 8)
}

/// Vertices of an arrow.
pub open spec fn arrow_vertex_count() -> int {
    8 + cone_vertex_count(ARROW_CONE_SEGMENTS as int)
}

/// Appends `part` to `indices`, each index raised by `base`: how a mesh is
/// merged into one whose `base` vertices come first.
pub fn append_offset(indices: &mut Vec<u32>, part: &Vec<u32>, base: u32)
    requires
        forall|j: int| 0 <= j < part@.len() ==> part@[j] + base <= u32::MAX,
    ensures
        final(indices)@ == old(indices)@ + shifted(part@, base as int),
{
    let ghost start = indices@;
    let mut k: usize = 0;
    while k < part.len()
        invariant
            k <= part@.len(),
            forall|j: int| 0 <= j < part@.len() ==> part@[j] + base <= u32::MAX,
            indices@ == start + shifted(part@, base as int).take(k as int),
        decreases part@.len() - k,
    {
        let x = part[k] + base;
        indices.push(x);
        assert(shifted(part@, base as int).take(k + 1) =~= shifted(part@, base as int).take(
            k as int,
        ).push(x));
        k = k + 1;
    }
    assert(shifted(part@, base as int).take(part@.len() as int) =~= shifted(part@, base as int));
}

/// Merging keeps a mesh valid: where `indices` name the first `base`
/// vertices and `part` names `n` vertices of its own, the merged indices name
/// the first `base + n` vertices.
pub proof fn lemma_shifted_below(s: Seq<u32>, base: int, n: int)
    requires
        indices_below(s, n),
        0 <= base,
        base + n <= u32::MAX + 1,
    ensures
        indices_below(shifted(s, base), base + n),
{
}

/// Concatenation of two index lists that name at most `n` vertices names at
/// most `n` vertices.
pub proof fn lemma_concat_below(a: Seq<u32>, b: Seq<u32>, n: int)
    requires
        indices_below(a, n),
        indices_below(b, n),
    ensures
        indices_below(a + b, n),
{
    assert forall|j: int| 0 <= j < (a + b).len() implies #[trigger] (a + b)[j] < n by {
        if j < a.len() {
            assert((a + b)[j] == a[j]);
        } else {
            assert((a + b)[j] == b[j - a.len()]);
        }
    }
}

/// Corner `c` of triangle `t` of an index list.
pub open spec fn corner(s: Seq<u32>, t: int, c: int) -> u32 {
    s[3 * t + c]
}

/// Triangle `t` of `s` joins three of the four corners of `face`.
pub open spec fn triangle_on_face(s: Seq<u32>, t: int, face: Seq<u32>) -> bool {
    &&& face.contains(corner(s, t, 0))
    &&& face.contains(corner(s, t, 1))
    &&& face.contains(corner(s, t, 2))
    &&& corner(s, t, 0) != corner(s, t, 1)
    &&& corner(s, t, 1) != corner(s, t, 2)
    &&& corner(s, t, 0) != corner(s, t, 2)
}

/// Triangles `a` and `b` of `s` together use every corner of `face`.
pub open spec fn triangles_cover(s: Seq<u32>, a: int, b: int, face: Seq<u32>) -> bool {
    forall|k: int| 0 <= k < face.len() ==> exists|c: int| 0 <= c < 3 && (#[trigger] face[k] == corner(s, a, c)
        || face[k] == corner(s, b, c))
}

/// Triangles `a` and `b` of `s` join the same three vertices.
pub open spec fn same_triangle(s: Seq<u32>, a: int, b: int) -> bool {
    set![corner(s, a, 0), corner(s, a, 1), corner(s, a, 2)] == set![corner(s, b, 0), corner(s, b, 1), corner(s, b, 2)]
}

/// The six quad faces of a box over its corners 0-3 (one end) and 4-7 (the
/// other end).
pub open spec fn box_faces() -> Seq<Seq<u32>> {
    seq![
        seq![0u32, 1, 2, 3],
        seq![4u32, 5, 6, 7],
        seq![0u32, 1, 4, 5],
        seq![2u32, 3, 6, 7],
        seq![1u32, 2, 5, 6],
        seq![0u32, 3, 4, 7]
    ]
}

/// Triangles `2 f` and `2 f + 1` of the box split face `f`.
proof fn lemma_face_split(f: int)
    requires
        0 <= f < 6,
    ensures
        triangle_on_face(box_index_seq(), 2 * f, box_faces()[f]),
        triangle_on_face(box_index_seq(), 2 * f + 1, box_faces()[f]),
        triangles_cover(box_index_seq(), 2 * f, 2 * f + 1, box_faces()[f]),
{
    let s = box_index_seq();
    assert(s[0] == 0 && s[1] == 1 && s[2] == 2 && s[3] == 0 && s[4] == 2 && s[5] == 3 && s[6] == 4 && s[7] == 6 && s[8] == 5 && s[9] == 4 && s[10] == 7 && s[11] == 6 && s[12] == 0 && s[13] == 4 && s[14] == 5 && s[15] == 0 && s[16] == 5 && s[17] == 1 && s[18] == 3 && s[19] == 2 && s[20] == 6 && s[21] == 3 && s[22] == 6 && s[23] == 7 && s[24] == 1 && s[25] == 5 && s[26] == 6 && s[27] == 1 && s[28] == 6 && s[29] == 2 && s[30] == 0 && s[31] == 3 && s[32] == 7 && s[33] == 0 && s[34] == 7 && s[35] == 4);
    let face = box_faces()[f];
    let a = 2 * f;
    let b = 2 * f + 1;
    assert(face.len() == 4 && face[0] == (if f == 0 { 0u32 } else if f == 1 { 4u32 } else if f == 2 { 0u32 } else if f == 3 { 2u32 } else if f == 4 { 1u32 } else { 0u32 }) && face[1] == (if f == 0 { 1u32 } else if f == 1 { 5u32 } else if f == 2 { 1u32 } else if f == 3 { 3u32 } else if f == 4 { 2u32 } else { 3u32 }) && face[2] == (if f == 0 { 2u32 } else if f == 1 { 6u32 } else if f == 2 { 4u32 } else if f == 3 { 6u32 } else if f == 4 { 5u32 } else { 4u32 }) && face[3] == (if f == 0 { 3u32 } else if f == 1 { 7u32 } else if f == 2 { 5u32 } else if f == 3 { 7u32 } else if f == 4 { 6u32 } else { 7u32 })) by {
        assert(box_faces()[0] == seq![0u32, 1, 2, 3] && box_faces()[1] == seq![4u32, 5, 6, 7] && box_faces()[2] == seq![0u32, 1, 4, 5]
            && box_faces()[3] == seq![2u32, 3, 6, 7] && box_faces()[4] == seq![1u32, 2, 5, 6] && box_faces()[5] == seq![0u32, 3, 4, 7]);
    }
    assert(face.contains(corner(s, a, 0)) && face.contains(corner(s, a, 1)) && face.contains(corner(s, a, 2))) by {
        assert(face[0] == corner(s, a, 0) || face[1] == corner(s, a, 0) || face[2] == corner(s, a, 0) || face[3] == corner(s, a, 0));
        assert(face[0] == corner(s, a, 1) || face[1] == corner(s, a, 1) || face[2] == corner(s, a, 1) || face[3] == corner(s, a, 1));
        assert(face[0] == corner(s, a, 2) || face[1] == corner(s, a, 2) || face[2] == corner(s, a, 2) || face[3] == corner(s, a, 2));
    }
    assert(face.contains(corner(s, b, 0)) && face.contains(corner(s, b, 1)) && face.contains(corner(s, b, 2))) by {
        assert(face[0] == corner(s, b, 0) || face[1] == corner(s, b, 0) || face[2] == corner(s, b, 0) || face[3] == corner(s, b, 0));
        assert(face[0] == corner(s, b, 1) || face[1] == corner(s, b, 1) || face[2] == corner(s, b, 1) || face[3] == corner(s, b, 1));
        assert(face[0] == corner(s, b, 2) || face[1] == corner(s, b, 2) || face[2] == corner(s, b, 2) || face[3] == corner(s, b, 2));
    }
    assert forall|k: int| 0 <= k < face.len() implies exists|c: int| 0 <= c < 3 && (#[trigger] face[k]
        == corner(s, a, c) || face[k] == corner(s, b, c)) by {
        if face[k] == corner(s, a, 0) || face[k] == corner(s, b, 0) {
            assert(0 <= 0int < 3);
        } else if face[k] == corner(s, a, 1) || face[k] == corner(s, b, 1) {
            assert(0 <= 1int < 3);
        } else {
            assert(face[k] == corner(s, a, 2) || face[k] == corner(s, b, 2));
        }
    }
}

/// The box's index list is twelve triangles, two on each of the six faces
/// that together use all four of its corners, and no two of them join the
/// same three corners: the box is closed.
pub proof fn lemma_box_covers_its_faces()
    ensures
        box_index_seq().len() == 36,
        forall|f: int| 0 <= f < 6 ==> exists|a: int, b: int| 0 <= a < 12 && 0 <= b < 12 && a != b
            && triangle_on_face(box_index_seq(), a, #[trigger] box_faces()[f])
            && triangle_on_face(box_index_seq(), b, box_faces()[f])
            && triangles_cover(box_index_seq(), a, b, box_faces()[f]),
        forall|a: int, b: int| 0 <= a < b < 12 ==> !#[trigger] same_triangle(box_index_seq(), a, b),
{
    let s = box_index_seq();
    let faces = box_faces();
    assert(s.len() == 36);
    assert(s[0] == 0 && s[1] == 1 && s[2] == 2 && s[3] == 0 && s[4] == 2 && s[5] == 3 && s[6] == 4 && s[7] == 6 && s[8] == 5 && s[9] == 4 && s[10] == 7 && s[11] == 6 && s[12] == 0 && s[13] == 4 && s[14] == 5 && s[15] == 0 && s[16] == 5 && s[17] == 1 && s[18] == 3 && s[19] == 2 && s[20] == 6 && s[21] == 3 && s[22] == 6 && s[23] == 7 && s[24] == 1 && s[25] == 5 && s[26] == 6 && s[27] == 1 && s[28] == 6 && s[29] == 2 && s[30] == 0 && s[31] == 3 && s[32] == 7 && s[33] == 0 && s[34] == 7 && s[35] == 4);
    assert(faces[0] == seq![0u32, 1, 2, 3] && faces[1] == seq![4u32, 5, 6, 7] && faces[2] == seq![0u32, 1, 4, 5]
        && faces[3] == seq![2u32, 3, 6, 7] && faces[4] == seq![1u32, 2, 5, 6] && faces[5] == seq![0u32, 3, 4, 7]);
    assert forall|f: int| 0 <= f < 6 implies exists|a: int, b: int| 0 <= a < 12 && 0 <= b < 12 && a != b
        && triangle_on_face(s, a, #[trigger] faces[f]) && triangle_on_face(s, b, faces[f])
        && triangles_cover(s, a, b, faces[f]) by {
        lemma_face_split(f);
    }
    assert forall|a: int, b: int| 0 <= a < b < 12 implies !#[trigger] same_triangle(s, a, b) by {
        let sa = set![corner(s, a, 0), corner(s, a, 1), corner(s, a, 2)];
        let sb = set![corner(s, b, 0), corner(s, b, 1), corner(s, b, 2)];
        if sa == sb {
            assert(sb.contains(corner(s, a, 0)) && sb.contains(corner(s, a, 1)) && sb.contains(corner(s, a, 2)));
            assert(sa.contains(corner(s, b, 0)) && sa.contains(corner(s, b, 1)) && sa.contains(corner(s, b, 2)));
        }
    }
}

/// The index list of a box.
pub fn box_indices() -> (r: Vec<u32>)
    ensures
        r@ == box_index_seq(),
        indices_below(r@, 8),
{
    let r = vec![
        0u32, 1, 2, 0, 2, 3,
        4, 6, 5, 4, 7, 6,
        0, 4, 5, 0, 5, 1,
        3, 2, 6, 3, 6, 7,
        1, 5, 6, 1, 6, 2,
        0, 3, 7, 0, 7, 4
    ];
    assert(r@ =~= box_index_seq());
    r
}

/// Every index of a cone names one of its vertices.
pub proof fn lemma_cone_indices_valid(s: int)
    requires
        s >= 0,
        2 * s + 1 <= u32::MAX,
    ensures
        indices_below(cone_index_seq(s), cone_vertex_count(s)),
{
    assert forall|j: int| 0 <= j < cone_index_seq(s).len() implies #[trigger] cone_index_seq(s)[j]
        < cone_vertex_count(s) by {
        if j < 3 * s {
            let i = j / 3;
            assert(0 <= i < s);
            vstd::arithmetic::div_mod::lemma_mod_bound(i + 1, s);
        } else {
            let i = (j - 3 * s) / 3;
            assert(0 <= i < s);
            vstd::arithmetic::div_mod::lemma_mod_bound(i + 1, s);
        }
    }
}

/// The triangles of a cone of `s` segments, numbered as the cone builder
/// numbers its vertices (base centre 0, base ring `1 ..= s`, side ring
/// `s + 1 ..= 2 s`, tip `2 s + 1`): base triangle `i` joins the centre and
/// two neighbouring base-ring vertices, side triangle `i` joins two
/// neighbouring side-ring vertices and the tip, and consecutive triangles of
/// each ring share an edge, the last closing the ring onto the first.
pub proof fn lemma_cone_rings_close(s: int)
    requires
        s >= 1,
        2 * s + 1 <= u32::MAX,
    ensures
        cone_index_seq(s).len() == 6 * s,
        forall|i: int| 0 <= i < s ==> {
            &&& #[trigger] corner(cone_index_seq(s), i, 0) == 0
            &&& corner(cone_index_seq(s), i, 2) == 1 + i
            &&& corner(cone_index_seq(s), s + i, 0) == s + 1 + i
            &&& corner(cone_index_seq(s), s + i, 2) == 2 * s + 1
        },
        forall|i: int| 0 <= i < s - 1 ==> {
            &&& #[trigger] corner(cone_index_seq(s), i, 1) == corner(cone_index_seq(s), i + 1, 2)
            &&& corner(cone_index_seq(s), s + i, 1) == corner(cone_index_seq(s), s + i + 1, 0)
        },
        corner(cone_index_seq(s), s - 1, 1) == corner(cone_index_seq(s), 0, 2),
        corner(cone_index_seq(s), 2 * s - 1, 1) == corner(cone_index_seq(s), s, 0),
{
    let q = cone_index_seq(s);
    assert forall|i: int| 0 <= i < s implies {
        &&& #[trigger] corner(q, i, 0) == 0
        &&& corner(q, i, 2) == 1 + i
        &&& corner(q, s + i, 0) == s + 1 + i
        &&& corner(q, s + i, 2) == 2 * s + 1
    } by {
        assert(q[3 * i] == cone_index(s, 3 * i));
        assert(q[3 * i + 2] == cone_index(s, 3 * i + 2));
        assert(q[3 * (s + i)] == cone_index(s, 3 * (s + i)));
        assert(q[3 * (s + i) + 2] == cone_index(s, 3 * (s + i) + 2));
    }
    assert forall|i: int| 0 <= i < s - 1 implies {
        &&& #[trigger] corner(q, i, 1) == corner(q, i + 1, 2)
        &&& corner(q, s + i, 1) == corner(q, s + i + 1, 0)
    } by {
        vstd::arithmetic::div_mod::lemma_small_mod((i + 1) as nat, s as nat);
        assert(q[3 * i + 1] == cone_index(s, 3 * i + 1));
        assert(q[3 * (i + 1) + 2] == cone_index(s, 3 * (i + 1) + 2));
        assert(q[3 * (s + i) + 1] == cone_index(s, 3 * (s + i) + 1));
        assert(q[3 * (s + i + 1)] == cone_index(s, 3 * (s + i + 1)));
    }
    vstd::arithmetic::div_mod::lemma_mod_self_0(s);
    assert(q[3 * (s - 1) + 1] == cone_index(s, 3 * (s - 1) + 1));
    assert(q[2] == cone_index(s, 2));
    assert(q[3 * (2 * s - 1) + 1] == cone_index(s, 3 * (2 * s - 1) + 1));
    assert(q[3 * s] == cone_index(s, 3 * s));
}

/// The index list of a cone of `segments` segments: a fan closing the base
/// around its centre, then the sides meeting at the tip.
pub fn cone_indices(segments: usize) -> (r: Vec<u32>)
    requires
        2 * segments + 1 <= u32::MAX,
    ensures
        r@ == cone_index_seq(segments as int),
        indices_below(r@, cone_vertex_count(segments as int)),
{
    let ghost expected = cone_index_seq(segments as int);
    let s = segments as u32;
    let mut indices: Vec<u32> = Vec::new();
    let base_ring_start: u32 = 1;
    let mut i: usize = 0;
    while i < segments
        invariant
            i <= segments,
            s == segments,
            2 * segments + 1 <= u32::MAX,
            base_ring_start == 1,
            expected == cone_index_seq(segments as int),
            indices@ == expected.take(3 * i),
        decreases segments - i,
    {
        let a = base_ring_start + i as u32;
        let b = base_ring_start + ((i + 1) % segments) as u32;
        proof {
            vstd::arithmetic::div_mod::lemma_mod_bound(i + 1, segments as int);
            assert(expected[3 * i] == 0);
            assert(expected[3 * i + 1] == b);
            assert(expected[3 * i + 2] == a);
        }
        indices.push(0);
        indices.push(b);
        indices.push(a);
        assert(expected.take(3 * (i + 1)) =~= expected.take(3 * i).push(0).push(b).push(a));
        i = i + 1;
    }
    let side_ring_start: u32 = 1 + s;
    let tip_idx: u32 = 2 * s + 1;
    let mut i: usize = 0;
    while i < segments
        invariant
            i <= segments,
            s == segments,
            2 * segments + 1 <= u32::MAX,
            side_ring_start == 1 + s,
            tip_idx == 2 * s + 1,
            expected == cone_index_seq(segments as int),
            indices@ == expected.take(3 * segments + 3 * i),
        decreases segments - i,
    {
        let a = side_ring_start + i as u32;
        let b = side_ring_start + ((i + 1) % segments) as u32;
        proof {
            vstd::arithmetic::div_mod::lemma_mod_bound(i + 1, segments as int);
            assert(expected[3 * segments + 3 * i] == a);
            assert(expected[3 * segments + 3 * i + 1] == b);
            assert(expected[3 * segments + 3 * i + 2] == tip_idx);
        }
        indices.push(a);
        indices.push(b);
        indices.push(tip_idx);
        assert(expected.take(3 * segments + 3 * (i + 1)) =~= expected.take(3 * segments + 3 * i).push(
            a,
        ).push(b).push(tip_idx));
        i = i + 1;
    }
    assert(expected.take(6 * segments) =~= expected);
    proof {
        lemma_cone_indices_valid(segments as int);
    }
    indices
}

/// Every index of a chain of `n` boxes names one of its `8 n` vertices.
pub proof fn lemma_box_chain_valid(n: int)
    requires
        0 <= n,
        8 * n <= u32::MAX + 1,
    ensures
        indices_below(box_chain_index_seq(n), 8 * n),
    decreases n,
{
    if n > 0 {
        lemma_box_chain_valid(n - 1);
        assert(indices_below(box_index_seq(), 8));
        lemma_shifted_below(box_index_seq(), 8 * (n - 1), 8);
        assert(indices_below(box_chain_index_seq(n - 1), 8 * n));
        lemma_concat_below(box_chain_index_seq(n - 1), shifted(box_index_seq(), 8 * (n - 1)), 8 * n);
    }
}

/// Raising indices adds the offset to each of them.
pub proof fn lemma_shifted_adds(s: Seq<u32>, base: int)
    requires
        0 <= base,
        forall|j: int| 0 <= j < s.len() ==> s[j] + base <= u32::MAX,
    ensures
        shifted(s, base).len() == s.len(),
        forall|j: int| 0 <= j < s.len() ==> #[trigger] shifted(s, base)[j] == s[j] + base,
{
}

/// A chain of `n` boxes is `n` copies of the box's index list, copy `k`
/// raised by `8 k`, one after the other.
pub proof fn lemma_box_chain_layout(n: int)
    requires
        0 <= n,
        8 * n <= u32::MAX + 1,
    ensures
        box_chain_index_seq(n).len() == 36 * n,
        forall|k: int, j: int| 0 <= k < n && 0 <= j < 36 ==> #[trigger] box_chain_index_seq(n)[36 * k + j]
            == box_index_seq()[j] + 8 * k,
    decreases n,
{
    if n > 0 {
        lemma_box_chain_layout(n - 1);
        let prev = box_chain_index_seq(n - 1);
        let last = shifted(box_index_seq(), 8 * (n - 1));
        assert(indices_below(box_index_seq(), 8));
        assert forall|k: int, j: int| 0 <= k < n && 0 <= j < 36 implies #[trigger] box_chain_index_seq(n)[36
            * k + j] == box_index_seq()[j] + 8 * k by {
            if k < n - 1 {
                assert(box_chain_index_seq(n)[36 * k + j] == prev[36 * k + j]);
            } else {
                assert(box_chain_index_seq(n)[36 * k + j] == last[j]);
            }
        }
    }
}

/// An arrow's index list is the box's, then the twelve-segment cone's raised
/// past the box's eight vertices.
pub proof fn lemma_arrow_layout()
    ensures
        arrow_index_seq().len() == 36 + 6 * ARROW_CONE_SEGMENTS,
        forall|j: int| 0 <= j < 36 ==> #[trigger] arrow_index_seq()[j] == box_index_seq()[j],
        forall|j: int| 0 <= j < 6 * ARROW_CONE_SEGMENTS ==> #[trigger] arrow_index_seq()[36 + j]
            == cone_index_seq(ARROW_CONE_SEGMENTS as int)[j] + 8,
{
    lemma_cone_indices_valid(ARROW_CONE_SEGMENTS as int);
    assert(box_index_seq().len() == 36);
}

/// The index list of `boxes` boxes laid one after the other, each owning the
/// next eight vertices: the segments of a ring, or the edges of a frustum.
pub fn box_chain_indices(boxes: usize) -> (r: Vec<u32>)
    requires
        8 * boxes <= u32::MAX + 1,
    ensures
        r@ == box_chain_index_seq(boxes as int),
        indices_below(r@, 8 * boxes),
{
    let one = box_indices();
    let mut indices: Vec<u32> = Vec::new();
    let mut k: usize = 0;
    while k < boxes
        invariant
            k <= boxes,
            8 * boxes <= u32::MAX + 1,
            one@ == box_index_seq(),
            indices_below(one@, 8),
            indices@ == box_chain_index_seq(k as int),
        decreases boxes - k,
    {
        let base = (8 * k) as u32;
        append_offset(&mut indices, &one, base);
        k = k + 1;
    }
    proof {
        lemma_box_chain_valid(boxes as int);
    }
    indices
}

/// The index list of an arrow: the shaft's box, then the head's cone after
/// the box's eight vertices.
pub fn arrow_indices() -> (r: Vec<u32>)
    ensures
        r@ == arrow_index_seq(),
        indices_below(r@, arrow_vertex_count()),
{
    let mut indices = box_indices();
    let cone = cone_indices(ARROW_CONE_SEGMENTS);
    append_offset(&mut indices, &cone, 8);
    proof {
        lemma_shifted_below(cone_index_seq(ARROW_CONE_SEGMENTS as int), 8, cone_vertex_count(ARROW_CONE_SEGMENTS as int));
        assert(indices_below(box_index_seq(), arrow_vertex_count()));
        lemma_concat_below(box_index_seq(), shifted(cone_index_seq(ARROW_CONE_SEGMENTS as int), 8), arrow_vertex_count());
    }
    indices
}

} // verus!
