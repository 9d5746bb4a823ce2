//! Index generation for triangle meshes and merging of indexed meshes.
use vstd::prelude::*;

verus! {

/// The `k`-th triangle of an index list: the three entries from `3 * k`.
pub open spec fn triangle_at<T>(s: Seq<T>, k: int) -> (T, T, T) {
    (s[3 * k], s[3 * k + 1], s[3 * k + 2])
}

/// The `i`-th triangle of a fan around vertex 0 with `p` perimeter vertices
/// numbered `1..=p`; the last triangle closes the fan back to vertex 1.
pub open spec fn fan_triangle(p: int, i: int) -> (u32, u32, u32) {
    (0u32, (i + 1) as u32, if i + 1 == p { 1u32 } else { (i + 2) as u32 })
}

/// The index of the inner vertex of pair `i` in a closed ring of `p` pairs;
/// pair `p` wraps around to pair 0.
pub open spec fn ring_inner(p: int, i: int) -> u32 {
    if i == p { 0u32 } else { (2 * i) as u32 }
}

/// The index of the outer vertex of pair `i` in a closed ring of `p` pairs.
pub open spec fn ring_outer(p: int, i: int) -> u32 {
    if i == p { 1u32 } else { (2 * i + 1) as u32 }
}

/// Every index of `inds` moved up by `base`.
pub open spec fn rebased(inds: Seq<u32>, base: int) -> Seq<u32> {
    inds.map_values(|i: u32| (i + base) as u32)
}

/// Whether every index of `inds` stays within `u32` once moved up by `base`.
pub open spec fn rebase_fits(inds: Seq<u32>, base: int) -> bool {
    forall|j: int| 0 <= j < inds.len() ==> #[trigger] inds[j] + base <= u32::MAX
}

/// The six indices that draw a quad of four vertices `0..4` as two
/// triangles sharing the diagonal 0-2.
pub fn quad_indices() -> (r: Vec<u32>)
    ensures
        r@ == seq![0u32, 1u32, 2u32, 0u32, 2u32, 3u32],
{
    let mut r: Vec<u32> = Vec::new();
    r.push(0);
    r.push(1);
    r.push(2);
    r.push(0);
    r.push(2);
    r.push(3);
    r
}

/// The indices `0..n` in order, for vertices that already form triangles.
pub fn sequential_indices(n: usize) -> (r: Vec<u32>)
    requires
        n <= u32::MAX,
    ensures
        r@.len() == n,
        forall|i: int| 0 <= i < n ==> #[trigger] r@[i] == i,
{
    let mut r: Vec<u32> = Vec::new();
    let mut i: usize = 0;
    while i < n
        invariant
            i <= n <= u32::MAX,
            r@.len() == i,
            forall|j: int| 0 <= j < i ==> #[trigger] r@[j] == j,
        decreases n - i,
    {
        r.push(i as u32);
        i = i + 1;
    }
    r
}

/// The triangles of a closed fan: vertex 0 is the centre and vertices
/// `1..=perimeter` run around it; triangle `i` is `(0, i + 1, i + 2)`, and
/// the last one wraps back to vertex 1.
pub fn fan_indices(perimeter: u32) -> (r: Vec<u32>)
    ensures
        r@.len() == 3 * perimeter,
        forall|i: int| 0 <= i < perimeter ==> #[trigger] triangle_at(r@, i) == fan_triangle(perimeter as int, i),
{
    let mut r: Vec<u32> = Vec::new();
    let mut i: u32 = 0;
    while i < perimeter
        invariant
            i <= perimeter,
            r@.len() == 3 * i,
            forall|j: int| 0 <= j < i ==> #[trigger] triangle_at(r@, j) == fan_triangle(perimeter as int, j),
        decreases perimeter - i,
    {
        let current = i + 1;
        let next = if i + 1 == perimeter { 1 } else { i + 2 };
        let ghost before = r@;
        r.push(0);
        r.push(current);
        r.push(next);
        assert forall|j: int| 0 <= j < i + 1 implies #[trigger] triangle_at(r@, j) == fan_triangle(perimeter as int, j) by {
            if j < i {
                assert(triangle_at(r@, j) == triangle_at(before, j));
            }
        }
        i = i + 1;
    }
    r
}

/// The triangles of a closed ring strip of `pairs` vertex pairs, where pair
/// `i` is the inner vertex `2 * i` and the outer vertex `2 * i + 1`. Pair `i`
/// and the next pair (pair 0 after the last) form the triangles
/// `(inner_i, outer_i, inner_next)` and `(inner_next, outer_i, outer_next)`.
pub fn ring_indices(pairs: u32) -> (r: Vec<u32>)
    requires
        pairs <= 0x8000_0000,
    ensures
        r@.len() == 6 * pairs,
        forall|i: int|
            0 <= i < pairs ==> {
                &&& #[trigger] triangle_at(r@, 2 * i) == (
                    ring_inner(pairs as int, i),
                    ring_outer(pairs as int, i),
                    ring_inner(pairs as int, i + 1),
                )
                &&& triangle_at(r@, 2 * i + 1) == (
                    ring_inner(pairs as int, i + 1),
                    ring_outer(pairs as int, i),
                    ring_outer(pairs as int, i + 1),
                )
            },
{
    let mut r: Vec<u32> = Vec::new();
    let mut i: u32 = 0;
    while i < pairs
        invariant
            i <= pairs <= 0x8000_0000,
            r@.len() == 6 * i,
            forall|j: int|
                0 <= j < i ==> {
                    &&& #[trigger] triangle_at(r@, 2 * j) == (
                        ring_inner(pairs as int, j),
                        ring_outer(pairs as int, j),
                        ring_inner(pairs as int, j + 1),
                    )
                    &&& triangle_at(r@, 2 * j + 1) == (
                        ring_inner(pairs as int, j + 1),
                        ring_outer(pairs as int, j),
                        ring_outer(pairs as int, j + 1),
                    )
                },
        decreases pairs - i,
    {
        let current_inner = i * 2;
        let current_outer = i * 2 + 1;
        let next_inner = if i + 1 == pairs { 0 } else { (i + 1) * 2 };
        let next_outer = if i + 1 == pairs { 1 } else { (i + 1) * 2 + 1 };
        let ghost before = r@;
        r.push(current_inner);
        r.push(current_outer);
        r.push(next_inner);
        r.push(next_inner);
        r.push(current_outer);
        r.push(next_outer);
        assert forall|j: int|
            0 <= j < i + 1 implies {
                &&& #[trigger] triangle_at(r@, 2 * j) == (
                    ring_inner(pairs as int, j),
                    ring_outer(pairs as int, j),
                    ring_inner(pairs as int, j + 1),
                )
                &&& triangle_at(r@, 2 * j + 1) == (
                    ring_inner(pairs as int, j + 1),
                    ring_outer(pairs as int, j),
                    ring_outer(pairs as int, j + 1),
                )
            } by {
            if j < i {
                assert(triangle_at(r@, 2 * j) == triangle_at(before, 2 * j));
                assert(triangle_at(r@, 2 * j + 1) == triangle_at(before, 2 * j + 1));
            }
        }
        i = i + 1;
    }
    r
}

/// The triangle list of a fan of vertices: vertex 0 is the centre, and for
/// each `k` the triangle `(v0, v[k + 1], v[k + 2])` is emitted, so `n`
/// vertices give `n - 2` triangles (none for fewer than three).
pub fn fan_triangles<T: Copy>(verts: &Vec<T>) -> (r: Vec<T>)
    requires
        verts@.len() >= 1,
    ensures
        r@.len() == if verts@.len() >= 2 { 3 * (verts@.len() - 2) } else { 0 },
        forall|k: int|
            0 <= k < verts@.len() - 2 ==> #[trigger] triangle_at(r@, k) == (
                verts@[0],
                verts@[k + 1],
                verts@[k + 2],
            ),
{
    let mut r: Vec<T> = Vec::new();
    let n = verts.len();
    let mut i: usize = 1;
    while i < n - 1
        invariant
            n == verts@.len(),
            n >= 1,
            1 <= i,
            i <= n - 1 || (n == 1 && i == 1),
            r@.len() == 3 * (i - 1),
            forall|k: int|
                0 <= k < i - 1 ==> #[trigger] triangle_at(r@, k) == (
                    verts@[0],
                    verts@[k + 1],
                    verts@[k + 2],
                ),
        decreases n - i,
    {
        let ghost before = r@;
        r.push(verts[0]);
        r.push(verts[i]);
        r.push(verts[i + 1]);
        assert forall|k: int| 0 <= k < i implies #[trigger] triangle_at(r@, k) == (
            verts@[0],
            verts@[k + 1],
            verts@[k + 2],
        ) by {
            if k < i - 1 {
                assert(triangle_at(r@, k) == triangle_at(before, k));
            }
        }
        i = i + 1;
    }
    assert(n >= 2 ==> i == n - 1);
    r
}

/// Appends a mesh to an accumulated mesh: the vertices are concatenated and
/// the new indices are moved up by the number of vertices already present,
/// so that they keep addressing the same vertices.
pub fn append_mesh<V>(
    verts: &mut Vec<V>,
    inds: &mut Vec<u32>,
    new_verts: Vec<V>,
    new_inds: Vec<u32>,
)
    requires
        old(verts)@.len() <= u32::MAX,
        rebase_fits(new_inds@, old(verts)@.len() as int),
    ensures
        final(verts)@ == old(verts)@ + new_verts@,
        final(inds)@ == old(inds)@ + rebased(new_inds@, old(verts)@.len() as int),
{
    let base = verts.len() as u32;
    let mut new_verts = new_verts;
    verts.append(&mut new_verts);
    let ghost start = inds@;
    let mut i: usize = 0;
    while i < new_inds.len()
        invariant
            base == old(verts)@.len(),
            start == old(inds)@,
            rebase_fits(new_inds@, base as int),
            i <= new_inds@.len(),
            inds@ == start + rebased(new_inds@.subrange(0, i as int), base as int),
        decreases new_inds@.len() - i,
    {
        assert(new_inds@[i as int] + base <= u32::MAX);
        inds.push(new_inds[i] + base);
        assert(new_inds@.subrange(0, i + 1) =~= new_inds@.subrange(0, i as int).push(new_inds@[i as int]));
        assert(rebased(new_inds@.subrange(0, i + 1), base as int) =~= rebased(
            new_inds@.subrange(0, i as int),
            base as int,
        ).push((new_inds@[i as int] + base) as u32));
        i = i + 1;
    }
    assert(new_inds@.subrange(0, new_inds@.len() as int) =~= new_inds@);
}

/// Every triangle of a closed fan with `p` perimeter vertices addresses only
/// the `p + 1` vertices `0..=p`, and never uses a vertex twice.
pub proof fn lemma_fan_in_range(p: int, i: int)
    requires
        1 < p <= u32::MAX,
        0 <= i < p,
    ensures
        fan_triangle(p, i).0 <= p,
        fan_triangle(p, i).1 <= p,
        fan_triangle(p, i).2 <= p,
        fan_triangle(p, i).0 != fan_triangle(p, i).1,
        fan_triangle(p, i).1 != fan_triangle(p, i).2,
        fan_triangle(p, i).0 != fan_triangle(p, i).2,
{
}

/// Every index of a closed ring of `p` pairs addresses one of its `2 * p`
/// vertices.
pub proof fn lemma_ring_in_range(p: int, i: int)
    requires
        1 <= p <= 0x8000_0000,
        0 <= i <= p,
    ensures
        ring_inner(p, i) < 2 * p,
        ring_outer(p, i) < 2 * p,
{
}

/// Appending a mesh whose indices address its own vertices to a mesh whose
/// indices address its own vertices gives a mesh whose indices address its
/// own vertices.
pub proof fn lemma_append_in_range<V>(verts: Seq<V>, inds: Seq<u32>, new_verts: Seq<V>, new_inds: Seq<u32>)
    requires
        forall|j: int| 0 <= j < inds.len() ==> #[trigger] inds[j] < verts.len(),
        forall|j: int| 0 <= j < new_inds.len() ==> #[trigger] new_inds[j] < new_verts.len(),
        rebase_fits(new_inds, verts.len() as int),
    ensures
        forall|j: int|
            0 <= j < (inds + rebased(new_inds, verts.len() as int)).len() ==> #[trigger] (inds
                + rebased(new_inds, verts.len() as int))[j] < (verts + new_verts).len(),
{
    let all = inds + rebased(new_inds, verts.len() as int);
    assert forall|j: int| 0 <= j < all.len() implies #[trigger] all[j] < (verts + new_verts).len() by {
        if j >= inds.len() {
            let k = j - inds.len();
            assert(new_inds[k] < new_verts.len());
            assert(new_inds[k] + verts.len() <= u32::MAX);
        }
    }
}

/// A closed fan goes once around its centre: every triangle has the centre
/// as its first corner and perimeter vertex `i + 1` as its second, each
/// triangle ends where the next one begins, and the last one ends where the
/// first one begins.
pub proof fn lemma_fan_closes(p: int)
    requires
        1 < p <= u32::MAX,
    ensures
        forall|i: int| 0 <= i < p ==> (#[trigger] fan_triangle(p, i)).0 == 0 && fan_triangle(p, i).1 == i + 1,
        forall|i: int| 0 <= i < p - 1 ==> (#[trigger] fan_triangle(p, i)).2 == fan_triangle(p, i + 1).1,
        fan_triangle(p, p - 1).2 == fan_triangle(p, 0).1,
{
}

/// A closed ring pairs inner vertex `2 * i` with outer vertex `2 * i + 1`,
/// and the pair after the last one is the first pair again.
pub proof fn lemma_ring_closes(p: int)
    requires
        1 <= p <= 0x8000_0000,
    ensures
        forall|i: int| 0 <= i < p ==> #[trigger] ring_inner(p, i) == 2 * i && ring_outer(p, i) == 2 * i + 1,
        ring_inner(p, p) == ring_inner(p, 0),
        ring_outer(p, p) == ring_outer(p, 0),
{
}

} // verus!
