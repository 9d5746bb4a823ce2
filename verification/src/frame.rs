//! Checked entry points for turning a frame of draw commands into uploads:
//! each refuses exactly the frames on which a count or a moved index would
//! leave `u32`, and a frame whose meshes are valid and whose totals fit in
//! `u32` is never refused.
use vstd::prelude::*;
use crate::mesh::{append_mesh, rebase_fits, rebased};
use crate::renderer::{
    all_vertices, batch_fits, batch_seq, chunk_push_group, chunks_view, empty_chunk, frame_fits,
    indices_in_range, items_view, lemma_batch_fits_prefix, lemma_batch_preserves,
    lemma_merge_fits_prefix, lemma_plan_fits_prefix, merge_all, merge_fits, merge_group, overflows,
    plan, plan_fits, plan_state, push_fits, push_group, Chunk, ChunkView, DrawItem, GroupView,
    MAX_INDICES_PER_CHUNK, MAX_VERTICES_PER_CHUNK,
};

verus! {

/// The number of indices of a sequence of groups.
pub open spec fn index_count<T>(s: Seq<GroupView<T>>) -> int
    decreases s.len(),
{
    if s.len() == 0 {
        0
    } else {
        index_count(s.drop_last()) + s.last().2.len()
    }
}

/// A frame of valid meshes whose totals fit in `u32`: every index addresses
/// a vertex of its own command, and neither the vertices nor the indices of
/// all commands together number more than `u32::MAX`.
pub open spec fn frame_bounded<T>(s: Seq<GroupView<T>>) -> bool {
    &&& forall|k: int| 0 <= k < s.len() ==> indices_in_range(#[trigger] s[k])
    &&& all_vertices(s).len() <= u32::MAX
    &&& index_count(s) <= u32::MAX
}

/// The totals of a prefix are at most those of the whole sequence.
proof fn lemma_totals_monotone<T>(s: Seq<GroupView<T>>, k: int)
    requires
        0 <= k <= s.len(),
    ensures
        all_vertices(s.take(k)).len() <= all_vertices(s).len(),
        index_count(s.take(k)) <= index_count(s),
    decreases s.len(),
{
    if k < s.len() {
        lemma_totals_monotone(s.drop_last(), k);
        assert(s.drop_last().take(k) =~= s.take(k));
    } else {
        assert(s.take(k) =~= s);
    }
}

/// The last group's vertices are among all vertices.
proof fn lemma_last_within<T>(s: Seq<GroupView<T>>)
    requires
        s.len() > 0,
    ensures
        s.last().1.len() <= all_vertices(s).len(),
{
}

/// Batching keeps the number of indices.
proof fn lemma_batch_index_count<T>(s: Seq<GroupView<T>>)
    ensures
        index_count(batch_seq(s)) == index_count(s),
    decreases s.len(),
{
    if s.len() > 0 {
        let p = s.drop_last();
        let x = s.last();
        lemma_batch_index_count(p);
        let g = batch_seq(p);
        if g.len() > 0 && g.last().0 == x.0 {
            let m = merge_group(g.last(), x);
            let r = g.update(g.len() - 1, m);
            assert(r.drop_last() =~= g.drop_last());
            assert(r.last() == m);
            assert(rebased(x.2, g.last().1.len() as int).len() == x.2.len());
            assert(index_count(r) == index_count(g.drop_last()) + m.2.len());
        } else {
            assert(g.push(x).drop_last() =~= g);
        }
    }
}

/// A bounded frame batches without overflow, and its groups form a bounded
/// frame too.
proof fn lemma_bounded_batch<T>(s: Seq<GroupView<T>>)
    requires
        frame_bounded(s),
    ensures
        batch_fits(s),
        frame_bounded(batch_seq(s)),
    decreases s.len(),
{
    if s.len() > 0 {
        let p = s.drop_last();
        let x = s.last();
        assert(p =~= s.take(s.len() - 1));
        lemma_totals_monotone(s, s.len() - 1);
        assert forall|k: int| 0 <= k < p.len() implies indices_in_range(#[trigger] p[k]) by {
            assert(p[k] == s[k]);
        }
        lemma_bounded_batch(p);
        let g = batch_seq(p);
        lemma_batch_preserves(p);
        assert(indices_in_range(s[s.len() - 1]));
        if g.len() > 0 && g.last().0 == x.0 {
            lemma_last_within(g);
            assert(rebase_fits(x.2, g.last().1.len() as int)) by {
                assert forall|j: int| 0 <= j < x.2.len() implies #[trigger] x.2[j] + g.last().1.len()
                    <= u32::MAX by {
                    assert(x.2[j] < x.1.len());
                }
            }
        }
    }
    lemma_batch_preserves(s);
    lemma_batch_index_count(s);
}

/// The chunk being filled holds at most the indices of the groups taken so
/// far.
proof fn lemma_plan_cur_indices<T>(s: Seq<GroupView<T>>, max_v: int, max_i: int)
    ensures
        plan_state(s, max_v, max_i).1.1.len() <= index_count(s),
        plan_state(s, max_v, max_i).1.0.len() <= all_vertices(s).len(),
    decreases s.len(),
{
    if s.len() > 0 {
        let p = s.drop_last();
        let g = s.last();
        lemma_plan_cur_indices(p, max_v, max_i);
        let (done, cur) = plan_state(p, max_v, max_i);
        assert(rebased(g.2, cur.0.len() as int).len() == g.2.len());
        assert(rebased(g.2, 0).len() == g.2.len());
        if overflows(cur, g, max_v, max_i) {
            assert(push_group(empty_chunk(), g).1.len() == g.2.len());
            assert(push_group(empty_chunk(), g).0.len() == g.1.len());
        } else {
            assert(push_group(cur, g).1.len() == cur.1.len() + g.2.len());
            assert(push_group(cur, g).0.len() == cur.0.len() + g.1.len());
        }
    }
}

/// A group of a bounded frame fits into a chunk that holds no more than the
/// groups before it.
proof fn lemma_push_fits_bounded<T>(
    c: ChunkView<T>,
    g: GroupView<T>,
    vertices_before: int,
    indices_before: int,
)
    requires
        indices_in_range(g),
        c.0.len() <= vertices_before,
        c.1.len() <= indices_before,
        vertices_before + g.1.len() <= u32::MAX,
        indices_before + g.2.len() <= u32::MAX,
    ensures
        push_fits(c, g),
{
    assert forall|j: int| 0 <= j < g.2.len() implies #[trigger] g.2[j] + c.0.len() <= u32::MAX by {
        assert(g.2[j] < g.1.len());
    }
}

/// A bounded sequence of groups is chunked without overflow, whatever the
/// limits.
proof fn lemma_bounded_plan<T>(s: Seq<GroupView<T>>, max_v: int, max_i: int)
    requires
        frame_bounded(s),
    ensures
        plan_fits(s, max_v, max_i),
    decreases s.len(),
{
    if s.len() > 0 {
        let p = s.drop_last();
        let g = s.last();
        assert(p =~= s.take(s.len() - 1));
        lemma_totals_monotone(s, s.len() - 1);
        assert forall|k: int| 0 <= k < p.len() implies indices_in_range(#[trigger] p[k]) by {
            assert(p[k] == s[k]);
        }
        lemma_bounded_plan(p, max_v, max_i);
        lemma_plan_cur_indices(p, max_v, max_i);
        assert(indices_in_range(s[s.len() - 1]));
        let (done, cur) = plan_state(p, max_v, max_i);
        if overflows(cur, g, max_v, max_i) {
            lemma_push_fits_bounded(empty_chunk::<T>(), g, all_vertices(p).len() as int, index_count(p));
        } else {
            lemma_push_fits_bounded(cur, g, all_vertices(p).len() as int, index_count(p));
        }
    }
}

/// Putting all groups of a bounded sequence into one chunk holds exactly
/// their vertices and indices.
proof fn lemma_merge_all_sizes<T>(s: Seq<GroupView<T>>)
    ensures
        merge_all(s).0 == all_vertices(s),
        merge_all(s).1.len() == index_count(s),
    decreases s.len(),
{
    if s.len() > 0 {
        lemma_merge_all_sizes(s.drop_last());
        let c = merge_all(s.drop_last());
        assert(rebased(s.last().2, c.0.len() as int).len() == s.last().2.len());
    }
}

/// A bounded sequence of groups is merged into one chunk without overflow.
proof fn lemma_bounded_merge<T>(s: Seq<GroupView<T>>)
    requires
        frame_bounded(s),
    ensures
        merge_fits(s),
    decreases s.len(),
{
    if s.len() > 0 {
        let p = s.drop_last();
        let g = s.last();
        assert(p =~= s.take(s.len() - 1));
        lemma_totals_monotone(s, s.len() - 1);
        assert forall|k: int| 0 <= k < p.len() implies indices_in_range(#[trigger] p[k]) by {
            assert(p[k] == s[k]);
        }
        lemma_bounded_merge(p);
        lemma_merge_all_sizes(p);
        assert(indices_in_range(s[s.len() - 1]));
        lemma_push_fits_bounded(merge_all(p), g, all_vertices(p).len() as int, index_count(p));
    }
}

/// A frame of valid meshes whose vertex and index totals fit in `u32` is
/// batched and chunked without any count or moved index leaving `u32`.
pub proof fn lemma_bounded_frame_fits<T>(s: Seq<GroupView<T>>)
    requires
        frame_bounded(s),
    ensures
        frame_fits(s),
        merge_fits(batch_seq(s)),
{
    lemma_bounded_batch(s);
    lemma_bounded_plan(batch_seq(s), MAX_VERTICES_PER_CHUNK as int, MAX_INDICES_PER_CHUNK as int);
    lemma_bounded_merge(batch_seq(s));
}

/// While the groups taken so far stay within both limits, planning never
/// closes a chunk: nothing has been sent and the chunk being filled is all
/// groups merged; and then merging them all fits in `u32` exactly when
/// planning them does.
proof fn lemma_plan_within_limits<T>(s: Seq<GroupView<T>>, max_v: int, max_i: int)
    requires
        all_vertices(s).len() <= max_v,
        index_count(s) <= max_i,
    ensures
        plan_state(s, max_v, max_i) == (Seq::<ChunkView<T>>::empty(), merge_all(s)),
        plan_fits(s, max_v, max_i) ==> merge_fits(s),
    decreases s.len(),
{
    if s.len() > 0 {
        let p = s.drop_last();
        assert(p =~= s.take(s.len() - 1));
        lemma_totals_monotone(s, s.len() - 1);
        lemma_plan_within_limits(p, max_v, max_i);
        lemma_merge_all_sizes(p);
    }
}

/// When a frame fits in `u32` and all its vertices and indices fit within
/// one chunk, the chunked upload is a single chunk holding exactly what
/// putting every batched group into one buffer holds (or nothing, for a
/// frame without vertices), and the single-buffer path fits as well.
pub proof fn lemma_one_chunk_frame<T>(s: Seq<GroupView<T>>)
    requires
        frame_fits(s),
        all_vertices(s).len() <= MAX_VERTICES_PER_CHUNK,
        index_count(s) <= MAX_INDICES_PER_CHUNK,
    ensures
        merge_frame_fits(s),
        plan(batch_seq(s), MAX_VERTICES_PER_CHUNK as int, MAX_INDICES_PER_CHUNK as int) == (if merge_all(
            batch_seq(s),
        ).0.len() > 0 {
            seq![merge_all(batch_seq(s))]
        } else {
            Seq::<ChunkView<T>>::empty()
        }),
{
    lemma_batch_preserves(s);
    lemma_batch_index_count(s);
    lemma_plan_within_limits(batch_seq(s), MAX_VERTICES_PER_CHUNK as int, MAX_INDICES_PER_CHUNK as int);
    let e = Seq::<ChunkView<T>>::empty();
    assert(e.push(merge_all(batch_seq(s))) =~= seq![merge_all(batch_seq(s))]);
}

/// Whether adding indices `inds` after `n` vertices keeps every moved index
/// within `u32`, with `n` itself within `u32`.
fn rebase_check(n: usize, inds: &Vec<u32>) -> (b: bool)
    ensures
        b == (n <= u32::MAX && rebase_fits(inds@, n as int)),
{
    if n as u64 > 0xFFFF_FFFFu64 {
        return false;
    }
    let room: u32 = (0xFFFF_FFFFu64 - n as u64) as u32;
    let mut j: usize = 0;
    while j < inds.len()
        invariant
            0 <= j <= inds.len(),
            n <= u32::MAX,
            room == u32::MAX - n,
            forall|k: int| 0 <= k < j ==> #[trigger] inds@[k] + n <= u32::MAX,
        decreases inds.len() - j,
    {
        if inds[j] > room {
            return false;
        }
        j = j + 1;
    }
    true
}

/// Whether a group with indices `g` fits into a chunk of `vcount` vertices
/// and `icount` indices.
fn push_check<T>(vcount: usize, icount: usize, g: &DrawItem<T>) -> (b: bool)
    ensures
        b == (vcount <= u32::MAX && rebase_fits(g@.2, vcount as int) && icount + g@.2.len() <= u32::MAX),
{
    if !rebase_check(vcount, &g.indices) {
        return false;
    }
    (icount as u64) <= 0xFFFF_FFFFu64 && (g.indices.len() as u64) <= 0xFFFF_FFFFu64 - icount as u64
}

/// Groups adjacent draw commands that share a key, as `batch_adjacent`
/// does, when no count or moved index leaves `u32`, and gives `None`
/// otherwise.
pub fn batch_adjacent_checked<T>(items: Vec<DrawItem<T>>) -> (r: Option<Vec<DrawItem<T>>>)
    ensures
        r is Some <==> batch_fits(items_view(items@)),
        r matches Some(groups) ==> items_view(groups@) == batch_seq(items_view(items@)),
{
    let ghost all = items_view(items@);
    let mut groups: Vec<DrawItem<T>> = Vec::new();
    proof {
        assert(all.take(0) =~= Seq::<GroupView<T>>::empty());
    }
    for item in it: items.into_iter()
        invariant
            all == items_view(it.seq()),
            batch_fits(all.take(it.index() as int)),
            items_view(groups@) == batch_seq(all.take(it.index() as int)),
    {
        let ghost i = it.index() as int;
        let ghost prefix = all.take(i + 1);
        proof {
            assert(prefix.drop_last() =~= all.take(i));
            assert(prefix.last() == item@);
        }
        let len = groups.len();
        if len > 0 && groups[len - 1].key == item.key {
            let n = groups[len - 1].vertices.len();
            if !rebase_check(n, &item.indices) {
                proof {
                    assert(batch_seq(prefix.drop_last()).last() == groups@[len - 1]@);
                    if batch_fits(all) {
                        lemma_batch_fits_prefix(all, i + 1);
                    }
                }
                return None;
            }
            let mut last = groups.pop().unwrap();
            append_mesh(&mut last.vertices, &mut last.indices, item.vertices, item.indices);
            groups.push(last);
            assert(items_view(groups@) =~= batch_seq(prefix));
        } else {
            groups.push(item);
            assert(items_view(groups@) =~= batch_seq(prefix));
        }
    }
    proof {
        assert(all.take(all.len() as int) =~= all);
    }
    Some(groups)
}

/// Splits batched groups into chunks, as `plan_chunks` does, when no count
/// or moved index leaves `u32`, and gives `None` otherwise.
pub fn plan_chunks_checked<T>(groups: Vec<DrawItem<T>>, max_vertices: usize, max_indices: usize) -> (r:
    Option<Vec<Chunk<T>>>)
    ensures
        r is Some <==> plan_fits(items_view(groups@), max_vertices as int, max_indices as int),
        r matches Some(chunks) ==> chunks_view(chunks@) == plan(
            items_view(groups@),
            max_vertices as int,
            max_indices as int,
        ),
{
    let ghost all = items_view(groups@);
    let ghost mv = max_vertices as int;
    let ghost mi = max_indices as int;
    let mut chunks: Vec<Chunk<T>> = Vec::new();
    let mut cur: Chunk<T> = Chunk::new();
    proof {
        assert(all.take(0) =~= Seq::<GroupView<T>>::empty());
    }
    for g in it: groups.into_iter()
        invariant
            all == items_view(it.seq()),
            mv == max_vertices as int,
            mi == max_indices as int,
            plan_fits(all.take(it.index() as int), mv, mi),
            (chunks_view(chunks@), cur@) == plan_state(all.take(it.index() as int), mv, mi),
    {
        let ghost i = it.index() as int;
        let ghost prefix = all.take(i + 1);
        proof {
            assert(prefix.drop_last() =~= all.take(i));
            assert(prefix.last() == g@);
        }
        let over_v = cur.vertices.len() > max_vertices || g.vertices.len() > max_vertices
            - cur.vertices.len();
        let over_i = cur.indices.len() > max_indices || g.indices.len() > max_indices
            - cur.indices.len();
        let fits = if over_v || over_i {
            push_check(0, 0, &g)
        } else {
            push_check(cur.vertices.len(), cur.indices.len(), &g)
        };
        if !fits {
            proof {
                if plan_fits(all, mv, mi) {
                    lemma_plan_fits_prefix(all, mv, mi, i + 1);
                }
            }
            return None;
        }
        if over_v || over_i {
            let mut full: Chunk<T> = Chunk::new();
            std::mem::swap(&mut cur, &mut full);
            if full.vertices.len() > 0 {
                chunks.push(full);
            }
        }
        chunk_push_group(&mut cur, g);
        assert(chunks_view(chunks@) =~= plan_state(prefix, mv, mi).0);
    }
    proof {
        assert(all.take(all.len() as int) =~= all);
    }
    if cur.vertices.len() > 0 {
        chunks.push(cur);
    }
    assert(chunks_view(chunks@) =~= plan(all, mv, mi));
    Some(chunks)
}

/// Puts all groups into one chunk, as `merge_groups` does, when no count or
/// moved index leaves `u32`, and gives `None` otherwise.
pub fn merge_groups_checked<T>(groups: Vec<DrawItem<T>>) -> (r: Option<Chunk<T>>)
    ensures
        r is Some <==> merge_fits(items_view(groups@)),
        r matches Some(c) ==> c@ == merge_all(items_view(groups@)),
{
    let ghost all = items_view(groups@);
    let mut cur: Chunk<T> = Chunk::new();
    proof {
        assert(all.take(0) =~= Seq::<GroupView<T>>::empty());
    }
    for g in it: groups.into_iter()
        invariant
            all == items_view(it.seq()),
            merge_fits(all.take(it.index() as int)),
            cur@ == merge_all(all.take(it.index() as int)),
    {
        let ghost i = it.index() as int;
        let ghost prefix = all.take(i + 1);
        proof {
            assert(prefix.drop_last() =~= all.take(i));
            assert(prefix.last() == g@);
        }
        if !push_check(cur.vertices.len(), cur.indices.len(), &g) {
            proof {
                if merge_fits(all) {
                    lemma_merge_fits_prefix(all, i + 1);
                }
            }
            return None;
        }
        chunk_push_group(&mut cur, g);
    }
    proof {
        assert(all.take(all.len() as int) =~= all);
    }
    Some(cur)
}

/// Whether a frame can be batched and put into one buffer without any
/// count or moved index leaving `u32`.
pub open spec fn merge_frame_fits<T>(s: Seq<GroupView<T>>) -> bool {
    &&& batch_fits(s)
    &&& merge_fits(batch_seq(s))
}

/// Turns the draw commands of a frame into the chunks that are uploaded
/// when no count or moved index leaves `u32`, and gives `None` otherwise.
pub fn prepare_frame_checked<T>(items: Vec<DrawItem<T>>) -> (r: Option<Vec<Chunk<T>>>)
    ensures
        r is Some <==> frame_fits(items_view(items@)),
        r matches Some(chunks) ==> chunks_view(chunks@) == plan(
            batch_seq(items_view(items@)),
            MAX_VERTICES_PER_CHUNK as int,
            MAX_INDICES_PER_CHUNK as int,
        ),
{
    match batch_adjacent_checked(items) {
        Some(groups) => plan_chunks_checked(groups, MAX_VERTICES_PER_CHUNK, MAX_INDICES_PER_CHUNK),
        None => None,
    }
}

/// Batches the draw commands of a frame and puts every group into a single
/// buffer when no count or moved index leaves `u32`, and gives `None`
/// otherwise.
pub fn merge_frame_checked<T>(items: Vec<DrawItem<T>>) -> (r: Option<Chunk<T>>)
    ensures
        r is Some <==> merge_frame_fits(items_view(items@)),
        r matches Some(c) ==> c@ == merge_all(batch_seq(items_view(items@))),
{
    match batch_adjacent_checked(items) {
        Some(groups) => merge_groups_checked(groups),
        None => None,
    }
}

} // verus!
