//! Batching of draw commands into groups and chunks for the GPU, and the
//! clamping of scissor rectangles to the drawing surface.
use vstd::prelude::*;
use crate::mesh::{append_mesh, rebased, rebase_fits};

verus! {

/// A scissor rectangle in whole pixels.
#[derive(Debug, Clone, Copy, PartialEq, Eq, Structural)]
pub struct ScissorKey {
    pub x: u32,
    pub y: u32,
    pub w: u32,
    pub h: u32,
}

/// What decides whether two draw commands can share a draw call: the
/// texture they sample and the scissor rectangle they are clipped to.
#[derive(Debug, Clone, Copy, PartialEq, Eq, Structural)]
pub struct DrawKey {
    pub texture_id: u64,
    pub scissor: Option<ScissorKey>,
}

/// An indexed mesh together with the key it is drawn under.
pub struct DrawItem<T> {
    pub key: DrawKey,
    pub vertices: Vec<T>,
    pub indices: Vec<u32>,
}

/// The mathematical form of a draw item: key, vertices and indices.
pub type GroupView<T> = (DrawKey, Seq<T>, Seq<u32>);

impl<T> View for DrawItem<T> {
    type V = GroupView<T>;

    open spec fn view(&self) -> GroupView<T> {
        (self.key, self.vertices@, self.indices@)
    }
}

/// The views of a sequence of draw items.
pub open spec fn items_view<T>(items: Seq<DrawItem<T>>) -> Seq<GroupView<T>> {
    items.map_values(|it: DrawItem<T>| it@)
}

/// A group `g` extended by the mesh of `x`, whose indices are moved past the
/// vertices of `g`.
pub open spec fn merge_group<T>(g: GroupView<T>, x: GroupView<T>) -> GroupView<T> {
    (g.0, g.1 + x.1, g.2 + rebased(x.2, g.1.len() as int))
}

/// Adjacent batching: commands are taken in order, and a command whose key
/// equals the key of the last group is merged into that group; any other
/// command starts a new group.
pub open spec fn batch_seq<T>(s: Seq<GroupView<T>>) -> Seq<GroupView<T>>
    decreases s.len(),
{
    if s.len() == 0 {
        Seq::empty()
    } else {
        let g = batch_seq(s.drop_last());
        let x = s.last();
        if g.len() > 0 && g.last().0 == x.0 {
            g.update(g.len() - 1, merge_group(g.last(), x))
        } else {
            g.push(x)
        }
    }
}

/// Whether adjacent batching of `s` keeps every moved index within `u32`.
pub open spec fn batch_fits<T>(s: Seq<GroupView<T>>) -> bool
    decreases s.len(),
{
    if s.len() == 0 {
        true
    } else {
        let g = batch_seq(s.drop_last());
        let x = s.last();
        &&& batch_fits(s.drop_last())
        &&& (g.len() > 0 && g.last().0 == x.0) ==> {
            &&& g.last().1.len() <= u32::MAX
            &&& rebase_fits(x.2, g.last().1.len() as int)
        }
    }
}

/// A prefix of a sequence that batches without overflow also does.
pub proof fn lemma_batch_fits_prefix<T>(s: Seq<GroupView<T>>, k: int)
    requires
        batch_fits(s),
        0 <= k <= s.len(),
    ensures
        batch_fits(s.take(k)),
    decreases s.len(),
{
    if k < s.len() {
        lemma_batch_fits_prefix(s.drop_last(), k);
        assert(s.drop_last().take(k) =~= s.take(k));
    } else {
        assert(s.take(k) =~= s);
    }
}

/// Groups adjacent draw commands that share a key, keeping their order; a
/// merged command's indices are moved past the vertices already in the group.
pub fn batch_adjacent<T>(items: Vec<DrawItem<T>>) -> (groups: Vec<DrawItem<T>>)
    requires
        batch_fits(items_view(items@)),
    ensures
        items_view(groups@) == batch_seq(items_view(items@)),
{
    let ghost all = items_view(items@);
    let mut groups: Vec<DrawItem<T>> = Vec::new();
    proof {
        assert(all.take(0) =~= Seq::<GroupView<T>>::empty());
    }
    for item in it: items.into_iter()
        invariant
            all == items_view(it.seq()),
            batch_fits(all),
            items_view(groups@) == batch_seq(all.take(it.index() as int)),
    {
        let ghost i = it.index() as int;
        let ghost prefix = all.take(i + 1);
        proof {
            assert(prefix.drop_last() =~= all.take(i));
            assert(prefix.last() == item@);
            lemma_batch_fits_prefix(all, i + 1);
        }
        let len = groups.len();
        if len > 0 && groups[len - 1].key == item.key {
            let mut last = groups.pop().unwrap();
            append_mesh(&mut last.vertices, &mut last.indices, item.vertices, item.indices);
            groups.push(last);
            assert(items_view(groups@) =~= batch_seq(prefix));
        } else {
            groups.push(item);
            assert(items_view(groups@) =~= batch_seq(prefix));
        }
    }
    proof {
        assert(all.take(all.len() as int) =~= all);
    }
    groups
}

/// All vertices of a sequence of groups, in order.
pub open spec fn all_vertices<T>(s: Seq<GroupView<T>>) -> Seq<T>
    decreases s.len(),
{
    if s.len() == 0 {
        Seq::empty()
    } else {
        all_vertices(s.drop_last()) + s.last().1
    }
}

/// Whether every index of a group addresses one of its vertices.
pub open spec fn indices_in_range<T>(g: GroupView<T>) -> bool {
    forall|j: int| 0 <= j < g.2.len() ==> #[trigger] g.2[j] < g.1.len()
}

/// The vertices that a group's index list draws, in index order.
pub open spec fn drawn<T>(g: GroupView<T>) -> Seq<T> {
    g.2.map_values(|i: u32| g.1[i as int])
}

/// The vertices drawn by a sequence of groups, one group after another.
pub open spec fn all_drawn<T>(s: Seq<GroupView<T>>) -> Seq<T>
    decreases s.len(),
{
    if s.len() == 0 {
        Seq::empty()
    } else {
        all_drawn(s.drop_last()) + drawn(s.last())
    }
}

/// Merging keeps the indices of both parts in range and draws the vertices
/// of the first part followed by those of the second.
pub proof fn lemma_merge_drawn<T>(g: GroupView<T>, x: GroupView<T>)
    requires
        indices_in_range(g),
        indices_in_range(x),
        rebase_fits(x.2, g.1.len() as int),
    ensures
        indices_in_range(merge_group(g, x)),
        drawn(merge_group(g, x)) == drawn(g) + drawn(x),
{
    let m = merge_group(g, x);
    assert forall|j: int| 0 <= j < m.2.len() implies #[trigger] m.2[j] < m.1.len() by {
        if j >= g.2.len() {
            assert(x.2[j - g.2.len()] < x.1.len());
        }
    }
    assert forall|j: int| 0 <= j < m.2.len() implies #[trigger] drawn(m)[j] == (drawn(g) + drawn(x))[j] by {
        if j < g.2.len() {
            assert(g.2[j] < g.1.len());
        } else {
            let k = j - g.2.len();
            assert(x.2[k] < x.1.len());
            assert(x.2[k] + g.1.len() <= u32::MAX);
        }
    }
    assert(drawn(m) =~= drawn(g) + drawn(x));
}

/// Adjacent batching keeps every vertex, in order; when every command's
/// indices address its own vertices, the batched groups draw exactly the
/// vertices that the commands draw, in the same order; no two neighbouring
/// groups share a key; and there are never more groups than commands.
pub proof fn lemma_batch_preserves<T>(s: Seq<GroupView<T>>)
    requires
        batch_fits(s),
    ensures
        all_vertices(batch_seq(s)) == all_vertices(s),
        (forall|k: int| 0 <= k < s.len() ==> indices_in_range(#[trigger] s[k])) ==> {
            &&& forall|k: int| 0 <= k < batch_seq(s).len() ==> indices_in_range(#[trigger] batch_seq(s)[k])
            &&& all_drawn(batch_seq(s)) == all_drawn(s)
        },
        forall|k: int| 0 <= k < batch_seq(s).len() - 1 ==> #[trigger] batch_seq(s)[k].0 != batch_seq(s)[k + 1].0,
        batch_seq(s).len() <= s.len(),
        s.len() > 0 ==> batch_seq(s).len() > 0 && batch_seq(s).last().0 == s.last().0,
    decreases s.len(),
{
    if s.len() > 0 {
        let p = s.drop_last();
        let x = s.last();
        lemma_batch_preserves(p);
        let g = batch_seq(p);
        if g.len() > 0 && g.last().0 == x.0 {
            let m = merge_group(g.last(), x);
            let r = g.update(g.len() - 1, m);
            assert(r.drop_last() =~= g.drop_last());
            assert(all_vertices(g) == all_vertices(g.drop_last()) + g.last().1);
            assert(all_vertices(r) =~= all_vertices(s));
            if forall|k: int| 0 <= k < s.len() ==> indices_in_range(#[trigger] s[k]) {
                assert forall|k: int| 0 <= k < p.len() implies indices_in_range(#[trigger] p[k]) by {
                    assert(p[k] == s[k]);
                }
                assert(indices_in_range(s[s.len() - 1]));
                assert(indices_in_range(g[g.len() - 1]));
                lemma_merge_drawn(g.last(), x);
                assert(all_drawn(g) == all_drawn(g.drop_last()) + drawn(g.last()));
                assert(all_drawn(r) =~= all_drawn(s));
                assert forall|k: int| 0 <= k < r.len() implies indices_in_range(#[trigger] r[k]) by {
                    if k < r.len() - 1 {
                        assert(r[k] == g[k]);
                    }
                }
            }
            assert forall|k: int| 0 <= k < r.len() - 1 implies #[trigger] r[k].0 != r[k + 1].0 by {
                assert(r[k] == g[k]);
                if k + 1 < r.len() - 1 {
                    assert(r[k + 1] == g[k + 1]);
                }
            }
        } else {
            let r = g.push(x);
            assert(r.drop_last() =~= g);
            if forall|k: int| 0 <= k < s.len() ==> indices_in_range(#[trigger] s[k]) {
                assert forall|k: int| 0 <= k < p.len() implies indices_in_range(#[trigger] p[k]) by {
                    assert(p[k] == s[k]);
                }
                assert(indices_in_range(s[s.len() - 1]));
                assert forall|k: int| 0 <= k < r.len() implies indices_in_range(#[trigger] r[k]) by {
                    if k < r.len() - 1 {
                        assert(r[k] == g[k]);
                    }
                }
            }
            assert forall|k: int| 0 <= k < r.len() - 1 implies #[trigger] r[k].0 != r[k + 1].0 by {
                assert(r[k] == g[k]);
                if k + 1 < r.len() - 1 {
                    assert(r[k + 1] == g[k + 1]);
                }
            }
        }
    }
}

/// Commands whose neighbours all have different keys are left as they are
/// by batching.
pub proof fn lemma_batch_distinct_unchanged<T>(s: Seq<GroupView<T>>)
    requires
        forall|k: int| 0 <= k < s.len() - 1 ==> #[trigger] s[k].0 != s[k + 1].0,
    ensures
        batch_seq(s) == s,
    decreases s.len(),
{
    if s.len() > 0 {
        let p = s.drop_last();
        assert forall|k: int| 0 <= k < p.len() - 1 implies #[trigger] p[k].0 != p[k + 1].0 by {
            assert(p[k] == s[k]);
            assert(p[k + 1] == s[k + 1]);
        }
        lemma_batch_distinct_unchanged(p);
        if p.len() > 0 {
            assert(p.last() == s[s.len() - 2]);
        }
        assert(p.push(s.last()) =~= s);
    }
}

/// Batching twice is batching once: batched groups are left as they are.
pub proof fn lemma_batch_idempotent<T>(s: Seq<GroupView<T>>)
    requires
        batch_fits(s),
    ensures
        batch_seq(batch_seq(s)) == batch_seq(s),
{
    lemma_batch_preserves(s);
    lemma_batch_distinct_unchanged(batch_seq(s));
}

/// The most vertices a chunk takes before it is sent to the GPU.
pub const MAX_VERTICES_PER_CHUNK: usize = 100_000;

/// The most indices a chunk takes before it is sent to the GPU.
pub const MAX_INDICES_PER_CHUNK: usize = 150_000;

/// One draw call within a chunk: the key it is drawn under and the range of
/// the chunk's index list that it draws.
#[derive(Debug, Clone, Copy, PartialEq, Eq, Structural)]
pub struct DrawRange {
    pub key: DrawKey,
    pub index_start: u32,
    pub index_count: u32,
}

/// The geometry that is sent to the GPU in one upload, with its draw calls.
pub struct Chunk<T> {
    pub vertices: Vec<T>,
    pub indices: Vec<u32>,
    pub draws: Vec<DrawRange>,
}

/// The mathematical form of a chunk: vertices, indices and draw calls.
pub type ChunkView<T> = (Seq<T>, Seq<u32>, Seq<DrawRange>);

impl<T> View for Chunk<T> {
    type V = ChunkView<T>;

    open spec fn view(&self) -> ChunkView<T> {
        (self.vertices@, self.indices@, self.draws@)
    }
}

impl<T> Chunk<T> {
    /// A chunk with no geometry and no draw calls.
    pub fn new() -> (c: Self)
        ensures
            c@ == empty_chunk::<T>(),
    {
        Chunk { vertices: Vec::new(), indices: Vec::new(), draws: Vec::new() }
    }
}

/// The views of a sequence of chunks.
pub open spec fn chunks_view<T>(cs: Seq<Chunk<T>>) -> Seq<ChunkView<T>> {
    cs.map_values(|c: Chunk<T>| c@)
}

/// The chunk with no geometry and no draw calls.
pub open spec fn empty_chunk<T>() -> ChunkView<T> {
    (Seq::empty(), Seq::empty(), Seq::empty())
}

/// A chunk extended by a group: its vertices are appended, its indices are
/// moved past the chunk's vertices, and one draw call covers its indices.
pub open spec fn push_group<T>(c: ChunkView<T>, g: GroupView<T>) -> ChunkView<T> {
    (
        c.0 + g.1,
        c.1 + rebased(g.2, c.0.len() as int),
        c.2.push(
            DrawRange { key: g.0, index_start: c.1.len() as u32, index_count: g.2.len() as u32 },
        ),
    )
}

/// Whether adding group `g` to chunk `c` would pass either limit.
pub open spec fn overflows<T>(c: ChunkView<T>, g: GroupView<T>, max_v: int, max_i: int) -> bool {
    c.0.len() + g.1.len() > max_v || c.1.len() + g.2.len() > max_i
}

/// The chunks already sent and the chunk being filled after the groups `s`
/// were taken in order: a group that would pass a limit first sends the
/// current chunk (a chunk without vertices is dropped) and starts a new one.
pub open spec fn plan_state<T>(s: Seq<GroupView<T>>, max_v: int, max_i: int) -> (
    Seq<ChunkView<T>>,
    ChunkView<T>,
)
    decreases s.len(),
{
    if s.len() == 0 {
        (Seq::empty(), empty_chunk())
    } else {
        let (done, cur) = plan_state(s.drop_last(), max_v, max_i);
        let g = s.last();
        if overflows(cur, g, max_v, max_i) {
            (
                if cur.0.len() > 0 {
                    done.push(cur)
                } else {
                    done
                },
                push_group(empty_chunk(), g),
            )
        } else {
            (done, push_group(cur, g))
        }
    }
}

/// The chunks sent for the groups `s`: the last chunk is sent when it holds
/// vertices.
pub open spec fn plan<T>(s: Seq<GroupView<T>>, max_v: int, max_i: int) -> Seq<ChunkView<T>> {
    let (done, cur) = plan_state(s, max_v, max_i);
    if cur.0.len() > 0 {
        done.push(cur)
    } else {
        done
    }
}

/// Whether a group can be added to a chunk with every count and moved index
/// within `u32`.
pub open spec fn push_fits<T>(c: ChunkView<T>, g: GroupView<T>) -> bool {
    &&& c.0.len() <= u32::MAX
    &&& rebase_fits(g.2, c.0.len() as int)
    &&& c.1.len() + g.2.len() <= u32::MAX
}

/// Whether planning the chunks of `s` keeps every count and moved index
/// within `u32`.
pub open spec fn plan_fits<T>(s: Seq<GroupView<T>>, max_v: int, max_i: int) -> bool
    decreases s.len(),
{
    if s.len() == 0 {
        true
    } else {
        let (done, cur) = plan_state(s.drop_last(), max_v, max_i);
        let g = s.last();
        &&& plan_fits(s.drop_last(), max_v, max_i)
        &&& if overflows(cur, g, max_v, max_i) {
            push_fits(empty_chunk(), g)
        } else {
            push_fits(cur, g)
        }
    }
}

/// A prefix of a sequence that plans without overflow also does.
pub proof fn lemma_plan_fits_prefix<T>(s: Seq<GroupView<T>>, max_v: int, max_i: int, k: int)
    requires
        plan_fits(s, max_v, max_i),
        0 <= k <= s.len(),
    ensures
        plan_fits(s.take(k), max_v, max_i),
    decreases s.len(),
{
    if k < s.len() {
        lemma_plan_fits_prefix(s.drop_last(), max_v, max_i, k);
        assert(s.drop_last().take(k) =~= s.take(k));
    } else {
        assert(s.take(k) =~= s);
    }
}

/// Adds a group to a chunk.
pub(crate) fn chunk_push_group<T>(c: &mut Chunk<T>, g: DrawItem<T>)
    requires
        push_fits(old(c)@, g@),
    ensures
        final(c)@ == push_group(old(c)@, g@),
{
    let start = c.indices.len() as u32;
    let count = g.indices.len() as u32;
    append_mesh(&mut c.vertices, &mut c.indices, g.vertices, g.indices);
    c.draws.push(DrawRange { key: g.key, index_start: start, index_count: count });
}

/// Splits batched groups into chunks that are uploaded one at a time: groups
/// are taken in order, and a group that would bring the chunk past
/// `max_vertices` vertices or `max_indices` indices first closes the current
/// chunk. Each group becomes one draw call over its moved indices; a chunk
/// without vertices is never sent.
pub fn plan_chunks<T>(groups: Vec<DrawItem<T>>, max_vertices: usize, max_indices: usize) -> (chunks:
    Vec<Chunk<T>>)
    requires
        plan_fits(items_view(groups@), max_vertices as int, max_indices as int),
    ensures
        chunks_view(chunks@) == plan(items_view(groups@), max_vertices as int, max_indices as int),
{
    let ghost all = items_view(groups@);
    let ghost mv = max_vertices as int;
    let ghost mi = max_indices as int;
    let mut chunks: Vec<Chunk<T>> = Vec::new();
    let mut cur: Chunk<T> = Chunk::new();
    proof {
        assert(all.take(0) =~= Seq::<GroupView<T>>::empty());
    }
    for g in it: groups.into_iter()
        invariant
            all == items_view(it.seq()),
            mv == max_vertices as int,
            mi == max_indices as int,
            plan_fits(all, mv, mi),
            (chunks_view(chunks@), cur@) == plan_state(all.take(it.index() as int), mv, mi),
    {
        let ghost i = it.index() as int;
        let ghost prefix = all.take(i + 1);
        proof {
            assert(prefix.drop_last() =~= all.take(i));
            assert(prefix.last() == g@);
            lemma_plan_fits_prefix(all, mv, mi, i + 1);
        }
        let over_v = cur.vertices.len() > max_vertices || g.vertices.len() > max_vertices
            - cur.vertices.len();
        let over_i = cur.indices.len() > max_indices || g.indices.len() > max_indices
            - cur.indices.len();
        if over_v || over_i {
            let mut full: Chunk<T> = Chunk::new();
            std::mem::swap(&mut cur, &mut full);
            if full.vertices.len() > 0 {
                chunks.push(full);
            }
        }
        chunk_push_group(&mut cur, g);
        assert(chunks_view(chunks@) =~= plan_state(prefix, mv, mi).0);
    }
    proof {
        assert(all.take(all.len() as int) =~= all);
    }
    if cur.vertices.len() > 0 {
        chunks.push(cur);
    }
    assert(chunks_view(chunks@) =~= plan(all, mv, mi));
    chunks
}

/// Whether the draw calls of a chunk cover its index list exactly once, in
/// order and without gaps: the first starts at 0, each starts where the one
/// before ends, and the last ends at the end of the index list.
pub open spec fn draws_partition<T>(c: ChunkView<T>) -> bool {
    &&& c.2.len() == 0 ==> c.1.len() == 0
    &&& c.2.len() > 0 ==> {
        &&& c.2[0].index_start == 0
        &&& c.2.last().index_start + c.2.last().index_count == c.1.len()
    }
    &&& forall|k: int|
        0 <= k < c.2.len() - 1 ==> #[trigger] c.2[k].index_start + c.2[k].index_count == c.2[k
            + 1].index_start
}

/// Whether every index of a chunk addresses one of its vertices.
pub open spec fn chunk_in_range<T>(c: ChunkView<T>) -> bool {
    forall|j: int| 0 <= j < c.1.len() ==> #[trigger] c.1[j] < c.0.len()
}

/// The vertices that a chunk's index list draws, in index order.
pub open spec fn chunk_drawn<T>(c: ChunkView<T>) -> Seq<T> {
    c.1.map_values(|i: u32| c.0[i as int])
}

/// The vertices drawn by a sequence of chunks, one chunk after another.
pub open spec fn all_chunks_drawn<T>(cs: Seq<ChunkView<T>>) -> Seq<T>
    decreases cs.len(),
{
    if cs.len() == 0 {
        Seq::empty()
    } else {
        all_chunks_drawn(cs.drop_last()) + chunk_drawn(cs.last())
    }
}

/// All vertices of a sequence of chunks, in order.
pub open spec fn all_chunk_vertices<T>(cs: Seq<ChunkView<T>>) -> Seq<T>
    decreases cs.len(),
{
    if cs.len() == 0 {
        Seq::empty()
    } else {
        all_chunk_vertices(cs.drop_last()) + cs.last().0
    }
}

/// Whether a chunk holding several draw calls stays within both limits.
pub open spec fn within_limits<T>(c: ChunkView<T>, max_v: int, max_i: int) -> bool {
    c.2.len() >= 2 ==> c.0.len() <= max_v && c.1.len() <= max_i
}

/// The structure of every sent chunk.
pub open spec fn chunk_shape<T>(c: ChunkView<T>, max_v: int, max_i: int) -> bool {
    &&& draws_partition(c)
    &&& within_limits(c, max_v, max_i)
}

/// Adding a group keeps the draw calls of a chunk a partition of its
/// indices and appends the group's drawn vertices.
proof fn lemma_push_group<T>(c: ChunkView<T>, g: GroupView<T>)
    requires
        push_fits(c, g),
        draws_partition(c),
    ensures
        draws_partition(push_group(c, g)),
        push_group(c, g).2.len() == c.2.len() + 1,
        (chunk_in_range(c) && indices_in_range(g)) ==> {
            &&& chunk_in_range(push_group(c, g))
            &&& chunk_drawn(push_group(c, g)) == chunk_drawn(c) + drawn(g)
        },
{
    let n = push_group(c, g);
    assert forall|k: int| 0 <= k < n.2.len() - 1 implies #[trigger] n.2[k].index_start
        + n.2[k].index_count == n.2[k + 1].index_start by {
        assert(n.2[k] == c.2[k]);
        if k + 1 < c.2.len() {
            assert(n.2[k + 1] == c.2[k + 1]);
        }
    }
    if chunk_in_range(c) && indices_in_range(g) {
        let as_group: GroupView<T> = (g.0, c.0, c.1);
        assert(indices_in_range(as_group));
        lemma_merge_drawn(as_group, g);
        assert(merge_group(as_group, g).1 == n.0);
        assert(merge_group(as_group, g).2 == n.1);
        assert(chunk_drawn(n) =~= drawn(merge_group(as_group, g)));
        assert(chunk_drawn(c) =~= drawn(as_group));
    }
}

/// What holds of the chunks sent so far and of the chunk being filled.
#[verifier::spinoff_prover]
#[verifier::rlimit(40)]
proof fn lemma_plan_state<T>(s: Seq<GroupView<T>>, max_v: int, max_i: int)
    requires
        plan_fits(s, max_v, max_i),
    ensures
        ({
            let (done, cur) = plan_state(s, max_v, max_i);
            &&& forall|k: int|
                0 <= k < done.len() ==> #[trigger] chunk_shape(done[k], max_v, max_i) && done[k].0.len()
                    > 0 && done[k].2.len() > 0
            &&& chunk_shape(cur, max_v, max_i)
            &&& cur.2.len() > 0 || cur.0.len() == 0
            &&& all_chunk_vertices(done) + cur.0 == all_vertices(s)
            &&& (forall|k: int| 0 <= k < s.len() ==> indices_in_range(#[trigger] s[k])) ==> {
                &&& forall|k: int| 0 <= k < done.len() ==> chunk_in_range(#[trigger] done[k])
                &&& chunk_in_range(cur)
                &&& all_chunks_drawn(done) + chunk_drawn(cur) == all_drawn(s)
            }
        }),
    decreases s.len(),
{
    if s.len() == 0 {
        assert(all_chunk_vertices(Seq::<ChunkView<T>>::empty()) + Seq::<T>::empty() =~= Seq::<T>::empty());
        assert(all_chunks_drawn(Seq::<ChunkView<T>>::empty()) + chunk_drawn(empty_chunk::<T>()) =~= Seq::<T>::empty());
    } else {
        let p = s.drop_last();
        let g = s.last();
        lemma_plan_state(p, max_v, max_i);
        let (done, cur) = plan_state(p, max_v, max_i);
        let wf = forall|k: int| 0 <= k < s.len() ==> indices_in_range(#[trigger] s[k]);
        if wf {
            assert forall|k: int| 0 <= k < p.len() implies indices_in_range(#[trigger] p[k]) by {
                assert(p[k] == s[k]);
            }
            assert(indices_in_range(s[s.len() - 1]));
        }
        if overflows(cur, g, max_v, max_i) {
            let e = empty_chunk::<T>();
            lemma_push_group(e, g);
            let n = push_group(e, g);
            assert(n.0 =~= g.1);
            if cur.0.len() > 0 {
                let d2 = done.push(cur);
                assert(plan_state(s, max_v, max_i) == (d2, n));
                assert(d2.drop_last() =~= done);
                assert forall|k: int| 0 <= k < d2.len() implies #[trigger] chunk_shape(d2[k], max_v, max_i)
                    && d2[k].0.len() > 0 && d2[k].2.len() > 0 by {
                    if k < done.len() {
                        assert(d2[k] == done[k]);
                    } else {
                        assert(cur.2.len() > 0);
                    }
                }
                assert(all_chunk_vertices(d2) + n.0 =~= all_vertices(s));
                if wf {
                    assert forall|k: int| 0 <= k < d2.len() implies chunk_in_range(#[trigger] d2[k]) by {
                        if k < done.len() {
                            assert(d2[k] == done[k]);
                        }
                    }
                    assert(chunk_drawn(e) =~= Seq::<T>::empty());
                    assert(chunk_drawn(n) =~= drawn(g));
                    assert(all_chunks_drawn(d2) + chunk_drawn(n) =~= all_drawn(s));
                }
            } else {
                assert(plan_state(s, max_v, max_i) == (done, n));
                assert(all_chunk_vertices(done) + n.0 =~= all_vertices(s));
                if wf {
                    assert(cur.1.len() == 0) by {
                        if cur.1.len() > 0 {
                            assert(cur.1[0] < cur.0.len());
                        }
                    }
                    assert(chunk_drawn(cur) =~= Seq::<T>::empty());
                    assert(chunk_drawn(e) =~= Seq::<T>::empty());
                    assert(chunk_drawn(n) =~= drawn(g));
                    assert(all_chunks_drawn(done) + chunk_drawn(n) =~= all_drawn(s));
                }
            }
        } else {
            lemma_push_group(cur, g);
            let n = push_group(cur, g);
            assert(plan_state(s, max_v, max_i) == (done, n));
            assert(all_chunk_vertices(done) + n.0 =~= all_vertices(s));
            if wf {
                assert(all_chunks_drawn(done) + chunk_drawn(n) =~= all_drawn(s));
            }
        }
    }
}

/// Chunk planning sends every vertex of the groups, in order; every sent
/// chunk holds at least one vertex and one draw call, its draw calls cover
/// its index list exactly once, in order, and a chunk with several draw
/// calls stays within both limits. When every group's indices address its
/// own vertices, the sent chunks draw exactly the vertices that the groups
/// draw, in the same order.
pub proof fn lemma_plan_preserves<T>(s: Seq<GroupView<T>>, max_v: int, max_i: int)
    requires
        plan_fits(s, max_v, max_i),
    ensures
        forall|k: int|
            0 <= k < plan(s, max_v, max_i).len() ==> {
                &&& draws_partition(#[trigger] plan(s, max_v, max_i)[k])
                &&& within_limits(plan(s, max_v, max_i)[k], max_v, max_i)
                &&& plan(s, max_v, max_i)[k].0.len() > 0
                &&& plan(s, max_v, max_i)[k].2.len() > 0
            },
        all_chunk_vertices(plan(s, max_v, max_i)) == all_vertices(s),
        (forall|k: int| 0 <= k < s.len() ==> indices_in_range(#[trigger] s[k])) ==> all_chunks_drawn(
            plan(s, max_v, max_i),
        ) == all_drawn(s),
{
    lemma_plan_state(s, max_v, max_i);
    let (done, cur) = plan_state(s, max_v, max_i);
    let r = plan(s, max_v, max_i);
    if cur.0.len() > 0 {
        assert(r.drop_last() =~= done);
        assert forall|k: int| 0 <= k < r.len() implies {
            &&& draws_partition(#[trigger] r[k])
            &&& within_limits(r[k], max_v, max_i)
            &&& r[k].0.len() > 0
            &&& r[k].2.len() > 0
        } by {
            if k < done.len() {
                assert(r[k] == done[k]);
                assert(chunk_shape(done[k], max_v, max_i));
            } else {
                assert(cur.2.len() > 0) by {
                    if cur.2.len() == 0 {
                        assert(cur.1.len() == 0);
                    }
                }
            }
        }
    } else {
        assert(cur.0 =~= Seq::<T>::empty());
        assert(all_chunk_vertices(done) + cur.0 =~= all_chunk_vertices(done));
        assert forall|k: int| 0 <= k < r.len() implies {
            &&& draws_partition(#[trigger] r[k])
            &&& within_limits(r[k], max_v, max_i)
            &&& r[k].0.len() > 0
            &&& r[k].2.len() > 0
        } by {
            assert(chunk_shape(done[k], max_v, max_i));
        }
        if forall|k: int| 0 <= k < s.len() ==> indices_in_range(#[trigger] s[k]) {
            assert(cur.1.len() == 0) by {
                if cur.1.len() > 0 {
                    assert(cur.1[0] < cur.0.len());
                }
            }
            assert(chunk_drawn(cur) =~= Seq::<T>::empty());
            assert(all_chunks_drawn(done) + chunk_drawn(cur) =~= all_chunks_drawn(done));
        }
    }
}

/// All groups in one chunk, in order.
pub open spec fn merge_all<T>(s: Seq<GroupView<T>>) -> ChunkView<T>
    decreases s.len(),
{
    if s.len() == 0 {
        empty_chunk()
    } else {
        push_group(merge_all(s.drop_last()), s.last())
    }
}

/// Whether putting all groups in one chunk keeps every count and moved index
/// within `u32`.
pub open spec fn merge_fits<T>(s: Seq<GroupView<T>>) -> bool
    decreases s.len(),
{
    if s.len() == 0 {
        true
    } else {
        merge_fits(s.drop_last()) && push_fits(merge_all(s.drop_last()), s.last())
    }
}

/// A prefix of a sequence that merges without overflow also does.
pub proof fn lemma_merge_fits_prefix<T>(s: Seq<GroupView<T>>, k: int)
    requires
        merge_fits(s),
        0 <= k <= s.len(),
    ensures
        merge_fits(s.take(k)),
    decreases s.len(),
{
    if k < s.len() {
        lemma_merge_fits_prefix(s.drop_last(), k);
        assert(s.drop_last().take(k) =~= s.take(k));
    } else {
        assert(s.take(k) =~= s);
    }
}

/// Puts all batched groups into a single buffer, in order, each group
/// becoming one draw call over its moved indices.
pub fn merge_groups<T>(groups: Vec<DrawItem<T>>) -> (c: Chunk<T>)
    requires
        merge_fits(items_view(groups@)),
    ensures
        c@ == merge_all(items_view(groups@)),
{
    let ghost all = items_view(groups@);
    let mut cur: Chunk<T> = Chunk::new();
    proof {
        assert(all.take(0) =~= Seq::<GroupView<T>>::empty());
    }
    for g in it: groups.into_iter()
        invariant
            all == items_view(it.seq()),
            merge_fits(all),
            cur@ == merge_all(all.take(it.index() as int)),
    {
        let ghost i = it.index() as int;
        let ghost prefix = all.take(i + 1);
        proof {
            assert(prefix.drop_last() =~= all.take(i));
            assert(prefix.last() == g@);
            lemma_merge_fits_prefix(all, i + 1);
        }
        chunk_push_group(&mut cur, g);
    }
    proof {
        assert(all.take(all.len() as int) =~= all);
    }
    cur
}

/// The scissor rectangle under which a draw call runs on a surface of
/// `surface_w` by `surface_h` pixels, or `None` when the draw call is
/// skipped. Without a scissor the whole surface is used; otherwise the
/// rectangle is clamped to the surface, and a draw call whose clamped
/// rectangle is empty is skipped.
pub open spec fn spec_scissor_for_draw(key: Option<ScissorKey>, surface_w: u32, surface_h: u32) -> Option<ScissorKey> {
    match key {
        None => Some(ScissorKey { x: 0, y: 0, w: surface_w, h: surface_h }),
        Some(r) => {
            let x = if r.x < surface_w { r.x } else { surface_w };
            let y = if r.y < surface_h { r.y } else { surface_h };
            let room_w = if r.x <= surface_w { (surface_w - r.x) as u32 } else { 0u32 };
            let room_h = if r.y <= surface_h { (surface_h - r.y) as u32 } else { 0u32 };
            let w = if r.w < room_w { r.w } else { room_w };
            let h = if r.h < room_h { r.h } else { room_h };
            if w > 0 && h > 0 {
                Some(ScissorKey { x, y, w, h })
            } else {
                None
            }
        },
    }
}

/// Computes the scissor rectangle of a draw call clamped to the surface, or
/// `None` when the draw call is to be skipped.
pub fn scissor_for_draw(key: Option<ScissorKey>, surface_w: u32, surface_h: u32) -> (r: Option<ScissorKey>)
    ensures
        r == spec_scissor_for_draw(key, surface_w, surface_h),
{
    match key {
        None => Some(ScissorKey { x: 0, y: 0, w: surface_w, h: surface_h }),
        Some(rect) => {
            let x = if rect.x < surface_w { rect.x } else { surface_w };
            let y = if rect.y < surface_h { rect.y } else { surface_h };
            let room_w = surface_w.saturating_sub(rect.x);
            let room_h = surface_h.saturating_sub(rect.y);
            let w = if rect.w < room_w { rect.w } else { room_w };
            let h = if rect.h < room_h { rect.h } else { room_h };
            if w > 0 && h > 0 {
                Some(ScissorKey { x, y, w, h })
            } else {
                None
            }
        },
    }
}

/// A scissor rectangle that is used always lies within the surface, and a
/// clipped one is never empty.
pub proof fn lemma_scissor_within_surface(key: Option<ScissorKey>, surface_w: u32, surface_h: u32)
    ensures
        spec_scissor_for_draw(key, surface_w, surface_h) matches Some(r) ==> {
            &&& r.x + r.w <= surface_w
            &&& r.y + r.h <= surface_h
        },
        key is Some ==> (spec_scissor_for_draw(key, surface_w, surface_h) matches Some(r) ==> r.w > 0
            && r.h > 0),
{
}

/// Whether the pixel at (`px`, `py`) lies in the rectangle `k`.
pub open spec fn covers(k: ScissorKey, px: int, py: int) -> bool {
    &&& k.x <= px < k.x + k.w
    &&& k.y <= py < k.y + k.h
}

/// A scissor rectangle that starts on the surface and is not empty is cut at
/// the surface's right and bottom edges, never skipped: the draw call runs
/// from the same corner, as wide and as high as the rectangle or as the
/// room left on the surface, whichever is less.
pub proof fn lemma_scissor_cut_at_edges(r: ScissorKey, surface_w: u32, surface_h: u32)
    requires
        r.x < surface_w,
        r.y < surface_h,
        r.w > 0,
        r.h > 0,
    ensures
        spec_scissor_for_draw(Some(r), surface_w, surface_h) matches Some(k) && {
            &&& k.x == r.x
            &&& k.y == r.y
            &&& k.w <= r.w && k.w <= surface_w - r.x
            &&& (k.w == r.w || k.w == surface_w - r.x)
            &&& k.h <= r.h && k.h <= surface_h - r.y
            &&& (k.h == r.h || k.h == surface_h - r.y)
        },
{
}

/// A draw call runs under exactly the pixels that its scissor rectangle
/// and the surface have in common, and it is skipped exactly when they
/// have none in common; without a scissor it runs on the whole surface.
pub proof fn lemma_scissor_is_overlap(key: Option<ScissorKey>, surface_w: u32, surface_h: u32)
    ensures
        key matches Some(r) ==> (spec_scissor_for_draw(key, surface_w, surface_h) is None <==> !(r.x
            < surface_w && r.y < surface_h && r.w > 0 && r.h > 0)),
        spec_scissor_for_draw(key, surface_w, surface_h) matches Some(k) ==> forall|px: int, py: int|
            #![trigger covers(k, px, py)]
            covers(k, px, py) <==> (0 <= px < surface_w && 0 <= py < surface_h && (key matches Some(r)
                ==> covers(r, px, py))),
{
}

/// The scissor rectangle of a draw call in the single-buffer path: the whole
/// surface without a scissor, the rectangle as given when it is not empty,
/// and `None` (skip) when it is empty.
pub open spec fn spec_scissor_unclamped(key: Option<ScissorKey>, surface_w: u32, surface_h: u32) -> Option<ScissorKey> {
    match key {
        None => Some(ScissorKey { x: 0, y: 0, w: surface_w, h: surface_h }),
        Some(rect) => if rect.w > 0 && rect.h > 0 {
            Some(rect)
        } else {
            None
        },
    }
}

/// For a scissor rectangle that lies within the surface, clamping changes
/// nothing: both paths draw with the same rectangle or both skip.
pub proof fn lemma_scissor_inside_surface_unchanged(key: Option<ScissorKey>, surface_w: u32, surface_h: u32)
    requires
        key matches Some(r) ==> r.x + r.w <= surface_w && r.y + r.h <= surface_h,
    ensures
        spec_scissor_for_draw(key, surface_w, surface_h) == spec_scissor_unclamped(key, surface_w, surface_h),
{
}

/// The scissor rectangle of a draw call when every group of a frame is put in
/// one buffer: the whole surface without a scissor, the rectangle as given
/// when it is not empty, and `None` (skip) when it is empty.
pub fn scissor_unclamped(key: Option<ScissorKey>, surface_w: u32, surface_h: u32) -> (r: Option<ScissorKey>)
    ensures
        r == spec_scissor_unclamped(key, surface_w, surface_h),
{
    match key {
        None => Some(ScissorKey { x: 0, y: 0, w: surface_w, h: surface_h }),
        Some(rect) => if rect.w > 0 && rect.h > 0 {
            Some(rect)
        } else {
            None
        },
    }
}

/// Whether a frame of draw commands can be batched and chunked without any
/// count or moved index leaving `u32`.
pub open spec fn frame_fits<T>(s: Seq<GroupView<T>>) -> bool {
    &&& batch_fits(s)
    &&& plan_fits(batch_seq(s), MAX_VERTICES_PER_CHUNK as int, MAX_INDICES_PER_CHUNK as int)
}

/// Turns the draw commands of a frame into the chunks that are uploaded:
/// adjacent commands with the same key are batched, and the groups are
/// split into chunks within the per-chunk limits.
pub fn prepare_frame<T>(items: Vec<DrawItem<T>>) -> (chunks: Vec<Chunk<T>>)
    requires
        frame_fits(items_view(items@)),
    ensures
        chunks_view(chunks@) == plan(
            batch_seq(items_view(items@)),
            MAX_VERTICES_PER_CHUNK as int,
            MAX_INDICES_PER_CHUNK as int,
        ),
{
    let groups = batch_adjacent(items);
    plan_chunks(groups, MAX_VERTICES_PER_CHUNK, MAX_INDICES_PER_CHUNK)
}

/// A frame sends every vertex of its commands, in order, and when every
/// command's indices address its own vertices, the uploaded chunks draw
/// exactly the vertices that the commands draw, in the order they were
/// issued.
pub proof fn lemma_frame_draws_commands<T>(s: Seq<GroupView<T>>)
    requires
        frame_fits(s),
    ensures
        all_chunk_vertices(plan(batch_seq(s), MAX_VERTICES_PER_CHUNK as int, MAX_INDICES_PER_CHUNK as int))
            == all_vertices(s),
        (forall|k: int| 0 <= k < s.len() ==> indices_in_range(#[trigger] s[k])) ==> all_chunks_drawn(
            plan(batch_seq(s), MAX_VERTICES_PER_CHUNK as int, MAX_INDICES_PER_CHUNK as int),
        ) == all_drawn(s),
{
    lemma_batch_preserves(s);
    lemma_plan_preserves(batch_seq(s), MAX_VERTICES_PER_CHUNK as int, MAX_INDICES_PER_CHUNK as int);
}

} // verus!
