//! Searches over a snapshot of the widget tree: the widget under the
//! pointer, the drop target under the pointer, the focusable widgets in tree
//! order, and the path to a widget by identifier.
use vstd::prelude::*;

verus! {

/// What the searches need to know of one widget of the tree: its
/// identifier, whether the pointer is over it, whether it can take focus,
/// whether it accepts the dragged data, and its children in drawing order
/// (later children are drawn on top).
pub struct WidgetNode {
    pub id: Option<u64>,
    pub hit: bool,
    pub focusable: bool,
    pub accepts_drop: bool,
    pub children: Vec<WidgetNode>,
}

/// The widget under the pointer below `n`: none when the pointer is not over
/// `n`; otherwise the first hit found among the children from the topmost
/// (last) down, and else `n`'s own identifier.
pub open spec fn spec_hit(n: WidgetNode) -> Option<u64>
    decreases n, n.children@.len() + 1,
{
    if !n.hit {
        None
    } else {
        match spec_hit_children(n, n.children@.len() as int) {
            Some(id) => Some(id),
            None => n.id,
        }
    }
}

/// The first hit among the first `k` children of `n`, searched from child
/// `k - 1` down to child 0.
pub open spec fn spec_hit_children(n: WidgetNode, k: int) -> Option<u64>
    decreases n, k,
{
    if k <= 0 || k > n.children@.len() {
        None
    } else {
        proof {
            assert(decreases_to!(n => n.children));
            assert(decreases_to!(n.children => n.children@));
            assert(decreases_to!(n.children@ => n.children@[k - 1]));
        }
        match spec_hit(n.children@[k - 1]) {
            Some(id) => Some(id),
            None => spec_hit_children(n, k - 1),
        }
    }
}

/// The drop target under the pointer below `n`: like the widget under the
/// pointer, except that a widget only answers for itself when it accepts the
/// dragged data.
pub open spec fn spec_drop_target(n: WidgetNode) -> Option<u64>
    decreases n, n.children@.len() + 1,
{
    if !n.hit {
        None
    } else {
        match spec_drop_children(n, n.children@.len() as int) {
            Some(id) => Some(id),
            None => if n.accepts_drop {
                n.id
            } else {
                None
            },
        }
    }
}

/// The first drop target among the first `k` children of `n`, searched
/// from child `k - 1` down to child 0.
pub open spec fn spec_drop_children(n: WidgetNode, k: int) -> Option<u64>
    decreases n, k,
{
    if k <= 0 || k > n.children@.len() {
        None
    } else {
        proof {
            assert(decreases_to!(n => n.children));
            assert(decreases_to!(n.children => n.children@));
            assert(decreases_to!(n.children@ => n.children@[k - 1]));
        }
        match spec_drop_target(n.children@[k - 1]) {
            Some(id) => Some(id),
            None => spec_drop_children(n, k - 1),
        }
    }
}

/// The identifiers of the focusable widgets below `n`, in tree order (a
/// widget before its children, children in order).
pub open spec fn spec_focusable(n: WidgetNode) -> Seq<u64>
    decreases n, n.children@.len() + 1,
{
    let own: Seq<u64> = match n.id {
        Some(id) => if n.focusable {
            seq![id]
        } else {
            Seq::empty()
        },
        None => Seq::empty(),
    };
    own + spec_focusable_children(n, n.children@.len() as int)
}

/// The focusable widgets below the first `k` children of `n`, in tree order.
pub open spec fn spec_focusable_children(n: WidgetNode, k: int) -> Seq<u64>
    decreases n, k,
{
    if k <= 0 || k > n.children@.len() {
        Seq::empty()
    } else {
        proof {
            assert(decreases_to!(n => n.children));
            assert(decreases_to!(n.children => n.children@));
            assert(decreases_to!(n.children@ => n.children@[k - 1]));
        }
        spec_focusable_children(n, k - 1) + spec_focusable(n.children@[k - 1])
    }
}

/// The child indices leading from `n` to the first widget in tree order
/// whose identifier is `id`, if there is one.
pub open spec fn spec_find(n: WidgetNode, id: u64) -> Option<Seq<usize>>
    decreases n, n.children@.len() + 1,
{
    if n.id == Some(id) {
        Some(Seq::empty())
    } else {
        spec_find_children(n, id, 0)
    }
}

/// The path to the first widget with identifier `id` below the children of
/// `n` from child `k` on, with the child's index in front.
pub open spec fn spec_find_children(n: WidgetNode, id: u64, k: int) -> Option<Seq<usize>>
    decreases n, n.children@.len() - k,
{
    if k < 0 || k >= n.children@.len() {
        None
    } else {
        proof {
            assert(decreases_to!(n => n.children));
            assert(decreases_to!(n.children => n.children@));
            assert(decreases_to!(n.children@ => n.children@[k]));
        }
        match spec_find(n.children@[k], id) {
            Some(p) => Some(seq![k as usize] + p),
            None => spec_find_children(n, id, k + 1),
        }
    }
}

/// The paths `ps`, each with child index `k` in front.
pub open spec fn prefixed(k: usize, ps: Seq<Seq<usize>>) -> Seq<Seq<usize>> {
    ps.map_values(|p: Seq<usize>| seq![k] + p)
}

/// The paths to the widgets with identifier `id` below `n` that lie under
/// no other such widget, in tree order: `n` itself when it has that
/// identifier, else those below its children, child by child.
pub open spec fn spec_find_all(n: WidgetNode, id: u64) -> Seq<Seq<usize>>
    decreases n, n.children@.len() + 1,
{
    if n.id == Some(id) {
        seq![Seq::<usize>::empty()]
    } else {
        spec_find_all_children(n, id, 0)
    }
}

/// The paths of `spec_find_all` below the children of `n` from child `k`
/// on, with the child's index in front.
pub open spec fn spec_find_all_children(n: WidgetNode, id: u64, k: int) -> Seq<Seq<usize>>
    decreases n, n.children@.len() - k,
{
    if k < 0 || k >= n.children@.len() {
        Seq::empty()
    } else {
        proof {
            assert(decreases_to!(n => n.children));
            assert(decreases_to!(n.children => n.children@));
            assert(decreases_to!(n.children@ => n.children@[k]));
        }
        prefixed(k as usize, spec_find_all(n.children@[k], id)) + spec_find_all_children(n, id, k + 1)
    }
}

/// Whether the vectors `v` hold the paths `s`.
pub open spec fn paths_are(v: Seq<Vec<usize>>, s: Seq<Seq<usize>>) -> bool {
    &&& v.len() == s.len()
    &&& forall|i: int| 0 <= i < v.len() ==> #[trigger] v[i]@ == s[i]
}

/// The widget under the pointer: the deepest widget that the pointer is
/// over, preferring the topmost child, where a hit widget without an
/// identifier hands the search back to its parent.
pub fn hit_test(n: &WidgetNode) -> (r: Option<u64>)
    ensures
        r == spec_hit(*n),
    decreases n, n.children@.len() + 1,
{
    if !n.hit {
        return None;
    }
    match hit_test_children(n, n.children.len()) {
        Some(id) => Some(id),
        None => n.id,
    }
}

fn hit_test_children(n: &WidgetNode, k: usize) -> (r: Option<u64>)
    requires
        k <= n.children@.len(),
    ensures
        r == spec_hit_children(*n, k as int),
    decreases n, k,
{
    if k == 0 {
        return None;
    }
    proof {
        assert(decreases_to!(n => n.children));
        assert(decreases_to!(n.children => n.children@));
        assert(decreases_to!(n.children@ => n.children@[k - 1]));
    }
    match hit_test(&n.children[k - 1]) {
        Some(id) => Some(id),
        None => hit_test_children(n, k - 1),
    }
}

/// The drop target under the pointer: the deepest widget under the pointer
/// that accepts the dragged data, preferring the topmost child.
pub fn find_drop_target(n: &WidgetNode) -> (r: Option<u64>)
    ensures
        r == spec_drop_target(*n),
    decreases n, n.children@.len() + 1,
{
    if !n.hit {
        return None;
    }
    match find_drop_target_children(n, n.children.len()) {
        Some(id) => Some(id),
        None => if n.accepts_drop {
            n.id
        } else {
            None
        },
    }
}

fn find_drop_target_children(n: &WidgetNode, k: usize) -> (r: Option<u64>)
    requires
        k <= n.children@.len(),
    ensures
        r == spec_drop_children(*n, k as int),
    decreases n, k,
{
    if k == 0 {
        return None;
    }
    proof {
        assert(decreases_to!(n => n.children));
        assert(decreases_to!(n.children => n.children@));
        assert(decreases_to!(n.children@ => n.children@[k - 1]));
    }
    match find_drop_target(&n.children[k - 1]) {
        Some(id) => Some(id),
        None => find_drop_target_children(n, k - 1),
    }
}

/// Appends the identifiers of the focusable widgets below `n`, in tree
/// order, to `out`.
pub fn collect_focusable(n: &WidgetNode, out: &mut Vec<u64>)
    ensures
        final(out)@ == old(out)@ + spec_focusable(*n),
    decreases n, n.children@.len() + 1,
{
    let ghost start = out@;
    if n.focusable {
        if let Some(id) = n.id {
            out.push(id);
        }
    }
    let ghost own: Seq<u64> = match n.id {
        Some(id) => if n.focusable {
            seq![id]
        } else {
            Seq::empty()
        },
        None => Seq::empty(),
    };
    assert(out@ =~= start + own);
    let mut i: usize = 0;
    while i < n.children.len()
        invariant
            i <= n.children@.len(),
            out@ == start + own + spec_focusable_children(*n, i as int),
        decreases n.children@.len() - i,
    {
        proof {
            assert(decreases_to!(n => n.children));
            assert(decreases_to!(n.children => n.children@));
            assert(decreases_to!(n.children@ => n.children@[i as int]));
        }
        collect_focusable(&n.children[i], out);
        assert(spec_focusable_children(*n, i + 1) == spec_focusable_children(*n, i as int)
            + spec_focusable(n.children@[i as int]));
        assert(out@ =~= start + own + spec_focusable_children(*n, i + 1));
        i = i + 1;
    }
    assert(out@ =~= old(out)@ + spec_focusable(*n));
}

/// The paths to the widgets with identifier `id` that lie under no other
/// widget with that identifier, in tree order.
pub fn find_widgets(n: &WidgetNode, id: u64) -> (r: Vec<Vec<usize>>)
    ensures
        paths_are(r@, spec_find_all(*n, id)),
    decreases n, n.children@.len() + 1,
{
    let mut r: Vec<Vec<usize>> = Vec::new();
    if n.id == Some(id) {
        r.push(Vec::new());
        return r;
    }
    find_widgets_children(n, id, 0)
}

fn find_widgets_children(n: &WidgetNode, id: u64, k: usize) -> (r: Vec<Vec<usize>>)
    requires
        k <= n.children@.len(),
    ensures
        paths_are(r@, spec_find_all_children(*n, id, k as int)),
    decreases n, n.children@.len() - k,
{
    if k >= n.children.len() {
        return Vec::new();
    }
    proof {
        assert(decreases_to!(n => n.children));
        assert(decreases_to!(n.children => n.children@));
        assert(decreases_to!(n.children@ => n.children@[k as int]));
    }
    let sub = find_widgets(&n.children[k], id);
    let ghost sub_spec = spec_find_all(n.children@[k as int], id);
    let ghost want = prefixed(k, sub_spec);
    let mut r: Vec<Vec<usize>> = Vec::new();
    let mut i: usize = 0;
    while i < sub.len()
        invariant
            0 <= i <= sub@.len(),
            paths_are(sub@, sub_spec),
            want == prefixed(k, sub_spec),
            r@.len() == i,
            forall|j: int| 0 <= j < i ==> #[trigger] r@[j]@ == want[j],
        decreases sub@.len() - i,
    {
        let mut path: Vec<usize> = Vec::new();
        path.push(k);
        let mut j: usize = 0;
        while j < sub[i].len()
            invariant
                0 <= i < sub@.len(),
                0 <= j <= sub@[i as int]@.len(),
                path@ == seq![k] + sub@[i as int]@.take(j as int),
            decreases sub@[i as int]@.len() - j,
        {
            path.push(sub[i][j]);
            assert(sub@[i as int]@.take(j + 1) =~= sub@[i as int]@.take(j as int).push(sub@[i as int]@[j as int]));
            j = j + 1;
        }
        assert(sub@[i as int]@.take(sub@[i as int]@.len() as int) =~= sub@[i as int]@);
        assert(sub@[i as int]@ == sub_spec[i as int]);
        r.push(path);
        i = i + 1;
    }
    let mut rest = find_widgets_children(n, id, k + 1);
    let ghost mine = r@;
    let ghost rest_v = rest@;
    r.append(&mut rest);
    proof {
        let total = spec_find_all_children(*n, id, k as int);
        assert(total == want + spec_find_all_children(*n, id, k + 1));
        assert forall|j: int| 0 <= j < r@.len() implies #[trigger] r@[j]@ == total[j] by {
            if j < mine.len() {
                assert(r@[j] == mine[j]);
            } else {
                assert(r@[j] == rest_v[j - mine.len()]);
            }
        }
    }
    r
}

/// The child indices leading to the first widget in tree order whose
/// identifier is `id`.
pub fn find_widget(n: &WidgetNode, id: u64) -> (r: Option<Vec<usize>>)
    ensures
        match spec_find(*n, id) {
            Some(p) => r matches Some(v) && v@ == p,
            None => r is None,
        },
    decreases n, n.children@.len() + 1,
{
    if n.id == Some(id) {
        return Some(Vec::new());
    }
    find_widget_children(n, id, 0)
}

fn find_widget_children(n: &WidgetNode, id: u64, k: usize) -> (r: Option<Vec<usize>>)
    requires
        k <= n.children@.len(),
    ensures
        match spec_find_children(*n, id, k as int) {
            Some(p) => r matches Some(v) && v@ == p,
            None => r is None,
        },
    decreases n, n.children@.len() - k,
{
    if k >= n.children.len() {
        return None;
    }
    proof {
        assert(decreases_to!(n => n.children));
        assert(decreases_to!(n.children => n.children@));
        assert(decreases_to!(n.children@ => n.children@[k as int]));
    }
    match find_widget(&n.children[k], id) {
        Some(p) => {
            let mut path: Vec<usize> = Vec::new();
            path.push(k);
            let mut rest = p;
            path.append(&mut rest);
            Some(path)
        },
        None => find_widget_children(n, id, k + 1),
    }
}

/// The widget reached from `n` by following the child indices of `path`.
pub open spec fn node_at(n: WidgetNode, path: Seq<usize>) -> Option<WidgetNode>
    decreases path.len(),
{
    if path.len() == 0 {
        Some(n)
    } else if path[0] < n.children@.len() {
        node_at(n.children@[path[0] as int], path.drop_first())
    } else {
        None
    }
}

/// The path found for an identifier leads to a widget with that identifier.
pub proof fn lemma_find_leads_to_widget(n: WidgetNode, id: u64)
    ensures
        spec_find(n, id) matches Some(p) ==> (node_at(n, p) matches Some(m) && m.id == Some(id)),
    decreases n, n.children@.len() + 1,
{
    if n.id != Some(id) {
        lemma_find_children_leads_to_widget(n, id, 0);
    }
}

proof fn lemma_find_children_leads_to_widget(n: WidgetNode, id: u64, k: int)
    ensures
        spec_find_children(n, id, k) matches Some(p) ==> (node_at(n, p) matches Some(m) && m.id
            == Some(id)),
    decreases n, n.children@.len() - k,
{
    if 0 <= k < n.children@.len() {
        assert(decreases_to!(n => n.children));
        assert(decreases_to!(n.children => n.children@));
        assert(decreases_to!(n.children@ => n.children@[k]));
        let c = n.children@[k];
        lemma_find_leads_to_widget(c, id);
        match spec_find(c, id) {
            Some(q) => {
                let p = seq![k as usize] + q;
                assert(n.children.len() == n.children@.len());
                assert(p.drop_first() =~= q);
                assert(p[0] == k as usize);
                assert((k as usize) as int == k);
                assert(node_at(n, p) == node_at(c, q));
            },
            None => {
                lemma_find_children_leads_to_widget(n, id, k + 1);
            },
        }
    }
}

/// Whether the widget at `path` below `n` has identifier `id` and is under
/// the pointer.
pub open spec fn hit_at(n: WidgetNode, path: Seq<usize>, id: u64) -> bool {
    node_at(n, path) matches Some(m) && m.id == Some(id) && m.hit
}

/// Whether the widget at `path` below `n` has identifier `id`, is under the
/// pointer and accepts the dragged data.
pub open spec fn drop_at(n: WidgetNode, path: Seq<usize>, id: u64) -> bool {
    node_at(n, path) matches Some(m) && m.id == Some(id) && m.hit && m.accepts_drop
}

/// Following child `k` and then `q` is following `[k] + q`.
proof fn lemma_node_at_child(n: WidgetNode, k: int, q: Seq<usize>)
    requires
        0 <= k < n.children@.len(),
    ensures
        node_at(n, seq![k as usize] + q) == node_at(n.children@[k], q),
{
    let p = seq![k as usize] + q;
    assert(n.children.len() == n.children@.len());
    assert(p.drop_first() =~= q);
    assert(p[0] == k as usize);
}

/// The widget under the pointer is a widget of the tree with that
/// identifier that the pointer is over.
pub proof fn lemma_hit_is_under_pointer(n: WidgetNode)
    ensures
        spec_hit(n) matches Some(id) ==> exists|p: Seq<usize>| #[trigger] hit_at(n, p, id),
    decreases n, n.children@.len() + 1,
{
    if n.hit {
        lemma_hit_children_under_pointer(n, n.children@.len() as int);
        if spec_hit_children(n, n.children@.len() as int) is None {
            if let Some(id) = n.id {
                assert(hit_at(n, Seq::<usize>::empty(), id));
            }
        }
    }
}

proof fn lemma_hit_children_under_pointer(n: WidgetNode, k: int)
    ensures
        spec_hit_children(n, k) matches Some(id) ==> exists|p: Seq<usize>| #[trigger] hit_at(n, p, id),
    decreases n, k,
{
    if 0 < k <= n.children@.len() {
        assert(decreases_to!(n => n.children));
        assert(decreases_to!(n.children => n.children@));
        assert(decreases_to!(n.children@ => n.children@[k - 1]));
        let c = n.children@[k - 1];
        lemma_hit_is_under_pointer(c);
        match spec_hit(c) {
            Some(id) => {
                let q = choose|q: Seq<usize>| #[trigger] hit_at(c, q, id);
                lemma_node_at_child(n, k - 1, q);
                assert(hit_at(n, seq![(k - 1) as usize] + q, id));
            },
            None => {
                lemma_hit_children_under_pointer(n, k - 1);
            },
        }
    }
}

/// Searching the first `k` children from the top down, children above `i`
/// that have no hit are passed over, so child `i`'s hit is found.
proof fn lemma_hit_children_skip(n: WidgetNode, i: int, k: int)
    requires
        0 <= i < k <= n.children@.len(),
        forall|j: int| i < j < n.children@.len() ==> (#[trigger] spec_hit(n.children@[j])) is None,
    ensures
        spec_hit_children(n, k) == spec_hit_children(n, i + 1),
    decreases k,
{
    if k > i + 1 {
        assert(spec_hit(n.children@[k - 1]) is None);
        lemma_hit_children_skip(n, i, k - 1);
    }
}

/// Searching the first `k` children, none of which has a hit, finds none.
proof fn lemma_hit_children_none(n: WidgetNode, k: int)
    requires
        0 <= k <= n.children@.len(),
        forall|j: int| 0 <= j < n.children@.len() ==> (#[trigger] spec_hit(n.children@[j])) is None,
    ensures
        spec_hit_children(n, k) is None,
    decreases k,
{
    if k > 0 {
        assert(spec_hit(n.children@[k - 1]) is None);
        lemma_hit_children_none(n, k - 1);
    }
}

/// The widget under the pointer prefers the children: when the pointer is
/// over `n`, the answer is that of the topmost (last) child that has one,
/// every child being searched; `n` answers for itself only when no child
/// has an answer; and when the pointer is not over `n` there is none.
pub proof fn lemma_hit_prefers_topmost_child(n: WidgetNode, i: int)
    ensures
        !n.hit ==> spec_hit(n) is None,
        (n.hit && 0 <= i < n.children@.len() && spec_hit(n.children@[i]) is Some && (forall|j: int|
            i < j < n.children@.len() ==> (#[trigger] spec_hit(n.children@[j])) is None)) ==> spec_hit(n)
            == spec_hit(n.children@[i]),
        (n.hit && forall|j: int| 0 <= j < n.children@.len() ==> (#[trigger] spec_hit(n.children@[j])) is None)
            ==> spec_hit(n) == n.id,
{
    if n.hit && 0 <= i < n.children@.len() && spec_hit(n.children@[i]) is Some && (forall|j: int|
        i < j < n.children@.len() ==> (#[trigger] spec_hit(n.children@[j])) is None) {
        lemma_hit_children_skip(n, i, n.children@.len() as int);
    }
    if n.hit && forall|j: int| 0 <= j < n.children@.len() ==> (#[trigger] spec_hit(n.children@[j])) is None {
        lemma_hit_children_none(n, n.children@.len() as int);
    }
}

/// Searching the first `k` children from the top down, children above `i`
/// that have no drop target are passed over, so child `i`'s is found.
proof fn lemma_drop_children_skip(n: WidgetNode, i: int, k: int)
    requires
        0 <= i < k <= n.children@.len(),
        forall|j: int| i < j < n.children@.len() ==> (#[trigger] spec_drop_target(n.children@[j])) is None,
    ensures
        spec_drop_children(n, k) == spec_drop_children(n, i + 1),
    decreases k,
{
    if k > i + 1 {
        assert(spec_drop_target(n.children@[k - 1]) is None);
        lemma_drop_children_skip(n, i, k - 1);
    }
}

/// Searching the first `k` children, none of which has a drop target,
/// finds none.
proof fn lemma_drop_children_none(n: WidgetNode, k: int)
    requires
        0 <= k <= n.children@.len(),
        forall|j: int| 0 <= j < n.children@.len() ==> (#[trigger] spec_drop_target(n.children@[j])) is None,
    ensures
        spec_drop_children(n, k) is None,
    decreases k,
{
    if k > 0 {
        assert(spec_drop_target(n.children@[k - 1]) is None);
        lemma_drop_children_none(n, k - 1);
    }
}

/// The drop target under the pointer prefers the children: when the pointer
/// is over `n`, it is that of the topmost child that has one, every child
/// being searched; `n` answers for itself only when no child has one, and
/// then only when it accepts the data; and when the pointer is not over `n`
/// there is none.
pub proof fn lemma_drop_prefers_topmost_child(n: WidgetNode, i: int)
    ensures
        !n.hit ==> spec_drop_target(n) is None,
        (n.hit && 0 <= i < n.children@.len() && spec_drop_target(n.children@[i]) is Some && (forall|j: int|
            i < j < n.children@.len() ==> (#[trigger] spec_drop_target(n.children@[j])) is None))
            ==> spec_drop_target(n) == spec_drop_target(n.children@[i]),
        (n.hit && forall|j: int|
            0 <= j < n.children@.len() ==> (#[trigger] spec_drop_target(n.children@[j])) is None)
            ==> spec_drop_target(n) == (if n.accepts_drop { n.id } else { None }),
{
    if n.hit && 0 <= i < n.children@.len() && spec_drop_target(n.children@[i]) is Some && (forall|j: int|
        i < j < n.children@.len() ==> (#[trigger] spec_drop_target(n.children@[j])) is None) {
        lemma_drop_children_skip(n, i, n.children@.len() as int);
    }
    if n.hit && forall|j: int| 0 <= j < n.children@.len() ==> (#[trigger] spec_drop_target(n.children@[j])) is None {
        lemma_drop_children_none(n, n.children@.len() as int);
    }
}

/// The drop target under the pointer is a widget of the tree with that
/// identifier that the pointer is over and that accepts the dragged data.
pub proof fn lemma_drop_target_accepts(n: WidgetNode)
    ensures
        spec_drop_target(n) matches Some(id) ==> exists|p: Seq<usize>| #[trigger] drop_at(n, p, id),
    decreases n, n.children@.len() + 1,
{
    if n.hit {
        lemma_drop_children_accepts(n, n.children@.len() as int);
        if spec_drop_children(n, n.children@.len() as int) is None && n.accepts_drop {
            if let Some(id) = n.id {
                assert(drop_at(n, Seq::<usize>::empty(), id));
            }
        }
    }
}

proof fn lemma_drop_children_accepts(n: WidgetNode, k: int)
    ensures
        spec_drop_children(n, k) matches Some(id) ==> exists|p: Seq<usize>| #[trigger] drop_at(n, p, id),
    decreases n, k,
{
    if 0 < k <= n.children@.len() {
        assert(decreases_to!(n => n.children));
        assert(decreases_to!(n.children => n.children@));
        assert(decreases_to!(n.children@ => n.children@[k - 1]));
        let c = n.children@[k - 1];
        lemma_drop_target_accepts(c);
        match spec_drop_target(c) {
            Some(id) => {
                let q = choose|q: Seq<usize>| #[trigger] drop_at(c, q, id);
                lemma_node_at_child(n, k - 1, q);
                assert(drop_at(n, seq![(k - 1) as usize] + q, id));
            },
            None => {
                lemma_drop_children_accepts(n, k - 1);
            },
        }
    }
}

/// Whether the widget at `path` below `n` has identifier `id` and can take
/// focus.
pub open spec fn focusable_at(n: WidgetNode, path: Seq<usize>, id: u64) -> bool {
    node_at(n, path) matches Some(m) && m.id == Some(id) && m.focusable
}

/// Whether every identifier of `ids` is that of a widget below `n` that can
/// take focus.
pub open spec fn all_focusable_in(n: WidgetNode, ids: Seq<u64>) -> bool {
    forall|j: int| 0 <= j < ids.len() ==> #[trigger] is_focusable_widget(n, ids[j])
}

/// Whether some widget below `n` has identifier `id` and can take focus.
pub open spec fn is_focusable_widget(n: WidgetNode, id: u64) -> bool {
    exists|p: Seq<usize>| #[trigger] focusable_at(n, p, id)
}

/// Every identifier in the focus order is that of a widget of the tree that
/// can take focus.
pub proof fn lemma_focusable_listed(n: WidgetNode)
    ensures
        all_focusable_in(n, spec_focusable(n)),
    decreases n, n.children@.len() + 1,
{
    let own: Seq<u64> = match n.id {
        Some(id) => if n.focusable {
            seq![id]
        } else {
            Seq::empty()
        },
        None => Seq::empty(),
    };
    let rest = spec_focusable_children(n, n.children@.len() as int);
    lemma_focusable_children_listed(n, n.children@.len() as int);
    let all = spec_focusable(n);
    assert(all == own + rest);
    assert forall|j: int| 0 <= j < all.len() implies #[trigger] is_focusable_widget(n, all[j]) by {
        if j < own.len() {
            assert(focusable_at(n, Seq::<usize>::empty(), all[j]));
        } else {
            assert(all[j] == rest[j - own.len()]);
            assert(is_focusable_widget(n, rest[j - own.len()]));
        }
    }
}

proof fn lemma_focusable_children_listed(n: WidgetNode, k: int)
    ensures
        all_focusable_in(n, spec_focusable_children(n, k)),
    decreases n, k,
{
    let all = spec_focusable_children(n, k);
    if 0 < k <= n.children@.len() {
        assert(decreases_to!(n => n.children));
        assert(decreases_to!(n.children => n.children@));
        assert(decreases_to!(n.children@ => n.children@[k - 1]));
        let c = n.children@[k - 1];
        let before = spec_focusable_children(n, k - 1);
        let here = spec_focusable(c);
        lemma_focusable_children_listed(n, k - 1);
        lemma_focusable_listed(c);
        assert(all == before + here);
        assert forall|j: int| 0 <= j < all.len() implies #[trigger] is_focusable_widget(n, all[j]) by {
            if j < before.len() {
                assert(all[j] == before[j]);
                assert(is_focusable_widget(n, before[j]));
            } else {
                let id = here[j - before.len()];
                assert(all[j] == id);
                assert(is_focusable_widget(c, here[j - before.len()]));
                let q = choose|q: Seq<usize>| #[trigger] focusable_at(c, q, id);
                lemma_node_at_child(n, k - 1, q);
                assert(focusable_at(n, seq![(k - 1) as usize] + q, id));
            }
        }
        assert(all_focusable_in(n, all));
    } else {
        assert(all.len() == 0);
    }
}


/// Every path that `find_widgets` gives leads to a widget with the searched
/// identifier, and the first of them is the path that `find_widget` gives
/// (none when there is none).
pub proof fn lemma_find_all_lead_to_widgets(n: WidgetNode, id: u64)
    ensures
        forall|i: int|
            0 <= i < spec_find_all(n, id).len() ==> (node_at(n, #[trigger] spec_find_all(n, id)[i]) matches Some(
                m,
            ) && m.id == Some(id)),
        spec_find(n, id) == (if spec_find_all(n, id).len() > 0 {
            Some(spec_find_all(n, id)[0])
        } else {
            None
        }),
    decreases n, n.children@.len() + 1,
{
    if n.id != Some(id) {
        lemma_find_all_children_lead(n, id, 0);
    }
}

proof fn lemma_find_all_children_lead(n: WidgetNode, id: u64, k: int)
    ensures
        forall|i: int|
            0 <= i < spec_find_all_children(n, id, k).len() ==> (node_at(
                n,
                #[trigger] spec_find_all_children(n, id, k)[i],
            ) matches Some(m) && m.id == Some(id)),
        spec_find_children(n, id, k) == (if spec_find_all_children(n, id, k).len() > 0 {
            Some(spec_find_all_children(n, id, k)[0])
        } else {
            None
        }),
    decreases n, n.children@.len() - k,
{
    if 0 <= k < n.children@.len() {
        assert(decreases_to!(n => n.children));
        assert(decreases_to!(n.children => n.children@));
        assert(decreases_to!(n.children@ => n.children@[k]));
        let c = n.children@[k];
        lemma_find_all_lead_to_widgets(c, id);
        lemma_find_all_children_lead(n, id, k + 1);
        let mine = prefixed(k as usize, spec_find_all(c, id));
        let rest = spec_find_all_children(n, id, k + 1);
        let all = spec_find_all_children(n, id, k);
        assert(all == mine + rest);
        assert forall|i: int| 0 <= i < all.len() implies (node_at(n, #[trigger] all[i]) matches Some(m) && m.id
            == Some(id)) by {
            if i < mine.len() {
                let q = spec_find_all(c, id)[i];
                assert(all[i] == seq![k as usize] + q);
                lemma_node_at_child(n, k, q);
            } else {
                assert(all[i] == rest[i - mine.len()]);
            }
        }
        if spec_find_all(c, id).len() > 0 {
            assert(all[0] == seq![k as usize] + spec_find_all(c, id)[0]);
        } else {
            assert(all =~= rest);
        }
    }
}

} // verus!
