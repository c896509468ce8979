//! LinkEngine (association cortex): traverses the typed link network.
use vstd::prelude::*;
use crate::graph::{GraphStore, position_of};
use crate::types::MemoryId;

verus! {

/// The engine that traverses and analyses the associative link network.
pub struct LinkEngine;

/// `p` is a walk along the edges `e`: at least one node, each next node
/// reached by an edge from the one before.
pub open spec fn is_walk(e: Set<(int, int)>, p: Seq<int>) -> bool {
    p.len() >= 1 && forall|k: int| 0 <= k < p.len() - 1 ==> #[trigger] e.contains((p[k], p[k + 1]))
}

/// Some walk along `e` leads from `s` to `t`.
pub open spec fn reaches(e: Set<(int, int)>, s: int, t: int) -> bool {
    exists|p: Seq<int>| is_walk(e, p) && p[0] == s && p.last() == t
}

/// `p` names, memory by memory, a walk along `e` from position `s` to
/// position `t`, where `ids` gives the memory id of each position.
pub open spec fn is_id_path(
    e: Set<(int, int)>,
    ids: Seq<Seq<char>>,
    s: int,
    t: int,
    p: Seq<MemoryId>,
) -> bool {
    exists|ip: Seq<int>|
        {
            &&& is_walk(e, ip)
            &&& ip[0] == s
            &&& ip.last() == t
            &&& ip.len() == p.len()
            &&& forall|k: int|
                0 <= k < ip.len() ==> 0 <= ip[k] < ids.len() && (#[trigger] p[k])@ == ids[ip[k]]
        }
}

/// No walk along `e` from `s` to `t` has fewer than `len` nodes.
pub open spec fn no_shorter_walk(e: Set<(int, int)>, s: int, t: int, len: int) -> bool {
    forall|q: Seq<int>| #![trigger is_walk(e, q)] is_walk(e, q) && q[0] == s && q.last() == t ==> q.len() >= len
}

/// A set of nodes closed under the edges holds the end of every walk that
/// starts in it.
pub proof fn lemma_closed_holds_walk_ends(e: Set<(int, int)>, vis: Set<int>, p: Seq<int>)
    requires
        is_walk(e, p),
        vis.contains(p[0]),
        forall|a: int, b: int| vis.contains(a) && #[trigger] e.contains((a, b)) ==> vis.contains(b),
    ensures
        vis.contains(p.last()),
    decreases p.len(),
{
    if p.len() > 1 {
        let q = p.drop_last();
        assert forall|k: int| 0 <= k < q.len() - 1 implies #[trigger] e.contains((q[k], q[k + 1])) by {
            assert(e.contains((p[k], p[k + 1])));
        }
        lemma_closed_holds_walk_ends(e, vis, q);
        let k = p.len() - 2;
        assert(e.contains((p[k], p[k + 1])));
        assert(q.last() == p[k]);
    }
}

/// A list of distinct positions below `n` has at most `n` entries.
proof fn lemma_distinct_below(q: Seq<int>, n: int)
    requires
        0 <= n,
        forall|j: int| 0 <= j < q.len() ==> 0 <= #[trigger] q[j] < n,
        forall|i: int, j: int| 0 <= i < q.len() && 0 <= j < q.len() && i != j ==> q[i] != q[j],
    ensures
        q.len() <= n,
{
    assert(q.no_duplicates());
    q.unique_seq_to_set();
    let r = vstd::set_lib::set_int_range(0, n);
    vstd::set_lib::lemma_int_range(0, n);
    assert(q.to_set().subset_of(r));
    vstd::set_lib::lemma_len_subset(q.to_set(), r);
}

/// The state of a breadth-first search from `src` that has not reached
/// `tgt` yet: `parent[v] == n` marks an unreached node; the queue lists the
/// reached nodes once each; a reached node other than `src` has a reached
/// parent one edge before it and one step further from `src`.
#[verifier::opaque]
pub open spec fn bfs_inv(
    e: Set<(int, int)>,
    n: int,
    src: int,
    tgt: int,
    parent: Seq<usize>,
    dist: Seq<usize>,
    queue: Seq<usize>,
) -> bool {
    &&& 0 <= src < n
    &&& 0 <= tgt < n
    &&& src != tgt
    &&& parent.len() == n
    &&& dist.len() == n
    &&& 1 <= queue.len() <= n
    &&& parent[src] == src
    &&& dist[src] == 0
    &&& parent[tgt] == n
    &&& forall|a: int, b: int| #[trigger] e.contains((a, b)) ==> 0 <= a < n && 0 <= b < n
    &&& forall|j: int| 0 <= j < queue.len() ==> (#[trigger] queue[j]) < n && parent[queue[j] as int] != n
    &&& forall|i: int, j: int| 0 <= i < j < queue.len() ==> queue[i] != queue[j]
    &&& forall|v: int| 0 <= v < n && #[trigger] parent[v] != n ==> exists|j: int| 0 <= j < queue.len() && queue[j] == v
    &&& forall|v: int|
        0 <= v < n && v != src && #[trigger] parent[v] != n ==> {
            &&& parent[v] < n
            &&& parent[parent[v] as int] != n
            &&& e.contains((parent[v] as int, v))
            &&& dist[v] == dist[parent[v] as int] + 1
        }
    &&& forall|v: int| 0 <= v < n && parent[v] != n ==> #[trigger] dist[v] < queue.len()
}

/// The distance facts of a breadth-first search whose queue is processed up
/// to `head`: distances never decrease along the queue and span at most one
/// level beyond the node at `head`; no walk from `src` to a reached node is
/// shorter than its distance; and every node a walk shorter than the
/// distance at `head` leads to is reached, at a distance no greater.
#[verifier::opaque]
pub open spec fn bfs_levels(
    e: Set<(int, int)>,
    n: int,
    src: int,
    parent: Seq<usize>,
    dist: Seq<usize>,
    queue: Seq<usize>,
    head: int,
) -> bool {
    &&& forall|i: int, j: int|
        0 <= i <= j < queue.len() ==> dist[#[trigger] queue[i] as int] <= dist[#[trigger] queue[j] as int]
    &&& head < queue.len() ==> dist[queue[queue.len() - 1] as int] <= dist[queue[head] as int] + 1
    &&& forall|p: Seq<int>|
        #![trigger is_walk(e, p)]
        is_walk(e, p) && p[0] == src && 0 <= p.last() < n && parent[p.last()] != n ==> p.len() - 1
            >= dist[p.last()]
    &&& head < queue.len() ==> forall|p: Seq<int>|
        #![trigger is_walk(e, p)]
        is_walk(e, p) && p[0] == src && p.len() - 1 < dist[queue[head] as int] ==> 0 <= p.last() < n
            && parent[p.last()] != n && dist[p.last()] <= p.len() - 1
}

/// Every edge out of the first `head` queued nodes leads to a reached node,
/// at most one step further from `src`.
#[verifier::opaque]
pub open spec fn closed_upto(
    e: Set<(int, int)>,
    n: int,
    parent: Seq<usize>,
    dist: Seq<usize>,
    queue: Seq<usize>,
    head: int,
) -> bool {
    forall|j: int, b: int|
        0 <= j < head && #[trigger] e.contains((queue[j] as int, b)) ==> 0 <= b < n && parent[b] != n
            && dist[b] <= dist[queue[j] as int] + 1
}

proof fn lemma_bfs_bounds(
    e: Set<(int, int)>,
    n: int,
    src: int,
    tgt: int,
    parent: Seq<usize>,
    dist: Seq<usize>,
    queue: Seq<usize>,
    head: int,
)
    requires
        bfs_inv(e, n, src, tgt, parent, dist, queue),
        0 <= head < queue.len(),
    ensures
        queue[head] < n,
        n <= usize::MAX,
        dist[queue[head] as int] < queue.len(),
{
    reveal(bfs_inv);
}

proof fn lemma_bfs_lengths(
    e: Set<(int, int)>,
    n: int,
    src: int,
    tgt: int,
    parent: Seq<usize>,
    dist: Seq<usize>,
    queue: Seq<usize>,
)
    requires
        bfs_inv(e, n, src, tgt, parent, dist, queue),
    ensures
        parent.len() == n,
        dist.len() == n,
        queue.len() <= n,
{
    reveal(bfs_inv);
}

/// Reaching more nodes, without changing the distances of those already
/// reached, and queueing more keeps the processed prefix closed.
proof fn lemma_closed_grows(
    e: Set<(int, int)>,
    n: int,
    src: int,
    tgt: int,
    p0: Seq<usize>,
    p1: Seq<usize>,
    d0: Seq<usize>,
    d1: Seq<usize>,
    q0: Seq<usize>,
    q1: Seq<usize>,
    head: int,
)
    requires
        bfs_inv(e, n, src, tgt, p0, d0, q0),
        closed_upto(e, n, p0, d0, q0, head),
        p0.len() == p1.len(),
        d0.len() == d1.len(),
        forall|v: int| 0 <= v < n && p0[v] != n ==> p1[v] != n && d1[v] == d0[v],
        q0.len() <= q1.len(),
        forall|j: int| 0 <= j < q0.len() ==> q1[j] == q0[j],
        0 <= head <= q0.len(),
    ensures
        closed_upto(e, n, p1, d1, q1, head),
{
    reveal(closed_upto);
    reveal(bfs_inv);
    assert forall|j: int, b: int| 0 <= j < head && #[trigger] e.contains((q1[j] as int, b)) implies 0
        <= b < n && p1[b] != n && d1[b] <= d1[q1[j] as int] + 1 by {
        assert(q1[j] == q0[j]);
        assert(e.contains((q0[j] as int, b)));
        assert(p0[q0[j] as int] != n);
    }
}

/// A reached node lies at most one step beyond the node at `head`.
proof fn lemma_reached_within(
    e: Set<(int, int)>,
    n: int,
    src: int,
    tgt: int,
    parent: Seq<usize>,
    dist: Seq<usize>,
    queue: Seq<usize>,
    head: int,
    w: int,
)
    requires
        bfs_inv(e, n, src, tgt, parent, dist, queue),
        bfs_levels(e, n, src, parent, dist, queue, head),
        0 <= head < queue.len(),
        0 <= w < n,
        parent[w] != n,
    ensures
        dist[w] <= dist[queue[head] as int] + 1,
{
    reveal(bfs_inv);
    reveal(bfs_levels);
    let j = choose|j: int| 0 <= j < queue.len() && queue[j] == w;
    let last = queue.len() - 1;
    assert(dist[queue[j] as int] <= dist[queue[last] as int]);
}

/// Once every edge out of the node at `head` leads to a reached node, the
/// distance facts hold one place further along the queue.
proof fn lemma_levels_advance(
    e: Set<(int, int)>,
    n: int,
    src: int,
    tgt: int,
    parent: Seq<usize>,
    dist: Seq<usize>,
    queue: Seq<usize>,
    head: int,
)
    requires
        bfs_inv(e, n, src, tgt, parent, dist, queue),
        bfs_levels(e, n, src, parent, dist, queue, head),
        closed_upto(e, n, parent, dist, queue, head + 1),
        0 <= head < queue.len(),
    ensures
        bfs_levels(e, n, src, parent, dist, queue, head + 1),
{
    reveal(bfs_inv);
    reveal(bfs_levels);
    reveal(closed_upto);
    let u = queue[head];
    if head + 1 < queue.len() {
        let nx = queue[head + 1];
        assert(dist[u as int] <= dist[nx as int]);
        assert forall|p: Seq<int>|
            #![trigger is_walk(e, p)]
            is_walk(e, p) && p[0] == src && p.len() - 1 < dist[nx as int] implies 0 <= p.last() < n
                && parent[p.last()] != n && dist[p.last()] <= p.len() - 1 by {
            if p.len() - 1 >= dist[u as int] {
                if p.len() == 1 {
                    assert(p.last() == src);
                } else {
                    let pp = p.drop_last();
                    assert forall|k: int| 0 <= k < pp.len() - 1 implies #[trigger] e.contains(
                        (pp[k], pp[k + 1]),
                    ) by {
                        assert(e.contains((p[k], p[k + 1])));
                    }
                    assert(is_walk(e, pp));
                    let x = pp.last();
                    assert(0 <= x < n && parent[x] != n && dist[x] <= pp.len() - 1);
                    let jx = choose|jx: int| 0 <= jx < queue.len() && queue[jx] == x;
                    if jx >= head + 1 {
                        assert(dist[queue[head] as int] <= dist[queue[jx] as int]);
                    }
                    let k = p.len() - 2;
                    assert(e.contains((p[k], p[k + 1])));
                    assert(e.contains((queue[jx] as int, p.last())));
                }
            }
        }
    }
}

/// The parent links recorded by a search from `src`: each reached node
/// other than `src` has a reached parent one edge before it and one step
/// nearer to `src`.
pub open spec fn parent_chain(e: Set<(int, int)>, n: int, src: int, parent: Seq<usize>, dist: Seq<usize>) -> bool {
    &&& parent.len() == n
    &&& dist.len() == n
    &&& 0 <= src < n
    &&& parent[src] == src
    &&& dist[src] == 0
    &&& forall|v: int|
        0 <= v < n && v != src && #[trigger] parent[v] != n ==> {
            &&& parent[v] < n
            &&& parent[parent[v] as int] != n
            &&& e.contains((parent[v] as int, v))
            &&& dist[v] == dist[parent[v] as int] + 1
        }
}

/// The search state after reaching `w` from the queued node `u`.
pub open spec fn reached_from(p0: Seq<usize>, d0: Seq<usize>, q0: Seq<usize>, u: int, w: int) -> (
    Seq<usize>,
    Seq<usize>,
    Seq<usize>,
) {
    (p0.update(w, u as usize), d0.update(w, (d0[u] + 1) as usize), q0.push(w as usize))
}

/// Reaching an unreached `w` from the queued node `u` keeps the search
/// state, and the queue still fits below `n`.
proof fn lemma_visit_state(
    e: Set<(int, int)>,
    n: int,
    src: int,
    tgt: int,
    p0: Seq<usize>,
    d0: Seq<usize>,
    q0: Seq<usize>,
    head: int,
    u: int,
    w: int,
)
    requires
        bfs_inv(e, n, src, tgt, p0, d0, q0),
        0 <= head < q0.len(),
        q0[head] == u,
        0 <= w < n,
        e.contains((u, w)),
        p0[w] == n,
    ensures
        q0.len() < n,
        p0.len() == n,
        d0.len() == n,
        0 <= u < n,
        d0[u] < q0.len(),
        p0[u] != n,
        u != w,
        ({
            let (p1, d1, q1) = reached_from(p0, d0, q0, u, w);
            &&& parent_chain(e, n, src, p1, d1)
            &&& w != tgt ==> bfs_inv(e, n, src, tgt, p1, d1, q1)
        }),
{
    reveal(bfs_inv);
    let qi = q0.map_values(|x: usize| x as int).push(w);
    assert forall|j: int| 0 <= j < qi.len() implies 0 <= #[trigger] qi[j] < n by {
        if j < q0.len() {
            assert(q0[j] < n);
        }
    }
    assert forall|i: int, j: int| 0 <= i < qi.len() && 0 <= j < qi.len() && i != j implies qi[i] != qi[j] by {
        if i < q0.len() && j < q0.len() {
            if i < j {
                assert(q0[i] != q0[j]);
            } else {
                assert(q0[j] != q0[i]);
            }
        } else if i < q0.len() {
            assert(p0[q0[i] as int] != n);
        } else if j < q0.len() {
            assert(p0[q0[j] as int] != n);
        }
    }
    lemma_distinct_below(qi, n);
    assert(q0[head] < n);
    assert(p0[u] != n);
    let (p1, d1, q1) = reached_from(p0, d0, q0, u, w);
    assert forall|v: int| 0 <= v < n && v != src && #[trigger] p1[v] != n implies {
        &&& p1[v] < n
        &&& p1[p1[v] as int] != n
        &&& e.contains((p1[v] as int, v))
        &&& d1[v] == d1[p1[v] as int] + 1
    } by {
        if v != w {
            assert(p0[v] != n);
            assert(p0[v] != w) by {
                assert(p0[p0[v] as int] != n);
            }
        }
    }
    if w != tgt {
        assert forall|v: int| 0 <= v < n && #[trigger] p1[v] != n implies exists|j: int|
            0 <= j < q1.len() && q1[j] == v by {
            if v == w {
                assert(q1[q1.len() - 1] == v);
            } else {
                assert(p0[v] != n);
                let j = choose|j: int| 0 <= j < q0.len() && q0[j] == v;
                assert(q1[j] == v);
            }
        }
        assert forall|j: int| 0 <= j < q1.len() implies (#[trigger] q1[j]) < n && p1[q1[j] as int] != n by {
            if j < q0.len() {
                assert(q0[j] < n && p0[q0[j] as int] != n);
            }
        }
        assert forall|i: int, j: int| 0 <= i < j < q1.len() implies q1[i] != q1[j] by {
            if j == q0.len() {
                assert(p0[q0[i] as int] != n);
            }
        }
        assert forall|v: int| 0 <= v < n && p1[v] != n implies #[trigger] d1[v] < q1.len() by {
            if v != w {
                assert(p0[v] != n);
                assert(d0[v] < q0.len());
            }
        }
        assert(bfs_inv(e, n, src, tgt, p1, d1, q1));
    }
}

/// Reaching an unreached `w` from the queued node `u` at `head` keeps the
/// distance facts at `head`.
#[verifier::rlimit(30)]
proof fn lemma_visit_levels(
    e: Set<(int, int)>,
    n: int,
    src: int,
    tgt: int,
    p0: Seq<usize>,
    d0: Seq<usize>,
    q0: Seq<usize>,
    head: int,
    u: int,
    w: int,
)
    requires
        bfs_inv(e, n, src, tgt, p0, d0, q0),
        bfs_levels(e, n, src, p0, d0, q0, head),
        closed_upto(e, n, p0, d0, q0, head),
        0 <= head < q0.len(),
        q0[head] == u,
        0 <= w < n,
        e.contains((u, w)),
        p0[w] == n,
    ensures
        ({
            let (p1, d1, q1) = reached_from(p0, d0, q0, u, w);
            bfs_levels(e, n, src, p1, d1, q1, head)
        }),
{
    reveal(bfs_inv);
    reveal(bfs_levels);
    reveal(closed_upto);
    assert(q0[head] < n);
    assert(p0[u] != n);
    let (p1, d1, q1) = reached_from(p0, d0, q0, u, w);
    let last = q0.len() - 1;
    assert(d0[q0[last] as int] <= d0[u] + 1);
    assert forall|i: int, j: int|
        0 <= i <= j < q1.len() implies d1[#[trigger] q1[i] as int] <= d1[#[trigger] q1[j] as int] by {
        if j < q0.len() {
            assert(q0[i] != w && q0[j] != w) by {
                assert(p0[q0[i] as int] != n);
                assert(p0[q0[j] as int] != n);
            }
            assert(d0[q0[i] as int] <= d0[q0[j] as int]);
        } else if i < q0.len() {
            assert(q0[i] != w) by {
                assert(p0[q0[i] as int] != n);
            }
            assert(d0[q0[i] as int] <= d0[q0[last] as int]);
        }
    }
    // No walk to w is shorter than its distance.
    assert forall|p: Seq<int>|
        #![trigger is_walk(e, p)]
        is_walk(e, p) && p[0] == src && p.last() == w implies p.len() - 1 >= d1[w] by {
        if p.len() - 1 < d1[w] {
            assert(p.len() >= 2) by {
                if p.len() == 1 {
                    assert(p[0] == p.last());
                    assert(p0[src] != n);
                }
            }
            let pp = p.drop_last();
            assert forall|k: int| 0 <= k < pp.len() - 1 implies #[trigger] e.contains((pp[k], pp[k + 1])) by {
                assert(e.contains((p[k], p[k + 1])));
            }
            assert(is_walk(e, pp));
            let x = pp.last();
            assert(0 <= x < n && p0[x] != n && d0[x] <= pp.len() - 1);
            let jx = choose|jx: int| 0 <= jx < q0.len() && q0[jx] == x;
            if jx >= head {
                assert(d0[q0[head] as int] <= d0[q0[jx] as int]);
            } else {
                let k = p.len() - 2;
                assert(e.contains((p[k], p[k + 1])));
                assert(e.contains((q0[jx] as int, w)));
            }
        }
    }
    assert forall|p: Seq<int>|
        #![trigger is_walk(e, p)]
        is_walk(e, p) && p[0] == src && 0 <= p.last() < n && p1[p.last()] != n implies p.len() - 1
            >= d1[p.last()] by {
        if p.last() != w {
            assert(p0[p.last()] != n);
        }
    }
    assert forall|p: Seq<int>|
        #![trigger is_walk(e, p)]
        is_walk(e, p) && p[0] == src && p.len() - 1 < d1[q1[head] as int] implies 0 <= p.last() < n
            && p1[p.last()] != n && d1[p.last()] <= p.len() - 1 by {
        assert(q1[head] == q0[head]);
        assert(p0[p.last()] != n);
        assert(p.last() != w);
    }
}

/// Reach `w` from `u` (the queued node at `head`): record its parent and
/// distance, and queue it.
fn visit(
    parent: &mut Vec<usize>,
    dist: &mut Vec<usize>,
    queue: &mut Vec<usize>,
    head: usize,
    u: usize,
    w: usize,
    Ghost(e): Ghost<Set<(int, int)>>,
    Ghost(n): Ghost<usize>,
    Ghost(src): Ghost<usize>,
    Ghost(tgt): Ghost<usize>,
)
    requires
        bfs_inv(e, n as int, src as int, tgt as int, old(parent)@, old(dist)@, old(queue)@),
        bfs_levels(e, n as int, src as int, old(parent)@, old(dist)@, old(queue)@, head as int),
        closed_upto(e, n as int, old(parent)@, old(dist)@, old(queue)@, head as int),
        head < old(queue)@.len(),
        old(queue)@[head as int] == u,
        w < n,
        e.contains((u as int, w as int)),
        old(parent)@[w as int] == n,
    ensures
        (final(parent)@, final(dist)@, final(queue)@) == reached_from(
            old(parent)@,
            old(dist)@,
            old(queue)@,
            u as int,
            w as int,
        ),
        final(dist)@[w as int] == old(dist)@[u as int] + 1,
        u != w,
        parent_chain(e, n as int, src as int, final(parent)@, final(dist)@),
        w != tgt ==> bfs_inv(e, n as int, src as int, tgt as int, final(parent)@, final(dist)@, final(queue)@),
        bfs_levels(e, n as int, src as int, final(parent)@, final(dist)@, final(queue)@, head as int),
        no_shorter_walk(e, src as int, w as int, final(dist)@[w as int] + 1),
{
    proof {
        lemma_visit_state(e, n as int, src as int, tgt as int, parent@, dist@, queue@, head as int, u as int, w as int);
        lemma_visit_levels(e, n as int, src as int, tgt as int, parent@, dist@, queue@, head as int, u as int, w as int);
    }
    let ghost p0 = parent@;
    let ghost d0 = dist@;
    let ghost q0 = queue@;
    let du = dist[u];
    parent.set(w, u);
    dist.set(w, du + 1);
    queue.push(w);
    proof {
        assert((parent@, dist@, queue@) == reached_from(p0, d0, q0, u as int, w as int));
        reveal(bfs_levels);
        assert(parent@[w as int] != n);
    }
}

impl Default for LinkEngine {
    fn default() -> (r: Self)
        ensures
            r == LinkEngine,
    {
        LinkEngine::new()
    }
}

impl LinkEngine {
    /// A link engine.
    pub fn new() -> (r: Self)
        ensures
            r == LinkEngine,
    {
        LinkEngine
    }

    /// A shortest directed path, found breadth-first, from `source` to
    /// `target`: the memory ids along it, both ends included, no walk from
    /// one to the other being shorter; `None` when either memory is not in
    /// the graph or no path leads there.
    #[verifier::rlimit(60)]
    #[verifier::spinoff_prover]
    pub fn find_path(&self, graph: &GraphStore, source: &MemoryId, target: &MemoryId) -> (r: Option<
        Vec<MemoryId>,
    >)
        requires
            graph.wf(),
        ensures
            match (position_of(graph.node_ids(), source@), position_of(
                graph.node_ids(),
                target@,
            )) {
                (Some(s), Some(t)) => match r {
                    Some(p) => is_id_path(graph.edges(), graph.node_ids(), s, t, p@) && no_shorter_walk(
                        graph.edges(),
                        s,
                        t,
                        p@.len() as int,
                    ),
                    None => !reaches(graph.edges(), s, t),
                },
                _ => r is None,
            },
    {
        let src = match graph.index_of(source) {
            Some(i) => i,
            None => return None,
        };
        let tgt = match graph.index_of(target) {
            Some(i) => i,
            None => return None,
        };
        let n = graph.node_count();
        let ghost e = graph.edges();
        if src == tgt {
            let mut p: Vec<MemoryId> = Vec::new();
            p.push(graph.id_at(src).clone());
            proof {
                let ip = seq![src as int];
                assert(is_walk(graph.edges(), ip));
                assert(p@[0]@ == graph.node_ids()[ip[0]]);
                assert(ip.len() == p@.len());
                assert(forall|k: int|
                    0 <= k < ip.len() ==> 0 <= ip[k] < graph.node_ids().len() && (#[trigger] p@[k])@
                        == graph.node_ids()[ip[k]]);
                assert(is_id_path(graph.edges(), graph.node_ids(), src as int, tgt as int, p@));
            }
            return Some(p);
        }
        // parent[v] == n: not reached yet; parent[src] == src.
        let mut parent: Vec<usize> = Vec::new();
        let mut dist: Vec<usize> = Vec::new();
        let mut k: usize = 0;
        while k < n
            invariant
                k <= n,
                parent@.len() == k,
                dist@.len() == k,
                forall|v: int| 0 <= v < k ==> parent@[v] == n,
                forall|v: int| 0 <= v < k ==> dist@[v] == 0,
            decreases n - k,
        {
            parent.push(n);
            dist.push(0);
            k = k + 1;
        }
        parent.set(src, src);
        let mut queue: Vec<usize> = Vec::new();
        queue.push(src);
        let mut head: usize = 0;
        proof {
            graph.lemma_edges_in_range();
            reveal(bfs_inv);
            assert(queue@[0] == src);
            assert forall|v: int| 0 <= v < n && parent@[v] != n implies exists|j: int|
                0 <= j < queue@.len() && queue@[j] == v by {
                assert(v == src);
                assert(queue@[0] == v);
            }
            assert(bfs_inv(e, n as int, src as int, tgt as int, parent@, dist@, queue@));
            reveal(closed_upto);
            assert(closed_upto(e, n as int, parent@, dist@, queue@, 0));
            reveal(bfs_levels);
            assert(bfs_levels(e, n as int, src as int, parent@, dist@, queue@, 0));
        }
        while head < queue.len()
            invariant
                graph.wf(),
                e == graph.edges(),
                n == graph.node_ids().len(),
                head <= queue@.len(),
                position_of(graph.node_ids(), source@) == Some(src as int),
                position_of(graph.node_ids(), target@) == Some(tgt as int),
                bfs_inv(e, n as int, src as int, tgt as int, parent@, dist@, queue@),
                bfs_levels(e, n as int, src as int, parent@, dist@, queue@, head as int),
                closed_upto(e, n as int, parent@, dist@, queue@, head as int),
            decreases n - head, n - queue@.len(),
        {
            proof {
                lemma_bfs_bounds(e, n as int, src as int, tgt as int, parent@, dist@, queue@, head as int);
            }
            let u = queue[head];
            let succ = graph.successors(u);
            let mut m: usize = 0;
            while m < succ.len()
                invariant
                    graph.wf(),
                    e == graph.edges(),
                    n == graph.node_ids().len(),
                    head < queue@.len(),
                    queue@[head as int] == u,
                    u < n,
                    position_of(graph.node_ids(), source@) == Some(src as int),
                    position_of(graph.node_ids(), target@) == Some(tgt as int),
                    bfs_inv(e, n as int, src as int, tgt as int, parent@, dist@, queue@),
                    bfs_levels(e, n as int, src as int, parent@, dist@, queue@, head as int),
                    closed_upto(e, n as int, parent@, dist@, queue@, head as int),
                    m <= succ@.len(),
                    forall|j: int| 0 <= j < succ@.len() ==> e.contains((u as int, #[trigger] succ@[j] as int)),
                    forall|j: int| 0 <= j < succ@.len() ==> #[trigger] succ@[j] < n,
                    forall|j: int|
                        0 <= j < m ==> parent@[#[trigger] succ@[j] as int] != n && dist@[succ@[j] as int]
                            <= dist@[u as int] + 1,
                decreases succ@.len() - m,
            {
                let w = succ[m];
                assert(e.contains((u as int, w as int)));
                proof {
                    lemma_bfs_lengths(e, n as int, src as int, tgt as int, parent@, dist@, queue@);
                }
                if parent[w] == n {
                    let ghost before_parent = parent@;
                    let ghost before_dist = dist@;
                    let ghost before_queue = queue@;
                    proof {
                        reveal(bfs_inv);
                        assert(before_parent[u as int] != n);
                    }
                    visit(&mut parent, &mut dist, &mut queue, head, u, w, Ghost(e), Ghost(n), Ghost(src), Ghost(tgt));
                    if w == tgt {
                        let r = Self::trace_back(graph, &parent, &dist, src, tgt);
                        return Some(r);
                    }
                    proof {
                        lemma_closed_grows(
                            e,
                            n as int,
                            src as int,
                            tgt as int,
                            before_parent,
                            parent@,
                            before_dist,
                            dist@,
                            before_queue,
                            queue@,
                            head as int,
                        );
                        assert forall|j: int| 0 <= j < m + 1 implies parent@[#[trigger] succ@[j] as int] != n
                            && dist@[succ@[j] as int] <= dist@[u as int] + 1 by {
                            if j < m {
                                assert(before_parent[succ@[j] as int] != n);
                            }
                        }
                    }
                } else {
                    proof {
                        lemma_reached_within(
                            e,
                            n as int,
                            src as int,
                            tgt as int,
                            parent@,
                            dist@,
                            queue@,
                            head as int,
                            w as int,
                        );
                    }
                }
                m = m + 1;
            }
            proof {
                reveal(closed_upto);
                assert forall|j: int, b: int|
                    0 <= j < head + 1 && #[trigger] e.contains((queue@[j] as int, b)) implies 0 <= b < n
                        && parent@[b] != n && dist@[b] <= dist@[queue@[j] as int] + 1 by {
                    if j == head {
                        let jj = choose|jj: int| 0 <= jj < succ@.len() && succ@[jj] == b;
                        assert(parent@[succ@[jj] as int] != n);
                    }
                }
                assert(closed_upto(e, n as int, parent@, dist@, queue@, head + 1));
                lemma_levels_advance(e, n as int, src as int, tgt as int, parent@, dist@, queue@, head as int);
                lemma_bfs_lengths(e, n as int, src as int, tgt as int, parent@, dist@, queue@);
            }
            head = head + 1;
        }
        proof {
            reveal(bfs_inv);
            reveal(closed_upto);
            let vis = Set::new(|v: int| 0 <= v < n && parent@[v] != n);
            assert forall|a: int, b: int| vis.contains(a) && #[trigger] e.contains((a, b)) implies vis.contains(b) by {
                let j = choose|j: int| 0 <= j < queue@.len() && queue@[j] == a;
                assert(e.contains((queue@[j] as int, b)));
            }
            if reaches(e, src as int, tgt as int) {
                let p = choose|p: Seq<int>| is_walk(e, p) && p[0] == src && p.last() == tgt;
                lemma_closed_holds_walk_ends(e, vis, p);
            }
        }
        None
    }

    /// The path to `tgt` recorded in `parent`, as memory ids.
    fn trace_back(graph: &GraphStore, parent: &Vec<usize>, dist: &Vec<usize>, src: usize, tgt: usize) -> (r: Vec<MemoryId>)
        requires
            graph.wf(),
            src < graph.node_ids().len(),
            tgt < graph.node_ids().len(),
            parent@.len() == graph.node_ids().len(),
            dist@.len() == graph.node_ids().len(),
            parent@[src as int] == src,
            dist@[src as int] == 0,
            parent@[tgt as int] != graph.node_ids().len(),
            forall|v: int|
                0 <= v < graph.node_ids().len() && v != src && #[trigger] parent@[v] != graph.node_ids().len() ==> {
                    &&& parent@[v] < graph.node_ids().len()
                    &&& parent@[parent@[v] as int] != graph.node_ids().len()
                    &&& graph.edges().contains((parent@[v] as int, v))
                    &&& dist@[v] == dist@[parent@[v] as int] + 1
                },
        ensures
            is_id_path(graph.edges(), graph.node_ids(), src as int, tgt as int, r@),
            r@.len() == dist@[tgt as int] + 1,
    {
        let n = graph.node_count();
        let ghost e = graph.edges();
        // Walk back from the target: rev holds target, its parent, ...
        let mut rev: Vec<usize> = Vec::new();
        rev.push(tgt);
        let mut c = tgt;
        while c != src
            invariant
                n == graph.node_ids().len(),
                e == graph.edges(),
                src < n,
                c < n,
                parent@.len() == n,
                dist@.len() == n,
                parent@[src as int] == src,
                parent@[c as int] != n,
                rev@.len() >= 1,
                rev@[0] == tgt,
                rev@.last() == c,
                rev@.len() + dist@[c as int] == dist@[tgt as int] + 1,
                forall|k: int| 0 <= k < rev@.len() ==> #[trigger] rev@[k] < n,
                forall|k: int| 0 <= k < rev@.len() - 1 ==> #[trigger] e.contains((rev@[k + 1] as int, rev@[k] as int)),
                forall|v: int|
                    0 <= v < n && v != src && #[trigger] parent@[v] != n ==> {
                        &&& parent@[v] < n
                        &&& parent@[parent@[v] as int] != n
                        &&& e.contains((parent@[v] as int, v))
                        &&& dist@[v] == dist@[parent@[v] as int] + 1
                    },
            decreases dist@[c as int],
        {
            let p = parent[c];
            assert(e.contains((p as int, c as int)));
            rev.push(p);
            c = p;
        }
        // Forward order, as memory ids.
        let mut out: Vec<MemoryId> = Vec::new();
        let ghost ip = rev@.reverse().map_values(|x: usize| x as int);
        let mut k: usize = rev.len();
        while k > 0
            invariant
                n == graph.node_ids().len(),
                k <= rev@.len(),
                out@.len() == rev@.len() - k,
                ip == rev@.reverse().map_values(|x: usize| x as int),
                forall|j: int| 0 <= j < rev@.len() ==> #[trigger] rev@[j] < n,
                forall|j: int| 0 <= j < out@.len() ==> (#[trigger] out@[j])@ == graph.node_ids()[ip[j]],
            decreases k,
        {
            let id = graph.id_at(rev[k - 1]).clone();
            assert(ip[out@.len() as int] == rev@[k - 1] as int);
            out.push(id);
            k = k - 1;
        }
        proof {
            assert(ip.len() == rev@.len());
            assert forall|j: int| 0 <= j < ip.len() - 1 implies #[trigger] e.contains((ip[j], ip[j + 1])) by {
                let a = rev@.len() - 1 - j;
                assert(ip[j] == rev@[a] as int);
                assert(ip[j + 1] == rev@[a - 1] as int);
                assert(e.contains((rev@[(a - 1) + 1] as int, rev@[a - 1] as int)));
            }
            assert(ip[0] == rev@[rev@.len() - 1] as int);
            assert(ip.last() == rev@[0] as int);
            assert forall|j: int| 0 <= j < ip.len() implies 0 <= ip[j] < graph.node_ids().len() && (
                #[trigger] out@[j])@ == graph.node_ids()[ip[j]] by {
                assert(ip[j] == rev@[rev@.len() - 1 - j] as int);
            }
            assert(is_walk(graph.edges(), ip));
        }
        out
    }
}


/// The memory ids one edge away from position `pos` (none when there is no
/// position).
pub open spec fn successor_ids(e: Set<(int, int)>, ids: Seq<Seq<char>>, pos: Option<int>) -> Set<
    Seq<char>,
> {
    match pos {
        Some(i) => Set::new(
            |x: Seq<char>| exists|w: int| 0 <= w < ids.len() && e.contains((i, w)) && ids[w] == x,
        ),
        None => Set::empty(),
    }
}

/// Whether some position of `ws` holds the memory id `x`.
fn holds_id(graph: &GraphStore, ws: &Vec<usize>, x: &MemoryId) -> (r: bool)
    requires
        forall|j: int| 0 <= j < ws@.len() ==> #[trigger] ws@[j] < graph.node_ids().len(),
    ensures
        r == exists|j: int| 0 <= j < ws@.len() && graph.node_ids()[ws@[j] as int] == x@,
{
    let mut j: usize = 0;
    while j < ws.len()
        invariant
            j <= ws@.len(),
            forall|i: int| 0 <= i < ws@.len() ==> #[trigger] ws@[i] < graph.node_ids().len(),
            forall|i: int| 0 <= i < j ==> graph.node_ids()[ws@[i] as int] != x@,
        decreases ws@.len() - j,
    {
        let y = graph.id_at(ws[j]);
        if crate::text::str_eq(y.0.as_str(), x.0.as_str()) {
            return true;
        }
        j = j + 1;
    }
    false
}

/// Whether a list of memory ids holds `x`.
fn has_id(v: &Vec<MemoryId>, x: &MemoryId) -> (r: bool)
    ensures
        r == exists|j: int| 0 <= j < v@.len() && v@[j]@ == x@,
{
    let mut j: usize = 0;
    while j < v.len()
        invariant
            j <= v@.len(),
            forall|i: int| 0 <= i < j ==> v@[i]@ != x@,
        decreases v@.len() - j,
    {
        if crate::text::str_eq(v[j].0.as_str(), x.0.as_str()) {
            return true;
        }
        j = j + 1;
    }
    false
}

/// The memory ids a list holds.
pub open spec fn id_set(v: Seq<MemoryId>) -> Set<Seq<char>> {
    Set::new(|x: Seq<char>| exists|j: int| 0 <= j < v.len() && v[j]@ == x)
}

/// The memory ids at the first `k` positions of `ws`.
pub open spec fn prefix_ids(ids: Seq<Seq<char>>, ws: Seq<usize>, k: int) -> Set<Seq<char>> {
    Set::new(|x: Seq<char>| exists|j: int| 0 <= j < k && ids[ws[j] as int] == x)
}

impl LinkEngine {
    /// The memories that both `id_a` and `id_b` link to, each once (in no
    /// promised order).
    pub fn get_common_neighbors(&self, graph: &GraphStore, id_a: &MemoryId, id_b: &MemoryId) -> (r:
        Vec<MemoryId>)
        requires
            graph.wf(),
        ensures
            forall|i: int, j: int| 0 <= i < j < r@.len() ==> r@[i]@ != r@[j]@,
            id_set(r@) == successor_ids(
                graph.edges(),
                graph.node_ids(),
                position_of(graph.node_ids(), id_a@),
            ).intersect(
                successor_ids(graph.edges(), graph.node_ids(), position_of(graph.node_ids(), id_b@)),
            ),
    {
        let mut out: Vec<MemoryId> = Vec::new();
        let (ia, ib) = match (graph.index_of(id_a), graph.index_of(id_b)) {
            (Some(a), Some(b)) => (a, b),
            _ => {
                assert(id_set(out@) =~= Set::<Seq<char>>::empty());
                return out;
            },
        };
        let ghost ids = graph.node_ids();
        let ghost e = graph.edges();
        let ghost sb_set = successor_ids(e, ids, Some(ib as int));
        let sa = graph.successors(ia);
        let sb = graph.successors(ib);
        let mut k: usize = 0;
        assert(id_set(out@) =~= prefix_ids(ids, sa@, 0).intersect(sb_set));
        while k < sa.len()
            invariant
                graph.wf(),
                ids == graph.node_ids(),
                e == graph.edges(),
                sb_set == successor_ids(e, ids, Some(ib as int)),
                ia < ids.len(),
                ib < ids.len(),
                k <= sa@.len(),
                forall|j: int| 0 <= j < sa@.len() ==> #[trigger] sa@[j] < ids.len() && e.contains((ia as int, sa@[j] as int)),
                forall|j: int| 0 <= j < sb@.len() ==> #[trigger] sb@[j] < ids.len() && e.contains((ib as int, sb@[j] as int)),
                forall|w: int| e.contains((ib as int, w)) ==> exists|j: int| 0 <= j < sb@.len() && sb@[j] == w,
                forall|i: int, j: int| 0 <= i < j < out@.len() ==> out@[i]@ != out@[j]@,
                id_set(out@) == prefix_ids(ids, sa@, k as int).intersect(sb_set),
            decreases sa@.len() - k,
        {
            let x = graph.id_at(sa[k]);
            let in_b = holds_id(graph, &sb, x);
            let seen = has_id(&out, x);
            let ghost before = out@;
            proof {
                assert(in_b == sb_set.contains(x@)) by {
                    if in_b {
                        let j = choose|j: int| 0 <= j < sb@.len() && ids[sb@[j] as int] == x@;
                        assert(e.contains((ib as int, sb@[j] as int)));
                    }
                    if sb_set.contains(x@) {
                        let w = choose|w: int| 0 <= w < ids.len() && e.contains((ib as int, w)) && ids[w] == x@;
                        let j = choose|j: int| 0 <= j < sb@.len() && sb@[j] == w;
                        assert(ids[sb@[j] as int] == x@);
                    }
                }
                assert(seen == id_set(before).contains(x@));
            }
            if in_b && !seen {
                out.push(x.clone());
            }
            proof {
                let target = prefix_ids(ids, sa@, k + 1).intersect(sb_set);
                assert forall|y: Seq<char>| id_set(out@).contains(y) <==> target.contains(y) by {
                    if id_set(out@).contains(y) {
                        let j = choose|j: int| 0 <= j < out@.len() && out@[j]@ == y;
                        if j < before.len() {
                            assert(before[j]@ == y);
                            assert(id_set(before).contains(y));
                            let i = choose|i: int| 0 <= i < k && ids[sa@[i] as int] == y;
                            assert(prefix_ids(ids, sa@, k + 1).contains(y));
                        } else {
                            assert(ids[sa@[k as int] as int] == y);
                            assert(prefix_ids(ids, sa@, k + 1).contains(y));
                        }
                    }
                    if target.contains(y) {
                        let j = choose|j: int| 0 <= j < k + 1 && ids[sa@[j] as int] == y;
                        if j < k {
                            assert(prefix_ids(ids, sa@, k as int).contains(y));
                            assert(id_set(before).contains(y));
                            let i = choose|i: int| 0 <= i < before.len() && before[i]@ == y;
                            assert(out@[i]@ == y);
                        } else if !seen {
                            assert(out@[out@.len() - 1]@ == y);
                        } else {
                            let i = choose|i: int| 0 <= i < before.len() && before[i]@ == x@;
                            assert(out@[i]@ == y);
                        }
                    }
                }
                assert(id_set(out@) =~= target);
            }
            k = k + 1;
        }
        proof {
            let sa_set = successor_ids(e, ids, Some(ia as int));
            assert forall|x: Seq<char>| prefix_ids(ids, sa@, sa@.len() as int).contains(x) <==> sa_set.contains(x) by {
                if sa_set.contains(x) {
                    let w = choose|w: int| 0 <= w < ids.len() && e.contains((ia as int, w)) && ids[w] == x;
                    let j = choose|j: int| 0 <= j < sa@.len() && sa@[j] == w;
                    assert(ids[sa@[j] as int] == x);
                }
                if prefix_ids(ids, sa@, sa@.len() as int).contains(x) {
                    let j = choose|j: int| 0 <= j < sa@.len() && ids[sa@[j] as int] == x;
                    assert(e.contains((ia as int, sa@[j] as int)));
                }
            }
            assert(prefix_ids(ids, sa@, sa@.len() as int) =~= sa_set);
        }
        out
    }
}

} // verus!
