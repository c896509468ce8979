//! The neighbourhood that spreading activation may touch: the nodes within
//! a few undirected hops of the seeds.
use vstd::prelude::*;
use crate::config::SPREADING_MAX_HOPS;
use crate::graph::GraphStore;
use std::collections::HashSet;

verus! {

/// An edge joins `a` and `b`, in either direction.
pub open spec fn linked(e: Set<(int, int)>, a: int, b: int) -> bool {
    e.contains((a, b)) || e.contains((b, a))
}

/// The nodes at most `h` undirected hops from a seed.
pub open spec fn within_hops(e: Set<(int, int)>, seeds: Set<int>, h: nat) -> Set<int>
    decreases h,
{
    if h == 0 {
        seeds
    } else {
        let prev = within_hops(e, seeds, (h - 1) as nat);
        prev.union(Set::new(|b: int| exists|a: int| prev.contains(a) && linked(e, a, b)))
    }
}

/// The positions a list holds.
pub open spec fn pos_set(v: Seq<usize>) -> Set<int> {
    Set::new(|x: int| exists|j: int| 0 <= j < v.len() && v[j] as int == x)
}

/// The positions a list holds, as positions.
pub open spec fn usize_set(v: Seq<usize>) -> Set<usize> {
    Set::new(|x: usize| exists|j: int| 0 <= j < v.len() && v[j] == x)
}

/// Adds to `reached` (listed in `order`) each position of `ws` it does
/// not hold yet.
fn add_all(reached: &mut HashSet<usize>, order: &mut Vec<usize>, ws: &Vec<usize>)
    requires
        forall|i: int, j: int| 0 <= i < j < old(order)@.len() ==> old(order)@[i] != old(order)@[j],
        old(reached)@ == usize_set(old(order)@),
    ensures
        pos_set(final(order)@) == pos_set(old(order)@).union(pos_set(ws@)),
        forall|i: int, j: int| 0 <= i < j < final(order)@.len() ==> final(order)@[i] != final(order)@[j],
        final(reached)@ == usize_set(final(order)@),
{
    broadcast use vstd::std_specs::hash::group_hash_axioms;
    let ghost start = order@;
    let mut k: usize = 0;
    while k < ws.len()
        invariant
            k <= ws@.len(),
            forall|i: int, j: int| 0 <= i < j < order@.len() ==> order@[i] != order@[j],
            pos_set(order@) == pos_set(start).union(pos_set(ws@.subrange(0, k as int))),
            reached@ == usize_set(order@),
        decreases ws@.len() - k,
    {
        let w = ws[k];
        let ghost before = order@;
        if !reached.contains(&w) {
            reached.insert(w);
            order.push(w);
            proof {
                assert(usize_set(order@) =~= usize_set(before).insert(w)) by {
                    assert forall|x: usize| usize_set(order@).contains(x) implies usize_set(before).insert(w).contains(x) by {
                        let j = choose|j: int| 0 <= j < order@.len() && order@[j] == x;
                        if j < before.len() {
                            assert(before[j] == x);
                        }
                    }
                    assert forall|x: usize| usize_set(before).insert(w).contains(x) implies usize_set(order@).contains(x) by {
                        if x == w {
                            assert(order@[before.len() as int] == x);
                        } else {
                            let j = choose|j: int| 0 <= j < before.len() && before[j] == x;
                            assert(order@[j] == x);
                        }
                    }
                }
            }
        }

        proof {
            let sub0 = ws@.subrange(0, k as int);
            let sub1 = ws@.subrange(0, k + 1);
            assert forall|x: int| pos_set(order@).contains(x) <==> pos_set(start).union(pos_set(sub1)).contains(x) by {
                if pos_set(order@).contains(x) {
                    let j = choose|j: int| 0 <= j < order@.len() && order@[j] as int == x;
                    if j < before.len() {
                        assert(pos_set(before).contains(x));
                        if pos_set(sub0).contains(x) {
                            let i = choose|i: int| 0 <= i < sub0.len() && sub0[i] as int == x;
                            assert(sub1[i] as int == x);
                        }
                    } else {
                        assert(sub1[k as int] as int == x);
                    }
                }
                if pos_set(start).union(pos_set(sub1)).contains(x) {
                    if pos_set(sub1).contains(x) {
                        let i = choose|i: int| 0 <= i < sub1.len() && sub1[i] as int == x;
                        if i < k {
                            assert(sub0[i] as int == x);
                            assert(pos_set(before).contains(x));
                            let j = choose|j: int| 0 <= j < before.len() && before[j] as int == x;
                            assert(order@[j] as int == x);
                        } else if pos_set(before).contains(x) {
                            let j = choose|j: int| 0 <= j < before.len() && before[j] as int == x;
                            assert(order@[j] as int == x);
                        } else {
                            assert(order@[order@.len() - 1] as int == x);
                        }
                    } else {
                        assert(pos_set(before).contains(x));
                        let j = choose|j: int| 0 <= j < before.len() && before[j] as int == x;
                        assert(order@[j] as int == x);
                    }
                }
            }
            assert(pos_set(order@) =~= pos_set(start).union(pos_set(sub1)));
        }
        k = k + 1;
    }
    assert(ws@.subrange(0, ws@.len() as int) =~= ws@);
}

/// The nodes within `SPREADING_MAX_HOPS` undirected hops of the seeds
/// (seeds included), as a set. A seed that is not a node of the graph is
/// kept but has no neighbours.
pub fn reachable_frontier(graph: &GraphStore, seeds: &[usize]) -> (r: HashSet<usize>)
    requires
        graph.wf(),
    ensures
        forall|x: usize|
            r@.contains(x) <==> within_hops(graph.edges(), pos_set(seeds@), SPREADING_MAX_HOPS as nat).contains(
                x as int,
            ),
        forall|x: int|
            within_hops(graph.edges(), pos_set(seeds@), SPREADING_MAX_HOPS as nat).contains(x) ==> 0 <= x
                <= usize::MAX,
{
    broadcast use vstd::std_specs::hash::group_hash_axioms;
    let ghost e = graph.edges();
    let ghost seed_set = pos_set(seeds@);
    proof {
        graph.lemma_edges_in_range();
    }
    let mut reached: Vec<usize> = Vec::new();
    let mut seen: HashSet<usize> = HashSet::new();
    assert(seen@ =~= usize_set(reached@));
    let mut sv: Vec<usize> = Vec::new();
    let mut k: usize = 0;
    while k < seeds.len()
        invariant
            k <= seeds@.len(),
            sv@ == seeds@.subrange(0, k as int),
        decreases seeds@.len() - k,
    {
        sv.push(seeds[k]);
        k = k + 1;
        assert(sv@ =~= seeds@.subrange(0, k as int));
    }
    assert(sv@ =~= seeds@);
    assert(pos_set(reached@) =~= Set::<int>::empty());
    add_all(&mut seen, &mut reached, &sv);
    assert(pos_set(reached@) =~= seed_set);
    let n = graph.node_count();
    let mut hop: u8 = 0;
    while hop < SPREADING_MAX_HOPS
        invariant
            graph.wf(),
            e == graph.edges(),
            n == graph.node_ids().len(),
            forall|a: int, b: int| #[trigger] e.contains((a, b)) ==> 0 <= a < n && 0 <= b < n,
            hop <= SPREADING_MAX_HOPS,
            forall|i: int, j: int| 0 <= i < j < reached@.len() ==> reached@[i] != reached@[j],
            pos_set(reached@) == within_hops(e, seed_set, hop as nat),
            seen@ == usize_set(reached@),
        decreases SPREADING_MAX_HOPS - hop,
    {
        let snapshot = reached.clone();
        let ghost prev = pos_set(snapshot@);
        assert(snapshot@ =~= reached@);
        let mut i: usize = 0;
        while i < snapshot.len()
            invariant
                graph.wf(),
                e == graph.edges(),
                n == graph.node_ids().len(),
                forall|a: int, b: int| #[trigger] e.contains((a, b)) ==> 0 <= a < n && 0 <= b < n,
                i <= snapshot@.len(),
                prev == pos_set(snapshot@),
                forall|x: int, y: int| 0 <= x < y < reached@.len() ==> reached@[x] != reached@[y],
                seen@ == usize_set(reached@),
                pos_set(reached@) == prev.union(Set::new(|b: int| exists|j: int| 0 <= j < i && linked(e, snapshot@[j] as int, b))),
            decreases snapshot@.len() - i,
        {
            let a = snapshot[i];
            let ghost before = pos_set(reached@);
            if a < n {
                let out = graph.successors(a);
                let inc = graph.predecessors(a);
                add_all(&mut seen, &mut reached, &out);
                add_all(&mut seen, &mut reached, &inc);
                proof {
                    assert forall|b: int| linked(e, a as int, b) <==> pos_set(out@).union(pos_set(inc@)).contains(b) by {
                        if e.contains((a as int, b)) {
                            let j = choose|j: int| 0 <= j < out@.len() && out@[j] == b;
                            assert(pos_set(out@).contains(b));
                        }
                        if e.contains((b, a as int)) {
                            let j = choose|j: int| 0 <= j < inc@.len() && inc@[j] == b;
                            assert(pos_set(inc@).contains(b));
                        }
                        if pos_set(out@).contains(b) {
                            let j = choose|j: int| 0 <= j < out@.len() && out@[j] as int == b;
                            assert(e.contains((a as int, out@[j] as int)));
                        }
                        if pos_set(inc@).contains(b) {
                            let j = choose|j: int| 0 <= j < inc@.len() && inc@[j] as int == b;
                            assert(e.contains((inc@[j] as int, a as int)));
                        }
                    }
                }
            } else {
                assert forall|b: int| !linked(e, a as int, b) by {
                    if e.contains((a as int, b)) {
                        assert(false);
                    }
                    if e.contains((b, a as int)) {
                        assert(false);
                    }
                }
            }
            proof {
                let nb_i = Set::new(|b: int| exists|j: int| 0 <= j < i && linked(e, snapshot@[j] as int, b));
                let nb_i1 = Set::new(|b: int| exists|j: int| 0 <= j < i + 1 && linked(e, snapshot@[j] as int, b));
                assert forall|b: int| pos_set(reached@).contains(b) <==> prev.union(nb_i1).contains(b) by {
                    if nb_i1.contains(b) {
                        let j = choose|j: int| 0 <= j < i + 1 && linked(e, snapshot@[j] as int, b);
                        if j < i {
                            assert(nb_i.contains(b));
                        }
                    }
                    if nb_i.contains(b) {
                        let j = choose|j: int| 0 <= j < i && linked(e, snapshot@[j] as int, b);
                        assert(nb_i1.contains(b));
                    }
                    if linked(e, a as int, b) {
                        assert(linked(e, snapshot@[i as int] as int, b));
                        assert(nb_i1.contains(b));
                    }
                }
                assert(pos_set(reached@) =~= prev.union(nb_i1));
            }
            i = i + 1;
        }
        proof {
            let nb = Set::new(|b: int| exists|j: int| 0 <= j < snapshot@.len() && linked(e, snapshot@[j] as int, b));
            let step = Set::new(|b: int| exists|x: int| prev.contains(x) && linked(e, x, b));
            assert forall|b: int| nb.contains(b) <==> step.contains(b) by {
                if nb.contains(b) {
                    let j = choose|j: int| 0 <= j < snapshot@.len() && linked(e, snapshot@[j] as int, b);
                    assert(prev.contains(snapshot@[j] as int));
                }
                if step.contains(b) {
                    let x = choose|x: int| prev.contains(x) && linked(e, x, b);
                    let j = choose|j: int| 0 <= j < snapshot@.len() && snapshot@[j] as int == x;
                    assert(linked(e, snapshot@[j] as int, b));
                }
            }
            assert(nb =~= step);
            assert(within_hops(e, seed_set, (hop + 1) as nat) == prev.union(step));
        }
        hop = hop + 1;
    }
    proof {
        let w = within_hops(e, seed_set, SPREADING_MAX_HOPS as nat);
        assert forall|x: usize| seen@.contains(x) <==> w.contains(x as int) by {
            if seen@.contains(x) {
                let j = choose|j: int| 0 <= j < reached@.len() && reached@[j] == x;
                assert(reached@[j] as int == x as int);
            }
            if w.contains(x as int) {
                let j = choose|j: int| 0 <= j < reached@.len() && reached@[j] as int == x as int;
                assert(reached@[j] == x);
            }
        }
        assert forall|x: int| w.contains(x) implies 0 <= x <= usize::MAX by {
            let j = choose|j: int| 0 <= j < reached@.len() && reached@[j] as int == x;
        }
    }
    seen
}

} // verus!
