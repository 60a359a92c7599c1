//! The random undirected neighbor graph.

use crate::node::Neighbors;
use crate::randomness::RandomnessSource;
use crate::randomness::sample_distinct_from_pool;
use vstd::prelude::*;

verus! {

/// Every listed neighbor is a real node other than the node itself.
pub open spec fn neighbors_in_range(ns: Seq<Neighbors>) -> bool {
    forall|a: int, k: int|
        0 <= a < ns.len() && 0 <= k < ns[a].0@.len() ==> (#[trigger] ns[a].0@[k]) < ns.len()
            && ns[a].0@[k] != a
}

/// No neighbor list mentions the same node twice.
pub open spec fn neighbors_duplicate_free(ns: Seq<Neighbors>) -> bool {
    forall|a: int, i: int, j: int|
        #![trigger ns[a].0@[i], ns[a].0@[j]]
        0 <= a < ns.len() && 0 <= i < j < ns[a].0@.len() ==> ns[a].0@[i] != ns[a].0@[j]
}

/// Edges are only ever added: every list keeps its old entries in
/// place and can only grow.
pub open spec fn neighbors_extend(pre: Seq<Neighbors>, post: Seq<Neighbors>) -> bool {
    &&& post.len() == pre.len()
    &&& forall|a: int| 0 <= a < pre.len() ==> pre[a].0@.len() <= (#[trigger] post[a].0@).len()
    &&& forall|a: int, i: int|
        #![trigger post[a].0@[i]]
        0 <= a < pre.len() && 0 <= i < pre[a].0@.len() ==> post[a].0@[i] == pre[a].0@[i]
}

/// The neighbor relation is symmetric: `b` lists `a` exactly when `a`
/// lists `b`.
pub open spec fn neighbors_symmetric(ns: Seq<Neighbors>) -> bool {
    forall|a: usize, b: usize|
        a < ns.len() && b < ns.len() ==> ((#[trigger] ns[a as int].0@.contains(b))
            <==> ns[b as int].0@.contains(a))
}

/// Whether `x` occurs in the vector.
pub fn contains_index(v: &Vec<usize>, x: usize) -> (r: bool)
    ensures
        r == v@.contains(x),
{
    let mut k: usize = 0;
    while k < v.len()
        invariant
            k <= v@.len(),
            forall|j: int| 0 <= j < k ==> v@[j] != x,
        decreases v@.len() - k,
    {
        if v[k] == x {
            return true;
        }
        k = k + 1;
    }
    false
}

/// Draws `min_neighbors` distinct candidate peers for every node
/// from the pool of all other nodes and inserts each edge in both
/// directions, skipping edges already present, so the relation stays
/// symmetric and duplicate-free; degrees may exceed the target
/// through reverse edges. With at least one candidate asked for,
/// every node of a multi-node graph ends up with a neighbor. A
/// single-node graph gets no edges.
pub fn assign_random_neighbors<R: RandomnessSource>(
    neighbors: &mut Vec<Neighbors>,
    rand: &mut R,
    min_neighbors: usize,
    num_of_nodes: usize,
)
    requires
        old(neighbors)@.len() == num_of_nodes,
        neighbors_in_range(old(neighbors)@),
        neighbors_symmetric(old(neighbors)@),
        neighbors_duplicate_free(old(neighbors)@),
    ensures
        final(neighbors)@.len() == num_of_nodes,
        neighbors_in_range(final(neighbors)@),
        neighbors_symmetric(final(neighbors)@),
        neighbors_duplicate_free(final(neighbors)@),
        neighbors_extend(old(neighbors)@, final(neighbors)@),
        (min_neighbors >= 1 && num_of_nodes >= 2) ==> forall|a: int|
            0 <= a < num_of_nodes ==> (#[trigger] final(neighbors)@[a].0@).len() >= 1,
{
    if num_of_nodes < 2 {
        return ;
    }
    let mut node: usize = 0;
    while node < num_of_nodes
        invariant
            neighbors@.len() == num_of_nodes,
            num_of_nodes >= 2,
            node <= num_of_nodes,
            neighbors_in_range(neighbors@),
            neighbors_symmetric(neighbors@),
            neighbors_duplicate_free(neighbors@),
            neighbors_extend(old(neighbors)@, neighbors@),
            min_neighbors >= 1 ==> forall|a: int|
                0 <= a < node ==> (#[trigger] neighbors@[a].0@).len() >= 1,
        decreases num_of_nodes - node,
    {
        // The pool of candidate peers: every node but this one.
        let mut pool: Vec<usize> = Vec::new();
        let mut p: usize = 0;
        while p < num_of_nodes
            invariant
                p <= num_of_nodes,
                node < num_of_nodes,
                forall|x: int, y: int|
                    0 <= x < y < pool@.len() ==> (#[trigger] pool@[x]) < #[trigger] pool@[y],
                forall|x: int|
                    0 <= x < pool@.len() ==> (#[trigger] pool@[x]) < p && pool@[x] != node,
                pool@.len() >= (if p > node {
                    p - 1
                } else {
                    p as int
                }),
            decreases num_of_nodes - p,
        {
            if p != node {
                pool.push(p);
            }
            p = p + 1;
        }
        let candidates = sample_distinct_from_pool(&mut pool, rand, min_neighbors);
        proof {
            assert forall|x: int|
                0 <= x < candidates@.len() implies (#[trigger] candidates@[x]) < num_of_nodes
                && candidates@[x] != node by {
                let y = choose|y: int|
                    0 <= y < pool@.len() && pool@[y] == candidates@[x] && true;
            }
        }
        let ghost before_node = neighbors@;
        let mut d: usize = 0;
        while d < candidates.len()
            invariant
                neighbors@.len() == num_of_nodes,
                num_of_nodes >= 2,
                node < num_of_nodes,
                d <= candidates@.len(),
                forall|x: int|
                    0 <= x < candidates@.len() ==> (#[trigger] candidates@[x]) < num_of_nodes
                        && candidates@[x] != node,
                neighbors_in_range(neighbors@),
                neighbors_symmetric(neighbors@),
                neighbors_duplicate_free(neighbors@),
                neighbors_extend(before_node, neighbors@),
                d >= 1 ==> neighbors@[node as int].0@.len() >= 1,
            decreases candidates@.len() - d,
        {
            let candidate = candidates[d];
            add_bidirectional_edge(neighbors, node, candidate);
            d = d + 1;
        }
        proof {
            assert(neighbors_extend(old(neighbors)@, neighbors@));
            if min_neighbors >= 1 {
                assert(candidates@.len() >= 1);
                assert forall|a: int| 0 <= a < node + 1 implies (
                #[trigger] neighbors@[a].0@).len() >= 1 by {
                    if a < node {
                        assert(before_node[a].0@.len() >= 1);
                    }
                }
            }
        }
        node = node + 1;
    }
}

/// Inserts the undirected edge `(node, candidate)` idempotently in
/// both directions, keeping the relation symmetric, in range and
/// duplicate-free; afterwards the two nodes list each other.
fn add_bidirectional_edge(neighbors: &mut Vec<Neighbors>, node: usize, candidate: usize)
    requires
        neighbors_in_range(old(neighbors)@),
        neighbors_symmetric(old(neighbors)@),
        neighbors_duplicate_free(old(neighbors)@),
        node < old(neighbors)@.len(),
        candidate < old(neighbors)@.len(),
        candidate != node,
    ensures
        final(neighbors)@.len() == old(neighbors)@.len(),
        neighbors_in_range(final(neighbors)@),
        neighbors_symmetric(final(neighbors)@),
        neighbors_duplicate_free(final(neighbors)@),
        neighbors_extend(old(neighbors)@, final(neighbors)@),
        final(neighbors)@[node as int].0@.contains(candidate),
        final(neighbors)@[candidate as int].0@.contains(node),
{
    let ghost ns0 = neighbors@;
    let forward = contains_index(&neighbors[node].0, candidate);
    proof {
        assert(ns0[node as int].0@.contains(candidate) == ns0[candidate as int].0@.contains(node));
    }
    if !forward {
        neighbors[node].0.push(candidate);
        neighbors[candidate].0.push(node);
        proof {
            let ns1 = neighbors@;
            assert(ns1[node as int].0@ == ns0[node as int].0@.push(candidate));
            assert(ns1[candidate as int].0@ == ns0[candidate as int].0@.push(node));
            assert(ns1[node as int].0@.last() == candidate);
            assert(ns1[candidate as int].0@.last() == node);
            assert forall|a: int, k: int|
                0 <= a < ns1.len() && 0 <= k < ns1[a].0@.len() implies (#[trigger] ns1[a].0@[k])
                < ns1.len() && ns1[a].0@[k] != a by {
                if a != node && a != candidate {
                    assert(ns1[a] == ns0[a]);
                } else if a == node {
                    if k < ns0[node as int].0@.len() {
                        assert(ns1[a].0@[k] == ns0[a].0@[k]);
                    } else {
                        assert(ns1[a].0@[k] == candidate);
                    }
                } else {
                    if k < ns0[candidate as int].0@.len() {
                        assert(ns1[a].0@[k] == ns0[a].0@[k]);
                    } else {
                        assert(ns1[a].0@[k] == node);
                    }
                }
            }
            assert forall|a: usize, b: usize|
                a < ns1.len() && b < ns1.len() implies ((#[trigger] ns1[a as int].0@.contains(b))
                <==> ns1[b as int].0@.contains(a)) by {
                lemma_push_contains(ns0[node as int].0@, candidate, b);
                lemma_push_contains(ns0[node as int].0@, candidate, a);
                lemma_push_contains(ns0[candidate as int].0@, node, b);
                lemma_push_contains(ns0[candidate as int].0@, node, a);
                if a != node && a != candidate {
                    assert(ns1[a as int] == ns0[a as int]);
                }
                if b != node && b != candidate {
                    assert(ns1[b as int] == ns0[b as int]);
                }
                assert(ns0[a as int].0@.contains(b) == ns0[b as int].0@.contains(a));
            }
            assert forall|a: int, x: int, y: int|
                #![trigger ns1[a].0@[x], ns1[a].0@[y]]
                0 <= a < ns1.len() && 0 <= x < y < ns1[a].0@.len() implies ns1[a].0@[x]
                != ns1[a].0@[y] by {
                if a != node && a != candidate {
                    assert(ns1[a] == ns0[a]);
                    assert(ns0[a].0@[x] != ns0[a].0@[y]);
                } else if a == node {
                    if y < ns0[node as int].0@.len() {
                        assert(ns0[a].0@[x] != ns0[a].0@[y]);
                    } else {
                        // The pushed entry was not in the list.
                        assert(ns1[a].0@[y] == candidate);
                        assert(ns1[a].0@[x] == ns0[a].0@[x]);
                        if ns0[a].0@[x] == candidate {
                            assert(ns0[node as int].0@.contains(candidate));
                        }
                    }
                } else {
                    if y < ns0[candidate as int].0@.len() {
                        assert(ns0[a].0@[x] != ns0[a].0@[y]);
                    } else {
                        assert(ns1[a].0@[y] == node);
                        assert(ns1[a].0@[x] == ns0[a].0@[x]);
                        if ns0[a].0@[x] == node {
                            assert(ns0[candidate as int].0@.contains(node));
                        }
                    }
                }
            }
            assert(ns1[node as int].0@[ns0[node as int].0@.len() as int] == candidate);
            assert(ns1[node as int].0@.contains(candidate));
            assert(ns1[candidate as int].0@[ns0[candidate as int].0@.len() as int] == node);
            assert(ns1[candidate as int].0@.contains(node));
        }
    } else {
        proof {
            assert(neighbors@[node as int].0@.contains(candidate));
            assert(neighbors@[candidate as int].0@.contains(node));
        }
    }
}

/// Membership in a sequence after a push.
proof fn lemma_push_contains(s: Seq<usize>, x: usize, y: usize)
    ensures
        s.push(x).contains(y) <==> (s.contains(y) || y == x),
{
    if s.contains(y) {
        let k = choose|k: int| 0 <= k < s.len() && s[k] == y;
        assert(s.push(x)[k] == y);
    }
    if s.push(x).contains(y) {
        let k = choose|k: int| 0 <= k < s.push(x).len() && s.push(x)[k] == y;
        if k < s.len() {
            assert(s[k] == y);
        }
    }
    assert(s.push(x)[s.len() as int] == x);
}

/// Checks whether every listed edge is listed in both directions.
pub fn is_neighbors_bidirectional(neighbors: &Vec<Neighbors>) -> (r: bool)
    ensures
        r == neighbors_symmetric(neighbors@),
{
    let n = neighbors.len();
    let mut node1: usize = 0;
    while node1 < n
        invariant
            n == neighbors@.len(),
            node1 <= n,
            forall|a: usize, b: usize|
                a < node1 && b < n ==> ((#[trigger] neighbors@[a as int].0@.contains(b))
                    <==> neighbors@[b as int].0@.contains(a)),
        decreases n - node1,
    {
        let mut node2: usize = 0;
        while node2 < n
            invariant
                n == neighbors@.len(),
                node1 < n,
                node2 <= n,
                forall|a: usize, b: usize|
                    a < node1 && b < n ==> ((#[trigger] neighbors@[a as int].0@.contains(b))
                        <==> neighbors@[b as int].0@.contains(a)),
                forall|b: usize|
                    b < node2 ==> ((#[trigger] neighbors@[node1 as int].0@.contains(b))
                        <==> neighbors@[b as int].0@.contains(node1)),
            decreases n - node2,
        {
            if node1 != node2 {
                let fwd = contains_index(&neighbors[node1].0, node2);
                let bwd = contains_index(&neighbors[node2].0, node1);
                if fwd != bwd {
                    return false;
                }
            }
            node2 = node2 + 1;
        }
        node1 = node1 + 1;
    }
    true
}

/// The smallest and largest neighbor-list length over all nodes, or
/// `(0, 0)` for an empty network.
pub fn generated_neighbors_min_max(neighbors: &Vec<Neighbors>) -> (r: (usize, usize))
    ensures
        neighbors@.len() == 0 ==> r == (0usize, 0usize),
        neighbors@.len() > 0 ==> {
            &&& exists|a: int| 0 <= a < neighbors@.len() && r.0 == (#[trigger] neighbors@[a].0@).len()
            &&& exists|a: int| 0 <= a < neighbors@.len() && r.1 == (#[trigger] neighbors@[a].0@).len()
            &&& forall|a: int|
                0 <= a < neighbors@.len() ==> r.0 <= (#[trigger] neighbors@[a].0@).len() <= r.1
        },
{
    if neighbors.len() == 0 {
        return (0, 0);
    }
    let mut min_size: usize = neighbors[0].0.len();
    let mut max_size: usize = neighbors[0].0.len();
    let mut a: usize = 1;
    while a < neighbors.len()
        invariant
            0 < a <= neighbors@.len(),
            exists|k: int| 0 <= k < a && min_size == (#[trigger] neighbors@[k].0@).len(),
            exists|k: int| 0 <= k < a && max_size == (#[trigger] neighbors@[k].0@).len(),
            forall|k: int| 0 <= k < a ==> min_size <= (#[trigger] neighbors@[k].0@).len() <= max_size,
        decreases neighbors@.len() - a,
    {
        let len = neighbors[a].0.len();
        if len < min_size {
            min_size = len;
        }
        if len > max_size {
            max_size = len;
        }
        a = a + 1;
    }
    (min_size, max_size)
}

} // verus!
