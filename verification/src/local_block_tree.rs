//! Per-node partial views of the global block graph.
//!
//! A `LocalBlockTree` records which blocks a node has received, the
//! child links among the received blocks, and, for each block, whether
//! its unbroken parent chain down to genesis is present locally
//! ("connected to genesis").

use crate::block::BitcoinBlock;
use crate::block::wf_block_store;
use crate::local_block::LocalBlock;
use std::collections::HashMap;
use std::collections::HashSet;
use vstd::prelude::*;

verus! {

broadcast use vstd::std_specs::hash::group_hash_axioms;

/// A block `b` has its whole parent chain, `b` included, inside `dom`.
pub open spec fn chain_present(dom: Set<usize>, blocks: Seq<BitcoinBlock>, b: usize) -> bool
    decreases b,
{
    if !dom.contains(b) || b >= blocks.len() {
        false
    } else if b == 0 {
        true
    } else {
        let ps = blocks[b as int].parents@;
        if ps.len() == 1 && ps[0] < b {
            chain_present(dom, blocks, ps[0])
        } else {
            false
        }
    }
}

/// `a` lies on the parent chain of `b` (`b` itself included).
pub open spec fn on_parent_chain(blocks: Seq<BitcoinBlock>, a: usize, b: usize) -> bool
    decreases b,
{
    a == b || (b != 0 && b < blocks.len() && {
        let ps = blocks[b as int].parents@;
        ps.len() == 1 && ps[0] < b && on_parent_chain(blocks, a, ps[0])
    })
}

/// `y` is a tree-recorded child of `x`: received, non-genesis, with
/// `x` as its single parent.
pub open spec fn is_child(
    t: Map<usize, LocalBlock>,
    blocks: Seq<BitcoinBlock>,
    x: usize,
    y: usize,
) -> bool {
    &&& t.contains_key(y)
    &&& y != 0
    &&& y < blocks.len()
    &&& blocks[y as int].parents@.len() == 1
    &&& blocks[y as int].parents@[0] == x
}

pub open spec fn tree_nodes_ok(t: Map<usize, LocalBlock>, blocks: Seq<BitcoinBlock>) -> bool {
    forall|b: usize| #[trigger]
        t.contains_key(b) ==> b < blocks.len() && t[b].block_index == b
}

pub open spec fn tree_connected_ok(t: Map<usize, LocalBlock>, blocks: Seq<BitcoinBlock>) -> bool {
    forall|b: usize| #[trigger]
        t.contains_key(b) ==> (t[b].is_connected_to_genesis <==> chain_present(
            t.dom(),
            blocks,
            b,
        ))
}

pub open spec fn tree_children_ok(t: Map<usize, LocalBlock>, blocks: Seq<BitcoinBlock>) -> bool {
    forall|x: usize, y: usize|
        #![trigger t[x].children_index@.contains(y)]
        #![trigger t.contains_key(x), t.contains_key(y)]
        t.contains_key(x) ==> (t[x].children_index@.contains(y) <==> is_child(t, blocks, x, y))
}

/// Well-formedness of a local tree against the global store: genesis
/// is present, every entry is a real block keyed by its own id, the
/// connected flags agree with `chain_present`, and the child links
/// record exactly the received children of each received block.
pub open spec fn tree_wf(t: Map<usize, LocalBlock>, blocks: Seq<BitcoinBlock>) -> bool {
    &&& t.contains_key(0)
    &&& tree_nodes_ok(t, blocks)
    &&& tree_connected_ok(t, blocks)
    &&& tree_children_ok(t, blocks)
}

/// A present chain stays present when the tree grows.
pub proof fn lemma_chain_present_mono(
    dom: Set<usize>,
    dom2: Set<usize>,
    blocks: Seq<BitcoinBlock>,
    b: usize,
)
    requires
        dom.subset_of(dom2),
        chain_present(dom, blocks, b),
    ensures
        chain_present(dom2, blocks, b),
    decreases b,
{
    if b != 0 {
        lemma_chain_present_mono(dom, dom2, blocks, blocks[b as int].parents@[0]);
    }
}

/// Adding a block above `x` does not change whether `x`'s chain is
/// present: the chain of `x` only visits ids up to `x`.
pub proof fn lemma_chain_present_insert_above(
    dom: Set<usize>,
    blocks: Seq<BitcoinBlock>,
    b: usize,
    x: usize,
)
    requires
        x < b,
    ensures
        chain_present(dom.insert(b), blocks, x) == chain_present(dom, blocks, x),
    decreases x,
{
    if x != 0 && x < blocks.len() {
        let ps = blocks[x as int].parents@;
        if ps.len() == 1 && ps[0] < x {
            lemma_chain_present_insert_above(dom, blocks, b, ps[0]);
        }
    }
}

/// Adding a block whose own chain is still broken does not connect
/// anything else: any other block's chain is present afterwards only
/// if it already was.
pub proof fn lemma_chain_present_insert_unconnected(
    dom: Set<usize>,
    blocks: Seq<BitcoinBlock>,
    b: usize,
    y: usize,
)
    requires
        !chain_present(dom.insert(b), blocks, b),
        y != b,
    ensures
        chain_present(dom.insert(b), blocks, y) == chain_present(dom, blocks, y),
    decreases y,
{
    let dom2 = dom.insert(b);
    if y != 0 && y < blocks.len() {
        let ps = blocks[y as int].parents@;
        if ps.len() == 1 && ps[0] < y {
            let p = ps[0];
            if p == b {
                if chain_present(dom, blocks, y) {
                    lemma_chain_present_mono(dom, dom2, blocks, b);
                }
            } else {
                lemma_chain_present_insert_unconnected(dom, blocks, b, p);
            }
        }
    }
}

/// `chain_present` says exactly that every block on the parent chain
/// is in the tree (for a block the tree holds, against a well-formed
/// store).
pub proof fn lemma_chain_present_iff_ancestors_present(
    dom: Set<usize>,
    blocks: Seq<BitcoinBlock>,
    b: usize,
)
    requires
        wf_block_store(blocks),
        b < blocks.len(),
    ensures
        chain_present(dom, blocks, b) <==> (forall|a: usize|
            #[trigger] on_parent_chain(blocks, a, b) ==> dom.contains(a)),
    decreases b,
{
    if b == 0 {
        assert(on_parent_chain(blocks, 0, 0));
        assert forall|a: usize| #[trigger] on_parent_chain(blocks, a, 0) implies a == 0 by {}
    } else {
        let p = blocks[b as int].parents@[0];
        lemma_chain_present_iff_ancestors_present(dom, blocks, p);
        assert(on_parent_chain(blocks, b, b));
        if chain_present(dom, blocks, b) {
            assert forall|a: usize| #[trigger] on_parent_chain(blocks, a, b) implies dom.contains(
                a,
            ) by {
                if a != b {
                    assert(on_parent_chain(blocks, a, p));
                }
            }
        }
        if forall|a: usize| #[trigger] on_parent_chain(blocks, a, b) ==> dom.contains(a) {
            assert forall|a: usize| #[trigger] on_parent_chain(blocks, a, p) implies dom.contains(
                a,
            ) by {
                assert(on_parent_chain(blocks, a, b));
            }
        }
    }
}

/// Extending the store does not change whether an existing block's
/// chain is present.
pub proof fn lemma_chain_present_store_push(
    dom: Set<usize>,
    blocks: Seq<BitcoinBlock>,
    b: BitcoinBlock,
    k: usize,
)
    requires
        k < blocks.len(),
    ensures
        chain_present(dom, blocks.push(b), k) == chain_present(dom, blocks, k),
    decreases k,
{
    let blocks2 = blocks.push(b);
    assert(blocks2[k as int] == blocks[k as int]);
    if k != 0 {
        let ps = blocks[k as int].parents@;
        if ps.len() == 1 && ps[0] < k {
            lemma_chain_present_store_push(dom, blocks, b, ps[0]);
        }
    }
}

/// A well-formed tree stays well-formed when the store grows: a tree
/// only speaks of blocks it has already received.
pub proof fn lemma_tree_wf_store_push(
    t: Map<usize, LocalBlock>,
    blocks: Seq<BitcoinBlock>,
    b: BitcoinBlock,
)
    requires
        tree_wf(t, blocks),
    ensures
        tree_wf(t, blocks.push(b)),
{
    let blocks2 = blocks.push(b);
    assert forall|x: usize| #[trigger] t.contains_key(x) implies x < blocks2.len()
        && t[x].block_index == x by {
        assert(x < blocks.len());
    }
    assert forall|x: usize| #[trigger] t.contains_key(x) implies (t[x].is_connected_to_genesis
        <==> chain_present(t.dom(), blocks2, x)) by {
        lemma_chain_present_store_push(t.dom(), blocks, b, x);
    }
    assert forall|x: usize, y: usize|
        #![trigger t[x].children_index@.contains(y)]
        #![trigger t.contains_key(x), t.contains_key(y)]
        t.contains_key(x) implies (t[x].children_index@.contains(y) <==> is_child(
        t,
        blocks2,
        x,
        y,
    )) by {
        if t.contains_key(y) {
            assert(y < blocks.len());
            assert(blocks2[y as int] == blocks[y as int]);
        }
        assert(is_child(t, blocks2, x, y) == is_child(t, blocks, x, y));
    }
}

/// A node's partial copy of the block graph: the blocks it has
/// received so far, keyed by block id.
#[derive(Debug)]
pub struct LocalBlockTree {
    pub local_block_dag: HashMap<usize, LocalBlock>,
}

impl View for LocalBlockTree {
    type V = Map<usize, LocalBlock>;

    open spec fn view(&self) -> Map<usize, LocalBlock> {
        self.local_block_dag@
    }
}

impl Default for LocalBlockTree {
    fn default() -> (r: LocalBlockTree)
        ensures
            r@.dom() == Set::<usize>::empty().insert(0usize),
            r@[0].is_connected_to_genesis,
            forall|blocks: Seq<BitcoinBlock>| wf_block_store(blocks) ==> #[trigger] tree_wf(
                r@,
                blocks,
            ),
    {
        LocalBlockTree::new()
    }
}

impl LocalBlockTree {
    /// Well-formedness against a given global store.
    pub open spec fn wf(&self, blocks: Seq<BitcoinBlock>) -> bool {
        tree_wf(self@, blocks)
    }

    /// A fresh tree holding only genesis, already connected.
    pub fn new() -> (r: LocalBlockTree)
        ensures
            r@.dom() == Set::<usize>::empty().insert(0usize),
            r@[0].is_connected_to_genesis,
            r@[0].children_index@ == Set::<usize>::empty(),
            r@[0].block_index == 0,
            forall|blocks: Seq<BitcoinBlock>| wf_block_store(blocks) ==> #[trigger] tree_wf(
                r@,
                blocks,
            ),
    {
        let genesis_block_index: usize = 0;
        let mut genesis_local_block = LocalBlock::new(genesis_block_index);
        genesis_local_block.is_connected_to_genesis = true;
        let mut local_block_dag = HashMap::new();
        local_block_dag.insert(genesis_block_index, genesis_local_block);
        let r = LocalBlockTree { local_block_dag };
        proof {
            assert(r@.dom() =~= Set::<usize>::empty().insert(0usize));
            assert forall|blocks: Seq<BitcoinBlock>| wf_block_store(blocks) implies #[trigger]
                tree_wf(r@, blocks) by {
                assert forall|b: usize| #[trigger] r@.contains_key(b) implies b < blocks.len()
                    && r@[b].block_index == b by {
                    assert(b == 0);
                }
                assert forall|b: usize| #[trigger] r@.contains_key(b) implies (
                    r@[b].is_connected_to_genesis <==> chain_present(r@.dom(), blocks, b)) by {
                    assert(b == 0);
                    assert(chain_present(r@.dom(), blocks, 0));
                }
                assert forall|x: usize, y: usize|
                    #![trigger r@[x].children_index@.contains(y)]
                    #![trigger r@.contains_key(x), r@.contains_key(y)]
                    r@.contains_key(x) implies (r@[x].children_index@.contains(y) <==> is_child(
                    r@,
                    blocks,
                    x,
                    y,
                )) by {
                    assert(x == 0);
                    if is_child(r@, blocks, x, y) {
                        assert(r@.contains_key(y) && y != 0);
                        assert(false);
                    }
                }
            }
        }
        r
    }

    /// Whether `block_index` is among the received blocks.
    pub fn contains(&self, block_index: usize) -> (r: bool)
        ensures
            r == self@.contains_key(block_index),
    {
        self.local_block_dag.contains_key(&block_index)
    }
}

impl LocalBlockTree {
    /// Records `block_index`, wires it as a child of its parent and as
    /// the parent of any already received children, and propagates
    /// `connected_to_genesis` to it and, transitively, to every
    /// received descendant its arrival connects. Adding a block the
    /// tree already holds leaves the tree unchanged.
    pub fn add(&mut self, block_index: usize, blocks: &Vec<BitcoinBlock>)
        requires
            wf_block_store(blocks@),
            old(self).wf(blocks@),
            block_index < blocks@.len(),
        ensures
            final(self).wf(blocks@),
            final(self)@.dom() == old(self)@.dom().insert(block_index),
            old(self)@.contains_key(block_index) ==> final(self)@ == old(self)@,
    {
        if self.contains(block_index) {
            proof {
                assert(self@.dom().insert(block_index) =~= self@.dom());
            }
            return;
        }
        let ghost m0 = self@;
        let ghost dom0 = m0.dom();
        let ghost dom1 = dom0.insert(block_index);

        // genesis is always present, so the new block has one parent.
        assert(block_index != 0);
        assert(blocks@[block_index as int].parents@.len() == 1);
        let parent: usize = blocks[block_index].parents[0];
        assert(parent < block_index);

        // Children of the new block among the already received blocks;
        // any such child has a larger id than its parent.
        let mut children: HashSet<usize> = HashSet::new();
        let mut i: usize = block_index + 1;
        while i < blocks.len()
            invariant
                wf_block_store(blocks@),
                self@ == m0,
                tree_wf(m0, blocks@),
                block_index < i <= blocks@.len(),
                forall|y: usize| #[trigger]
                    children@.contains(y) ==> block_index < y < i && is_child(
                        m0,
                        blocks@,
                        block_index,
                        y,
                    ),
                forall|y: usize|
                    block_index < y < i && #[trigger] m0.contains_key(y)
                        && blocks@[y as int].parents@[0] == block_index ==> children@.contains(y),
            decreases blocks@.len() - i,
        {
            if self.contains(i) {
                let pi: usize = blocks[i].parents[0];
                if pi == block_index {
                    children.insert(i);
                }
            }
            i = i + 1;
        }
        proof {
            assert forall|y: usize| #[trigger] is_child(m0, blocks@, block_index, y)
                implies children@.contains(y) by {
                assert(m0.contains_key(y));
                assert(blocks@[y as int].parents@[0] < y);
            }
        }

        // Wire the new block as a child of its parent, if received,
        // and read off whether the parent is connected.
        let parent_in = self.contains(parent);
        let mut parent_connected = false;
        if parent_in {
            let mut plb = self.local_block_dag.remove(&parent).unwrap();
            parent_connected = plb.is_connected_to_genesis;
            plb.children_index.insert(block_index);
            self.local_block_dag.insert(parent, plb);
            proof {
                assert(self@ =~= m0.insert(parent, self@[parent]));
            }
        }
        let ghost m1 = self@;

        let connected = parent_connected;
        proof {
            lemma_chain_present_insert_above(dom0, blocks@, block_index, parent);
            assert(chain_present(dom1, blocks@, block_index) == connected);
        }

        let new_local_block = LocalBlock {
            block_index,
            children_index: children,
            is_connected_to_genesis: connected,
        };
        self.local_block_dag.insert(block_index, new_local_block);
        let ghost m2 = self@;
        proof {
            assert(m2 =~= m1.insert(block_index, m2[block_index]));
            assert(m2.dom() =~= dom1);
            lemma_after_insert_shape(m0, m2, blocks@, block_index, parent, connected);
        }

        if connected {
            proof {
                assert forall|k: usize|
                    #[trigger] self@.contains_key(k) && k < block_index + 1 implies (
                    self@[k].is_connected_to_genesis <==> chain_present(dom1, blocks@, k)) by {
                    if k != block_index {
                        lemma_chain_present_insert_above(dom0, blocks@, block_index, k);
                    }
                }
            }
            // The new block may connect received descendants: sweep the
            // ids above it in increasing order, so each block's parent
            // is settled before the block itself is visited.
            let mut j: usize = block_index + 1;
            while j < blocks.len()
                invariant
                    wf_block_store(blocks@),
                    block_index < j <= blocks@.len(),
                    block_index < blocks@.len(),
                    self@.dom() == dom1,
                    dom1 == dom0.insert(block_index),
                    !dom0.contains(block_index),
                    chain_present(dom1, blocks@, block_index),
                    self@.contains_key(0),
                    tree_nodes_ok(self@, blocks@),
                    tree_children_ok(self@, blocks@),
                    forall|k: usize|
                        #[trigger] self@.contains_key(k) && k < j ==> (
                        self@[k].is_connected_to_genesis <==> chain_present(dom1, blocks@, k)),
                    forall|k: usize|
                        #[trigger] self@.contains_key(k) && k >= j ==> (
                        self@[k].is_connected_to_genesis <==> chain_present(dom0, blocks@, k)),
                decreases blocks@.len() - j,
            {
                let ghost t_old = self@;
                if self.contains(j) {
                    assert(j != 0);
                    assert(blocks@[j as int].parents@.len() == 1);
                    let pj: usize = blocks[j].parents[0];
                    assert(pj < j);
                    let pj_connected = match self.local_block_dag.get(&pj) {
                        Some(lb) => lb.is_connected_to_genesis,
                        None => false,
                    };
                    proof {
                        assert(pj_connected == chain_present(dom1, blocks@, pj));
                        assert(chain_present(dom1, blocks@, j) == pj_connected);
                    }
                    if pj_connected {
                        let mut jlb = self.local_block_dag.remove(&j).unwrap();
                        jlb.is_connected_to_genesis = true;
                        self.local_block_dag.insert(j, jlb);
                        proof {
                            assert(self@ =~= t_old.insert(j, self@[j]));
                            assert(self@.dom() =~= dom1);
                            assert forall|x: usize, y: usize|
                                #![trigger self@[x].children_index@.contains(y)]
                                #![trigger self@.contains_key(x), self@.contains_key(y)]
                                self@.contains_key(x) implies (self@[x].children_index@.contains(y)
                                <==> is_child(self@, blocks@, x, y)) by {
                                assert(self@[x].children_index@ == t_old[x].children_index@);
                                assert(is_child(self@, blocks@, x, y) == is_child(
                                    t_old,
                                    blocks@,
                                    x,
                                    y,
                                ));
                            }
                        }
                    } else {
                        proof {
                            if self@[j].is_connected_to_genesis {
                                assert(chain_present(dom0, blocks@, j));
                                lemma_chain_present_mono(dom0, dom1, blocks@, j);
                                assert(false);
                            }
                        }
                    }
                }
                j = j + 1;
            }
            proof {
                assert forall|b: usize| #[trigger] self@.contains_key(b) implies (
                    self@[b].is_connected_to_genesis <==> chain_present(
                    self@.dom(),
                    blocks@,
                    b,
                )) by {
                    assert(b < blocks@.len());
                    assert(b < j);
                }
            }
        } else {
            proof {
                assert(!chain_present(dom1, blocks@, block_index));
                assert forall|b: usize| #[trigger] self@.contains_key(b) implies (
                    self@[b].is_connected_to_genesis <==> chain_present(
                    self@.dom(),
                    blocks@,
                    b,
                )) by {
                    if b != block_index {
                        lemma_chain_present_insert_unconnected(dom0, blocks@, block_index, b);
                    }
                }
            }
        }
        proof {
            assert(self@.dom() =~= old(self)@.dom().insert(block_index));
        }
    }
}

/// Shape of the tree right after the plain insertion of a new block,
/// before connectedness is propagated to descendants: the key set has
/// grown by the new block, child links are right everywhere, and every
/// old entry keeps its old connected flag.
proof fn lemma_after_insert_shape(
    m0: Map<usize, LocalBlock>,
    m2: Map<usize, LocalBlock>,
    blocks: Seq<BitcoinBlock>,
    block_index: usize,
    parent: usize,
    connected: bool,
)
    requires
        wf_block_store(blocks),
        tree_wf(m0, blocks),
        block_index != 0,
        block_index < blocks.len(),
        !m0.contains_key(block_index),
        blocks[block_index as int].parents@.len() == 1,
        blocks[block_index as int].parents@[0] == parent,
        m2.dom() == m0.dom().insert(block_index),
        m2.contains_key(block_index),
        m2[block_index].block_index == block_index,
        m2[block_index].is_connected_to_genesis == connected,
        forall|y: usize| #[trigger]
            m2[block_index].children_index@.contains(y) ==> is_child(m0, blocks, block_index, y),
        forall|y: usize| #[trigger]
            is_child(m0, blocks, block_index, y) ==> m2[block_index].children_index@.contains(y),
        forall|k: usize|
            #[trigger] m0.contains_key(k) && k != parent ==> m2[k] == m0[k],
        m0.contains_key(parent) ==> {
            &&& m2[parent].block_index == m0[parent].block_index
            &&& m2[parent].is_connected_to_genesis == m0[parent].is_connected_to_genesis
            &&& m2[parent].children_index@ == m0[parent].children_index@.insert(block_index)
        },
    ensures
        m2.contains_key(0),
        tree_nodes_ok(m2, blocks),
        tree_children_ok(m2, blocks),
        forall|k: usize|
            #[trigger] m2.contains_key(k) && k != block_index ==> (
            m2[k].is_connected_to_genesis <==> chain_present(m0.dom(), blocks, k)),
{
    assert forall|b: usize| #[trigger] m2.contains_key(b) implies b < blocks.len()
        && m2[b].block_index == b by {
        if b != block_index {
            assert(m0.contains_key(b));
        }
    }
    assert forall|x: usize, y: usize|
        #![trigger m2[x].children_index@.contains(y)]
        #![trigger m2.contains_key(x), m2.contains_key(y)]
        m2.contains_key(x) implies (m2[x].children_index@.contains(y) <==> is_child(
        m2,
        blocks,
        x,
        y,
    )) by {
        if x == block_index {
            if is_child(m2, blocks, x, y) {
                assert(blocks[y as int].parents@[0] == block_index);
                assert(blocks[y as int].parents@[0] < y);
                assert(y != block_index);
                assert(m0.contains_key(y));
                assert(is_child(m0, blocks, x, y));
            }
            if m2[x].children_index@.contains(y) {
                assert(is_child(m0, blocks, block_index, y));
                assert(is_child(m2, blocks, block_index, y));
            }
        } else {
            assert(m0.contains_key(x));
            if x == parent && m0.contains_key(parent) {
                if m2[x].children_index@.contains(y) {
                    if y == block_index {
                        assert(is_child(m2, blocks, x, y));
                    } else {
                        assert(m0[x].children_index@.contains(y));
                        assert(is_child(m0, blocks, x, y));
                        assert(is_child(m2, blocks, x, y));
                    }
                }
                if is_child(m2, blocks, x, y) {
                    if y != block_index {
                        assert(is_child(m0, blocks, x, y));
                        assert(m0[x].children_index@.contains(y));
                    }
                }
            } else {
                assert(m2[x] == m0[x]);
                if m2[x].children_index@.contains(y) {
                    assert(is_child(m0, blocks, x, y));
                    assert(y != block_index);
                    assert(is_child(m2, blocks, x, y));
                }
                if is_child(m2, blocks, x, y) {
                    if y == block_index {
                        assert(blocks[y as int].parents@[0] == parent);
                        assert(false);
                    }
                    assert(is_child(m0, blocks, x, y));
                }
            }
        }
    }
    assert forall|k: usize| #[trigger] m2.contains_key(k) && k != block_index implies (
        m2[k].is_connected_to_genesis <==> chain_present(m0.dom(), blocks, k)) by {
        assert(m0.contains_key(k));
    }
}

/// `y` lies strictly below `b` through parent links that all stay
/// inside the tree (so `y` is reachable from `b` along child links of
/// received blocks).
pub open spec fn is_descendant(
    dom: Set<usize>,
    blocks: Seq<BitcoinBlock>,
    y: usize,
    b: usize,
) -> bool
    decreases y,
{
    if !dom.contains(y) || y == 0 || y >= blocks.len() {
        false
    } else {
        let ps = blocks[y as int].parents@;
        if ps.len() == 1 && ps[0] < y {
            ps[0] == b || is_descendant(dom, blocks, ps[0], b)
        } else {
            false
        }
    }
}

/// Descendants have larger ids than the block they descend from.
pub proof fn lemma_descendant_above(dom: Set<usize>, blocks: Seq<BitcoinBlock>, y: usize, b: usize)
    requires
        is_descendant(dom, blocks, y, b),
    ensures
        b < y,
    decreases y,
{
    let ps = blocks[y as int].parents@;
    if ps[0] != b {
        lemma_descendant_above(dom, blocks, ps[0], b);
    }
}

/// The ancestor of `b` at exactly `height`, found by walking single
/// parents while every step is present in the tree.
pub open spec fn ancestor_at_height(
    dom: Set<usize>,
    blocks: Seq<BitcoinBlock>,
    b: usize,
    height: i32,
) -> Option<usize>
    decreases b,
{
    if !dom.contains(b) || b >= blocks.len() {
        None
    } else if blocks[b as int].height == height {
        Some(b)
    } else if blocks[b as int].height < height {
        None
    } else {
        let ps = blocks[b as int].parents@;
        if ps.len() == 1 && ps[0] < b {
            ancestor_at_height(dom, blocks, ps[0], height)
        } else {
            None
        }
    }
}

/// All tree-present blocks on the strict ancestor walk that starts at
/// `a` and stops at the first gap.
pub open spec fn tree_ancestors_from(dom: Set<usize>, blocks: Seq<BitcoinBlock>, a: usize) -> Set<
    usize,
>
    decreases a,
{
    if !dom.contains(a) || a >= blocks.len() {
        Set::empty()
    } else {
        let ps = blocks[a as int].parents@;
        let rest = if a != 0 && ps.len() == 1 && ps[0] < a {
            tree_ancestors_from(dom, blocks, ps[0])
        } else {
            Set::<usize>::empty()
        };
        rest.insert(a)
    }
}

/// The strict ancestors of `b` present in the tree, walking upward
/// until the first missing one.
pub open spec fn tree_ancestors(dom: Set<usize>, blocks: Seq<BitcoinBlock>, b: usize) -> Set<
    usize,
> {
    if !dom.contains(b) || b >= blocks.len() || b == 0 {
        Set::empty()
    } else {
        let ps = blocks[b as int].parents@;
        if ps.len() == 1 && ps[0] < b {
            tree_ancestors_from(dom, blocks, ps[0])
        } else {
            Set::empty()
        }
    }
}

/// One step up the parent chain; parentless or out-of-store blocks
/// step to genesis.
pub open spec fn chain_step(blocks: Seq<BitcoinBlock>, x: usize) -> usize {
    if x != 0 && x < blocks.len() && blocks[x as int].parents@.len() == 1
        && blocks[x as int].parents@[0] < x {
        blocks[x as int].parents@[0]
    } else {
        0
    }
}

/// The block where the upward walks from `x` and `y` first meet, both
/// stepping one parent at a time.
pub open spec fn chain_meet(blocks: Seq<BitcoinBlock>, x: usize, y: usize) -> usize
    decreases x + y,
{
    if x == y {
        x
    } else if chain_step(blocks, x) + chain_step(blocks, y) < x + y {
        chain_meet(blocks, chain_step(blocks, x), chain_step(blocks, y))
    } else {
        0
    }
}

/// The meet of `x` and `y` after the deeper one is first lifted to the
/// other's height (genesis if the lift finds a gap in the tree).
pub open spec fn common_ancestor_spec(
    dom: Set<usize>,
    blocks: Seq<BitcoinBlock>,
    block_a: usize,
    block_b: usize,
) -> usize {
    let ha = blocks[block_a as int].height;
    let hb = blocks[block_b as int].height;
    let x = if ha > hb {
        match ancestor_at_height(dom, blocks, block_a, hb) {
            Some(a) => a,
            None => 0,
        }
    } else {
        block_a
    };
    let y = if hb > ha {
        match ancestor_at_height(dom, blocks, block_b, ha) {
            Some(a) => a,
            None => 0,
        }
    } else {
        block_b
    };
    chain_meet(blocks, x, y)
}

impl LocalBlockTree {
    /// All blocks reachable from `block_index` along child links of
    /// received blocks, or `None` when the block is unknown here or
    /// has no received children.
    pub fn get_all_successors(&self, block_index: usize, blocks: &Vec<BitcoinBlock>) -> (r: Option<
        HashSet<usize>,
    >)
        requires
            wf_block_store(blocks@),
            self.wf(blocks@),
        ensures
            match r {
                None => !self@.contains_key(block_index)
                    || self@[block_index].children_index@.is_empty(),
                Some(s) => {
                    &&& self@.contains_key(block_index)
                    &&& !self@[block_index].children_index@.is_empty()
                    &&& forall|y: usize| #[trigger]
                        s@.contains(y) ==> is_descendant(self@.dom(), blocks@, y, block_index)
                    &&& forall|y: usize| #[trigger]
                        is_descendant(self@.dom(), blocks@, y, block_index) ==> s@.contains(y)
                },
            },
    {
        if !self.contains(block_index) {
            return None;
        }
        let empty_children = match self.local_block_dag.get(&block_index) {
            Some(lb) => lb.children_index.is_empty(),
            None => true,
        };
        if empty_children {
            return None;
        }
        assert(block_index < blocks@.len());
        let ordered = self.collect_descendants(block_index, blocks);
        let mut successors: HashSet<usize> = HashSet::new();
        let mut k: usize = 0;
        while k < ordered.len()
            invariant
                k <= ordered@.len(),
                forall|y: usize| #[trigger]
                    successors@.contains(y) ==> ordered@.subrange(0, k as int).contains(y),
                forall|j: int| 0 <= j < k ==> successors@.contains(#[trigger] ordered@[j]),
            decreases ordered@.len() - k,
        {
            successors.insert(ordered[k]);
            proof {
                assert forall|y: usize| #[trigger] successors@.contains(y)
                    implies ordered@.subrange(0, k + 1).contains(y) by {
                    if y == ordered@[k as int] {
                        assert(ordered@.subrange(0, k + 1)[k as int] == y);
                    } else {
                        let j = choose|j: int|
                            0 <= j < k && ordered@.subrange(0, k as int)[j] == y;
                        assert(ordered@.subrange(0, k + 1)[j] == y);
                    }
                }
            }
            k = k + 1;
        }
        proof {
            assert forall|y: usize| #[trigger] successors@.contains(y) implies is_descendant(
                self@.dom(),
                blocks@,
                y,
                block_index,
            ) by {
                let j = choose|j: int|
                    0 <= j < ordered@.len() && ordered@.subrange(0, ordered@.len() as int)[j] == y;
                assert(ordered@[j] == y);
            }
            assert forall|y: usize| #[trigger] is_descendant(
                self@.dom(),
                blocks@,
                y,
                block_index,
            ) implies successors@.contains(y) by {
                assert(ordered@.contains(y));
                let j = choose|j: int| 0 <= j < ordered@.len() && ordered@[j] == y;
            }
        }
        Some(successors)
    }

    /// Builds the descendants in ascending id order by one pass over
    /// the ids above `block_index`: a block descends from it exactly
    /// when its parent is `block_index` or an already collected
    /// descendant.
    pub fn collect_descendants(&self, block_index: usize, blocks: &Vec<BitcoinBlock>) -> (r: Vec<
        usize,
    >)
        requires
            wf_block_store(blocks@),
            self.wf(blocks@),
            block_index < blocks@.len(),
        ensures
            forall|j: int|
                0 <= j < r@.len() ==> is_descendant(
                    self@.dom(),
                    blocks@,
                    #[trigger] r@[j],
                    block_index,
                ),
            forall|y: usize| #[trigger]
                is_descendant(self@.dom(), blocks@, y, block_index) ==> r@.contains(y),
            forall|i: int, j: int| 0 <= i < j < r@.len() ==> r@[i] < r@[j],
            r@.len() + block_index < blocks@.len(),
    {
        let ghost dom = self@.dom();
        let mut found: Vec<usize> = Vec::new();
        let mut j: usize = block_index + 1;
        proof {
            assert forall|y: usize|
                y < j && #[trigger] is_descendant(dom, blocks@, y, block_index)
                implies found@.contains(y) by {
                lemma_descendant_above(dom, blocks@, y, block_index);
            }
        }
        while j < blocks.len()
            invariant
                wf_block_store(blocks@),
                self.wf(blocks@),
                dom == self@.dom(),
                block_index < j <= blocks@.len(),
                found@.len() + block_index < j,
                forall|k: int|
                    0 <= k < found@.len() ==> block_index < (#[trigger] found@[k]) < j
                        && is_descendant(dom, blocks@, found@[k], block_index),
                forall|y: usize|
                    y < j && #[trigger] is_descendant(dom, blocks@, y, block_index)
                        ==> found@.contains(y),
                forall|i: int, k: int| 0 <= i < k < found@.len() ==> found@[i] < found@[k],
            decreases blocks@.len() - j,
        {
            if self.contains(j) {
                assert(j != 0);
                assert(blocks@[j as int].parents@.len() == 1);
                let pj: usize = blocks[j].parents[0];
                assert(pj < j);
                let is_desc = pj == block_index || contains_sorted(&found, pj);
                proof {
                    if !(pj == block_index) && !found@.contains(pj) {
                        if is_descendant(dom, blocks@, j, block_index) {
                            assert(is_descendant(dom, blocks@, pj, block_index));
                        }
                    }
                }
                if is_desc {
                    let ghost found0 = found@;
                    found.push(j);
                    proof {
                        assert forall|y: usize|
                            y < j + 1 && #[trigger] is_descendant(dom, blocks@, y, block_index)
                            implies found@.contains(y) by {
                            if y < j {
                                let k = choose|k: int| 0 <= k < found0.len() && found0[k] == y;
                                assert(found@[k] == y);
                            } else {
                                assert(found@[found0.len() as int] == y);
                            }
                        }
                    }
                }
            }
            j = j + 1;
        }
        found
    }

    /// The ancestor of `block_index` at exactly `height`, walking
    /// single parents while every intermediate block has been
    /// received; `None` when the walk hits a gap or overshoots.
    pub fn get_single_ancestor_of_height(
        &self,
        block_index: usize,
        height: i32,
        blocks: &Vec<BitcoinBlock>,
    ) -> (r: Option<usize>)
        requires
            wf_block_store(blocks@),
            self.wf(blocks@),
        ensures
            r == ancestor_at_height(self@.dom(), blocks@, block_index, height),
    {
        let ghost dom = self@.dom();
        let mut cur: usize = block_index;
        loop
            invariant
                wf_block_store(blocks@),
                self.wf(blocks@),
                dom == self@.dom(),
                ancestor_at_height(dom, blocks@, cur, height) == ancestor_at_height(
                    dom,
                    blocks@,
                    block_index,
                    height,
                ),
            decreases cur,
        {
            if !self.contains(cur) {
                return None;
            }
            assert(cur < blocks@.len());
            let h = blocks[cur].height;
            if h == height {
                return Some(cur);
            }
            if h < height {
                return None;
            }
            if cur == 0 {
                return None;
            }
            assert(blocks@[cur as int].parents@.len() == 1);
            cur = blocks[cur].parents[0];
        }
    }

    /// All strict ancestors of `block_index` that this tree holds,
    /// walking upward until the first missing one.
    pub fn get_all_single_ancestors(&self, block_index: usize, blocks: &Vec<BitcoinBlock>) -> (r:
        HashSet<usize>)
        requires
            wf_block_store(blocks@),
            self.wf(blocks@),
            block_index < blocks@.len(),
        ensures
            r@ == tree_ancestors(self@.dom(), blocks@, block_index),
    {
        let ghost dom = self@.dom();
        let mut ancestors: HashSet<usize> = HashSet::new();
        if !self.contains(block_index) {
            proof {
                assert(ancestors@ =~= tree_ancestors(dom, blocks@, block_index));
            }
            return ancestors;
        }
        if block_index == 0 {
            proof {
                assert(ancestors@ =~= tree_ancestors(dom, blocks@, block_index));
            }
            return ancestors;
        }
        assert(blocks@[block_index as int].parents@.len() == 1);
        let mut a: usize = blocks[block_index].parents[0];
        loop
            invariant
                wf_block_store(blocks@),
                self.wf(blocks@),
                dom == self@.dom(),
                a < blocks@.len(),
                ancestors@.union(tree_ancestors_from(dom, blocks@, a)) == tree_ancestors(
                    dom,
                    blocks@,
                    block_index,
                ),
                forall|k: usize| #[trigger]
                    ancestors@.contains(k) ==> tree_ancestors(dom, blocks@, block_index).contains(
                        k,
                    ),
            decreases a,
        {
            if self.contains(a) {
                ancestors.insert(a);
                if a == 0 {
                    proof {
                        assert(tree_ancestors_from(dom, blocks@, 0) =~= Set::<
                            usize,
                        >::empty().insert(0usize));
                        assert(ancestors@ =~= tree_ancestors(dom, blocks@, block_index));
                    }
                    return ancestors;
                }
                assert(blocks@[a as int].parents@.len() == 1);
                let next: usize = blocks[a].parents[0];
                proof {
                    assert(tree_ancestors_from(dom, blocks@, a) =~= tree_ancestors_from(
                        dom,
                        blocks@,
                        next,
                    ).insert(a));
                    assert(ancestors@.union(tree_ancestors_from(dom, blocks@, next))
                        =~= tree_ancestors(dom, blocks@, block_index));
                }
                a = next;
            } else {
                proof {
                    assert(tree_ancestors_from(dom, blocks@, a) =~= Set::<usize>::empty());
                    assert(ancestors@ =~= tree_ancestors(dom, blocks@, block_index));
                }
                return ancestors;
            }
        }
    }

    /// The common ancestor of two received blocks: the deeper one is
    /// lifted to the other's height, then both walk upward in lockstep
    /// until they meet.
    pub fn get_common_ancestor(
        &self,
        block_a: usize,
        block_b: usize,
        blocks: &Vec<BitcoinBlock>,
    ) -> (r: usize)
        requires
            wf_block_store(blocks@),
            self.wf(blocks@),
            block_a < blocks@.len(),
            block_b < blocks@.len(),
        ensures
            r == common_ancestor_spec(self@.dom(), blocks@, block_a, block_b),
            r < blocks@.len(),
    {
        let ha = blocks[block_a].height;
        let hb = blocks[block_b].height;
        let mut x: usize = block_a;
        let mut y: usize = block_b;
        if ha > hb {
            x = match self.get_single_ancestor_of_height(block_a, hb, blocks) {
                Some(a) => a,
                None => 0,
            };
        } else if ha < hb {
            y = match self.get_single_ancestor_of_height(block_b, ha, blocks) {
                Some(a) => a,
                None => 0,
            };
        }
        proof {
            lemma_ancestor_at_height_in_store(self@.dom(), blocks@, block_a, hb);
            lemma_ancestor_at_height_in_store(self@.dom(), blocks@, block_b, ha);
        }
        let ghost x0 = x;
        let ghost y0 = y;
        while x != y
            invariant
                wf_block_store(blocks@),
                x < blocks@.len(),
                y < blocks@.len(),
                chain_meet(blocks@, x, y) == chain_meet(blocks@, x0, y0),
            decreases x + y,
        {
            let xs: usize = if x == 0 {
                0
            } else {
                assert(blocks@[x as int].parents@.len() == 1);
                blocks[x].parents[0]
            };
            let ys: usize = if y == 0 {
                0
            } else {
                assert(blocks@[y as int].parents@.len() == 1);
                blocks[y].parents[0]
            };
            proof {
                assert(xs == chain_step(blocks@, x));
                assert(ys == chain_step(blocks@, y));
                assert(xs + ys < x + y);
            }
            x = xs;
            y = ys;
        }
        x
    }
}

/// A found ancestor is itself a block of the store.
pub proof fn lemma_ancestor_at_height_in_store(
    dom: Set<usize>,
    blocks: Seq<BitcoinBlock>,
    b: usize,
    height: i32,
)
    ensures
        match ancestor_at_height(dom, blocks, b, height) {
            Some(a) => a < blocks.len(),
            None => true,
        },
    decreases b,
{
    if dom.contains(b) && b < blocks.len() && blocks[b as int].height != height
        && blocks[b as int].height > height {
        let ps = blocks[b as int].parents@;
        if ps.len() == 1 && ps[0] < b {
            lemma_ancestor_at_height_in_store(dom, blocks, ps[0], height);
        }
    }
}

/// Membership in an ascending vector of block ids.
fn contains_sorted(v: &Vec<usize>, x: usize) -> (r: bool)
    ensures
        r == v@.contains(x),
{
    let mut k: usize = 0;
    while k < v.len()
        invariant
            k <= v@.len(),
            forall|j: int| 0 <= j < k ==> v@[j] != x,
        decreases v@.len() - k,
    {
        if v[k] == x {
            return true;
        }
        k = k + 1;
    }
    false
}

/// Resets every tree in the slice to a fresh genesis-only tree.
pub fn assign_initial_local_block_trees(local_block_tree: &mut Vec<LocalBlockTree>, num_of_nodes: usize)
    requires
        old(local_block_tree)@.len() == num_of_nodes,
    ensures
        final(local_block_tree)@.len() == num_of_nodes,
        forall|n: int|
            0 <= n < num_of_nodes ==> {
                &&& (#[trigger] final(local_block_tree)@[n]@).dom() == Set::<usize>::empty().insert(
                    0usize,
                )
                &&& final(local_block_tree)@[n]@[0].is_connected_to_genesis
                &&& forall|blocks: Seq<BitcoinBlock>| wf_block_store(blocks) ==> #[trigger] tree_wf(
                    final(local_block_tree)@[n]@,
                    blocks,
                )
            },
{
    let mut n: usize = 0;
    while n < num_of_nodes
        invariant
            local_block_tree@.len() == num_of_nodes,
            0 <= n <= num_of_nodes,
            forall|k: int|
                0 <= k < n ==> {
                    &&& (#[trigger] local_block_tree@[k]@).dom() == Set::<usize>::empty().insert(
                        0usize,
                    )
                    &&& local_block_tree@[k]@[0].is_connected_to_genesis
                    &&& forall|blocks: Seq<BitcoinBlock>| wf_block_store(blocks)
                        ==> #[trigger] tree_wf(local_block_tree@[k]@, blocks)
                },
        decreases num_of_nodes - n,
    {
        local_block_tree[n] = LocalBlockTree::new();
        n = n + 1;
    }
}

} // verus!
