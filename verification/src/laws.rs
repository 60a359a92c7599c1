//! The library's standing laws, stated and proved once over the spec
//! functions the contracts use. Each is a fact a caller may rely on
//! without reading any implementation.

use crate::block::BitcoinBlock;
use crate::block::lemma_height_bounds;
use crate::block::wf_block_store;
use crate::consensus::confirmation_target;
use crate::local_block::LocalBlock;
use crate::local_block_tree::chain_present;
use crate::local_block_tree::lemma_chain_present_iff_ancestors_present;
use crate::local_block_tree::ancestor_at_height;
use crate::local_block_tree::chain_meet;
use crate::local_block_tree::chain_step;
use crate::local_block_tree::on_parent_chain;
use crate::local_block_tree::tree_wf;
use crate::network::store_extended;
use crate::receive::inv_requests;
use crate::receive::inv_seen_after;
use crate::simulator::fire_time_of;
use vstd::prelude::*;

verus! {

/// Genesis is present and flagged connected in every well-formed
/// local tree, from initialization onward.
pub proof fn lemma_genesis_always_connected(t: Map<usize, LocalBlock>, blocks: Seq<BitcoinBlock>)
    requires
        wf_block_store(blocks),
        tree_wf(t, blocks),
    ensures
        t.contains_key(0),
        t[0].is_connected_to_genesis,
{
    assert(chain_present(t.dom(), blocks, 0));
}

/// A block a tree holds is flagged connected-to-genesis exactly when
/// every block on its parent chain (itself included) is present in
/// that tree.
pub proof fn lemma_connected_iff_ancestors_present(
    t: Map<usize, LocalBlock>,
    blocks: Seq<BitcoinBlock>,
    b: usize,
)
    requires
        wf_block_store(blocks),
        tree_wf(t, blocks),
        t.contains_key(b),
    ensures
        t[b].is_connected_to_genesis <==> (forall|a: usize|
            #[trigger] on_parent_chain(blocks, a, b) ==> t.contains_key(a)),
{
    lemma_chain_present_iff_ancestors_present(t.dom(), blocks, b);
}

/// Announcing the same block to a node twice provokes at most one
/// payload request in total: the request count of the first
/// announcement plus that of the second, taken against the seen-set
/// the first one leaves behind, never exceeds one.
pub proof fn lemma_repeated_inv_at_most_one_request(seen: Map<usize, bool>, b: usize)
    ensures
        inv_requests(seen, b) + inv_requests(inv_seen_after(seen, b), b) <= 1,
{
}

/// With confirmation depth zero, any non-genesis block a node holds
/// confirms itself the moment it becomes the canonical head: the
/// confirmation tip of a head `b` is `b` itself.
pub proof fn lemma_depth_zero_confirms_head(dom: Set<usize>, blocks: Seq<BitcoinBlock>, b: usize)
    requires
        wf_block_store(blocks),
        b < blocks.len(),
        b != 0,
        dom.contains(b),
    ensures
        confirmation_target(dom, blocks, b, 0) == Some(b),
{
    lemma_height_bounds(blocks, b as int);
    let p = blocks[b as int].parents@[0];
    lemma_height_bounds(blocks, p as int);
}

/// A node's recorded longest-chain length always equals the height of
/// its canonical head.
pub proof fn lemma_chain_length_matches_head_height(
    c: crate::consensus::NakamotoConsensus,
    blocks: Seq<BitcoinBlock>,
)
    requires
        c.wf(blocks),
    ensures
        c.longest_chain_len == blocks[c.current_main_chain_head_index as int].height,
{
}

/// What the ancestor walk finds really is an ancestor: a block it
/// returns lies on the parent chain of the start block, sits in the
/// tree, and has exactly the requested height.
pub proof fn lemma_ancestor_at_height_correct(
    dom: Set<usize>,
    blocks: Seq<BitcoinBlock>,
    b: usize,
    height: i32,
)
    requires
        wf_block_store(blocks),
        b < blocks.len(),
    ensures
        match ancestor_at_height(dom, blocks, b, height) {
            Some(a) => {
                &&& on_parent_chain(blocks, a, b)
                &&& dom.contains(a)
                &&& a < blocks.len()
                &&& blocks[a as int].height == height
            },
            None => true,
        },
    decreases b,
{
    if dom.contains(b) && blocks[b as int].height != height && blocks[b as int].height > height {
        let ps = blocks[b as int].parents@;
        if ps.len() == 1 && ps[0] < b {
            lemma_ancestor_at_height_correct(dom, blocks, ps[0], height);
            if ancestor_at_height(dom, blocks, ps[0], height) is Some {
                assert(on_parent_chain(
                    blocks,
                    ancestor_at_height(dom, blocks, ps[0], height).unwrap(),
                    b,
                ));
            }
        }
    }
}

/// The lockstep meet of two upward walks is a common ancestor: it
/// lies on the parent chain of each start block, or is genesis when a
/// walk fell off a parentless block.
pub proof fn lemma_chain_meet_is_common_ancestor(blocks: Seq<BitcoinBlock>, x: usize, y: usize)
    requires
        wf_block_store(blocks),
        x < blocks.len(),
        y < blocks.len(),
    ensures
        on_parent_chain(blocks, chain_meet(blocks, x, y), x) || chain_meet(blocks, x, y) == 0,
        on_parent_chain(blocks, chain_meet(blocks, x, y), y) || chain_meet(blocks, x, y) == 0,
    decreases x + y,
{
    if x == y {
        assert(on_parent_chain(blocks, x, x));
    } else {
        let xs = chain_step(blocks, x);
        let ys = chain_step(blocks, y);
        assert(xs + ys < x + y);
        lemma_chain_meet_is_common_ancestor(blocks, xs, ys);
        let m = chain_meet(blocks, xs, ys);
        if on_parent_chain(blocks, m, xs) && x != 0 {
            assert(on_parent_chain(blocks, m, x));
        }
        if on_parent_chain(blocks, m, ys) && y != 0 {
            assert(on_parent_chain(blocks, m, y));
        }
        if x == 0 {
            assert(xs == 0);
            if on_parent_chain(blocks, m, xs) {
                assert(m == 0);
            }
        }
        if y == 0 {
            assert(ys == 0);
            if on_parent_chain(blocks, m, ys) {
                assert(m == 0);
            }
        }
    }
}

/// The append-only relation between snapshots of the block store is
/// transitive: serializing the store at any two event boundaries
/// yields a prefix relation.
pub proof fn lemma_store_extended_transitive(
    a: Seq<BitcoinBlock>,
    b: Seq<BitcoinBlock>,
    c: Seq<BitcoinBlock>,
)
    requires
        store_extended(a, b),
        store_extended(b, c),
    ensures
        store_extended(a, c),
{
    assert(a =~= c.take(a.len() as int));
}

/// Nothing is ever scheduled in the past: an event inserted with any
/// delay fires no earlier than the instant it was scheduled at.
pub proof fn lemma_fire_time_not_in_past(now: u64, delay: u64)
    ensures
        fire_time_of(now, delay) >= now,
{
}

} // verus!
