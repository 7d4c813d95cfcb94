//! The block table of the storage engine.
//!
//! Blocks are held in the order they were applied, with pairwise distinct
//! heights, and are never overwritten or deleted.  The mathematical content
//! of the table is the map [`blocks_map`] from height to the block's data.

use vstd::prelude::*;
use crate::types::{Block, Transaction};

verus! {

/// The data stored for one block: its hash, its timestamp, and its ordered
/// transactions.
pub open spec fn block_data(b: Block) -> (Seq<char>, i64, Seq<Transaction>) {
    (b.hash@, b.timestamp, b.transactions@)
}

/// The mathematical content of a block table: height to block data.
pub open spec fn blocks_map(s: Seq<Block>) -> Map<u64, (Seq<char>, i64, Seq<Transaction>)>
    decreases s.len(),
{
    if s.len() == 0 {
        Map::empty()
    } else {
        blocks_map(s.drop_last()).insert(s.last().height, block_data(s.last()))
    }
}

/// Blocks carry pairwise distinct heights.
pub open spec fn heights_unique(s: Seq<Block>) -> bool {
    forall|i: int, j: int| 0 <= i < j < s.len() ==> (#[trigger] s[i]).height != (#[trigger] s[j]).height
}

/// The domain of [`blocks_map`] is exactly the heights of the table.
pub proof fn lemma_blocks_map_domain(s: Seq<Block>)
    ensures
        forall|h: u64| #[trigger] blocks_map(s).contains_key(h) <==> (exists|i: int|
            0 <= i < s.len() && (#[trigger] s[i]).height == h),
    decreases s.len(),
{
    if s.len() > 0 {
        lemma_blocks_map_domain(s.drop_last());
        assert forall|h: u64| #[trigger] blocks_map(s).contains_key(h) implies (exists|i: int|
            0 <= i < s.len() && (#[trigger] s[i]).height == h) by {
            if h == s.last().height {
                assert(s[s.len() - 1].height == h);
            } else {
                assert(blocks_map(s.drop_last()).contains_key(h));
                let i = choose|i: int| 0 <= i < s.drop_last().len() && (#[trigger] s.drop_last()[i]).height == h;
                assert(s.drop_last()[i] == s[i]);
                assert(s[i].height == h);
            }
        }
        assert forall|h: u64| (exists|i: int| 0 <= i < s.len() && (#[trigger] s[i]).height == h)
            implies #[trigger] blocks_map(s).contains_key(h) by {
            let i = choose|i: int| 0 <= i < s.len() && (#[trigger] s[i]).height == h;
            if i < s.len() - 1 {
                assert(s.drop_last()[i].height == h);
                assert(blocks_map(s.drop_last()).contains_key(h));
            }
        }
    }
}

/// On a table with unique heights, the map agrees with each block.
pub proof fn lemma_blocks_map_index(s: Seq<Block>, i: int)
    requires
        heights_unique(s),
        0 <= i < s.len(),
    ensures
        blocks_map(s).contains_key(s[i].height),
        blocks_map(s)[s[i].height] == block_data(s[i]),
    decreases s.len(),
{
    if i < s.len() - 1 {
        lemma_blocks_map_index(s.drop_last(), i);
        assert(s.drop_last()[i] == s[i]);
        assert(s[i].height != s.last().height);
    }
}

/// Finds the position of the block with a given height.
pub fn block_find(v: &Vec<Block>, height: u64) -> (r: Option<usize>)
    requires
        heights_unique(v@),
    ensures
        (match r {
            Some(i) => i < v@.len() && v@[i as int].height == height && blocks_map(
                v@,
            ).contains_key(height) && blocks_map(v@)[height] == block_data(v@[i as int]),
            None => !blocks_map(v@).contains_key(height),
        }),
{
    let n = v.len();
    let mut i: usize = 0;
    while i < n
        invariant
            n == v@.len(),
            i <= n,
            heights_unique(v@),
            forall|k: int| 0 <= k < i ==> (#[trigger] v@[k]).height != height,
        decreases n - i,
    {
        if v[i].height == height {
            proof {
                lemma_blocks_map_index(v@, i as int);
            }
            return Some(i);
        }
        i = i + 1;
    }
    proof {
        lemma_blocks_map_domain(v@);
    }
    None
}

} // verus!
