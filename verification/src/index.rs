//! The per-address transaction index of the storage engine.
//!
//! For each source address the store keeps the list of back-references to
//! the transactions it issued, in the order they were applied and without
//! duplicates by value.  The mathematical content of the table is the map
//! [`index_map`]; adding a reference is specified by [`ti_applied`].

use vstd::prelude::*;
use vstd::pervasive::VecAdditionalExecFns;
use crate::types::TransactionIndex;

verus! {

/// One row of the index table: an address and its back-references.
pub struct IndexEntry {
    pub address: String,
    pub entries: Vec<TransactionIndex>,
}

/// The mathematical content of an index table: address content to its list
/// of back-references.
pub open spec fn index_map(s: Seq<IndexEntry>) -> Map<Seq<char>, Seq<TransactionIndex>>
    decreases s.len(),
{
    if s.len() == 0 {
        Map::empty()
    } else {
        index_map(s.drop_last()).insert(s.last().address@, s.last().entries@)
    }
}

/// Rows name pairwise distinct addresses.
pub open spec fn index_keys_unique(s: Seq<IndexEntry>) -> bool {
    forall|i: int, j: int| 0 <= i < j < s.len() ==> (#[trigger] s[i]).address@ != (#[trigger] s[j]).address@
}

/// What recording one back-reference does to the index: append it to the
/// address's list unless the list already holds it by value; an address
/// first referenced gets a singleton list.
pub open spec fn ti_applied(
    m: Map<Seq<char>, Seq<TransactionIndex>>,
    a: Seq<char>,
    ti: TransactionIndex,
) -> Map<Seq<char>, Seq<TransactionIndex>> {
    if m.contains_key(a) {
        if m[a].contains(ti) {
            m
        } else {
            m.insert(a, m[a].push(ti))
        }
    } else {
        m.insert(a, seq![ti])
    }
}

/// The domain of [`index_map`] is exactly the addresses of the rows.
pub proof fn lemma_index_map_domain(s: Seq<IndexEntry>)
    ensures
        forall|a: Seq<char>| #[trigger] index_map(s).contains_key(a) <==> (exists|i: int|
            0 <= i < s.len() && (#[trigger] s[i]).address@ == a),
    decreases s.len(),
{
    if s.len() > 0 {
        lemma_index_map_domain(s.drop_last());
        assert forall|a: Seq<char>| #[trigger] index_map(s).contains_key(a) implies (exists|i: int|
            0 <= i < s.len() && (#[trigger] s[i]).address@ == a) by {
            if a == s.last().address@ {
                assert(s[s.len() - 1].address@ == a);
            } else {
                assert(index_map(s.drop_last()).contains_key(a));
                let i = choose|i: int| 0 <= i < s.drop_last().len() && (#[trigger] s.drop_last()[i]).address@ == a;
                assert(s.drop_last()[i] == s[i]);
                assert(s[i].address@ == a);
            }
        }
        assert forall|a: Seq<char>| (exists|i: int| 0 <= i < s.len() && (#[trigger] s[i]).address@ == a)
            implies #[trigger] index_map(s).contains_key(a) by {
            let i = choose|i: int| 0 <= i < s.len() && (#[trigger] s[i]).address@ == a;
            if i < s.len() - 1 {
                assert(s.drop_last()[i].address@ == a);
                assert(index_map(s.drop_last()).contains_key(a));
            }
        }
    }
}

/// On a table with unique keys, the map agrees with each row.
pub proof fn lemma_index_map_index(s: Seq<IndexEntry>, i: int)
    requires
        index_keys_unique(s),
        0 <= i < s.len(),
    ensures
        index_map(s).contains_key(s[i].address@),
        index_map(s)[s[i].address@] == s[i].entries@,
    decreases s.len(),
{
    if i < s.len() - 1 {
        lemma_index_map_index(s.drop_last(), i);
        assert(s.drop_last()[i] == s[i]);
        assert(s[i].address@ != s.last().address@);
    }
}

/// Replacing the row of an address updates the map at that address alone.
pub proof fn lemma_index_map_update(s: Seq<IndexEntry>, i: int, e: IndexEntry)
    requires
        index_keys_unique(s),
        0 <= i < s.len(),
        e.address@ == s[i].address@,
    ensures
        index_keys_unique(s.update(i, e)),
        index_map(s.update(i, e)) == index_map(s).insert(e.address@, e.entries@),
    decreases s.len(),
{
    let t = s.update(i, e);
    assert forall|p: int, q: int| 0 <= p < q < t.len() implies (#[trigger] t[p]).address@ != (#[trigger] t[q]).address@ by {
        assert(s[p].address@ != s[q].address@);
    }
    if i == s.len() - 1 {
        assert(t.drop_last() =~= s.drop_last());
        assert(index_map(t) =~= index_map(s).insert(e.address@, e.entries@));
    } else {
        assert(t.drop_last() =~= s.drop_last().update(i, e));
        lemma_index_map_update(s.drop_last(), i, e);
        assert(s.last().address@ != e.address@);
        assert(index_map(t) =~= index_map(s).insert(e.address@, e.entries@));
    }
}

/// Whether a list of back-references already holds one by value.
fn ti_contains(v: &Vec<TransactionIndex>, ti: TransactionIndex) -> (r: bool)
    ensures
        r == v@.contains(ti),
{
    let n = v.len();
    let mut i: usize = 0;
    while i < n
        invariant
            n == v@.len(),
            i <= n,
            forall|k: int| 0 <= k < i ==> v@[k] != ti,
        decreases n - i,
    {
        if v[i] == ti {
            return true;
        }
        i = i + 1;
    }
    false
}

/// Copies a list of back-references element by element.
pub(crate) fn ti_vec_copy(src: &Vec<TransactionIndex>) -> (r: Vec<TransactionIndex>)
    ensures
        r@ == src@,
{
    let n = src.len();
    let mut r: Vec<TransactionIndex> = Vec::new();
    let mut i: usize = 0;
    while i < n
        invariant
            n == src@.len(),
            i <= n,
            r@ == src@.take(i as int),
        decreases n - i,
    {
        r.push(src[i]);
        proof {
            assert(r@ =~= src@.take(i + 1 as int));
        }
        i = i + 1;
    }
    proof {
        assert(src@.take(n as int) =~= src@);
    }
    r
}

/// Finds the row of an address in the index table.
pub fn index_find(v: &Vec<IndexEntry>, address: &String) -> (r: Option<usize>)
    requires
        index_keys_unique(v@),
    ensures
        (match r {
            Some(i) => i < v@.len() && v@[i as int].address@ == address@ && index_map(
                v@,
            ).contains_key(address@) && index_map(v@)[address@] == v@[i as int].entries@,
            None => !index_map(v@).contains_key(address@),
        }),
{
    let n = v.len();
    let mut i: usize = 0;
    while i < n
        invariant
            n == v@.len(),
            i <= n,
            index_keys_unique(v@),
            forall|k: int| 0 <= k < i ==> (#[trigger] v@[k]).address@ != address@,
        decreases n - i,
    {
        if v[i].address == *address {
            proof {
                lemma_index_map_index(v@, i as int);
            }
            return Some(i);
        }
        i = i + 1;
    }
    proof {
        lemma_index_map_domain(v@);
    }
    None
}

/// Records one back-reference for an address, as [`ti_applied`] says.
pub fn index_add(v: &mut Vec<IndexEntry>, address: &String, ti: TransactionIndex)
    requires
        index_keys_unique(old(v)@),
    ensures
        index_keys_unique(final(v)@),
        index_map(final(v)@) == ti_applied(index_map(old(v)@), address@, ti),
{
    match index_find(v, address) {
        Some(i) => {
            if ti_contains(&v[i].entries, ti) {
                return;
            }
            let mut entries = ti_vec_copy(&v[i].entries);
            entries.push(ti);
            let entry = IndexEntry { address: address.clone(), entries };
            proof {
                lemma_index_map_update(v@, i as int, entry);
            }
            v.set(i, entry);
        },
        None => {
            let mut entries: Vec<TransactionIndex> = Vec::new();
            entries.push(ti);
            let entry = IndexEntry { address: address.clone(), entries };
            proof {
                lemma_index_map_domain(v@);
                assert(entry.entries@ =~= seq![ti]);
            }
            v.push(entry);
            proof {
                assert(v@.drop_last() =~= old(v)@);
                assert(index_map(v@) == ti_applied(index_map(old(v)@), address@, ti));
            }
        },
    }
}

} // verus!
