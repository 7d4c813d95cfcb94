//! The per-address balance table of the storage engine.
//!
//! Balances are held as rows of address and signed accumulator, with
//! addresses unique by character content.  The mathematical content of the
//! table is the map [`balance_map`]; every operation is specified as a map
//! update.

use vstd::prelude::*;
use vstd::pervasive::VecAdditionalExecFns;

verus! {

/// One row of the balance table.
pub struct BalanceEntry {
    pub address: String,
    pub balance: i64,
}

/// The mathematical content of a balance table: address content to recorded
/// balance.
pub open spec fn balance_map(s: Seq<BalanceEntry>) -> Map<Seq<char>, int>
    decreases s.len(),
{
    if s.len() == 0 {
        Map::empty()
    } else {
        balance_map(s.drop_last()).insert(s.last().address@, s.last().balance as int)
    }
}

/// Rows name pairwise distinct addresses.
pub open spec fn balance_keys_unique(s: Seq<BalanceEntry>) -> bool {
    forall|i: int, j: int| 0 <= i < j < s.len() ==> (#[trigger] s[i]).address@ != (#[trigger] s[j]).address@
}

/// The recorded balance of an address, defaulting to zero when the address
/// has no row yet: every account starts at zero.
pub open spec fn balance_or_zero(m: Map<Seq<char>, int>, a: Seq<char>) -> int {
    if m.contains_key(a) {
        m[a]
    } else {
        0
    }
}

/// The domain of [`balance_map`] is exactly the addresses of the rows.
pub proof fn lemma_balance_map_domain(s: Seq<BalanceEntry>)
    ensures
        forall|a: Seq<char>| #[trigger] balance_map(s).contains_key(a) <==> (exists|i: int|
            0 <= i < s.len() && (#[trigger] s[i]).address@ == a),
    decreases s.len(),
{
    if s.len() > 0 {
        lemma_balance_map_domain(s.drop_last());
        assert forall|a: Seq<char>| #[trigger] balance_map(s).contains_key(a) implies (exists|i: int|
            0 <= i < s.len() && (#[trigger] s[i]).address@ == a) by {
            if a == s.last().address@ {
                assert(s[s.len() - 1].address@ == a);
            } else {
                assert(balance_map(s.drop_last()).contains_key(a));
                let i = choose|i: int| 0 <= i < s.drop_last().len() && (#[trigger] s.drop_last()[i]).address@ == a;
                assert(s.drop_last()[i] == s[i]);
                assert(s[i].address@ == a);
            }
        }
        assert forall|a: Seq<char>| (exists|i: int| 0 <= i < s.len() && (#[trigger] s[i]).address@ == a)
            implies #[trigger] balance_map(s).contains_key(a) by {
            let i = choose|i: int| 0 <= i < s.len() && (#[trigger] s[i]).address@ == a;
            if i < s.len() - 1 {
                assert(s.drop_last()[i].address@ == a);
                assert(balance_map(s.drop_last()).contains_key(a));
            }
        }
    }
}

/// On a table with unique keys, the map agrees with each row.
pub proof fn lemma_balance_map_index(s: Seq<BalanceEntry>, i: int)
    requires
        balance_keys_unique(s),
        0 <= i < s.len(),
    ensures
        balance_map(s).contains_key(s[i].address@),
        balance_map(s)[s[i].address@] == s[i].balance as int,
    decreases s.len(),
{
    if i < s.len() - 1 {
        lemma_balance_map_index(s.drop_last(), i);
        assert(s.drop_last()[i] == s[i]);
        assert(s[i].address@ != s.last().address@);
    }
}

/// Replacing the row of an address updates the map at that address alone.
pub proof fn lemma_balance_map_update(s: Seq<BalanceEntry>, i: int, e: BalanceEntry)
    requires
        balance_keys_unique(s),
        0 <= i < s.len(),
        e.address@ == s[i].address@,
    ensures
        balance_keys_unique(s.update(i, e)),
        balance_map(s.update(i, e)) == balance_map(s).insert(e.address@, e.balance as int),
    decreases s.len(),
{
    let t = s.update(i, e);
    assert forall|p: int, q: int| 0 <= p < q < t.len() implies (#[trigger] t[p]).address@ != (#[trigger] t[q]).address@ by {
        assert(s[p].address@ != s[q].address@);
    }
    if i == s.len() - 1 {
        assert(t.drop_last() =~= s.drop_last());
        assert(balance_map(t) =~= balance_map(s).insert(e.address@, e.balance as int));
    } else {
        assert(t.drop_last() =~= s.drop_last().update(i, e));
        lemma_balance_map_update(s.drop_last(), i, e);
        assert(s.last().address@ != e.address@);
        assert(balance_map(t) =~= balance_map(s).insert(e.address@, e.balance as int));
    }
}

/// Reads the recorded balance of an address, if it has a row.
pub fn balance_get(v: &Vec<BalanceEntry>, address: &String) -> (r: Option<i64>)
    requires
        balance_keys_unique(v@),
    ensures
        (match r {
            Some(b) => balance_map(v@).contains_key(address@) && balance_map(v@)[address@]
                == b as int,
            None => !balance_map(v@).contains_key(address@),
        }),
{
    let n = v.len();
    let mut i: usize = 0;
    while i < n
        invariant
            n == v@.len(),
            i <= n,
            balance_keys_unique(v@),
            forall|k: int| 0 <= k < i ==> (#[trigger] v@[k]).address@ != address@,
        decreases n - i,
    {
        if v[i].address == *address {
            proof {
                lemma_balance_map_index(v@, i as int);
            }
            return Some(v[i].balance);
        }
        i = i + 1;
    }
    proof {
        lemma_balance_map_domain(v@);
    }
    None
}

/// Records a balance for an address: replaces its row, or appends one on
/// first reference.
pub fn balance_set(v: &mut Vec<BalanceEntry>, address: &String, value: i64)
    requires
        balance_keys_unique(old(v)@),
    ensures
        balance_keys_unique(final(v)@),
        balance_map(final(v)@) == balance_map(old(v)@).insert(address@, value as int),
{
    let n = v.len();
    let mut i: usize = 0;
    while i < n
        invariant
            n == v@.len(),
            i <= n,
            v@ == old(v)@,
            balance_keys_unique(v@),
            forall|k: int| 0 <= k < i ==> (#[trigger] v@[k]).address@ != address@,
        decreases n - i,
    {
        if v[i].address == *address {
            let entry = BalanceEntry { address: address.clone(), balance: value };
            proof {
                lemma_balance_map_update(v@, i as int, entry);
            }
            v.set(i, entry);
            return;
        }
        i = i + 1;
    }
    let entry = BalanceEntry { address: address.clone(), balance: value };
    v.push(entry);
    proof {
        assert(v@.drop_last() =~= old(v)@);
        assert(balance_map(v@) == balance_map(old(v)@).insert(address@, value as int));
    }
}

} // verus!
