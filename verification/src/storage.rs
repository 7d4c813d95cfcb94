//! The storage engine: blocks, per-address transaction indices and
//! per-address balances, applied one block at a time.
//!
//! A block's effects are applied as one unit: a duplicate height or a
//! balance that would leave the representable range is rejected before
//! anything is written, so no partially applied block is ever observable.
//! The effect of each operation is specified against the three map models
//! ([`crate::blocks::blocks_map`], [`crate::index::index_map`],
//! [`crate::balance::balance_map`]) of the tables.

use vstd::prelude::*;
use vstd::string::StringExecFns;
use crate::balance::{BalanceEntry, balance_map, balance_keys_unique, balance_or_zero, balance_get, balance_set};
use crate::blocks::{blocks_map, block_data, heights_unique, block_find, lemma_blocks_map_domain};
use crate::index::{IndexEntry, index_map, index_keys_unique, ti_applied, index_find, index_add, ti_vec_copy};
use crate::error::{Error, StorageError};
use crate::types::{Account, Action, ActionReply, Block, Transaction, TransactionIndex};

verus! {

/// What one transfer does to the balances: the sender's balance is written
/// as its current value minus the amount, then the receiver's balance is
/// read from the updated table and written as that value plus the amount.
/// An address without a row reads as zero.  Reading the receiver's side
/// after the debit keeps balances conserved: a transfer from an address to
/// itself nets to no change.
pub open spec fn tx_applied(m: Map<Seq<char>, int>, t: Transaction) -> Map<Seq<char>, int> {
    let debited = m.insert(t.source@, balance_or_zero(m, t.source@) - t.amount);
    debited.insert(t.destination@, balance_or_zero(debited, t.destination@) + t.amount)
}

/// Whether both balances written for one transfer stay representable in the
/// signed accumulator.
pub open spec fn tx_fits(m: Map<Seq<char>, int>, t: Transaction) -> bool {
    let debited = m.insert(t.source@, balance_or_zero(m, t.source@) - t.amount);
    &&& i64::MIN <= balance_or_zero(m, t.source@) - t.amount
    &&& balance_or_zero(debited, t.destination@) + t.amount <= i64::MAX
}

/// The balances after the first `n` transfers of a block.
pub open spec fn txs_applied(m: Map<Seq<char>, int>, txs: Seq<Transaction>, n: int) -> Map<
    Seq<char>,
    int,
>
    decreases n,
{
    if n <= 0 {
        m
    } else {
        tx_applied(txs_applied(m, txs, n - 1), txs[n - 1])
    }
}

/// Whether every balance written while applying the first `n` transfers
/// stays representable.
pub open spec fn txs_fit(m: Map<Seq<char>, int>, txs: Seq<Transaction>, n: int) -> bool
    decreases n,
{
    n <= 0 || (txs_fit(m, txs, n - 1) && tx_fits(txs_applied(m, txs, n - 1), txs[n - 1]))
}

/// The back-reference to the transaction at position `i` of the block at
/// height `h`.
pub open spec fn ti_of(h: u64, i: int) -> TransactionIndex {
    TransactionIndex { block_height: h, index: i as usize }
}

/// The index after recording the first `n` transfers of the block at height
/// `h`.
pub open spec fn txs_indexed(
    m: Map<Seq<char>, Seq<TransactionIndex>>,
    h: u64,
    txs: Seq<Transaction>,
    n: int,
) -> Map<Seq<char>, Seq<TransactionIndex>>
    decreases n,
{
    if n <= 0 {
        m
    } else {
        ti_applied(txs_indexed(m, h, txs, n - 1), txs[n - 1].source@, ti_of(h, n - 1))
    }
}

/// Every prefix of a fitting application fits, and each single step fits.
pub proof fn lemma_txs_fit_prefix(m: Map<Seq<char>, int>, txs: Seq<Transaction>, n: int, k: int)
    requires
        txs_fit(m, txs, n),
        0 <= k <= n,
    ensures
        txs_fit(m, txs, k),
        k < n ==> tx_fits(txs_applied(m, txs, k), txs[k]),
    decreases n,
{
    if k < n {
        if k < n - 1 {
            lemma_txs_fit_prefix(m, txs, n - 1, k);
        }
    }
}

/// A back-reference resolves to the transaction it points at.
pub open spec fn resolve_entry(
    blocks: Map<u64, (Seq<char>, i64, Seq<Transaction>)>,
    e: TransactionIndex,
) -> Transaction {
    blocks[e.block_height].2[e.index as int]
}

/// A back-reference points into a stored block, at a transaction whose
/// source is the owning address.
pub open spec fn entry_valid(
    blocks: Map<u64, (Seq<char>, i64, Seq<Transaction>)>,
    a: Seq<char>,
    e: TransactionIndex,
) -> bool {
    &&& blocks.contains_key(e.block_height)
    &&& e.index < blocks[e.block_height].2.len()
    &&& blocks[e.block_height].2[e.index as int].source@ == a
}

/// No index list repeats a back-reference by value.
pub open spec fn lists_dup_free(index: Map<Seq<char>, Seq<TransactionIndex>>) -> bool {
    forall|a: Seq<char>, p: int, q: int|
        #![trigger index[a][p], index[a][q]]
        index.contains_key(a) && 0 <= p < q < index[a].len() ==> index[a][p] != index[a][q]
}

/// Every back-reference of the index resolves, to a transaction of its
/// owning address.
pub open spec fn entries_valid(
    blocks: Map<u64, (Seq<char>, i64, Seq<Transaction>)>,
    index: Map<Seq<char>, Seq<TransactionIndex>>,
) -> bool {
    forall|a: Seq<char>, p: int|
        #![trigger index[a][p]]
        index.contains_key(a) && 0 <= p < index[a].len() ==> entry_valid(blocks, a, index[a][p])
}

/// The address `a` has a back-reference `ti` recorded.
pub open spec fn source_indexed(
    index: Map<Seq<char>, Seq<TransactionIndex>>,
    a: Seq<char>,
    ti: TransactionIndex,
) -> bool {
    index.contains_key(a) && index[a].contains(ti)
}

/// Every stored transaction is indexed under its source address.
pub open spec fn blocks_indexed(
    blocks: Map<u64, (Seq<char>, i64, Seq<Transaction>)>,
    index: Map<Seq<char>, Seq<TransactionIndex>>,
) -> bool {
    forall|h: u64, i: int|
        #![trigger blocks[h].2[i]]
        blocks.contains_key(h) && 0 <= i < blocks[h].2.len() ==> source_indexed(
            index,
            blocks[h].2[i].source@,
            ti_of(h, i),
        )
}

/// The agreement of the block table and the index.
pub open spec fn index_consistent(
    blocks: Map<u64, (Seq<char>, i64, Seq<Transaction>)>,
    index: Map<Seq<char>, Seq<TransactionIndex>>,
) -> bool {
    &&& lists_dup_free(index)
    &&& entries_valid(blocks, index)
    &&& blocks_indexed(blocks, index)
}

/// Whether adding a block succeeds: its height must be fresh and every
/// balance written while applying it must stay representable.
pub open spec fn add_ok(
    blocks: Map<u64, (Seq<char>, i64, Seq<Transaction>)>,
    balances: Map<Seq<char>, int>,
    b: Block,
) -> bool {
    &&& !blocks.contains_key(b.height)
    &&& txs_fit(balances, b.transactions@, b.transactions@.len() as int)
}

/// The result that adding a block returns: a duplicate height is rejected
/// first, then an unrepresentable balance, and otherwise the block is
/// applied.
pub open spec fn add_result(
    blocks: Map<u64, (Seq<char>, i64, Seq<Transaction>)>,
    balances: Map<Seq<char>, int>,
    b: Block,
) -> Result<(), Error> {
    if blocks.contains_key(b.height) {
        Err(Error::StorageError(StorageError::AlreadyExists(b.height)))
    } else if !txs_fit(balances, b.transactions@, b.transactions@.len() as int) {
        Err(Error::StorageError(StorageError::BalanceOutOfRange(b.height)))
    } else {
        Ok(())
    }
}

/// What a successful account query must return: the recorded balance of the
/// queried address, or `AccountNotFound` when no balance is recorded.
pub open spec fn account_result_spec(
    balances: Map<Seq<char>, int>,
    address: String,
    res: Result<Account, Error>,
) -> bool {
    match res {
        Ok(acc) => balances.contains_key(address@) && acc.address == address && acc.balance as int
            == balances[address@],
        Err(e) => !balances.contains_key(address@) && e == Error::StorageError(
            StorageError::AccountNotFound(address),
        ),
    }
}

/// What a transaction query must return: each back-reference of the
/// queried address resolved in order, or `NoTransactions` when the address
/// has none.
pub open spec fn transactions_result_spec(
    blocks: Map<u64, (Seq<char>, i64, Seq<Transaction>)>,
    index: Map<Seq<char>, Seq<TransactionIndex>>,
    address: String,
    res: Result<Vec<Transaction>, Error>,
) -> bool {
    match res {
        Ok(txs) => index.contains_key(address@) && txs@.len() == index[address@].len() && (forall|
            j: int,
        |
            0 <= j < txs@.len() ==> txs@[j] == resolve_entry(blocks, index[address@][j])),
        Err(e) => !index.contains_key(address@) && e == Error::StorageError(
            StorageError::NoTransactions(address),
        ),
    }
}

/// The kinds of entries the store persists; each kind prefixes its own key
/// namespace.
#[derive(Clone, Copy, Debug)]
pub enum DbKey {
    TransactionIndex,
    AccountBalance,
    Block,
}

/// The namespace prefix of a key kind.
pub open spec fn db_key_prefix(key_type: DbKey) -> Seq<char> {
    match key_type {
        DbKey::TransactionIndex => "TransactionIndex"@,
        DbKey::AccountBalance => "AccountBalance"@,
        DbKey::Block => "Block"@,
    }
}

/// The composite key under which an entry is persisted.
pub open spec fn spec_db_key(key_type: DbKey, key: Seq<char>) -> Seq<char> {
    db_key_prefix(key_type) + "-"@ + key
}

/// Builds the composite string key `<kind>-<key>` under which an entry is
/// persisted.
pub fn db_key(key_type: DbKey, key: &str) -> (r: String)
    ensures
        r@ == spec_db_key(key_type, key@),
{
    let mut s = match key_type {
        DbKey::TransactionIndex => "TransactionIndex".to_owned(),
        DbKey::AccountBalance => "AccountBalance".to_owned(),
        DbKey::Block => "Block".to_owned(),
    };
    s.append("-");
    s.append(key);
    s
}

/// The decimal digits of a number, most significant first.
pub open spec fn dec_digits(n: nat) -> Seq<char>
    decreases n,
{
    if n < 10 {
        seq![digit_char(n)]
    } else {
        dec_digits(n / 10).push(digit_char(n % 10))
    }
}

/// The character of one decimal digit.
pub open spec fn digit_char(d: nat) -> char {
    if d == 0 {
        '0'
    } else if d == 1 {
        '1'
    } else if d == 2 {
        '2'
    } else if d == 3 {
        '3'
    } else if d == 4 {
        '4'
    } else if d == 5 {
        '5'
    } else if d == 6 {
        '6'
    } else if d == 7 {
        '7'
    } else if d == 8 {
        '8'
    } else {
        '9'
    }
}

/// One decimal digit as a string slice.
fn digit_str(d: u64) -> (r: &'static str)
    requires
        d < 10,
    ensures
        r@ == seq![digit_char(d as nat)],
{
    proof {
        reveal_strlit("0");
        reveal_strlit("1");
        reveal_strlit("2");
        reveal_strlit("3");
        reveal_strlit("4");
        reveal_strlit("5");
        reveal_strlit("6");
        reveal_strlit("7");
        reveal_strlit("8");
        reveal_strlit("9");
    }
    let r = match d {
        0 => "0",
        1 => "1",
        2 => "2",
        3 => "3",
        4 => "4",
        5 => "5",
        6 => "6",
        7 => "7",
        8 => "8",
        _ => "9",
    };
    proof {
        assert(r@ =~= seq![digit_char(d as nat)]);
    }
    r
}

/// Renders a height in decimal, for use as the key part of a composite
/// block key.
pub fn u64_to_string(n: u64) -> (r: String)
    ensures
        r@ == dec_digits(n as nat),
    decreases n,
{
    if n < 10 {
        digit_str(n).to_owned()
    } else {
        let mut s = u64_to_string(n / 10);
        s.append(digit_str(n % 10));
        proof {
            assert((n / 10) as nat == (n as nat) / 10);
            assert((n % 10) as nat == (n as nat) % 10);
            assert(dec_digits((n as nat) / 10).push(digit_char((n as nat) % 10)) =~= dec_digits(
                (n as nat) / 10,
            ) + seq![digit_char((n as nat) % 10)]);
        }
        s
    }
}

/// The chain positions the pipeline has reached.
#[derive(Clone, Copy, Debug)]
pub struct ChainMedadata {
    pub last_slot: u64,
    pub last_block_height: u64,
}

/// The storage engine: the single logical writer over the block table, the
/// transaction index and the balances.
pub struct Database {
    blocks: Vec<Block>,
    index: Vec<IndexEntry>,
    balances: Vec<BalanceEntry>,
}

impl Database {
    /// Height to stored block data.
    pub closed spec fn blocks_model(self) -> Map<u64, (Seq<char>, i64, Seq<Transaction>)> {
        blocks_map(self.blocks@)
    }

    /// Address content to its recorded back-references.
    pub closed spec fn index_model(self) -> Map<Seq<char>, Seq<TransactionIndex>> {
        index_map(self.index@)
    }

    /// Address content to its recorded balance.
    pub closed spec fn balances_model(self) -> Map<Seq<char>, int> {
        balance_map(self.balances@)
    }

    /// The store's invariant: unique table keys, and index and block table
    /// in agreement.
    pub closed spec fn wf(self) -> bool {
        &&& balance_keys_unique(self.balances@)
        &&& index_keys_unique(self.index@)
        &&& heights_unique(self.blocks@)
        &&& index_consistent(self.blocks_model(), self.index_model())
    }

    /// Creates an empty store.
    pub fn new() -> (r: Database)
        ensures
            r.wf(),
            r.blocks_model() == Map::<u64, (Seq<char>, i64, Seq<Transaction>)>::empty(),
            r.index_model() == Map::<Seq<char>, Seq<TransactionIndex>>::empty(),
            r.balances_model() == Map::<Seq<char>, int>::empty(),
    {
        Database { blocks: Vec::new(), index: Vec::new(), balances: Vec::new() }
    }

    /// Returns the account derived for an address: its recorded balance, or
    /// `AccountNotFound` when the address was never referenced.
    pub fn get_account(&self, address: &String) -> (r: Result<Account, Error>)
        requires
            self.wf(),
        ensures
            account_result_spec(self.balances_model(), *address, r),
    {
        match balance_get(&self.balances, address) {
            Some(b) => Ok(Account { address: address.clone(), balance: b }),
            None => Err(Error::StorageError(StorageError::AccountNotFound(address.clone()))),
        }
    }
}

impl Database {
    /// Applies one block as a unit.  A height already stored is rejected
    /// with `AlreadyExists` before anything is written; a block whose
    /// balance updates would leave the representable range is rejected
    /// whole with `BalanceOutOfRange`.  Otherwise, for each transaction in
    /// order, a back-reference is appended to its source's index and the
    /// two balances are rewritten, and finally the block body is stored.
    pub fn add_block(&mut self, block: &Block) -> (r: Result<(), Error>)
        requires
            old(self).wf(),
        ensures
            final(self).wf(),
            r == add_result(old(self).blocks_model(), old(self).balances_model(), *block),
            (if add_ok(old(self).blocks_model(), old(self).balances_model(), *block) {
                &&& final(self).blocks_model() == old(self).blocks_model().insert(
                    block.height,
                    block_data(*block),
                )
                &&& final(self).balances_model() == txs_applied(
                    old(self).balances_model(),
                    block.transactions@,
                    block.transactions@.len() as int,
                )
                &&& final(self).index_model() == txs_indexed(
                    old(self).index_model(),
                    block.height,
                    block.transactions@,
                    block.transactions@.len() as int,
                )
            } else {
                *final(self) == *old(self)
            }),
    {
        match block_find(&self.blocks, block.height) {
            Some(_) => {
                return Err(Error::StorageError(StorageError::AlreadyExists(block.height)));
            },
            None => {},
        }
        if !txs_would_fit(&self.balances, &block.transactions) {
            return Err(Error::StorageError(StorageError::BalanceOutOfRange(block.height)));
        }
        let ghost bm0 = self.blocks_model();
        let ghost idx0 = self.index_model();
        let ghost bal0 = self.balances_model();
        let n = block.transactions.len();

        let mut k: usize = 0;
        while k < n
            invariant
                n == block.transactions@.len(),
                k <= n,
                bal0 == old(self).balances_model(),
                txs_fit(bal0, block.transactions@, n as int),
                balance_keys_unique(self.balances@),
                balance_map(self.balances@) == txs_applied(bal0, block.transactions@, k as int),
                self.blocks == old(self).blocks,
                self.index == old(self).index,
            decreases n - k,
        {
            let ghost before = txs_applied(bal0, block.transactions@, k as int);
            proof {
                lemma_txs_fit_prefix(bal0, block.transactions@, n as int, k as int);
            }
            let t = &block.transactions[k];
            let bs = match balance_get(&self.balances, &t.source) {
                Some(b) => b,
                None => 0,
            };
            proof {
                assert(bs as int == balance_or_zero(before, t.source@));
            }
            let ns: i64 = ((bs as i128) - (t.amount as i128)) as i64;
            balance_set(&mut self.balances, &t.source, ns);
            let ghost debited = before.insert(t.source@, bs - t.amount);
            proof {
                assert(balance_map(self.balances@) == debited);
            }
            let bd = match balance_get(&self.balances, &t.destination) {
                Some(b) => b,
                None => 0,
            };
            proof {
                assert(bd as int == balance_or_zero(debited, t.destination@));
            }
            let nd: i64 = ((bd as i128) + (t.amount as i128)) as i64;
            balance_set(&mut self.balances, &t.destination, nd);
            proof {
                assert(txs_applied(bal0, block.transactions@, k + 1 as int) == tx_applied(
                    before,
                    block.transactions@[k as int],
                ));
                assert(balance_map(self.balances@) =~= tx_applied(
                    before,
                    block.transactions@[k as int],
                ));
            }
            k = k + 1;
        }

        let mut k: usize = 0;
        while k < n
            invariant
                n == block.transactions@.len(),
                k <= n,
                bal0 == old(self).balances_model(),
                idx0 == old(self).index_model(),
                balance_keys_unique(self.balances@),
                balance_map(self.balances@) == txs_applied(
                    bal0,
                    block.transactions@,
                    n as int,
                ),
                index_keys_unique(self.index@),
                index_map(self.index@) == txs_indexed(
                    idx0,
                    block.height,
                    block.transactions@,
                    k as int,
                ),
                self.blocks == old(self).blocks,
            decreases n - k,
        {
            let t = &block.transactions[k];
            let ti = TransactionIndex { block_height: block.height, index: k };
            proof {
                assert(ti == ti_of(block.height, k as int));
            }
            index_add(&mut self.index, &t.source, ti);
            proof {
                assert(index_map(self.index@) == txs_indexed(
                    idx0,
                    block.height,
                    block.transactions@,
                    k + 1 as int,
                ));
            }
            k = k + 1;
        }

        let stored = block.clone();
        self.blocks.push(stored);
        proof {
            lemma_blocks_map_domain(old(self).blocks@);
            assert(self.blocks@.drop_last() =~= old(self).blocks@);
            assert(block_data(self.blocks@.last()) == block_data(*block));
            assert(self.blocks_model() == bm0.insert(block.height, block_data(*block)));
            assert forall|i: int, j: int| 0 <= i < j < self.blocks@.len() implies (#[trigger] self
                .blocks@[i]).height != (#[trigger] self.blocks@[j]).height by {
                if j == self.blocks@.len() - 1 {
                    if old(self).blocks@[i].height == block.height {
                        assert(blocks_map(old(self).blocks@).contains_key(block.height));
                    }
                } else {
                    assert(old(self).blocks@[i].height != old(self).blocks@[j].height);
                }
            }
            assert(block_data(*block).2 == block.transactions@);
            lemma_txs_indexed_consistent(bm0, idx0, block.height, block_data(*block), n as int);
            let bm2 = bm0.insert(block.height, block_data(*block));
            let im2 = txs_indexed(idx0, block.height, block.transactions@, n as int);
            assert forall|h2: u64, i: int|
                #![trigger bm2[h2].2[i]]
                bm2.contains_key(h2) && 0 <= i < bm2[h2].2.len() implies source_indexed(
                im2,
                bm2[h2].2[i].source@,
                ti_of(h2, i),
            ) by {
                if h2 == block.height {
                    assert(source_indexed(im2, block.transactions@[i].source@, ti_of(h2, i)));
                } else {
                    assert(bm0.contains_key(h2) && bm0[h2] == bm2[h2]);
                    assert(source_indexed(idx0, bm0[h2].2[i].source@, ti_of(h2, i)));
                    assert(source_indexed(im2, bm0[h2].2[i].source@, ti_of(h2, i)));
                }
            }
            assert(blocks_indexed(self.blocks_model(), self.index_model()));
        }
        Ok(())
    }
}

impl Database {
    /// Returns the transactions issued by an address, in the order their
    /// back-references were recorded, by resolving each reference to its
    /// block; `NoTransactions` when the address has none recorded.
    pub fn get_transactions(&self, address: &String) -> (r: Result<Vec<Transaction>, Error>)
        requires
            self.wf(),
        ensures
            transactions_result_spec(self.blocks_model(), self.index_model(), *address, r),
    {
        let pos = match index_find(&self.index, address) {
            Some(p) => p,
            None => {
                return Err(Error::StorageError(StorageError::NoTransactions(address.clone())));
            },
        };
        let n = self.index[pos].entries.len();
        let mut txs: Vec<Transaction> = Vec::new();
        let mut j: usize = 0;
        while j < n
            invariant
                self.wf(),
                pos < self.index@.len(),
                index_map(self.index@).contains_key(address@),
                index_map(self.index@)[address@] == self.index@[pos as int].entries@,
                n == self.index@[pos as int].entries@.len(),
                j <= n,
                txs@.len() == j as int,
                forall|q: int|
                    0 <= q < j ==> txs@[q] == resolve_entry(
                        blocks_map(self.blocks@),
                        index_map(self.index@)[address@][q],
                    ),
            decreases n - j,
        {
            let ti = self.index[pos].entries[j];
            proof {
                assert(index_map(self.index@)[address@][j as int] == ti);
                assert(entry_valid(blocks_map(self.blocks@), address@, ti));
            }
            let bpos = match block_find(&self.blocks, ti.block_height) {
                Some(p) => p,
                None => {
                    // A consistent store resolves every recorded reference;
                    // this is the data-corruption signal.
                    proof {
                        assert(false);
                    }
                    return Err(Error::StorageError(StorageError::MissingBlock(ti.block_height)));
                },
            };
            let tx = self.blocks[bpos].transactions[ti.index].clone();
            txs.push(tx);
            j = j + 1;
        }
        Ok(txs)
    }

    /// Returns the recorded back-references of an address, in order: what
    /// the store persists under the address's transaction-index key.
    pub fn get_transaction_indices(&self, address: &String) -> (r: Option<Vec<TransactionIndex>>)
        requires
            self.wf(),
        ensures
            (match r {
                Some(list) => self.index_model().contains_key(address@) && list@
                    == self.index_model()[address@],
                None => !self.index_model().contains_key(address@),
            }),
    {
        match index_find(&self.index, address) {
            Some(i) => Some(ti_vec_copy(&self.index[i].entries)),
            None => None,
        }
    }

    /// A well-formed store's block table and index agree; this is the
    /// bridge that lets a holder of a store apply the index laws — above
    /// all [`lemma_index_completeness`] — to its models.
    pub proof fn lemma_wf_index_consistent(self)
        requires
            self.wf(),
        ensures
            index_consistent(self.blocks_model(), self.index_model()),
    {
    }

    /// Processes one request envelope against the store and produces the
    /// reply to send back on its one-shot channel.
    pub fn process_action(&mut self, action: Action) -> (reply: ActionReply)
        requires
            old(self).wf(),
        ensures
            final(self).wf(),
            (match action {
                Action::AddBlock(b) => {
                    &&& reply == ActionReply::AddBlock(add_result(
                        old(self).blocks_model(),
                        old(self).balances_model(),
                        b,
                    ))
                    &&& (if add_ok(old(self).blocks_model(), old(self).balances_model(), b) {
                        &&& final(self).blocks_model() == old(self).blocks_model().insert(
                            b.height,
                            block_data(b),
                        )
                        &&& final(self).balances_model() == txs_applied(
                            old(self).balances_model(),
                            b.transactions@,
                            b.transactions@.len() as int,
                        )
                        &&& final(self).index_model() == txs_indexed(
                            old(self).index_model(),
                            b.height,
                            b.transactions@,
                            b.transactions@.len() as int,
                        )
                    } else {
                        *final(self) == *old(self)
                    })
                },
                Action::GetTransactions(a) => {
                    &&& *final(self) == *old(self)
                    &&& (match reply {
                        ActionReply::GetTransactions(res) => transactions_result_spec(
                            old(self).blocks_model(),
                            old(self).index_model(),
                            a,
                            res,
                        ),
                        _ => false,
                    })
                },
                Action::GetAccounts(a) => {
                    &&& *final(self) == *old(self)
                    &&& (match reply {
                        ActionReply::GetAccounts(res) => account_result_spec(
                            old(self).balances_model(),
                            a,
                            res,
                        ),
                        _ => false,
                    })
                },
            }),
    {
        match action {
            Action::AddBlock(b) => ActionReply::AddBlock(self.add_block(&b)),
            Action::GetTransactions(a) => ActionReply::GetTransactions(self.get_transactions(&a)),
            Action::GetAccounts(a) => ActionReply::GetAccounts(self.get_account(&a)),
        }
    }
}

/// The three models after the first `k` actions of a queue, processed in
/// arrival order: only a successful `AddBlock` changes the store.
pub open spec fn actions_applied(
    blocks: Map<u64, (Seq<char>, i64, Seq<Transaction>)>,
    balances: Map<Seq<char>, int>,
    index: Map<Seq<char>, Seq<TransactionIndex>>,
    actions: Seq<Action>,
    k: int,
) -> (Map<u64, (Seq<char>, i64, Seq<Transaction>)>, Map<Seq<char>, int>, Map<
    Seq<char>,
    Seq<TransactionIndex>,
>)
    decreases k,
{
    if k <= 0 {
        (blocks, balances, index)
    } else {
        let prev = actions_applied(blocks, balances, index, actions, k - 1);
        match actions[k - 1] {
            Action::AddBlock(b) => if add_ok(prev.0, prev.1, b) {
                (
                    prev.0.insert(b.height, block_data(b)),
                    txs_applied(prev.1, b.transactions@, b.transactions@.len() as int),
                    txs_indexed(prev.2, b.height, b.transactions@, b.transactions@.len() as int),
                )
            } else {
                prev
            },
            Action::GetTransactions(_) => prev,
            Action::GetAccounts(_) => prev,
        }
    }
}

/// What the reply to one action must be, given the models at its turn.
pub open spec fn reply_spec(
    blocks: Map<u64, (Seq<char>, i64, Seq<Transaction>)>,
    balances: Map<Seq<char>, int>,
    index: Map<Seq<char>, Seq<TransactionIndex>>,
    action: Action,
    reply: ActionReply,
) -> bool {
    match action {
        Action::AddBlock(b) => reply == ActionReply::AddBlock(add_result(blocks, balances, b)),
        Action::GetTransactions(a) => match reply {
            ActionReply::GetTransactions(res) => transactions_result_spec(blocks, index, a, res),
            _ => false,
        },
        Action::GetAccounts(a) => match reply {
            ActionReply::GetAccounts(res) => account_result_spec(balances, a, res),
            _ => false,
        },
    }
}

impl Database {
    /// Processes a queue of request envelopes strictly in arrival order,
    /// one at a time, producing one reply per action: the store's single
    /// owner serializes all access, so each reply reflects every action
    /// enqueued before it.
    pub fn serve_actions(&mut self, actions: Vec<Action>) -> (replies: Vec<ActionReply>)
        requires
            old(self).wf(),
        ensures
            final(self).wf(),
            replies@.len() == actions@.len(),
            ({
                let b0 = old(self).blocks_model();
                let l0 = old(self).balances_model();
                let i0 = old(self).index_model();
                &&& (
                    final(self).blocks_model(),
                    final(self).balances_model(),
                    final(self).index_model(),
                ) == actions_applied(b0, l0, i0, actions@, actions@.len() as int)
                &&& (forall|k: int|
                    0 <= k < actions@.len() ==> {
                        let st = actions_applied(b0, l0, i0, actions@, k);
                        reply_spec(st.0, st.1, st.2, actions@[k], #[trigger] replies@[k])
                    })
            }),
    {
        let ghost a0 = actions@;
        let ghost b0 = old(self).blocks_model();
        let ghost l0 = old(self).balances_model();
        let ghost i0 = old(self).index_model();
        let mut queue = actions;
        let mut replies: Vec<ActionReply> = Vec::new();
        while queue.len() > 0
            invariant
                self.wf(),
                replies@.len() <= a0.len(),
                queue@ == a0.skip(replies@.len() as int),
                (self.blocks_model(), self.balances_model(), self.index_model())
                    == actions_applied(b0, l0, i0, a0, replies@.len() as int),
                forall|q: int|
                    0 <= q < replies@.len() ==> {
                        let st = actions_applied(b0, l0, i0, a0, q);
                        reply_spec(st.0, st.1, st.2, a0[q], #[trigger] replies@[q])
                    },
            decreases queue@.len(),
        {
            let ghost done = replies@.len() as int;
            let act = queue.remove(0);
            proof {
                assert(act == a0[done]);
                assert(queue@ =~= a0.skip(done + 1));
            }
            let reply = self.process_action(act);
            replies.push(reply);
        }
        replies
    }
}

/// What the storage owner observes at its queue.
#[derive(Debug)]
pub enum OwnerPoll {
    /// The shared cancellation signal tripped.
    Cancelled,
    /// Every queue handle is gone: nothing more will ever be enqueued.
    Closed,
    /// The next request's action.
    Request(Action),
    /// The requester of the action just processed dropped its reply
    /// channel before the reply could be delivered.
    ReplyDropped,
}

/// What the storage owner must do for one observation at its queue.
#[derive(Debug)]
pub enum OwnerStep {
    /// Stop serving, with this outcome.
    Finish(Result<(), Error>),
    /// Process this action against the store and send the reply back on the
    /// request's one-shot channel.
    Process(Action),
    /// Keep serving.
    Continue,
}

/// The owner's decision for one observation at its queue: cancellation
/// ends the loop with Termination; a closed queue means every counterpart
/// holding a handle has exited, which is always fatal — a channel failure;
/// a request is processed; and a requester that dropped its reply channel
/// is absorbed, the loop serving on.
pub fn owner_decide(poll: OwnerPoll) -> (r: OwnerStep)
    ensures
        (match poll {
            OwnerPoll::Cancelled => r == OwnerStep::Finish(Err::<(), Error>(Error::Termination)),
            OwnerPoll::Closed => match r {
                OwnerStep::Finish(outcome) => match outcome {
                    Err(e) => match e {
                        Error::ChannelFailed(source, detail) => source@ == "Database"@
                            && detail@ == "channel closed"@,
                        _ => false,
                    },
                    Ok(_) => false,
                },
                _ => false,
            },
            OwnerPoll::Request(a) => r == OwnerStep::Process(a),
            OwnerPoll::ReplyDropped => r == OwnerStep::Continue,
        }),
{
    match poll {
        OwnerPoll::Cancelled => OwnerStep::Finish(Err(Error::Termination)),
        OwnerPoll::Closed => OwnerStep::Finish(Err(Error::ChannelFailed(
            "Database".to_owned(),
            "channel closed".to_owned(),
        ))),
        OwnerPoll::Request(a) => OwnerStep::Process(a),
        OwnerPoll::ReplyDropped => OwnerStep::Continue,
    }
}

/// Idempotency of block application: once a block is applied at its fresh
/// height, applying the very same block again is rejected as
/// `AlreadyExists` and the store is exactly as after the first application.
pub proof fn lemma_add_block_idempotent(
    blocks: Map<u64, (Seq<char>, i64, Seq<Transaction>)>,
    balances: Map<Seq<char>, int>,
    index: Map<Seq<char>, Seq<TransactionIndex>>,
    b: Block,
)
    requires
        add_ok(blocks, balances, b),
    ensures
        ({
            let twin = seq![Action::AddBlock(b), Action::AddBlock(b)];
            let once = actions_applied(blocks, balances, index, twin, 1);
            let twice = actions_applied(blocks, balances, index, twin, 2);
            &&& add_result(blocks, balances, b) == Ok::<(), Error>(())
            &&& add_result(once.0, once.1, b) == Err::<(), Error>(Error::StorageError(
                StorageError::AlreadyExists(b.height),
            ))
            &&& twice == once
        }),
{
    let twin = seq![Action::AddBlock(b), Action::AddBlock(b)];
    let zero = actions_applied(blocks, balances, index, twin, 0);
    let once = actions_applied(blocks, balances, index, twin, 1);
    assert(zero == (blocks, balances, index));
    assert(twin[0] == Action::AddBlock(b) && twin[1] == Action::AddBlock(b));
    assert(once.0 == blocks.insert(b.height, block_data(b)));
    assert(once.0.contains_key(b.height));
    assert(!add_ok(once.0, once.1, b));
}

/// Balance conservation: one applied transfer debits the sender by its
/// amount and credits the receiver by the same amount, so the two deltas
/// sum to zero; a transfer from an address to itself leaves its balance
/// unchanged; and no other balance moves.
pub proof fn lemma_balance_conservation(m: Map<Seq<char>, int>, t: Transaction)
    ensures
        t.source@ != t.destination@ ==> balance_or_zero(tx_applied(m, t), t.source@)
            == balance_or_zero(m, t.source@) - t.amount,
        t.source@ != t.destination@ ==> balance_or_zero(tx_applied(m, t), t.destination@)
            == balance_or_zero(m, t.destination@) + t.amount,
        t.source@ == t.destination@ ==> balance_or_zero(tx_applied(m, t), t.source@)
            == balance_or_zero(m, t.source@),
        (balance_or_zero(tx_applied(m, t), t.source@) - balance_or_zero(m, t.source@)) + (
        balance_or_zero(tx_applied(m, t), t.destination@) - balance_or_zero(
            m,
            t.destination@,
        )) == 0,
        forall|a: Seq<char>|
            a != t.source@ && a != t.destination@ ==> #[trigger] balance_or_zero(
                tx_applied(m, t),
                a,
            ) == balance_or_zero(m, a),
{
}

/// The net that the first `n` transfers of a block move onto one address:
/// its credits minus its debits, in order.
pub open spec fn tx_net(txs: Seq<Transaction>, n: int, a: Seq<char>) -> int
    decreases n,
{
    if n <= 0 {
        0
    } else {
        tx_net(txs, n - 1, a) + (if txs[n - 1].destination@ == a {
            txs[n - 1].amount as int
        } else {
            0
        }) - (if txs[n - 1].source@ == a {
            txs[n - 1].amount as int
        } else {
            0
        })
    }
}

/// Balances are running nets: applying a block's transfers moves every
/// balance by exactly the net of that address's credits and debits.
/// Chained over the store's transitions, a recorded balance is the running
/// net of all transfers stored for its address.
pub proof fn lemma_balance_running_net(
    m: Map<Seq<char>, int>,
    txs: Seq<Transaction>,
    n: int,
    a: Seq<char>,
)
    requires
        0 <= n <= txs.len(),
    ensures
        balance_or_zero(txs_applied(m, txs, n), a) == balance_or_zero(m, a) + tx_net(txs, n, a),
    decreases n,
{
    if n > 0 {
        lemma_balance_running_net(m, txs, n - 1, a);
        let prev = txs_applied(m, txs, n - 1);
        let t = txs[n - 1];
        lemma_balance_conservation(prev, t);
        if a != t.source@ && a != t.destination@ {
            assert(balance_or_zero(tx_applied(prev, t), a) == balance_or_zero(prev, a));
        }
    }
}

/// Account lifecycle: applying transfers creates an account on its first
/// reference, as sender or receiver, and never deletes one; an address
/// has a recorded balance exactly when it had one before or is referenced
/// by one of the applied transfers.
pub proof fn lemma_account_lifecycle(
    m: Map<Seq<char>, int>,
    txs: Seq<Transaction>,
    n: int,
    a: Seq<char>,
)
    requires
        0 <= n <= txs.len(),
    ensures
        txs_applied(m, txs, n).contains_key(a) <==> (m.contains_key(a) || (exists|k: int|
            0 <= k < n && ((#[trigger] txs[k]).source@ == a || txs[k].destination@ == a))),
    decreases n,
{
    if n > 0 {
        lemma_account_lifecycle(m, txs, n - 1, a);
        let t = txs[n - 1];
        if a == t.source@ || a == t.destination@ {
            assert(txs[n - 1].source@ == a || txs[n - 1].destination@ == a);
        } else {
            assert(txs_applied(m, txs, n).contains_key(a) == txs_applied(
                m,
                txs,
                n - 1,
            ).contains_key(a));
        }
    }
}

/// Index completeness: in a consistent store, the transaction at position
/// `i` of the block at height `h` is indexed under its source address by
/// exactly one back-reference, and that reference resolves to it.
pub proof fn lemma_index_completeness(
    blocks: Map<u64, (Seq<char>, i64, Seq<Transaction>)>,
    index: Map<Seq<char>, Seq<TransactionIndex>>,
    h: u64,
    i: int,
)
    requires
        index_consistent(blocks, index),
        blocks.contains_key(h),
        0 <= i < blocks[h].2.len(),
        i <= usize::MAX as int,
    ensures
        ({
            let a = blocks[h].2[i].source@;
            &&& index.contains_key(a)
            &&& (exists|j: int| 0 <= j < index[a].len() && index[a][j] == ti_of(h, i))
            &&& (forall|j1: int, j2: int|
                #![trigger index[a][j1], index[a][j2]]
                0 <= j1 < index[a].len() && 0 <= j2 < index[a].len() && index[a][j1] == ti_of(h, i)
                    && index[a][j2] == ti_of(h, i) ==> j1 == j2)
            &&& (forall|j: int|
                0 <= j < index[a].len() && (#[trigger] index[a][j]) == ti_of(h, i)
                    ==> resolve_entry(blocks, index[a][j]) == blocks[h].2[i])
        }),
{
    let a = blocks[h].2[i].source@;
    assert(source_indexed(index, a, ti_of(h, i)));
    assert(ti_of(h, i).index as int == i);
}

/// Reads a balance through the staging overlay: a row staged during the
/// dry run wins over the backing table, and an address in neither reads as
/// zero.
fn combined_get(base: &Vec<BalanceEntry>, staging: &Vec<BalanceEntry>, address: &String) -> (r:
    i64)
    requires
        balance_keys_unique(base@),
        balance_keys_unique(staging@),
    ensures
        r as int == balance_or_zero(
            balance_map(base@).union_prefer_right(balance_map(staging@)),
            address@,
        ),
{
    match balance_get(staging, address) {
        Some(b) => b,
        None => match balance_get(base, address) {
            Some(b) => b,
            None => 0,
        },
    }
}

/// The dry run of a block's balance updates: simulates every write against
/// a staging overlay and reports whether all of them stay representable.
/// Nothing is written to the backing table.
fn txs_would_fit(balances: &Vec<BalanceEntry>, txs: &Vec<Transaction>) -> (r: bool)
    requires
        balance_keys_unique(balances@),
    ensures
        r == txs_fit(balance_map(balances@), txs@, txs@.len() as int),
{
    let ghost base = balance_map(balances@);
    let mut staging: Vec<BalanceEntry> = Vec::new();
    let n = txs.len();
    let mut k: usize = 0;
    proof {
        assert(base.union_prefer_right(balance_map(staging@)) =~= txs_applied(base, txs@, 0));
    }
    while k < n
        invariant
            balance_keys_unique(balances@),
            balance_keys_unique(staging@),
            base == balance_map(balances@),
            n == txs@.len(),
            k <= n,
            txs_fit(base, txs@, k as int),
            base.union_prefer_right(balance_map(staging@)) == txs_applied(base, txs@, k as int),
        decreases n - k,
    {
        let ghost before = txs_applied(base, txs@, k as int);
        let t = &txs[k];
        let bs = combined_get(balances, &staging, &t.source);
        let ns_wide: i128 = bs as i128 - t.amount as i128;
        if ns_wide < i64::MIN as i128 {
            proof {
                lemma_txs_fit_not_extended(base, txs@, k as int, n as int);
            }
            return false;
        }
        balance_set(&mut staging, &t.source, ns_wide as i64);
        let ghost debited = before.insert(t.source@, bs - t.amount);
        proof {
            assert(base.union_prefer_right(balance_map(staging@)) =~= debited);
        }
        let bd = combined_get(balances, &staging, &t.destination);
        proof {
            assert(bd as int == balance_or_zero(debited, t.destination@));
        }
        let nd_wide: i128 = bd as i128 + t.amount as i128;
        if nd_wide > i64::MAX as i128 {
            proof {
                lemma_txs_fit_not_extended(base, txs@, k as int, n as int);
            }
            return false;
        }
        balance_set(&mut staging, &t.destination, nd_wide as i64);
        proof {
            assert(txs_applied(base, txs@, k + 1 as int) == tx_applied(before, txs@[k as int]));
            assert(base.union_prefer_right(balance_map(staging@)) =~= tx_applied(
                before,
                txs@[k as int],
            ));
        }
        k = k + 1;
    }
    true
}

/// Recording the back-references of the first `n` transactions of a fresh
/// block keeps the index consistent with the block table extended by that
/// block, only grows the lists, indexes each recorded transaction, and
/// gives the new height no reference at a position `n` or beyond.
proof fn lemma_txs_indexed_consistent(
    bm: Map<u64, (Seq<char>, i64, Seq<Transaction>)>,
    im: Map<Seq<char>, Seq<TransactionIndex>>,
    h: u64,
    data: (Seq<char>, i64, Seq<Transaction>),
    n: int,
)
    requires
        lists_dup_free(im),
        entries_valid(bm, im),
        !bm.contains_key(h),
        0 <= n <= data.2.len(),
        data.2.len() <= usize::MAX,
    ensures
        ({
            let bm2 = bm.insert(h, data);
            let im2 = txs_indexed(im, h, data.2, n);
            &&& lists_dup_free(im2)
            &&& entries_valid(bm2, im2)
            &&& (forall|a: Seq<char>, e: TransactionIndex|
                #[trigger] source_indexed(im, a, e) ==> source_indexed(im2, a, e))
            &&& (forall|i: int|
                0 <= i < n ==> source_indexed(im2, (#[trigger] data.2[i]).source@, ti_of(h, i)))
            &&& (forall|a: Seq<char>, p: int|
                #![trigger im2[a][p]]
                im2.contains_key(a) && 0 <= p < im2[a].len() && im2[a][p].block_height == h
                    ==> im2[a][p].index < n)
        }),
    decreases n,
{
    let bm2 = bm.insert(h, data);
    let im2 = txs_indexed(im, h, data.2, n);
    if n == 0 {
        assert forall|a: Seq<char>, p: int|
            #![trigger im2[a][p]]
            im2.contains_key(a) && 0 <= p < im2[a].len() implies entry_valid(bm2, a, im2[a][p])
            && !(im2[a][p].block_height == h) by {
            assert(entry_valid(bm, a, im[a][p]));
            assert(im[a][p].block_height != h);
        }
    } else {
        lemma_txs_indexed_consistent(bm, im, h, data, n - 1);
        let im1 = txs_indexed(im, h, data.2, n - 1);
        let a_n = data.2[n - 1].source@;
        let ti = ti_of(h, n - 1);
        assert(im2 == ti_applied(im1, a_n, ti));
        assert(ti.index as int == n - 1);

        // The new reference is not yet recorded: every reference to height
        // `h` so far has a position below `n - 1`.
        if im1.contains_key(a_n) && im1[a_n].contains(ti) {
            let p = choose|p: int| 0 <= p < im1[a_n].len() && im1[a_n][p] == ti;
            assert(im1[a_n][p].index < n - 1);
            assert(false);
        }

        // How this step changes the lists.
        if im1.contains_key(a_n) {
            assert(im2 == im1.insert(a_n, im1[a_n].push(ti)));
            assert(im2[a_n].last() == ti);
        } else {
            assert(im2 == im1.insert(a_n, seq![ti]));
            assert(im2[a_n][0] == ti);
        }

        // One step only grows the lists.
        assert forall|a: Seq<char>, e: TransactionIndex|
            #[trigger] source_indexed(im1, a, e) implies source_indexed(im2, a, e) by {
            let p = choose|p: int| 0 <= p < im1[a].len() && im1[a][p] == e;
            assert(im2[a][p] == e);
        }

        assert forall|a: Seq<char>, e: TransactionIndex|
            #[trigger] source_indexed(im, a, e) implies source_indexed(im2, a, e) by {
            assert(source_indexed(im1, a, e));
        }

        assert forall|i: int|
            0 <= i < n implies source_indexed(im2, (#[trigger] data.2[i]).source@, ti_of(h, i)) by {
            if i < n - 1 {
                assert(source_indexed(im1, data.2[i].source@, ti_of(h, i)));
            } else {
                if im1.contains_key(a_n) {
                    let q = im2[a_n].len() - 1;
                    assert(im2[a_n][q] == ti);
                } else {
                    assert(im2[a_n][0] == ti);
                }
            }
        }

        assert forall|a: Seq<char>, p: int, q: int|
            #![trigger im2[a][p], im2[a][q]]
            im2.contains_key(a) && 0 <= p < q < im2[a].len() implies im2[a][p] != im2[a][q] by {
            if a == a_n {
                if im1.contains_key(a_n) {
                    if q == im2[a_n].len() - 1 {
                        assert(im2[a][p] == im1[a_n][p]);
                        assert(im1[a_n][p] != ti);
                    } else {
                        assert(im2[a][p] == im1[a_n][p] && im2[a][q] == im1[a_n][q]);
                    }
                }
            } else {
                assert(im2[a] == im1[a]);
                assert(im1[a][p] != im1[a][q]);
            }
        }

        assert forall|a: Seq<char>, p: int|
            #![trigger im2[a][p]]
            im2.contains_key(a) && 0 <= p < im2[a].len() implies entry_valid(bm2, a, im2[a][p])
            && (im2[a][p].block_height == h ==> im2[a][p].index < n) by {
            if a == a_n && p == im2[a_n].len() - 1 && (!im1.contains_key(a_n) || p
                == im1[a_n].len() as int) {
                assert(im2[a][p] == ti);
                assert(bm2[h] == data);
                assert(entry_valid(bm2, a, ti));
            } else {
                assert(im1.contains_key(a));
                assert(im2[a][p] == im1[a][p]);
                assert(entry_valid(bm2, a, im1[a][p]));
                assert(im1[a][p].block_height == h ==> im1[a][p].index < n - 1);
            }
        }
    }
}

/// A step that does not fit refutes every longer application.
proof fn lemma_txs_fit_not_extended(m: Map<Seq<char>, int>, txs: Seq<Transaction>, k: int, n: int)
    requires
        0 <= k < n,
        txs_fit(m, txs, k),
        !tx_fits(txs_applied(m, txs, k), txs[k]),
    ensures
        !txs_fit(m, txs, n),
{
    if txs_fit(m, txs, n) {
        lemma_txs_fit_prefix(m, txs, n, k);
    }
}

} // verus!
