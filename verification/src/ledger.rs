//! Running transactions one after another and keeping how each ended.

use vstd::prelude::*;
use crate::crypto;
use crate::crypto::PublicKey;
use crate::index::Index;
use crate::schema::{Schema, SchemaView};
use crate::transactions::{Error, HistoryHashes, WalletTransactions};

verus! {

/// A transaction as it reaches the ledger: authenticated, with its hash, and
/// with the digests of the histories that it would leave behind.
#[derive(Debug)]
pub struct Entry {
    /// The hash that identifies the transaction.
    pub tx_hash: crypto::Hash,
    /// The key that signed the transaction.
    pub author: PublicKey,
    /// What the transaction asks for.
    pub payload: WalletTransactions,
    /// The digests to store with the wallets that the transaction changes.
    pub hashes: HistoryHashes,
}

impl Entry {
    /// Whether every amount that the transaction adds to fits into 64 bits.
    pub open spec fn fits(self, s: SchemaView) -> bool {
        self.payload.fits(s, self.author@)
    }

    /// How the transaction ends on the state `s`.
    pub open spec fn outcome(self, s: SchemaView) -> Result<(), Error> {
        match self.payload.error(s, self.author@) {
            Some(e) => Err(e),
            None => Ok(()),
        }
    }

    /// The state after the transaction: its effect, or `s` itself where the
    /// transaction ends in an error.
    pub open spec fn step(self, s: SchemaView) -> SchemaView {
        match self.payload.error(s, self.author@) {
            Some(_) => s,
            None => self.payload.effect(s, self.author@, self.tx_hash, self.hashes),
        }
    }
}

/// The state that `entries`, applied in their order, lead to from `s`.
pub open spec fn replay(s: SchemaView, entries: Seq<Entry>) -> SchemaView
    decreases entries.len(),
{
    if entries.len() == 0 {
        s
    } else {
        entries.last().step(replay(s, entries.drop_last()))
    }
}

/// The outcomes on record once `entries` are applied in their order from the
/// state `s`, `recorded` being those on record before.
pub open spec fn replay_outcomes(
    recorded: Map<Seq<u8>, Result<(), Error>>,
    s: SchemaView,
    entries: Seq<Entry>,
) -> Map<Seq<u8>, Result<(), Error>>
    decreases entries.len(),
{
    if entries.len() == 0 {
        recorded
    } else {
        replay_outcomes(recorded, s, entries.drop_last()).insert(
            entries.last().tx_hash@,
            entries.last().outcome(replay(s, entries.drop_last())),
        )
    }
}

/// Whether a run over `entries` from the state `s` applies exactly the first
/// `n` of them: each of these fits on the state that it meets, and the next
/// one, if there is one, does not.
pub open spec fn stops_at(s: SchemaView, entries: Seq<Entry>, n: int) -> bool {
    &&& 0 <= n <= entries.len()
    &&& forall|i: int| 0 <= i < n ==> (#[trigger] entries[i]).fits(replay(s, entries.take(i)))
    &&& n < entries.len() ==> !entries[n].fits(replay(s, entries.take(n)))
}

/// Where a run stops is settled by the state it starts from and by the
/// entries. Two ledgers that start from the same state and are given the
/// same entries therefore apply equally many, and end in the same state
/// with the same outcomes on record.
pub proof fn replay_is_settled(
    recorded: Map<Seq<u8>, Result<(), Error>>,
    s: SchemaView,
    entries: Seq<Entry>,
    n: int,
    m: int,
)
    requires
        stops_at(s, entries, n),
        stops_at(s, entries, m),
    ensures
        n == m,
        replay(s, entries.take(n)) == replay(s, entries.take(m)),
        replay_outcomes(recorded, s, entries.take(n)) == replay_outcomes(
            recorded,
            s,
            entries.take(m),
        ),
{
    if n < m {
        assert(entries[n].fits(replay(s, entries.take(n))));
    } else if m < n {
        assert(entries[m].fits(replay(s, entries.take(m))));
    }
}

/// Replaying one entry more is one step from where the replay stood.
pub proof fn lemma_replay_next(
    recorded: Map<Seq<u8>, Result<(), Error>>,
    s: SchemaView,
    entries: Seq<Entry>,
    i: int,
)
    requires
        0 <= i < entries.len(),
    ensures
        replay(s, entries.take(i + 1)) == entries[i].step(replay(s, entries.take(i))),
        replay_outcomes(recorded, s, entries.take(i + 1)) == replay_outcomes(
            recorded,
            s,
            entries.take(i),
        ).insert(entries[i].tx_hash@, entries[i].outcome(replay(s, entries.take(i)))),
{
    let next = entries.take(i + 1);
    assert(next.drop_last() =~= entries.take(i));
    assert(next.last() == entries[i]);
}

/// A ledger with the outcome of every transaction that was applied to it.
pub struct Ledger {
    /// The committed state.
    pub schema: Schema,
    /// How each transaction ended, by its hash.
    pub outcomes: Index<Result<(), Error>>,
}

impl Ledger {
    /// State and outcomes are well formed.
    pub open spec fn wf(&self) -> bool {
        self.schema.wf() && self.outcomes.wf()
    }

    /// An empty ledger to which nothing was applied.
    pub fn new() -> (ledger: Ledger)
        ensures
            ledger.wf(),
            ledger.schema@ == crate::schema::SchemaView::empty(),
            ledger.outcomes.contents() == Map::<Seq<u8>, Result<(), Error>>::empty(),
    {
        Ledger { schema: Schema::new(), outcomes: Index::new() }
    }

    /// Applies one transaction: commits the whole of its effect, or leaves
    /// the state as it was; either way records the outcome under `tx_hash`
    /// and hands it back.
    pub fn apply(
        &mut self,
        tx_hash: &crypto::Hash,
        author: &PublicKey,
        payload: &WalletTransactions,
        hashes: &HistoryHashes,
    ) -> (result: Result<(), Error>)
        requires
            old(self).wf(),
            payload.fits(old(self).schema@, author@),
        ensures
            final(self).wf(),
            final(self).outcomes.contents() == old(self).outcomes.contents().insert(
                tx_hash@,
                result,
            ),
            match payload.error(old(self).schema@, author@) {
                Some(e) => result == Err::<(), Error>(e) && final(self).schema == old(self).schema,
                None => result == Ok::<(), Error>(()) && final(self).schema@ == payload.effect(
                    old(self).schema@,
                    author@,
                    *tx_hash,
                    *hashes,
                ),
            },
    {
        let result = match payload.execute(&mut self.schema, author, tx_hash, hashes) {
            Ok(_) => Ok(()),
            Err(error) => Err(error),
        };
        self.outcomes.put(tx_hash.bytes, result);
        result
    }

    /// Applies one entry.
    pub fn apply_entry(&mut self, entry: &Entry) -> (result: Result<(), Error>)
        requires
            old(self).wf(),
            entry.fits(old(self).schema@),
        ensures
            final(self).wf(),
            result == entry.outcome(old(self).schema@),
            final(self).schema@ == entry.step(old(self).schema@),
            final(self).outcomes.contents() == old(self).outcomes.contents().insert(
                entry.tx_hash@,
                result,
            ),
    {
        self.apply(&entry.tx_hash, &entry.author, &entry.payload, &entry.hashes)
    }

    /// Applies `entries` one after another, each on the state that the one
    /// before left, up to the first whose amounts do not fit into 64 bits,
    /// and tells how many were applied. An entry that ends in an error
    /// leaves the state as it was and does not stop the run.
    pub fn apply_all(&mut self, entries: &Vec<Entry>) -> (applied: usize)
        requires
            old(self).wf(),
        ensures
            final(self).wf(),
            applied <= entries.len(),
            final(self).schema@ == replay(old(self).schema@, entries@.take(applied as int)),
            final(self).outcomes.contents() == replay_outcomes(
                old(self).outcomes.contents(),
                old(self).schema@,
                entries@.take(applied as int),
            ),
            stops_at(old(self).schema@, entries@, applied as int),
    {
        let ghost start = self.schema@;
        let ghost recorded = self.outcomes.contents();
        let mut i: usize = 0;
        while i < entries.len()
            invariant
                self.wf(),
                i <= entries.len(),
                start == old(self).schema@,
                recorded == old(self).outcomes.contents(),
                self.schema@ == replay(start, entries@.take(i as int)),
                self.outcomes.contents() == replay_outcomes(
                    recorded,
                    start,
                    entries@.take(i as int),
                ),
                forall|j: int|
                    0 <= j < i ==> (#[trigger] entries[j]).fits(replay(start, entries@.take(j))),
            decreases entries.len() - i,
        {
            let entry = &entries[i];
            if !entry.payload.check_fits(&self.schema, &entry.author) {
                return i;
            }
            self.apply_entry(entry);
            proof {
                lemma_replay_next(recorded, start, entries@, i as int);
            }
            i = i + 1;
        }
        i
    }

    /// How the transaction `tx_hash` ended, if it was applied.
    pub fn outcome(&self, tx_hash: &crypto::Hash) -> (outcome: Option<Result<(), Error>>)
        requires
            self.wf(),
        ensures
            outcome == self.outcomes.contents().get(tx_hash@),
    {
        match self.outcomes.get(&tx_hash.bytes) {
            Some(result) => Some(*result),
            None => None,
        }
    }
}

} // verus!
