//! The ledger state: wallets, their histories and the pending transfers.

use vstd::prelude::*;
use crate::crypto;
use crate::crypto::PublicKey;
use crate::index::Index;
use crate::transactions::Transfer;
use crate::wallet::{Wallet, WalletView};
use crate::INITIAL_BALANCE;

verus! {

/// The ledger as mathematical values: wallets and histories by the bytes of
/// a public key, pending transfers by the bytes of the hash of the
/// transaction that made them.
pub struct SchemaView {
    pub wallets: Map<Seq<u8>, WalletView>,
    pub histories: Map<Seq<u8>, Seq<crypto::Hash>>,
    pub transfers: Map<Seq<u8>, Transfer>,
}

impl SchemaView {
    /// Every wallet stands under its own key and has a history of the length
    /// that it records; the two parties of a pending transfer differ.
    pub open spec fn wf(self) -> bool {
        &&& self.histories.dom() =~= self.wallets.dom()
        &&& forall|k: Seq<u8>| #[trigger]
            self.wallets.contains_key(k) ==> self.wallets[k].pub_key == k
                && self.wallets[k].history_len == self.histories[k].len()
        &&& forall|h: Seq<u8>| #[trigger]
            self.transfers.contains_key(h) ==> self.transfers[h].from@ != self.transfers[h].to@
    }

    /// The ledger without any entry.
    pub open spec fn empty() -> SchemaView {
        SchemaView { wallets: Map::empty(), histories: Map::empty(), transfers: Map::empty() }
    }

    /// The history recorded for `key`, empty where there is none.
    pub open spec fn history(self, key: Seq<u8>) -> Seq<crypto::Hash> {
        if self.histories.contains_key(key) {
            self.histories[key]
        } else {
            Seq::empty()
        }
    }

    /// Stores `wallet` under its key and appends `transaction` to its history.
    pub open spec fn record(self, wallet: WalletView, transaction: crypto::Hash) -> SchemaView {
        SchemaView {
            wallets: self.wallets.insert(wallet.pub_key, wallet),
            histories: self.histories.insert(
                wallet.pub_key,
                self.history(wallet.pub_key).push(transaction),
            ),
            transfers: self.transfers,
        }
    }

    /// A wallet for `key` with the initial balance, nothing retained, and
    /// `transaction` as the newest entry of its history.
    pub open spec fn create_wallet(
        self,
        key: Seq<u8>,
        name: Seq<char>,
        transaction: crypto::Hash,
        history_hash: Seq<u8>,
    ) -> SchemaView {
        self.record(
            WalletView {
                pub_key: key,
                name,
                balance: INITIAL_BALANCE,
                retained_amount: 0,
                history_len: (self.history(key).len() + 1) as u64,
                history_hash,
            },
            transaction,
        )
    }

    /// The wallet of `key` with `amount` more in its balance.
    pub open spec fn increase_wallet_balance(
        self,
        key: Seq<u8>,
        amount: u64,
        transaction: crypto::Hash,
        history_hash: Seq<u8>,
    ) -> SchemaView {
        let wallet = self.wallets[key];
        self.record(
            WalletView {
                balance: (wallet.balance + amount) as u64,
                history_len: (wallet.history_len + 1) as u64,
                history_hash,
                ..wallet
            },
            transaction,
        )
    }

    /// The wallet of `key` with `amount` less retained, and the pending
    /// transfer `transfer_hash` gone.
    pub open spec fn decrease_retained_amount(
        self,
        key: Seq<u8>,
        amount: u64,
        transaction: crypto::Hash,
        transfer_hash: Seq<u8>,
        history_hash: Seq<u8>,
    ) -> SchemaView {
        let wallet = self.wallets[key];
        let recorded = self.record(
            WalletView {
                retained_amount: (wallet.retained_amount - amount) as u64,
                history_len: (wallet.history_len + 1) as u64,
                history_hash,
                ..wallet
            },
            transaction,
        );
        SchemaView { transfers: recorded.transfers.remove(transfer_hash), ..recorded }
    }

    /// The wallet of `key` with `amount` moved from its balance to its
    /// retained amount, and `transfer` pending under the hash of
    /// `transaction`.
    pub open spec fn retain_amount_from_wallet_balance(
        self,
        key: Seq<u8>,
        amount: u64,
        transaction: crypto::Hash,
        transfer: Transfer,
        history_hash: Seq<u8>,
    ) -> SchemaView {
        let wallet = self.wallets[key];
        let recorded = self.record(
            WalletView {
                balance: (wallet.balance - amount) as u64,
                retained_amount: (wallet.retained_amount + amount) as u64,
                history_len: (wallet.history_len + 1) as u64,
                history_hash,
                ..wallet
            },
            transaction,
        );
        SchemaView { transfers: recorded.transfers.insert(transaction@, transfer), ..recorded }
    }
}

/// An entry of an index as it is digested: the key, and the bytes that stand
/// for the value.
#[derive(Debug)]
pub struct Leaf {
    pub key: [u8; 32],
    pub value: Vec<u8>,
}

/// The ledger state.
pub struct Schema {
    /// Wallets by public key.
    pub wallets: Index<Wallet>,
    /// The hashes of the transactions that changed a wallet, oldest first,
    /// by the wallet's public key.
    pub histories: Index<Vec<crypto::Hash>>,
    /// Pending transfers by the hash of the transaction that made them.
    pub transfers: Index<Transfer>,
}

impl View for Schema {
    type V = SchemaView;

    open spec fn view(&self) -> SchemaView {
        SchemaView {
            wallets: self.wallets.contents().map_values(|w: Wallet| w@),
            histories: self.histories.contents().map_values(|log: Vec<crypto::Hash>| log@),
            transfers: self.transfers.contents(),
        }
    }
}

impl Schema {
    /// The three indexes are well formed and so is what they hold.
    pub open spec fn wf(&self) -> bool {
        &&& self.wallets.wf()
        &&& self.histories.wf()
        &&& self.transfers.wf()
        &&& self@.wf()
    }

    /// A ledger without wallets and without pending transfers.
    pub fn new() -> (schema: Schema)
        ensures
            schema.wf(),
            schema@ == SchemaView::empty(),
    {
        let schema = Schema {
            wallets: Index::new(),
            histories: Index::new(),
            transfers: Index::new(),
        };
        assert(schema@.wallets =~= Map::empty());
        assert(schema@.histories =~= Map::empty());
        schema
    }

    /// The wallet of `pub_key`.
    pub fn wallet(&self, pub_key: &PublicKey) -> (wallet: Option<Wallet>)
        requires
            self.wf(),
        ensures
            match wallet {
                Some(w) => self@.wallets.contains_key(pub_key@) && w@ == self@.wallets[pub_key@],
                None => !self@.wallets.contains_key(pub_key@),
            },
    {
        match self.wallets.get(&pub_key.bytes) {
            Some(w) => Some(w.clone()),
            None => None,
        }
    }

    /// The pending transfer made by the transaction `hash`.
    pub fn transfer(&self, hash: &crypto::Hash) -> (transfer: Option<Transfer>)
        requires
            self.wf(),
        ensures
            match transfer {
                Some(t) => self@.transfers.contains_key(hash@) && t == self@.transfers[hash@],
                None => !self@.transfers.contains_key(hash@),
            },
    {
        match self.transfers.get(&hash.bytes) {
            Some(t) => Some(*t),
            None => None,
        }
    }

    /// The history of the wallet of `pub_key`, oldest entry first; empty
    /// where there is no such wallet.
    pub fn wallet_history(&self, pub_key: &PublicKey) -> (log: Vec<crypto::Hash>)
        requires
            self.wf(),
        ensures
            log@ == self@.history(pub_key@),
    {
        let mut log: Vec<crypto::Hash> = Vec::new();
        match self.histories.get(&pub_key.bytes) {
            Some(stored) => {
                let mut i: usize = 0;
                while i < stored.len()
                    invariant
                        i <= stored.len(),
                        log@ == stored@.subrange(0, i as int),
                    decreases stored.len() - i,
                {
                    log.push(stored[i]);
                    assert(log@ =~= stored@.subrange(0, i + 1));
                    i = i + 1;
                }
                assert(log@ =~= stored@);
            },
            None => {},
        }
        log
    }

    /// The wallets as they are digested, one leaf for each, in the order in
    /// which the wallets were created.
    pub fn wallet_leaves(&self) -> (leaves: Vec<Leaf>)
        requires
            self.wf(),
        ensures
            leaves.len() == self.wallets.keys.len(),
            forall|i: int|
                0 <= i < leaves.len() ==> {
                    let key = (#[trigger] leaves[i]).key;
                    &&& key == self.wallets.keys[i]
                    &&& self@.wallets.contains_key(key@)
                    &&& leaves[i].value@ == self@.wallets[key@].encoding()
                },
    {
        let mut leaves: Vec<Leaf> = Vec::new();
        let mut i: usize = 0;
        while i < self.wallets.keys.len()
            invariant
                self.wf(),
                i <= self.wallets.keys.len(),
                leaves.len() == i,
                forall|j: int|
                    0 <= j < i ==> {
                        let key = (#[trigger] leaves[j]).key;
                        &&& key == self.wallets.keys[j]
                        &&& self@.wallets.contains_key(key@)
                        &&& leaves[j].value@ == self@.wallets[key@].encoding()
                    },
            decreases self.wallets.keys.len() - i,
        {
            proof {
                self.wallets.lemma_entry(i as int);
            }
            leaves.push(Leaf { key: self.wallets.keys[i], value: self.wallets.values[i].to_bytes() });
            i = i + 1;
        }
        leaves
    }

    /// The pending transfers as they are digested, one leaf for each, in the
    /// order in which the transfers were made.
    pub fn transfer_leaves(&self) -> (leaves: Vec<Leaf>)
        requires
            self.wf(),
        ensures
            leaves.len() == self.transfers.keys.len(),
            forall|i: int|
                0 <= i < leaves.len() ==> {
                    let key = (#[trigger] leaves[i]).key;
                    &&& key == self.transfers.keys[i]
                    &&& self@.transfers.contains_key(key@)
                    &&& leaves[i].value@ == self@.transfers[key@].encoding()
                },
    {
        let mut leaves: Vec<Leaf> = Vec::new();
        let mut i: usize = 0;
        while i < self.transfers.keys.len()
            invariant
                self.wf(),
                i <= self.transfers.keys.len(),
                leaves.len() == i,
                forall|j: int|
                    0 <= j < i ==> {
                        let key = (#[trigger] leaves[j]).key;
                        &&& key == self.transfers.keys[j]
                        &&& self@.transfers.contains_key(key@)
                        &&& leaves[j].value@ == self@.transfers[key@].encoding()
                    },
            decreases self.transfers.keys.len() - i,
        {
            proof {
                self.transfers.lemma_entry(i as int);
            }
            leaves.push(
                Leaf { key: self.transfers.keys[i], value: self.transfers.values[i].to_bytes() },
            );
            i = i + 1;
        }
        leaves
    }

    /// The history of the wallet of `pub_key` with `transaction` appended.
    pub fn extended_history(&self, pub_key: &PublicKey, transaction: &crypto::Hash) -> (log: Vec<
        crypto::Hash,
    >)
        requires
            self.wf(),
        ensures
            log@ == self@.history(pub_key@).push(*transaction),
            self@.history(pub_key@).len() < usize::MAX,
    {
        let mut log = self.wallet_history(pub_key);
        log.push(*transaction);
        assert(log@.len() == log.len());
        log
    }

    /// Stores `wallet` under its key, with `log` as its history.
    fn record(&mut self, wallet: Wallet, log: Vec<crypto::Hash>, Ghost(transaction): Ghost<
        crypto::Hash,
    >)
        requires
            old(self).wf(),
            log@ == old(self)@.history(wallet.pub_key@).push(transaction),
            wallet.history_len == log@.len(),
        ensures
            final(self).wf(),
            final(self)@ == old(self)@.record(wallet@, transaction),
    {
        let ghost before = *self;
        let bytes = wallet.pub_key.bytes;
        self.histories.put(bytes, log);
        self.wallets.put(bytes, wallet);
        proof {
            let after = before@.record(wallet@, transaction);
            assert(self@.wallets =~= after.wallets);
            assert(self@.histories =~= after.histories);
            assert(self@.transfers == after.transfers);
        }
    }

    /// Creates a wallet for `key` with the initial balance, whose history
    /// gains `transaction` and has the digest `history_hash`.
    pub fn create_wallet(
        &mut self,
        key: &PublicKey,
        name: &str,
        transaction: &crypto::Hash,
        history_hash: crypto::Hash,
    )
        requires
            old(self).wf(),
        ensures
            final(self).wf(),
            final(self)@ == old(self)@.create_wallet(key@, name@, *transaction, history_hash@),
    {
        let log = self.extended_history(key, transaction);
        let history_len: u64 = log.len() as u64;
        let wallet = Wallet::new(*key, name, INITIAL_BALANCE, 0, history_len, history_hash);
        self.record(wallet, log, Ghost(*transaction));
    }

    /// Adds `amount` to the balance of `wallet`, whose history gains
    /// `transaction` and has the digest `history_hash`.
    pub fn increase_wallet_balance(
        &mut self,
        wallet: Wallet,
        amount: u64,
        transaction: &crypto::Hash,
        history_hash: crypto::Hash,
    )
        requires
            old(self).wf(),
            old(self)@.wallets.contains_key(wallet.pub_key@),
            old(self)@.wallets[wallet.pub_key@] == wallet@,
            wallet.balance + amount <= u64::MAX,
        ensures
            final(self).wf(),
            final(self)@ == old(self)@.increase_wallet_balance(
                wallet.pub_key@,
                amount,
                *transaction,
                history_hash@,
            ),
    {
        let log = self.extended_history(&wallet.pub_key, transaction);
        proof {
            self.lemma_history_len(wallet.pub_key@);
        }
        let balance = wallet.balance;
        let wallet = wallet.set_balance(balance + amount, history_hash);
        self.record(wallet, log, Ghost(*transaction));
    }

    /// Takes `amount` from the retained amount of `wallet`, whose history
    /// gains `transaction` and has the digest `history_hash`, and removes
    /// the pending transfer `transfer_tx_hash`.
    pub fn decrease_retained_amount(
        &mut self,
        wallet: Wallet,
        amount: u64,
        transaction: &crypto::Hash,
        transfer_tx_hash: &crypto::Hash,
        history_hash: crypto::Hash,
    )
        requires
            old(self).wf(),
            old(self)@.wallets.contains_key(wallet.pub_key@),
            old(self)@.wallets[wallet.pub_key@] == wallet@,
            amount <= wallet.retained_amount,
        ensures
            final(self).wf(),
            final(self)@ == old(self)@.decrease_retained_amount(
                wallet.pub_key@,
                amount,
                *transaction,
                transfer_tx_hash@,
                history_hash@,
            ),
    {
        let log = self.extended_history(&wallet.pub_key, transaction);
        proof {
            self.lemma_history_len(wallet.pub_key@);
        }
        let retained = wallet.retained_amount;
        let wallet = wallet.set_retained_amount(retained - amount, history_hash);
        self.record(wallet, log, Ghost(*transaction));
        self.transfers.remove(&transfer_tx_hash.bytes);
    }

    /// Moves `amount` from the balance of `wallet` to its retained amount,
    /// its history gaining `transaction` and having the digest
    /// `history_hash`, and keeps `transfer` as pending under the hash of
    /// `transaction`.
    pub fn retain_amount_from_wallet_balance(
        &mut self,
        wallet: Wallet,
        amount: u64,
        transaction: &crypto::Hash,
        transfer: Transfer,
        history_hash: crypto::Hash,
    )
        requires
            old(self).wf(),
            old(self)@.wallets.contains_key(wallet.pub_key@),
            old(self)@.wallets[wallet.pub_key@] == wallet@,
            amount <= wallet.balance,
            wallet.retained_amount + amount <= u64::MAX,
            transfer.from@ != transfer.to@,
        ensures
            final(self).wf(),
            final(self)@ == old(self)@.retain_amount_from_wallet_balance(
                wallet.pub_key@,
                amount,
                *transaction,
                transfer,
                history_hash@,
            ),
    {
        let log = self.extended_history(&wallet.pub_key, transaction);
        proof {
            self.lemma_history_len(wallet.pub_key@);
        }
        let balance = wallet.balance;
        let retained = wallet.retained_amount;
        let wallet = wallet.set_balance_and_retained_amount(
            balance - amount,
            retained + amount,
            history_hash,
        );
        self.record(wallet, log, Ghost(*transaction));
        self.transfers.put(transaction.bytes, transfer);
    }

    /// A stored wallet records the length of its history.
    pub proof fn lemma_history_len(&self, key: Seq<u8>)
        requires
            self.wf(),
            self@.wallets.contains_key(key),
        ensures
            self@.wallets[key].history_len == self@.history(key).len(),
    {
        assert(self@.histories.dom().contains(key));
    }
}

} // verus!
