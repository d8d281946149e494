//! A deterministic ledger of wallets with escrowed transfers.
//!
//! Wallets hold a spendable balance and a retained amount. A transfer moves
//! funds from the balance of its sender into the retained amount, where they
//! wait until the approver named in the transfer releases them to the receiver.
//!
//! Every rule of the ledger is stated over [`schema::SchemaView`], the ledger
//! as mathematical maps: for each kind of transaction the error that it ends
//! in and the state that it leaves, and for a sequence of transactions the
//! state that replaying them leads to.
//!
//! The ledger takes no digest itself. It hands out what is to be digested,
//! the histories of the wallets that a transaction changes
//! ([`transactions::WalletTransactions::histories`]) and the entries of its
//! indexes ([`schema::Schema::wallet_leaves`]), and stores the digests of
//! the histories as its caller gives them.

use vstd::prelude::*;

pub mod crypto;
pub mod index;
pub mod ledger;
pub mod schema;
pub mod transactions;
pub mod wallet;

use crate::schema::Schema;
use crate::transactions::{Error, HistoryHashes, WalletTransactions};

verus! {

/// Identifier of the service.
pub const CRYPTOCURRENCY_SERVICE_ID: u16 = 128;

/// Name of the service.
pub const SERVICE_NAME: &'static str = "cryptocurrency";

/// Initial balance of a wallet.
pub const INITIAL_BALANCE: u64 = 100;

/// The cryptocurrency service: what identifies it, and how it runs a
/// transaction and sums up the state of its ledger.
#[derive(Default, Debug)]
pub struct Service;

impl Service {
    /// The identifier of the service.
    pub fn service_id(&self) -> (id: u16)
        ensures
            id == CRYPTOCURRENCY_SERVICE_ID,
    {
        CRYPTOCURRENCY_SERVICE_ID
    }

    /// The name of the service.
    pub fn service_name(&self) -> (name: &'static str)
        ensures
            name@ == SERVICE_NAME@,
    {
        SERVICE_NAME
    }

    /// The fingerprint of the ledger, made of the digests of its indexes in
    /// a fixed order: the digest of the wallets first, that of the pending
    /// transfers second.
    pub fn state_hash(&self, wallets: crypto::Hash, transfers: crypto::Hash) -> (hashes: Vec<
        crypto::Hash,
    >)
        ensures
            hashes@ == seq![wallets, transfers],
    {
        let mut hashes: Vec<crypto::Hash> = Vec::new();
        hashes.push(wallets);
        hashes.push(transfers);
        assert(hashes@ =~= seq![wallets, transfers]);
        hashes
    }

    /// Runs one transaction on the ledger. Either the whole of it takes
    /// effect, or the ledger stays as it was and the error says why.
    pub fn execute(
        &self,
        schema: &mut Schema,
        tx_hash: &crypto::Hash,
        author: &crypto::PublicKey,
        transaction: &WalletTransactions,
        hashes: &HistoryHashes,
    ) -> (result: Result<(), Error>)
        requires
            old(schema).wf(),
            transaction.fits(old(schema)@, author@),
        ensures
            final(schema).wf(),
            match transaction.error(old(schema)@, author@) {
                Some(e) => result == Err::<(), Error>(e) && *final(schema) == *old(schema),
                None => result.is_ok() && final(schema)@ == transaction.effect(
                    old(schema)@,
                    author@,
                    *tx_hash,
                    *hashes,
                ),
            },
    {
        transaction.execute(schema, author, tx_hash, hashes)
    }
}

/// Makes the service for a node.
#[derive(Debug)]
pub struct ServiceFactory;

impl ServiceFactory {
    /// The name of the service that the factory makes.
    pub fn service_name(&self) -> (name: &'static str)
        ensures
            name@ == SERVICE_NAME@,
    {
        SERVICE_NAME
    }

    /// Makes the service.
    pub fn make_service(&mut self) -> (service: Service)
        ensures
            service == Service,
    {
        Service
    }
}

} // verus!
