use cryptocurrency_advanced::crypto;
use cryptocurrency_advanced::crypto::PublicKey;
use cryptocurrency_advanced::schema::Schema;
use cryptocurrency_advanced::transactions::{
    Approve, CreateWallet, Error, HistoryHashes, Transfer, WalletTransactions,
};
use cryptocurrency_advanced::wallet::Wallet;
use cryptocurrency_advanced::Service;

/// A ledger together with the service that runs transactions on it.
struct TestKit {
    service: Service,
    schema: Schema,
    next_hash: u8,
}

/// A transaction as it is handed to the ledger.
struct Tx {
    hash: crypto::Hash,
    author: PublicKey,
    payload: WalletTransactions,
}

impl Tx {
    fn hash(&self) -> crypto::Hash {
        self.hash
    }

    fn author(&self) -> PublicKey {
        self.author
    }
}

impl TestKit {
    fn fresh_hash(&mut self) -> crypto::Hash {
        self.next_hash += 1;
        crypto::Hash::new([self.next_hash; 32])
    }

    /// Makes a wallet creation transaction for the key made of `id`.
    fn create_wallet(&mut self, id: u8, name: &str) -> Tx {
        Tx {
            hash: self.fresh_hash(),
            author: PublicKey::new([id; 32]),
            payload: WalletTransactions::CreateWallet(CreateWallet { name: name.to_owned() }),
        }
    }

    fn transfer(
        &mut self,
        from: &PublicKey,
        to: &PublicKey,
        approver: &PublicKey,
        amount: u64,
        seed: u64,
    ) -> Tx {
        Tx {
            hash: self.fresh_hash(),
            author: *from,
            payload: WalletTransactions::Transfer(Transfer {
                from: *from,
                to: *to,
                approver: *approver,
                amount,
                seed,
            }),
        }
    }

    fn approve(&mut self, approver: &PublicKey, transfer_tx_hash: crypto::Hash, seed: u64) -> Tx {
        Tx {
            hash: self.fresh_hash(),
            author: *approver,
            payload: WalletTransactions::Approve(Approve {
                approver: *approver,
                transfer_tx_hash,
                seed,
            }),
        }
    }

    /// Runs the transaction and hands back how it ended.
    fn commit(&mut self, tx: &Tx) -> Result<(), Error> {
        let hashes = HistoryHashes {
            debited: crypto::Hash::new([0xd0; 32]),
            credited: crypto::Hash::new([0xc0; 32]),
        };
        self.service.execute(&mut self.schema, &tx.hash, &tx.author, &tx.payload, &hashes)
    }

    fn get_wallet(&self, pub_key: PublicKey) -> Option<Wallet> {
        self.schema.wallet(&pub_key)
    }

    fn assert_no_wallet(&self, pub_key: PublicKey) {
        assert!(self.schema.wallet(&pub_key).is_none());
    }
}

fn create_testkit() -> TestKit {
    TestKit { service: Service, schema: Schema::new(), next_hash: 0 }
}

fn assert_error(status: Result<(), Error>, code: u8, description: &str) {
    let error = status.unwrap_err();
    assert_eq!(error.code(), code);
    assert_eq!(error.description(), description);
}

/// Check that the wallet creation transaction works.
#[test]
fn test_create_wallet() {
    let mut testkit = create_testkit();
    let tx = testkit.create_wallet(1, "Alice");
    assert_eq!(testkit.commit(&tx), Ok(()));

    let wallet = testkit.get_wallet(tx.author()).unwrap();
    assert_eq!(wallet.pub_key, tx.author());
    assert_eq!(wallet.name, "Alice");
    assert_eq!(wallet.balance, 100);
}

/// Check that the transfer transaction works as intended.
#[test]
fn test_transfer() {
    let mut testkit = create_testkit();
    let tx_alice = testkit.create_wallet(1, "Alice");
    let tx_bob = testkit.create_wallet(2, "Bob");
    assert_eq!(testkit.commit(&tx_alice), Ok(()));
    assert_eq!(testkit.commit(&tx_bob), Ok(()));

    let approver_pk = PublicKey::new([3; 32]);

    let wallet = testkit.get_wallet(tx_alice.author()).unwrap();
    assert_eq!(wallet.balance, 100);
    assert_eq!(wallet.retained_amount, 0);
    let wallet = testkit.get_wallet(tx_bob.author()).unwrap();
    assert_eq!(wallet.balance, 100);
    assert_eq!(wallet.retained_amount, 0);

    let tx = testkit.transfer(&tx_alice.author(), &tx_bob.author(), &approver_pk, 10, 0);
    assert_eq!(testkit.commit(&tx), Ok(()));

    let wallet = testkit.get_wallet(tx_alice.author()).unwrap();
    assert_eq!(wallet.balance, 90);
    assert_eq!(wallet.retained_amount, 10);
    let wallet = testkit.get_wallet(tx_bob.author()).unwrap();
    assert_eq!(wallet.balance, 100);
    assert_eq!(wallet.retained_amount, 0);

    let tx = testkit.approve(&approver_pk, tx.hash(), 0);
    assert_eq!(testkit.commit(&tx), Ok(()));

    let wallet = testkit.get_wallet(tx_alice.author()).unwrap();
    assert_eq!(wallet.balance, 90);
    assert_eq!(wallet.retained_amount, 0);
    let wallet = testkit.get_wallet(tx_bob.author()).unwrap();
    assert_eq!(wallet.balance, 110);
    assert_eq!(wallet.retained_amount, 0);
}

/// Check that a transfer from a non-existing wallet fails as expected.
#[test]
fn test_transfer_from_nonexisting_wallet() {
    let mut testkit = create_testkit();

    let tx_alice = testkit.create_wallet(1, "Alice");
    let tx_bob = testkit.create_wallet(2, "Bob");
    // Alice's transaction is not committed, so her wallet does not exist
    // when the transfer occurs.
    assert_eq!(testkit.commit(&tx_bob), Ok(()));

    testkit.assert_no_wallet(tx_alice.author());
    let wallet = testkit.get_wallet(tx_bob.author()).unwrap();
    assert_eq!(wallet.balance, 100);
    assert_eq!(wallet.retained_amount, 0);

    let approver_pk = PublicKey::new([3; 32]);

    let tx = testkit.transfer(&tx_alice.author(), &tx_bob.author(), &approver_pk, 10, 0);
    assert_error(testkit.commit(&tx), 1, "Sender doesn't exist");

    let wallet = testkit.get_wallet(tx_bob.author()).unwrap();
    assert_eq!(wallet.balance, 100);
    assert_eq!(wallet.retained_amount, 0);
}

/// Check that a transfer to a non-existing wallet fails as expected.
#[test]
fn test_transfer_to_nonexisting_wallet() {
    let mut testkit = create_testkit();

    let tx_alice = testkit.create_wallet(1, "Alice");
    let tx_bob = testkit.create_wallet(2, "Bob");
    // Bob's transaction is not committed, so his wallet does not exist
    // when the transfer occurs.
    assert_eq!(testkit.commit(&tx_alice), Ok(()));

    let wallet = testkit.get_wallet(tx_alice.author()).unwrap();
    assert_eq!(wallet.balance, 100);
    assert_eq!(wallet.retained_amount, 0);
    testkit.assert_no_wallet(tx_bob.author());

    let approver_pk = PublicKey::new([3; 32]);

    let tx = testkit.transfer(&tx_alice.author(), &tx_bob.author(), &approver_pk, 10, 0);
    assert_error(testkit.commit(&tx), 2, "Receiver doesn't exist");

    let wallet = testkit.get_wallet(tx_alice.author()).unwrap();
    assert_eq!(wallet.balance, 100);
    assert_eq!(wallet.retained_amount, 0);
}

/// Check that an overcharge does not lead to changes in sender's and
/// receiver's balances.
#[test]
fn test_transfer_overcharge() {
    let mut testkit = create_testkit();

    let tx_alice = testkit.create_wallet(1, "Alice");
    let tx_bob = testkit.create_wallet(2, "Bob");
    assert_eq!(testkit.commit(&tx_alice), Ok(()));
    assert_eq!(testkit.commit(&tx_bob), Ok(()));

    let approver_pk = PublicKey::new([3; 32]);

    // The transfer amount (110) is more than Alice has (100).
    let tx = testkit.transfer(&tx_alice.author(), &tx_bob.author(), &approver_pk, 110, 0);
    assert_error(testkit.commit(&tx), 3, "Insufficient currency amount");

    let wallet = testkit.get_wallet(tx_alice.author()).unwrap();
    assert_eq!(wallet.balance, 100);
    assert_eq!(wallet.retained_amount, 0);
    let wallet = testkit.get_wallet(tx_bob.author()).unwrap();
    assert_eq!(wallet.balance, 100);
    assert_eq!(wallet.retained_amount, 0);
}

/// Check that an approve of a non-existing transfer fails as expected.
#[test]
fn test_approve_nonexisting_transfer() {
    let mut testkit = create_testkit();

    let tx_alice = testkit.create_wallet(1, "Alice");
    let tx_bob = testkit.create_wallet(2, "Bob");
    assert_eq!(testkit.commit(&tx_alice), Ok(()));
    assert_eq!(testkit.commit(&tx_bob), Ok(()));

    let wallet = testkit.get_wallet(tx_bob.author()).unwrap();
    assert_eq!(wallet.balance, 100);
    assert_eq!(wallet.retained_amount, 0);

    let approver_pk = PublicKey::new([3; 32]);

    // The transfer is not committed, so it does not exist when the approve
    // occurs.
    let tx = testkit.transfer(&tx_alice.author(), &tx_bob.author(), &approver_pk, 10, 0);

    let tx = testkit.approve(&approver_pk, tx.hash(), 0);
    assert_error(testkit.commit(&tx), 4, "Transfer doesn't exist");

    let wallet = testkit.get_wallet(tx_bob.author()).unwrap();
    assert_eq!(wallet.balance, 100);
    assert_eq!(wallet.retained_amount, 0);
}

/// Check that a double approve of a transfer fails as expected.
#[test]
fn test_double_approve_transfer() {
    let mut testkit = create_testkit();

    let tx_alice = testkit.create_wallet(1, "Alice");
    let tx_bob = testkit.create_wallet(2, "Bob");
    assert_eq!(testkit.commit(&tx_alice), Ok(()));
    assert_eq!(testkit.commit(&tx_bob), Ok(()));

    let wallet = testkit.get_wallet(tx_alice.author()).unwrap();
    assert_eq!(wallet.balance, 100);
    assert_eq!(wallet.retained_amount, 0);
    let wallet = testkit.get_wallet(tx_bob.author()).unwrap();
    assert_eq!(wallet.balance, 100);
    assert_eq!(wallet.retained_amount, 0);

    let approver_pk = PublicKey::new([3; 32]);

    let tx = testkit.transfer(&tx_alice.author(), &tx_bob.author(), &approver_pk, 10, 0);
    assert_eq!(testkit.commit(&tx), Ok(()));

    let transfer_tx_hash = tx.hash();

    let tx = testkit.approve(&approver_pk, transfer_tx_hash, 0);
    assert_eq!(testkit.commit(&tx), Ok(()));

    let wallet = testkit.get_wallet(tx_alice.author()).unwrap();
    assert_eq!(wallet.balance, 90);
    assert_eq!(wallet.retained_amount, 0);
    let wallet = testkit.get_wallet(tx_bob.author()).unwrap();
    assert_eq!(wallet.balance, 110);
    assert_eq!(wallet.retained_amount, 0);

    // Approve the transfer again.
    let tx = testkit.approve(&approver_pk, transfer_tx_hash, 1);
    assert_error(testkit.commit(&tx), 4, "Transfer doesn't exist");

    let wallet = testkit.get_wallet(tx_alice.author()).unwrap();
    assert_eq!(wallet.balance, 90);
    assert_eq!(wallet.retained_amount, 0);
    let wallet = testkit.get_wallet(tx_bob.author()).unwrap();
    assert_eq!(wallet.balance, 110);
    assert_eq!(wallet.retained_amount, 0);
}

#[test]
fn test_unknown_wallet_request() {
    let mut testkit = create_testkit();

    // The transaction is made, but is not committed.
    let tx = testkit.create_wallet(1, "Alice");

    testkit.assert_no_wallet(tx.author());
}
