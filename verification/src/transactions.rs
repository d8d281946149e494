//! The transactions of the ledger and the errors that they give.

use vstd::prelude::*;
use vstd::bytes::{spec_u64_to_le_bytes, u64_to_le_bytes};
use crate::crypto;
use crate::crypto::append_bytes;
use crate::crypto::PublicKey;
use crate::schema::{Schema, SchemaView};
use crate::INITIAL_BALANCE;

verus! {

/// Transfer `amount` of the currency from one wallet to another with approval
/// by a third party.
#[derive(Clone, Copy, Debug)]
pub struct Transfer {
    /// `PublicKey` of sender's wallet.
    pub from: PublicKey,
    /// `PublicKey` of receiver's wallet.
    pub to: PublicKey,
    /// `PublicKey` of the transaction approver.
    pub approver: PublicKey,
    /// Amount of currency to transfer.
    pub amount: u64,
    /// Auxiliary number that tells otherwise equal transactions apart.
    pub seed: u64,
}

/// Approve the transfer transaction.
#[derive(Clone, Copy, Debug)]
pub struct Approve {
    /// `PublicKey` of the transaction approver. Who may approve is decided by
    /// the author of the transaction, not by this field.
    pub approver: PublicKey,
    /// `Hash` of the transfer to approve.
    pub transfer_tx_hash: crypto::Hash,
    /// Auxiliary number that tells otherwise equal transactions apart.
    pub seed: u64,
}

/// Issue `amount` of the currency to the wallet of the author.
#[derive(Clone, Copy, Debug)]
pub struct Issue {
    /// Issued amount of currency.
    pub amount: u64,
    /// Auxiliary number that tells otherwise equal transactions apart.
    pub seed: u64,
}

/// Create wallet with the given `name`.
#[derive(Debug)]
pub struct CreateWallet {
    /// Name of the new wallet.
    pub name: String,
}

impl Clone for CreateWallet {
    fn clone(&self) -> (copy: CreateWallet)
        ensures
            copy == *self,
    {
        CreateWallet { name: self.name.clone() }
    }
}

/// Transaction group.
#[derive(Debug)]
pub enum WalletTransactions {
    /// Transfer tx.
    Transfer(Transfer),
    /// Approve tx.
    Approve(Approve),
    /// Issue tx.
    Issue(Issue),
    /// CreateWallet tx.
    CreateWallet(CreateWallet),
}

impl Clone for WalletTransactions {
    fn clone(&self) -> (copy: WalletTransactions)
        ensures
            copy == *self,
    {
        match self {
            WalletTransactions::Transfer(tx) => WalletTransactions::Transfer(*tx),
            WalletTransactions::Approve(tx) => WalletTransactions::Approve(*tx),
            WalletTransactions::Issue(tx) => WalletTransactions::Issue(*tx),
            WalletTransactions::CreateWallet(tx) => WalletTransactions::CreateWallet(tx.clone()),
        }
    }
}

/// The digests of the histories of the wallets that a transaction changes,
/// each taken of the history with the hash of the transaction appended.
///
/// The ledger stores them as given: it is for the caller to digest the
/// histories that [`WalletTransactions::histories`] hands out.
#[derive(Clone, Copy, Debug)]
pub struct HistoryHashes {
    /// For the wallet that gives funds: the sender of a transfer, at the
    /// transfer and at its approval.
    pub debited: crypto::Hash,
    /// For the wallet that receives funds: a new wallet, the wallet that
    /// currency is issued to, the receiver of an approved transfer.
    pub credited: crypto::Hash,
}

/// The histories that a transaction would leave behind, each with the hash
/// of the transaction as its newest entry; empty where the transaction
/// changes no such wallet.
#[derive(Debug)]
pub struct Histories {
    /// Of the wallet that gives funds.
    pub debited: Vec<crypto::Hash>,
    /// Of the wallet that receives funds.
    pub credited: Vec<crypto::Hash>,
}

/// Errors that a transaction can end in.
#[derive(Clone, Copy, Debug, PartialEq, Eq)]
pub enum Error {
    /// Wallet already exists.
    ///
    /// Can be emitted by `CreateWallet`.
    WalletAlreadyExists,
    /// Sender doesn't exist, or the wallet that currency is issued to.
    ///
    /// Can be emitted by `Transfer`, `Approve` or `Issue`.
    SenderNotFound,
    /// Receiver doesn't exist.
    ///
    /// Can be emitted by `Transfer` or `Approve`.
    ReceiverNotFound,
    /// Insufficient currency amount.
    ///
    /// Can be emitted by `Transfer` or `Approve`.
    InsufficientCurrencyAmount,
    /// Transfer doesn't exist.
    ///
    /// Can be emitted by `Approve`.
    TransferNotFound,
    /// The sender of a transfer is also its receiver.
    SenderIsReceiver,
    /// The author of a transfer is not its sender.
    WrongSender,
    /// The approver of a transfer is also its sender.
    ApproverIsSender,
    /// The approver of a transfer is also its receiver.
    ApproverIsReceiver,
    /// The author of an approval is not the approver that the transfer names.
    WrongApprover,
}

impl Error {
    /// The number that stands for the error.
    pub open spec fn code_spec(self) -> u8 {
        match self {
            Error::WalletAlreadyExists => 0,
            Error::SenderNotFound => 1,
            Error::ReceiverNotFound => 2,
            Error::InsufficientCurrencyAmount => 3,
            Error::TransferNotFound => 4,
            Error::SenderIsReceiver => 5,
            Error::WrongSender => 6,
            Error::ApproverIsSender => 7,
            Error::ApproverIsReceiver => 8,
            Error::WrongApprover => 9,
        }
    }

    /// The words that describe the error.
    pub open spec fn description_spec(self) -> Seq<char> {
        match self {
            Error::WalletAlreadyExists => "Wallet already exists"@,
            Error::SenderNotFound => "Sender doesn't exist"@,
            Error::ReceiverNotFound => "Receiver doesn't exist"@,
            Error::InsufficientCurrencyAmount => "Insufficient currency amount"@,
            Error::TransferNotFound => "Transfer doesn't exist"@,
            Error::SenderIsReceiver => "Sender is the receiver"@,
            Error::WrongSender => "Author is not the sender"@,
            Error::ApproverIsSender => "Approver is the sender"@,
            Error::ApproverIsReceiver => "Approver is the receiver"@,
            Error::WrongApprover => "Author is not the approver"@,
        }
    }

    /// The number that stands for the error.
    pub fn code(&self) -> (code: u8)
        ensures
            code == self.code_spec(),
    {
        match self {
            Error::WalletAlreadyExists => 0,
            Error::SenderNotFound => 1,
            Error::ReceiverNotFound => 2,
            Error::InsufficientCurrencyAmount => 3,
            Error::TransferNotFound => 4,
            Error::SenderIsReceiver => 5,
            Error::WrongSender => 6,
            Error::ApproverIsSender => 7,
            Error::ApproverIsReceiver => 8,
            Error::WrongApprover => 9,
        }
    }

    /// The words that describe the error.
    pub fn description(&self) -> (text: String)
        ensures
            text@ == self.description_spec(),
    {
        match self {
            Error::WalletAlreadyExists => "Wallet already exists".to_owned(),
            Error::SenderNotFound => "Sender doesn't exist".to_owned(),
            Error::ReceiverNotFound => "Receiver doesn't exist".to_owned(),
            Error::InsufficientCurrencyAmount => "Insufficient currency amount".to_owned(),
            Error::TransferNotFound => "Transfer doesn't exist".to_owned(),
            Error::SenderIsReceiver => "Sender is the receiver".to_owned(),
            Error::WrongSender => "Author is not the sender".to_owned(),
            Error::ApproverIsSender => "Approver is the sender".to_owned(),
            Error::ApproverIsReceiver => "Approver is the receiver".to_owned(),
            Error::WrongApprover => "Author is not the approver".to_owned(),
        }
    }

    /// No two errors share a number.
    pub proof fn codes_differ(a: Error, b: Error)
        ensures
            a.code_spec() == b.code_spec() ==> a == b,
    {
    }
}

impl CreateWallet {
    /// The error that the transaction ends in, if any.
    pub open spec fn error(s: SchemaView, author: Seq<u8>) -> Option<Error> {
        if s.wallets.contains_key(author) {
            Some(Error::WalletAlreadyExists)
        } else {
            None
        }
    }

    /// The ledger after a transaction without error.
    pub open spec fn effect(
        self,
        s: SchemaView,
        author: Seq<u8>,
        tx_hash: crypto::Hash,
        hashes: HistoryHashes,
    ) -> SchemaView {
        s.create_wallet(author, self.name@, tx_hash, hashes.credited@)
    }

    /// A wallet that a transaction creates holds the initial balance,
    /// retains nothing and has a history of one entry, and every other
    /// wallet is as before. From then on a creation by the same author ends
    /// in `WalletAlreadyExists`.
    pub proof fn creates_once(
        self,
        s: SchemaView,
        author: Seq<u8>,
        tx_hash: crypto::Hash,
        hashes: HistoryHashes,
    )
        requires
            s.wf(),
            Self::error(s, author).is_none(),
        ensures
            ({
                let after = self.effect(s, author, tx_hash, hashes);
                &&& after.wf()
                &&& after.wallets.dom() == s.wallets.dom().insert(author)
                &&& after.wallets[author].pub_key == author
                &&& after.wallets[author].name == self.name@
                &&& after.wallets[author].balance == INITIAL_BALANCE
                &&& after.wallets[author].retained_amount == 0
                &&& after.wallets[author].history_len == 1
                &&& after.wallets[author].history_hash == hashes.credited@
                &&& after.histories[author] == seq![tx_hash]
                &&& forall|k: Seq<u8>| k != author && #[trigger] s.wallets.contains_key(k)
                    ==> after.wallets[k] == s.wallets[k]
                &&& after.transfers == s.transfers
                &&& Self::error(after, author) == Some(Error::WalletAlreadyExists)
            }),
    {
        let after = self.effect(s, author, tx_hash, hashes);
        assert(!s.histories.dom().contains(author));
        assert(after.histories[author] =~= seq![tx_hash]);
        assert(after.histories.dom() =~= after.wallets.dom());
    }

    /// Creates the wallet of `author`, unless there is one.
    pub fn execute(
        &self,
        schema: &mut Schema,
        author: &PublicKey,
        tx_hash: &crypto::Hash,
        hashes: &HistoryHashes,
    ) -> (result: Result<(), Error>)
        requires
            old(schema).wf(),
        ensures
            final(schema).wf(),
            match Self::error(old(schema)@, author@) {
                Some(e) => result == Err::<(), Error>(e) && *final(schema) == *old(schema),
                None => result.is_ok() && final(schema)@ == self.effect(
                    old(schema)@,
                    author@,
                    *tx_hash,
                    *hashes,
                ),
            },
    {
        match self.check(schema, author) {
            Some(error) => Err(error),
            None => {
                schema.create_wallet(author, self.name.as_str(), tx_hash, hashes.credited);
                Ok(())
            },
        }
    }

    /// Finds the error that the transaction would end in, and changes
    /// nothing.
    pub fn check(&self, schema: &Schema, author: &PublicKey) -> (error: Option<Error>)
        requires
            schema.wf(),
        ensures
            error == Self::error(schema@, author@),
    {
        if schema.wallet(author).is_none() {
            None
        } else {
            Some(Error::WalletAlreadyExists)
        }
    }
}

impl Issue {
    /// The error that the transaction ends in, if any.
    pub open spec fn error(s: SchemaView, author: Seq<u8>) -> Option<Error> {
        if s.wallets.contains_key(author) {
            None
        } else {
            Some(Error::SenderNotFound)
        }
    }

    /// Whether the issued amount fits into the balance of the wallet.
    pub open spec fn fits(self, s: SchemaView, author: Seq<u8>) -> bool {
        Self::error(s, author).is_none() ==> s.wallets[author].balance + self.amount <= u64::MAX
    }

    /// The ledger after a transaction without error.
    pub open spec fn effect(
        self,
        s: SchemaView,
        author: Seq<u8>,
        tx_hash: crypto::Hash,
        hashes: HistoryHashes,
    ) -> SchemaView {
        s.increase_wallet_balance(author, self.amount, tx_hash, hashes.credited@)
    }

    /// An issue adds its amount to the balance of the author's wallet,
    /// whatever its seed, and leaves the retained amount, every other wallet
    /// and the pending transfers as they were.
    pub proof fn issues_amount(
        self,
        s: SchemaView,
        author: Seq<u8>,
        tx_hash: crypto::Hash,
        hashes: HistoryHashes,
    )
        requires
            s.wf(),
            Self::error(s, author).is_none(),
            self.fits(s, author),
            s.wallets[author].history_len < u64::MAX,
        ensures
            ({
                let after = self.effect(s, author, tx_hash, hashes);
                &&& after.wf()
                &&& after.wallets.dom() == s.wallets.dom()
                &&& after.wallets[author].balance == s.wallets[author].balance + self.amount
                &&& after.wallets[author].retained_amount == s.wallets[author].retained_amount
                &&& after.wallets[author].history_len == s.wallets[author].history_len + 1
                &&& after.histories[author] == s.histories[author].push(tx_hash)
                &&& forall|k: Seq<u8>| k != author && #[trigger] s.wallets.contains_key(k)
                    ==> after.wallets[k] == s.wallets[k]
                &&& after.transfers == s.transfers
            }),
    {
        let after = self.effect(s, author, tx_hash, hashes);
        assert(s.histories.dom().contains(author));
        assert(after.wallets.dom() =~= s.wallets.dom());
        assert(after.histories.dom() =~= after.wallets.dom());
    }

    /// Adds the issued amount to the balance of the wallet of `author`.
    pub fn execute(
        &self,
        schema: &mut Schema,
        author: &PublicKey,
        tx_hash: &crypto::Hash,
        hashes: &HistoryHashes,
    ) -> (result: Result<(), Error>)
        requires
            old(schema).wf(),
            self.fits(old(schema)@, author@),
        ensures
            final(schema).wf(),
            match Self::error(old(schema)@, author@) {
                Some(e) => result == Err::<(), Error>(e) && *final(schema) == *old(schema),
                None => result.is_ok() && final(schema)@ == self.effect(
                    old(schema)@,
                    author@,
                    *tx_hash,
                    *hashes,
                ),
            },
    {
        match schema.wallet(author) {
            Some(wallet) => {
                schema.increase_wallet_balance(wallet, self.amount, tx_hash, hashes.credited);
                Ok(())
            },
            None => Err(Error::SenderNotFound),
        }
    }

    /// Finds the error that the transaction would end in, and changes
    /// nothing.
    pub fn check(&self, schema: &Schema, author: &PublicKey) -> (error: Option<Error>)
        requires
            schema.wf(),
        ensures
            error == Self::error(schema@, author@),
    {
        if schema.wallet(author).is_none() {
            Some(Error::SenderNotFound)
        } else {
            None
        }
    }

    /// Tells whether the issued amount fits into the balance of the wallet.
    pub fn check_fits(&self, schema: &Schema, author: &PublicKey) -> (fits: bool)
        requires
            schema.wf(),
        ensures
            fits == self.fits(schema@, author@),
    {
        match schema.wallet(author) {
            Some(wallet) => wallet.balance <= u64::MAX - self.amount,
            None => true,
        }
    }
}

impl Transfer {
    /// The bytes that stand for the transfer where it is digested: sender,
    /// receiver and approver, then amount and seed in eight bytes each,
    /// lowest byte first.
    pub open spec fn encoding(self) -> Seq<u8> {
        self.from@ + self.to@ + self.approver@ + spec_u64_to_le_bytes(self.amount)
            + spec_u64_to_le_bytes(self.seed)
    }

    /// The bytes that stand for the transfer where it is digested.
    pub fn to_bytes(&self) -> (bytes: Vec<u8>)
        ensures
            bytes@ == self.encoding(),
    {
        let mut bytes: Vec<u8> = Vec::new();
        append_bytes(&mut bytes, self.from.bytes.as_slice());
        append_bytes(&mut bytes, self.to.bytes.as_slice());
        append_bytes(&mut bytes, self.approver.bytes.as_slice());
        append_bytes(&mut bytes, u64_to_le_bytes(self.amount).as_slice());
        append_bytes(&mut bytes, u64_to_le_bytes(self.seed).as_slice());
        assert(bytes@ =~= self.encoding());
        bytes
    }

    /// The error that the transaction ends in, if any: the first of the
    /// checks that fails decides.
    pub open spec fn error(self, s: SchemaView, author: Seq<u8>) -> Option<Error> {
        if author != self.from@ {
            Some(Error::WrongSender)
        } else if self.from@ == self.to@ {
            Some(Error::SenderIsReceiver)
        } else if self.approver@ == self.from@ {
            Some(Error::ApproverIsSender)
        } else if self.approver@ == self.to@ {
            Some(Error::ApproverIsReceiver)
        } else if !s.wallets.contains_key(self.from@) {
            Some(Error::SenderNotFound)
        } else if !s.wallets.contains_key(self.to@) {
            Some(Error::ReceiverNotFound)
        } else if s.wallets[self.from@].balance < self.amount {
            Some(Error::InsufficientCurrencyAmount)
        } else {
            None
        }
    }

    /// Whether the amount fits into the retained amount of the sender.
    pub open spec fn fits(self, s: SchemaView, author: Seq<u8>) -> bool {
        self.error(s, author).is_none() ==> s.wallets[self.from@].retained_amount + self.amount
            <= u64::MAX
    }

    /// The ledger after a transaction without error.
    pub open spec fn effect(
        self,
        s: SchemaView,
        tx_hash: crypto::Hash,
        hashes: HistoryHashes,
    ) -> SchemaView {
        s.retain_amount_from_wallet_balance(
            self.from@,
            self.amount,
            tx_hash,
            self,
            hashes.debited@,
        )
    }

    /// A transfer without error takes its amount from the balance of the
    /// sender and adds it to the sender's retained amount, so that the two
    /// together are what they were; the wallet of the receiver, and every
    /// other wallet, is as before, and the transfer is pending under the
    /// hash of the transaction.
    pub proof fn holds_amount(
        self,
        s: SchemaView,
        author: Seq<u8>,
        tx_hash: crypto::Hash,
        hashes: HistoryHashes,
    )
        requires
            s.wf(),
            self.error(s, author).is_none(),
            self.fits(s, author),
            s.wallets[self.from@].history_len < u64::MAX,
        ensures
            ({
                let after = self.effect(s, tx_hash, hashes);
                let from = self.from@;
                &&& after.wf()
                &&& after.wallets.dom() == s.wallets.dom()
                &&& after.wallets[from].balance == s.wallets[from].balance - self.amount
                &&& after.wallets[from].retained_amount == s.wallets[from].retained_amount
                    + self.amount
                &&& after.wallets[from].balance + after.wallets[from].retained_amount
                    == s.wallets[from].balance + s.wallets[from].retained_amount
                &&& after.wallets[from].history_len == s.wallets[from].history_len + 1
                &&& after.wallets[self.to@] == s.wallets[self.to@]
                &&& forall|k: Seq<u8>| k != from && #[trigger] s.wallets.contains_key(k)
                    ==> after.wallets[k] == s.wallets[k]
                &&& after.transfers == s.transfers.insert(tx_hash@, self)
            }),
    {
        let after = self.effect(s, tx_hash, hashes);
        assert(s.histories.dom().contains(self.from@));
        assert(after.wallets.dom() =~= s.wallets.dom());
        assert(after.histories.dom() =~= after.wallets.dom());
    }

    /// A transfer by its sender to the sender ends in `SenderIsReceiver`,
    /// whatever the amount and whatever the ledger holds.
    pub proof fn self_transfer_fails(self, s: SchemaView, author: Seq<u8>)
        requires
            author == self.from@,
            self.from@ == self.to@,
        ensures
            self.error(s, author) == Some(Error::SenderIsReceiver),
    {
    }

    /// Between three distinct parties with the author as sender, and with
    /// wallets for sender and receiver, a transfer goes through exactly when
    /// its amount is within the balance of the sender; beyond it the
    /// transfer ends in `InsufficientCurrencyAmount`.
    pub proof fn succeeds_within_balance(self, s: SchemaView, author: Seq<u8>)
        requires
            author == self.from@,
            self.from@ != self.to@,
            self.approver@ != self.from@,
            self.approver@ != self.to@,
            s.wallets.contains_key(self.from@),
            s.wallets.contains_key(self.to@),
        ensures
            self.amount <= s.wallets[self.from@].balance ==> self.error(s, author).is_none(),
            self.amount > s.wallets[self.from@].balance ==> self.error(s, author) == Some(
                Error::InsufficientCurrencyAmount,
            ),
    {
    }

    /// Moves the amount from the balance of the sender to its retained
    /// amount and keeps the transfer as pending under `tx_hash`.
    pub fn execute(
        &self,
        schema: &mut Schema,
        author: &PublicKey,
        tx_hash: &crypto::Hash,
        hashes: &HistoryHashes,
    ) -> (result: Result<(), Error>)
        requires
            old(schema).wf(),
            self.fits(old(schema)@, author@),
        ensures
            final(schema).wf(),
            match self.error(old(schema)@, author@) {
                Some(e) => result == Err::<(), Error>(e) && *final(schema) == *old(schema),
                None => result.is_ok() && final(schema)@ == self.effect(
                    old(schema)@,
                    *tx_hash,
                    *hashes,
                ),
            },
    {
        match self.check(schema, author) {
            Some(error) => Err(error),
            None => {
                let sender = schema.wallet(&self.from).unwrap();
                schema.retain_amount_from_wallet_balance(
                    sender,
                    self.amount,
                    tx_hash,
                    *self,
                    hashes.debited,
                );
                Ok(())
            },
        }
    }

    /// Finds the error that the transaction would end in, and changes
    /// nothing.
    pub fn check(&self, schema: &Schema, author: &PublicKey) -> (error: Option<Error>)
        requires
            schema.wf(),
        ensures
            error == self.error(schema@, author@),
    {
        if !author.same(&self.from) {
            return Some(Error::WrongSender);
        }
        if author.same(&self.to) {
            return Some(Error::SenderIsReceiver);
        }
        if self.approver.same(author) {
            return Some(Error::ApproverIsSender);
        }
        if self.approver.same(&self.to) {
            return Some(Error::ApproverIsReceiver);
        }
        let sender = match schema.wallet(author) {
            Some(wallet) => wallet,
            None => {
                return Some(Error::SenderNotFound);
            },
        };
        if schema.wallet(&self.to).is_none() {
            return Some(Error::ReceiverNotFound);
        }
        if sender.balance < self.amount {
            return Some(Error::InsufficientCurrencyAmount);
        }
        None
    }

    /// Tells whether the amount fits into the retained amount of the sender.
    pub fn check_fits(&self, schema: &Schema, author: &PublicKey) -> (fits: bool)
        requires
            schema.wf(),
        ensures
            fits == self.fits(schema@, author@),
    {
        match self.check(schema, author) {
            Some(_) => true,
            None => {
                let sender = schema.wallet(&self.from).unwrap();
                sender.retained_amount <= u64::MAX - self.amount
            },
        }
    }
}

impl Approve {
    /// The error that the transaction ends in, if any: the first of the
    /// checks that fails decides.
    pub open spec fn error(self, s: SchemaView, author: Seq<u8>) -> Option<Error> {
        if !s.transfers.contains_key(self.transfer_tx_hash@) {
            Some(Error::TransferNotFound)
        } else {
            let transfer = s.transfers[self.transfer_tx_hash@];
            if author != transfer.approver@ {
                Some(Error::WrongApprover)
            } else if !s.wallets.contains_key(transfer.from@) {
                Some(Error::SenderNotFound)
            } else if !s.wallets.contains_key(transfer.to@) {
                Some(Error::ReceiverNotFound)
            } else if s.wallets[transfer.from@].retained_amount < transfer.amount {
                Some(Error::InsufficientCurrencyAmount)
            } else {
                None
            }
        }
    }

    /// Whether the amount fits into the balance of the receiver.
    pub open spec fn fits(self, s: SchemaView, author: Seq<u8>) -> bool {
        let transfer = s.transfers[self.transfer_tx_hash@];
        self.error(s, author).is_none() ==> s.wallets[transfer.to@].balance + transfer.amount
            <= u64::MAX
    }

    /// The ledger after a transaction without error.
    pub open spec fn effect(
        self,
        s: SchemaView,
        tx_hash: crypto::Hash,
        hashes: HistoryHashes,
    ) -> SchemaView {
        let transfer = s.transfers[self.transfer_tx_hash@];
        s.decrease_retained_amount(
            transfer.from@,
            transfer.amount,
            tx_hash,
            self.transfer_tx_hash@,
            hashes.debited@,
        ).increase_wallet_balance(transfer.to@, transfer.amount, tx_hash, hashes.credited@)
    }

    /// An approval without error takes the amount of the transfer from the
    /// retained amount of its sender and adds it to the balance of its
    /// receiver, and the transfer is pending no more: whoever approves it
    /// again ends in `TransferNotFound`.
    pub proof fn releases_once(
        self,
        s: SchemaView,
        author: Seq<u8>,
        tx_hash: crypto::Hash,
        hashes: HistoryHashes,
        again: Approve,
        other: Seq<u8>,
    )
        requires
            s.wf(),
            self.error(s, author).is_none(),
            self.fits(s, author),
            again.transfer_tx_hash@ == self.transfer_tx_hash@,
            s.wallets[s.transfers[self.transfer_tx_hash@].from@].history_len < u64::MAX,
            s.wallets[s.transfers[self.transfer_tx_hash@].to@].history_len < u64::MAX,
        ensures
            ({
                let after = self.effect(s, tx_hash, hashes);
                let transfer = s.transfers[self.transfer_tx_hash@];
                let from = transfer.from@;
                let to = transfer.to@;
                &&& after.wf()
                &&& after.wallets.dom() == s.wallets.dom()
                &&& after.wallets[from].retained_amount == s.wallets[from].retained_amount
                    - transfer.amount
                &&& after.wallets[from].balance == s.wallets[from].balance
                &&& after.wallets[to].balance == s.wallets[to].balance + transfer.amount
                &&& after.wallets[to].retained_amount == s.wallets[to].retained_amount
                &&& after.wallets[from].history_len == s.wallets[from].history_len + 1
                &&& after.wallets[to].history_len == s.wallets[to].history_len + 1
                &&& forall|k: Seq<u8>| k != from && k != to && #[trigger] s.wallets.contains_key(k)
                    ==> after.wallets[k] == s.wallets[k]
                &&& after.transfers == s.transfers.remove(self.transfer_tx_hash@)
                &&& again.error(after, other) == Some(Error::TransferNotFound)
            }),
    {
        let transfer = s.transfers[self.transfer_tx_hash@];
        let middle = s.decrease_retained_amount(
            transfer.from@,
            transfer.amount,
            tx_hash,
            self.transfer_tx_hash@,
            hashes.debited@,
        );
        let after = self.effect(s, tx_hash, hashes);
        assert(s.histories.dom().contains(transfer.from@));
        assert(s.histories.dom().contains(transfer.to@));
        assert(middle.wallets.dom() =~= s.wallets.dom());
        assert(middle.histories.dom() =~= s.wallets.dom());
        assert(after.wallets.dom() =~= s.wallets.dom());
        assert(after.histories.dom() =~= after.wallets.dom());
    }

    /// Releases the amount of the pending transfer from the retained amount
    /// of its sender to the balance of its receiver, and removes the
    /// transfer.
    pub fn execute(
        &self,
        schema: &mut Schema,
        author: &PublicKey,
        tx_hash: &crypto::Hash,
        hashes: &HistoryHashes,
    ) -> (result: Result<(), Error>)
        requires
            old(schema).wf(),
            self.fits(old(schema)@, author@),
        ensures
            final(schema).wf(),
            match self.error(old(schema)@, author@) {
                Some(e) => result == Err::<(), Error>(e) && *final(schema) == *old(schema),
                None => result.is_ok() && final(schema)@ == self.effect(
                    old(schema)@,
                    *tx_hash,
                    *hashes,
                ),
            },
    {
        match self.check(schema, author) {
            Some(error) => Err(error),
            None => {
                let transfer = schema.transfer(&self.transfer_tx_hash).unwrap();
                let sender = schema.wallet(&transfer.from).unwrap();
                let receiver = schema.wallet(&transfer.to).unwrap();
                schema.decrease_retained_amount(
                    sender,
                    transfer.amount,
                    tx_hash,
                    &self.transfer_tx_hash,
                    hashes.debited,
                );
                schema.increase_wallet_balance(
                    receiver,
                    transfer.amount,
                    tx_hash,
                    hashes.credited,
                );
                Ok(())
            },
        }
    }

    /// Finds the error that the transaction would end in, and changes
    /// nothing.
    pub fn check(&self, schema: &Schema, author: &PublicKey) -> (error: Option<Error>)
        requires
            schema.wf(),
        ensures
            error == self.error(schema@, author@),
    {
        let transfer = match schema.transfer(&self.transfer_tx_hash) {
            Some(transfer) => transfer,
            None => {
                return Some(Error::TransferNotFound);
            },
        };
        if !author.same(&transfer.approver) {
            return Some(Error::WrongApprover);
        }
        let sender = match schema.wallet(&transfer.from) {
            Some(wallet) => wallet,
            None => {
                return Some(Error::SenderNotFound);
            },
        };
        if schema.wallet(&transfer.to).is_none() {
            return Some(Error::ReceiverNotFound);
        }
        if sender.retained_amount < transfer.amount {
            return Some(Error::InsufficientCurrencyAmount);
        }
        None
    }

    /// Tells whether the amount fits into the balance of the receiver.
    pub fn check_fits(&self, schema: &Schema, author: &PublicKey) -> (fits: bool)
        requires
            schema.wf(),
        ensures
            fits == self.fits(schema@, author@),
    {
        match self.check(schema, author) {
            Some(_) => true,
            None => {
                let transfer = schema.transfer(&self.transfer_tx_hash).unwrap();
                let receiver = schema.wallet(&transfer.to).unwrap();
                receiver.balance <= u64::MAX - transfer.amount
            },
        }
    }
}

impl WalletTransactions {
    /// The error that the transaction ends in, if any.
    pub open spec fn error(self, s: SchemaView, author: Seq<u8>) -> Option<Error> {
        match self {
            WalletTransactions::Transfer(tx) => tx.error(s, author),
            WalletTransactions::Approve(tx) => tx.error(s, author),
            WalletTransactions::Issue(_) => Issue::error(s, author),
            WalletTransactions::CreateWallet(_) => CreateWallet::error(s, author),
        }
    }

    /// Whether every amount that the transaction adds to fits into 64 bits.
    pub open spec fn fits(self, s: SchemaView, author: Seq<u8>) -> bool {
        match self {
            WalletTransactions::Transfer(tx) => tx.fits(s, author),
            WalletTransactions::Approve(tx) => tx.fits(s, author),
            WalletTransactions::Issue(tx) => tx.fits(s, author),
            WalletTransactions::CreateWallet(_) => true,
        }
    }

    /// The ledger after a transaction without error.
    pub open spec fn effect(
        self,
        s: SchemaView,
        author: Seq<u8>,
        tx_hash: crypto::Hash,
        hashes: HistoryHashes,
    ) -> SchemaView {
        match self {
            WalletTransactions::Transfer(tx) => tx.effect(s, tx_hash, hashes),
            WalletTransactions::Approve(tx) => tx.effect(s, tx_hash, hashes),
            WalletTransactions::Issue(tx) => tx.effect(s, author, tx_hash, hashes),
            WalletTransactions::CreateWallet(tx) => tx.effect(s, author, tx_hash, hashes),
        }
    }

    /// Runs the transaction of `author` with the hash `tx_hash` on `schema`:
    /// either the whole of it takes effect, or the ledger stays as it was
    /// and the error says why.
    pub fn execute(
        &self,
        schema: &mut Schema,
        author: &PublicKey,
        tx_hash: &crypto::Hash,
        hashes: &HistoryHashes,
    ) -> (result: Result<(), Error>)
        requires
            old(schema).wf(),
            self.fits(old(schema)@, author@),
        ensures
            final(schema).wf(),
            match self.error(old(schema)@, author@) {
                Some(e) => result == Err::<(), Error>(e) && *final(schema) == *old(schema),
                None => result.is_ok() && final(schema)@ == self.effect(
                    old(schema)@,
                    author@,
                    *tx_hash,
                    *hashes,
                ),
            },
    {
        match self {
            WalletTransactions::Transfer(tx) => tx.execute(schema, author, tx_hash, hashes),
            WalletTransactions::Approve(tx) => tx.execute(schema, author, tx_hash, hashes),
            WalletTransactions::Issue(tx) => tx.execute(schema, author, tx_hash, hashes),
            WalletTransactions::CreateWallet(tx) => tx.execute(schema, author, tx_hash, hashes),
        }
    }

    /// Finds the error that the transaction would end in, and changes
    /// nothing.
    pub fn check(&self, schema: &Schema, author: &PublicKey) -> (error: Option<Error>)
        requires
            schema.wf(),
        ensures
            error == self.error(schema@, author@),
    {
        match self {
            WalletTransactions::Transfer(tx) => tx.check(schema, author),
            WalletTransactions::Approve(tx) => tx.check(schema, author),
            WalletTransactions::Issue(tx) => tx.check(schema, author),
            WalletTransactions::CreateWallet(tx) => tx.check(schema, author),
        }
    }

    /// Tells whether every amount that the transaction adds to fits into 64
    /// bits: what `execute` asks of its caller.
    pub fn check_fits(&self, schema: &Schema, author: &PublicKey) -> (fits: bool)
        requires
            schema.wf(),
        ensures
            fits == self.fits(schema@, author@),
    {
        match self {
            WalletTransactions::Transfer(tx) => tx.check_fits(schema, author),
            WalletTransactions::Approve(tx) => tx.check_fits(schema, author),
            WalletTransactions::Issue(tx) => tx.check_fits(schema, author),
            WalletTransactions::CreateWallet(_) => true,
        }
    }

    /// The key of the wallet that the transaction takes funds from, where it
    /// names one.
    pub open spec fn debited(self, s: SchemaView) -> Option<Seq<u8>> {
        match self {
            WalletTransactions::Transfer(tx) => Some(tx.from@),
            WalletTransactions::Approve(tx) => if s.transfers.contains_key(tx.transfer_tx_hash@) {
                Some(s.transfers[tx.transfer_tx_hash@].from@)
            } else {
                None
            },
            WalletTransactions::Issue(_) => None,
            WalletTransactions::CreateWallet(_) => None,
        }
    }

    /// The key of the wallet that the transaction gives funds to, where it
    /// names one.
    pub open spec fn credited(self, s: SchemaView, author: Seq<u8>) -> Option<Seq<u8>> {
        match self {
            WalletTransactions::Transfer(_) => None,
            WalletTransactions::Approve(tx) => if s.transfers.contains_key(tx.transfer_tx_hash@) {
                Some(s.transfers[tx.transfer_tx_hash@].to@)
            } else {
                None
            },
            WalletTransactions::Issue(_) => Some(author),
            WalletTransactions::CreateWallet(_) => Some(author),
        }
    }

    /// The history of the wallet of `key` with `tx_hash` appended; empty
    /// where no wallet is named.
    pub open spec fn history_after(
        s: SchemaView,
        key: Option<Seq<u8>>,
        tx_hash: crypto::Hash,
    ) -> Seq<crypto::Hash> {
        match key {
            Some(k) => s.history(k).push(tx_hash),
            None => Seq::empty(),
        }
    }

    /// The histories that the transaction would leave behind, for the caller
    /// to digest into the [`HistoryHashes`] that `execute` takes.
    pub fn histories(&self, schema: &Schema, author: &PublicKey, tx_hash: &crypto::Hash) -> (logs:
        Histories)
        requires
            schema.wf(),
        ensures
            logs.debited@ == Self::history_after(schema@, self.debited(schema@), *tx_hash),
            logs.credited@ == Self::history_after(
                schema@,
                self.credited(schema@, author@),
                *tx_hash,
            ),
    {
        match self {
            WalletTransactions::Transfer(tx) => Histories {
                debited: schema.extended_history(&tx.from, tx_hash),
                credited: Vec::new(),
            },
            WalletTransactions::Approve(tx) => match schema.transfer(&tx.transfer_tx_hash) {
                Some(transfer) => Histories {
                    debited: schema.extended_history(&transfer.from, tx_hash),
                    credited: schema.extended_history(&transfer.to, tx_hash),
                },
                None => Histories { debited: Vec::new(), credited: Vec::new() },
            },
            WalletTransactions::Issue(_) => Histories {
                debited: Vec::new(),
                credited: schema.extended_history(author, tx_hash),
            },
            WalletTransactions::CreateWallet(_) => Histories {
                debited: Vec::new(),
                credited: schema.extended_history(author, tx_hash),
            },
        }
    }

    /// A transaction without error leaves each wallet that it changes with
    /// the history that `histories` announced, one entry longer than before,
    /// and with the digest that the caller gave for it.
    pub proof fn records_history(
        self,
        s: SchemaView,
        author: Seq<u8>,
        tx_hash: crypto::Hash,
        hashes: HistoryHashes,
    )
        requires
            s.wf(),
            self.error(s, author).is_none(),
        ensures
            ({
                let after = self.effect(s, author, tx_hash, hashes);
                &&& match self.debited(s) {
                    Some(k) => after.histories[k] == Self::history_after(s, Some(k), tx_hash)
                        && after.wallets[k].history_hash == hashes.debited@,
                    None => true,
                }
                &&& match self.credited(s, author) {
                    Some(k) => after.histories[k] == Self::history_after(s, Some(k), tx_hash)
                        && after.wallets[k].history_hash == hashes.credited@,
                    None => true,
                }
            }),
    {
        match self {
            WalletTransactions::Approve(tx) => {
                let transfer = s.transfers[tx.transfer_tx_hash@];
                assert(transfer.from@ != transfer.to@);
                assert(s.wallets[transfer.from@].pub_key == transfer.from@);
                assert(s.wallets[transfer.to@].pub_key == transfer.to@);
            },
            WalletTransactions::Transfer(tx) => {
                assert(s.wallets[tx.from@].pub_key == tx.from@);
            },
            WalletTransactions::Issue(_) => {
                assert(s.wallets[author].pub_key == author);
            },
            WalletTransactions::CreateWallet(_) => {},
        }
    }
}

} // verus!
