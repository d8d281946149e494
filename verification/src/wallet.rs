//! The wallet record.

use vstd::prelude::*;
use vstd::bytes::{spec_u64_to_le_bytes, u64_to_le_bytes};
use vstd::utf8::encode_utf8;
use crate::crypto;
use crate::crypto::append_bytes;
use crate::crypto::PublicKey;

verus! {

/// Wallet information stored in the ledger.
#[derive(Debug)]
pub struct Wallet {
    /// `PublicKey` of the wallet.
    pub pub_key: PublicKey,
    /// Name of the wallet.
    pub name: String,
    /// Current balance of the wallet.
    pub balance: u64,
    /// The amount that is retained until a transfer is approved.
    pub retained_amount: u64,
    /// Length of the transactions history.
    pub history_len: u64,
    /// `Hash` of the transactions history.
    pub history_hash: crypto::Hash,
}

/// What a wallet holds, as mathematical values.
pub struct WalletView {
    pub pub_key: Seq<u8>,
    pub name: Seq<char>,
    pub balance: u64,
    pub retained_amount: u64,
    pub history_len: u64,
    pub history_hash: Seq<u8>,
}

impl WalletView {
    /// The bytes that stand for the wallet where it is digested: the key,
    /// then balance, retained amount and history length in eight bytes each,
    /// lowest byte first, then the digest of the history, then the name in
    /// UTF-8.
    pub open spec fn encoding(self) -> Seq<u8> {
        self.pub_key + spec_u64_to_le_bytes(self.balance) + spec_u64_to_le_bytes(
            self.retained_amount,
        ) + spec_u64_to_le_bytes(self.history_len) + self.history_hash + encode_utf8(self.name)
    }
}

impl View for Wallet {
    type V = WalletView;

    open spec fn view(&self) -> WalletView {
        WalletView {
            pub_key: self.pub_key@,
            name: self.name@,
            balance: self.balance,
            retained_amount: self.retained_amount,
            history_len: self.history_len,
            history_hash: self.history_hash@,
        }
    }
}

impl Clone for Wallet {
    fn clone(&self) -> (copy: Wallet)
        ensures
            copy == *self,
    {
        Wallet {
            pub_key: self.pub_key,
            name: self.name.clone(),
            balance: self.balance,
            retained_amount: self.retained_amount,
            history_len: self.history_len,
            history_hash: self.history_hash,
        }
    }
}

impl Wallet {
    /// Create new Wallet.
    pub fn new(
        pub_key: PublicKey,
        name: &str,
        balance: u64,
        retained_amount: u64,
        history_len: u64,
        history_hash: crypto::Hash,
    ) -> (wallet: Wallet)
        ensures
            wallet@ == (WalletView {
                pub_key: pub_key@,
                name: name@,
                balance,
                retained_amount,
                history_len,
                history_hash: history_hash@,
            }),
            wallet.pub_key == pub_key,
            wallet.history_hash == history_hash,
    {
        Wallet {
            pub_key,
            name: name.to_owned(),
            balance,
            retained_amount,
            history_len,
            history_hash,
        }
    }

    /// The bytes that stand for the wallet where it is digested.
    pub fn to_bytes(&self) -> (bytes: Vec<u8>)
        ensures
            bytes@ == self@.encoding(),
    {
        let mut bytes: Vec<u8> = Vec::new();
        append_bytes(&mut bytes, self.pub_key.bytes.as_slice());
        append_bytes(&mut bytes, u64_to_le_bytes(self.balance).as_slice());
        append_bytes(&mut bytes, u64_to_le_bytes(self.retained_amount).as_slice());
        append_bytes(&mut bytes, u64_to_le_bytes(self.history_len).as_slice());
        append_bytes(&mut bytes, self.history_hash.bytes.as_slice());
        append_bytes(&mut bytes, self.name.as_str().as_bytes());
        assert(bytes@ =~= self@.encoding());
        bytes
    }

    /// Returns this wallet with updated balance, one step further in its
    /// history.
    pub fn set_balance(self, balance: u64, history_hash: crypto::Hash) -> (wallet: Wallet)
        requires
            self.history_len < u64::MAX,
        ensures
            wallet == (Wallet {
                balance,
                history_len: (self.history_len + 1) as u64,
                history_hash,
                ..self
            }),
    {
        Wallet {
            pub_key: self.pub_key,
            name: self.name,
            balance,
            retained_amount: self.retained_amount,
            history_len: self.history_len + 1,
            history_hash,
        }
    }

    /// Returns this wallet with updated retained amount, one step further in
    /// its history.
    pub fn set_retained_amount(self, amount: u64, history_hash: crypto::Hash) -> (wallet: Wallet)
        requires
            self.history_len < u64::MAX,
        ensures
            wallet == (Wallet {
                retained_amount: amount,
                history_len: (self.history_len + 1) as u64,
                history_hash,
                ..self
            }),
    {
        Wallet {
            pub_key: self.pub_key,
            name: self.name,
            balance: self.balance,
            retained_amount: amount,
            history_len: self.history_len + 1,
            history_hash,
        }
    }

    /// Returns this wallet with updated balance and retained amount, one step
    /// further in its history.
    pub fn set_balance_and_retained_amount(
        self,
        balance: u64,
        retained_amount: u64,
        history_hash: crypto::Hash,
    ) -> (wallet: Wallet)
        requires
            self.history_len < u64::MAX,
        ensures
            wallet == (Wallet {
                balance,
                retained_amount,
                history_len: (self.history_len + 1) as u64,
                history_hash,
                ..self
            }),
    {
        Wallet {
            pub_key: self.pub_key,
            name: self.name,
            balance,
            retained_amount,
            history_len: self.history_len + 1,
            history_hash,
        }
    }
}

} // verus!
