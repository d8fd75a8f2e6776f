use vstd::prelude::*;
use crate::crypto::{signature_of, PrivateKey, TransactionId};

verus! {

/// A per-account counter that the caller advances to keep witnesses from being replayed.
#[derive(Clone, Copy, Debug, PartialEq, Eq, Structural)]
pub struct SpendingCounter(pub u32);

impl SpendingCounter {
    pub fn zero() -> (r: SpendingCounter)
        ensures
            r.0 == 0,
    {
        SpendingCounter(0)
    }

    pub fn from_u32(counter: u32) -> (r: SpendingCounter)
        ensures
            r.0 == counter,
    {
        SpendingCounter(counter)
    }
}

/// The proof that an input may be spent: a signature, tagged by the kind of input.
#[derive(Clone, Copy, Debug, PartialEq, Eq)]
pub enum Witness {
    Utxo([u8; 64]),
    Account([u8; 64]),
}

/// A 32-bit integer as four bytes, most significant first.
pub open spec fn enc_u32(v: u32) -> Seq<u8> {
    seq![(v >> 24u32) as u8, (v >> 16u32) as u8, (v >> 8u32) as u8, v as u8]
}

/// What an unspent-output witness signs.
pub open spec fn utxo_message(genesis: crate::crypto::Hash, id: TransactionId) -> Seq<u8> {
    genesis.0@ + id.0@
}

/// What an account witness signs.
pub open spec fn account_message(genesis: crate::crypto::Hash, id: TransactionId, counter: SpendingCounter) -> Seq<u8> {
    genesis.0@ + id.0@ + enc_u32(counter.0)
}

impl Witness {
    pub fn for_utxo(genesis_hash: crate::crypto::Hash, transaction_id: TransactionId, secret_key: PrivateKey) -> (r:
        Witness)
        ensures
            r matches Witness::Utxo(sig) && sig@ == signature_of(
                secret_key,
                utxo_message(genesis_hash, transaction_id),
            ),
    {
        let mut message: Vec<u8> = Vec::new();
        crate::codec::push_bytes(&mut message, genesis_hash.0.as_slice());
        crate::codec::push_bytes(&mut message, transaction_id.0.as_slice());
        Witness::Utxo(secret_key.sign(message.as_slice()))
    }

    pub fn for_account(
        genesis_hash: crate::crypto::Hash,
        transaction_id: TransactionId,
        secret_key: PrivateKey,
        account_spending_counter: SpendingCounter,
    ) -> (r: Witness)
        ensures
            r matches Witness::Account(sig) && sig@ == signature_of(
                secret_key,
                account_message(genesis_hash, transaction_id, account_spending_counter),
            ),
    {
        let mut message: Vec<u8> = Vec::new();
        crate::codec::push_bytes(&mut message, genesis_hash.0.as_slice());
        crate::codec::push_bytes(&mut message, transaction_id.0.as_slice());
        let c = account_spending_counter.0;
        message.push((c >> 24u32) as u8);
        message.push((c >> 16u32) as u8);
        message.push((c >> 8u32) as u8);
        message.push(c as u8);
        assert(message@ =~= account_message(genesis_hash, transaction_id, account_spending_counter));
        Witness::Account(secret_key.sign(message.as_slice()))
    }
}

} // verus!
