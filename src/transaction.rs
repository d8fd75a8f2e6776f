use vstd::prelude::*;
use crate::address::{Account, Address};
use crate::crypto::{blake2b_256_of, TransactionId};
use crate::value::Value;

verus! {

/// A reference to an unspent output of an earlier transaction, with its value.
#[derive(Clone, Copy, Debug, PartialEq, Eq)]
pub struct UtxoPointer {
    pub transaction_id: TransactionId,
    pub output_index: u8,
    pub value: Value,
}

impl UtxoPointer {
    pub fn new(tx_id: TransactionId, output_index: u8, value: u64) -> (r: UtxoPointer)
        ensures
            r == (UtxoPointer { transaction_id: tx_id, output_index, value: Value(value) }),
    {
        UtxoPointer { transaction_id: tx_id, output_index, value: Value(value) }
    }
}

/// What a transaction spends.
#[derive(Clone, Copy, Debug, PartialEq, Eq)]
pub enum Input {
    Utxo(UtxoPointer),
    Account(Account, Value),
}

impl Input {
    pub open spec fn value_of(self) -> nat {
        match self {
            Input::Utxo(p) => p.value.0 as nat,
            Input::Account(_, v) => v.0 as nat,
        }
    }

    pub fn from_utxo(utxo_pointer: &UtxoPointer) -> (r: Input)
        ensures
            r == Input::Utxo(*utxo_pointer),
    {
        Input::Utxo(*utxo_pointer)
    }

    pub fn from_account(account: &Account, v: u64) -> (r: Input)
        ensures
            r == Input::Account(*account, Value(v)),
    {
        Input::Account(*account, Value(v))
    }

    pub fn value(&self) -> (r: u64)
        ensures
            r == self.value_of(),
    {
        match self {
            Input::Utxo(p) => p.value.0,
            Input::Account(_, v) => v.0,
        }
    }
}

/// A payment of `value` to `address`.
#[derive(Clone, Copy, Debug, PartialEq, Eq)]
pub struct Output {
    pub address: Address,
    pub value: Value,
}

/// A non-transfer ledger action, carried as its encoded bytes.
#[derive(Debug, PartialEq, Eq)]
pub struct Certificate(pub Vec<u8>);

/// The sum of the inputs' values.
pub open spec fn total_input(s: Seq<Input>) -> nat
    decreases s.len(),
{
    if s.len() == 0 {
        0
    } else {
        total_input(s.drop_last()) + s.last().value_of()
    }
}

/// The sum of the outputs' values.
pub open spec fn total_output(s: Seq<Output>) -> nat
    decreases s.len(),
{
    if s.len() == 0 {
        0
    } else {
        total_output(s.drop_last()) + s.last().value.0 as nat
    }
}

/// A prefix never brings more than the whole.
pub proof fn lemma_total_input_prefix(s: Seq<Input>, i: int)
    requires
        0 <= i <= s.len(),
    ensures
        total_input(s.take(i)) <= total_input(s),
    decreases s.len(),
{
    if i < s.len() {
        assert(s.drop_last().take(i) =~= s.take(i));
        lemma_total_input_prefix(s.drop_last(), i);
    } else {
        assert(s.take(i) =~= s);
    }
}

/// A prefix never pays more than the whole.
pub proof fn lemma_total_output_prefix(s: Seq<Output>, i: int)
    requires
        0 <= i <= s.len(),
    ensures
        total_output(s.take(i)) <= total_output(s),
    decreases s.len(),
{
    if i < s.len() {
        assert(s.drop_last().take(i) =~= s.take(i));
        lemma_total_output_prefix(s.drop_last(), i);
    } else {
        assert(s.take(i) =~= s);
    }
}

/// Sums the inputs' values; `None` when the sum does not fit in 64 bits.
pub fn sum_inputs(inputs: &Vec<Input>) -> (r: Option<u64>)
    ensures
        total_input(inputs@) <= u64::MAX ==> r == Some(total_input(inputs@) as u64),
        total_input(inputs@) > u64::MAX ==> r.is_none(),
{
    let mut acc: u64 = 0;
    let mut i: usize = 0;
    while i < inputs.len()
        invariant
            0 <= i <= inputs@.len(),
            acc == total_input(inputs@.take(i as int)),
        decreases inputs@.len() - i,
    {
        assert(inputs@.take(i + 1).drop_last() =~= inputs@.take(i as int));
        match acc.checked_add(inputs[i].value()) {
            Some(v) => acc = v,
            None => {
                proof {
                    lemma_total_input_prefix(inputs@, i + 1);
                }
                return None;
            },
        }
        i += 1;
    }
    assert(inputs@.take(i as int) =~= inputs@);
    Some(acc)
}

/// Sums the outputs' values; `None` when the sum does not fit in 64 bits.
pub fn sum_outputs(outputs: &Vec<Output>) -> (r: Option<u64>)
    ensures
        total_output(outputs@) <= u64::MAX ==> r == Some(total_output(outputs@) as u64),
        total_output(outputs@) > u64::MAX ==> r.is_none(),
{
    let mut acc: u64 = 0;
    let mut i: usize = 0;
    while i < outputs.len()
        invariant
            0 <= i <= outputs@.len(),
            acc == total_output(outputs@.take(i as int)),
        decreases outputs@.len() - i,
    {
        assert(outputs@.take(i + 1).drop_last() =~= outputs@.take(i as int));
        match acc.checked_add(outputs[i].value.0) {
            Some(v) => acc = v,
            None => {
                proof {
                    lemma_total_output_prefix(outputs@, i + 1);
                }
                return None;
            },
        }
        i += 1;
    }
    assert(outputs@.take(i as int) =~= outputs@);
    Some(acc)
}

} // verus!

verus! {

/// An immutable transaction body: inputs, outputs and at most one certificate.
#[derive(Debug, PartialEq, Eq)]
pub struct Transaction {
    pub inputs: Vec<Input>,
    pub outputs: Vec<Output>,
    pub certificate: Option<Certificate>,
}

/// The content of a transaction body.
pub struct TransactionView {
    pub inputs: Seq<Input>,
    pub outputs: Seq<Output>,
    pub certificate: Option<Seq<u8>>,
}

pub open spec fn certificate_view(c: Option<Certificate>) -> Option<Seq<u8>> {
    match c {
        Some(c) => Some(c.0@),
        None => None,
    }
}

impl View for Transaction {
    type V = TransactionView;

    open spec fn view(&self) -> TransactionView {
        TransactionView {
            inputs: self.inputs@,
            outputs: self.outputs@,
            certificate: certificate_view(self.certificate),
        }
    }
}

} // verus!

verus! {

/// The identifier of a body: the digest of its canonical encoding.
pub open spec fn tx_id_of(t: TransactionView) -> Seq<u8> {
    blake2b_256_of(crate::codec::enc_body(t))
}

impl Transaction {
    /// The transaction's identifier, which depends on its content alone.
    pub fn id(&self) -> (r: TransactionId)
        ensures
            r.0@ == tx_id_of(self@),
    {
        let mut bytes: Vec<u8> = Vec::new();
        crate::codec::push_body(&mut bytes, self);
        assert(bytes@ =~= crate::codec::enc_body(self@));
        TransactionId::from_bytes(bytes.as_slice())
    }
}

} // verus!
