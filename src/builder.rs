use vstd::prelude::*;
use crate::address::Address;
use crate::error::TxError;
use crate::fee::{fee_amount, Fee};
use crate::transaction::{
    sum_inputs, sum_outputs, total_input, total_output, Certificate, Input, Output, Transaction,
    TransactionView,
};
use crate::value::{balance_between, balance_of, Balance, Value};

verus! {

/// What becomes of the value that the inputs bring beyond the outputs and the fee.
#[derive(Clone, Copy, Debug, PartialEq, Eq)]
pub enum OutputPolicy {
    /// The surplus is left to the ledger.
    Forget,
    /// The surplus is paid to this address in one more output.
    One(Address),
}

impl OutputPolicy {
    pub fn forget() -> (r: OutputPolicy)
        ensures
            r == OutputPolicy::Forget,
    {
        OutputPolicy::Forget
    }

    pub fn one(address: Address) -> (r: OutputPolicy)
        ensures
            r == OutputPolicy::One(address),
    {
        OutputPolicy::One(address)
    }
}

/// The balance of a draft against a fee: an overflow error when the fee, the
/// input sum, the output sum, or outputs plus fee do not fit in 64 bits.
pub open spec fn balance_spec(t: TransactionView, fee: int) -> Result<Balance, TxError> {
    if fee > u64::MAX || total_input(t.inputs) > u64::MAX || total_output(t.outputs) > u64::MAX
        || total_output(t.outputs) + fee > u64::MAX {
        Err(TxError::ValueOverflow)
    } else {
        Ok(balance_of(total_input(t.inputs) as int, total_output(t.outputs) + fee))
    }
}

/// The fee that `fee` asks of a draft.
pub open spec fn draft_fee(t: TransactionView, fee: Fee) -> int {
    fee_amount(fee, t.certificate.is_some())
}

/// The body that finalizing a draft yields, or why it fails.
pub open spec fn finalize_spec(t: TransactionView, fee: Fee, policy: OutputPolicy) -> Result<
    TransactionView,
    TxError,
> {
    match balance_spec(t, draft_fee(t, fee)) {
        Err(e) => Err(e),
        Ok(Balance::Negative(_)) => Err(TxError::InsufficientFunds),
        Ok(Balance::Zero) => Ok(t),
        Ok(Balance::Positive(s)) => match policy {
            OutputPolicy::Forget => Ok(t),
            OutputPolicy::One(address) => Ok(
                TransactionView {
                    outputs: t.outputs.push(Output { address, value: s }),
                    ..t
                },
            ),
        },
    }
}


/// On a draft whose sums and fee fit in 64 bits, the balance is a surplus of
/// `s` exactly when the inputs equal the outputs plus the fee plus `s`, and
/// `s` is positive.
pub proof fn lemma_positive_balance(t: TransactionView, fee: Fee, s: u64)
    requires
        draft_fee(t, fee) <= u64::MAX,
        total_input(t.inputs) <= u64::MAX,
        total_output(t.outputs) + draft_fee(t, fee) <= u64::MAX,
    ensures
        balance_spec(t, draft_fee(t, fee)) == Ok::<Balance, TxError>(Balance::Positive(Value(s)))
            <==> (total_input(t.inputs) == total_output(t.outputs) + draft_fee(t, fee) + s && s
            > 0),
{
}

/// Finalizing with a change address on a surplus of `s` appends exactly one
/// output, paying `s` to that address, after all the others.
pub proof fn lemma_change_output(t: TransactionView, fee: Fee, address: Address, s: u64)
    requires
        balance_spec(t, draft_fee(t, fee)) == Ok::<Balance, TxError>(Balance::Positive(Value(s))),
    ensures
        finalize_spec(t, fee, OutputPolicy::One(address)) matches Ok(v) && v.inputs == t.inputs
            && v.certificate == t.certificate && v.outputs.len() == t.outputs.len() + 1
            && v.outputs.take(t.outputs.len() as int) == t.outputs && v.outputs[t.outputs.len() as int]
            == (Output { address, value: Value(s) }),
{
    let v = finalize_spec(t, fee, OutputPolicy::One(address))->Ok_0;
    assert(v.outputs.take(t.outputs.len() as int) =~= t.outputs);
}

/// Finalizing with the forgetting policy never adds an output: the body is
/// the draft itself.
pub proof fn lemma_forget_adds_nothing(t: TransactionView, fee: Fee)
    ensures
        finalize_spec(t, fee, OutputPolicy::Forget) is Ok ==> finalize_spec(
            t,
            fee,
            OutputPolicy::Forget,
        )->Ok_0 == t,
{
}

/// Finalizing a draft whose balance is negative fails for want of funds,
/// whatever the policy.
pub proof fn lemma_negative_balance_fails(t: TransactionView, fee: Fee, policy: OutputPolicy)
    requires
        balance_spec(t, draft_fee(t, fee)) matches Ok(Balance::Negative(_)),
    ensures
        finalize_spec(t, fee, policy) == Err::<TransactionView, TxError>(TxError::InsufficientFunds),
{
}

/// A draft transaction that accumulates inputs, outputs and a certificate.
pub struct TransactionBuilder {
    tx: Transaction,
}

impl View for TransactionBuilder {
    type V = TransactionView;

    closed spec fn view(&self) -> TransactionView {
        self.tx@
    }
}

impl TransactionBuilder {
    pub fn new() -> (r: TransactionBuilder)
        ensures
            r@.inputs.len() == 0,
            r@.outputs.len() == 0,
            r@.certificate.is_none(),
    {
        TransactionBuilder {
            tx: Transaction { inputs: Vec::new(), outputs: Vec::new(), certificate: None },
        }
    }

    /// Attaches a certificate; a draft carries at most one.
    pub fn set_sertificate(&mut self, certificate: Certificate) -> (r: Result<(), TxError>)
        ensures
            old(self)@.certificate.is_some() ==> r == Err::<(), TxError>(
                TxError::CertificateAlreadySet,
            ) && final(self)@ == old(self)@,
            old(self)@.certificate.is_none() ==> r == Ok::<(), TxError>(()) && final(self)@ == (
            TransactionView { certificate: Some(certificate.0@), ..old(self)@ }),
    {
        if self.tx.certificate.is_some() {
            return Err(TxError::CertificateAlreadySet);
        }
        self.tx.certificate = Some(certificate);
        Ok(())
    }

    /// Appends an input.
    pub fn add_input(&mut self, input: Input)
        ensures
            final(self)@ == (TransactionView { inputs: old(self)@.inputs.push(input), ..old(self)@ }),
    {
        self.tx.inputs.push(input);
    }

    /// Appends an output paying `value` to `address`.
    pub fn add_output(&mut self, address: Address, value: Value)
        ensures
            final(self)@ == (TransactionView {
                outputs: old(self)@.outputs.push(Output { address, value }),
                ..old(self)@
            }),
    {
        self.tx.outputs.push(Output { address, value });
    }

    /// The fee that the model asks of the draft as it stands.
    pub fn estimate_fee(&self, fee: &Fee) -> (r: Result<Value, TxError>)
        ensures
            draft_fee(self@, *fee) <= u64::MAX ==> r == Ok::<Value, TxError>(
                Value(draft_fee(self@, *fee) as u64),
            ),
            draft_fee(self@, *fee) > u64::MAX ==> r == Err::<Value, TxError>(
                TxError::ValueOverflow,
            ),
    {
        match fee.calculate(self.tx.certificate.is_some()) {
            Some(v) => Ok(Value(v)),
            None => Err(TxError::ValueOverflow),
        }
    }

    fn balance_with(&self, fee: u64) -> (r: Result<Balance, TxError>)
        ensures
            r == balance_spec(self@, fee as int),
    {
        let inputs = match sum_inputs(&self.tx.inputs) {
            Some(v) => v,
            None => return Err(TxError::ValueOverflow),
        };
        let outputs = match sum_outputs(&self.tx.outputs) {
            Some(v) => v,
            None => return Err(TxError::ValueOverflow),
        };
        balance_between(inputs, outputs, fee)
    }

    /// Inputs against outputs plus the fee.
    pub fn get_balance(&self, fee: &Fee) -> (r: Result<Balance, TxError>)
        ensures
            r == balance_spec(self@, draft_fee(self@, *fee)),
    {
        match fee.calculate(self.tx.certificate.is_some()) {
            Some(v) => self.balance_with(v),
            None => Err(TxError::ValueOverflow),
        }
    }

    /// Inputs against outputs, with no fee.
    pub fn get_balance_without_fee(&self) -> (r: Result<Balance, TxError>)
        ensures
            r == balance_spec(self@, 0),
    {
        self.balance_with(0)
    }

    /// The draft as it stands, with no check of its balance: the caller
    /// answers for the inputs covering the outputs and the fee.
    pub fn unchecked_finalize(self) -> (r: Transaction)
        ensures
            r@ == self@,
    {
        self.tx
    }

    /// Checks the balance against the fee and settles the surplus by the policy.
    pub fn finalize(self, fee: &Fee, output_policy: OutputPolicy) -> (r: Result<
        Transaction,
        TxError,
    >)
        ensures
            match finalize_spec(self@, *fee, output_policy) {
                Ok(v) => r matches Ok(t) && t@ == v,
                Err(e) => r == Err::<Transaction, TxError>(e),
            },
    {
        let balance = match self.get_balance(fee) {
            Ok(b) => b,
            Err(e) => return Err(e),
        };
        match balance {
            Balance::Negative(_) => Err(TxError::InsufficientFunds),
            Balance::Zero => Ok(self.tx),
            Balance::Positive(surplus) => match output_policy {
                OutputPolicy::Forget => Ok(self.tx),
                OutputPolicy::One(address) => {
                    let mut tx = self.tx;
                    tx.outputs.push(Output { address, value: surplus });
                    Ok(tx)
                },
            },
        }
    }
}

} // verus!
