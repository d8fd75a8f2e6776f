use vstd::prelude::*;
use crate::crypto::TransactionId;
use crate::error::TxError;
use crate::transaction::{tx_id_of, Input, Transaction, TransactionView};
use crate::witness::Witness;

verus! {

/// A transaction with one witness for each input.
#[derive(Debug, PartialEq, Eq)]
pub struct GeneratedTransaction {
    pub transaction: Transaction,
    pub witnesses: Vec<Witness>,
}

pub struct GeneratedView {
    pub tx: TransactionView,
    pub witnesses: Seq<Witness>,
}

impl View for GeneratedTransaction {
    type V = GeneratedView;

    open spec fn view(&self) -> GeneratedView {
        GeneratedView { tx: self.transaction@, witnesses: self.witnesses@ }
    }
}

/// A finalized body and the witnesses given so far, one slot per input.
pub struct FinalizerView {
    pub tx: TransactionView,
    pub witnesses: Seq<Option<Witness>>,
}

/// Whether a witness is of the kind that the input asks for.
pub open spec fn witness_fits(input: Input, witness: Witness) -> bool {
    match (input, witness) {
        (Input::Utxo(_), Witness::Utxo(_)) => true,
        (Input::Account(_, _), Witness::Account(_)) => true,
        _ => false,
    }
}

/// The outcome of giving `witness` for input `index`.
pub open spec fn set_witness_result(f: FinalizerView, index: int, witness: Witness) -> Result<
    (),
    TxError,
> {
    if !(0 <= index < f.tx.inputs.len()) {
        Err(TxError::WitnessIndexOutOfRange)
    } else if !witness_fits(f.tx.inputs[index], witness) {
        Err(TxError::WitnessKindMismatch)
    } else {
        Ok(())
    }
}

/// The state after giving `witness` for input `index`: the slot is
/// overwritten when the witness is accepted, and nothing changes otherwise.
pub open spec fn set_witness_spec(f: FinalizerView, index: int, witness: Witness) -> FinalizerView {
    if set_witness_result(f, index, witness) is Ok {
        FinalizerView { witnesses: f.witnesses.update(index, Some(witness)), ..f }
    } else {
        f
    }
}

/// Whether every input has a witness.
pub open spec fn all_witnessed(f: FinalizerView) -> bool {
    forall|i: int| 0 <= i < f.witnesses.len() ==> (#[trigger] f.witnesses[i]).is_some()
}

/// What building yields: the body with its witnesses, or the missing-witness error.
pub open spec fn build_spec(f: FinalizerView) -> Result<GeneratedView, TxError> {
    if all_witnessed(f) {
        Ok(
            GeneratedView {
                tx: f.tx,
                witnesses: Seq::new(f.witnesses.len(), |i: int| f.witnesses[i].unwrap()),
            },
        )
    } else {
        Err(TxError::MissingWitness)
    }
}

/// Giving a witness, accepted or not, leaves the identifier unchanged.
pub proof fn lemma_txid_ignores_witnesses(f: FinalizerView, index: int, witness: Witness)
    ensures
        tx_id_of(set_witness_spec(f, index, witness).tx) == tx_id_of(f.tx),
{
}

/// Building fails exactly when some input has no witness.
pub proof fn lemma_build_fails_iff_missing(f: FinalizerView)
    ensures
        build_spec(f) is Err <==> exists|i: int|
            0 <= i < f.witnesses.len() && (#[trigger] f.witnesses[i]).is_none(),
{
}

/// Once every input has a witness, building succeeds and stays successful
/// when a witness is given again; giving the same witness twice is the same
/// as giving it once.
pub proof fn lemma_build_stable(f: FinalizerView, index: int, witness: Witness)
    requires
        f.witnesses.len() == f.tx.inputs.len(),
        all_witnessed(f),
    ensures
        build_spec(f) is Ok,
        build_spec(set_witness_spec(f, index, witness)) is Ok,
        set_witness_spec(set_witness_spec(f, index, witness), index, witness) == set_witness_spec(
            f,
            index,
            witness,
        ),
{
    let g = set_witness_spec(f, index, witness);
    assert(all_witnessed(g));
    if set_witness_result(f, index, witness) is Ok {
        assert(g.witnesses.update(index, Some(witness)) =~= g.witnesses);
    }
}

/// Collects one witness for each input of a finalized transaction.
pub struct TransactionFinalizer {
    tx: Transaction,
    witnesses: Vec<Option<Witness>>,
}

impl View for TransactionFinalizer {
    type V = FinalizerView;

    closed spec fn view(&self) -> FinalizerView {
        FinalizerView { tx: self.tx@, witnesses: self.witnesses@ }
    }
}

impl TransactionFinalizer {
    /// Whether there is one witness slot per input.
    pub closed spec fn wf(&self) -> bool {
        self.witnesses@.len() == self.tx.inputs@.len()
    }

    /// A finalizer with every slot empty.
    pub fn new(transaction: Transaction) -> (r: TransactionFinalizer)
        ensures
            r.wf(),
            r@.tx == transaction@,
            r@.witnesses.len() == transaction@.inputs.len(),
            forall|i: int| 0 <= i < r@.witnesses.len() ==> (#[trigger] r@.witnesses[i]).is_none(),
    {
        let mut witnesses: Vec<Option<Witness>> = Vec::new();
        let n = transaction.inputs.len();
        let mut i: usize = 0;
        while i < n
            invariant
                0 <= i <= n,
                witnesses@.len() == i,
                forall|j: int| 0 <= j < i ==> (#[trigger] witnesses@[j]).is_none(),
            decreases n - i,
        {
            witnesses.push(None);
            i += 1;
        }
        TransactionFinalizer { tx: transaction, witnesses }
    }

    /// Gives the witness for input `index`, replacing any given before.
    pub fn set_witness(&mut self, index: usize, witness: Witness) -> (r: Result<(), TxError>)
        requires
            old(self).wf(),
        ensures
            final(self).wf(),
            r == set_witness_result(old(self)@, index as int, witness),
            final(self)@ == set_witness_spec(old(self)@, index as int, witness),
    {
        if index >= self.tx.inputs.len() {
            return Err(TxError::WitnessIndexOutOfRange);
        }
        let fits = match (&self.tx.inputs[index], &witness) {
            (Input::Utxo(_), Witness::Utxo(_)) => true,
            (Input::Account(_, _), Witness::Account(_)) => true,
            _ => false,
        };
        if !fits {
            return Err(TxError::WitnessKindMismatch);
        }
        self.witnesses.set(index, Some(witness));
        Ok(())
    }

    /// The identifier of the body, which no witness affects.
    pub fn get_txid(&self) -> (r: TransactionId)
        ensures
            r.0@ == tx_id_of(self@.tx),
    {
        self.tx.id()
    }

    /// The witnessed transaction, once every input has its witness.
    pub fn build(self) -> (r: Result<GeneratedTransaction, TxError>)
        requires
            self.wf(),
        ensures
            match build_spec(self@) {
                Ok(g) => r matches Ok(t) && t@ == g,
                Err(e) => r == Err::<GeneratedTransaction, TxError>(e),
            },
    {
        let mut witnesses: Vec<Witness> = Vec::new();
        let mut i: usize = 0;
        while i < self.witnesses.len()
            invariant
                0 <= i <= self.witnesses@.len(),
                witnesses@.len() == i,
                forall|j: int| 0 <= j < i ==> (#[trigger] self.witnesses@[j]) == Some(witnesses@[j]),
            decreases self.witnesses@.len() - i,
        {
            match self.witnesses[i] {
                Some(w) => witnesses.push(w),
                None => {
                    assert(!all_witnessed(self@));
                    return Err(TxError::MissingWitness);
                },
            }
            i += 1;
        }
        let r = GeneratedTransaction { transaction: self.tx, witnesses };
        assert(r@.witnesses =~= Seq::new(
            self@.witnesses.len(),
            |i: int| self@.witnesses[i].unwrap(),
        ));
        Ok(r)
    }
}

} // verus!
