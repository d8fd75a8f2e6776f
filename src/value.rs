use vstd::prelude::*;

verus! {

/// A non-negative amount.
#[derive(Clone, Copy, Debug, PartialEq, Eq, Structural)]
pub struct Value(pub u64);

impl Value {
    pub fn from_u64(number: u64) -> (r: Value)
        ensures
            r.0 == number,
    {
        Value(number)
    }
}

/// The difference between what the inputs bring and what the outputs plus
/// the fee take.
#[derive(Clone, Copy, Debug, PartialEq, Eq, Structural)]
pub enum Balance {
    Positive(Value),
    Negative(Value),
    Zero,
}

/// The sign of a balance.
#[derive(Clone, Copy, Debug, PartialEq, Eq, Structural)]
pub enum BalanceSign {
    Positive,
    Negative,
    Zero,
}

/// The balance of `inputs` against `spent`, as a sign and a magnitude.
pub open spec fn balance_of(inputs: int, spent: int) -> Balance {
    if inputs > spent {
        Balance::Positive(Value((inputs - spent) as u64))
    } else if inputs < spent {
        Balance::Negative(Value((spent - inputs) as u64))
    } else {
        Balance::Zero
    }
}

/// The balance as a signed integer.
pub open spec fn balance_amount(b: Balance) -> int {
    match b {
        Balance::Positive(v) => v.0 as int,
        Balance::Negative(v) => -(v.0 as int),
        Balance::Zero => 0,
    }
}

/// Compares `inputs` against `outputs + fee`; fails when that sum overflows.
pub fn balance_between(inputs: u64, outputs: u64, fee: u64) -> (r: Result<Balance, crate::TxError>)
    ensures
        outputs + fee > u64::MAX ==> r == Err::<Balance, crate::TxError>(crate::TxError::ValueOverflow),
        outputs + fee <= u64::MAX ==> r == Ok::<Balance, crate::TxError>(balance_of(inputs as int, outputs + fee)),
{
    match outputs.checked_add(fee) {
        None => Err(crate::TxError::ValueOverflow),
        Some(spent) => {
            if inputs > spent {
                Ok(Balance::Positive(Value(inputs - spent)))
            } else if inputs < spent {
                Ok(Balance::Negative(Value(spent - inputs)))
            } else {
                Ok(Balance::Zero)
            }
        },
    }
}

impl Balance {
    pub fn get_sign(&self) -> (r: BalanceSign)
        ensures
            r == (match *self {
                Balance::Positive(_) => BalanceSign::Positive,
                Balance::Negative(_) => BalanceSign::Negative,
                Balance::Zero => BalanceSign::Zero,
            }),
    {
        match self {
            Balance::Positive(_) => BalanceSign::Positive,
            Balance::Negative(_) => BalanceSign::Negative,
            Balance::Zero => BalanceSign::Zero,
        }
    }

    /// The magnitude of the balance; zero for `Zero`.
    pub fn get_value(&self) -> (r: Value)
        ensures
            r == (match *self {
                Balance::Positive(v) => v,
                Balance::Negative(v) => v,
                Balance::Zero => Value(0),
            }),
    {
        match self {
            Balance::Positive(v) => *v,
            Balance::Negative(v) => *v,
            Balance::Zero => Value(0),
        }
    }
}

} // verus!
