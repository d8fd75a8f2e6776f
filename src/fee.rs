use vstd::prelude::*;

verus! {

/// A fee of `constant + coefficient * size`, plus `certificate` when the
/// transaction carries a certificate. Every draft counts as one size unit,
/// so the fee depends on the draft's shape only through the certificate.
#[derive(Clone, Copy, Debug, PartialEq, Eq, Structural)]
pub struct LinearFee {
    pub constant: u64,
    pub coefficient: u64,
    pub certificate: u64,
}

/// The fee algorithms that can price a transaction.
#[derive(Clone, Copy, Debug, PartialEq, Eq, Structural)]
pub enum FeeVariant {
    Linear(LinearFee),
}

/// A fee model.
#[derive(Clone, Copy, Debug, PartialEq, Eq, Structural)]
pub struct Fee(pub FeeVariant);

/// The size units that a linear fee charges its coefficient for.
pub const SIZE_UNITS: u64 = 1;

/// The fee, as an unbounded integer, that `fee` asks of a draft that does or
/// does not carry a certificate.
pub open spec fn fee_amount(fee: Fee, has_certificate: bool) -> int {
    match fee.0 {
        FeeVariant::Linear(l) => l.constant + l.coefficient * SIZE_UNITS + if has_certificate {
            l.certificate as int
        } else {
            0int
        },
    }
}

impl Fee {
    pub fn linear_fee(constant: u64, coefficient: u64, certificate: u64) -> (r: Fee)
        ensures
            r == Fee(FeeVariant::Linear(LinearFee { constant, coefficient, certificate })),
    {
        Fee(FeeVariant::Linear(LinearFee { constant, coefficient, certificate }))
    }

    /// The fee for a draft; `None` when it does not fit in 64 bits.
    pub fn calculate(&self, has_certificate: bool) -> (r: Option<u64>)
        ensures
            fee_amount(*self, has_certificate) <= u64::MAX ==> r == Some(
                fee_amount(*self, has_certificate) as u64,
            ),
            fee_amount(*self, has_certificate) > u64::MAX ==> r.is_none(),
    {
        match self.0 {
            FeeVariant::Linear(l) => {
                let sized = match l.coefficient.checked_mul(SIZE_UNITS) {
                    Some(v) => v,
                    None => return None,
                };
                let base = match l.constant.checked_add(sized) {
                    Some(v) => v,
                    None => return None,
                };
                if has_certificate {
                    base.checked_add(l.certificate)
                } else {
                    Some(base)
                }
            },
        }
    }
}

} // verus!
