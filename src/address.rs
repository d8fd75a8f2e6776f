use vstd::prelude::*;
use crate::error::TxError;

verus! {

/// Which network an address belongs to.
#[derive(Clone, Copy, Debug, PartialEq, Eq, Structural)]
pub enum Discrimination {
    Production,
    Test,
}

/// What an address pays to.
#[derive(Clone, Copy, Debug, PartialEq, Eq)]
pub enum AddressKind {
    /// An unspent output owned by one key.
    Single([u8; 32]),
    /// An unspent output owned by a spending key and delegated by a group key.
    Group([u8; 32], [u8; 32]),
    /// An account, named by its public key.
    Account([u8; 32]),
}

/// A destination of value.
#[derive(Clone, Copy, Debug, PartialEq, Eq)]
pub struct Address {
    pub discrimination: Discrimination,
    pub kind: AddressKind,
}

/// The identifier of an account: its public key.
#[derive(Clone, Copy, Debug, PartialEq, Eq)]
pub struct Account(pub [u8; 32]);

impl Account {
    /// The account that an account address names.
    pub fn from_address(address: &Address) -> (r: Result<Account, TxError>)
        ensures
            r == (match address.kind {
                AddressKind::Account(key) => Ok::<Account, TxError>(Account(key)),
                _ => Err(TxError::NotAnAccountAddress),
            }),
    {
        match address.kind {
            AddressKind::Account(key) => Ok(Account(key)),
            _ => Err(TxError::NotAnAccountAddress),
        }
    }
}

} // verus!
