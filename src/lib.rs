//! Transaction construction and balancing for a ledger with both
//! unspent-output and account inputs.
pub mod address;
pub mod builder;
pub mod codec;
pub mod crypto;
pub mod decode;
pub mod error;
pub mod fee;
pub mod finalizer;
pub mod readable;
pub mod transaction;
pub mod value;
pub mod witness;

pub use address::{Account, Address, AddressKind, Discrimination};
pub use builder::{OutputPolicy, TransactionBuilder};
pub use crypto::{PrivateKey, PublicKey, SecretKey, TransactionId};
pub use error::TxError;
pub use fee::{Fee, FeeVariant, LinearFee};
pub use finalizer::{GeneratedTransaction, TransactionFinalizer};
pub use transaction::{Certificate, Input, Output, Transaction, UtxoPointer};
pub use value::{Balance, BalanceSign, Value};
pub use witness::{SpendingCounter, Witness};
