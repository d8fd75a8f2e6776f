use vstd::prelude::*;
use vstd::string::StrSliceExecFns;
use bech32::{FromBase32, ToBase32};
use crate::address::{Address, Discrimination};
use crate::codec::{enc_address, push_address};
use crate::crypto::{ed25519_keypair_of, to_array_64, PrivateKey, SecretKey};
use crate::decode::{arr64, lemma_arr64, parse_address, read_address};
use crate::error::TxError;

verus! {

/// What Bech32 decoding makes of a string: the lowercase human-readable part,
/// the data bytes, and whether the checksum is of plain Bech32 rather than Bech32m.
pub uninterp spec fn bech32_decoded_of(s: Seq<char>) -> Option<(Seq<char>, Seq<u8>, bool)>;

/// The Bech32 string of a human-readable part and data bytes.
pub uninterp spec fn bech32_encoded_of(hrp: Seq<char>, data: Seq<u8>) -> Seq<char>;

/// Relies on bech32::decode, and on `FromBase32` for `Vec<u8>` to turn the
/// decoded 5-bit groups into bytes; `None` where either fails.
#[verifier::external_body]
fn bech32_decode(s: &str) -> (r: Option<(String, Vec<u8>, bool)>)
    ensures
        match r {
            Some((h, d, v)) => bech32_decoded_of(s@) == Some((h@, d@, v)),
            None => bech32_decoded_of(s@) is None,
        },
{
    match bech32::decode(s) {
        Ok((hrp, data, variant)) => match Vec::<u8>::from_base32(&data) {
            Ok(bytes) => match variant {
                bech32::Variant::Bech32 => Some((hrp, bytes, true)),
                bech32::Variant::Bech32m => Some((hrp, bytes, false)),
            },
            Err(_) => None,
        },
        Err(_) => None,
    }
}

/// A human-readable part that Bech32 encoding accepts: lowercase letters, at most 83.
pub open spec fn plain_hrp(h: Seq<char>) -> bool {
    &&& 1 <= h.len() <= 83
    &&& forall|i: int| 0 <= i < h.len() ==> 'a' <= #[trigger] h[i] <= 'z'
}

/// Relies on bech32::encode with the Bech32 variant, which fails only on an
/// invalid human-readable part.
#[verifier::external_body]
fn bech32_encode(hrp: &str, data: &[u8]) -> (r: String)
    requires
        plain_hrp(hrp@),
    ensures
        r@ == bech32_encoded_of(hrp@, data@),
{
    match bech32::encode(hrp, data.to_base32(), bech32::Variant::Bech32) {
        Ok(s) => s,
        Err(_) => String::new(),
    }
}

/// Whether two strings hold the same characters.
fn text_eq(a: &str, b: &str) -> (r: bool)
    ensures
        r == (a@ == b@),
{
    let n = a.unicode_len();
    if n != b.unicode_len() {
        return false;
    }
    let mut i: usize = 0;
    while i < n
        invariant
            n == a@.len(),
            n == b@.len(),
            0 <= i <= n,
            forall|j: int| 0 <= j < i ==> a@[j] == b@[j],
        decreases n - i,
    {
        if a.get_char(i) != b.get_char(i) {
            return false;
        }
        i += 1;
    }
    assert(a@ =~= b@);
    true
}

/// The human-readable part of an address on each network.
pub open spec fn address_prefix(d: Discrimination) -> Seq<char> {
    match d {
        Discrimination::Production => seq!['c', 'a'],
        Discrimination::Test => seq!['t', 'a'],
    }
}

/// The address whose bytes are exactly `b`.
pub open spec fn address_from_bytes(b: Seq<u8>) -> Result<Address, TxError> {
    match parse_address(b, 0) {
        Some((a, e)) => if e == b.len() {
            Ok(a)
        } else {
            Err(TxError::InvalidAddress)
        },
        None => Err(TxError::InvalidAddress),
    }
}

/// The address that a decoded readable form stands for: its bytes must be
/// an address, and its prefix that of the address's network.
pub open spec fn address_from_readable(hrp: Seq<char>, data: Seq<u8>) -> Result<Address, TxError> {
    match address_from_bytes(data) {
        Ok(a) => if hrp == address_prefix(a.discrimination) {
            Ok(a)
        } else {
            Err(TxError::InvalidAddress)
        },
        Err(e) => Err(e),
    }
}

impl Address {
    /// The address's bytes: its header, then its keys.
    pub fn to_bytes(&self) -> (r: Vec<u8>)
        ensures
            r@ == enc_address(*self),
    {
        let mut out: Vec<u8> = Vec::new();
        push_address(&mut out, self);
        assert(out@ =~= enc_address(*self));
        out
    }

    /// Reads an address from exactly its bytes.
    pub fn from_bytes(bytes: &[u8]) -> (r: Result<Address, TxError>)
        ensures
            r == address_from_bytes(bytes@),
    {
        match read_address(bytes, 0) {
            Some((a, e)) => if e == bytes.len() {
                Ok(a)
            } else {
                Err(TxError::InvalidAddress)
            },
            None => Err(TxError::InvalidAddress),
        }
    }

    /// The address of a decoded readable form.
    pub fn from_readable(hrp: &str, data: &[u8]) -> (r: Result<Address, TxError>)
        ensures
            r == address_from_readable(hrp@, data@),
    {
        let a = match Address::from_bytes(data) {
            Ok(a) => a,
            Err(e) => return Err(e),
        };
        let prefix_ok = match a.discrimination {
            Discrimination::Production => {
                proof {
                    reveal_strlit("ca");
                    assert("ca"@ =~= seq!['c', 'a']);
                }
                text_eq(hrp, "ca")
            },
            Discrimination::Test => {
                proof {
                    reveal_strlit("ta");
                    assert("ta"@ =~= seq!['t', 'a']);
                }
                text_eq(hrp, "ta")
            },
        };
        if prefix_ok {
            Ok(a)
        } else {
            Err(TxError::InvalidAddress)
        }
    }

    /// Reads an address from its readable (Bech32) form.
    pub fn from_string(s: &str) -> (r: Result<Address, TxError>)
        ensures
            match bech32_decoded_of(s@) {
                Some((h, d, true)) => r == address_from_readable(h, d),
                _ => r == Err::<Address, TxError>(TxError::InvalidAddress),
            },
    {
        match bech32_decode(s) {
            Some((hrp, data, true)) => Address::from_readable(hrp.as_str(), data.as_slice()),
            _ => Err(TxError::InvalidAddress),
        }
    }

    /// The readable (Bech32) form of the address.
    pub fn to_string(&self) -> (r: String)
        ensures
            r@ == bech32_encoded_of(address_prefix(self.discrimination), enc_address(*self)),
    {
        let bytes = self.to_bytes();
        match self.discrimination {
            Discrimination::Production => {
                proof {
                    reveal_strlit("ca");
                    assert("ca"@ =~= seq!['c', 'a']);
                }
                bech32_encode("ca", bytes.as_slice())
            },
            Discrimination::Test => {
                proof {
                    reveal_strlit("ta");
                    assert("ta"@ =~= seq!['t', 'a']);
                }
                bech32_encode("ta", bytes.as_slice())
            },
        }
    }
}

/// The secret key that a decoded readable form stands for: an extended key
/// under `ed25519e_sk`, a normal key under `ed25519_sk`.
pub open spec fn key_from_readable(hrp: Seq<char>, data: Seq<u8>) -> Result<PrivateKey, TxError> {
    if hrp == seq!['e', 'd', '2', '5', '5', '1', '9', 'e', '_', 's', 'k'] && data.len() == 64 {
        Ok(PrivateKey(SecretKey::Extended(arr64(data))))
    } else if hrp == seq!['e', 'd', '2', '5', '5', '1', '9', '_', 's', 'k'] && data.len() == 32 {
        Ok(PrivateKey(SecretKey::Normal(arr64(ed25519_keypair_of(data)))))
    } else {
        Err(TxError::InvalidSecretKey)
    }
}

impl PrivateKey {
    /// The secret key of a decoded readable form.
    pub fn from_readable(hrp: &str, data: &[u8]) -> (r: Result<PrivateKey, TxError>)
        ensures
            r == key_from_readable(hrp@, data@),
    {
        proof {
            reveal_strlit("ed25519e_sk");
            reveal_strlit("ed25519_sk");
            assert("ed25519e_sk"@ =~= seq!['e', 'd', '2', '5', '5', '1', '9', 'e', '_', 's', 'k']);
            assert("ed25519_sk"@ =~= seq!['e', 'd', '2', '5', '5', '1', '9', '_', 's', 'k']);
        }
        if data.len() == 64 && text_eq(hrp, "ed25519e_sk") {
            let e = to_array_64(data);
            proof {
                lemma_arr64(e);
            }
            Ok(PrivateKey(SecretKey::Extended(e)))
        } else if data.len() == 32 && text_eq(hrp, "ed25519_sk") {
            match PrivateKey::normal_from_bytes(data) {
                Ok(k) => {
                    proof {
                        if let SecretKey::Normal(kp) = k.0 {
                            lemma_arr64(kp);
                        }
                    }
                    Ok(k)
                },
                Err(_) => Err(TxError::InvalidSecretKey),
            }
        } else {
            Err(TxError::InvalidSecretKey)
        }
    }

    /// Reads a secret key from its readable (Bech32) form.
    pub fn from_bech32(bech32_str: &str) -> (r: Result<PrivateKey, TxError>)
        ensures
            match bech32_decoded_of(bech32_str@) {
                Some((h, d, true)) => r == key_from_readable(h, d),
                _ => r == Err::<PrivateKey, TxError>(TxError::InvalidSecretKey),
            },
    {
        match bech32_decode(bech32_str) {
            Some((hrp, data, true)) => PrivateKey::from_readable(hrp.as_str(), data.as_slice()),
            _ => Err(TxError::InvalidSecretKey),
        }
    }
}

} // verus!
