use vstd::prelude::*;
use crate::error::TxError;
use vstd::string::StringSliceAdditionalSpecFns;

verus! {

/// The BLAKE2b digest, 32 bytes long, of a byte string.
pub uninterp spec fn blake2b_256_of(input: Seq<u8>) -> Seq<u8>;

/// The 64-byte Ed25519 key pair (secret then public) derived from a 32-byte secret.
pub uninterp spec fn ed25519_keypair_of(secret: Seq<u8>) -> Seq<u8>;

/// The Ed25519 signature of a message under a 64-byte key pair.
pub uninterp spec fn ed25519_signature_of(message: Seq<u8>, keypair: Seq<u8>) -> Seq<u8>;

/// The Ed25519 signature of a message under a 64-byte extended secret key.
pub uninterp spec fn ed25519_extended_signature_of(message: Seq<u8>, extended: Seq<u8>) -> Seq<u8>;

/// Relies on cryptoxide::hashing::blake2b_256, a function of its input alone.
#[verifier::external_body]
fn blake2b_256(input: &[u8]) -> (r: [u8; 32])
    ensures
        r@ == blake2b_256_of(input@),
{
    cryptoxide::hashing::blake2b_256(input)
}

/// Relies on cryptoxide::ed25519::keypair, a function of the secret alone.
#[verifier::external_body]
fn ed25519_keypair(secret: &[u8; 32]) -> (r: [u8; 64])
    ensures
        r@ == ed25519_keypair_of(secret@),
{
    cryptoxide::ed25519::keypair(secret).0
}

/// Relies on cryptoxide::ed25519::signature, which is deterministic.
#[verifier::external_body]
fn ed25519_signature(message: &[u8], keypair: &[u8; 64]) -> (r: [u8; 64])
    ensures
        r@ == ed25519_signature_of(message@, keypair@),
{
    cryptoxide::ed25519::signature(message, keypair)
}

/// Relies on cryptoxide::ed25519::signature_extended, which is deterministic.
#[verifier::external_body]
fn ed25519_signature_extended(message: &[u8], extended: &[u8; 64]) -> (r: [u8; 64])
    ensures
        r@ == ed25519_extended_signature_of(message@, extended@),
{
    cryptoxide::ed25519::signature_extended(message, extended)
}

/// The identifier of a transaction: a digest of its body.
#[derive(Clone, Copy, Debug, PartialEq, Eq)]
pub struct TransactionId(pub [u8; 32]);

/// A 32-byte digest, such as the hash of a ledger's genesis block.
#[derive(Clone, Copy, Debug, PartialEq, Eq)]
pub struct Hash(pub [u8; 32]);

/// The value of an ASCII hexadecimal digit, either case.
pub open spec fn hex_digit(c: u8) -> Option<u8> {
    if 0x30 <= c <= 0x39 {
        Some((c - 0x30) as u8)
    } else if 0x61 <= c <= 0x66 {
        Some((c - 0x61 + 10) as u8)
    } else if 0x41 <= c <= 0x46 {
        Some((c - 0x41 + 10) as u8)
    } else {
        None
    }
}

/// Whether `text` is exactly 64 hexadecimal digits.
pub open spec fn is_hex_id(text: Seq<u8>) -> bool {
    &&& text.len() == 64
    &&& forall|i: int| 0 <= i < 64 ==> (#[trigger] hex_digit(text[i])).is_some()
}

/// The byte that the digits at `2 * i` and `2 * i + 1` of `text` stand for.
pub open spec fn hex_byte(text: Seq<u8>, i: int) -> u8 {
    (hex_digit(text[2 * i]).unwrap() * 16 + hex_digit(text[2 * i + 1]).unwrap()) as u8
}

fn hex_digit_exec(c: u8) -> (r: Option<u8>)
    ensures
        r == hex_digit(c),
{
    if 0x30 <= c && c <= 0x39 {
        Some(c - 0x30)
    } else if 0x61 <= c && c <= 0x66 {
        Some(c - 0x61 + 10)
    } else if 0x41 <= c && c <= 0x46 {
        Some(c - 0x41 + 10)
    } else {
        None
    }
}

/// Copies a slice of exactly 32 bytes into an array.
pub fn to_array_32(bytes: &[u8]) -> (r: [u8; 32])
    requires
        bytes@.len() == 32,
    ensures
        r@ == bytes@,
{
    let mut r = [0u8; 32];
    let mut i: usize = 0;
    while i < 32
        invariant
            bytes@.len() == 32,
            0 <= i <= 32,
            r@.len() == 32,
            forall|j: int| 0 <= j < i ==> r@[j] == bytes@[j],
        decreases 32 - i,
    {
        r[i] = bytes[i];
        i += 1;
    }
    assert(r@ =~= bytes@);
    r
}

/// Copies a slice of exactly 64 bytes into an array.
pub fn to_array_64(bytes: &[u8]) -> (r: [u8; 64])
    requires
        bytes@.len() == 64,
    ensures
        r@ == bytes@,
{
    let mut r = [0u8; 64];
    let mut i: usize = 0;
    while i < 64
        invariant
            bytes@.len() == 64,
            0 <= i <= 64,
            r@.len() == 64,
            forall|j: int| 0 <= j < i ==> r@[j] == bytes@[j],
        decreases 64 - i,
    {
        r[i] = bytes[i];
        i += 1;
    }
    assert(r@ =~= bytes@);
    r
}

impl TransactionId {
    /// The identifier whose bytes are the digest of `bytes`.
    pub fn from_bytes(bytes: &[u8]) -> (r: TransactionId)
        ensures
            r.0@ == blake2b_256_of(bytes@),
    {
        TransactionId(blake2b_256(bytes))
    }

    /// Reads an identifier written as 64 hexadecimal digits.
    pub fn from_hex(input: &str) -> (r: Result<TransactionId, TxError>)
        ensures
            is_hex_id(input.spec_bytes()) ==> (r matches Ok(id) && forall|i: int|
                0 <= i < 32 ==> #[trigger] id.0@[i] == hex_byte(input.spec_bytes(), i)),
            !is_hex_id(input.spec_bytes()) ==> r == Err::<TransactionId, TxError>(
                TxError::InvalidHex,
            ),
    {
        let text = input.as_bytes();
        if text.len() != 64 {
            return Err(TxError::InvalidHex);
        }
        let mut out = [0u8; 32];
        let mut i: usize = 0;
        while i < 32
            invariant
                text@ == input.spec_bytes(),
                text@.len() == 64,
                0 <= i <= 32,
                out@.len() == 32,
                forall|j: int| 0 <= j < 2 * i ==> (#[trigger] hex_digit(text@[j])).is_some(),
                forall|j: int| 0 <= j < i ==> #[trigger] out@[j] == hex_byte(text@, j),
            decreases 32 - i,
        {
            let hi = hex_digit_exec(text[2 * i]);
            let lo = hex_digit_exec(text[2 * i + 1]);
            match (hi, lo) {
                (Some(h), Some(l)) => {
                    assert(h < 16 && l < 16);
                    out[i] = h * 16 + l;
                },
                _ => {
                    assert(!is_hex_id(text@)) by {
                        if hi.is_none() {
                            assert(hex_digit(text@[2 * i as int]).is_none());
                        } else {
                            assert(hex_digit(text@[2 * i + 1]).is_none());
                        }
                    }
                    return Err(TxError::InvalidHex);
                },
            }
            i += 1;
        }
        Ok(TransactionId(out))
    }
}

impl Hash {
    /// The digest of `bytes`.
    pub fn from_bytes(bytes: &[u8]) -> (r: Hash)
        ensures
            r.0@ == blake2b_256_of(bytes@),
    {
        Hash(blake2b_256(bytes))
    }
}

/// The two forms of an Ed25519 secret key.
#[derive(Clone, Copy, Debug, PartialEq, Eq)]
pub enum SecretKey {
    /// A 64-byte extended secret.
    Extended([u8; 64]),
    /// A normal key, held as the 64-byte key pair derived from its 32-byte secret.
    Normal([u8; 64]),
}

/// A key that signs witnesses.
#[derive(Clone, Copy, Debug, PartialEq, Eq)]
pub struct PrivateKey(pub SecretKey);

/// An Ed25519 public key.
#[derive(Clone, Copy, Debug, PartialEq, Eq)]
pub struct PublicKey(pub [u8; 32]);

/// The signature that `key` gives `message`.
pub open spec fn signature_of(key: PrivateKey, message: Seq<u8>) -> Seq<u8> {
    match key.0 {
        SecretKey::Extended(e) => ed25519_extended_signature_of(message, e@),
        SecretKey::Normal(kp) => ed25519_signature_of(message, kp@),
    }
}

impl PrivateKey {
    /// A normal key from its 32-byte secret.
    pub fn normal_from_bytes(bytes: &[u8]) -> (r: Result<PrivateKey, TxError>)
        ensures
            bytes@.len() == 32 ==> (r matches Ok(k) && (k.0 matches SecretKey::Normal(kp)
                && kp@ == ed25519_keypair_of(bytes@))),
            bytes@.len() != 32 ==> r == Err::<PrivateKey, TxError>(TxError::InvalidKeyLength),
    {
        if bytes.len() != 32 {
            return Err(TxError::InvalidKeyLength);
        }
        let secret = to_array_32(bytes);
        Ok(PrivateKey(SecretKey::Normal(ed25519_keypair(&secret))))
    }

    /// An extended key from its 64 bytes.
    pub fn extended_from_bytes(bytes: &[u8]) -> (r: Result<PrivateKey, TxError>)
        ensures
            bytes@.len() == 64 ==> (r matches Ok(k) && (k.0 matches SecretKey::Extended(e)
                && e@ == bytes@)),
            bytes@.len() != 64 ==> r == Err::<PrivateKey, TxError>(TxError::InvalidKeyLength),
    {
        if bytes.len() != 64 {
            return Err(TxError::InvalidKeyLength);
        }
        Ok(PrivateKey(SecretKey::Extended(to_array_64(bytes))))
    }

    /// Signs `message`.
    pub fn sign(&self, message: &[u8]) -> (r: [u8; 64])
        ensures
            r@ == signature_of(*self, message@),
    {
        match &self.0 {
            SecretKey::Extended(e) => ed25519_signature_extended(message, e),
            SecretKey::Normal(kp) => ed25519_signature(message, kp),
        }
    }
}

} // verus!
