use bech32::{ToBase32, Variant};
use js_chain_libs::{Address, AddressKind, Discrimination, PrivateKey, TxError};

fn account(d: Discrimination) -> Address {
    Address { discrimination: d, kind: AddressKind::Account([0x42; 32]) }
}

#[test]
fn address_bytes_layout() {
    let a = account(Discrimination::Test);
    let bytes = a.to_bytes();
    assert_eq!(bytes.len(), 33);
    assert_eq!(bytes[0], 0x85);
    assert_eq!(Address::from_bytes(&bytes), Ok(a));
    let g = Address {
        discrimination: Discrimination::Production,
        kind: AddressKind::Group([1; 32], [2; 32]),
    };
    assert_eq!(g.to_bytes()[0], 0x04);
    assert_eq!(g.to_bytes().len(), 65);
    assert_eq!(Address::from_bytes(&g.to_bytes()), Ok(g));
    assert_eq!(Address::from_bytes(&bytes[..32]), Err(TxError::InvalidAddress));
    assert_eq!(Address::from_bytes(&[0x07; 33]), Err(TxError::InvalidAddress));
}

#[test]
fn address_readable_round_trip() {
    for d in [Discrimination::Production, Discrimination::Test] {
        let a = account(d);
        let s = a.to_string();
        let prefix = if d == Discrimination::Test { "ta1" } else { "ca1" };
        assert!(s.starts_with(prefix));
        assert_eq!(Address::from_string(&s), Ok(a));
    }
}

#[test]
fn address_readable_rejections() {
    let bytes = account(Discrimination::Production).to_bytes();
    let wrong_prefix = bech32::encode("ta", bytes.to_base32(), Variant::Bech32).unwrap();
    assert_eq!(Address::from_string(&wrong_prefix), Err(TxError::InvalidAddress));
    let modern = bech32::encode("ca", bytes.to_base32(), Variant::Bech32m).unwrap();
    assert_eq!(Address::from_string(&modern), Err(TxError::InvalidAddress));
    assert_eq!(Address::from_string("not an address"), Err(TxError::InvalidAddress));
    assert_eq!(Address::from_readable("ca", &bytes), Ok(account(Discrimination::Production)));
}

#[test]
fn secret_key_from_bech32() {
    let normal = bech32::encode("ed25519_sk", [1u8; 32].to_base32(), Variant::Bech32).unwrap();
    assert_eq!(PrivateKey::from_bech32(&normal), PrivateKey::normal_from_bytes(&[1u8; 32]));
    let extended = bech32::encode("ed25519e_sk", [2u8; 64].to_base32(), Variant::Bech32).unwrap();
    assert_eq!(PrivateKey::from_bech32(&extended), PrivateKey::extended_from_bytes(&[2u8; 64]));
    let short = bech32::encode("ed25519e_sk", [2u8; 32].to_base32(), Variant::Bech32).unwrap();
    assert_eq!(PrivateKey::from_bech32(&short), Err(TxError::InvalidSecretKey));
    let other = bech32::encode("xprv", [1u8; 32].to_base32(), Variant::Bech32).unwrap();
    assert_eq!(PrivateKey::from_bech32(&other), Err(TxError::InvalidSecretKey));
    assert_eq!(PrivateKey::from_bech32("ed25519_sk1"), Err(TxError::InvalidSecretKey));
}
