use js_chain_libs::{
    Account, Address, AddressKind, Balance, BalanceSign, Certificate, Discrimination, Fee, Input,
    OutputPolicy, PrivateKey, TransactionBuilder, TransactionFinalizer, TransactionId, TxError,
    UtxoPointer, Value, Witness, SpendingCounter,
};

fn single(byte: u8) -> Address {
    Address { discrimination: Discrimination::Test, kind: AddressKind::Single([byte; 32]) }
}

fn account_address(byte: u8) -> Address {
    Address { discrimination: Discrimination::Production, kind: AddressKind::Account([byte; 32]) }
}

fn utxo_input(value: u64) -> Input {
    Input::from_utxo(&UtxoPointer::new(TransactionId([7; 32]), 0, value))
}

#[test]
fn example_change_output() {
    let mut b = TransactionBuilder::new();
    b.add_input(utxo_input(1000));
    b.add_output(single(1), Value::from_u64(700));
    let fee = Fee::linear_fee(10, 1, 0);
    assert_eq!(b.estimate_fee(&fee), Ok(Value(11)));
    assert_eq!(b.get_balance(&fee), Ok(Balance::Positive(Value(289))));
    let tx = b.finalize(&fee, OutputPolicy::one(single(9))).unwrap();
    assert_eq!(tx.outputs.len(), 2);
    assert_eq!(tx.outputs[1].address, single(9));
    assert_eq!(tx.outputs[1].value, Value(289));
}

#[test]
fn example_insufficient_funds() {
    let mut b = TransactionBuilder::new();
    b.add_input(utxo_input(20));
    b.add_input(utxo_input(30));
    b.add_output(single(1), Value(60));
    b.add_output(single(2), Value(40));
    let fee = Fee::linear_fee(1, 1, 0);
    assert_eq!(b.get_balance(&fee), Ok(Balance::Negative(Value(52))));
    assert_eq!(b.finalize(&fee, OutputPolicy::forget()).unwrap_err(), TxError::InsufficientFunds);
}

#[test]
fn forget_keeps_outputs() {
    let mut b = TransactionBuilder::new();
    b.add_input(utxo_input(1000));
    b.add_output(single(1), Value(700));
    let tx = b.finalize(&Fee::linear_fee(10, 1, 0), OutputPolicy::forget()).unwrap();
    assert_eq!(tx.outputs.len(), 1);
    assert_eq!(tx.outputs[0].value, Value(700));
}

#[test]
fn exact_balance_adds_no_change() {
    let mut b = TransactionBuilder::new();
    b.add_input(utxo_input(711));
    b.add_output(single(1), Value(700));
    let fee = Fee::linear_fee(10, 1, 0);
    assert_eq!(b.get_balance(&fee), Ok(Balance::Zero));
    let tx = b.finalize(&fee, OutputPolicy::one(single(9))).unwrap();
    assert_eq!(tx.outputs.len(), 1);
}

#[test]
fn positive_balance_matches_sums() {
    let mut b = TransactionBuilder::new();
    b.add_input(utxo_input(500));
    b.add_input(Input::from_account(&Account([3; 32]), 250));
    b.add_output(single(1), Value(100));
    let fee = Fee::linear_fee(5, 2, 0);
    // 750 = 100 + 7 + 643
    assert_eq!(b.get_balance(&fee), Ok(Balance::Positive(Value(643))));
    assert_eq!(b.get_balance_without_fee(), Ok(Balance::Positive(Value(650))));
}

#[test]
fn balance_overflow_is_an_error() {
    let mut b = TransactionBuilder::new();
    b.add_input(utxo_input(u64::MAX));
    b.add_input(utxo_input(1));
    assert_eq!(b.get_balance_without_fee(), Err(TxError::ValueOverflow));
    let mut c = TransactionBuilder::new();
    c.add_output(single(1), Value(u64::MAX));
    assert_eq!(c.get_balance(&Fee::linear_fee(1, 0, 0)), Err(TxError::ValueOverflow));
    assert_eq!(c.estimate_fee(&Fee::linear_fee(u64::MAX, 1, 0)), Err(TxError::ValueOverflow));
}

#[test]
fn certificate_fee_and_single_certificate() {
    let mut b = TransactionBuilder::new();
    let fee = Fee::linear_fee(10, 2, 100);
    assert_eq!(b.estimate_fee(&fee), Ok(Value(12)));
    assert_eq!(b.set_sertificate(Certificate(vec![1, 2, 3])), Ok(()));
    assert_eq!(b.estimate_fee(&fee), Ok(Value(112)));
    assert_eq!(b.set_sertificate(Certificate(vec![4])), Err(TxError::CertificateAlreadySet));
    let tx = b.unchecked_finalize();
    assert_eq!(tx.certificate, Some(Certificate(vec![1, 2, 3])));
}

#[test]
fn balance_sign_and_value() {
    assert_eq!(Balance::Positive(Value(3)).get_sign(), BalanceSign::Positive);
    assert_eq!(Balance::Negative(Value(4)).get_value(), Value(4));
    assert_eq!(Balance::Zero.get_sign(), BalanceSign::Zero);
    assert_eq!(Balance::Zero.get_value(), Value(0));
}

#[test]
fn account_from_address() {
    assert_eq!(Account::from_address(&account_address(5)), Ok(Account([5; 32])));
    assert_eq!(Account::from_address(&single(5)), Err(TxError::NotAnAccountAddress));
}

fn two_input_tx() -> js_chain_libs::Transaction {
    let mut b = TransactionBuilder::new();
    b.add_input(utxo_input(100));
    b.add_input(Input::from_account(&Account([3; 32]), 50));
    b.add_output(single(1), Value(140));
    b.unchecked_finalize()
}

#[test]
fn finalizer_checks_witnesses() {
    let key = PrivateKey::normal_from_bytes(&[1u8; 32]).unwrap();
    let genesis = js_chain_libs::crypto::Hash::from_bytes(b"genesis");
    let mut f = TransactionFinalizer::new(two_input_tx());
    let id = f.get_txid();
    let wu = Witness::for_utxo(genesis, id, key);
    let wa = Witness::for_account(genesis, id, key, SpendingCounter::zero());
    assert_eq!(f.set_witness(2, wu), Err(TxError::WitnessIndexOutOfRange));
    assert_eq!(f.set_witness(0, wa), Err(TxError::WitnessKindMismatch));
    assert_eq!(f.set_witness(0, wu), Ok(()));
    assert_eq!(f.get_txid(), id);
    assert_eq!(f.set_witness(0, wu), Ok(()));
    assert_eq!(f.get_txid(), id);
    assert_eq!(f.build().unwrap_err(), TxError::MissingWitness);

    let mut g = TransactionFinalizer::new(two_input_tx());
    assert_eq!(g.get_txid(), id);
    assert_eq!(g.set_witness(0, wu), Ok(()));
    assert_eq!(g.set_witness(1, wa), Ok(()));
    let built = g.build().unwrap();
    assert_eq!(built.witnesses, vec![wu, wa]);
    assert_eq!(built.transaction.id(), id);
}

#[test]
fn witnesses_depend_on_counter_and_key() {
    let key = PrivateKey::normal_from_bytes(&[1u8; 32]).unwrap();
    let other = PrivateKey::extended_from_bytes(&[2u8; 64]).unwrap();
    let genesis = js_chain_libs::crypto::Hash([0; 32]);
    let id = TransactionId([9; 32]);
    let a0 = Witness::for_account(genesis, id, key, SpendingCounter::from_u32(0));
    let a1 = Witness::for_account(genesis, id, key, SpendingCounter::from_u32(1));
    assert_ne!(a0, a1);
    assert_ne!(Witness::for_utxo(genesis, id, key), Witness::for_utxo(genesis, id, other));
    assert_eq!(Witness::for_utxo(genesis, id, key), Witness::for_utxo(genesis, id, key));
    assert_eq!(PrivateKey::normal_from_bytes(&[1u8; 31]), Err(TxError::InvalidKeyLength));
}

#[test]
fn transaction_id_from_hex_and_bytes() {
    let hex = "00ff10Aa".repeat(8);
    let id = TransactionId::from_hex(&hex).unwrap();
    assert_eq!(&id.0[0..4], &[0x00, 0xff, 0x10, 0xaa]);
    assert_eq!(TransactionId::from_hex("00ff"), Err(TxError::InvalidHex));
    assert_eq!(TransactionId::from_hex(&"zz".repeat(32)), Err(TxError::InvalidHex));
    // BLAKE2b-256 of the empty string
    let empty = TransactionId::from_bytes(&[]);
    assert_eq!(empty.0[0..4], [0x0e, 0x57, 0x51, 0xc0]);
    assert_ne!(TransactionId::from_bytes(b"a"), TransactionId::from_bytes(b"b"));
}

#[test]
fn transaction_id_depends_on_content() {
    let a = two_input_tx();
    let b = two_input_tx();
    assert_eq!(a.id(), b.id());
    let mut c = TransactionBuilder::new();
    c.add_input(utxo_input(100));
    assert_ne!(c.unchecked_finalize().id(), a.id());
}

fn unhex(s: &str) -> Vec<u8> {
    (0..s.len()).step_by(2).map(|i| u8::from_str_radix(&s[i..i + 2], 16).unwrap()).collect()
}

#[test]
fn ed25519_known_answer() {
    let secret = unhex("9d61b19deffd5a60ba844af492ec2cc44449c5697b326919703bac031cae7f60");
    let key = PrivateKey::normal_from_bytes(&secret).unwrap();
    match key.0 {
        js_chain_libs::SecretKey::Normal(kp) => assert_eq!(
            kp[32..].to_vec(),
            unhex("d75a980182b10ab7d54bfed3c964073a0ee172f3daa62325af021a68f707511a")
        ),
        js_chain_libs::SecretKey::Extended(_) => panic!("expected a normal key"),
    }
    assert_eq!(
        key.sign(&[]).to_vec(),
        unhex(
            "e5564300c360ac729086e2cc806e828a84877f1eb8e5d974d873e065224901555\
             fb8821590a33bacc61e39701cf9b46bd25bf5f0595bbe24655141438e7a100b"
        )
    );
}
