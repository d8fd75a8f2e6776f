use js_chain_libs::{
    Account, Address, AddressKind, Certificate, Discrimination, GeneratedTransaction, Input,
    Output, Transaction, TransactionId, TxError, UtxoPointer, Value, Witness,
};

fn sample() -> GeneratedTransaction {
    let transaction = Transaction {
        inputs: vec![
            Input::from_utxo(&UtxoPointer::new(TransactionId([4; 32]), 255, 1234)),
            Input::from_account(&Account([8; 32]), u64::MAX),
        ],
        outputs: vec![
            Output {
                address: Address {
                    discrimination: Discrimination::Test,
                    kind: AddressKind::Group([1; 32], [2; 32]),
                },
                value: Value(77),
            },
            Output {
                address: Address {
                    discrimination: Discrimination::Production,
                    kind: AddressKind::Account([3; 32]),
                },
                value: Value(0),
            },
        ],
        certificate: Some(Certificate(vec![9, 8, 7, 6])),
    };
    GeneratedTransaction { transaction, witnesses: vec![Witness::Utxo([5; 64]), Witness::Account([6; 64])] }
}

#[test]
fn round_trip_keeps_everything() {
    let g = sample();
    let bytes = g.encode();
    assert_eq!(GeneratedTransaction::decode(&bytes), Ok(sample()));
}

#[test]
fn round_trip_without_certificate() {
    let mut g = sample();
    g.transaction.certificate = None;
    g.transaction.outputs.clear();
    let bytes = g.encode();
    let back = GeneratedTransaction::decode(&bytes).unwrap();
    assert_eq!(back.transaction.certificate, None);
    assert_eq!(back.transaction.outputs.len(), 0);
    assert_eq!(back.transaction.inputs, g.transaction.inputs);
    assert_eq!(back.witnesses, g.witnesses);
}

#[test]
fn encoding_layout() {
    let g = GeneratedTransaction {
        transaction: Transaction { inputs: vec![], outputs: vec![], certificate: None },
        witnesses: vec![],
    };
    let mut expected = vec![0u8; 16];
    expected.push(0);
    expected.extend_from_slice(&[0u8; 8]);
    assert_eq!(g.encode(), expected);
}

#[test]
fn malformed_encodings_are_rejected() {
    let bytes = sample().encode();
    assert_eq!(
        GeneratedTransaction::decode(&bytes[..bytes.len() - 1]),
        Err(TxError::MalformedEncoding)
    );
    let mut longer = bytes.clone();
    longer.push(0);
    assert_eq!(GeneratedTransaction::decode(&longer), Err(TxError::MalformedEncoding));
    let mut bad_tag = bytes.clone();
    bad_tag[8] = 7;
    assert_eq!(GeneratedTransaction::decode(&bad_tag), Err(TxError::MalformedEncoding));
    assert_eq!(GeneratedTransaction::decode(&[]), Err(TxError::MalformedEncoding));
}
