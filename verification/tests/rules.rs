use ledger_ops::amount::AmountLike;
use ledger_ops::amount::Stroops;
use ledger_ops::asset::Asset;
use ledger_ops::asset::CreditAsset;
use ledger_ops::base64;
use ledger_ops::crypto::MuxedAccount;
use ledger_ops::crypto::PublicKey;
use ledger_ops::error::Error;
use ledger_ops::operations::change_trust::ChangeTrustOperation;
use ledger_ops::operations::inflation::InflationOperation;
use ledger_ops::operations::Operation;
use ledger_ops::transaction::DecoratedSignature;
use ledger_ops::transaction::Transaction;
use ledger_ops::transaction::TransactionEnvelope;
use ledger_ops::xdr;

fn key(fill: u8) -> PublicKey {
    PublicKey::from_bytes(vec![fill; 32]).unwrap()
}

fn credit(code: &str) -> Asset {
    Asset::new_credit(code, key(7)).unwrap()
}

fn change_trust(op: Operation) -> ChangeTrustOperation {
    match op {
        Operation::ChangeTrust(c) => c,
        _ => panic!("not a trust-line change"),
    }
}

#[test]
fn operation_round_trips_through_wire_structure() {
    let ops = vec![
        Operation::new_change_trust().with_asset(credit("USD")).build().unwrap(),
        Operation::new_change_trust()
            .with_asset(Asset::new_native())
            .with_limit(Some(1i64))
            .unwrap()
            .with_source_account(key(9))
            .build()
            .unwrap(),
        Operation::new_inflation().build(),
        Operation::new_inflation()
            .with_source_account(MuxedAccount::Muxed { id: 5, key: key(3) })
            .build(),
    ];
    for op in ops {
        let wire = op.to_xdr().unwrap();
        assert_eq!(Operation::from_xdr(&wire).unwrap(), op);
    }
}

#[test]
fn explicit_zero_limit_comes_back_as_none() {
    let op = Operation::new_change_trust()
        .with_asset(credit("USD"))
        .with_limit(Some(0i64))
        .unwrap()
        .build()
        .unwrap();
    assert_eq!(change_trust(op.clone()).limit(), &Some(Stroops::new(0)));
    let back = Operation::from_xdr(&op.to_xdr().unwrap()).unwrap();
    assert_eq!(change_trust(back).limit(), &None);
}

#[test]
fn no_limit_and_zero_limit_share_the_wire_value() {
    let none = change_trust(
        Operation::new_change_trust().with_asset(credit("USD")).build().unwrap(),
    );
    let zero = change_trust(
        Operation::new_change_trust()
            .with_asset(credit("USD"))
            .with_limit(Some(Stroops::new(0)))
            .unwrap()
            .build()
            .unwrap(),
    );
    let expected = xdr::OperationBody::ChangeTrust(xdr::ChangeTrustOp {
        line: credit("USD"),
        limit: xdr::Int64::new(0),
    });
    assert_eq!(none.to_xdr_operation_body().unwrap(), expected);
    assert_eq!(zero.to_xdr_operation_body().unwrap(), expected);
    let wire = xdr::ChangeTrustOp { line: credit("USD"), limit: xdr::Int64::new(0) };
    let back = ChangeTrustOperation::from_xdr_operation_body(None, &wire).unwrap();
    assert_eq!(back.limit(), &None);
}

#[test]
fn limit_maps_to_its_wire_value() {
    let op = change_trust(
        Operation::new_change_trust()
            .with_asset(credit("USD"))
            .with_limit(Some(42i64))
            .unwrap()
            .build()
            .unwrap(),
    );
    match op.to_xdr_operation_body().unwrap() {
        xdr::OperationBody::ChangeTrust(x) => {
            assert_eq!(x.limit.value, 42);
            assert_eq!(x.line, credit("USD"));
        }
        _ => panic!("not a trust-line change"),
    }
}

#[test]
fn wire_limit_is_not_validated_again() {
    let wire = xdr::ChangeTrustOp { line: Asset::new_native(), limit: xdr::Int64::new(-5) };
    let op = ChangeTrustOperation::from_xdr_operation_body(Some(MuxedAccount::Ed25519(key(1))), &wire)
        .unwrap();
    assert_eq!(op.limit(), &Some(Stroops::new(-5)));
    assert_eq!(op.asset(), &Asset::Native);
    assert_eq!(op.source_account(), &Some(MuxedAccount::Ed25519(key(1))));
}

#[test]
fn build_succeeds_exactly_for_limits_not_below_zero() {
    for n in [0i64, 1, 100, i64::MAX] {
        let r = Operation::new_change_trust()
            .with_asset(credit("USD"))
            .with_limit(Some(n))
            .unwrap()
            .build();
        assert_eq!(change_trust(r.unwrap()).limit(), &Some(Stroops::new(n)));
    }
    for n in [-1i64, -100, i64::MIN] {
        let r = Operation::new_change_trust()
            .with_asset(credit("USD"))
            .with_limit(Some(n))
            .unwrap()
            .build();
        assert_eq!(r, Err(Error::NegativeChangeTrustLimit));
    }
}

#[test]
fn build_without_asset_fails() {
    assert_eq!(Operation::new_change_trust().build(), Err(Error::MissingChangeTrustAsset));
    let r = Operation::new_change_trust()
        .with_source_account(key(1))
        .with_limit(Some(-3i64))
        .unwrap()
        .build();
    assert_eq!(r, Err(Error::MissingChangeTrustAsset));
}

#[test]
fn inflation_always_builds() {
    let plain = Operation::new_inflation().build();
    assert_eq!(plain.source_account(), &None);
    let with = Operation::new_inflation().with_source_account(key(1)).with_source_account(key(2)).build();
    assert_eq!(with.source_account(), &Some(MuxedAccount::Ed25519(key(2))));
    match &with {
        Operation::Inflation(i) => {
            assert_eq!(i.to_xdr_operation_body().unwrap(), xdr::OperationBody::Inflation);
        }
        _ => panic!("not an inflation"),
    }
    let made = InflationOperation::from_xdr_operation_body(Some(MuxedAccount::Ed25519(key(2)))).unwrap();
    assert_eq!(Operation::Inflation(made), with);
}

#[test]
fn last_source_account_wins() {
    let op = Operation::new_change_trust()
        .with_source_account(key(1))
        .with_source_account(key(2))
        .with_asset(credit("USD"))
        .build()
        .unwrap();
    assert_eq!(op.source_account(), &Some(MuxedAccount::Ed25519(key(2))));
}

#[test]
fn limits_out_of_range_are_conversion_errors() {
    let r = Operation::new_change_trust().with_limit(Some(u64::MAX));
    assert_eq!(r.err(), Some(Error::InvalidStroopsAmount));
    let r = Operation::new_change_trust().with_limit(Some(i64::MAX as i128 + 1));
    assert_eq!(r.err(), Some(Error::InvalidStroopsAmount));
    let r = Operation::new_change_trust().with_limit(Some(i64::MIN as i128 - 1));
    assert_eq!(r.err(), Some(Error::InvalidStroopsAmount));
    assert_eq!(7u64.to_stroops(), Ok(Stroops::new(7)));
    assert_eq!((-7i128).to_stroops(), Ok(Stroops::new(-7)));
    assert_eq!((i64::MAX as u64).to_stroops(), Ok(Stroops::max()));
    assert_eq!(Stroops::max().to_i64(), i64::MAX);
    let cleared = Operation::new_change_trust()
        .with_asset(credit("USD"))
        .with_limit(Some(5i64))
        .unwrap()
        .with_limit(None::<i64>)
        .unwrap()
        .build()
        .unwrap();
    assert_eq!(change_trust(cleared).limit(), &None);
}

#[test]
fn keys_assets_and_signatures_are_validated() {
    assert_eq!(PublicKey::from_bytes(vec![0; 31]), Err(Error::InvalidKeyLength));
    assert_eq!(PublicKey::from_bytes(vec![0; 33]), Err(Error::InvalidKeyLength));
    assert_eq!(key(5).as_bytes(), &vec![5u8; 32]);
    assert_eq!(Asset::new_credit("", key(1)), Err(Error::InvalidAssetCode));
    assert_eq!(Asset::new_credit("ABCDEFGHIJKLM", key(1)), Err(Error::InvalidAssetCode));
    assert_eq!(Asset::new_credit("US D", key(1)), Err(Error::InvalidAssetCode));
    assert_eq!(CreditAsset::new(&[0x41, 0], key(1)).err(), Some(Error::InvalidAssetCode));
    let c = CreditAsset::new(b"ABCDEFGHIJKL", key(1)).unwrap();
    assert_eq!(c.code().as_slice(), b"ABCDEFGHIJKL");
    assert_eq!(c.issuer(), &key(1));
    assert_eq!(DecoratedSignature::new(vec![0; 3], vec![0; 64]).err(), Some(Error::InvalidSignature));
    assert_eq!(DecoratedSignature::new(vec![0; 4], vec![0; 63]).err(), Some(Error::InvalidSignature));
    let s = DecoratedSignature::new(vec![1; 4], vec![2; 64]).unwrap();
    assert_eq!(s.hint(), &vec![1u8; 4]);
    assert_eq!(s.signature(), &vec![2u8; 64]);
}

#[test]
fn fee_is_base_fee_for_each_operation() {
    let tx = Transaction::builder(key(1), 7, 100)
        .add_operation(Operation::new_inflation().build())
        .add_operation(Operation::new_inflation().with_source_account(key(2)).build())
        .add_operation(Operation::new_change_trust().with_asset(credit("USD")).build().unwrap())
        .into_transaction()
        .unwrap();
    assert_eq!(tx.fee(), 300);
    assert_eq!(tx.sequence(), 7);
    assert_eq!(tx.source_account(), &MuxedAccount::Ed25519(key(1)));
    assert_eq!(tx.operations().len(), 3);
    assert_eq!(tx.operations()[1].source_account(), &Some(MuxedAccount::Ed25519(key(2))));
    let explicit = Transaction::builder(key(1), 7, 100)
        .add_operation(Operation::new_inflation().build())
        .add_operation(Operation::new_inflation().build())
        .with_fee(12345)
        .into_transaction()
        .unwrap();
    assert_eq!(explicit.fee(), 12345);
}

#[test]
fn assembly_errors() {
    let empty = Transaction::builder(key(1), 7, 100).into_transaction();
    assert_eq!(empty.err(), Some(Error::EmptyTransaction));
    let empty = Transaction::builder(key(1), 7, 100).with_fee(5).into_transaction();
    assert_eq!(empty.err(), Some(Error::EmptyTransaction));
    let over = Transaction::builder(key(1), 7, u32::MAX)
        .add_operation(Operation::new_inflation().build())
        .add_operation(Operation::new_inflation().build())
        .into_transaction();
    assert_eq!(over.err(), Some(Error::FeeOverflow));
    let edge = Transaction::builder(key(1), 7, u32::MAX)
        .add_operation(Operation::new_inflation().build())
        .into_transaction()
        .unwrap();
    assert_eq!(edge.fee(), u32::MAX);
}

#[test]
fn payload_is_the_same_every_time() {
    let network_id: Vec<u8> = (0u8..32).collect();
    let tx = Transaction::builder(key(0xAB), 0x0102030405060708, 100)
        .add_operation(Operation::new_inflation().build())
        .into_transaction()
        .unwrap();
    let first = tx.signature_payload(&network_id).unwrap();
    let second = tx.signature_payload(&network_id).unwrap();
    assert_eq!(first, second);
    let mut expected = network_id.clone();
    expected.extend_from_slice(&[0, 0, 0, 2]);
    expected.extend_from_slice(&[0, 0, 0, 0]);
    expected.extend_from_slice(&[0xAB; 32]);
    expected.extend_from_slice(&[0, 0, 0, 100]);
    expected.extend_from_slice(&[1, 2, 3, 4, 5, 6, 7, 8]);
    expected.extend_from_slice(&[0; 8]);
    expected.extend_from_slice(&[0, 0, 0, 1]);
    expected.extend_from_slice(&[0, 0, 0, 0, 0, 0, 0, 9]);
    expected.extend_from_slice(&[0, 0, 0, 0]);
    assert_eq!(first, expected);
    assert_eq!(tx.signature_payload(&[0u8; 31]).err(), Some(Error::InvalidNetworkId));
    let bytes = tx.to_envelope().xdr_bytes().unwrap();
    assert_eq!(&bytes[4..bytes.len() - 4], &expected[36..]);
}

#[test]
fn negative_limit_and_muxed_account_round_trip_through_bytes() {
    let wire = xdr::ChangeTrustOp { line: credit("abcd"), limit: xdr::Int64::new(-2) };
    let op = ChangeTrustOperation::from_xdr_operation_body(
        Some(MuxedAccount::Muxed { id: u64::MAX - 1, key: key(8) }),
        &wire,
    )
    .unwrap();
    let tx = Transaction::builder(MuxedAccount::Muxed { id: 1, key: key(1) }, -1, 100)
        .add_operation(Operation::ChangeTrust(op))
        .add_operation(Operation::new_change_trust().with_asset(credit("abcde")).build().unwrap())
        .add_operation(Operation::new_change_trust().with_asset(Asset::new_native()).build().unwrap())
        .into_transaction()
        .unwrap();
    let mut envelope = tx.to_envelope();
    envelope.add_signature(DecoratedSignature::new(vec![1; 4], vec![2; 64]).unwrap());
    envelope.add_signature(DecoratedSignature::new(vec![3; 4], vec![4; 64]).unwrap());
    assert_eq!(envelope.signatures().len(), 2);
    assert_eq!(envelope.signatures()[1].hint(), &vec![3u8; 4]);
    let bytes = envelope.xdr_bytes().unwrap();
    let back = TransactionEnvelope::from_xdr_bytes(&bytes).unwrap();
    assert_eq!(back, envelope);
    assert_eq!(back.transaction().sequence(), -1);
}

#[test]
fn malformed_bytes_are_rejected() {
    let tx = Transaction::builder(key(1), 7, 100)
        .add_operation(Operation::new_change_trust().with_asset(credit("USD")).build().unwrap())
        .into_transaction()
        .unwrap();
    let bytes = tx.to_envelope().xdr_bytes().unwrap();
    assert!(TransactionEnvelope::from_xdr_bytes(&bytes).is_ok());
    assert_eq!(TransactionEnvelope::from_xdr_bytes(&[]).err(), Some(Error::MalformedWire));
    assert_eq!(
        TransactionEnvelope::from_xdr_bytes(&bytes[..bytes.len() - 1]).err(),
        Some(Error::MalformedWire)
    );
    let mut longer = bytes.clone();
    longer.push(0);
    assert_eq!(TransactionEnvelope::from_xdr_bytes(&longer).err(), Some(Error::MalformedWire));
    let mut tagged = bytes.clone();
    tagged[3] = 3;
    assert_eq!(TransactionEnvelope::from_xdr_bytes(&tagged).err(), Some(Error::MalformedWire));
    // A zero byte inside the code leaves a byte behind the padding.
    let at = bytes.windows(3).position(|w| w == b"USD").unwrap();
    let mut padded = bytes.clone();
    padded[at + 1] = 0;
    assert_eq!(TransactionEnvelope::from_xdr_bytes(&padded).err(), Some(Error::MalformedWire));
}

#[test]
fn base64_known_texts() {
    let cases: [(&str, &str); 7] = [
        ("", ""),
        ("f", "Zg=="),
        ("fo", "Zm8="),
        ("foo", "Zm9v"),
        ("foob", "Zm9vYg=="),
        ("fooba", "Zm9vYmE="),
        ("foobar", "Zm9vYmFy"),
    ];
    for (plain, text) in cases {
        assert_eq!(base64::encode(plain.as_bytes()), text.as_bytes());
        assert_eq!(base64::decode(text.as_bytes()), Ok(plain.as_bytes().to_vec()));
    }
    assert_eq!(base64::encode(&[0xfb, 0xff, 0xbf]), b"+/+/");
    assert_eq!(base64::decode(b"+/+/"), Ok(vec![0xfb, 0xff, 0xbf]));
}

#[test]
fn base64_rejects_what_is_not_canonical() {
    for text in ["Z", "Zg", "Zg=", "Zh==", "Zm9=", "Zm9v=", "Z=8=", "====", "Zg==Zg==", "Zm9\n", "Zm-v"] {
        assert_eq!(base64::decode(text.as_bytes()), Err(Error::InvalidBase64), "{}", text);
    }
    assert_eq!(
        TransactionEnvelope::from_xdr_base64("AAAA!").err(),
        Some(Error::InvalidBase64)
    );
    assert_eq!(
        TransactionEnvelope::from_xdr_base64("AAAAAg==").err(),
        Some(Error::MalformedWire)
    );
}

#[test]
fn base64_round_trips_every_length() {
    for n in 0usize..40 {
        let bytes: Vec<u8> = (0..n).map(|i| (i * 37 + n * 11) as u8).collect();
        let text = base64::encode(&bytes);
        assert_eq!(text.len(), (n + 2) / 3 * 4);
        assert_eq!(base64::decode(&text), Ok(bytes));
    }
}

#[test]
fn decoded_text_encodes_to_itself() {
    let text = "AAAAAgAAAADg3G3hclysZlFitS+s5zWyiiJD5B0STWy5LXCj6i5yxQAAAGQADKI/AAAAAwAAAAAAAAAAAAAAAQAAAAEAAAAAJcrx2g/Hbs/ohF5CVFG7B5JJSJR+OqDKzDGK7dKHZH4AAAAJAAAAAAAAAAHqLnLFAAAAQEMnHq75AT55x0OCFN8mQGbwamRmSdlZsOw0U9z5SbhZqug7qlrW4R7U4era7DDGwOv1bdIMCcGZ4FxSDMH8hwg=";
    let envelope = TransactionEnvelope::from_xdr_base64(text).unwrap();
    assert_eq!(envelope.xdr_base64().unwrap(), text.as_bytes());
    assert_eq!(envelope.transaction().fee(), 100);
    assert_eq!(envelope.transaction().sequence(), 3556091187167235);
    assert_eq!(envelope.signatures().len(), 1);
    assert_eq!(envelope.signatures()[0].hint(), &vec![0xea, 0x2e, 0x72, 0xc5]);
}
