use ledger_ops::amount::Stroops;
use ledger_ops::asset::Asset;
use ledger_ops::crypto::PublicKey;
use ledger_ops::operations::Operation;
use ledger_ops::transaction::DecoratedSignature;
use ledger_ops::transaction::Transaction;
use ledger_ops::transaction::TransactionEnvelope;
use ledger_ops::transaction::MIN_BASE_FEE;

fn unhex(text: &str) -> Vec<u8> {
    let digits: Vec<u8> = text
        .bytes()
        .map(|c| match c {
            b'0'..=b'9' => c - b'0',
            b'a'..=b'f' => c - b'a' + 10,
            _ => panic!("not a hex digit"),
        })
        .collect();
    digits.chunks(2).map(|pair| pair[0] * 16 + pair[1]).collect()
}

fn key(text: &str) -> PublicKey {
    PublicKey::from_bytes(unhex(text)).unwrap()
}

fn public_key0() -> PublicKey {
    key("e0dc6de1725cac665162b52face735b28a2243e41d124d6cb92d70a3ea2e72c5")
}

fn public_key1() -> PublicKey {
    key("25caf1da0fc76ecfe8845e425451bb07924948947e3aa0cacc318aedd287647e")
}

fn public_key2() -> PublicKey {
    key("7e11cb34d635f5e1ab02d4a02c3dd5a5a466d808cd8f120159083dcd2e155998")
}

/// The signature of the first key over a transaction, as the signer gave it.
fn signed_by_key0(signature: &str) -> DecoratedSignature {
    DecoratedSignature::new(unhex("ea2e72c5"), unhex(signature)).unwrap()
}

fn text_of(envelope: &TransactionEnvelope) -> String {
    String::from_utf8(envelope.xdr_base64().unwrap()).unwrap()
}

#[test]
fn test_change_trust() {
    let asset = Asset::new_credit("FOOBAR", public_key1()).unwrap();

    let op = Operation::new_change_trust()
        .with_asset(asset)
        .build()
        .unwrap();
    let tx = Transaction::builder(public_key0(), 3556091187167235, MIN_BASE_FEE)
        .add_operation(op)
        .into_transaction()
        .unwrap();
    let mut envelope = tx.to_envelope();
    envelope.add_signature(signed_by_key0(
        "8b4c0501ccd31aa6c6b0960c45071cb9bc4596406a65ef055085a2fa6b9429f303018e0a0a3f1eb6652a164be4b309b68500813b5bf5e40bf94afb1fccca0c09",
    ));
    let xdr = text_of(&envelope);
    let expected = "AAAAAgAAAADg3G3hclysZlFitS+s5zWyiiJD5B0STWy5LXCj6i5yxQAAAGQADKI/AAAAAwAAAAAAAAAAAAAAAQAAAAAAAAAGAAAAAkZPT0JBUgAAAAAAAAAAAAAlyvHaD8duz+iEXkJUUbsHkklIlH46oMrMMYrt0odkfgAAAAAAAAAAAAAAAAAAAAHqLnLFAAAAQItMBQHM0xqmxrCWDEUHHLm8RZZAamXvBVCFovprlCnzAwGOCgo/HrZlKhZL5LMJtoUAgTtb9eQL+Ur7H8zKDAk=";
    assert_eq!(expected, xdr);
    let back = TransactionEnvelope::from_xdr_base64(&xdr).unwrap();
    assert_eq!(envelope, back);
    match &back.transaction().operations()[0] {
        Operation::ChangeTrust(c) => {
            assert_eq!(c.limit(), &None);
            assert_eq!(c.source_account(), &None);
        }
        _ => panic!("not a trust-line change"),
    }
}

#[test]
fn test_change_trust_with_limit() {
    let asset = Asset::new_credit("FOOBAR", public_key1()).unwrap();

    let op = Operation::new_change_trust()
        .with_asset(asset)
        .with_limit(Some(Stroops::max()))
        .unwrap()
        .build()
        .unwrap();
    let tx = Transaction::builder(public_key0(), 3556091187167235, MIN_BASE_FEE)
        .add_operation(op)
        .into_transaction()
        .unwrap();
    let mut envelope = tx.to_envelope();
    envelope.add_signature(signed_by_key0(
        "1197488331d514a3992ed70fd0e5b8d0a7e93a2536707db1d9af05295679a8b3c207ee77a843f016527ea047753366e03826968a230bd7c8551b551441e1a401",
    ));
    let xdr = text_of(&envelope);
    let expected = "AAAAAgAAAADg3G3hclysZlFitS+s5zWyiiJD5B0STWy5LXCj6i5yxQAAAGQADKI/AAAAAwAAAAAAAAAAAAAAAQAAAAAAAAAGAAAAAkZPT0JBUgAAAAAAAAAAAAAlyvHaD8duz+iEXkJUUbsHkklIlH46oMrMMYrt0odkfn//////////AAAAAAAAAAHqLnLFAAAAQBGXSIMx1RSjmS7XD9DluNCn6TolNnB9sdmvBSlWeaizwgfud6hD8BZSfqBHdTNm4DgmloojC9fIVRtVFEHhpAE=";
    assert_eq!(expected, xdr);
    let back = TransactionEnvelope::from_xdr_base64(&xdr).unwrap();
    assert_eq!(envelope, back);
    match &back.transaction().operations()[0] {
        Operation::ChangeTrust(c) => assert_eq!(c.limit(), &Some(Stroops::new(i64::MAX))),
        _ => panic!("not a trust-line change"),
    }
}

#[test]
fn test_change_trust_with_source_account() {
    let asset = Asset::new_credit("FOOBAR", public_key1()).unwrap();

    let op = Operation::new_change_trust()
        .with_source_account(public_key2())
        .with_asset(asset)
        .with_limit(Some(Stroops::max()))
        .unwrap()
        .build()
        .unwrap();
    let tx = Transaction::builder(public_key0(), 3556091187167235, MIN_BASE_FEE)
        .add_operation(op)
        .into_transaction()
        .unwrap();
    let mut envelope = tx.to_envelope();
    envelope.add_signature(signed_by_key0(
        "e2ea299e8743955e26f4725a4f45040e73e94568c4a3d700e0f38fb734b0eafab466336c0b475b56a138f748388d372789468ccdb544ebe08b70a549f6555007",
    ));
    let xdr = text_of(&envelope);
    let expected = "AAAAAgAAAADg3G3hclysZlFitS+s5zWyiiJD5B0STWy5LXCj6i5yxQAAAGQADKI/AAAAAwAAAAAAAAAAAAAAAQAAAAEAAAAAfhHLNNY19eGrAtSgLD3VpaRm2AjNjxIBWQg9zS4VWZgAAAAGAAAAAkZPT0JBUgAAAAAAAAAAAAAlyvHaD8duz+iEXkJUUbsHkklIlH46oMrMMYrt0odkfn//////////AAAAAAAAAAHqLnLFAAAAQOLqKZ6HQ5VeJvRyWk9FBA5z6UVoxKPXAODzj7c0sOr6tGYzbAtHW1ahOPdIOI03J4lGjM21ROvgi3ClSfZVUAc=";
    assert_eq!(expected, xdr);
    let back = TransactionEnvelope::from_xdr_base64(&xdr).unwrap();
    assert_eq!(envelope, back);
    let tx_back = back.transaction();
    assert_eq!(
        tx_back.source_account(),
        &ledger_ops::crypto::MuxedAccount::Ed25519(public_key0())
    );
    assert_eq!(
        tx_back.operations()[0].source_account(),
        &Some(ledger_ops::crypto::MuxedAccount::Ed25519(public_key2()))
    );
}

#[test]
fn test_inflation() {
    let tx = Transaction::builder(public_key0(), 3556091187167235, MIN_BASE_FEE)
        .add_operation(Operation::new_inflation().build())
        .into_transaction()
        .unwrap();
    let mut envelope = tx.to_envelope();
    envelope.add_signature(signed_by_key0(
        "2bc71cf2ae4d16915e4f411f4e685a28b43c946654ea2a331c60fbbf4c2cef749f596354da1a4351658b2f177b7e327d4ce384c07f4c25c7dbd4fc75362d060e",
    ));
    let xdr = text_of(&envelope);
    let expected = "AAAAAgAAAADg3G3hclysZlFitS+s5zWyiiJD5B0STWy5LXCj6i5yxQAAAGQADKI/AAAAAwAAAAAAAAAAAAAAAQAAAAAAAAAJAAAAAAAAAAHqLnLFAAAAQCvHHPKuTRaRXk9BH05oWii0PJRmVOoqMxxg+79MLO90n1ljVNoaQ1Fliy8Xe34yfUzjhMB/TCXH29T8dTYtBg4=";
    assert_eq!(expected, xdr);
    let back = TransactionEnvelope::from_xdr_base64(&xdr).unwrap();
    assert_eq!(envelope, back);
}

#[test]
fn test_inflation_with_source_account() {
    let tx = Transaction::builder(public_key0(), 3556091187167235, MIN_BASE_FEE)
        .add_operation(
            Operation::new_inflation()
                .with_source_account(public_key1())
                .build(),
        )
        .into_transaction()
        .unwrap();
    let mut envelope = tx.to_envelope();
    envelope.add_signature(signed_by_key0(
        "43271eaef9013e79c7438214df264066f06a646649d959b0ec3453dcf949b859aae83baa5ad6e11ed4e1eadaec30c6c0ebf56dd20c09c199e05c520cc1fc8708",
    ));
    let xdr = text_of(&envelope);
    let expected = "AAAAAgAAAADg3G3hclysZlFitS+s5zWyiiJD5B0STWy5LXCj6i5yxQAAAGQADKI/AAAAAwAAAAAAAAAAAAAAAQAAAAEAAAAAJcrx2g/Hbs/ohF5CVFG7B5JJSJR+OqDKzDGK7dKHZH4AAAAJAAAAAAAAAAHqLnLFAAAAQEMnHq75AT55x0OCFN8mQGbwamRmSdlZsOw0U9z5SbhZqug7qlrW4R7U4era7DDGwOv1bdIMCcGZ4FxSDMH8hwg=";
    assert_eq!(expected, xdr);
    let back = TransactionEnvelope::from_xdr_base64(&xdr).unwrap();
    assert_eq!(envelope, back);
}
