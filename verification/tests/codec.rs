use acs::codec::{
    bytes_from_text, export_token, hex_lines, import_token, load_key, token_from_bytes,
    token_to_bytes, HexError,
};
use acs::server::{Issuer, Records};
use acs::tls::{choose_identity, tls_identity, TlsFault};
use acs::wallet::{load_all, load_token};
use acs::{nullifier_bytes, ClientError, CreditToken, CreditTokenExt, Request, Response};
use anonymous_credit_tokens::{Params, PreIssuance};
use curve25519_dalek::Scalar;
use rand_core::OsRng;

fn mint(credits: u128) -> CreditToken {
    let key = load_key(None).key;
    let params = Params::nothing_up_my_sleeve(b"innocence v0.1");
    let pre_issuance = PreIssuance::random(OsRng);
    let request = pre_issuance.request(&params, OsRng);
    let response = key.issue(&params, &request, Scalar::from(credits), OsRng).unwrap();
    pre_issuance.to_credit_token(&params, key.public(), &request, &response).unwrap()
}

#[test]
fn exported_token_can_be_imported() {
    let token = mint(77);
    let text = export_token(&token).unwrap();
    let copy = import_token(&text).unwrap();
    assert_eq!(copy.get_value(), 77);
    assert_eq!(nullifier_bytes(&copy), nullifier_bytes(&token));
    // White space around the text does no harm, nor do capital letters
    let copy = import_token(&format!("\n  {}\t\r\n", text.to_uppercase())).unwrap();
    assert_eq!(copy.get_value(), 77);
    assert_eq!(export_token(&copy).unwrap(), text);
}

#[test]
fn export_is_the_hexadecimal_text_of_the_bytes() {
    let token = mint(5);
    let bytes = token_to_bytes(&token).unwrap();
    assert_eq!(export_token(&token).unwrap(), hex::encode(&bytes));
    let copy = token_from_bytes(&bytes).unwrap();
    assert_eq!(copy.get_value(), 5);
    assert_eq!(nullifier_bytes(&copy), nullifier_bytes(&token));
    assert_eq!(token_to_bytes(&copy).unwrap(), bytes);
}

#[test]
fn rows_are_loaded() {
    let token = mint(8);
    let bytes = token_to_bytes(&token).unwrap();
    let loaded = load_token(3, Some(bytes.clone())).unwrap();
    assert_eq!(loaded.get_value(), 8);
    assert_eq!(nullifier_bytes(&loaded), nullifier_bytes(&token));
    assert_eq!(token_to_bytes(&loaded).unwrap(), bytes);
    match load_token(-3, None) {
        Err(error) => assert_eq!(error.message(), "IO error: Token with ID -3 not found"),
        Ok(_) => panic!("expected an error"),
    }
    assert!(matches!(load_token(3, Some(vec![])), Err(ClientError::Deserialization(_))));
}

#[test]
fn all_rows_are_loaded_or_none() {
    let (first, second) = (mint(8), mint(0));
    let rows = || {
        vec![(7, token_to_bytes(&first).unwrap()), (-2, token_to_bytes(&second).unwrap())]
    };
    let tokens = load_all(rows()).unwrap();
    let found: Vec<(i64, u128)> = tokens.iter().map(|(id, t)| (*id, t.get_value())).collect();
    assert_eq!(found, [(7, 8), (-2, 0)]);
    assert_eq!(nullifier_bytes(&tokens[0].1), nullifier_bytes(&first));
    assert_eq!(load_all(vec![]).unwrap().len(), 0);
    let mut broken = rows();
    broken.push((9, vec![1, 2]));
    match load_all(broken) {
        Err(ClientError::Database(detail)) => {
            assert_eq!(detail, "Invalid column type Blob at index: 1, name: ")
        }
        _ => panic!("expected an error"),
    }
}

/// A block of PEM text with bytes in base 64.
fn block(label: &str, content: &str) -> String {
    format!("-----BEGIN {label}-----\n{content}\n-----END {label}-----\n")
}

#[test]
fn identity_is_read_from_text() {
    let (certificate, key) = ("CERTIFICATE", "PRIVATE KEY");
    let chain = block(certificate, "AQID") + "a remark\n" + &block(certificate, "BAUG");
    let keys = block(certificate, "AQID") + &block(key, "BwgJ") + &block(key, "AQID");
    let identity = tls_identity(chain.as_bytes(), keys.as_bytes()).unwrap();
    assert_eq!(identity.certificates, vec![vec![1, 2, 3], vec![4, 5, 6]]);
    assert_eq!(identity.key, vec![7, 8, 9]);
    // No certificates at all are for others to refuse
    let identity = tls_identity(b"", keys.as_bytes()).unwrap();
    assert!(identity.certificates.is_empty());

    let fault = |chain: &str, keys: &str| match tls_identity(chain.as_bytes(), keys.as_bytes()) {
        Err(fault) => fault,
        Ok(_) => panic!("expected a fault"),
    };
    let torn = format!("-----BEGIN {certificate}-----\nAQID\n");
    assert_eq!(fault(&torn, &torn), TlsFault::BadCertificates);
    assert_eq!(fault(&chain, &torn), TlsFault::BadKeys);
    assert_eq!(fault(&chain, &block(key, "?")), TlsFault::BadKeys);
    assert_eq!(fault(&chain, &chain), TlsFault::NoKey);
}

#[test]
fn identity_is_the_chain_and_the_first_key() {
    let fault = |certificates, keys| choose_identity(certificates, keys).err();
    assert_eq!(fault(None, None), Some(TlsFault::BadCertificates));
    assert_eq!(fault(Some(vec![]), None), Some(TlsFault::BadKeys));
    assert_eq!(fault(Some(vec![]), Some(vec![])), Some(TlsFault::NoKey));
    let identity = choose_identity(Some(vec![vec![1], vec![2]]), Some(vec![vec![3], vec![4]]));
    let identity = identity.ok().expect("an identity");
    assert_eq!(identity.certificates, vec![vec![1], vec![2]]);
    assert_eq!(identity.key, vec![3]);
    assert_eq!(TlsFault::BadCertificates.text(), "Invalid certificate data");
    assert_eq!(TlsFault::BadKeys.text(), "Invalid private key data");
    assert_eq!(TlsFault::NoKey.text(), "No private keys found");
}

#[test]
fn bytes_that_are_no_token_are_refused() {
    match token_from_bytes(&[1, 2, 3]) {
        Err(ClientError::Deserialization(detail)) => assert!(!detail.is_empty()),
        _ => panic!("expected an error"),
    }
    match import_token("0102") {
        Err(ClientError::Io(detail)) => {
            assert!(detail.starts_with("Failed to decode token data: "))
        }
        _ => panic!("expected an error"),
    }
}

#[test]
fn text_that_is_not_hexadecimal_is_refused() {
    let detail = |text: &str| match import_token(text) {
        Err(ClientError::Io(detail)) => detail,
        _ => panic!("expected an error"),
    };
    assert_eq!(detail("abc"), "Invalid hex content in file: Odd number of digits");
    assert_eq!(detail("0z"), "Invalid hex content in file: Invalid character 'z' at position 1");
    assert_eq!(detail("00 11 "), "Invalid hex content in file: Odd number of digits");
    assert_eq!(detail("00\n1"), "Invalid hex content in file: Invalid character '\\n' at position 2");
}

#[test]
fn hexadecimal_text_is_read() {
    assert_eq!(bytes_from_text("00ff7F").unwrap(), vec![0, 255, 127]);
    assert_eq!(bytes_from_text("  ").unwrap(), Vec::<u8>::new());
    assert_eq!(bytes_from_text("0"), Err(HexError::OddLength));
    assert_eq!(
        bytes_from_text("00g0zz"),
        Err(HexError::InvalidHexCharacter { c: 'g', index: 2 })
    );
    for byte in 0..=255u8 {
        assert_eq!(bytes_from_text(&hex::encode([byte])).unwrap(), vec![byte]);
    }
    assert_eq!(HexError::InvalidStringLength.message(), "Invalid string length");
}

#[test]
fn long_texts_are_cut_into_lines() {
    let text: String = (0..150).map(|i| if i % 2 == 0 { 'a' } else { 'b' }).collect();
    let lines = hex_lines(&text);
    assert_eq!(lines.len(), 3);
    assert_eq!(lines[0].len(), 64);
    assert_eq!(lines[1].len(), 64);
    assert_eq!(lines[2].len(), 22);
    assert_eq!(lines.concat(), text);
    assert_eq!(hex_lines("").len(), 0);
    assert_eq!(hex_lines(&text[..128]).len(), 2);
}

#[test]
fn private_key_is_kept() {
    let first = load_key(None);
    let bytes = first.save.clone().expect("a new key is to be written down");
    assert_eq!(bytes, bincode::serde::encode_to_vec(&first.key, bincode::config::standard()).unwrap());
    let again = load_key(Some(bytes.clone()));
    assert!(again.save.is_none());
    assert_eq!(
        bincode::serde::encode_to_vec(&again.key, bincode::config::standard()).unwrap(),
        bytes
    );
    // What cannot be read is replaced
    let other = load_key(Some(vec![1, 2, 3]));
    assert!(other.save.is_some());
    assert_ne!(other.save.unwrap(), bytes);
}

#[test]
fn key_that_was_kept_accepts_old_tokens() {
    let first = load_key(None);
    let params = Params::nothing_up_my_sleeve(b"innocence v0.1");
    let pre_issuance = PreIssuance::random(OsRng);
    let request = pre_issuance.request(&params, OsRng);
    let response = first.key.issue(&params, &request, Scalar::from(9u128), OsRng).unwrap();
    let token =
        pre_issuance.to_credit_token(&params, first.key.public(), &request, &response).unwrap();
    let sent = token.prove_spend(&params, Scalar::from(2u128), OsRng).0;

    let issuer = Issuer::new(load_key(first.save).key);
    let mut records = Records::new();
    assert!(matches!(
        records.process_token(&issuer, Request::Spend(sent)),
        Ok(Response::Refund(_))
    ));
}
