use doc_conditions::commitment::{commit, evaluate, PublicValues};
use doc_conditions::condition::{Comparator, ConditionError, Literal, Step};
use doc_conditions::document::{Document, JsonValue, PublicKeyDirectory, SignedData};
use doc_conditions::evaluate::{evaluate_conditions, value_from};
use doc_conditions::parse::parse_conditions;
use doc_conditions::signature::{count_valid_signatures, select_keys, verify_signature, EvaluationError};
use doc_conditions::canonical::signed_message_bytes;
use ed25519_dalek::{Signer, SigningKey};

fn doc(signer: &str, signature: &str, data: JsonValue) -> Document {
    Document {
        signed_data: SignedData {
            data,
            signature: signature.to_string(),
            signed_at: "2024-05-01T10:00:00Z".to_string(),
            signer: signer.to_string(),
        },
        processed_at: "2024-05-01T10:05:00Z".to_string(),
        document_text_length: 42,
    }
}

fn signing_key(seed: u8) -> SigningKey {
    SigningKey::from_bytes(&[seed; 32])
}

fn public_key_hex(seed: u8) -> String {
    hex::encode(signing_key(seed).verifying_key().to_bytes())
}

/// A document whose signature is made with the key of `seed` over its signed message.
fn signed(signer: &str, seed: u8, data: JsonValue) -> Document {
    let mut d = doc(signer, "", data);
    let message = signed_message_bytes(&d.signed_data);
    d.signed_data.signature = hex::encode(signing_key(seed).sign(&message).to_bytes());
    d
}

fn obj(members: Vec<(&str, JsonValue)>) -> JsonValue {
    JsonValue::Object(members.into_iter().map(|(k, v)| (k.to_string(), v)).collect())
}

fn batch() -> Vec<Document> {
    vec![
        signed(
            "alice",
            1,
            obj(vec![
                ("amount", JsonValue::Number(100)),
                ("currency", JsonValue::Text("EUR".to_string())),
                ("approved", JsonValue::Bool(true)),
                ("items", JsonValue::Array(vec![JsonValue::Number(7), obj(vec![("sku", JsonValue::Text("A-1".to_string()))])])),
            ]),
        ),
        signed("bob", 2, obj(vec![("amount", JsonValue::Number(250))])),
    ]
}

fn directory() -> PublicKeyDirectory {
    let mut d = PublicKeyDirectory::new();
    d.insert("alice".to_string(), public_key_hex(1));
    d
}

fn holds(text: &str) -> bool {
    evaluate_conditions(text, &batch()).unwrap()
}

#[test]
fn registered_signer_and_true_condition() {
    let pv = evaluate("documents[0].signed_data.data.amount == 100", &batch(), &directory()).unwrap();
    assert_eq!(pv.num_signatures_verified, 1);
    assert!(pv.conditions_verified);
}

#[test]
fn out_of_range_document_is_false() {
    let pv = evaluate("documents[5].signed_data.data.amount == 100", &batch(), &directory()).unwrap();
    assert!(!pv.conditions_verified);
    assert_eq!(pv.num_signatures_verified, 1);
}

#[test]
fn one_false_line_fails_the_set() {
    let text = "documents[0].signed_data.data.amount == 100\ndocuments[1].signed_data.data.amount == 100";
    let pv = evaluate(text, &batch(), &directory()).unwrap();
    assert!(!pv.conditions_verified);
    assert!(holds("documents[0].signed_data.data.amount == 100\ndocuments[1].signed_data.data.amount == 250"));
}

#[test]
fn empty_condition_text_holds() {
    assert!(holds(""));
    assert!(holds("\n  \n\r\n"));
    let pv = evaluate("", &Vec::new(), &PublicKeyDirectory::new()).unwrap();
    assert!(pv.conditions_verified);
    assert_eq!(pv.num_signatures_verified, 0);
}

#[test]
fn string_against_number_is_false() {
    assert!(!holds("documents[0].signed_data.data.currency == 100"));
    assert!(!holds("documents[0].signed_data.data.currency != 100"));
    assert!(!holds("documents[0].signed_data.data.amount == \"100\""));
    assert!(!holds("documents[0].signed_data.signer == 5"));
}

#[test]
fn comparators_on_numbers() {
    assert!(holds("documents[0].signed_data.data.amount != 99"));
    assert!(holds("documents[0].signed_data.data.amount < 101"));
    assert!(!holds("documents[0].signed_data.data.amount < 100"));
    assert!(holds("documents[0].signed_data.data.amount <= 100"));
    assert!(holds("documents[1].signed_data.data.amount > 249"));
    assert!(holds("documents[1].signed_data.data.amount >= 250"));
    assert!(!holds("documents[1].signed_data.data.amount >= 251"));
    assert!(holds("documents[1].signed_data.data.amount > -3"));
}

#[test]
fn strings_booleans_and_nesting() {
    assert!(holds("documents[0].signed_data.data.currency == \"EUR\""));
    assert!(holds("documents[0].signed_data.data.currency < \"EUS\""));
    assert!(!holds("documents[0].signed_data.data.currency > \"EUR\""));
    assert!(holds("documents[0].signed_data.data.approved == true"));
    assert!(!holds("documents[0].signed_data.data.approved < true"));
    assert!(holds("documents[0].signed_data.data.items[0] == 7"));
    assert!(holds("documents[0].signed_data.data.items[1].sku == \"A-1\""));
    assert!(!holds("documents[0].signed_data.data.items[2] == 7"));
    assert!(!holds("documents[0].signed_data.data.missing == 7"));
}

#[test]
fn envelope_fields() {
    assert!(holds("documents[1].signed_data.signer == \"bob\""));
    assert!(holds("documents[1].signed_data.signature != \"\""));
    assert!(holds("documents[0].signed_data.signed_at == \"2024-05-01T10:00:00Z\""));
    assert!(holds("documents[0].processed_at == \"2024-05-01T10:05:00Z\""));
    assert!(holds("documents[0].document_text_length == 42"));
    assert!(!holds("documents[0].signed_data == 1"));
}

#[test]
fn malformed_conditions_are_errors() {
    for text in [
        "amount == 100",
        "documents[0].signed_data.data.amount = 100",
        "documents[0].signed_data.data.amount == ",
        "documents[0].signed_data.data.amount == 1.5",
        "documents[x].signed_data == 1",
        "documents[0]. == 1",
        "documents[0].a == \"open",
        "documents[0].a == 99999999999999999999",
        "documents[0].signed_data.data.amount == 100 extra",
    ] {
        assert!(matches!(evaluate_conditions(text, &batch()), Err(ConditionError::Malformed)), "{}", text);
    }
    assert!(evaluate("ok\n", &batch(), &directory()).is_err());
}

#[test]
fn parsed_condition_shape() {
    let conds = parse_conditions("  documents[3].signed_data.data.xs[12] >= -4  ").unwrap();
    assert_eq!(conds.len(), 1);
    let c = &conds[0];
    assert_eq!(c.document, 3);
    assert!(c.comparator == Comparator::Ge);
    assert!(matches!(c.literal, Literal::Number(-4)));
    assert_eq!(c.path.len(), 4);
    assert!(matches!(&c.path[2], Step::Field(n) if n.as_slice() == b"xs"));
    assert!(matches!(c.path[3], Step::Index(12)));
}

#[test]
fn path_resolution() {
    let data = obj(vec![("a", JsonValue::Array(vec![JsonValue::Null, JsonValue::Number(5)]))]);
    let path = vec![Step::Field(b"a".to_vec()), Step::Index(1)];
    assert!(matches!(value_from(&data, &path, 0), Some(JsonValue::Number(5))));
    assert!(matches!(value_from(&data, &path, 2), Some(JsonValue::Object(_))));
    let bad = vec![Step::Field(b"b".to_vec())];
    assert!(value_from(&data, &bad, 0).is_none());
}

#[test]
fn signature_checks() {
    let dir = directory();
    let docs = batch();
    assert_eq!(verify_signature(&docs[0].signed_data, &dir), Ok(true));
    assert_eq!(verify_signature(&docs[1].signed_data, &dir), Ok(false));
    let unsigned = doc("alice", "", JsonValue::Null);
    assert_eq!(verify_signature(&unsigned.signed_data, &dir), Ok(false));
    assert_eq!(count_valid_signatures(&docs, &dir), Ok(1));
    let mut both = directory();
    both.insert("bob".to_string(), public_key_hex(2));
    assert_eq!(count_valid_signatures(&docs, &both), Ok(2));
    assert!(both.contains_signer(&"bob".to_string()));
    assert!(!both.contains_signer(&"carol".to_string()));
}

#[test]
fn tampered_or_foreign_signatures_are_rejected() {
    let dir = directory();
    let mut tampered = signed("alice", 1, obj(vec![("amount", JsonValue::Number(100))]));
    tampered.signed_data.data = obj(vec![("amount", JsonValue::Number(101))]);
    assert_eq!(verify_signature(&tampered.signed_data, &dir), Ok(false));
    let mut redated = signed("alice", 1, JsonValue::Null);
    redated.signed_data.signed_at = "2030-01-01T00:00:00Z".to_string();
    assert_eq!(verify_signature(&redated.signed_data, &dir), Ok(false));
    let foreign = signed("alice", 3, JsonValue::Null);
    assert_eq!(verify_signature(&foreign.signed_data, &dir), Ok(false));
}

#[test]
fn malformed_encodings_are_errors() {
    let dir = directory();
    let not_hex = doc("alice", "zz", JsonValue::Null);
    assert_eq!(verify_signature(&not_hex.signed_data, &dir), Err(EvaluationError::MalformedSignature));
    let short = doc("alice", "abcd", JsonValue::Null);
    assert_eq!(verify_signature(&short.signed_data, &dir), Err(EvaluationError::MalformedSignature));
    let mut bad_keys = PublicKeyDirectory::new();
    bad_keys.insert("alice".to_string(), "0123".to_string());
    let good = signed("alice", 1, JsonValue::Null);
    assert_eq!(verify_signature(&good.signed_data, &bad_keys), Err(EvaluationError::MalformedKey));
    assert_eq!(
        evaluate("", &vec![good, not_hex], &directory()).map(|pv| pv.num_signatures_verified),
        Err(EvaluationError::MalformedSignature)
    );
    let unknown_signer = doc("dave", "not hex at all", JsonValue::Null);
    assert_eq!(verify_signature(&unknown_signer.signed_data, &dir), Ok(false));
}

#[test]
fn signature_count_never_exceeds_registered() {
    let docs = vec![
        signed("alice", 1, JsonValue::Null),
        doc("alice", "", JsonValue::Null),
        signed("carol", 4, JsonValue::Null),
    ];
    let n = count_valid_signatures(&docs, &directory()).unwrap();
    assert_eq!(n, 1);
    assert!(n as usize <= docs.len());
}

#[test]
fn commitment_encoding() {
    let pv = PublicValues { conditions_verified: true, num_signatures_verified: 1 };
    assert_eq!(pv.to_bytes(), br#"{"conditions_verified":true,"num_signatures_verified":1}"#.to_vec());
    let pv = PublicValues { conditions_verified: false, num_signatures_verified: 4096 };
    assert_eq!(pv.to_bytes(), br#"{"conditions_verified":false,"num_signatures_verified":4096}"#.to_vec());
    let pv = PublicValues { conditions_verified: false, num_signatures_verified: u32::MAX };
    assert_eq!(pv.to_bytes(), br#"{"conditions_verified":false,"num_signatures_verified":4294967295}"#.to_vec());
}

#[test]
fn commitment_is_deterministic() {
    let text = "documents[0].signed_data.data.amount == 100";
    let a = commit(text, &batch(), &directory()).unwrap();
    let b = commit(text, &batch(), &directory()).unwrap();
    assert_eq!(a, b);
    assert_eq!(a, br#"{"conditions_verified":true,"num_signatures_verified":1}"#.to_vec());
    assert!(commit("bad", &batch(), &directory()).is_err());
}

#[test]
fn key_selection_keeps_batch_signers_only() {
    let mut keys = PublicKeyDirectory::new();
    keys.insert("alice".to_string(), public_key_hex(9));
    keys.insert("carol".to_string(), public_key_hex(4));
    keys.insert("alice".to_string(), public_key_hex(1));
    let docs = batch();
    let selected = select_keys(&docs, &keys);
    assert_eq!(selected.key_of(&"alice".to_string()), Some(&public_key_hex(1)));
    assert!(selected.key_of(&"carol".to_string()).is_none());
    assert!(selected.key_of(&"bob".to_string()).is_none());
    assert_eq!(count_valid_signatures(&docs, &selected), count_valid_signatures(&docs, &keys));
    assert_eq!(count_valid_signatures(&docs, &selected), Ok(1));
}
