use verify_mldsa_host::cases::{
    case_from_signing, claim_message, replace_public_key, tamper_signature, MlDsaCase,
};

fn sample() -> MlDsaCase {
    MlDsaCase {
        label: String::from("x"),
        pk_bytes: vec![1, 2, 3],
        message: b"msg".to_vec(),
        sig_bytes: vec![7, 8, 0x10],
        expected_valid: true,
    }
}

#[test]
fn case_from_signing_builds_or_fails() {
    assert!(case_from_signing("a", b"m", None).is_none());
    let c = case_from_signing("a", b"m", Some((vec![9, 9], vec![4, 5, 6]))).unwrap();
    assert_eq!(c.label, "a");
    assert_eq!(c.message, b"m".to_vec());
    assert_eq!(c.pk_bytes, vec![9, 9]);
    assert_eq!(c.sig_bytes, vec![4, 5, 6]);
    assert!(c.expected_valid);
}

#[test]
fn tamper_signature_flips_lowest_bit_of_last_byte() {
    let c = tamper_signature(sample());
    assert_eq!(c.sig_bytes, vec![7, 8, 0x11]);
    assert_eq!(c.pk_bytes, vec![1, 2, 3]);
    assert_eq!(c.message, b"msg".to_vec());
    assert_eq!(c.label, "x");
    assert!(!c.expected_valid);
}

#[test]
fn claim_message_replaces_the_message() {
    let c = claim_message(sample(), b"other");
    assert_eq!(c.message, b"other".to_vec());
    assert_eq!(c.sig_bytes, vec![7, 8, 0x10]);
    assert!(!c.expected_valid);
}

#[test]
fn replace_public_key_replaces_or_fails() {
    assert!(replace_public_key(sample(), None).is_none());
    let c = replace_public_key(sample(), Some(vec![5])).unwrap();
    assert_eq!(c.pk_bytes, vec![5]);
    assert_eq!(c.sig_bytes, vec![7, 8, 0x10]);
    assert_eq!(c.message, b"msg".to_vec());
    assert!(!c.expected_valid);
}
