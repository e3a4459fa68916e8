use verify_mldsa_host::cases::{
    case_tampered_signature, case_wrong_message, case_wrong_pubkey, valid_batch, valid_case,
    MlDsaCase,
};
use verify_mldsa_host::input::write_batch;
use verify_mldsa_host::mldsa::{PK_LEN, SIG_LEN};
use verify_mldsa_host::verify_guest::{verify_batch, BatchRejection};

fn frames_of(cases: &[MlDsaCase]) -> Vec<Vec<u8>> {
    let mut frames = Vec::new();
    write_batch(&mut frames, cases);
    frames
}

fn expected_output(cases: &[MlDsaCase]) -> Vec<u8> {
    let mut out = Vec::new();
    for c in cases {
        out.extend_from_slice(&c.pk_bytes);
        out.extend_from_slice(&c.message);
    }
    out
}

#[test]
fn m1_cases_accepted_exactly_when_valid() {
    let cases = vec![
        valid_case("valida-01", b"transacao de teste 01").unwrap(),
        valid_case("valida-02", b"transacao de teste 02").unwrap(),
        valid_case("valida-03", b"").unwrap(),
        valid_case("valida-04", &vec![0xAB; 512]).unwrap(),
        valid_case("valida-05", b"mensagem unicode: acao, nao, coracao").unwrap(),
        valid_case("valida-06", b"transacao de teste 06").unwrap(),
        case_tampered_signature("invalida-assinatura-01", b"transacao de teste 07").unwrap(),
        case_tampered_signature("invalida-assinatura-02", b"").unwrap(),
        case_wrong_message(
            "invalida-mensagem-01",
            b"mensagem assinada",
            b"mensagem reivindicada, diferente da assinada",
        )
        .unwrap(),
        case_wrong_pubkey("invalida-pubkey-01", b"transacao de teste 08").unwrap(),
    ];
    assert!(cases.len() >= 10);
    for case in &cases {
        let frames = frames_of(std::slice::from_ref(case));
        let outcome = verify_batch(&frames);
        match (&outcome, case.expected_valid) {
            (Ok(out), true) => assert_eq!(out, &expected_output(std::slice::from_ref(case))),
            (Err(e), false) => {
                assert_eq!(e, &BatchRejection::InvalidSignature { index: 0 }, "{}", case.label)
            }
            (Ok(_), false) => panic!("[{}] should have been refused", case.label),
            (Err(_), true) => panic!("[{}] should have been accepted", case.label),
        }
    }
}

#[test]
fn valid_case_has_the_given_label_and_message() {
    let case = valid_case("demo", b"hello").unwrap();
    assert_eq!(case.label, "demo");
    assert_eq!(case.message, b"hello".to_vec());
    assert_eq!(case.pk_bytes.len(), PK_LEN);
    assert_eq!(case.sig_bytes.len(), SIG_LEN);
    assert!(case.expected_valid);
}

#[test]
fn valid_cases_use_fresh_keys() {
    let a = valid_case("a", b"same").unwrap();
    let b = valid_case("b", b"same").unwrap();
    assert_ne!(a.pk_bytes, b.pk_bytes);
}

#[test]
fn tampered_signature_differs_in_last_bit_only() {
    let case = case_tampered_signature("t", b"payload").unwrap();
    assert!(!case.expected_valid);
    assert_eq!(case.sig_bytes.len(), SIG_LEN);
    let mut restored = case.sig_bytes.clone();
    restored[SIG_LEN - 1] ^= 0x01;
    let genuine = MlDsaCase {
        label: String::from("g"),
        pk_bytes: case.pk_bytes.clone(),
        message: case.message.clone(),
        sig_bytes: restored,
        expected_valid: true,
    };
    assert!(verify_batch(&frames_of(std::slice::from_ref(&genuine))).is_ok());
    assert!(verify_batch(&frames_of(std::slice::from_ref(&case))).is_err());
}

#[test]
fn wrong_message_case_verifies_the_signed_message() {
    let case = case_wrong_message("w", b"signed", b"claimed").unwrap();
    assert_eq!(case.message, b"claimed".to_vec());
    let signed = MlDsaCase {
        label: String::from("s"),
        pk_bytes: case.pk_bytes.clone(),
        message: b"signed".to_vec(),
        sig_bytes: case.sig_bytes.clone(),
        expected_valid: true,
    };
    assert!(verify_batch(&frames_of(std::slice::from_ref(&signed))).is_ok());
    assert_eq!(
        verify_batch(&frames_of(std::slice::from_ref(&case))),
        Err(BatchRejection::InvalidSignature { index: 0 })
    );
}

#[test]
fn wrong_pubkey_case_is_refused() {
    let case = case_wrong_pubkey("p", b"transfer").unwrap();
    assert!(!case.expected_valid);
    assert_eq!(case.pk_bytes.len(), PK_LEN);
    assert_eq!(
        verify_batch(&frames_of(std::slice::from_ref(&case))),
        Err(BatchRejection::InvalidSignature { index: 0 })
    );
}

#[test]
fn valid_batch_labels_and_messages() {
    let batch = valid_batch("m3-bench", 12).unwrap();
    assert_eq!(batch.len(), 12);
    assert_eq!(batch[0].label, "m3-bench-0");
    assert_eq!(batch[0].message, b"m3-bench-msg-0".to_vec());
    assert_eq!(batch[11].label, "m3-bench-11");
    assert_eq!(batch[11].message, b"m3-bench-msg-11".to_vec());
    for (i, c) in batch.iter().enumerate() {
        assert!(c.expected_valid);
        for d in &batch[i + 1..] {
            assert_ne!(c.message, d.message);
            assert_ne!(c.label, d.label);
        }
    }
}

#[test]
fn valid_batch_of_zero_is_empty() {
    assert_eq!(valid_batch("none", 0).unwrap().len(), 0);
}

#[test]
fn batch_of_valid_cases_is_accepted_with_keys_and_messages() {
    let batch = valid_batch("lote", 3).unwrap();
    let out = verify_batch(&frames_of(&batch)).unwrap();
    assert_eq!(out, expected_output(&batch));
    assert_eq!(out.len(), 3 * PK_LEN + batch.iter().map(|c| c.message.len()).sum::<usize>());
}

#[test]
fn one_bad_case_refuses_the_whole_batch() {
    let mut batch = valid_batch("lote", 3).unwrap();
    batch.insert(2, case_tampered_signature("bad", b"x").unwrap());
    assert_eq!(
        verify_batch(&frames_of(&batch)),
        Err(BatchRejection::InvalidSignature { index: 2 })
    );
}

#[test]
fn write_batch_frames() {
    let batch = valid_batch("f", 2).unwrap();
    let mut frames = vec![vec![9u8]];
    write_batch(&mut frames, &batch);
    assert_eq!(frames.len(), 1 + 1 + 6);
    assert_eq!(frames[0], vec![9u8]);
    assert_eq!(frames[1], vec![2u8, 0, 0, 0]);
    assert_eq!(frames[2], batch[0].pk_bytes);
    assert_eq!(frames[3], batch[0].message);
    assert_eq!(frames[4], batch[0].sig_bytes);
    assert_eq!(frames[7], batch[1].sig_bytes);
}

#[test]
fn empty_batch_is_accepted_with_empty_output() {
    assert_eq!(verify_batch(&vec![vec![0u8, 0, 0, 0]]), Ok(vec![]));
}

#[test]
fn missing_and_malformed_frames_are_refused() {
    assert_eq!(verify_batch(&vec![]), Err(BatchRejection::MissingFrame));
    assert_eq!(verify_batch(&vec![vec![1u8, 0, 0]]), Err(BatchRejection::MalformedCount));
    assert_eq!(
        verify_batch(&vec![vec![1u8, 0, 0, 0], vec![0u8; PK_LEN], vec![]]),
        Err(BatchRejection::MissingFrame)
    );
    assert_eq!(
        verify_batch(&vec![vec![1u8, 0, 0, 0], vec![0u8; 10], vec![], vec![0u8; SIG_LEN]]),
        Err(BatchRejection::PublicKeyLength { index: 0 })
    );
    assert_eq!(
        verify_batch(&vec![vec![1u8, 0, 0, 0], vec![0u8; PK_LEN], vec![], vec![0u8; 5]]),
        Err(BatchRejection::SignatureLength { index: 0 })
    );
}

#[test]
fn count_frame_may_carry_trailing_bytes_and_extra_frames_are_ignored() {
    let case = valid_case("c", b"m").unwrap();
    let mut frames = vec![vec![1u8, 0, 0, 0, 77]];
    frames.push(case.pk_bytes.clone());
    frames.push(case.message.clone());
    frames.push(case.sig_bytes.clone());
    frames.push(vec![1, 2, 3]);
    assert_eq!(verify_batch(&frames), Ok(expected_output(std::slice::from_ref(&case))));
}
