use sha2::{Digest, Sha256};
use verify_mldsa_host::aggregate_guest::{aggregate_merkle, aggregate_sub_proofs, AggregateRejection};
use verify_mldsa_host::input::{write_aggregate_input, SubProofClaim};
use verify_mldsa_host::merkle::{is_power_of_two, merkle_root};

fn sha(data: &[u8]) -> [u8; 32] {
    Sha256::digest(data).into()
}

fn pair(a: &[u8; 32], b: &[u8; 32]) -> [u8; 32] {
    let mut h = Sha256::new();
    h.update(a);
    h.update(b);
    h.finalize().into()
}

fn subs(n: usize) -> Vec<SubProofClaim> {
    (0..n)
        .map(|i| SubProofClaim {
            vk_digest: [i as u32, 1, 2, 3, 4, 5, 6, 0xdead_beef],
            public_values: format!("pv-{i}").into_bytes(),
        })
        .collect()
}

fn frames_of(subs: &[SubProofClaim]) -> Vec<Vec<u8>> {
    let mut frames = Vec::new();
    write_aggregate_input(&mut frames, subs);
    frames
}

#[test]
fn aggregate_input_frames() {
    let s = subs(2);
    let frames = frames_of(&s);
    assert_eq!(frames.len(), 5);
    assert_eq!(frames[0], vec![2u8, 0, 0, 0]);
    assert_eq!(frames[1].len(), 32);
    assert_eq!(&frames[1][0..4], &[0u8, 0, 0, 0]);
    assert_eq!(&frames[1][28..32], &[0xef, 0xbe, 0xad, 0xde]);
    assert_eq!(frames[2], b"pv-0".to_vec());
    assert_eq!(&frames[3][0..4], &[1u8, 0, 0, 0]);
    assert_eq!(frames[4], b"pv-1".to_vec());
}

#[test]
fn aggregate_reads_back_what_was_written() {
    let s = subs(3);
    let out = aggregate_sub_proofs(&frames_of(&s)).unwrap();
    assert_eq!(out.claims.len(), 3);
    for (claim, sub) in out.claims.iter().zip(&s) {
        assert_eq!(claim.vk_digest, sub.vk_digest);
        assert_eq!(claim.pv_digest, sha(&sub.public_values));
    }
    assert_eq!(out.public_values, b"pv-0pv-1pv-2".to_vec());
}

#[test]
fn aggregate_digest_is_sha256_of_public_values() {
    let s = vec![SubProofClaim { vk_digest: [0; 8], public_values: b"abc".to_vec() }];
    let out = aggregate_sub_proofs(&frames_of(&s)).unwrap();
    let expected: [u8; 32] = [
        0xba, 0x78, 0x16, 0xbf, 0x8f, 0x01, 0xcf, 0xea, 0x41, 0x41, 0x40, 0xde, 0x5d, 0xae, 0x22,
        0x23, 0xb0, 0x03, 0x61, 0xa3, 0x96, 0x17, 0x7a, 0x9c, 0xb4, 0x10, 0xff, 0x61, 0xf2, 0x00,
        0x15, 0xad,
    ];
    assert_eq!(out.claims[0].pv_digest, expected);
}

#[test]
fn aggregate_refusals() {
    assert_eq!(aggregate_sub_proofs(&vec![]).err(), Some(AggregateRejection::MissingFrame));
    assert_eq!(aggregate_sub_proofs(&vec![vec![1u8]]).err(), Some(AggregateRejection::MalformedCount));
    assert_eq!(
        aggregate_sub_proofs(&vec![vec![1u8, 0, 0, 0], vec![0u8; 31], vec![]]).err(),
        Some(AggregateRejection::MalformedKeyDigest { index: 0 })
    );
    assert_eq!(
        aggregate_sub_proofs(&vec![vec![1u8, 0, 0, 0], vec![0u8; 32]]).err(),
        Some(AggregateRejection::MissingFrame)
    );
    assert_eq!(
        aggregate_sub_proofs(&vec![vec![2u8, 0, 0, 0], vec![0u8; 32], vec![]]).err(),
        Some(AggregateRejection::MissingFrame)
    );
}

#[test]
fn merkle_root_of_one_leaf_is_the_leaf() {
    let leaf = sha(b"only");
    assert_eq!(merkle_root(vec![leaf]), leaf);
}

#[test]
fn merkle_root_of_four_leaves() {
    let l: Vec<[u8; 32]> = (0..4u8).map(|i| sha(&[i])).collect();
    let expected = pair(&pair(&l[0], &l[1]), &pair(&l[2], &l[3]));
    assert_eq!(merkle_root(l), expected);
}

#[test]
fn merkle_aggregate_commits_the_root_of_the_value_digests() {
    let s = subs(8);
    let out = aggregate_merkle(&frames_of(&s)).unwrap();
    assert_eq!(out.claims.len(), 8);
    let mut level: Vec<[u8; 32]> = s.iter().map(|x| sha(&x.public_values)).collect();
    while level.len() > 1 {
        level = level.chunks_exact(2).map(|p| pair(&p[0], &p[1])).collect();
    }
    assert_eq!(out.root, level[0]);
    let single = aggregate_merkle(&frames_of(&subs(1))).unwrap();
    assert_eq!(single.root, sha(b"pv-0"));
}

#[test]
fn merkle_aggregate_refuses_other_counts() {
    assert_eq!(aggregate_merkle(&frames_of(&subs(3))).err(), Some(AggregateRejection::CountNotPowerOfTwo));
    assert_eq!(aggregate_merkle(&frames_of(&subs(0))).err(), Some(AggregateRejection::CountNotPowerOfTwo));
    assert_eq!(aggregate_merkle(&frames_of(&subs(6))).err(), Some(AggregateRejection::CountNotPowerOfTwo));
}

#[test]
fn powers_of_two() {
    let expected: Vec<u32> = vec![1, 2, 4, 8, 16, 32, 64];
    let found: Vec<u32> = (0..70u32).filter(|n| is_power_of_two(*n)).collect();
    assert_eq!(found, expected);
    assert!(is_power_of_two(1 << 31));
    assert!(!is_power_of_two(u32::MAX));
}
