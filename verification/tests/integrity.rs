use cork_core::hash::sha256;
use cork_core::integrity::{bytes_equal, compare_digest, verify_canonical_sha256, Sha256Verification};
use cork_core::messages::{CanonicalJsonDocument, Sha256};
use cork_core::status::Code;

fn document(bytes: &[u8], declared: Option<Vec<u8>>) -> CanonicalJsonDocument {
    CanonicalJsonDocument {
        canonical_json_utf8: bytes.to_vec(),
        sha256: declared.map(|bytes32| Sha256 { bytes32 }),
        schema_id: "cork.graph_patch.v0.1".to_string(),
    }
}

#[test]
fn absent_digest_passes_whatever_the_content() {
    for bytes in [&b""[..], &b"{}"[..], &b"not even json"[..], &[0xffu8, 0x00, 0x80][..]] {
        let result = verify_canonical_sha256(&document(bytes, None));
        assert_eq!(result, Ok(Sha256Verification::MatchOrMissing));
    }
}

#[test]
fn empty_digest_passes_whatever_the_content() {
    for bytes in [&b""[..], &b"{}"[..], &b"not even json"[..]] {
        let result = verify_canonical_sha256(&document(bytes, Some(Vec::new())));
        assert_eq!(result, Ok(Sha256Verification::MatchOrMissing));
    }
}

#[test]
fn matching_digest_passes() {
    let bytes = b"{\"a\":1}";
    let declared = sha256(bytes).to_vec();
    let result = verify_canonical_sha256(&document(bytes, Some(declared)));
    assert_eq!(result, Ok(Sha256Verification::MatchOrMissing));
}

#[test]
fn any_single_byte_difference_fails_with_both_digests() {
    let bytes = b"{\"a\":1}";
    let computed = sha256(bytes);
    for at in 0..32 {
        let mut declared = computed.to_vec();
        declared[at] ^= 0x01;
        let result = verify_canonical_sha256(&document(bytes, Some(declared.clone())));
        assert_eq!(
            result,
            Ok(Sha256Verification::Mismatch { expected: computed, provided: declared })
        );
    }
}

#[test]
fn a_changed_document_fails_against_its_old_digest() {
    let declared = sha256(b"{\"a\":1}").to_vec();
    let result = verify_canonical_sha256(&document(b"{\"a\":2}", Some(declared.clone())));
    assert_eq!(
        result,
        Ok(Sha256Verification::Mismatch { expected: sha256(b"{\"a\":2}"), provided: declared })
    );
}

#[test]
fn wrong_length_digest_is_malformed_not_a_mismatch() {
    for len in (1..32).chain(33..70) {
        let result = verify_canonical_sha256(&document(b"{}", Some(vec![0u8; len])));
        let status = result.expect_err("malformed declaration");
        assert_eq!(status.code, Code::InvalidArgument);
        assert_eq!(status.message, "declared digest must be exactly 32 bytes");
    }
}

#[test]
fn wrong_length_prefix_of_the_right_digest_is_malformed() {
    let bytes = b"{}";
    let mut declared = sha256(bytes).to_vec();
    declared.truncate(31);
    let status = verify_canonical_sha256(&document(bytes, Some(declared))).expect_err("malformed");
    assert_eq!(status.code, Code::InvalidArgument);
    let mut declared = sha256(bytes).to_vec();
    declared.push(0);
    let status = verify_canonical_sha256(&document(bytes, Some(declared))).expect_err("malformed");
    assert_eq!(status.code, Code::InvalidArgument);
}

#[test]
fn compare_digest_tells_equal_from_unequal() {
    let computed = [0xabu8; 32];
    assert_eq!(compare_digest(computed, &vec![0xab; 32]), Sha256Verification::MatchOrMissing);
    let mut other = vec![0xab; 32];
    other[31] = 0xac;
    assert_eq!(
        compare_digest(computed, &other),
        Sha256Verification::Mismatch { expected: computed, provided: other }
    );
    assert_eq!(
        compare_digest(computed, &vec![0xab; 31]),
        Sha256Verification::Mismatch { expected: computed, provided: vec![0xab; 31] }
    );
}

#[test]
fn bytes_equal_compares_byte_for_byte() {
    assert!(bytes_equal(&[], &[]));
    assert!(bytes_equal(&[1, 2, 3], &[1, 2, 3]));
    assert!(!bytes_equal(&[1, 2, 3], &[1, 2, 4]));
    assert!(!bytes_equal(&[1, 2, 3], &[1, 2]));
    assert!(!bytes_equal(&[], &[0]));
}
