//! The integrity gate: reconciles a document's declared digest with the
//! digest of its bytes.

use crate::hash::{sha256, sha256_digest};
use crate::messages::CanonicalJsonDocument;
use crate::status::{Code, Status, StatusView};
use vstd::prelude::*;

verus! {

/// The result of checking a document whose declaration is well-formed.
#[derive(Clone, Debug, PartialEq, Eq)]
pub enum Sha256Verification {
    /// No digest was declared, or the declared one is the digest of the bytes.
    MatchOrMissing,
    /// The declared digest differs from the digest of the bytes.
    Mismatch { expected: [u8; 32], provided: Vec<u8> },
}

/// The three ways a check can end.
pub enum DigestOutcome {
    /// Nothing was declared, or the declaration is right.
    Pass,
    /// The declaration is well-formed and wrong.
    Fail { computed: Seq<u8>, declared: Seq<u8> },
    /// The declaration is neither empty nor 32 bytes long.
    Malformed,
}

/// The outcome for a declaration and the digest of the document's bytes.
pub open spec fn reconcile(declared: Option<Seq<u8>>, computed: Seq<u8>) -> DigestOutcome {
    match declared {
        None => DigestOutcome::Pass,
        Some(bytes) => if bytes.len() == 0 {
            DigestOutcome::Pass
        } else if bytes.len() != 32 {
            DigestOutcome::Malformed
        } else if bytes == computed {
            DigestOutcome::Pass
        } else {
            DigestOutcome::Fail { computed, declared: bytes }
        },
    }
}

/// The outcome that a document deserves.
pub open spec fn document_outcome(doc: &CanonicalJsonDocument) -> DigestOutcome {
    reconcile(doc.declared_digest(), sha256_digest(doc.canonical_json_utf8@))
}

/// The failure reported for a declaration of the wrong length.
pub open spec fn malformed_digest_status() -> StatusView {
    StatusView { code: Code::InvalidArgument, message: "declared digest must be exactly 32 bytes"@ }
}

impl Sha256Verification {
    /// The outcome that this value stands for.
    pub open spec fn outcome(&self) -> DigestOutcome {
        match self {
            Sha256Verification::MatchOrMissing => DigestOutcome::Pass,
            Sha256Verification::Mismatch { expected, provided } => DigestOutcome::Fail {
                computed: expected@,
                declared: provided@,
            },
        }
    }
}

/// The outcome that a check's result stands for.
pub open spec fn outcome_of(result: Result<Sha256Verification, Status>) -> DigestOutcome {
    match result {
        Ok(verification) => verification.outcome(),
        Err(_) => DigestOutcome::Malformed,
    }
}

/// Whether two byte strings are equal, byte for byte.
pub fn bytes_equal(left: &[u8], right: &[u8]) -> (equal: bool)
    ensures
        equal == (left@ == right@),
{
    if left.len() != right.len() {
        return false;
    }
    let mut i: usize = 0;
    while i < left.len()
        invariant
            i <= left.len(),
            left.len() == right.len(),
            forall|j: int| 0 <= j < i ==> left@[j] == right@[j],
        decreases left.len() - i,
    {
        if left[i] != right[i] {
            return false;
        }
        i += 1;
    }
    assert(left@ =~= right@);
    true
}

/// Compares a declared digest with the digest computed from the bytes.
pub fn compare_digest(computed: [u8; 32], declared: &Vec<u8>) -> (verification:
    Sha256Verification)
    ensures
        verification.outcome() == if declared@ == computed@ {
            DigestOutcome::Pass
        } else {
            DigestOutcome::Fail { computed: computed@, declared: declared@ }
        },
{
    if bytes_equal(declared.as_slice(), computed.as_slice()) {
        Sha256Verification::MatchOrMissing
    } else {
        Sha256Verification::Mismatch { expected: computed, provided: declared.clone() }
    }
}

/// Checks a document against its declared digest.
///
/// An absent or empty declaration passes unchecked. A declaration that is
/// neither empty nor 32 bytes long is refused as malformed input. Otherwise
/// the declaration is compared with the SHA-256 digest of the bytes.
pub fn verify_canonical_sha256(doc: &CanonicalJsonDocument) -> (result: Result<
    Sha256Verification,
    Status,
>)
    ensures
        outcome_of(result) == document_outcome(doc),
        result matches Err(status) ==> status@ == malformed_digest_status(),
{
    let sha = match &doc.sha256 {
        Some(sha) => sha,
        None => {
            return Ok(Sha256Verification::MatchOrMissing);
        },
    };
    if sha.bytes32.len() == 0 {
        return Ok(Sha256Verification::MatchOrMissing);
    }
    if sha.bytes32.len() != 32 {
        return Err(Status::invalid_argument("declared digest must be exactly 32 bytes"));
    }
    let computed = sha256(doc.canonical_json_utf8.as_slice());
    Ok(compare_digest(computed, &sha.bytes32))
}

/// A document without a declaration, or with an empty one, always passes.
pub proof fn lemma_undeclared_passes(computed: Seq<u8>)
    ensures
        reconcile(None, computed) == DigestOutcome::Pass,
        reconcile(Some(Seq::empty()), computed) == DigestOutcome::Pass,
{
}

/// A declaration equal to the digest of the bytes passes.
pub proof fn lemma_matching_digest_passes(computed: Seq<u8>)
    requires
        computed.len() == 32,
    ensures
        reconcile(Some(computed), computed) == DigestOutcome::Pass,
{
}

/// A 32-byte declaration that differs from the digest in at least one byte
/// fails, and the failure carries the computed and the declared bytes.
pub proof fn lemma_differing_digest_fails(declared: Seq<u8>, computed: Seq<u8>, at: int)
    requires
        declared.len() == 32,
        computed.len() == 32,
        0 <= at < 32,
        declared[at] != computed[at],
    ensures
        reconcile(Some(declared), computed) == (DigestOutcome::Fail { computed, declared }),
{
}

/// A declaration of 1 to 31 bytes, or of 33 or more, is malformed: the
/// outcome is neither a pass nor a failure of the comparison.
pub proof fn lemma_wrong_length_is_malformed(declared: Seq<u8>, computed: Seq<u8>)
    requires
        declared.len() != 0,
        declared.len() != 32,
    ensures
        reconcile(Some(declared), computed) == DigestOutcome::Malformed,
{
}

/// The outcome is malformed exactly for declarations that are neither
/// empty nor 32 bytes long.
pub proof fn lemma_malformed_iff_wrong_length(declared: Option<Seq<u8>>, computed: Seq<u8>)
    ensures
        reconcile(declared, computed) == DigestOutcome::Malformed <==> (declared matches Some(bytes)
            && bytes.len() != 0 && bytes.len() != 32),
{
}

} // verus!
