//! The digest engine: computes a content digest for a byte string and
//! compares it against an expected lowercase-hex digest.

use vstd::prelude::*;

verus! {

/// What `md5::compute` returns for the given bytes, rendered as lowercase
/// hexadecimal. The digest depends on the bytes alone.
pub uninterp spec fn md5_hex_of(bytes: Seq<u8>) -> Seq<char>;

/// The result of comparing a freshly computed digest against an expected one.
/// A mismatch is a completed, successful comparison, not an error.
#[derive(Clone, Debug, PartialEq)]
pub enum Outcome {
    Match,
    Mismatch { expected: String, actual: String },
}

/// Mathematical image of [`Outcome`], with the strings as character sequences.
pub enum OutcomeView {
    Match,
    Mismatch { expected: Seq<char>, actual: Seq<char> },
}

impl View for Outcome {
    type V = OutcomeView;

    open spec fn view(&self) -> OutcomeView {
        match self {
            Outcome::Match => OutcomeView::Match,
            Outcome::Mismatch { expected, actual } => (OutcomeView::Mismatch {
                expected: expected@,
                actual: actual@,
            }),
        }
    }
}

/// The comparison the digest engine performs: `Match` exactly when the
/// expected digest equals the digest of the bytes, else a `Mismatch`
/// carrying both digests.
pub open spec fn outcome_of(bytes: Seq<u8>, expected: Seq<char>) -> OutcomeView {
    if expected == md5_hex_of(bytes) {
        OutcomeView::Match
    } else {
        OutcomeView::Mismatch { expected: expected, actual: md5_hex_of(bytes) }
    }
}

/// Relies on `md5::compute`: a digest of the input bytes alone, which the
/// crate's `LowerHex` formatting renders as 32 lowercase hex characters
/// (two per digest byte).
#[verifier::external_body]
fn md5_hex(bytes: &[u8]) -> (r: String)
    ensures
        r@ == md5_hex_of(bytes@),
        r@.len() == 32,
{
    format!("{:x}", md5::compute(bytes))
}

/// Computes the canonical lowercase-hex digest of `bytes`.
pub fn compute_digest(bytes: &[u8]) -> (r: String)
    ensures
        r@ == md5_hex_of(bytes@),
        r@.len() == 32,
{
    md5_hex(bytes)
}

/// Compares the digest of `bytes` against `expected_digest`. The caller must
/// supply lowercase hex; no case folding is performed.
pub fn verify_content(bytes: &[u8], expected_digest: &str) -> (r: Outcome)
    ensures
        r@ == outcome_of(bytes@, expected_digest@),
{
    let actual = compute_digest(bytes);
    let expected: String = expected_digest.to_owned();
    if actual == expected {
        Outcome::Match
    } else {
        Outcome::Mismatch { expected: expected, actual: actual }
    }
}

/// A digest always matches itself: checking bytes against their own digest
/// yields `Match`.
pub proof fn lemma_matching_digest(bytes: Seq<u8>)
    ensures
        outcome_of(bytes, md5_hex_of(bytes)) == OutcomeView::Match,
{
}

/// Checking bytes against any digest other than their own yields a
/// `Mismatch` that carries the expected digest and the bytes' actual digest.
pub proof fn lemma_differing_digest(bytes: Seq<u8>, expected: Seq<char>)
    requires
        expected != md5_hex_of(bytes),
    ensures
        outcome_of(bytes, expected) == (OutcomeView::Mismatch {
            expected: expected,
            actual: md5_hex_of(bytes),
        }),
{
}

} // verus!

