//! The public claim of a proof and the digests the proving library computes.

use vstd::prelude::*;
use vstd::string::*;
use crate::bytes::le_bytes;
use crate::digest::{words_le_bytes, Digest};

verus! {

/// The SHA-256 hash of a byte string.
pub uninterp spec fn sha256(data: Seq<u8>) -> Seq<u8>;

/// 32 zero bytes: the digest that stands for a field that is absent.
pub open spec fn zero_digest() -> Seq<u8> {
    Seq::new(32, |i: int| 0u8)
}

/// The digest that the proving library assigns to a system state with
/// program counter `pc` and memory root `merkle_root`: the hash of the hashed
/// label, the root, the counter in four little-endian bytes, and the number
/// of digests hashed, one, in two little-endian bytes.
pub open spec fn system_state_digest(pc: u32, merkle_root: Seq<u8>) -> Seq<u8> {
    sha256(
        sha256("risc0.SystemState".spec_bytes()) + merkle_root + le_bytes(pc as nat, 4) + le_bytes(
            1,
            2,
        ),
    )
}

/// The digest that the proving library assigns to an output with the given
/// journal and no assumptions: the hash of the hashed label, the hash of the
/// journal, a zero digest for the assumptions, and the number of digests
/// hashed, two.
pub open spec fn output_digest(journal: Seq<u8>) -> Seq<u8> {
    sha256(sha256("risc0.Output".spec_bytes()) + sha256(journal) + zero_digest() + le_bytes(2, 2))
}

/// The digest that the proving library assigns to the claim that the program
/// with identity `pre` halted normally and wrote `journal`: the hash of the
/// hashed label, a zero digest for the absent input, `pre`, the digest of
/// the state after the run, the digest of the output, the two parts of the
/// exit code, both zero, in four little-endian bytes each, and the number of
/// digests hashed, four.
pub open spec fn receipt_claim_digest(pre: Seq<u8>, journal: Seq<u8>) -> Seq<u8> {
    sha256(
        sha256("risc0.ReceiptClaim".spec_bytes()) + zero_digest() + pre + system_state_digest(
            0,
            zero_digest(),
        ) + output_digest(journal) + le_bytes(0, 4) + le_bytes(0, 4) + le_bytes(4, 2),
    )
}

/// What a proof attests to: the program that ran and the bytes it wrote. The
/// state after the run is fixed: program counter zero, empty memory root.
#[derive(Clone, Debug, PartialEq, Eq)]
pub struct Claim {
    /// The identity of the program.
    pub pre: Digest,
    /// The bytes the program committed to.
    pub journal: Vec<u8>,
}

/// Hashes `data` with `Sha256` of sha2.
#[verifier::external_body]
fn sha256_of(data: &[u8]) -> (r: Digest)
    ensures
        r@ == sha256(data@),
{
    let mut hasher = <sha2::Sha256 as sha2::Digest>::new();
    sha2::Digest::update(&mut hasher, data);
    Digest { bytes: sha2::Digest::finalize(hasher).into() }
}

/// Computes the digest of a `SystemState` with risc0-zkvm, which hashes the
/// label `risc0.SystemState`, then hashes that hash, the memory root, the
/// program counter and the count of one digest together.
#[verifier::external_body]
fn digest_of_system_state(pc: u32, merkle_root: &Digest) -> (r: Digest)
    ensures
        r@ == system_state_digest(pc, merkle_root@),
{
    let state = risc0_zkvm::SystemState {
        pc,
        merkle_root: risc0_zkp::core::digest::Digest::from(merkle_root.bytes),
    };
    let digest = risc0_zkvm::sha::Digestible::digest(&risc0_zkvm::MaybePruned::Value(state));
    Digest { bytes: digest.into() }
}

/// Builds the claim with `ReceiptClaim::ok` of risc0-zkvm and computes its
/// digest. The claim has no input, the given pre-state digest, the state
/// after the run with counter zero and a zero root, the exit code for a
/// normal halt, and an output of the journal without assumptions; each
/// struct is hashed as its hashed label, its digests, its numbers and the
/// count of its digests.
#[verifier::external_body]
fn digest_of_ok_claim(pre: &Digest, journal: &Vec<u8>) -> (r: Digest)
    ensures
        r@ == receipt_claim_digest(pre@, journal@),
{
    let pre = risc0_zkp::core::digest::Digest::from(pre.bytes);
    let claim = risc0_zkvm::ReceiptClaim::ok(pre, journal.clone());
    let digest = risc0_zkvm::sha::Digestible::digest(&claim);
    Digest { bytes: digest.into() }
}

/// The SHA-256 hash of `data`.
pub fn sha256_digest(data: &[u8]) -> (r: Digest)
    ensures
        r@ == sha256(data@),
{
    sha256_of(data)
}

/// The digest of the fixed state after a run: program counter zero and a
/// memory root of 32 zero bytes.
pub fn post_state_digest() -> (r: Digest)
    ensures
        r@ == system_state_digest(0, zero_digest()),
{
    let zero = Digest::zero();
    digest_of_system_state(0, &zero)
}

/// Builds the claim that the program identified by `image_id` halted normally
/// with `journal`: the eight words become the pre-state digest.
pub fn get_claim(image_id: [u32; 8], journal: &Vec<u8>) -> (r: Claim)
    ensures
        r.pre@ == words_le_bytes(image_id@),
        r.journal@ == journal@,
{
    Claim { pre: Digest::new(image_id), journal: journal.clone() }
}

impl Claim {
    /// The digest of the claim, as the proving library computes it from the
    /// pre-state digest and the journal.
    pub fn digest(&self) -> (r: Digest)
        ensures
            r@ == receipt_claim_digest(self.pre@, self.journal@),
    {
        digest_of_ok_claim(&self.pre, &self.journal)
    }
}

/// The digest of a claim depends on the image identifier and the journal
/// alone: claims built from equal inputs have equal digests.
pub proof fn lemma_claim_digest_deterministic(c1: Claim, c2: Claim)
    requires
        c1.pre@ == c2.pre@,
        c1.journal@ == c2.journal@,
    ensures
        receipt_claim_digest(c1.pre@, c1.journal@) == receipt_claim_digest(c2.pre@, c2.journal@),
{
}

} // verus!
