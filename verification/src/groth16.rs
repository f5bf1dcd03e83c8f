//! Checking a seal against a claim with the proving library's Groth16
//! verifier.

use vstd::prelude::*;
use vstd::string::*;
use crate::claim::get_claim;
use crate::digest::Digest;
use crate::error::Error;
use crate::image_id::hex_digit_char;
use crate::params::{default_parameters, parameters_of};
use crate::seal::Seal;

verus! {

/// A scalar of the BN254 field as risc0-groth16 holds it.
#[verifier::external_type_specification]
#[verifier::external_body]
pub struct ExFr(risc0_groth16::Fr);

/// A Groth16 verifier of risc0-groth16, ready to run.
#[verifier::external_type_specification]
#[verifier::external_body]
pub struct ExVerifier(risc0_groth16::Verifier);

/// The lower-case hexadecimal text of `bytes`: two digits per byte, the high
/// one first.
pub open spec fn bytes_hex(bytes: Seq<u8>) -> Seq<char> {
    Seq::new(
        2 * bytes.len(),
        |i: int|
            if i % 2 == 0 {
                hex_digit_char((bytes[i / 2] / 16) as nat)
            } else {
                hex_digit_char((bytes[i / 2] % 16) as nat)
            },
    )
}

/// Encodes `bytes` with `hex::encode`: two lower-case hexadecimal digits per
/// byte, the high one first.
#[verifier::external_body]
fn hex_encode(bytes: &[u8]) -> (r: String)
    ensures
        r@ == bytes_hex(bytes@),
{
    hex::encode(bytes)
}

/// Splits a digest into two scalars with `split_digest` of risc0-groth16.
/// Nothing is claimed of them.
#[verifier::external_body]
fn digest_scalars(d: &Digest) -> (r: Option<(risc0_groth16::Fr, risc0_groth16::Fr)>) {
    risc0_groth16::split_digest(risc0_zkp::core::digest::Digest::from(d.bytes)).ok()
}

/// Reads a scalar from hexadecimal text with `fr_from_hex_string` of
/// risc0-groth16, which takes at most 32 bytes, that is 64 digits. Nothing is
/// claimed of the scalar.
#[verifier::external_body]
fn scalar_from_hex(text: &str) -> (r: Option<risc0_groth16::Fr>)
    requires
        text@.len() <= 64,
{
    risc0_groth16::fr_from_hex_string(text).ok()
}

/// Builds a verifier with `Verifier::new` of risc0-groth16 from a seal, the
/// public inputs and the verifying key of the parameters. Nothing is claimed
/// of it.
#[verifier::external_body]
fn build_verifier(
    seal: &Seal,
    public_inputs: &Vec<risc0_groth16::Fr>,
    params: &risc0_zkvm::Groth16ReceiptVerifierParameters,
) -> (r: Option<risc0_groth16::Verifier>) {
    let seal = risc0_groth16::Seal { a: seal.a.clone(), b: seal.b.clone(), c: seal.c.clone() };
    risc0_groth16::Verifier::new(&seal, public_inputs, &params.verifying_key).ok()
}

/// Runs `Verifier::verify` of risc0-groth16 and tells whether it accepted.
#[verifier::external_body]
fn verifier_accepts(verifier: &risc0_groth16::Verifier) -> (r: bool) {
    verifier.verify().is_ok()
}

/// How far the check of a seal got.
#[derive(Clone, Copy, Debug, PartialEq, Eq, Structural)]
pub enum Groth16Check {
    /// The proving library has no default verifier parameters.
    ParametersMissing,
    /// A digest did not give public inputs, or the verifier could not be
    /// built from the seal and the inputs.
    Malformed,
    /// The verifier ran and rejected the seal.
    Rejected,
    /// The verifier ran and accepted the seal.
    Accepted,
}

impl Groth16Check {
    /// The result that a check stands for.
    pub open spec fn result(self) -> Result<(), Error> {
        match self {
            Groth16Check::ParametersMissing => Err(Error::VerifierParametersMissing),
            Groth16Check::Malformed => Err(Error::ReceiptFormatError),
            Groth16Check::Rejected => Err(Error::InvalidProof),
            Groth16Check::Accepted => Ok(()),
        }
    }

    /// The check that a verdict stands for: no verdict means that an input or
    /// the verifier could not be formed.
    pub open spec fn for_verdict(verdict: Option<bool>) -> Groth16Check {
        match verdict {
            None => Groth16Check::Malformed,
            Some(accepted) => if accepted {
                Groth16Check::Accepted
            } else {
                Groth16Check::Rejected
            },
        }
    }

    /// Turns the verifier's verdict into a check.
    pub fn of_verdict(verdict: Option<bool>) -> (r: Groth16Check)
        ensures
            r == Groth16Check::for_verdict(verdict),
    {
        match verdict {
            None => Groth16Check::Malformed,
            Some(true) => Groth16Check::Accepted,
            Some(false) => Groth16Check::Rejected,
        }
    }

    /// Turns the check into a result: only an accepted seal is a success.
    pub fn into_result(self) -> (r: Result<(), Error>)
        ensures
            r == self.result(),
    {
        match self {
            Groth16Check::ParametersMissing => Err(Error::VerifierParametersMissing),
            Groth16Check::Malformed => Err(Error::ReceiptFormatError),
            Groth16Check::Rejected => Err(Error::InvalidProof),
            Groth16Check::Accepted => Ok(()),
        }
    }
}

/// The 64 hexadecimal digits of a digest read backwards: the text from which
/// the control identifier becomes a scalar.
pub fn reversed_hex(d: &Digest) -> (r: String)
    ensures
        r@ == bytes_hex(d@.reverse()),
        r@.len() == 64,
{
    let mut reversed: [u8; 32] = [0u8; 32];
    let mut k: usize = 0;
    while k < 32
        invariant
            k <= 32,
            forall|j: int| 0 <= j < k ==> reversed@[j] == d.bytes@[31 - j],
        decreases 32 - k,
    {
        reversed[k] = d.bytes[31 - k];
        k = k + 1;
    }
    assert(reversed@ =~= d@.reverse());
    hex_encode(reversed.as_slice())
}

/// Forms the public inputs, builds the verifier and runs it. The public
/// inputs are the two scalars of the control root, the two scalars of the
/// claim's digest, and the control identifier read backwards. Nothing is
/// returned when an input or the verifier could not be formed; otherwise the
/// verifier's answer is returned. The proving library decides all of it.
fn verifier_verdict(
    params: &risc0_zkvm::Groth16ReceiptVerifierParameters,
    claim_digest: &Digest,
    seal: &Seal,
) -> (r: Option<bool>)
    requires
        seal.wf(),
{
    let plain = parameters_of(params);
    let (a0, a1) = match digest_scalars(&plain.control_root) {
        Some(scalars) => scalars,
        None => { return None; },
    };
    let (c0, c1) = match digest_scalars(claim_digest) {
        Some(scalars) => scalars,
        None => { return None; },
    };
    let id_hex = reversed_hex(&plain.bn254_control_id);
    let id_bn254_fr = match scalar_from_hex(id_hex.as_str()) {
        Some(scalar) => scalar,
        None => { return None; },
    };
    let mut public_inputs: Vec<risc0_groth16::Fr> = Vec::new();
    public_inputs.push(a0);
    public_inputs.push(a1);
    public_inputs.push(c0);
    public_inputs.push(c1);
    public_inputs.push(id_bn254_fr);
    match build_verifier(seal, &public_inputs, params) {
        None => None,
        Some(verifier) => Some(verifier_accepts(&verifier)),
    }
}

/// Checks `seal` against a claim given by its digest, with the verifier
/// parameters that the caller obtained. Without parameters the check reports
/// them missing, and only then; with parameters the outcome is that of the
/// verifier's verdict.
pub fn check_seal_with(
    params: Option<risc0_zkvm::Groth16ReceiptVerifierParameters>,
    claim_digest: &Digest,
    seal: &Seal,
) -> (r: Groth16Check)
    requires
        seal.wf(),
    ensures
        r == Groth16Check::ParametersMissing <==> params is None,
{
    match params {
        None => Groth16Check::ParametersMissing,
        Some(params) => Groth16Check::of_verdict(verifier_verdict(&params, claim_digest, seal)),
    }
}

/// Checks `seal` against a claim given by its digest, with the proving
/// library's default verifier parameters. The proving library decides the
/// outcome.
pub fn check_seal_for_digest(claim_digest: &Digest, seal: &Seal) -> (r: Groth16Check)
    requires
        seal.wf(),
{
    check_seal_with(default_parameters(), claim_digest, seal)
}

/// Checks `seal` against the claim that the program identified by `image_id`
/// halted normally with `journal`.
pub fn check_seal(image_id: [u32; 8], journal: &Vec<u8>, seal: &Seal) -> (r: Groth16Check)
    requires
        seal.wf(),
{
    let claim = get_claim(image_id, journal);
    check_seal_for_digest(&claim.digest(), seal)
}

/// Verifies `seal` against the claim of `image_id` and `journal`. Success
/// means that the proving library's verifier accepted the seal.
pub fn verify(image_id: [u32; 8], journal: &Vec<u8>, seal: &Seal) -> (r: Result<(), Error>)
    requires
        seal.wf(),
    ensures
        r matches Err(e) ==> e == Error::VerifierParametersMissing || e
            == Error::ReceiptFormatError || e == Error::InvalidProof,
{
    check_seal(image_id, journal, seal).into_result()
}

} // verus!
