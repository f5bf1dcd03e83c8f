//! The proving library's default Groth16 verifier parameters.

use vstd::prelude::*;
use crate::digest::Digest;

verus! {

/// The points of a verifying key in the proving library's textual form.
#[derive(Clone, Debug, PartialEq, Eq)]
pub struct VerifyingKeyText {
    /// The base-field point alpha.
    pub alpha_g1: String,
    /// The extension-field point beta.
    pub beta_g2: String,
    /// The extension-field point gamma.
    pub gamma_g2: String,
    /// The extension-field point delta.
    pub delta_g2: String,
    /// The base-field points that go with the public inputs.
    pub gamma_abc_g1: Vec<String>,
}

/// The verifier parameters as plain values: the two digests and the texts of
/// the verifying key's points.
#[derive(Clone, Debug, PartialEq, Eq)]
pub struct VerifierParameters {
    /// The control root with which a receipt is expected to verify.
    pub control_root: Digest,
    /// The control identifier over the BN254 scalar field.
    pub bn254_control_id: Digest,
    /// The verifying key.
    pub verifying_key: VerifyingKeyText,
}

/// The Groth16 verifier parameters of risc0-zkvm: a control root, a control
/// identifier and a verifying key.
#[verifier::external_type_specification]
#[verifier::external_body]
pub struct ExGroth16ReceiptVerifierParameters(risc0_zkvm::Groth16ReceiptVerifierParameters);

/// Takes the Groth16 verifier parameters out of `VerifierContext::default()`
/// of risc0-zkvm. Nothing is claimed of them.
#[verifier::external_body]
pub(crate) fn default_parameters() -> (r: Option<risc0_zkvm::Groth16ReceiptVerifierParameters>) {
    risc0_zkvm::VerifierContext::default().groth16_verifier_parameters
}

/// Reads the parameters into the library's form: the control root and the
/// BN254 control identifier as 32 bytes each, and the points of the
/// verifying key, taken with `VerifyingKey::ark_verifying_key` of
/// risc0-groth16, as the texts that their `Debug` impl of ark-ec writes.
/// Nothing is claimed of them.
#[verifier::external_body]
pub(crate) fn parameters_of(
    params: &risc0_zkvm::Groth16ReceiptVerifierParameters,
) -> (r: VerifierParameters) {
    let vk = params.verifying_key.ark_verifying_key();
    VerifierParameters {
        control_root: Digest { bytes: params.control_root.into() },
        bn254_control_id: Digest { bytes: params.bn254_control_id.into() },
        verifying_key: VerifyingKeyText {
            alpha_g1: format!("{:?}", vk.alpha_g1),
            beta_g2: format!("{:?}", vk.beta_g2),
            gamma_g2: format!("{:?}", vk.gamma_g2),
            delta_g2: format!("{:?}", vk.delta_g2),
            gamma_abc_g1: vk.gamma_abc_g1.iter().map(|point| format!("{:?}", point)).collect(),
        },
    }
}

/// The proving library's default verifier parameters in the library's form,
/// if the library has any.
pub fn default_verifier_parameters() -> (r: Option<VerifierParameters>) {
    match default_parameters() {
        Some(params) => Some(parameters_of(&params)),
        None => None,
    }
}

} // verus!
