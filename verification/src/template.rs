//! Filling a text template: named placeholders are replaced by comma lists of
//! byte values.

use vstd::prelude::*;
use vstd::string::*;
use crate::bigint::{
    bytes_to_str,
    comma_list,
    decimal_to_fixed_bytes,
    is_digit,
    is_non_negative_literal,
    literal_body,
    sign_len,
};
use crate::bytes::{le_bytes, le_bytes_of};
use crate::claim::{
    output_digest,
    post_state_digest,
    receipt_claim_digest,
    sha256,
    sha256_digest,
    system_state_digest,
    zero_digest,
};
use crate::digest::{digest_high, digest_low, split_digest_custom, words_le_bytes, Digest};
use crate::encode::{encode_g1, encode_g2, g1_to_c_bytes, g2_to_c_bytes};
use crate::error::Error;
use crate::params::{default_verifier_parameters, VerifierParameters, VerifyingKeyText};
use crate::point::{
    all_digits,
    g1_parts,
    g1_strings_to_vec,
    g1_text,
    g2_parts,
    g2_strings_to_vec,
    g2_text,
    lemma_g1_parts_of_text,
    lemma_g2_parts_of_text,
    split_g1,
    split_g2,
};
use crate::seal::{generate_proof_bytes_from_seal, Seal};
use crate::text::{find_from, lemma_replace_absent, replace, replace_all};

verus! {

/// One placeholder and the bytes that take its place.
#[derive(Clone, Debug, PartialEq, Eq)]
pub struct Substitution {
    /// The placeholder's name as it stands in the template.
    pub name: &'static str,
    /// The bytes written in its place.
    pub bytes: Vec<u8>,
}

/// `t` with every occurrence of `name` replaced by the comma list of `bytes`.
pub open spec fn fill(t: Seq<char>, name: Seq<char>, bytes: Seq<u8>) -> Seq<char> {
    replace_all(t, name, comma_list(bytes))
}

/// `t` after the first `n` substitutions of `subs`, applied one after the
/// other in their order.
pub open spec fn fill_all(t: Seq<char>, subs: Seq<(Seq<char>, Seq<u8>)>, n: nat) -> Seq<char>
    decreases n,
{
    if n == 0 {
        t
    } else {
        fill(fill_all(t, subs, (n - 1) as nat), subs[n - 1].0, subs[n - 1].1)
    }
}

/// The names and bytes of a list of substitutions.
pub open spec fn subs_view(subs: Seq<Substitution>) -> Seq<(Seq<char>, Seq<u8>)> {
    Seq::new(subs.len(), |i: int| (subs[i].name@, subs[i].bytes@))
}

/// Applies the substitutions to the template, one after the other. A
/// placeholder that the template lacks changes nothing; text that is no
/// placeholder is kept.
pub fn materialize(template: &str, subs: &Vec<Substitution>) -> (r: String)
    ensures
        r@ == fill_all(template@, subs_view(subs@), subs@.len()),
{
    let mut text: String = template.to_owned();
    let n: usize = subs.len();
    let mut k: usize = 0;
    while k < n
        invariant
            k <= n,
            n == subs@.len(),
            text@ == fill_all(template@, subs_view(subs@), k as nat),
        decreases n - k,
    {
        let value = bytes_to_str(subs[k].bytes.as_slice());
        text = replace(text.as_str(), subs[k].name, value.as_str());
        k = k + 1;
    }
    text
}

/// Everything the setup template is filled with.
#[derive(Clone, Debug, PartialEq, Eq)]
pub struct SetupValues {
    /// The control root of the verifier parameters.
    pub control_root: Digest,
    /// The control identifier over the BN254 scalar field.
    pub bn254_control_id: Digest,
    /// The hash of the label of a receipt claim.
    pub receipt_claim_tag: Digest,
    /// The hash of the label of an output.
    pub output_tag: Digest,
    /// The digest of the state after the run.
    pub claim_post: Digest,
    /// The digest of the program's identity.
    pub claim_pre: Digest,
    /// The verifying key.
    pub verifying_key: VerifyingKeyText,
}

/// The bytes that the text of a point stands for: the text is split into
/// coordinates, each coordinate is a non-negative integer literal, and the
/// point is compressed. `extension` tells an extension-field point from a
/// base-field one.
pub open spec fn point_text_bytes(extension: bool, text: Seq<char>) -> Result<Seq<u8>, Error> {
    if extension {
        match g2_parts(text) {
            None => Err(Error::UnrecognizedPointFormat),
            Some(p) => if is_non_negative_literal(p[0]) && is_non_negative_literal(p[1])
                && is_non_negative_literal(p[2]) && is_non_negative_literal(p[3]) {
                Ok(
                    encode_g2(
                        decimal_to_fixed_bytes(p[0]),
                        decimal_to_fixed_bytes(p[1]),
                        decimal_to_fixed_bytes(p[3]),
                    ),
                )
            } else {
                Err(Error::MalformedInteger)
            },
        }
    } else {
        match g1_parts(text) {
            None => Err(Error::UnrecognizedPointFormat),
            Some(p) => if is_non_negative_literal(p.0) && is_non_negative_literal(p.1) {
                Ok(encode_g1(decimal_to_fixed_bytes(p.0), decimal_to_fixed_bytes(p.1)))
            } else {
                Err(Error::MalformedInteger)
            },
        }
    }
}

/// Parses the text of a point and compresses it for the external verifier.
pub fn point_text_to_c_bytes(extension: bool, text: &str) -> (r: Result<Vec<u8>, Error>)
    ensures
        match r {
            Ok(bytes) => point_text_bytes(extension, text@) == Ok::<Seq<u8>, Error>(bytes@),
            Err(e) => point_text_bytes(extension, text@) == Err::<Seq<u8>, Error>(e),
        },
{
    if extension {
        let parts = split_g2(text.to_owned())?;
        let g2 = g2_strings_to_vec(parts)?;
        Ok(g2_to_c_bytes(g2))
    } else {
        let parts = split_g1(text.to_owned())?;
        let g1 = g1_strings_to_vec(parts)?;
        Ok(g1_to_c_bytes(g1))
    }
}

/// The ten point texts of a verifying key in the order in which they are
/// encoded: alpha, beta, gamma, delta, then the first six points that go with
/// the public inputs. Each comes with the flag that tells an extension-field
/// point.
pub open spec fn key_texts(vk: VerifyingKeyText) -> Seq<(bool, Seq<char>)> {
    seq![
        (false, vk.alpha_g1@),
        (true, vk.beta_g2@),
        (true, vk.gamma_g2@),
        (true, vk.delta_g2@),
        (false, vk.gamma_abc_g1@[0]@),
        (false, vk.gamma_abc_g1@[1]@),
        (false, vk.gamma_abc_g1@[2]@),
        (false, vk.gamma_abc_g1@[3]@),
        (false, vk.gamma_abc_g1@[4]@),
        (false, vk.gamma_abc_g1@[5]@),
    ]
}

/// The failure of the first text from index `i` on that does not encode, if
/// there is one.
pub open spec fn first_failure(items: Seq<(bool, Seq<char>)>, i: int) -> Option<Error>
    decreases items.len() - i,
{
    if i < 0 || i >= items.len() {
        None
    } else {
        match point_text_bytes(items[i].0, items[i].1) {
            Err(e) => Some(e),
            Ok(_) => first_failure(items, i + 1),
        }
    }
}

/// The bytes of point `i` of a verifying key; empty when its text does not
/// encode.
pub open spec fn key_bytes(vk: VerifyingKeyText, i: int) -> Seq<u8> {
    match point_text_bytes(key_texts(vk)[i].0, key_texts(vk)[i].1) {
        Ok(bytes) => bytes,
        Err(_) => Seq::empty(),
    }
}

/// The substitutions of the setup template, in the order in which they are
/// applied.
pub open spec fn setup_substitutions(v: SetupValues) -> Seq<(Seq<char>, Seq<u8>)> {
    let zeros = Seq::new(32, |i: int| 0u8);
    seq![
        ("public_input_0"@, le_bytes(digest_high(v.control_root@), 16)),
        ("public_input_1"@, le_bytes(digest_low(v.control_root@), 16)),
        ("public_input_4a"@, le_bytes(digest_high(v.bn254_control_id@), 16)),
        ("public_input_4b"@, le_bytes(digest_low(v.bn254_control_id@), 16)),
        ("receipt_claim_tag"@, v.receipt_claim_tag@),
        ("output_tag"@, v.output_tag@),
        ("claim_input"@, zeros),
        ("zeroes"@, zeros),
        ("two_u16"@, le_bytes(2, 2)),
        ("four_u16"@, le_bytes(4, 2)),
        ("zero_u32"@, le_bytes(0, 4)),
        ("claim_post"@, v.claim_post@),
        ("vk_alpha_g1"@, key_bytes(v.verifying_key, 0)),
        ("vk_beta_g2"@, key_bytes(v.verifying_key, 1)),
        ("vk_gamma_g2"@, key_bytes(v.verifying_key, 2)),
        ("vk_delta_g2"@, key_bytes(v.verifying_key, 3)),
        ("vk_gamma_abc_0"@, key_bytes(v.verifying_key, 4)),
        ("vk_gamma_abc_1"@, key_bytes(v.verifying_key, 5)),
        ("vk_gamma_abc_2"@, key_bytes(v.verifying_key, 6)),
        ("vk_gamma_abc_3"@, key_bytes(v.verifying_key, 7)),
        ("vk_gamma_abc_4"@, key_bytes(v.verifying_key, 8)),
        ("vk_gamma_abc_5"@, key_bytes(v.verifying_key, 9)),
        ("claim_pre"@, v.claim_pre@),
    ]
}

/// The filled setup template. A verifying key with fewer than six points for
/// the public inputs counts as missing; otherwise the first point text that
/// does not encode decides the failure; otherwise every substitution is
/// applied.
pub open spec fn setup_text(template: Seq<char>, v: SetupValues) -> Result<Seq<char>, Error> {
    if v.verifying_key.gamma_abc_g1@.len() < 6 {
        Err(Error::VerifierParametersMissing)
    } else {
        match first_failure(key_texts(v.verifying_key), 0) {
            Some(e) => Err(e),
            None => Ok(fill_all(template, setup_substitutions(v), 23)),
        }
    }
}

/// The text of point `i` of a verifying key, with the flag that tells an
/// extension-field point.
fn key_text(vk: &VerifyingKeyText, i: usize) -> (r: (bool, &str))
    requires
        i < 10,
        vk.gamma_abc_g1@.len() >= 6,
    ensures
        (r.0, r.1@) == key_texts(*vk)[i as int],
{
    if i == 0 {
        (false, vk.alpha_g1.as_str())
    } else if i == 1 {
        (true, vk.beta_g2.as_str())
    } else if i == 2 {
        (true, vk.gamma_g2.as_str())
    } else if i == 3 {
        (true, vk.delta_g2.as_str())
    } else {
        (false, vk.gamma_abc_g1[i - 4].as_str())
    }
}

/// Encodes the ten points of a verifying key for the external verifier.
pub fn encode_verifying_key(vk: &VerifyingKeyText) -> (r: Result<Vec<Vec<u8>>, Error>)
    requires
        vk.gamma_abc_g1@.len() >= 6,
    ensures
        match r {
            Ok(points) => first_failure(key_texts(*vk), 0) is None && points@.len() == 10
                && forall|i: int| 0 <= i < 10 ==> (#[trigger] points@[i])@ == key_bytes(*vk, i),
            Err(e) => first_failure(key_texts(*vk), 0) == Some(e),
        },
{
    let ghost items = key_texts(*vk);
    let mut points: Vec<Vec<u8>> = Vec::new();
    let mut k: usize = 0;
    while k < 10
        invariant
            k <= 10,
            vk.gamma_abc_g1@.len() >= 6,
            items == key_texts(*vk),
            points@.len() == k,
            first_failure(items, 0) == first_failure(items, k as int),
            forall|i: int| 0 <= i < k ==> (#[trigger] points@[i])@ == key_bytes(*vk, i),
        decreases 10 - k,
    {
        let (extension, text) = key_text(vk, k);
        match point_text_to_c_bytes(extension, text) {
            Ok(bytes) => {
                points.push(bytes);
            },
            Err(e) => {
                return Err(e);
            },
        }
        k = k + 1;
    }
    Ok(points)
}

/// The bytes of a digest as a vector.
fn digest_vec(d: &Digest) -> (r: Vec<u8>)
    ensures
        r@ == d@,
{
    let mut r: Vec<u8> = Vec::new();
    let mut k: usize = 0;
    while k < 32
        invariant
            k <= 32,
            r@ == d@.subrange(0, k as int),
        decreases 32 - k,
    {
        r.push(d.bytes[k]);
        k = k + 1;
        assert(r@ =~= d@.subrange(0, k as int));
    }
    assert(d@.subrange(0, 32) =~= d@);
    r
}

/// Fills the setup template with the verifier parameters, the protocol
/// constants, the encoded verifying key and the digest of the program's
/// identity.
pub fn materialize_setup(template: &str, values: &SetupValues) -> (r: Result<String, Error>)
    ensures
        match r {
            Ok(text) => setup_text(template@, *values) == Ok::<Seq<char>, Error>(text@),
            Err(e) => setup_text(template@, *values) == Err::<Seq<char>, Error>(e),
        },
{
    if values.verifying_key.gamma_abc_g1.len() < 6 {
        return Err(Error::VerifierParametersMissing);
    }
    let points = encode_verifying_key(&values.verifying_key)?;
    let (a0, a1) = split_digest_custom(values.control_root);
    let (bna, bnb) = split_digest_custom(values.bn254_control_id);
    let zero = Digest::zero();
    let mut subs: Vec<Substitution> = Vec::new();
    subs.push(Substitution { name: "public_input_0", bytes: le_bytes_of(a0, 16) });
    subs.push(Substitution { name: "public_input_1", bytes: le_bytes_of(a1, 16) });
    subs.push(Substitution { name: "public_input_4a", bytes: le_bytes_of(bna, 16) });
    subs.push(Substitution { name: "public_input_4b", bytes: le_bytes_of(bnb, 16) });
    subs.push(
        Substitution { name: "receipt_claim_tag", bytes: digest_vec(&values.receipt_claim_tag) },
    );
    subs.push(Substitution { name: "output_tag", bytes: digest_vec(&values.output_tag) });
    subs.push(Substitution { name: "claim_input", bytes: digest_vec(&zero) });
    subs.push(Substitution { name: "zeroes", bytes: digest_vec(&zero) });
    subs.push(Substitution { name: "two_u16", bytes: le_bytes_of(2, 2) });
    subs.push(Substitution { name: "four_u16", bytes: le_bytes_of(4, 2) });
    subs.push(Substitution { name: "zero_u32", bytes: le_bytes_of(0, 4) });
    subs.push(Substitution { name: "claim_post", bytes: digest_vec(&values.claim_post) });
    subs.push(Substitution { name: "vk_alpha_g1", bytes: points[0].clone() });
    subs.push(Substitution { name: "vk_beta_g2", bytes: points[1].clone() });
    subs.push(Substitution { name: "vk_gamma_g2", bytes: points[2].clone() });
    subs.push(Substitution { name: "vk_delta_g2", bytes: points[3].clone() });
    subs.push(Substitution { name: "vk_gamma_abc_0", bytes: points[4].clone() });
    subs.push(Substitution { name: "vk_gamma_abc_1", bytes: points[5].clone() });
    subs.push(Substitution { name: "vk_gamma_abc_2", bytes: points[6].clone() });
    subs.push(Substitution { name: "vk_gamma_abc_3", bytes: points[7].clone() });
    subs.push(Substitution { name: "vk_gamma_abc_4", bytes: points[8].clone() });
    subs.push(Substitution { name: "vk_gamma_abc_5", bytes: points[9].clone() });
    subs.push(Substitution { name: "claim_pre", bytes: digest_vec(&values.claim_pre) });
    assert(subs_view(subs@) =~= setup_substitutions(*values));
    Ok(materialize(template, &subs))
}

/// Whether `v` holds the values that do not depend on the verifier
/// parameters as the setup of `image_id` asks for them: the two label hashes,
/// the digest of the fixed state after the run, and the digest made of the
/// image identifier's words.
pub open spec fn is_setup_for(v: SetupValues, image_id: Seq<u32>) -> bool {
    &&& v.receipt_claim_tag@ == sha256("risc0.ReceiptClaim".spec_bytes())
    &&& v.output_tag@ == sha256("risc0.Output".spec_bytes())
    &&& v.claim_post@ == system_state_digest(0, zero_digest())
    &&& v.claim_pre@ == words_le_bytes(image_id)
}

/// Whether `v` holds the setup values of `image_id` with the given verifier
/// parameters: the two digests and the verifying key are those of the
/// parameters, and the rest is as the setup of `image_id` asks for it.
pub open spec fn is_setup_of(v: SetupValues, p: VerifierParameters, image_id: Seq<u32>) -> bool {
    &&& v.control_root == p.control_root
    &&& v.bn254_control_id == p.bn254_control_id
    &&& v.verifying_key == p.verifying_key
    &&& is_setup_for(v, image_id)
}

/// Collects the values of the setup template from the verifier parameters
/// that the caller obtained: the two digests and the verifying key are handed
/// on unchanged; the label hashes, the digest of the state after the run and
/// the digest of the image identifier are computed. Without parameters
/// nothing is returned, and only then.
pub fn setup_values_from(parameters: Option<VerifierParameters>, image_id: [u32; 8]) -> (r: Option<
    SetupValues,
>)
    ensures
        r is Some <==> parameters is Some,
        r matches Some(v) ==> is_setup_of(v, parameters->0, image_id@),
{
    let parameters = match parameters {
        Some(parameters) => parameters,
        None => { return None; },
    };
    Some(
        SetupValues {
            control_root: parameters.control_root,
            bn254_control_id: parameters.bn254_control_id,
            receipt_claim_tag: sha256_digest("risc0.ReceiptClaim".as_bytes()),
            output_tag: sha256_digest("risc0.Output".as_bytes()),
            claim_post: post_state_digest(),
            claim_pre: Digest::new(image_id),
            verifying_key: parameters.verifying_key,
        },
    )
}

/// Collects the values of the setup template: the proving library's default
/// verifier parameters, the label hashes, the digest of the state after the
/// run and the digest of the image identifier. Nothing is returned when the
/// library has no default parameters.
pub fn setup_values(image_id: [u32; 8]) -> (r: Option<SetupValues>)
    ensures
        r matches Some(v) ==> is_setup_for(v, image_id@),
{
    setup_values_from(default_verifier_parameters(), image_id)
}

/// Fills the setup template for the program identified by `image_id` with the
/// proving library's default verifier parameters. The result is that of
/// `materialize_setup` on the values that `setup_values` collected.
pub fn template_setup(image_id: [u32; 8], template: &str) -> (r: Result<String, Error>)
    ensures
        (r matches Err(e) && e == Error::VerifierParametersMissing) || exists|v: SetupValues|
            #[trigger] is_setup_for(v, image_id@) && match r {
                Ok(text) => setup_text(template@, v) == Ok::<Seq<char>, Error>(text@),
                Err(e) => setup_text(template@, v) == Err::<Seq<char>, Error>(e),
            },
{
    match setup_values(image_id) {
        None => Err(Error::VerifierParametersMissing),
        Some(values) => {
            let r = materialize_setup(template, &values);
            assert(is_setup_for(values, image_id@));
            r
        },
    }
}

/// The substitutions of the proof template: the three encoded points of the
/// seal, then the journal.
pub open spec fn proof_substitutions(journal: Seq<u8>, seal: Seal) -> Seq<(Seq<char>, Seq<u8>)> {
    seq![
        ("proof_a"@, encode_g1(seal.a@[0]@, seal.a@[1]@)),
        ("proof_b"@, encode_g2(seal.b@[0]@[0]@, seal.b@[0]@[1]@, seal.b@[1]@[1]@)),
        ("proof_c"@, encode_g1(seal.c@[0]@, seal.c@[1]@)),
        ("journalx"@, journal),
    ]
}

/// Fills the proof template with the encoded points of `seal` and with the
/// journal.
pub fn template_proof(journal: &Vec<u8>, seal: Seal, template: &str) -> (r: String)
    requires
        seal.wf(),
    ensures
        r@ == fill_all(template@, proof_substitutions(journal@, seal), 4),
{
    let proofs = generate_proof_bytes_from_seal(seal);
    let mut subs: Vec<Substitution> = Vec::new();
    subs.push(Substitution { name: "proof_a", bytes: proofs[0].clone() });
    subs.push(Substitution { name: "proof_b", bytes: proofs[1].clone() });
    subs.push(Substitution { name: "proof_c", bytes: proofs[2].clone() });
    subs.push(Substitution { name: "journalx", bytes: journal.clone() });
    assert(subs_view(subs@) =~= proof_substitutions(journal@, seal));
    materialize(template, &subs)
}

/// Filling the setup template is a function of the template and the values:
/// equal inputs give equal texts.
pub proof fn lemma_setup_deterministic(t1: Seq<char>, t2: Seq<char>, v1: SetupValues, v2: SetupValues)
    requires
        t1 == t2,
        v1 == v2,
    ensures
        setup_text(t1, v1) == setup_text(t2, v2),
{
}

/// A placeholder that the template lacks changes nothing.
pub proof fn lemma_fill_absent(t: Seq<char>, name: Seq<char>, bytes: Seq<u8>)
    requires
        find_from(t, name, 0) is None,
    ensures
        fill(t, name, bytes) == t,
{
    lemma_replace_absent(t, name, comma_list(bytes));
}

/// A text of digits that is not empty is a non-negative integer literal.
pub proof fn lemma_digits_are_literal(s: Seq<char>)
    requires
        all_digits(s),
        s.len() > 0,
    ensures
        is_non_negative_literal(s),
{
    assert(is_digit(s[0]));
    assert(sign_len(s) == 0);
    assert(literal_body(s) =~= s);
}

/// The text `(x, y)` of two digit texts that are not empty encodes as the
/// compressed point of the coordinates that `x` and `y` denote.
pub proof fn lemma_g1_text_bytes(x: Seq<char>, y: Seq<char>)
    requires
        all_digits(x),
        all_digits(y),
        x.len() > 0,
        y.len() > 0,
    ensures
        point_text_bytes(false, g1_text(x, y)) == Ok::<Seq<u8>, Error>(
            encode_g1(decimal_to_fixed_bytes(x), decimal_to_fixed_bytes(y)),
        ),
{
    lemma_g1_parts_of_text(x, y);
    lemma_digits_are_literal(x);
    lemma_digits_are_literal(y);
}

/// The text `(QuadExtField(a + b * u), QuadExtField(c + d * u))` of four
/// digit texts that are not empty encodes as the compressed point whose first
/// coordinate has the imaginary part `b` and the real part `a`, with the sign
/// taken from `c`.
pub proof fn lemma_g2_text_bytes(a: Seq<char>, b: Seq<char>, c: Seq<char>, d: Seq<char>)
    requires
        all_digits(a),
        all_digits(b),
        all_digits(c),
        all_digits(d),
        a.len() > 0,
        b.len() > 0,
        c.len() > 0,
        d.len() > 0,
    ensures
        point_text_bytes(true, g2_text(a, b, c, d)) == Ok::<Seq<u8>, Error>(
            encode_g2(
                decimal_to_fixed_bytes(b),
                decimal_to_fixed_bytes(a),
                decimal_to_fixed_bytes(c),
            ),
        ),
{
    lemma_g2_parts_of_text(a, b, c, d);
    lemma_digits_are_literal(a);
    lemma_digits_are_literal(b);
    lemma_digits_are_literal(c);
    lemma_digits_are_literal(d);
}

/// The digest of the claim of `image_id` and a journal is made of what the
/// setup template is filled with: the hash of the claim's label, a zero
/// digest, the digest of the image identifier, the digest of the state after
/// the run, the digest of the output, two zero words and the count four;
/// the digest of the output is the hash of the output's label, the hash of
/// the journal, a zero digest and the count two.
pub proof fn lemma_claim_digest_of_setup(v: SetupValues, image_id: Seq<u32>, journal: Seq<u8>)
    requires
        is_setup_for(v, image_id),
    ensures
        output_digest(journal) == sha256(
            v.output_tag@ + sha256(journal) + zero_digest() + le_bytes(2, 2),
        ),
        receipt_claim_digest(words_le_bytes(image_id), journal) == sha256(
            v.receipt_claim_tag@ + zero_digest() + v.claim_pre@ + v.claim_post@ + output_digest(
                journal,
            ) + le_bytes(0, 4) + le_bytes(0, 4) + le_bytes(4, 2),
        ),
{
}

} // verus!
