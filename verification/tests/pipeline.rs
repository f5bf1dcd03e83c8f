use proof_codec::bigint::bytes_to_str;
use proof_codec::claim::{get_claim, post_state_digest, sha256_digest};
use proof_codec::digest::Digest;
use proof_codec::error::Error;
use proof_codec::image_id::{deserialize_image_id, image_id_from_bytes, serialize_image_id};
use proof_codec::input::{
    get_image_id, get_seal, image_id_from_members, read_members, seal_from_members,
    MAX_JSON_CHARS,
};
use proof_codec::result::ResultType;
use proof_codec::seal::{generate_proof_bytes_from_seal, Seal};
use proof_codec::template::{
    encode_verifying_key,
    materialize,
    materialize_setup,
    point_text_to_c_bytes,
    setup_values,
    setup_values_from,
    template_proof,
    template_setup,
    SetupValues,
    Substitution,
};
use proof_codec::params::{default_verifier_parameters, VerifierParameters, VerifyingKeyText};
use risc0_zkvm::sha::Digestible;

fn seal_bytes() -> Vec<u8> {
    (0..256).map(|i| (i % 251) as u8).collect()
}

#[test]
fn seal_is_cut_into_eight_coordinates() {
    let data = seal_bytes();
    let seal = Seal::from_vec(&data).unwrap();
    assert_eq!(seal.a, vec![data[0..32].to_vec(), data[32..64].to_vec()]);
    assert_eq!(
        seal.b,
        vec![
            vec![data[64..96].to_vec(), data[96..128].to_vec()],
            vec![data[128..160].to_vec(), data[160..192].to_vec()],
        ]
    );
    assert_eq!(seal.c, vec![data[192..224].to_vec(), data[224..256].to_vec()]);
}

#[test]
fn seal_of_wrong_length_is_rejected() {
    assert_eq!(Seal::from_vec(&vec![0u8; 255]), Err(Error::MalformedSeal));
    assert_eq!(Seal::from_vec(&vec![0u8; 257]), Err(Error::MalformedSeal));
    assert_eq!(Seal::from_vec(&vec![]), Err(Error::MalformedSeal));
}

#[test]
fn proof_bytes_from_seal() {
    let data = seal_bytes();
    let seal = Seal::from_vec(&data).unwrap();
    let proofs = generate_proof_bytes_from_seal(seal);
    assert_eq!(proofs.len(), 3);
    let reversed = |range: std::ops::Range<usize>| {
        let mut v = data[range].to_vec();
        v.reverse();
        v
    };
    // a: y ends in 63, odd
    let mut a = reversed(0..32);
    a[31] |= 0x80;
    assert_eq!(proofs[0], a);
    // b: y1 ends in 191, odd; x1 first, then x0 with the sign bit
    let mut b = reversed(96..128);
    let mut x0 = reversed(64..96);
    x0[31] |= 0x80;
    b.extend(x0);
    assert_eq!(proofs[1], b);
    // c: y ends in 255 % 251 = 4, even
    assert_eq!(proofs[2], reversed(192..224));
}

#[test]
fn seal_from_json_text() {
    let data = seal_bytes();
    let text = format!(
        "[{}]",
        data.iter().map(|b| b.to_string()).collect::<Vec<String>>().join(",")
    );
    assert_eq!(get_seal(&text), Seal::from_vec(&data));
    assert!(get_seal(&text).is_ok());
}

#[test]
fn malformed_seal_json_is_rejected() {
    assert_eq!(get_seal("not json"), Err(Error::MalformedSeal));
    assert_eq!(get_seal("[1, 2, 3]"), Err(Error::MalformedSeal));
    assert_eq!(get_seal("{}"), Err(Error::MalformedSeal));
    let mut items: Vec<String> = (0..256).map(|_| "0".to_string()).collect();
    items[17] = "256".to_string();
    assert_eq!(get_seal(&format!("[{}]", items.join(","))), Err(Error::MalformedSeal));
    items[17] = "\"x\"".to_string();
    assert_eq!(get_seal(&format!("[{}]", items.join(","))), Err(Error::MalformedSeal));
    items[17] = "-1".to_string();
    assert_eq!(get_seal(&format!("[{}]", items.join(","))), Err(Error::MalformedSeal));
}

#[test]
fn seal_from_members_checks_each_member() {
    assert_eq!(seal_from_members(None), Err(Error::MalformedSeal));
    let members: Vec<Option<u64>> = (0..256).map(|i| Some(i as u64 % 256)).collect();
    let bytes: Vec<u8> = (0..256).map(|i| i as u8).collect();
    assert_eq!(seal_from_members(Some(members.clone())), Seal::from_vec(&bytes));
    let mut bad = members.clone();
    bad[255] = Some(256);
    assert_eq!(seal_from_members(Some(bad)), Err(Error::MalformedSeal));
    let mut missing = members;
    missing[0] = None;
    assert_eq!(seal_from_members(Some(missing)), Err(Error::MalformedSeal));
}

#[test]
fn image_id_from_json_text() {
    assert_eq!(get_image_id("[1,2,3,4,5,6,7,8]"), Ok([1, 2, 3, 4, 5, 6, 7, 8]));
    assert_eq!(get_image_id("[4294967295, 7]"), Ok([4294967295, 7, 0, 0, 0, 0, 0, 0]));
    assert_eq!(get_image_id("[]"), Ok([0; 8]));
    assert_eq!(get_image_id("17"), Ok([0; 8]));
}

#[test]
fn malformed_image_id_json_is_rejected() {
    assert_eq!(get_image_id("[1,2"), Err(Error::MalformedImageId));
    assert_eq!(get_image_id(""), Err(Error::MalformedImageId));
    assert_eq!(get_image_id("[1,2,3,4,5,6,7,8,9]"), Err(Error::MalformedImageId));
    assert_eq!(get_image_id("[4294967296]"), Err(Error::MalformedImageId));
    assert_eq!(get_image_id("[1, \"2\"]"), Err(Error::MalformedImageId));
    assert_eq!(get_image_id("[-1]"), Err(Error::MalformedImageId));
    assert_eq!(get_image_id("[1.5]"), Err(Error::MalformedImageId));
}

#[test]
fn image_id_from_members_checks_each_member() {
    assert_eq!(image_id_from_members(None), Err(Error::MalformedImageId));
    assert_eq!(image_id_from_members(Some(vec![Some(9), Some(10)])), Ok([9, 10, 0, 0, 0, 0, 0, 0]));
    assert_eq!(image_id_from_members(Some(vec![Some(9), None])), Err(Error::MalformedImageId));
    assert_eq!(
        image_id_from_members(Some(vec![Some(0x1_0000_0000)])),
        Err(Error::MalformedImageId)
    );
    assert_eq!(image_id_from_members(Some(vec![Some(0); 9])), Err(Error::MalformedImageId));
}

#[test]
fn image_id_as_hexadecimal_text() {
    let id = [1u32, 2, 3, 4, 5, 6, 7, 0xdead_beef];
    let text = serialize_image_id(id);
    assert_eq!(text, "00000001000000020000000300000004000000050000000600000007deadbeef");
    assert_eq!(text.len(), 64);
    assert_eq!(deserialize_image_id(&text), Ok(id));
    assert_eq!(serialize_image_id([0; 8]), "0".repeat(64));
    assert_eq!(serialize_image_id([u32::MAX; 8]), "f".repeat(64));
    assert_eq!(serialize_image_id([0x0123_4567, 0x89ab_cdef, 0, 0, 0, 0, 0, 0xf0]), format!("0123456789abcdef{}000000f0", "0".repeat(40)));
}

#[test]
fn image_id_from_hexadecimal_text() {
    assert_eq!(deserialize_image_id("DEADbeef"), Ok([0xdead_beef, 0, 0, 0, 0, 0, 0, 0]));
    assert_eq!(deserialize_image_id(""), Ok([0; 8]));
    assert_eq!(deserialize_image_id("0000000100000002"), Ok([1, 2, 0, 0, 0, 0, 0, 0]));
    assert_eq!(deserialize_image_id("abc"), Err(Error::MalformedImageId));
    assert_eq!(deserialize_image_id("abcd"), Err(Error::MalformedImageId));
    assert_eq!(deserialize_image_id("0000000g"), Err(Error::MalformedImageId));
    assert_eq!(deserialize_image_id(&"0".repeat(72)), Err(Error::MalformedImageId));
    assert_eq!(deserialize_image_id(&"0".repeat(66)), Err(Error::MalformedImageId));
    assert_eq!(deserialize_image_id("éé"), Err(Error::MalformedImageId));
    assert_eq!(image_id_from_bytes(&vec![0, 0, 1, 2]), Ok([258, 0, 0, 0, 0, 0, 0, 0]));
    assert_eq!(image_id_from_bytes(&vec![0, 0, 1]), Err(Error::MalformedImageId));
}

#[test]
fn result_getters() {
    let r = ResultType::ProveResult { seal: vec![1, 2, 3], status: "OK".to_string() };
    assert_eq!(r.get_seal(), vec![1, 2, 3]);
    assert_eq!(r.get_status(), "OK");
    assert!(r.status_is_ok());
    let failed = ResultType::ProveResult { seal: Vec::new(), status: "boom".to_string() };
    assert_eq!(failed.get_seal(), Vec::<u8>::new());
    assert_eq!(failed.get_status(), "boom");
    assert!(!failed.status_is_ok());
    let near = ResultType::ProveResult { seal: Vec::new(), status: "OK ".to_string() };
    assert!(!near.status_is_ok());
}

#[test]
fn claim_of_fixed_inputs_is_deterministic() {
    let journal = vec![9u8, 10];
    let first = get_claim([1, 2, 3, 4, 5, 6, 7, 8], &journal);
    let second = get_claim([1, 2, 3, 4, 5, 6, 7, 8], &journal);
    assert_eq!(first, second);
    assert_eq!(first.pre, Digest::new([1, 2, 3, 4, 5, 6, 7, 8]));
    assert_eq!(first.journal, journal);
    assert_eq!(first.digest(), second.digest());
    assert_eq!(first.digest(), first.digest());
}

#[test]
fn claim_digest_is_that_of_the_proving_library() {
    let journal = vec![9u8, 10];
    let claim = get_claim([1, 2, 3, 4, 5, 6, 7, 8], &journal);
    let theirs = risc0_zkvm::ReceiptClaim::ok(
        risc0_zkp::core::digest::Digest::new([1, 2, 3, 4, 5, 6, 7, 8]),
        journal.clone(),
    )
    .digest();
    assert_eq!(claim.digest().bytes.as_slice(), theirs.as_bytes());
    assert_ne!(claim.digest(), claim.pre);
    let other = get_claim([1, 2, 3, 4, 5, 6, 7, 8], &vec![9u8, 11]);
    assert_ne!(claim.digest(), other.digest());
}

#[test]
fn label_hashes_are_sha256() {
    let empty = sha256_digest(&[]);
    assert_eq!(
        serialize_hex(&empty.bytes),
        "e3b0c44298fc1c149afbf4c8996fb92427ae41e4649b934ca495991b7852b855"
    );
    let abc = sha256_digest("abc".as_bytes());
    assert_eq!(
        serialize_hex(&abc.bytes),
        "ba7816bf8f01cfea414140de5dae2223b00361a396177a9cb410ff61f20015ad"
    );
}

fn serialize_hex(bytes: &[u8]) -> String {
    hex::encode(bytes)
}

#[test]
fn post_state_digest_is_that_of_the_proving_library() {
    let theirs = risc0_zkvm::MaybePruned::Value(risc0_zkvm::SystemState {
        pc: 0,
        merkle_root: risc0_zkp::core::digest::Digest::ZERO,
    })
    .digest();
    assert_eq!(post_state_digest().bytes.as_slice(), theirs.as_bytes());
    assert_ne!(post_state_digest(), Digest::zero());
}

#[test]
fn substitutions_are_applied_in_order() {
    let subs = vec![
        Substitution { name: "aa", bytes: vec![1, 2] },
        Substitution { name: "bb", bytes: vec![] },
        Substitution { name: "1", bytes: vec![7] },
    ];
    assert_eq!(materialize("aa-bb-aa-cc", &subs), "7, 2--7, 2-cc");
    assert_eq!(materialize("nothing here", &subs), "nothing here");
    assert_eq!(materialize("x", &Vec::new()), "x");
}

#[test]
fn proof_template_of_zero_seal() {
    let seal = Seal::from_vec(&vec![0u8; 256]).unwrap();
    let out = template_proof(&vec![9, 10], seal, "a=[proof_a]\nb=[proof_b]\nc=[proof_c]\nj=[journalx]\n");
    let zeros32 = bytes_to_str(&[0u8; 32]);
    let zeros64 = bytes_to_str(&[0u8; 64]);
    assert_eq!(out, format!("a=[{}]\nb=[{}]\nc=[{}]\nj=[9, 10]\n", zeros32, zeros64, zeros32));
}

#[test]
fn proof_template_of_a_seal() {
    let data = seal_bytes();
    let seal = Seal::from_vec(&data).unwrap();
    let proofs = generate_proof_bytes_from_seal(seal.clone());
    let out = template_proof(&vec![], seal, "proof_c|proof_a|journalx|proof_b|other");
    assert_eq!(
        out,
        format!(
            "{}|{}||{}|other",
            bytes_to_str(&proofs[2]),
            bytes_to_str(&proofs[0]),
            bytes_to_str(&proofs[1])
        )
    );
}

fn decimal_block(text: &str) -> Vec<u8> {
    let bytes = num_bigint::BigUint::parse_bytes(text.as_bytes(), 10).unwrap().to_bytes_be();
    let mut block = vec![0u8; 32 - bytes.len()];
    block.extend(bytes);
    block
}

#[test]
fn point_text_of_the_alpha_point() {
    let x = "20491192805390485299153009773594534940189261866228447918068658471970481763042";
    let y = "9383485363053290200918347156157836566562967994039712273449902621266178545958";
    let out = point_text_to_c_bytes(false, &format!("({}, {})", x, y)).unwrap();
    let mut expected = decimal_block(x);
    if decimal_block(y)[31] % 2 == 1 {
        expected[0] |= 0x80;
    }
    expected.reverse();
    assert_eq!(out, expected);
    assert_eq!(
        point_text_to_c_bytes(false, "infinity"),
        Err(Error::UnrecognizedPointFormat)
    );
    assert_eq!(point_text_to_c_bytes(false, "(, 1)"), Err(Error::MalformedInteger));
    assert_eq!(point_text_to_c_bytes(true, "(1, 2)"), Err(Error::UnrecognizedPointFormat));
}

#[test]
fn point_text_of_an_extension_point() {
    let out = point_text_to_c_bytes(true, "(QuadExtField(1 + 2 * u), QuadExtField(3 + 5 * u))")
        .unwrap();
    let mut expected = vec![0u8; 64];
    expected[0] = 1;
    expected[32] = 2;
    expected[63] = 0x80;
    assert_eq!(out, expected);
    let out = point_text_to_c_bytes(true, "(QuadExtField(1 + 2 * u), QuadExtField(4 + 5 * u))")
        .unwrap();
    expected[63] = 0;
    assert_eq!(out, expected);
}

fn sample_values() -> SetupValues {
    let mut root = [0u8; 32];
    let mut id = [0u8; 32];
    for i in 0..32 {
        root[i] = i as u8;
        id[i] = 100 + i as u8;
    }
    SetupValues {
        control_root: Digest { bytes: root },
        bn254_control_id: Digest { bytes: id },
        receipt_claim_tag: Digest { bytes: [1u8; 32] },
        output_tag: Digest { bytes: [2u8; 32] },
        claim_post: Digest { bytes: [3u8; 32] },
        claim_pre: Digest { bytes: [4u8; 32] },
        verifying_key: VerifyingKeyText {
            alpha_g1: "(1, 2)".to_string(),
            beta_g2: "(QuadExtField(1 + 2 * u), QuadExtField(3 + 4 * u))".to_string(),
            gamma_g2: "(QuadExtField(5 + 6 * u), QuadExtField(7 + 8 * u))".to_string(),
            delta_g2: "(QuadExtField(9 + 10 * u), QuadExtField(11 + 13 * u))".to_string(),
            gamma_abc_g1: (0..6).map(|i| format!("({}, {})", 20 + i, i)).collect(),
        },
    }
}

#[test]
fn setup_template_of_sample_values() {
    let values = sample_values();
    let template = "public_input_0;public_input_1;public_input_4a;public_input_4b;\
receipt_claim_tag;output_tag;claim_input;zeroes;two_u16;four_u16;zero_u32;claim_post;\
vk_alpha_g1;vk_gamma_abc_3;claim_pre;untouched";
    let out = materialize_setup(template, &values).unwrap();
    let fields: Vec<&str> = out.split(';').collect();
    assert_eq!(fields.len(), 16);
    assert_eq!(fields[0], bytes_to_str(&values.control_root.bytes[..16]));
    assert_eq!(fields[1], bytes_to_str(&values.control_root.bytes[16..]));
    assert_eq!(fields[2], bytes_to_str(&values.bn254_control_id.bytes[..16]));
    assert_eq!(fields[3], bytes_to_str(&values.bn254_control_id.bytes[16..]));
    assert_eq!(fields[4], bytes_to_str(&[1u8; 32]));
    assert_eq!(fields[5], bytes_to_str(&[2u8; 32]));
    assert_eq!(fields[6], bytes_to_str(&[0u8; 32]));
    assert_eq!(fields[7], bytes_to_str(&[0u8; 32]));
    assert_eq!(fields[8], "2, 0");
    assert_eq!(fields[9], "4, 0");
    assert_eq!(fields[10], "0, 0, 0, 0");
    assert_eq!(fields[11], bytes_to_str(&[3u8; 32]));
    let mut alpha = vec![0u8; 32];
    alpha[0] = 1;
    assert_eq!(fields[12], bytes_to_str(&alpha));
    let mut abc3 = vec![0u8; 32];
    abc3[0] = 23;
    abc3[31] = 0x80;
    assert_eq!(fields[13], bytes_to_str(&abc3));
    assert_eq!(fields[14], bytes_to_str(&[4u8; 32]));
    assert_eq!(fields[15], "untouched");
}

#[test]
fn setup_template_failures() {
    let mut short = sample_values();
    short.verifying_key.gamma_abc_g1.pop();
    assert_eq!(materialize_setup("x", &short), Err(Error::VerifierParametersMissing));
    let mut bad_point = sample_values();
    bad_point.verifying_key.gamma_g2 = "infinity".to_string();
    assert_eq!(materialize_setup("x", &bad_point), Err(Error::UnrecognizedPointFormat));
    let mut bad_number = sample_values();
    bad_number.verifying_key.gamma_abc_g1[5] = "(, 1)".to_string();
    assert_eq!(materialize_setup("x", &bad_number), Err(Error::MalformedInteger));
    let mut both = sample_values();
    both.verifying_key.alpha_g1 = "(1, x)".to_string();
    both.verifying_key.beta_g2 = "infinity".to_string();
    assert_eq!(materialize_setup("x", &both), Err(Error::MalformedInteger));
    assert_eq!(encode_verifying_key(&both.verifying_key), Err(Error::MalformedInteger));
}

#[test]
fn verifying_key_points_are_encoded_in_order() {
    let values = sample_values();
    let points = encode_verifying_key(&values.verifying_key).unwrap();
    assert_eq!(points.len(), 10);
    assert_eq!(points[0].len(), 32);
    assert_eq!(points[1].len(), 64);
    assert_eq!(points[2].len(), 64);
    assert_eq!(points[3].len(), 64);
    assert_eq!(points[3][63], 0x80);
    assert_eq!(points[3][0], 9);
    assert_eq!(points[3][32], 10);
    for i in 0..6 {
        assert_eq!(points[4 + i][0], 20 + i as u8);
    }
}

#[test]
fn setup_values_of_the_proving_library() {
    let values = setup_values([1, 2, 3, 4, 5, 6, 7, 8]).unwrap();
    let params = risc0_zkvm::Groth16ReceiptVerifierParameters::default();
    assert_eq!(values.control_root.bytes.as_slice(), params.control_root.as_bytes());
    assert_eq!(values.bn254_control_id.bytes.as_slice(), params.bn254_control_id.as_bytes());
    assert_ne!(values.control_root, values.bn254_control_id);
    assert_eq!(values.claim_pre, Digest::new([1, 2, 3, 4, 5, 6, 7, 8]));
    assert_eq!(values.claim_post, post_state_digest());
    assert_eq!(values.receipt_claim_tag, sha256_digest("risc0.ReceiptClaim".as_bytes()));
    assert_eq!(values.output_tag, sha256_digest("risc0.Output".as_bytes()));
    assert_eq!(values.verifying_key.gamma_abc_g1.len(), 6);
    assert_eq!(
        values.verifying_key.alpha_g1,
        "(20491192805390485299153009773594534940189261866228447918068658471970481763042, \
9383485363053290200918347156157836566562967994039712273449902621266178545958)"
    );
    assert_eq!(
        values.verifying_key.beta_g2,
        "(QuadExtField(6375614351688725206403948262868962793625744043794305715222011528459656738731 \
+ 4252822878758300859123897981450591353533073413197771768651442665752259397132 * u), \
QuadExtField(10505242626370262277552901082094356697409835680220590971873171140371331206856 \
+ 21847035105528745403288232691147584728191162732299865338377159692350059136679 * u))"
    );
}

#[test]
fn setup_template_twice_gives_the_same_text() {
    let template = "a: public_input_0\nb: vk_beta_g2\nc: vk_gamma_abc_5\nd: claim_pre\ne: claim_post\n";
    let first = template_setup([1, 2, 3, 4, 5, 6, 7, 8], template).unwrap();
    let second = template_setup([1, 2, 3, 4, 5, 6, 7, 8], template).unwrap();
    assert_eq!(first, second);
    assert!(!first.contains("public_input_0"));
    assert!(!first.contains("vk_beta_g2"));
    assert!(!first.contains("claim_pre"));
    let lines: Vec<&str> = first.lines().collect();
    assert_eq!(lines[1].split(", ").count(), 64);
    assert_eq!(lines[2].split(", ").count(), 32);
    assert_eq!(
        lines[3],
        format!("d: {}", bytes_to_str(&Digest::new([1, 2, 3, 4, 5, 6, 7, 8]).bytes))
    );
    let other = template_setup([8, 7, 6, 5, 4, 3, 2, 1], template).unwrap();
    assert_ne!(first, other);
}

#[test]
fn setup_template_encodes_the_default_verifying_key() {
    let out = template_setup([0; 8], "vk_beta_g2").unwrap();
    let x1 = "4252822878758300859123897981450591353533073413197771768651442665752259397132";
    let x2 = "6375614351688725206403948262868962793625744043794305715222011528459656738731";
    let y2 = "10505242626370262277552901082094356697409835680220590971873171140371331206856";
    let seal_order_x = [decimal_block(x1), decimal_block(x2)];
    let mut first = seal_order_x[1].clone();
    first.reverse();
    let mut second = seal_order_x[0].clone();
    if decimal_block(y2)[31] % 2 == 1 {
        second[0] |= 0x80;
    }
    second.reverse();
    first.extend(second);
    assert_eq!(out, bytes_to_str(&first));
}

#[test]
fn failures_describe_themselves() {
    assert_eq!(Error::MalformedInteger.message(), "malformed integer");
    assert_eq!(Error::UnrecognizedPointFormat.message(), "unrecognized point format");
    assert_eq!(Error::VerifierParametersMissing.message(), "verifier parameters missing");
    assert_eq!(Error::MalformedImageId.message(), "malformed image id");
    assert_eq!(Error::MalformedSeal.message(), "malformed seal");
    assert_eq!(Error::ReceiptFormatError.message(), "receipt format error");
    assert_eq!(Error::InvalidProof.message(), "invalid proof");
}

#[test]
fn setup_values_need_parameters() {
    assert_eq!(setup_values_from(None, [1, 2, 3, 4, 5, 6, 7, 8]), None);
    let values = setup_values_from(default_verifier_parameters(), [1, 2, 3, 4, 5, 6, 7, 8]);
    assert!(values.is_some());
    assert_eq!(values, setup_values([1, 2, 3, 4, 5, 6, 7, 8]));
}

#[test]
fn setup_values_hand_the_parameters_on() {
    let sample = sample_values();
    let parameters = VerifierParameters {
        control_root: sample.control_root,
        bn254_control_id: sample.bn254_control_id,
        verifying_key: sample.verifying_key.clone(),
    };
    let values = setup_values_from(Some(parameters), [1, 2, 3, 4, 5, 6, 7, 8]).unwrap();
    assert_eq!(values.control_root, sample.control_root);
    assert_eq!(values.bn254_control_id, sample.bn254_control_id);
    assert_eq!(values.verifying_key, sample.verifying_key);
    assert_eq!(values.claim_pre, Digest::new([1, 2, 3, 4, 5, 6, 7, 8]));
    assert_eq!(values.claim_post, post_state_digest());
    assert_eq!(values.receipt_claim_tag, sha256_digest("risc0.ReceiptClaim".as_bytes()));
    assert_eq!(values.output_tag, sha256_digest("risc0.Output".as_bytes()));
}

#[test]
fn default_parameters_in_plain_form() {
    let plain = default_verifier_parameters().unwrap();
    let params = risc0_zkvm::Groth16ReceiptVerifierParameters::default();
    assert_eq!(plain.control_root.bytes.as_slice(), params.control_root.as_bytes());
    assert_eq!(plain.bn254_control_id.bytes.as_slice(), params.bn254_control_id.as_bytes());
    assert_eq!(plain.verifying_key.gamma_abc_g1.len(), 6);
    assert!(plain.verifying_key.alpha_g1.starts_with("(2049119280539048529915300977359453494"));
}

fn sha256_bytes(data: &[u8]) -> Vec<u8> {
    sha256_digest(data).bytes.to_vec()
}

#[test]
fn post_state_digest_is_the_hash_of_its_parts() {
    let mut all = sha256_bytes("risc0.SystemState".as_bytes());
    all.extend([0u8; 32]);
    all.extend(0u32.to_le_bytes());
    all.extend(1u16.to_le_bytes());
    assert_eq!(post_state_digest().bytes.to_vec(), sha256_bytes(&all));
}

#[test]
fn claim_digest_is_the_hash_of_its_parts() {
    for journal in [vec![], vec![9u8, 10], (0u8..200).collect::<Vec<u8>>()] {
        let claim = get_claim([1, 2, 3, 4, 5, 6, 7, 0xffff_ffff], &journal);
        let mut output = sha256_bytes("risc0.Output".as_bytes());
        output.extend(sha256_bytes(&journal));
        output.extend([0u8; 32]);
        output.extend(2u16.to_le_bytes());
        let mut all = sha256_bytes("risc0.ReceiptClaim".as_bytes());
        all.extend([0u8; 32]);
        all.extend(claim.pre.bytes);
        all.extend(post_state_digest().bytes);
        all.extend(sha256_bytes(&output));
        all.extend(0u32.to_le_bytes());
        all.extend(0u32.to_le_bytes());
        all.extend(4u16.to_le_bytes());
        assert_eq!(claim.digest().bytes.to_vec(), sha256_bytes(&all));
    }
}

#[test]
fn long_json_texts_are_not_parsed() {
    let fraction = format!("0.{}", "0".repeat(40000));
    assert_eq!(read_members(&fraction), None);
    assert_eq!(get_image_id(&fraction), Err(Error::MalformedImageId));
    assert_eq!(get_seal(&fraction), Err(Error::MalformedSeal));
    let in_array = format!("[{}]", fraction);
    assert_eq!(get_image_id(&in_array), Err(Error::MalformedImageId));
    assert_eq!(get_seal(&in_array), Err(Error::MalformedSeal));
}

#[test]
fn json_texts_up_to_the_limit_are_parsed() {
    let at_limit = format!("[7{}]", " ".repeat(MAX_JSON_CHARS - 3));
    assert_eq!(at_limit.chars().count(), MAX_JSON_CHARS);
    assert_eq!(read_members(&at_limit), Some(vec![Some(7)]));
    assert_eq!(get_image_id(&at_limit), Ok([7, 0, 0, 0, 0, 0, 0, 0]));
    let over = format!("[7{}]", " ".repeat(MAX_JSON_CHARS - 2));
    assert_eq!(over.chars().count(), MAX_JSON_CHARS + 1);
    assert_eq!(read_members(&over), None);
    assert_eq!(get_image_id(&over), Err(Error::MalformedImageId));
    let zeros = format!("[0.{}]", "0".repeat(MAX_JSON_CHARS - 4));
    assert_eq!(zeros.chars().count(), MAX_JSON_CHARS);
    assert_eq!(read_members(&zeros), Some(vec![None]));
}

#[test]
fn members_of_json_texts() {
    assert_eq!(read_members("[1, 2.5, \"x\", -3, 18446744073709551615, null]"),
        Some(vec![Some(1), None, None, None, Some(18446744073709551615), None]));
    assert_eq!(read_members("{\"a\": 1}"), Some(vec![]));
    assert_eq!(read_members("[1,"), None);
}
