use proof_codec::bigint::{bytes_to_str, from_u256_bigint};
use proof_codec::bytes::{be_to_u128, le_bytes_of, to_fixed_array};
use proof_codec::digest::{split_digest_custom, Digest};
use proof_codec::encode::{
    g1_to_c_bytes,
    g1_uncompressed_bytes,
    g2_to_c_bytes,
    g2_uncompressed_bytes,
};
use proof_codec::error::Error;

#[test]
fn bytes_render_as_comma_list() {
    assert_eq!(bytes_to_str(&[1, 2, 255]), "1, 2, 255");
    assert_eq!(bytes_to_str(&[]), "");
    assert_eq!(bytes_to_str(&[0]), "0");
    assert_eq!(bytes_to_str(&[10, 100, 99, 9, 200]), "10, 100, 99, 9, 200");
}

#[test]
fn bytes_render_like_the_standard_join() {
    let all: Vec<u8> = (0u8..=255).collect();
    let expected = all.iter().map(|b| b.to_string()).collect::<Vec<String>>().join(", ");
    assert_eq!(bytes_to_str(&all), expected);
}

#[test]
fn decimal_text_becomes_32_bytes() {
    let mut expected = vec![0u8; 32];
    expected[30] = 4;
    expected[31] = 101;
    assert_eq!(from_u256_bigint("1125"), Ok(expected));
    assert_eq!(from_u256_bigint("0"), Ok(vec![0u8; 32]));
    let mut one = vec![0u8; 32];
    one[31] = 1;
    assert_eq!(from_u256_bigint("1"), Ok(one));
}

#[test]
fn decimal_text_with_sign_or_underscores() {
    let mut five = vec![0u8; 32];
    five[31] = 5;
    assert_eq!(from_u256_bigint("+5"), Ok(five.clone()));
    assert_eq!(from_u256_bigint("0_5"), Ok(five));
    let mut thousand = vec![0u8; 32];
    thousand[30] = 3;
    thousand[31] = 232;
    assert_eq!(from_u256_bigint("1_000"), Ok(thousand));
    assert_eq!(from_u256_bigint("-0"), Ok(vec![0u8; 32]));
    assert_eq!(from_u256_bigint("-0_0"), Ok(vec![0u8; 32]));
    let mut one = vec![0u8; 32];
    one[31] = 1;
    assert_eq!(from_u256_bigint("1_"), Ok(one.clone()));
    assert_eq!(from_u256_bigint("+0001__"), Ok(one));
}

#[test]
fn malformed_integers_are_rejected() {
    assert_eq!(from_u256_bigint(""), Err(Error::MalformedInteger));
    assert_eq!(from_u256_bigint("-5"), Err(Error::MalformedInteger));
    assert_eq!(from_u256_bigint("-"), Err(Error::MalformedInteger));
    assert_eq!(from_u256_bigint("+"), Err(Error::MalformedInteger));
    assert_eq!(from_u256_bigint("12a"), Err(Error::MalformedInteger));
    assert_eq!(from_u256_bigint("_1"), Err(Error::MalformedInteger));
    assert_eq!(from_u256_bigint("+-1"), Err(Error::MalformedInteger));
    assert_eq!(from_u256_bigint("-+1"), Err(Error::MalformedInteger));
    assert_eq!(from_u256_bigint(" 1"), Err(Error::MalformedInteger));
    assert_eq!(from_u256_bigint("0x10"), Err(Error::MalformedInteger));
    assert_eq!(from_u256_bigint("\u{661}"), Err(Error::MalformedInteger));
}

#[test]
fn decimal_round_trip_below_two_to_256() {
    let max = "115792089237316195423570985008687907853269984665640564039457584007913129639935";
    assert_eq!(from_u256_bigint(max), Ok(vec![255u8; 32]));
    let value = "20491192805390485299153009773594534940189261866228447918068658471970481763042";
    let bytes = from_u256_bigint(value).unwrap();
    assert_eq!(bytes.len(), 32);
    let back = num_bigint::BigUint::from_bytes_be(&bytes);
    assert_eq!(back.to_string(), value);
}

#[test]
fn decimal_of_two_to_256_keeps_low_bytes() {
    let two_to_256 =
        "115792089237316195423570985008687907853269984665640564039457584007913129639936";
    assert_eq!(from_u256_bigint(two_to_256), Ok(vec![0u8; 32]));
    let plus_seven =
        "115792089237316195423570985008687907853269984665640564039457584007913129639943";
    let mut seven = vec![0u8; 32];
    seven[31] = 7;
    assert_eq!(from_u256_bigint(plus_seven), Ok(seven));
}

#[test]
fn fixed_array_pads_and_truncates() {
    let mut expected = [0u8; 32];
    expected[31] = 7;
    assert_eq!(to_fixed_array(vec![7]), expected);
    assert_eq!(to_fixed_array(vec![]), [0u8; 32]);
    let exact: Vec<u8> = (1u8..=32).collect();
    assert_eq!(to_fixed_array(exact.clone()).to_vec(), exact);
    let long: Vec<u8> = (0u8..40).collect();
    let kept: Vec<u8> = (8u8..40).collect();
    assert_eq!(to_fixed_array(long).to_vec(), kept);
}

#[test]
fn big_endian_reads_and_little_endian_writes() {
    assert_eq!(be_to_u128(&[1, 2, 3], 0, 3), 0x010203);
    assert_eq!(be_to_u128(&[1, 2, 3], 1, 3), 0x0203);
    assert_eq!(be_to_u128(&[1, 2, 3], 2, 2), 0);
    assert_eq!(be_to_u128(&[255u8; 16], 0, 16), u128::MAX);
    assert_eq!(le_bytes_of(0x010203, 4), vec![3, 2, 1, 0]);
    assert_eq!(le_bytes_of(2, 2), 2u16.to_le_bytes().to_vec());
    assert_eq!(le_bytes_of(4, 2), 4u16.to_le_bytes().to_vec());
    assert_eq!(le_bytes_of(0, 4), 0u32.to_le_bytes().to_vec());
    assert_eq!(le_bytes_of(u128::MAX - 5, 16), (u128::MAX - 5).to_le_bytes().to_vec());
    assert_eq!(le_bytes_of(7, 0), Vec::<u8>::new());
}

#[test]
fn zero_digest_splits_to_zero() {
    let d = Digest { bytes: [0u8; 32] };
    assert_eq!(split_digest_custom(d), (0, 0));
    assert_eq!(split_digest_custom(Digest::zero()), (0, 0));
}

#[test]
fn digest_splits_into_high_and_low() {
    let mut bytes = [0u8; 32];
    for i in 0..32 {
        bytes[i] = i as u8;
    }
    let (high, low) = split_digest_custom(Digest { bytes });
    let mut first = [0u8; 16];
    first.copy_from_slice(&bytes[..16]);
    let mut second = [0u8; 16];
    second.copy_from_slice(&bytes[16..]);
    assert_eq!(high, u128::from_le_bytes(first));
    assert_eq!(low, u128::from_le_bytes(second));
    assert_eq!(high, 0x0f0e0d0c0b0a09080706050403020100);
    assert_eq!(low, 0x1f1e1d1c1b1a19181716151413121110);
    assert_eq!(le_bytes_of(high, 16), bytes[..16].to_vec());
    assert_eq!(le_bytes_of(low, 16), bytes[16..].to_vec());
}

#[test]
fn digest_split_is_repeatable() {
    let mut bytes = [0u8; 32];
    for i in 0..32 {
        bytes[i] = (i * 7 + 3) as u8;
    }
    let d = Digest { bytes };
    assert_eq!(split_digest_custom(d), split_digest_custom(d));
}

#[test]
fn digest_of_words_matches_the_proving_library() {
    let words = [1u32, 2, 3, 4, 5, 6, 7, 0xdead_beef];
    let ours = Digest::new(words);
    let theirs = risc0_zkp::core::digest::Digest::new(words);
    assert_eq!(ours.as_bytes().as_slice(), theirs.as_bytes());
    assert_eq!(ours.bytes[0..4], [1, 0, 0, 0]);
    assert_eq!(ours.bytes[28..32], [0xef, 0xbe, 0xad, 0xde]);
}

fn coordinate(first: u8, last: u8) -> Vec<u8> {
    let mut c: Vec<u8> = (0u8..32).collect();
    c[0] = first;
    c[31] = last;
    c
}

#[test]
fn g1_with_even_y_is_x_reversed() {
    let x = coordinate(0x12, 0x34);
    let y = coordinate(0, 2);
    let out = g1_to_c_bytes(vec![x.clone(), y]);
    let mut expected = x.clone();
    expected.reverse();
    assert_eq!(out, expected);
    assert_eq!(out[31], 0x12);
}

#[test]
fn g1_with_odd_y_sets_bit_7_of_last_byte() {
    let x = coordinate(0x12, 0x34);
    let y = coordinate(0, 3);
    let out = g1_to_c_bytes(vec![x.clone(), y]);
    assert_eq!(out[31], 0x92);
    assert_eq!(out[31] & 0x80, 0x80);
    let mut expected = x.clone();
    expected.reverse();
    assert_eq!(out[..31], expected[..31]);
}

#[test]
fn g1_with_high_bit_already_set_keeps_it() {
    let x = coordinate(0x92, 0);
    let y = coordinate(0, 1);
    let out = g1_to_c_bytes(vec![x, y]);
    assert_eq!(out[31], 0x92);
}

#[test]
fn g2_is_x1_then_x0_each_reversed() {
    let x0 = coordinate(0x01, 0xaa);
    let x1 = coordinate(0x02, 0xbb);
    let y0 = coordinate(0x03, 0x01);
    let y1_even = coordinate(0x04, 0x10);
    let out = g2_to_c_bytes(vec![vec![x0.clone(), x1.clone()], vec![y0.clone(), y1_even]]);
    assert_eq!(out.len(), 64);
    let mut first = x1.clone();
    first.reverse();
    let mut second = x0.clone();
    second.reverse();
    assert_eq!(out[..32], first[..]);
    assert_eq!(out[32..], second[..]);

    let y1_odd = coordinate(0x04, 0x11);
    let out = g2_to_c_bytes(vec![vec![x0, x1], vec![y0, y1_odd]]);
    assert_eq!(out[..32], first[..]);
    assert_eq!(out[63], 0x81);
    assert_eq!(out[32..63], second[..31]);
}

#[test]
fn zero_points_encode_as_zero() {
    let zero = vec![0u8; 32];
    assert_eq!(g1_to_c_bytes(vec![zero.clone(), zero.clone()]), vec![0u8; 32]);
    let pair = vec![zero.clone(), zero.clone()];
    assert_eq!(g2_to_c_bytes(vec![pair.clone(), pair]), vec![0u8; 64]);
}

#[test]
fn uncompressed_layouts() {
    let g1 = vec![vec![1u8, 2, 3], vec![4u8, 5]];
    assert_eq!(g1_uncompressed_bytes(&g1), vec![3, 2, 1, 5, 4]);
    let g2 = vec![vec![vec![1u8, 2], vec![3u8, 4]], vec![vec![5u8, 6], vec![7u8, 8]]];
    assert_eq!(g2_uncompressed_bytes(&g2), vec![4, 3, 2, 1, 8, 7, 6, 5]);
}
