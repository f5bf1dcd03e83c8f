//! The Groth16 seal: three curve points in big-endian bytes.

use vstd::prelude::*;
use crate::encode::{encode_g1, encode_g2, g1_to_c_bytes, g2_to_c_bytes, is_g1, is_g2};
use crate::error::Error;

verus! {

/// One Groth16 proof: the points `a` and `c` of the base-field group and the
/// point `b` of the extension-field group, every coordinate in 32 big-endian
/// bytes.
#[derive(Clone, Debug, PartialEq, Eq)]
pub struct Seal {
    /// The point `a` as `[x, y]`.
    pub a: Vec<Vec<u8>>,
    /// The point `b` as `[[x0, x1], [y0, y1]]`.
    pub b: Vec<Vec<Vec<u8>>>,
    /// The point `c` as `[x, y]`.
    pub c: Vec<Vec<u8>>,
}

impl Seal {
    /// Whether the seal holds two, four and two coordinates of 32 bytes each.
    pub open spec fn wf(&self) -> bool {
        is_g1(self.a@) && is_g2(self.b@) && is_g1(self.c@)
    }

    /// The eight coordinates one after the other: those of `a`, of `b` and of
    /// `c`, in the order in which the seal holds them.
    pub open spec fn flat(&self) -> Seq<u8> {
        self.a@[0]@ + self.a@[1]@ + self.b@[0]@[0]@ + self.b@[0]@[1]@ + self.b@[1]@[0]@
            + self.b@[1]@[1]@ + self.c@[0]@ + self.c@[1]@
    }

    /// Reads a seal from its 256 bytes; any other length is rejected.
    pub fn from_vec(data: &Vec<u8>) -> (r: Result<Seal, Error>)
        ensures
            r is Ok <==> data@.len() == 256,
            r matches Ok(seal) ==> seal.wf() && seal.flat() == data@,
            r matches Err(e) ==> e == Error::MalformedSeal,
    {
        match seal_from_vec(data) {
            Some(seal) => Ok(seal),
            None => Err(Error::MalformedSeal),
        }
    }
}

/// Calls `Seal::from_vec` of risc0-groth16, which accepts exactly 256 bytes
/// and cuts them into eight coordinates of 32 bytes: two for `a`, four for
/// `b`, two for `c`.
#[verifier::external_body]
fn seal_from_vec(data: &Vec<u8>) -> (r: Option<Seal>)
    ensures
        r is Some <==> data@.len() == 256,
        r matches Some(seal) ==> seal.wf() && seal.flat() == data@,
{
    match risc0_groth16::Seal::from_vec(data) {
        Ok(seal) => Some(Seal { a: seal.a, b: seal.b, c: seal.c }),
        Err(_) => None,
    }
}

/// Encodes the three points of a seal for the external verifier: `a` and `c`
/// as compressed G1 points, `b` as a compressed G2 point.
pub fn generate_proof_bytes_from_seal(seal: Seal) -> (r: Vec<Vec<u8>>)
    requires
        seal.wf(),
    ensures
        r@.len() == 3,
        r@[0]@ == encode_g1(seal.a@[0]@, seal.a@[1]@),
        r@[1]@ == encode_g2(seal.b@[0]@[0]@, seal.b@[0]@[1]@, seal.b@[1]@[1]@),
        r@[2]@ == encode_g1(seal.c@[0]@, seal.c@[1]@),
{
    let bytes_proof_a = g1_to_c_bytes(seal.a);
    let bytes_proof_b = g2_to_c_bytes(seal.b);
    let bytes_proof_c = g1_to_c_bytes(seal.c);
    let mut r: Vec<Vec<u8>> = Vec::new();
    r.push(bytes_proof_a);
    r.push(bytes_proof_b);
    r.push(bytes_proof_c);
    r
}

} // verus!
