//! Decoding the JSON inputs: an image identifier and a seal.

use vstd::prelude::*;
use vstd::string::*;
use crate::error::Error;
use crate::seal::Seal;

verus! {

/// What the JSON parser makes of a text. Nothing when the text is not JSON.
/// For a JSON array, one entry per member: the member's value when it is a
/// number that fits an unsigned 64-bit integer, nothing otherwise. For any
/// other JSON value, no entries.
pub uninterp spec fn json_members(text: Seq<char>) -> Option<Seq<Option<u64>>>;

/// The longest JSON text that is handed to the parser, in characters.
pub const MAX_JSON_CHARS: usize = 32767;

/// What is read from a text: the parser's result for a text of at most
/// `MAX_JSON_CHARS` characters, nothing for a longer one.
pub open spec fn read_text(text: Seq<char>) -> Option<Seq<Option<u64>>> {
    if text.len() <= MAX_JSON_CHARS {
        json_members(text)
    } else {
        None
    }
}

/// Parses `text` with `json::parse` and reads each member of the resulting
/// array with `JsonValue::as_u64`. The parser counts the digits of a
/// fraction in 16 bits, so a text of more than `MAX_JSON_CHARS` characters is
/// kept from it.
#[verifier::external_body]
fn parse_members(text: &str) -> (r: Option<Vec<Option<u64>>>)
    requires
        text@.len() <= MAX_JSON_CHARS,
    ensures
        match r {
            Some(members) => json_members(text@) == Some(members@),
            None => json_members(text@) is None,
        },
{
    match json::parse(text) {
        Ok(value) => Some(value.members().map(|member| member.as_u64()).collect()),
        Err(_) => None,
    }
}

/// The members held by a parse result, as a sequence.
pub open spec fn members_view(parsed: Option<Vec<Option<u64>>>) -> Option<Seq<Option<u64>>> {
    match parsed {
        Some(members) => Some(members@),
        None => None,
    }
}

/// Whether every member is a number below `bound`.
pub open spec fn all_below(members: Seq<Option<u64>>, bound: int) -> bool {
    forall|i: int| 0 <= i < members.len() ==> (#[trigger] members[i]) is Some && members[i]->0 < bound
}

/// The image identifier that a parsed JSON text denotes: at most eight
/// members, each a 32-bit word; words that are missing are zero.
pub open spec fn image_id_of(parsed: Option<Seq<Option<u64>>>) -> Option<Seq<u32>> {
    match parsed {
        Some(members) => if members.len() <= 8 && all_below(members, 0x1_0000_0000) {
            Some(
                Seq::new(
                    8,
                    |i: int|
                        if i < members.len() {
                            members[i]->0 as u32
                        } else {
                            0u32
                        },
                ),
            )
        } else {
            None
        },
        None => None,
    }
}

/// The 256 bytes of a seal that a parsed JSON text denotes: exactly 256
/// members, each a byte.
pub open spec fn seal_bytes_of(parsed: Option<Seq<Option<u64>>>) -> Option<Seq<u8>> {
    match parsed {
        Some(members) => if members.len() == 256 && all_below(members, 0x100) {
            Some(Seq::new(256, |i: int| members[i]->0 as u8))
        } else {
            None
        },
        None => None,
    }
}

/// Builds an image identifier from the members of a parsed JSON text.
pub fn image_id_from_members(parsed: Option<Vec<Option<u64>>>) -> (r: Result<[u32; 8], Error>)
    ensures
        match r {
            Ok(id) => image_id_of(members_view(parsed)) == Some(id@),
            Err(e) => e == Error::MalformedImageId && image_id_of(
                members_view(parsed),
            ) is None,
        },
{
    let members = match parsed {
        Some(members) => members,
        None => { return Err(Error::MalformedImageId); },
    };
    let n: usize = members.len();
    if n > 8 {
        return Err(Error::MalformedImageId);
    }
    let mut id: [u32; 8] = [0u32; 8];
    let mut k: usize = 0;
    while k < n
        invariant
            k <= n <= 8,
            n == members@.len(),
            members_view(parsed) == Some(members@),
            forall|j: int| 0 <= j < k ==> (#[trigger] members@[j]) is Some && members@[j]->0
                < 0x1_0000_0000 && id@[j] == members@[j]->0 as u32,
            forall|j: int| k <= j < 8 ==> id@[j] == 0,
        decreases n - k,
    {
        match members[k] {
            Some(value) => {
                if value > 0xFFFF_FFFF {
                    assert(!all_below(members@, 0x1_0000_0000)) by {
                        assert(members@[k as int]->0 >= 0x1_0000_0000);
                    }
                    return Err(Error::MalformedImageId);
                }
                id[k] = value as u32;
            },
            None => {
                assert(!all_below(members@, 0x1_0000_0000)) by {
                    assert(members@[k as int] is None);
                }
                return Err(Error::MalformedImageId);
            },
        }
        k = k + 1;
    }
    assert(image_id_of(Some(members@))->0 =~= id@);
    Ok(id)
}

/// Builds a seal from the members of a parsed JSON text.
pub fn seal_from_members(parsed: Option<Vec<Option<u64>>>) -> (r: Result<Seal, Error>)
    ensures
        match r {
            Ok(seal) => seal.wf() && seal_bytes_of(members_view(parsed)) == Some(
                seal.flat(),
            ),
            Err(e) => e == Error::MalformedSeal && seal_bytes_of(
                members_view(parsed),
            ) is None,
        },
{
    let members = match parsed {
        Some(members) => members,
        None => { return Err(Error::MalformedSeal); },
    };
    let n: usize = members.len();
    if n != 256 {
        return Err(Error::MalformedSeal);
    }
    let mut bytes: Vec<u8> = Vec::new();
    let mut k: usize = 0;
    while k < n
        invariant
            k <= n,
            n == members@.len(),
            members_view(parsed) == Some(members@),
            bytes@.len() == k,
            forall|j: int| 0 <= j < k ==> (#[trigger] members@[j]) is Some && members@[j]->0 < 0x100
                && bytes@[j] == members@[j]->0 as u8,
        decreases n - k,
    {
        match members[k] {
            Some(value) => {
                if value > 0xFF {
                    assert(!all_below(members@, 0x100)) by {
                        assert(members@[k as int]->0 >= 0x100);
                    }
                    return Err(Error::MalformedSeal);
                }
                bytes.push(value as u8);
            },
            None => {
                assert(!all_below(members@, 0x100)) by {
                    assert(members@[k as int] is None);
                }
                return Err(Error::MalformedSeal);
            },
        }
        k = k + 1;
    }
    assert(seal_bytes_of(Some(members@))->0 =~= bytes@);
    Seal::from_vec(&bytes)
}

/// Parses a JSON text of at most `MAX_JSON_CHARS` characters and reads the
/// members of its array; a longer text is not parsed and gives nothing.
pub fn read_members(text: &str) -> (r: Option<Vec<Option<u64>>>)
    ensures
        members_view(r) == read_text(text@),
{
    if text.unicode_len() > MAX_JSON_CHARS {
        return None;
    }
    parse_members(text)
}

/// Reads an image identifier from JSON text: an array of at most eight
/// unsigned 32-bit numbers. Words that the array lacks are zero. A text of
/// more than `MAX_JSON_CHARS` characters is rejected.
pub fn get_image_id(image_id_json: &str) -> (r: Result<[u32; 8], Error>)
    ensures
        match r {
            Ok(id) => image_id_json@.len() <= MAX_JSON_CHARS && image_id_of(
                json_members(image_id_json@),
            ) == Some(id@),
            Err(e) => e == Error::MalformedImageId && (image_id_json@.len() > MAX_JSON_CHARS
                || image_id_of(json_members(image_id_json@)) is None),
        },
{
    image_id_from_members(read_members(image_id_json))
}

/// Reads a seal from JSON text: an array of exactly 256 byte values. A text
/// of more than `MAX_JSON_CHARS` characters is rejected.
pub fn get_seal(proof_json: &str) -> (r: Result<Seal, Error>)
    ensures
        match r {
            Ok(seal) => proof_json@.len() <= MAX_JSON_CHARS && seal.wf() && seal_bytes_of(
                json_members(proof_json@),
            ) == Some(seal.flat()),
            Err(e) => e == Error::MalformedSeal && (proof_json@.len() > MAX_JSON_CHARS
                || seal_bytes_of(json_members(proof_json@)) is None),
        },
{
    seal_from_members(read_members(proof_json))
}

} // verus!
