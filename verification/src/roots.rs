//! The roots file: a count of four bytes, lowest byte first, and then the
//! state roots one after the other, 32 bytes each.

use borsh::{BorshDeserialize, BorshSerialize};
use crate::laws::{lemma_count_bytes_of_count, lemma_encoding_injective};
use vstd::prelude::*;

verus! {

/// Number of bytes of a state root.
pub const HASH_SIZE: usize = 32;

/// The hash at the root of the state trie of one shard.
pub type StateRoot = [u8; 32];

/// More roots than the count in front of them can express.
#[derive(Debug, Clone, Copy, PartialEq, Eq)]
pub struct EncodeError;

/// The bytes are not the encoding of any list of roots.
#[derive(Debug, Clone, Copy, PartialEq, Eq)]
pub struct DecodeError;

#[verifier::external_type_specification]
#[verifier::external_body]
pub struct ExIoError(std::io::Error);

/// The four bytes that stand for the count `n`, lowest byte first.
pub open spec fn count_bytes(n: nat) -> Seq<u8> {
    seq![
        (n % 256) as u8,
        (n / 256 % 256) as u8,
        (n / 65536 % 256) as u8,
        (n / 16777216 % 256) as u8,
    ]
}

/// The count that the first four bytes of `bytes` stand for.
pub open spec fn count_of(bytes: Seq<u8>) -> nat
    recommends
        bytes.len() >= 4,
{
    (bytes[0] + 256 * bytes[1] + 65536 * bytes[2] + 16777216 * bytes[3]) as nat
}

/// The bytes of all `roots`, one root after the other.
pub open spec fn hashes_bytes(roots: Seq<StateRoot>) -> Seq<u8> {
    Seq::new(32 * roots.len(), |i: int| roots[i / 32][i % 32])
}

/// The contents of the roots file that holds `roots`.
pub open spec fn roots_encoding(roots: Seq<StateRoot>) -> Seq<u8> {
    count_bytes(roots.len()) + hashes_bytes(roots)
}

/// Whether `bytes` is a complete roots file: a count, and exactly as many
/// roots as the count says.
pub open spec fn is_roots_file(bytes: Seq<u8>) -> bool {
    bytes.len() >= 4 && bytes.len() == 4 + 32 * count_of(bytes)
}

/// The roots that a roots file holds: the list of which `bytes` is the
/// encoding.
pub open spec fn roots_of(bytes: Seq<u8>) -> Seq<StateRoot>
    recommends
        is_roots_file(bytes),
{
    choose|roots: Seq<StateRoot>| roots_encoding(roots) == bytes
}

/// `BorshSerialize::try_to_vec` of borsh, on a slice of 32-byte arrays. It
/// fails when the length of the slice does not fit in a `u32`, and nowhere
/// else. Otherwise it gives the length as a little-endian `u32`, followed by
/// the bytes of each array in the order of the slice.
#[verifier::external_body]
fn borsh_try_to_vec(roots: &[StateRoot]) -> (r: Result<Vec<u8>, std::io::Error>)
    ensures
        r is Ok <==> roots@.len() <= u32::MAX,
        r is Ok ==> r.unwrap()@ == count_bytes(roots@.len()) + hashes_bytes(roots@),
{
    roots.try_to_vec()
}

/// Encodes `roots` for the roots file, in their order.
pub fn encode_roots(roots: &[StateRoot]) -> (r: Result<Vec<u8>, EncodeError>)
    ensures
        r is Ok <==> roots@.len() <= u32::MAX,
        r is Ok ==> r.unwrap()@ == roots_encoding(roots@),
{
    match borsh_try_to_vec(roots) {
        Ok(bytes) => Ok(bytes),
        Err(_) => Err(EncodeError),
    }
}

/// `BorshDeserialize::try_from_slice` of borsh, for a `Vec` of 32-byte
/// arrays. It reads a little-endian `u32` as the count, then that many arrays
/// of 32 bytes each, and fails when the bytes end before that or when any byte
/// is left over. It succeeds on every other input, and the arrays then hold
/// the bytes behind the count, in their order.
#[verifier::external_body]
fn borsh_try_from_slice(bytes: &[u8]) -> (r: Result<Vec<StateRoot>, std::io::Error>)
    ensures
        r is Ok <==> is_roots_file(bytes@),
        r is Ok ==> r.unwrap()@.len() == count_of(bytes@),
        r is Ok ==> forall|i: int, j: int|
            0 <= i < r.unwrap()@.len() && 0 <= j < 32 ==> #[trigger] r.unwrap()@[i][j] == bytes@[4
                + 32 * i + j],
{
    Vec::<StateRoot>::try_from_slice(bytes)
}

/// Decodes the contents of a roots file. Only a complete roots file is
/// accepted, and the roots come back in the order in which the file holds
/// them.
pub fn decode_roots(bytes: &[u8]) -> (r: Result<Vec<StateRoot>, DecodeError>)
    ensures
        r is Ok <==> is_roots_file(bytes@),
        r is Ok ==> r.unwrap()@ == roots_of(bytes@),
{
    match borsh_try_from_slice(bytes) {
        Ok(roots) => {
            proof {
                lemma_count_bytes_of_count(bytes@);
                let body = hashes_bytes(roots@);
                assert forall|k: int| 0 <= k < body.len() implies body[k] == bytes@[4 + k] by {
                    let i = k / 32;
                    let j = k % 32;
                    assert(roots@[i][j] == bytes@[4 + 32 * i + j]);
                }
                assert(roots_encoding(roots@) =~= bytes@);
                lemma_encoding_injective(roots@, roots_of(bytes@));
            }
            Ok(roots)
        },
        Err(_) => Err(DecodeError),
    }
}

} // verus!
