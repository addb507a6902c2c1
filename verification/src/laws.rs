//! What holds of the encoding of the roots file.

use crate::roots::{count_bytes, count_of, hashes_bytes, is_roots_file, roots_encoding, roots_of, StateRoot};
use vstd::arithmetic::div_mod::lemma_fundamental_div_mod_converse;
use vstd::prelude::*;

verus! {

/// The bytes of a count stand for that count again.
pub proof fn lemma_count_of_count_bytes(n: nat)
    requires
        n <= u32::MAX,
    ensures
        count_bytes(n).len() == 4,
        count_of(count_bytes(n)) == n,
{
}

/// The count that four bytes stand for fits in 32 bits, and is written as
/// those four bytes.
pub proof fn lemma_count_bytes_of_count(bytes: Seq<u8>)
    requires
        bytes.len() >= 4,
    ensures
        count_of(bytes) <= u32::MAX,
        count_bytes(count_of(bytes)) == bytes.take(4),
{
    let n = count_of(bytes) as int;
    let low = bytes[0] + 256 * bytes[1];
    let mid = low + 65536 * bytes[2];
    lemma_fundamental_div_mod_converse(
        n,
        256,
        bytes[1] + 256 * bytes[2] + 65536 * bytes[3],
        bytes[0] as int,
    );
    lemma_fundamental_div_mod_converse(n / 256, 256, bytes[2] + 256 * bytes[3], bytes[1] as int);
    lemma_fundamental_div_mod_converse(n, 65536, bytes[2] + 256 * bytes[3], low);
    lemma_fundamental_div_mod_converse(n / 65536, 256, bytes[3] as int, bytes[2] as int);
    lemma_fundamental_div_mod_converse(n, 16777216, bytes[3] as int, mid);
    assert(count_bytes(count_of(bytes)) =~= bytes.take(4));
}

/// An encoding is four bytes longer than the roots it holds, and holds the
/// bytes of root `i` from position `4 + 32 * i` on.
pub proof fn lemma_encoding_layout(roots: Seq<StateRoot>)
    ensures
        roots_encoding(roots).len() == 4 + 32 * roots.len(),
        roots_encoding(roots).take(4) == count_bytes(roots.len()),
        forall|i: int, j: int|
            0 <= i < roots.len() && 0 <= j < 32 ==> #[trigger] roots[i][j] == roots_encoding(
                roots,
            )[4 + 32 * i + j],
{
    let bytes = roots_encoding(roots);
    assert(bytes.take(4) =~= count_bytes(roots.len()));
    assert forall|i: int, j: int| 0 <= i < roots.len() && 0 <= j < 32 implies #[trigger] roots[i][j]
        == bytes[4 + 32 * i + j] by {
        let k = 32 * i + j;
        assert(k / 32 == i && k % 32 == j);
        assert(bytes[4 + k] == hashes_bytes(roots)[k]);
    }
}

/// Two lists of roots with the same encoding are the same list.
pub proof fn lemma_encoding_injective(a: Seq<StateRoot>, b: Seq<StateRoot>)
    requires
        roots_encoding(a) == roots_encoding(b),
    ensures
        a == b,
{
    lemma_encoding_layout(a);
    lemma_encoding_layout(b);
    assert(a.len() == b.len());
    assert forall|i: int| 0 <= i < a.len() implies a[i] == b[i] by {
        assert forall|j: int| 0 <= j < 32 implies a[i][j] == b[i][j] by {
            assert(a[i][j] == roots_encoding(a)[4 + 32 * i + j]);
            assert(b[i][j] == roots_encoding(b)[4 + 32 * i + j]);
        }
        assert(a[i] =~= b[i]);
    }
    assert(a =~= b);
}

/// Decoding undoes encoding: the encoding of `roots` is a roots file, and the
/// roots that it holds are `roots`, as many and in the same order. A list that
/// the count cannot express has no roots file.
pub proof fn lemma_decode_of_encode(roots: Seq<StateRoot>)
    requires
        roots.len() <= u32::MAX,
    ensures
        is_roots_file(roots_encoding(roots)),
        roots_of(roots_encoding(roots)) == roots,
{
    lemma_encoding_layout(roots);
    lemma_count_of_count_bytes(roots.len());
    let bytes = roots_encoding(roots);
    assert(count_of(bytes) == count_of(count_bytes(roots.len())));
    lemma_encoding_injective(roots_of(bytes), roots);
}

/// A hash that agrees with `bytes` on its first `k` bytes.
spec fn hash_with(bytes: Seq<u8>, k: nat) -> StateRoot
    decreases k,
{
    if k == 0 {
        arbitrary()
    } else {
        vstd::array::spec_array_update(hash_with(bytes, (k - 1) as nat), k - 1, bytes[k - 1])
    }
}

proof fn lemma_hash_with(bytes: Seq<u8>, k: nat)
    requires
        k <= 32,
        k <= bytes.len(),
    ensures
        forall|j: int| 0 <= j < k ==> #[trigger] hash_with(bytes, k)[j] == bytes[j],
    decreases k,
{
    if k > 0 {
        let shorter = hash_with(bytes, (k - 1) as nat);
        lemma_hash_with(bytes, (k - 1) as nat);
        assert(hash_with(bytes, k)@ == shorter@.update(k - 1, bytes[k - 1]));
        assert forall|j: int| 0 <= j < k implies #[trigger] hash_with(bytes, k)[j] == bytes[j] by {
            if j < k - 1 {
                assert(shorter[j] == bytes[j]);
            }
        }
    }
}

/// Every roots file holds a list of roots: as many as its count says, root `i`
/// made of the 32 bytes from position `4 + 32 * i` on, and the file is the
/// encoding of that list.
pub proof fn lemma_roots_of_file(bytes: Seq<u8>)
    requires
        is_roots_file(bytes),
    ensures
        roots_encoding(roots_of(bytes)) == bytes,
        roots_of(bytes).len() == count_of(bytes),
        forall|i: int, j: int|
            0 <= i < roots_of(bytes).len() && 0 <= j < 32 ==> #[trigger] roots_of(bytes)[i][j]
                == bytes[4 + 32 * i + j],
{
    let held = Seq::new(
        count_of(bytes),
        |i: int| hash_with(bytes.subrange(4 + 32 * i, 36 + 32 * i), 32),
    );
    assert forall|i: int, j: int| 0 <= i < held.len() && 0 <= j < 32 implies #[trigger] held[i][j]
        == bytes[4 + 32 * i + j] by {
        let part = bytes.subrange(4 + 32 * i, 36 + 32 * i);
        lemma_hash_with(part, 32);
        assert(held[i] == hash_with(part, 32));
        assert(hash_with(part, 32)[j] == part[j]);
    }
    lemma_count_bytes_of_count(bytes);
    assert forall|k: int| 0 <= k < 32 * held.len() implies hashes_bytes(held)[k] == bytes[4 + k] by {
        assert(held[k / 32][k % 32] == bytes[4 + 32 * (k / 32) + k % 32]);
    }
    assert(roots_encoding(held) =~= bytes);
    lemma_encoding_layout(roots_of(bytes));
}

/// A roots file that lost its last byte is no roots file.
pub proof fn lemma_truncated_is_rejected(bytes: Seq<u8>)
    requires
        is_roots_file(bytes),
    ensures
        !is_roots_file(bytes.drop_last()),
{
}

} // verus!
