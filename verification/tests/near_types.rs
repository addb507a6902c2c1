use genesis_populate::{decode_roots, encode_roots, StateRoot};
use near_primitives::borsh;
use near_primitives::hash::CryptoHash;

fn hashes() -> Vec<CryptoHash> {
    vec![
        CryptoHash::hash_bytes(b"shard 0"),
        CryptoHash::hash_bytes(b"shard 1"),
        CryptoHash::hash_bytes(b"shard 2"),
    ]
}

#[test]
fn roots_file_is_the_encoding_of_the_hashes() {
    let hashes = hashes();
    let roots: Vec<StateRoot> = hashes.iter().map(|hash| hash.0).collect();
    assert_eq!(encode_roots(&roots).unwrap(), borsh::to_vec(&hashes).unwrap());
}

#[test]
fn roots_file_of_no_hashes() {
    let hashes: Vec<CryptoHash> = Vec::new();
    assert_eq!(encode_roots(&[]).unwrap(), borsh::to_vec(&hashes).unwrap());
}

#[test]
fn decoded_roots_are_the_hashes() {
    let hashes = hashes();
    let bytes = borsh::to_vec(&hashes).unwrap();
    let roots = decode_roots(&bytes).unwrap();
    let back: Vec<CryptoHash> = roots.into_iter().map(CryptoHash).collect();
    assert_eq!(back, hashes);
    assert_eq!(borsh::from_slice::<Vec<CryptoHash>>(&bytes).unwrap(), back);
}
