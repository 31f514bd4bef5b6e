//! A Merkle trie: every node carries a key, an optional value and any number of
//! children, and its digest binds all three.

pub mod laws;
pub mod merkle_path;

use vstd::prelude::*;
use vstd::bytes::{spec_u64_to_le_bytes, u64_to_le_bytes};
use crate::bytes::{append_bytes, append_digests, concat_digests, Digest};
use crate::errors::MerkleTrieError;
use crate::traits::CRH;
use std::sync::Arc;

verus! {

/// The value of an optional byte string as a sequence.
pub open spec fn value_view(value: Option<Vec<u8>>) -> Option<Seq<u8>> {
    match value {
        Some(v) => Some(v@),
        None => None,
    }
}

/// A byte string with its length in front, as eight little-endian bytes.
pub open spec fn with_length(bytes: Seq<u8>) -> Seq<u8> {
    spec_u64_to_le_bytes(bytes.len() as u64) + bytes
}

/// What is hashed of a node's value: a zero byte where it stores none, else
/// a one byte and the value with its length.
pub open spec fn value_part(value: Option<Seq<u8>>) -> Seq<u8> {
    match value {
        Some(v) => seq![1u8] + with_length(v),
        None => seq![0u8],
    }
}

/// The bytes that are hashed for a node: its key with its length, its value
/// where it stores one, and the digests of its children in their order.
/// Different nodes have different bytes.
pub open spec fn node_preimage(key: Seq<u8>, value: Option<Seq<u8>>, child_roots: Seq<Digest>) -> Seq<
    u8,
> {
    with_length(key) + value_part(value) + concat_digests(child_roots)
}

/// The digest of a node with the given key, value and children.
pub open spec fn calculate_root_spec<P: CRH>(
    parameters: P,
    key: Seq<u8>,
    value: Option<Seq<u8>>,
    child_roots: Seq<Digest>,
) -> Result<Digest, MerkleTrieError> {
    match parameters.hash_spec(node_preimage(key, value, child_roots)) {
        Ok(digest) => Ok(digest),
        Err(e) => Err(MerkleTrieError::CRHError(e)),
    }
}

/// The digest of a leaf: a node that stores `value` under `key` and has no
/// children.
pub open spec fn hash_leaf_spec<P: CRH>(parameters: P, key: Seq<u8>, value: Seq<u8>) -> Result<
    Digest,
    MerkleTrieError,
> {
    calculate_root_spec(parameters, key, Some(value), Seq::empty())
}

/// Appends `bytes` to `out` with its length in front.
fn append_with_length(out: &mut Vec<u8>, bytes: &[u8])
    ensures
        final(out)@ == old(out)@ + with_length(bytes@),
{
    let length = u64_to_le_bytes(bytes.len() as u64);
    append_bytes(out, length.as_slice());
    append_bytes(out, bytes);
}

/// Computes the digest of a node from its key, its value and the digests of
/// its children.
pub fn calculate_root<P: CRH>(
    parameters: &Arc<P>,
    key: &[u8],
    value: Option<&[u8]>,
    child_roots: &Vec<Digest>,
) -> (root: Result<Digest, MerkleTrieError>)
    ensures
        root == calculate_root_spec(
            **parameters,
            key@,
            match value {
                Some(v) => Some(v@),
                None => None,
            },
            child_roots@,
        ),
{
    let mut input: Vec<u8> = Vec::new();
    append_with_length(&mut input, key);
    match value {
        Some(v) => {
            input.push(1u8);
            append_with_length(&mut input, v);
        },
        None => {
            input.push(0u8);
        },
    }
    assert(input@ == with_length(key@) + value_part(
        match value {
            Some(v) => Some(v@),
            None => None,
        },
    ));
    append_digests(&mut input, child_roots);
    match parameters.hash(input.as_slice()) {
        Ok(digest) => Ok(digest),
        Err(e) => Err(MerkleTrieError::CRHError(e)),
    }
}

/// Computes the digest of the leaf that stores `value` under `key`.
pub fn hash_leaf<P: CRH>(parameters: &Arc<P>, key: &[u8], value: &[u8]) -> (leaf: Result<
    Digest,
    MerkleTrieError,
>)
    ensures
        leaf == hash_leaf_spec(**parameters, key@, value@),
{
    let no_children: Vec<Digest> = Vec::new();
    calculate_root(parameters, key, Some(value), &no_children)
}

} // verus!
