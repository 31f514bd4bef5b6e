//! A network for development: small deterministic primitives built on the
//! FNV-1a hash. They make the library runnable end to end and are not
//! secure in any way. Like the primitives of a real network they take
//! inputs up to a fixed size only.

use vstd::prelude::*;
use vstd::bytes::{spec_u64_to_le_bytes, u64_to_le_bytes};
use crate::bytes::{append_bytes, bytes_eq, digest_from, digest_with, Digest};
use crate::errors::{CRHError, CommitmentError, EncryptionError, PRFError, SignatureError};
use crate::traits::{CRH, CommitmentScheme, EncryptionScheme, Network, PRF, SignatureScheme};
use std::sync::Arc;

verus! {

/// The number of bytes that the hash takes at most.
pub const MAX_CRH_INPUT: usize = 65536;

/// The number of bytes that the commitment takes at most as its input.
pub const MAX_COMMITMENT_INPUT: usize = 4096;

/// The number of bytes that the serial number function takes at most as its
/// input.
pub const MAX_PRF_INPUT: usize = 64;

/// The number of bytes that the encryption takes at most as its message.
pub const MAX_MESSAGE: usize = 2048;

/// The number of bytes of randomness, or of a seed, that a primitive takes at
/// most.
pub const MAX_RANDOMNESS: usize = 256;

/// The multiplier of 64-bit FNV-1a.
pub const FNV_PRIME: u64 = 0x0000_0100_0000_01b3;

/// The start value of 64-bit FNV-1a.
pub const FNV_OFFSET_BASIS: u64 = 0xcbf2_9ce4_8422_2325;

/// One step of FNV-1a: the byte is mixed into the state, and the state is
/// multiplied by the prime, modulo 2^64.
pub open spec fn fnv_step(state: u64, byte: u8) -> u64 {
    (state ^ (byte as u64)).wrapping_mul(FNV_PRIME)
}

/// The state of FNV-1a after `input`, started at `state`.
pub open spec fn fnv_fold(state: u64, input: Seq<u8>) -> u64
    decreases input.len(),
{
    if input.len() == 0 {
        state
    } else {
        fnv_step(fnv_fold(state, input.drop_last()), input.last())
    }
}

/// The start value of lane `lane`.
pub open spec fn lane_start(lane: u64) -> u64 {
    FNV_OFFSET_BASIS ^ lane
}

/// The 32 bytes of a digest: four lanes of FNV-1a with different start
/// values, each written in little-endian order.
pub open spec fn fnv_bytes(input: Seq<u8>) -> Seq<u8> {
    spec_u64_to_le_bytes(fnv_fold(lane_start(0), input)) + spec_u64_to_le_bytes(
        fnv_fold(lane_start(1), input),
    ) + spec_u64_to_le_bytes(fnv_fold(lane_start(2), input)) + spec_u64_to_le_bytes(
        fnv_fold(lane_start(3), input),
    )
}

/// The FNV digest of `input`.
pub open spec fn fnv_digest(input: Seq<u8>) -> Digest {
    digest_with(fnv_bytes(input))
}

/// The input that is hashed for a purpose `tag` and two arguments: the tag,
/// the length of the first argument, and the two arguments.
pub open spec fn tagged_input(tag: u8, first: Seq<u8>, second: Seq<u8>) -> Seq<u8> {
    seq![tag] + spec_u64_to_le_bytes(first.len() as u64) + first + second
}

/// The digest for a purpose `tag` and two arguments.
pub open spec fn tagged_digest(tag: u8, first: Seq<u8>, second: Seq<u8>) -> Digest {
    fnv_digest(tagged_input(tag, first, second))
}

/// Runs one lane of FNV-1a over `input`.
fn fnv_lane(lane: u64, input: &[u8]) -> (state: u64)
    ensures
        state == fnv_fold(lane_start(lane), input@),
{
    let mut state: u64 = FNV_OFFSET_BASIS ^ lane;
    let mut i: usize = 0;
    while i < input.len()
        invariant
            i <= input@.len(),
            state == fnv_fold(lane_start(lane), input@.take(i as int)),
        decreases input@.len() - i,
    {
        assert(input@.take(i + 1).drop_last() == input@.take(i as int));
        state = (state ^ (input[i] as u64)).wrapping_mul(FNV_PRIME);
        i += 1;
    }
    assert(input@.take(input@.len() as int) == input@);
    state
}

/// Computes the FNV digest of `input`.
pub fn fnv(input: &[u8]) -> (digest: Digest)
    ensures
        digest == fnv_digest(input@),
{
    let mut bytes: Vec<u8> = Vec::new();
    let first = u64_to_le_bytes(fnv_lane(0, input));
    let second = u64_to_le_bytes(fnv_lane(1, input));
    let third = u64_to_le_bytes(fnv_lane(2, input));
    let fourth = u64_to_le_bytes(fnv_lane(3, input));
    append_bytes(&mut bytes, first.as_slice());
    append_bytes(&mut bytes, second.as_slice());
    append_bytes(&mut bytes, third.as_slice());
    append_bytes(&mut bytes, fourth.as_slice());
    assert(bytes@ == fnv_bytes(input@));
    digest_from(bytes.as_slice())
}

/// Computes the digest for a purpose `tag` and two arguments.
pub fn tagged(tag: u8, first: &[u8], second: &[u8]) -> (digest: Digest)
    ensures
        digest == tagged_digest(tag, first@, second@),
{
    let mut input: Vec<u8> = Vec::new();
    input.push(tag);
    let length = u64_to_le_bytes(first.len() as u64);
    append_bytes(&mut input, length.as_slice());
    append_bytes(&mut input, first);
    append_bytes(&mut input, second);
    assert(input@ == tagged_input(tag, first@, second@));
    fnv(input.as_slice())
}

/// FNV-1a as a hash to digests, of inputs of at most `MAX_CRH_INPUT` bytes.
pub struct FnvCRH;

impl CRH for FnvCRH {
    open spec fn hash_spec(&self, input: Seq<u8>) -> Result<Digest, CRHError> {
        if input.len() > MAX_CRH_INPUT {
            Err(CRHError::IncorrectInputLength { length: input.len() as usize, max: MAX_CRH_INPUT })
        } else {
            Ok(fnv_digest(input))
        }
    }

    fn hash(&self, input: &[u8]) -> (output: Result<Digest, CRHError>) {
        if input.len() > MAX_CRH_INPUT {
            return Err(CRHError::IncorrectInputLength { length: input.len(), max: MAX_CRH_INPUT });
        }
        Ok(fnv(input))
    }
}

/// A commitment by hashing the randomness and the input: at most
/// `MAX_RANDOMNESS` bytes of the one and `MAX_COMMITMENT_INPUT` of the other.
pub struct FnvCommitment;

impl CommitmentScheme for FnvCommitment {
    open spec fn commit_spec(&self, input: Seq<u8>, randomness: Seq<u8>) -> Result<
        Digest,
        CommitmentError,
    > {
        if randomness.len() > MAX_RANDOMNESS {
            Err(CommitmentError::InvalidRandomness)
        } else if input.len() > MAX_COMMITMENT_INPUT {
            Err(
                CommitmentError::IncorrectInputLength {
                    length: input.len() as usize,
                    max: MAX_COMMITMENT_INPUT,
                },
            )
        } else {
            Ok(tagged_digest(1, randomness, input))
        }
    }

    fn commit(&self, input: &[u8], randomness: &[u8]) -> (output: Result<Digest, CommitmentError>) {
        if randomness.len() > MAX_RANDOMNESS {
            return Err(CommitmentError::InvalidRandomness);
        }
        if input.len() > MAX_COMMITMENT_INPUT {
            return Err(
                CommitmentError::IncorrectInputLength { length: input.len(), max: MAX_COMMITMENT_INPUT },
            );
        }
        Ok(tagged(1, randomness, input))
    }
}

/// A keyed function by hashing the seed and the input: at most
/// `MAX_RANDOMNESS` bytes of the one and `MAX_PRF_INPUT` of the other.
pub struct FnvPRF;

impl PRF for FnvPRF {
    open spec fn evaluate_spec(&self, seed: Seq<u8>, input: Seq<u8>) -> Result<Digest, PRFError> {
        if seed.len() > MAX_RANDOMNESS {
            Err(PRFError::InvalidSeed)
        } else if input.len() > MAX_PRF_INPUT {
            Err(PRFError::IncorrectInputLength { length: input.len() as usize, max: MAX_PRF_INPUT })
        } else {
            Ok(tagged_digest(2, seed, input))
        }
    }

    fn evaluate(&self, seed: &[u8], input: &[u8]) -> (output: Result<Digest, PRFError>) {
        if seed.len() > MAX_RANDOMNESS {
            return Err(PRFError::InvalidSeed);
        }
        if input.len() > MAX_PRF_INPUT {
            return Err(PRFError::IncorrectInputLength { length: input.len(), max: MAX_PRF_INPUT });
        }
        Ok(tagged(2, seed, input))
    }
}

/// The public key that belongs to a spend key.
pub open spec fn public_key_of(spend_key: Seq<u8>) -> Seq<u8> {
    tagged_digest(3, spend_key, Seq::empty())@
}

/// The tag that binds a spend key to a message.
pub open spec fn signature_tag(spend_key: Seq<u8>, message: Seq<u8>) -> Seq<u8> {
    tagged_digest(4, spend_key, message)@
}

/// The signature of the holder of `spend_key` on `message`: the spend key,
/// then the tag.
pub open spec fn signature_of(spend_key: Seq<u8>, message: Seq<u8>) -> Seq<u8> {
    spend_key + signature_tag(spend_key, message)
}

/// The spend key that a signature starts with.
pub open spec fn spend_key_in(signature: Seq<u8>) -> Seq<u8> {
    signature.take(signature.len() - 32)
}

/// The tag that a signature ends with.
pub open spec fn tag_in(signature: Seq<u8>) -> Seq<u8> {
    signature.skip(signature.len() - 32)
}

/// Signatures that are a spend key and a tag. Whoever sees one can sign.
pub struct FnvSignature;

impl FnvSignature {
    /// Derives the public key that belongs to `spend_key`.
    pub fn public_key(spend_key: &[u8]) -> (public_key: Vec<u8>)
        ensures
            public_key@ == public_key_of(spend_key@),
    {
        let empty: Vec<u8> = Vec::new();
        let digest = tagged(3, spend_key, empty.as_slice());
        let mut public_key: Vec<u8> = Vec::new();
        append_bytes(&mut public_key, digest.as_slice());
        public_key
    }

    /// Signs `message` with `spend_key`.
    pub fn sign(spend_key: &[u8], message: &[u8]) -> (signature: Vec<u8>)
        ensures
            signature@ == signature_of(spend_key@, message@),
    {
        let tag = tagged(4, spend_key, message);
        let mut signature: Vec<u8> = Vec::new();
        append_bytes(&mut signature, spend_key);
        append_bytes(&mut signature, tag.as_slice());
        signature
    }

    /// Copies the spend key out of `signature`.
    fn split(signature: &[u8]) -> (parts: (Vec<u8>, Vec<u8>))
        requires
            signature@.len() >= 32,
        ensures
            parts.0@ == spend_key_in(signature@),
            parts.1@ == tag_in(signature@),
    {
        let cut = signature.len() - 32;
        let mut spend_key: Vec<u8> = Vec::new();
        let mut tag: Vec<u8> = Vec::new();
        let mut i: usize = 0;
        while i < signature.len()
            invariant
                cut == signature@.len() - 32,
                i <= signature@.len(),
                spend_key@ == signature@.take(if i < cut { i as int } else { cut as int }),
                tag@ == signature@.subrange(cut as int, if i < cut { cut as int } else { i as int }),
            decreases signature@.len() - i,
        {
            if i < cut {
                spend_key.push(signature[i]);
            } else {
                tag.push(signature[i]);
            }
            i += 1;
        }
        assert(tag@ =~= tag_in(signature@));
        (spend_key, tag)
    }
}

impl SignatureScheme for FnvSignature {
    open spec fn verify_spec(&self, public_key: Seq<u8>, message: Seq<u8>, signature: Seq<u8>) -> Result<
        bool,
        SignatureError,
    > {
        if signature.len() < 32 {
            Err(SignatureError::InvalidSignature)
        } else {
            Ok(
                public_key_of(spend_key_in(signature)) == public_key && signature_tag(
                    spend_key_in(signature),
                    message,
                ) == tag_in(signature),
            )
        }
    }

    open spec fn spend_key_spec(&self, signature: Seq<u8>) -> Result<Seq<u8>, SignatureError> {
        if signature.len() < 32 {
            Err(SignatureError::InvalidSignature)
        } else {
            Ok(spend_key_in(signature))
        }
    }

    fn verify(&self, public_key: &[u8], message: &[u8], signature: &[u8]) -> (valid: Result<
        bool,
        SignatureError,
    >) {
        if signature.len() < 32 {
            return Err(SignatureError::InvalidSignature);
        }
        let (spend_key, tag) = Self::split(signature);
        let derived = Self::public_key(spend_key.as_slice());
        let expected = tagged(4, spend_key.as_slice(), message);
        Ok(bytes_eq(derived.as_slice(), public_key) && bytes_eq(expected.as_slice(), tag.as_slice()))
    }

    fn spend_key(&self, signature: &[u8]) -> (key: Result<Vec<u8>, SignatureError>) {
        if signature.len() < 32 {
            return Err(SignatureError::InvalidSignature);
        }
        let (spend_key, _tag) = Self::split(signature);
        Ok(spend_key)
    }
}

/// The pad that hides a message for `public_key` under `randomness`.
pub open spec fn encryption_pad(public_key: Seq<u8>, randomness: Seq<u8>) -> Seq<u8> {
    tagged_digest(5, public_key, randomness)@
}

/// The ciphertext of `message` for `public_key` under `randomness`: the
/// randomness, then the message with the pad laid over it again and again.
pub open spec fn ciphertext_of(public_key: Seq<u8>, randomness: Seq<u8>, message: Seq<u8>) -> Seq<u8> {
    randomness + Seq::new(
        message.len(),
        |i: int| message[i] ^ encryption_pad(public_key, randomness)[i % 32],
    )
}

/// An encryption by a pad that anybody can compute, of messages of at most
/// `MAX_MESSAGE` bytes under at most `MAX_RANDOMNESS` bytes of randomness.
pub struct FnvEncryption;

impl EncryptionScheme for FnvEncryption {
    open spec fn encrypt_spec(&self, public_key: Seq<u8>, randomness: Seq<u8>, message: Seq<u8>) -> Result<
        Seq<u8>,
        EncryptionError,
    > {
        if randomness.len() > MAX_RANDOMNESS {
            Err(EncryptionError::InvalidRandomness)
        } else if message.len() > MAX_MESSAGE {
            Err(EncryptionError::IncorrectInputLength { length: message.len() as usize, max: MAX_MESSAGE })
        } else {
            Ok(ciphertext_of(public_key, randomness, message))
        }
    }

    fn encrypt(&self, public_key: &[u8], randomness: &[u8], message: &[u8]) -> (ciphertext: Result<
        Vec<u8>,
        EncryptionError,
    >) {
        if randomness.len() > MAX_RANDOMNESS {
            return Err(EncryptionError::InvalidRandomness);
        }
        if message.len() > MAX_MESSAGE {
            return Err(EncryptionError::IncorrectInputLength { length: message.len(), max: MAX_MESSAGE });
        }
        let pad = tagged(5, public_key, randomness);
        let mut out: Vec<u8> = Vec::new();
        append_bytes(&mut out, randomness);
        let mut i: usize = 0;
        while i < message.len()
            invariant
                i <= message@.len(),
                pad@ == encryption_pad(public_key@, randomness@),
                out@.len() == randomness@.len() + i,
                forall|k: int| 0 <= k < randomness@.len() ==> out@[k] == randomness@[k],
                forall|k: int|
                    0 <= k < i ==> out@[randomness@.len() + k] == message@[k] ^ pad@[k % 32],
            decreases message@.len() - i,
        {
            out.push(message[i] ^ pad[i % 32]);
            i += 1;
        }
        assert(out@ =~= ciphertext_of(public_key@, randomness@, message@));
        Ok(out)
    }
}

/// The development network: two input and two output records per
/// transaction, and 48 zero bytes as the reserved program id.
pub struct Devnet;

impl Network for Devnet {
    type AccountEncryptionScheme = FnvEncryption;

    type AccountSignatureScheme = FnvSignature;

    type CommitmentScheme = FnvCommitment;

    type EncryptedRecordCRH = FnvCRH;

    type TransactionIDCRH = FnvCRH;

    type CommitmentsTreeCRH = FnvCRH;

    type SerialNumberPRF = FnvPRF;

    open spec fn num_input_records_spec() -> usize {
        2
    }

    open spec fn num_output_records_spec() -> usize {
        2
    }

    open spec fn noop_program_id_spec() -> Seq<u8> {
        Seq::new(48, |i: int| 0u8)
    }

    open spec fn account_encryption_scheme_spec() -> FnvEncryption {
        FnvEncryption
    }

    open spec fn account_signature_scheme_spec() -> FnvSignature {
        FnvSignature
    }

    open spec fn commitment_scheme_spec() -> FnvCommitment {
        FnvCommitment
    }

    open spec fn encrypted_record_crh_spec() -> FnvCRH {
        FnvCRH
    }

    open spec fn transaction_id_crh_spec() -> FnvCRH {
        FnvCRH
    }

    open spec fn commitments_tree_crh_spec() -> FnvCRH {
        FnvCRH
    }

    open spec fn serial_number_prf_spec() -> FnvPRF {
        FnvPRF
    }

    fn num_input_records() -> (n: usize) {
        2
    }

    fn num_output_records() -> (n: usize) {
        2
    }

    fn noop_program_id() -> (id: Vec<u8>) {
        let mut id: Vec<u8> = Vec::new();
        let mut i: usize = 0;
        while i < 48
            invariant
                i <= 48,
                id@.len() == i,
                forall|k: int| 0 <= k < i ==> id@[k] == 0,
            decreases 48 - i,
        {
            id.push(0u8);
            i += 1;
        }
        assert(id@ =~= Self::noop_program_id_spec());
        id
    }

    fn account_encryption_scheme() -> (scheme: Arc<FnvEncryption>) {
        Arc::new(FnvEncryption)
    }

    fn account_signature_scheme() -> (scheme: Arc<FnvSignature>) {
        Arc::new(FnvSignature)
    }

    fn commitment_scheme() -> (scheme: Arc<FnvCommitment>) {
        Arc::new(FnvCommitment)
    }

    fn encrypted_record_crh() -> (crh: Arc<FnvCRH>) {
        Arc::new(FnvCRH)
    }

    fn transaction_id_crh() -> (crh: Arc<FnvCRH>) {
        Arc::new(FnvCRH)
    }

    fn commitments_tree_crh() -> (crh: Arc<FnvCRH>) {
        Arc::new(FnvCRH)
    }

    fn serial_number_prf() -> (prf: Arc<FnvPRF>) {
        Arc::new(FnvPRF)
    }
}

} // verus!
