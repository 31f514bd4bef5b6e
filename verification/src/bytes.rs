//! Digests, byte strings and the encodings of values as bytes and as field
//! elements.

use vstd::prelude::*;
use vstd::bytes::{spec_u16_to_le_bytes, spec_u64_to_le_bytes, u16_to_le_bytes, u64_to_le_bytes};

verus! {

/// A fixed-width hash output, compared by exact byte equality.
pub type Digest = [u8; 32];

/// Whether every byte of the digest is zero.
pub open spec fn is_zero_digest(digest: Digest) -> bool {
    forall|i: int| 0 <= i < 32 ==> digest[i] == 0
}

/// The digest whose bytes are all zero.
pub fn zero_digest() -> (digest: Digest)
    ensures
        is_zero_digest(digest),
{
    [0u8; 32]
}

/// The digest that holds the 32 bytes `bytes`.
pub open spec fn digest_with(bytes: Seq<u8>) -> Digest {
    choose|digest: Digest| digest@ == bytes
}

/// Makes the digest that holds the 32 bytes of `bytes`.
pub(crate) fn digest_from(bytes: &[u8]) -> (digest: Digest)
    requires
        bytes@.len() == 32,
    ensures
        digest@ == bytes@,
        digest == digest_with(bytes@),
{
    let mut digest: Digest = [0u8; 32];
    let mut i: usize = 0;
    while i < 32
        invariant
            i <= 32,
            bytes@.len() == 32,
            forall|k: int| 0 <= k < i ==> digest@[k] == bytes@[k],
        decreases 32 - i,
    {
        digest[i] = bytes[i];
        i += 1;
    }
    assert(digest@ =~= bytes@);
    assert(digest_with(bytes@) =~= digest);
    digest
}

/// Whether two digests hold the same bytes.
pub fn digest_eq(a: &Digest, b: &Digest) -> (same: bool)
    ensures
        same == (*a == *b),
{
    let mut i: usize = 0;
    while i < 32
        invariant
            i <= 32,
            forall|j: int| 0 <= j < i ==> a[j] == b[j],
        decreases 32 - i,
    {
        if a[i] != b[i] {
            return false;
        }
        i += 1;
    }
    assert(*a =~= *b);
    true
}

/// Whether two byte strings are the same.
pub fn bytes_eq(a: &[u8], b: &[u8]) -> (same: bool)
    ensures
        same == (a@ == b@),
{
    if a.len() != b.len() {
        return false;
    }
    let mut i: usize = 0;
    while i < a.len()
        invariant
            i <= a@.len(),
            a@.len() == b@.len(),
            forall|j: int| 0 <= j < i ==> a@[j] == b@[j],
        decreases a@.len() - i,
    {
        if a[i] != b[i] {
            return false;
        }
        i += 1;
    }
    assert(a@ =~= b@);
    true
}

/// Appends the bytes of `src` to `out`.
pub fn append_bytes(out: &mut Vec<u8>, src: &[u8])
    ensures
        final(out)@ == old(out)@ + src@,
{
    let mut i: usize = 0;
    while i < src.len()
        invariant
            i <= src@.len(),
            out@ == old(out)@ + src@.take(i as int),
        decreases src@.len() - i,
    {
        out.push(src[i]);
        i += 1;
    }
    assert(src@.take(src@.len() as int) == src@);
}

/// The digests in `digests`, written out one after the other.
pub open spec fn concat_digests(digests: Seq<Digest>) -> Seq<u8>
    decreases digests.len(),
{
    if digests.len() == 0 {
        Seq::empty()
    } else {
        concat_digests(digests.drop_last()) + digests.last()@
    }
}

/// Appends each digest of `digests` to `out`, in their order.
pub fn append_digests(out: &mut Vec<u8>, digests: &Vec<Digest>)
    ensures
        final(out)@ == old(out)@ + concat_digests(digests@),
{
    let mut i: usize = 0;
    while i < digests.len()
        invariant
            i <= digests@.len(),
            out@ == old(out)@ + concat_digests(digests@.take(i as int)),
        decreases digests@.len() - i,
    {
        assert(digests@.take(i + 1).drop_last() == digests@.take(i as int));
        append_bytes(out, digests[i].as_slice());
        i += 1;
    }
    assert(digests@.take(digests@.len() as int) == digests@);
}

/// The little-endian bytes of a 64-bit amount.
pub open spec fn amount_bytes(value: u64) -> Seq<u8> {
    spec_u64_to_le_bytes(value)
}

/// The little-endian bytes of a signed 64-bit balance, in two's complement.
pub open spec fn balance_bytes(balance: i64) -> Seq<u8> {
    spec_u64_to_le_bytes(balance as u64)
}

/// The little-endian bytes of a network id.
pub open spec fn network_id_bytes(id: u16) -> Seq<u8> {
    spec_u16_to_le_bytes(id)
}

/// The byte that stands for a flag: 1 when it is set, else 0.
pub open spec fn flag_byte(flag: bool) -> u8 {
    if flag {
        1u8
    } else {
        0u8
    }
}

/// Appends the little-endian bytes of `value` to `out`.
pub fn append_amount(out: &mut Vec<u8>, value: u64)
    ensures
        final(out)@ == old(out)@ + amount_bytes(value),
{
    let bytes = u64_to_le_bytes(value);
    append_bytes(out, bytes.as_slice());
}

/// Appends the little-endian two's complement bytes of `balance` to `out`.
pub fn append_balance(out: &mut Vec<u8>, balance: i64)
    ensures
        final(out)@ == old(out)@ + balance_bytes(balance),
{
    let bytes = u64_to_le_bytes(#[verifier::truncate] (balance as u64));
    append_bytes(out, bytes.as_slice());
}

/// Appends the little-endian bytes of a network id to `out`.
pub fn append_network_id(out: &mut Vec<u8>, id: u16)
    ensures
        final(out)@ == old(out)@ + network_id_bytes(id),
{
    let bytes = u16_to_le_bytes(id);
    append_bytes(out, bytes.as_slice());
}

/// The number of field elements that a string of `len` bytes fills.
pub open spec fn num_field_elements(len: nat) -> nat {
    if len % 31 == 0 {
        len / 31
    } else {
        len / 31 + 1
    }
}

/// Element `i` of the encoding of `bytes`: the 31 bytes from `31 * i` on, as
/// far as there are any, filled up with zeros to 32.
pub open spec fn field_element(bytes: Seq<u8>, i: int) -> Seq<u8> {
    Seq::new(
        32,
        |j: int|
            if j < 31 && 31 * i + j < bytes.len() {
                bytes[31 * i + j]
            } else {
                0u8
            },
    )
}

/// The encoding of a byte string as field elements: the string is cut into
/// pieces of 31 bytes, and each piece is one element in little-endian form.
pub open spec fn field_elements(bytes: Seq<u8>) -> Seq<Seq<u8>> {
    Seq::new(num_field_elements(bytes.len()), |i: int| field_element(bytes, i))
}

/// What a list of encoded field elements holds.
pub open spec fn elements_view(elements: Seq<Vec<u8>>) -> Seq<Seq<u8>> {
    Seq::new(elements.len(), |i: int| elements[i]@)
}

/// Encodes a byte string as field elements.
pub fn to_field_elements(bytes: &[u8]) -> (elements: Vec<Vec<u8>>)
    ensures
        elements_view(elements@) == field_elements(bytes@),
{
    let len = bytes.len();
    let count = if len % 31 == 0 {
        len / 31
    } else {
        len / 31 + 1
    };
    let mut elements: Vec<Vec<u8>> = Vec::new();
    let mut i: usize = 0;
    while i < count
        invariant
            len == bytes@.len(),
            count == num_field_elements(bytes@.len()),
            i <= count,
            elements@.len() == i,
            forall|k: int| 0 <= k < i ==> (#[trigger] elements@[k])@ == field_element(bytes@, k),
        decreases count - i,
    {
        assert(31 * i <= len) by (nonlinear_arith)
            requires
                i < count,
                count <= len / 31 + 1,
        ;
        let start = i * 31;
        let mut element: Vec<u8> = Vec::new();
        let mut j: usize = 0;
        while j < 32
            invariant
                len == bytes@.len(),
                start == 31 * i,
                start <= len,
                j <= 32,
                element@.len() == j,
                forall|k: int| 0 <= k < j ==> element@[k] == field_element(bytes@, i as int)[k],
            decreases 32 - j,
        {
            if j < 31 && j < len - start {
                element.push(bytes[start + j]);
            } else {
                element.push(0u8);
            }
            j += 1;
        }
        assert(element@ =~= field_element(bytes@, i as int));
        elements.push(element);
        i += 1;
    }
    assert(elements_view(elements@) =~= field_elements(bytes@));
    elements
}

/// Whether two byte strings have the same encoding as field elements.
pub fn same_field_elements(a: &[u8], b: &[u8]) -> (same: bool)
    ensures
        same == (field_elements(a@) == field_elements(b@)),
{
    let x = to_field_elements(a);
    let y = to_field_elements(b);
    assert(elements_view(x@).len() == x@.len());
    assert(elements_view(y@).len() == y@.len());
    if x.len() != y.len() {
        return false;
    }
    let mut i: usize = 0;
    while i < x.len()
        invariant
            i <= x@.len(),
            x@.len() == y@.len(),
            elements_view(x@) == field_elements(a@),
            elements_view(y@) == field_elements(b@),
            forall|k: int| 0 <= k < i ==> field_elements(a@)[k] == field_elements(b@)[k],
        decreases x@.len() - i,
    {
        assert(elements_view(x@)[i as int] == x@[i as int]@);
        assert(elements_view(y@)[i as int] == y@[i as int]@);
        if !bytes_eq(x[i].as_slice(), y[i].as_slice()) {
            return false;
        }
        i += 1;
    }
    assert(field_elements(a@) =~= field_elements(b@));
    true
}

} // verus!
