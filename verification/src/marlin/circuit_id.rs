//! Identifiers of circuits.

use vstd::prelude::*;
use vstd::slice::slice_subrange;
use crate::bytes::{digest_eq, digest_from, digest_with};
use crate::marlin::label::{find, find_spec, lemma_find_from, occurs_at};

verus! {

/// The identifier of a circuit: 32 bytes. Identifiers are ordered byte by
/// byte from the first.
#[derive(Clone, Copy, Debug, PartialEq, Eq, Hash, PartialOrd, Ord)]
pub struct CircuitId(pub [u8; 32]);

/// The text `_`, which separates the pieces of a label.
pub open spec fn separator() -> Seq<u8> {
    seq![0x5fu8]
}

/// The value of a hexadecimal digit, in either case.
pub open spec fn hex_value(byte: u8) -> Option<u8> {
    if 0x30 <= byte <= 0x39 {
        Some((byte - 0x30) as u8)
    } else if 0x61 <= byte <= 0x66 {
        Some((byte - 0x61 + 10) as u8)
    } else if 0x41 <= byte <= 0x46 {
        Some((byte - 0x41 + 10) as u8)
    } else {
        None
    }
}

/// Whether `text` is made of hexadecimal digits.
pub open spec fn is_hex(text: Seq<u8>) -> bool {
    forall|i: int| 0 <= i < text.len() ==> hex_value(#[trigger] text[i]) is Some
}

/// The bytes that the hexadecimal digits of `text` stand for, two digits to a
/// byte.
pub open spec fn hex_bytes(text: Seq<u8>) -> Seq<u8> {
    Seq::new(
        text.len() / 2,
        |i: int| (16 * hex_value(text[2 * i])->Some_0 + hex_value(text[2 * i + 1])->Some_0) as u8,
    )
}

/// The second piece of a label: what stands between the first separator and
/// the next, or the end. `None` for a label without separator.
pub open spec fn second_piece(label: Seq<u8>) -> Option<Seq<u8>> {
    match find_spec(label, separator()) {
        None => None,
        Some(first) => {
            let rest = label.skip(first + 1);
            match find_spec(rest, separator()) {
                Some(second) => Some(rest.take(second)),
                None => Some(rest),
            }
        },
    }
}

/// The circuit that a label names: its second piece, read as the 64
/// hexadecimal digits of an identifier. `None` where the label has no
/// such piece.
pub open spec fn from_witness_label_spec(label: Seq<u8>) -> Option<CircuitId> {
    match second_piece(label) {
        Some(piece) => if piece.len() == 64 && is_hex(piece) {
            Some(CircuitId(digest_with(hex_bytes(piece))))
        } else {
            None
        },
        None => None,
    }
}

/// Whether `a` comes before `b` in the order of identifiers: at the first
/// byte in which they differ, `a` has the lesser.
pub open spec fn precedes(a: CircuitId, b: CircuitId) -> bool {
    exists|k: int|
        0 <= k < 32 && #[trigger] a.0[k] < b.0[k] && forall|j: int| 0 <= j < k ==> a.0[j] == b.0[j]
}

/// Of two different identifiers one comes before the other, and never both.
pub proof fn lemma_order_is_total(a: CircuitId, b: CircuitId)
    ensures
        a == b || precedes(a, b) || precedes(b, a),
        !(precedes(a, b) && precedes(b, a)),
        !precedes(a, a),
{
    if a != b {
        lemma_first_difference(a, b, 0);
    }
    if precedes(a, b) && precedes(b, a) {
        let k = choose|k: int|
            0 <= k < 32 && #[trigger] a.0[k] < b.0[k] && forall|j: int| 0 <= j < k ==> a.0[j] == b.0[j];
        let l = choose|l: int|
            0 <= l < 32 && #[trigger] b.0[l] < a.0[l] && forall|j: int| 0 <= j < l ==> b.0[j] == a.0[j];
        assert(k == l || k < l || l < k);
    }
}

/// Two identifiers that agree up to `from` and differ have a first byte in
/// which they differ.
proof fn lemma_first_difference(a: CircuitId, b: CircuitId, from: int)
    requires
        a != b,
        0 <= from <= 32,
        forall|j: int| 0 <= j < from ==> a.0[j] == b.0[j],
    ensures
        precedes(a, b) || precedes(b, a),
    decreases 32 - from,
{
    if from == 32 {
        assert(a.0 =~= b.0);
    } else if a.0[from] < b.0[from] {
        assert(a.0[from] < b.0[from]);
    } else if b.0[from] < a.0[from] {
        assert(b.0[from] < a.0[from]);
    } else {
        lemma_first_difference(a, b, from + 1);
    }
}

/// The order of identifiers is transitive.
pub proof fn lemma_order_is_transitive(a: CircuitId, b: CircuitId, c: CircuitId)
    requires
        precedes(a, b),
        precedes(b, c),
    ensures
        precedes(a, c),
{
    let k = choose|k: int|
        0 <= k < 32 && #[trigger] a.0[k] < b.0[k] && forall|j: int| 0 <= j < k ==> a.0[j] == b.0[j];
    let l = choose|l: int|
        0 <= l < 32 && #[trigger] b.0[l] < c.0[l] && forall|j: int| 0 <= j < l ==> b.0[j] == c.0[j];
    let m = if k <= l {
        k
    } else {
        l
    };
    assert(a.0[m] < c.0[m]);
}

/// Reads a hexadecimal digit.
fn hex_digit(byte: u8) -> (value: Option<u8>)
    ensures
        value == hex_value(byte),
{
    if 0x30 <= byte && byte <= 0x39 {
        Some(byte - 0x30)
    } else if 0x61 <= byte && byte <= 0x66 {
        Some(byte - 0x61 + 10)
    } else if 0x41 <= byte && byte <= 0x46 {
        Some(byte - 0x41 + 10)
    } else {
        None
    }
}

impl CircuitId {
    /// Whether this identifier comes before `other`.
    pub fn lt(&self, other: &CircuitId) -> (before: bool)
        ensures
            before == precedes(*self, *other),
    {
        let mut i: usize = 0;
        while i < 32
            invariant
                i <= 32,
                forall|j: int| 0 <= j < i ==> self.0[j] == other.0[j],
            decreases 32 - i,
        {
            if self.0[i] < other.0[i] {
                assert(self.0[i as int] < other.0[i as int]);
                return true;
            }
            if self.0[i] > other.0[i] {
                assert(other.0[i as int] < self.0[i as int]);
                proof {
                    lemma_order_is_total(*self, *other);
                    assert(precedes(*other, *self));
                }
                return false;
            }
            i += 1;
        }
        proof {
            assert(self.0 =~= other.0);
            lemma_order_is_total(*self, *other);
        }
        false
    }

    /// Whether this identifier is `other`.
    pub fn same(&self, other: &CircuitId) -> (same: bool)
        ensures
            same == (*self == *other),
    {
        digest_eq(&self.0, &other.0)
    }

    /// Reads the circuit that a label names.
    pub fn from_witness_label(label: &[u8]) -> (id: Option<CircuitId>)
        ensures
            id == from_witness_label_spec(label@),
    {
        let underscore: [u8; 1] = [0x5f];
        let length = label.len();
        assert(underscore@ =~= separator());
        let first = match find(label, underscore.as_slice()) {
            Some(first) => first,
            None => {
                return None;
            },
        };
        proof {
            lemma_find_from(label@, separator(), 0);
            assert(occurs_at(label@, separator(), first as int));
        }
        let rest = slice_subrange(label, first + 1, length);
        assert(rest@ == label@.skip(first + 1));
        let piece = match find(rest, underscore.as_slice()) {
            Some(second) => {
                proof {
                    lemma_find_from(rest@, separator(), 0);
                    assert(occurs_at(rest@, separator(), second as int));
                }
                slice_subrange(rest, 0, second)
            },
            None => rest,
        };
        assert(Some(piece@) == second_piece(label@));
        if piece.len() != 64 {
            return None;
        }
        let mut bytes: Vec<u8> = Vec::new();
        let mut i: usize = 0;
        while i < 32
            invariant
                i <= 32,
                piece@.len() == 64,
                Some(piece@) == second_piece(label@),
                bytes@.len() == i,
                forall|k: int| 0 <= k < 2 * i ==> hex_value(#[trigger] piece@[k]) is Some,
                forall|k: int| 0 <= k < i ==> bytes@[k] == hex_bytes(piece@)[k],
            decreases 32 - i,
        {
            let high = match hex_digit(piece[2 * i]) {
                Some(high) => high,
                None => {
                    assert(hex_value(piece@[2 * i]) is None);
                    return None;
                },
            };
            let low = match hex_digit(piece[2 * i + 1]) {
                Some(low) => low,
                None => {
                    assert(hex_value(piece@[2 * i + 1]) is None);
                    return None;
                },
            };
            bytes.push(16 * high + low);
            i += 1;
        }
        assert(is_hex(piece@));
        assert(bytes@ =~= hex_bytes(piece@));
        Some(CircuitId(digest_from(bytes.as_slice())))
    }
}

} // verus!
