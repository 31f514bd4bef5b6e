//! The commitments of a proof.

use vstd::prelude::*;
use crate::errors::SNARKError;

verus! {

/// Commitments to the `w`, `z_a` and `z_b` polynomials of one instance.
#[derive(Clone, Debug, PartialEq, Eq)]
pub struct WitnessCommitments<C> {
    /// Commitment to the `w` polynomial.
    pub w: C,
    /// Commitment to the `z_a` polynomial.
    pub z_a: C,
    /// Commitment to the `z_b` polynomial.
    pub z_b: C,
}

/// Commitments to the prover's polynomials.
#[derive(Clone, Debug, PartialEq, Eq)]
pub struct Commitments<C> {
    /// Commitments to the witness polynomials, one entry per instance.
    pub witness_commitments: Vec<WitnessCommitments<C>>,
    /// Commitment to the masking polynomial.
    pub mask_poly: Option<C>,
    /// Commitment to the `g_1` polynomial.
    pub g_1: C,
    /// Commitment to the `h_1` polynomial.
    pub h_1: C,
    /// Commitments to the `g_a` polynomials.
    pub g_a_commitments: Vec<C>,
    /// Commitments to the `g_b` polynomials.
    pub g_b_commitments: Vec<C>,
    /// Commitments to the `g_c` polynomials.
    pub g_c_commitments: Vec<C>,
    /// Commitment to the `h_2` polynomial.
    pub h_2: C,
}

/// One item of the written form of the commitments.
#[derive(Clone, Debug, PartialEq, Eq)]
pub enum CommitmentPart<C> {
    /// The witness commitments of one instance.
    Witness(WitnessCommitments<C>),
    /// The commitment to the masking polynomial, which may be absent.
    MaskPoly(Option<C>),
    /// A single commitment.
    Single(C),
}

/// What an item of the written form holds.
#[derive(Clone, Copy, Debug, PartialEq, Eq)]
pub enum PartKind {
    /// The witness commitments of one instance.
    Witness,
    /// The commitment to the masking polynomial, which may be absent.
    MaskPoly,
    /// A single commitment.
    Single,
}

/// What item `index` of the written form of commitments for `batch_size`
/// instances holds: the witness entries come first, then the masking
/// polynomial, then single commitments to the end. `None` behind the end.
pub open spec fn part_kind_spec(batch_size: int, index: int) -> Option<PartKind> {
    if 0 <= index < batch_size {
        Some(PartKind::Witness)
    } else if index == batch_size {
        Some(PartKind::MaskPoly)
    } else if batch_size < index < num_parts(batch_size) {
        Some(PartKind::Single)
    } else {
        None
    }
}

/// Says what item `index` of the written form of commitments for
/// `batch_size` instances holds.
pub fn part_kind(batch_size: usize, index: usize) -> (kind: Option<PartKind>)
    ensures
        kind == part_kind_spec(batch_size as int, index as int),
{
    if index < batch_size {
        Some(PartKind::Witness)
    } else if index == batch_size {
        Some(PartKind::MaskPoly)
    } else if (index - batch_size - 1) / 3 <= batch_size {
        Some(PartKind::Single)
    } else {
        None
    }
}

/// The number of items in the written form of commitments for `batch_size`
/// instances.
pub open spec fn num_parts(batch_size: int) -> int {
    4 * batch_size + 4
}

impl<C> CommitmentPart<C> {
    /// What the item holds.
    pub open spec fn kind(self) -> PartKind {
        match self {
            CommitmentPart::Witness(_) => PartKind::Witness,
            CommitmentPart::MaskPoly(_) => PartKind::MaskPoly,
            CommitmentPart::Single(_) => PartKind::Single,
        }
    }
}

/// The written form of commitments with the given fields: the witness
/// commitments, the masking polynomial, `g_1`, `h_1`, the `g_a`, the `g_b`,
/// the `g_c` and `h_2`, in this order.
pub open spec fn parts_of<C>(
    witness_commitments: Seq<WitnessCommitments<C>>,
    mask_poly: Option<C>,
    g_1: C,
    h_1: C,
    g_a_commitments: Seq<C>,
    g_b_commitments: Seq<C>,
    g_c_commitments: Seq<C>,
    h_2: C,
) -> Seq<CommitmentPart<C>> {
    witness_commitments.map_values(|w: WitnessCommitments<C>| CommitmentPart::Witness(w))
        + seq![CommitmentPart::MaskPoly(mask_poly), CommitmentPart::Single(g_1), CommitmentPart::Single(h_1)]
        + g_a_commitments.map_values(|c: C| CommitmentPart::Single(c)) + g_b_commitments.map_values(
        |c: C| CommitmentPart::Single(c),
    ) + g_c_commitments.map_values(|c: C| CommitmentPart::Single(c)) + seq![CommitmentPart::Single(h_2)]
}

/// Whether `parts` has the shape of the written form of commitments for
/// `batch_size` instances: the witness entries, then the masking polynomial,
/// then single commitments to the end.
pub open spec fn laid_out<C>(parts: Seq<CommitmentPart<C>>, batch_size: int) -> bool {
    &&& 0 <= batch_size
    &&& parts.len() == num_parts(batch_size)
    &&& forall|i: int| 0 <= i < parts.len() ==> Some((#[trigger] parts[i]).kind()) == part_kind_spec(batch_size, i)
}

/// The size of the written form of commitments with lists of the given
/// lengths, where a witness entry takes `witness_size` bytes, the masking
/// polynomial `mask_poly_size` and any other commitment `commitment_size`.
pub open spec fn serialized_size_of(
    witnesses: int,
    g_a: int,
    g_b: int,
    g_c: int,
    witness_size: int,
    mask_poly_size: int,
    commitment_size: int,
) -> int {
    witnesses * witness_size + mask_poly_size + commitment_size + commitment_size + g_a
        * commitment_size + g_b * commitment_size + g_c * commitment_size + commitment_size
}

impl<C> Commitments<C> {
    /// The written form of the commitments.
    pub open spec fn parts(&self) -> Seq<CommitmentPart<C>> {
        parts_of(
            self.witness_commitments@,
            self.mask_poly,
            self.g_1,
            self.h_1,
            self.g_a_commitments@,
            self.g_b_commitments@,
            self.g_c_commitments@,
            self.h_2,
        )
    }

    /// Whether each of the four lists has `batch_size` entries.
    pub open spec fn has_batch_size(&self, batch_size: int) -> bool {
        &&& self.witness_commitments@.len() == batch_size
        &&& self.g_a_commitments@.len() == batch_size
        &&& self.g_b_commitments@.len() == batch_size
        &&& self.g_c_commitments@.len() == batch_size
    }

    /// Takes the commitments apart into their written form.
    pub fn into_parts(self) -> (parts: Vec<CommitmentPart<C>>)
        ensures
            parts@ == self.parts(),
    {
        let ghost witness = self.witness_commitments@;
        let ghost g_a = self.g_a_commitments@;
        let ghost g_b = self.g_b_commitments@;
        let ghost g_c = self.g_c_commitments@;
        let ghost middle = seq![
            CommitmentPart::MaskPoly(self.mask_poly),
            CommitmentPart::Single(self.g_1),
            CommitmentPart::Single(self.h_1),
        ];
        let mut parts: Vec<CommitmentPart<C>> = Vec::new();
        for w in it: self.witness_commitments
            invariant
                it.seq() == witness,
                parts@ == witness.take(it.index() as int).map_values(
                    |w: WitnessCommitments<C>| CommitmentPart::Witness(w),
                ),
        {
            parts.push(CommitmentPart::Witness(w));
        }
        let ghost first = parts@;
        assert(first == witness.map_values(|w: WitnessCommitments<C>| CommitmentPart::Witness(w)));
        parts.push(CommitmentPart::MaskPoly(self.mask_poly));
        parts.push(CommitmentPart::Single(self.g_1));
        parts.push(CommitmentPart::Single(self.h_1));
        assert(parts@ == first + middle);
        for c in it: self.g_a_commitments
            invariant
                it.seq() == g_a,
                parts@ == first + middle + g_a.take(it.index() as int).map_values(
                    |c: C| CommitmentPart::Single(c),
                ),
        {
            parts.push(CommitmentPart::Single(c));
        }
        let ghost second = parts@;
        assert(second == first + middle + g_a.map_values(|c: C| CommitmentPart::Single(c)));
        for c in it: self.g_b_commitments
            invariant
                it.seq() == g_b,
                parts@ == second + g_b.take(it.index() as int).map_values(
                    |c: C| CommitmentPart::Single(c),
                ),
        {
            parts.push(CommitmentPart::Single(c));
        }
        let ghost third = parts@;
        assert(third == second + g_b.map_values(|c: C| CommitmentPart::Single(c)));
        for c in it: self.g_c_commitments
            invariant
                it.seq() == g_c,
                parts@ == third + g_c.take(it.index() as int).map_values(
                    |c: C| CommitmentPart::Single(c),
                ),
        {
            parts.push(CommitmentPart::Single(c));
        }
        assert(parts@ == third + g_c.map_values(|c: C| CommitmentPart::Single(c)));
        parts.push(CommitmentPart::Single(self.h_2));
        parts
    }

    /// The written form of commitments for `batch_size` instances has the
    /// shape that `from_parts` asks for.
    pub proof fn lemma_parts_laid_out(&self, batch_size: int)
        requires
            self.has_batch_size(batch_size),
        ensures
            laid_out(self.parts(), batch_size),
    {
    }

    /// Commitments for one batch size with one written form are the same.
    pub proof fn lemma_parts_determine(&self, other: &Self, batch_size: int)
        requires
            self.has_batch_size(batch_size),
            other.has_batch_size(batch_size),
            self.parts() == other.parts(),
        ensures
            self.witness_commitments@ == other.witness_commitments@,
            self.mask_poly == other.mask_poly,
            self.g_1 == other.g_1,
            self.h_1 == other.h_1,
            self.g_a_commitments@ == other.g_a_commitments@,
            self.g_b_commitments@ == other.g_b_commitments@,
            self.g_c_commitments@ == other.g_c_commitments@,
            self.h_2 == other.h_2,
    {
        let n = batch_size;
        let p = self.parts();
        let q = other.parts();
        assert forall|i: int| 0 <= i < n implies self.witness_commitments@[i]
            == other.witness_commitments@[i] by {
            assert(p[i] == CommitmentPart::Witness(self.witness_commitments@[i]));
            assert(q[i] == CommitmentPart::Witness(other.witness_commitments@[i]));
        }
        assert(self.witness_commitments@ =~= other.witness_commitments@);
        assert(p[n] == CommitmentPart::MaskPoly(self.mask_poly));
        assert(q[n] == CommitmentPart::MaskPoly(other.mask_poly));
        assert(p[n + 1] == CommitmentPart::Single(self.g_1));
        assert(q[n + 1] == CommitmentPart::Single(other.g_1));
        assert(p[n + 2] == CommitmentPart::Single(self.h_1));
        assert(q[n + 2] == CommitmentPart::Single(other.h_1));
        assert forall|i: int| 0 <= i < n implies self.g_a_commitments@[i] == other.g_a_commitments@[i] by {
            assert(p[n + 3 + i] == CommitmentPart::Single(self.g_a_commitments@[i]));
            assert(q[n + 3 + i] == CommitmentPart::Single(other.g_a_commitments@[i]));
        }
        assert(self.g_a_commitments@ =~= other.g_a_commitments@);
        assert forall|i: int| 0 <= i < n implies self.g_b_commitments@[i] == other.g_b_commitments@[i] by {
            assert(p[2 * n + 3 + i] == CommitmentPart::Single(self.g_b_commitments@[i]));
            assert(q[2 * n + 3 + i] == CommitmentPart::Single(other.g_b_commitments@[i]));
        }
        assert(self.g_b_commitments@ =~= other.g_b_commitments@);
        assert forall|i: int| 0 <= i < n implies self.g_c_commitments@[i] == other.g_c_commitments@[i] by {
            assert(p[3 * n + 3 + i] == CommitmentPart::Single(self.g_c_commitments@[i]));
            assert(q[3 * n + 3 + i] == CommitmentPart::Single(other.g_c_commitments@[i]));
        }
        assert(self.g_c_commitments@ =~= other.g_c_commitments@);
        assert(p[4 * n + 3] == CommitmentPart::Single(self.h_2));
        assert(q[4 * n + 3] == CommitmentPart::Single(other.h_2));
    }

    /// Puts commitments for `batch_size` instances together from their
    /// written form. Parts of another shape are refused.
    pub fn from_parts(batch_size: usize, parts: Vec<CommitmentPart<C>>) -> (commitments: Result<
        Self,
        SNARKError,
    >)
        ensures
            match commitments {
                Ok(c) => {
                    &&& laid_out(parts@, batch_size as int)
                    &&& c.has_batch_size(batch_size as int)
                    &&& c.parts() == parts@
                },
                Err(e) => e == SNARKError::InvalidLayout && !laid_out(parts@, batch_size as int),
            },
    {
        let n = batch_size;
        let ghost all = parts@;
        let len = parts.len();
        if n > (usize::MAX - 4) / 4 || len != 4 * n + 4 {
            return Err(SNARKError::InvalidLayout);
        }
        let mut witness_commitments: Vec<WitnessCommitments<C>> = Vec::new();
        let mut mask_poly: Option<C> = None;
        let mut g_1: Option<C> = None;
        let mut h_1: Option<C> = None;
        let mut g_a_commitments: Vec<C> = Vec::new();
        let mut g_b_commitments: Vec<C> = Vec::new();
        let mut g_c_commitments: Vec<C> = Vec::new();
        let mut h_2: Option<C> = None;
        let mut k: usize = 0;
        for part in it: parts
            invariant
                it.seq() == all,
                all.len() == 4 * n + 4,
                n <= (usize::MAX - 4) / 4,
                k == it.index(),
                forall|i: int| 0 <= i < k && i < n ==> #[trigger] all[i] is Witness,
                k > n ==> all[n as int] is MaskPoly,
                forall|i: int| n < i < k ==> #[trigger] all[i] is Single,
                witness_commitments@.len() == (if k < n { k as int } else { n as int }),
                forall|i: int|
                    0 <= i < witness_commitments@.len() ==> all[i] == CommitmentPart::Witness(
                        #[trigger] witness_commitments@[i],
                    ),
                k > n ==> all[n as int] == CommitmentPart::MaskPoly(mask_poly),
                k > n + 1 ==> g_1 is Some && all[n + 1] == CommitmentPart::Single(g_1->Some_0),
                k > n + 2 ==> h_1 is Some && all[n + 2] == CommitmentPart::Single(h_1->Some_0),
                g_a_commitments@.len() == (if k < n + 3 { 0int } else if k < 2 * n + 3 { k - n - 3 } else { n as int }),
                forall|i: int|
                    0 <= i < g_a_commitments@.len() ==> all[n + 3 + i] == CommitmentPart::Single(
                        #[trigger] g_a_commitments@[i],
                    ),
                g_b_commitments@.len() == (if k < 2 * n + 3 { 0int } else if k < 3 * n + 3 { k - 2 * n - 3 } else { n as int }),
                forall|i: int|
                    0 <= i < g_b_commitments@.len() ==> all[2 * n + 3 + i] == CommitmentPart::Single(
                        #[trigger] g_b_commitments@[i],
                    ),
                g_c_commitments@.len() == (if k < 3 * n + 3 { 0int } else if k < 4 * n + 3 { k - 3 * n - 3 } else { n as int }),
                forall|i: int|
                    0 <= i < g_c_commitments@.len() ==> all[3 * n + 3 + i] == CommitmentPart::Single(
                        #[trigger] g_c_commitments@[i],
                    ),
                k > 4 * n + 3 ==> h_2 is Some && all[4 * n + 3] == CommitmentPart::Single(h_2->Some_0),
        {
            if k < n {
                match part {
                    CommitmentPart::Witness(w) => {
                        witness_commitments.push(w);
                    },
                    _ => {
                        assert(!(all[k as int] is Witness));
                        return Err(SNARKError::InvalidLayout);
                    },
                }
            } else if k == n {
                match part {
                    CommitmentPart::MaskPoly(m) => {
                        mask_poly = m;
                    },
                    _ => {
                        return Err(SNARKError::InvalidLayout);
                    },
                }
            } else {
                match part {
                    CommitmentPart::Single(c) => {
                        if k == n + 1 {
                            g_1 = Some(c);
                        } else if k == n + 2 {
                            h_1 = Some(c);
                        } else if k < 2 * n + 3 {
                            g_a_commitments.push(c);
                        } else if k < 3 * n + 3 {
                            g_b_commitments.push(c);
                        } else if k < 4 * n + 3 {
                            g_c_commitments.push(c);
                        } else {
                            h_2 = Some(c);
                        }
                    },
                    _ => {
                        assert(!(all[k as int] is Single));
                        return Err(SNARKError::InvalidLayout);
                    },
                }
            }
            k += 1;
        }
        match (g_1, h_1, h_2) {
            (Some(g_1), Some(h_1), Some(h_2)) => {
                let commitments = Commitments {
                    witness_commitments,
                    mask_poly,
                    g_1,
                    h_1,
                    g_a_commitments,
                    g_b_commitments,
                    g_c_commitments,
                    h_2,
                };
                assert(commitments.parts() =~= all);
                Ok(commitments)
            },
            _ => Err(SNARKError::InvalidLayout),
        }
    }

    /// The size of the written form in bytes.
    pub open spec fn serialized_size_spec(
        &self,
        witness_size: usize,
        mask_poly_size: usize,
        commitment_size: usize,
    ) -> int {
        serialized_size_of(
            self.witness_commitments@.len() as int,
            self.g_a_commitments@.len() as int,
            self.g_b_commitments@.len() as int,
            self.g_c_commitments@.len() as int,
            witness_size as int,
            mask_poly_size as int,
            commitment_size as int,
        )
    }

    /// Computes the size of the written form in bytes, given the size of one
    /// witness entry, of the masking polynomial and of any other commitment.
    /// `None` where the size does not fit into `usize`.
    pub fn serialized_size(&self, witness_size: usize, mask_poly_size: usize, commitment_size: usize) -> (size:
        Option<usize>)
        ensures
            match size {
                Some(n) => n == self.serialized_size_spec(witness_size, mask_poly_size, commitment_size),
                None => self.serialized_size_spec(witness_size, mask_poly_size, commitment_size)
                    > usize::MAX,
            },
    {
        let ghost w = self.witness_commitments@.len() as int;
        let ghost a = self.g_a_commitments@.len() as int;
        let ghost b = self.g_b_commitments@.len() as int;
        let ghost c = self.g_c_commitments@.len() as int;
        proof {
            assert(w * witness_size >= 0) by (nonlinear_arith)
                requires
                    w >= 0,
                    witness_size >= 0,
            ;
            assert(a * commitment_size >= 0) by (nonlinear_arith)
                requires
                    a >= 0,
                    commitment_size >= 0,
            ;
            assert(b * commitment_size >= 0) by (nonlinear_arith)
                requires
                    b >= 0,
                    commitment_size >= 0,
            ;
            assert(c * commitment_size >= 0) by (nonlinear_arith)
                requires
                    c >= 0,
                    commitment_size >= 0,
            ;
        }
        let size = self.witness_commitments.len().checked_mul(witness_size)?;
        let size = size.checked_add(mask_poly_size)?;
        let size = size.checked_add(commitment_size)?;
        let size = size.checked_add(commitment_size)?;
        let size = size.checked_add(self.g_a_commitments.len().checked_mul(commitment_size)?)?;
        let size = size.checked_add(self.g_b_commitments.len().checked_mul(commitment_size)?)?;
        let size = size.checked_add(self.g_c_commitments.len().checked_mul(commitment_size)?)?;
        size.checked_add(commitment_size)
    }
}

} // verus!
