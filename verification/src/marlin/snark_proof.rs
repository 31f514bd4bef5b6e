//! The proof object.

use vstd::prelude::*;
use crate::errors::SNARKError;
use crate::marlin::commitments::{laid_out, CommitmentPart, Commitments};
use crate::marlin::evaluations::Evaluations;

verus! {

/// A proof: the batch sizes of the circuits it speaks of, the commitments to
/// the prover's polynomials, evaluations of some of them, the prover's third
/// message and an evaluation proof. This is also the order in which the
/// parts of a proof are written.
#[derive(Clone, Debug, PartialEq, Eq)]
pub struct Proof<C, F, M, P> {
    /// The number of instances of each circuit, in the order of the circuits.
    batch_sizes: Vec<usize>,
    /// Commitments to the prover's polynomials.
    pub commitments: Commitments<C>,
    /// Evaluations of some of the committed polynomials.
    pub evaluations: Evaluations<F>,
    /// The prover's third message.
    pub msg: M,
    /// An evaluation proof from the polynomial commitment.
    pub pc_proof: P,
}

/// The sum of `sizes`.
pub open spec fn total_size(sizes: Seq<usize>) -> int
    decreases sizes.len(),
{
    if sizes.len() == 0 {
        0
    } else {
        total_size(sizes.drop_last()) + sizes.last()
    }
}

/// Whether the lists of `z_b` evaluations fit the batch sizes: there is one
/// list for each batch size, and each list has as many entries as its
/// circuit has instances.
pub open spec fn evaluations_fit<F>(z_b_evals: Seq<Vec<F>>, batch_sizes: Seq<usize>) -> bool {
    &&& z_b_evals.len() == batch_sizes.len()
    &&& forall|i: int| 0 <= i < z_b_evals.len() ==> (#[trigger] z_b_evals[i])@.len() == batch_sizes[i]
}

/// Whether batch sizes fit what a proof holds: the lists of `z_b`
/// evaluations fit them, and they sum to the number of witness commitments.
pub open spec fn batch_sizes_fit<F>(batch_sizes: Seq<usize>, z_b_evals: Seq<Vec<F>>, witnesses: int) -> bool {
    &&& evaluations_fit(z_b_evals, batch_sizes)
    &&& total_size(batch_sizes) == witnesses
}

/// The sum of the first `n` sizes is at most the sum of all.
pub proof fn lemma_total_size_prefix(sizes: Seq<usize>, n: int)
    requires
        0 <= n <= sizes.len(),
    ensures
        0 <= total_size(sizes.take(n)) <= total_size(sizes),
    decreases sizes.len() - n,
{
    if n < sizes.len() {
        lemma_total_size_prefix(sizes, n + 1);
        assert(sizes.take(n + 1).drop_last() == sizes.take(n));
        lemma_total_size_nonnegative(sizes.take(n));
    } else {
        assert(sizes.take(n) == sizes);
        lemma_total_size_nonnegative(sizes);
    }
}

/// A sum of sizes is not negative.
pub proof fn lemma_total_size_nonnegative(sizes: Seq<usize>)
    ensures
        0 <= total_size(sizes),
    decreases sizes.len(),
{
    if sizes.len() > 0 {
        lemma_total_size_nonnegative(sizes.drop_last());
    }
}

/// Computes the sum of `sizes`. `None` where it does not fit into `usize`.
pub fn total_batch_size(sizes: &Vec<usize>) -> (total: Option<usize>)
    ensures
        match total {
            Some(n) => n == total_size(sizes@),
            None => total_size(sizes@) > usize::MAX,
        },
{
    let mut total: usize = 0;
    let mut i: usize = 0;
    while i < sizes.len()
        invariant
            i <= sizes@.len(),
            total == total_size(sizes@.take(i as int)),
        decreases sizes@.len() - i,
    {
        proof {
            assert(sizes@.take(i + 1).drop_last() == sizes@.take(i as int));
            lemma_total_size_prefix(sizes@, i + 1);
        }
        total = match total.checked_add(sizes[i]) {
            Some(sum) => sum,
            None => {
                return None;
            },
        };
        i += 1;
    }
    assert(sizes@.take(sizes@.len() as int) == sizes@);
    Some(total)
}

/// Checks that `batch_sizes` fit the lists of `z_b` evaluations and sum to
/// `witnesses`.
pub fn check_batch_sizes<F>(batch_sizes: &Vec<usize>, z_b_evals: &Vec<Vec<F>>, witnesses: usize) -> (fit:
    bool)
    ensures
        fit == batch_sizes_fit(batch_sizes@, z_b_evals@, witnesses as int),
{
    if z_b_evals.len() != batch_sizes.len() {
        return false;
    }
    let mut i: usize = 0;
    while i < z_b_evals.len()
        invariant
            i <= z_b_evals@.len(),
            z_b_evals@.len() == batch_sizes@.len(),
            forall|k: int| 0 <= k < i ==> (#[trigger] z_b_evals@[k])@.len() == batch_sizes@[k],
        decreases z_b_evals@.len() - i,
    {
        if z_b_evals[i].len() != batch_sizes[i] {
            return false;
        }
        i += 1;
    }
    match total_batch_size(batch_sizes) {
        Some(total) => total == witnesses,
        None => false,
    }
}

impl<C, F, M, P> Proof<C, F, M, P> {
    /// The batch sizes that the proof declares.
    pub closed spec fn batch_sizes_spec(&self) -> Seq<usize> {
        self.batch_sizes@
    }

    /// The commitments of the proof.
    pub closed spec fn commitments_spec(&self) -> Commitments<C> {
        self.commitments
    }

    /// The evaluations of the proof.
    pub closed spec fn evaluations_spec(&self) -> Evaluations<F> {
        self.evaluations
    }

    /// The prover's third message.
    pub closed spec fn msg_spec(&self) -> M {
        self.msg
    }

    /// The evaluation proof.
    pub closed spec fn pc_proof_spec(&self) -> P {
        self.pc_proof
    }

    /// Whether the proof's declared batch sizes fit what it holds: there is
    /// one list of `z_b` evaluations for each of them, each list has the
    /// length of its batch size, and all of them sum to the number of
    /// witness commitments.
    pub open spec fn sizes_fit(&self) -> bool {
        batch_sizes_fit(
            self.batch_sizes_spec(),
            self.evaluations_spec().z_b_evals@,
            self.commitments_spec().witness_commitments@.len() as int,
        )
    }

    /// Constructs a new proof from the batch sizes of its circuits, in the
    /// order of the circuits, and its parts.
    ///
    /// The proof is refused unless the witness commitments number
    /// `total_instances`, the batch sizes sum to `total_instances`, there is
    /// one list of `z_b` evaluations for each batch size, and each list has
    /// as many entries as its circuit has instances.
    pub fn new(
        batch_sizes: Vec<usize>,
        total_instances: usize,
        commitments: Commitments<C>,
        evaluations: Evaluations<F>,
        msg: M,
        pc_proof: P,
    ) -> (made: Result<Self, SNARKError>)
        ensures
            match made {
                Ok(p) => {
                    &&& commitments.witness_commitments@.len() == total_instances
                    &&& batch_sizes_fit(batch_sizes@, evaluations.z_b_evals@, total_instances as int)
                    &&& p.batch_sizes_spec() == batch_sizes@
                    &&& p.commitments_spec() == commitments
                    &&& p.evaluations_spec() == evaluations
                    &&& p.msg_spec() == msg
                    &&& p.pc_proof_spec() == pc_proof
                    &&& p.sizes_fit()
                },
                Err(e) => {
                    &&& e == SNARKError::BatchSizeMismatch
                    &&& !(commitments.witness_commitments@.len() == total_instances && batch_sizes_fit(
                        batch_sizes@,
                        evaluations.z_b_evals@,
                        total_instances as int,
                    ))
                },
            },
    {
        if commitments.witness_commitments.len() != total_instances {
            return Err(SNARKError::BatchSizeMismatch);
        }
        if !check_batch_sizes(&batch_sizes, &evaluations.z_b_evals, total_instances) {
            return Err(SNARKError::BatchSizeMismatch);
        }
        Ok(Self { batch_sizes, commitments, evaluations, msg, pc_proof })
    }

    /// The batch sizes of the proof, once it is checked again that they fit
    /// what the proof holds, which may have changed since it was made.
    pub fn batch_sizes(&self) -> (sizes: Result<&Vec<usize>, SNARKError>)
        ensures
            match sizes {
                Ok(s) => self.sizes_fit() && s@ == self.batch_sizes_spec(),
                Err(e) => e == SNARKError::BatchSizeMismatch && !self.sizes_fit(),
            },
    {
        if !check_batch_sizes(
            &self.batch_sizes,
            &self.evaluations.z_b_evals,
            self.commitments.witness_commitments.len(),
        ) {
            return Err(SNARKError::BatchSizeMismatch);
        }
        Ok(&self.batch_sizes)
    }

    /// Takes the proof apart into its parts in the order in which they are
    /// written: the batch sizes, the commitments, the evaluations, the
    /// prover's message and the evaluation proof.
    pub fn into_parts(self) -> (parts: (Vec<usize>, Vec<CommitmentPart<C>>, Evaluations<F>, M, P))
        ensures
            parts.0@ == self.batch_sizes_spec(),
            parts.1@ == self.commitments_spec().parts(),
            parts.2 == self.evaluations_spec(),
            parts.3 == self.msg_spec(),
            parts.4 == self.pc_proof_spec(),
    {
        (self.batch_sizes, self.commitments.into_parts(), self.evaluations, self.msg, self.pc_proof)
    }

    /// Puts a proof together from its written parts. The commitments are
    /// read for as many instances as the batch sizes sum to.
    ///
    /// Commitments of another shape are refused as `InvalidLayout`. Where the
    /// shape is right, the proof is refused as `BatchSizeMismatch` unless
    /// there is one list of `z_b` evaluations for each batch size and each
    /// list has as many entries as its circuit has instances.
    pub fn from_parts(
        batch_sizes: Vec<usize>,
        commitments: Vec<CommitmentPart<C>>,
        evaluations: Evaluations<F>,
        msg: M,
        pc_proof: P,
    ) -> (made: Result<Self, SNARKError>)
        ensures
            match made {
                Ok(p) => {
                    &&& laid_out(commitments@, total_size(batch_sizes@))
                    &&& evaluations_fit(evaluations.z_b_evals@, batch_sizes@)
                    &&& p.batch_sizes_spec() == batch_sizes@
                    &&& p.commitments_spec().has_batch_size(total_size(batch_sizes@))
                    &&& p.commitments_spec().parts() == commitments@
                    &&& p.evaluations_spec() == evaluations
                    &&& p.msg_spec() == msg
                    &&& p.pc_proof_spec() == pc_proof
                    &&& p.sizes_fit()
                },
                Err(SNARKError::InvalidLayout) => !laid_out(commitments@, total_size(batch_sizes@)),
                Err(SNARKError::BatchSizeMismatch) => {
                    &&& laid_out(commitments@, total_size(batch_sizes@))
                    &&& !evaluations_fit(evaluations.z_b_evals@, batch_sizes@)
                },
                Err(_) => false,
            },
    {
        let count = commitments.len();
        let total = match total_batch_size(&batch_sizes) {
            Some(total) => total,
            None => {
                return Err(SNARKError::InvalidLayout);
            },
        };
        let commitments = match Commitments::from_parts(total, commitments) {
            Ok(commitments) => commitments,
            Err(e) => {
                return Err(e);
            },
        };
        if !check_batch_sizes(&batch_sizes, &evaluations.z_b_evals, commitments.witness_commitments.len()) {
            return Err(SNARKError::BatchSizeMismatch);
        }
        Ok(Self { batch_sizes, commitments, evaluations, msg, pc_proof })
    }
}

} // verus!
