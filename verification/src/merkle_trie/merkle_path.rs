//! Authentication paths through a Merkle trie.

use vstd::prelude::*;
use crate::bytes::{digest_eq, Digest};
use crate::errors::MerkleTrieError;
use crate::merkle_trie::{calculate_root, calculate_root_spec, hash_leaf, hash_leaf_spec, value_view};
use crate::traits::CRH;
use itertools::Itertools;
use std::sync::Arc;

verus! {

/// The way from a leaf of a Merkle trie up to its root.
///
/// Level `i` counts from the leaf. `path[i]` holds the digests of the siblings
/// at that level in their order, `traversal[i]` is the position among them
/// at which the digest of the subtree below belongs, and `parents[i]` is the
/// key and the value of the node whose children they all are.
pub struct MerkleTriePath<P: CRH> {
    pub parameters: Arc<P>,
    pub path: Vec<Vec<Digest>>,
    pub parents: Vec<(Vec<u8>, Option<Vec<u8>>)>,
    pub traversal: Vec<usize>,
}

/// What a path says, level by level, apart from the hash it is to be
/// evaluated with.
pub struct TriePathView {
    pub path: Seq<Seq<Digest>>,
    pub parents: Seq<(Seq<u8>, Option<Seq<u8>>)>,
    pub traversal: Seq<usize>,
}

/// The content of the three lists of a path.
pub open spec fn levels_view(
    path: Seq<Vec<Digest>>,
    parents: Seq<(Vec<u8>, Option<Vec<u8>>)>,
    traversal: Seq<usize>,
) -> TriePathView {
    TriePathView {
        path: Seq::new(path.len(), |i: int| path[i]@),
        parents: Seq::new(parents.len(), |i: int| (parents[i].0@, value_view(parents[i].1))),
        traversal,
    }
}

impl TriePathView {
    /// Whether the three lists have one entry per level each.
    pub open spec fn lengths_agree(self) -> bool {
        &&& self.path.len() == self.traversal.len()
        &&& self.parents.len() == self.traversal.len()
    }

    /// Whether the traversal index of `level` names a position in, or directly
    /// behind, the sibling list of that level.
    pub open spec fn in_bounds(self, level: int) -> bool {
        self.traversal[level] <= self.path[level].len()
    }

    /// The first level at or above `from` whose traversal index is out of
    /// bounds, if there is one.
    pub open spec fn first_out_of_bounds(self, from: int) -> Option<int>
        decreases self.path.len() - from,
    {
        if from < 0 || from >= self.path.len() {
            None
        } else if !self.in_bounds(from) {
            Some(from)
        } else {
            self.first_out_of_bounds(from + 1)
        }
    }

    /// Whether the path is well formed: one entry per level in each list, and
    /// every traversal index in bounds.
    pub open spec fn well_formed(self) -> bool {
        &&& self.lengths_agree()
        &&& forall|level: int| 0 <= level < self.path.len() ==> self.in_bounds(level)
    }

    /// What is wrong with the structure of the path, if anything: lists of
    /// different lengths first, else the first level that is out of bounds.
    pub open spec fn malformation(self) -> Option<MerkleTrieError> {
        if !self.lengths_agree() {
            Some(MerkleTrieError::LengthMismatch)
        } else {
            match self.first_out_of_bounds(0) {
                Some(level) => Some(MerkleTrieError::TraversalOutOfBounds(level as usize)),
                None => None,
            }
        }
    }

    /// The children of the parent at `level`, once `current` has taken its
    /// place among the siblings.
    pub open spec fn children_at(self, level: int, current: Digest) -> Seq<Digest> {
        self.path[level].insert(self.traversal[level] as int, current)
    }

    /// The digest of the parent at `level`, given the digest `current` of the
    /// subtree below it.
    pub open spec fn parent_digest<P: CRH>(self, parameters: P, level: int, current: Digest) -> Result<
        Digest,
        MerkleTrieError,
    > {
        calculate_root_spec(
            parameters,
            self.parents[level].0,
            self.parents[level].1,
            self.children_at(level, current),
        )
    }

    /// The digest that comes out below level `to` when the levels from
    /// `from` on are climbed, starting with the digest `current` of the
    /// subtree below `from`.
    pub open spec fn climb<P: CRH>(self, parameters: P, from: int, to: int, current: Digest) -> Result<
        Digest,
        MerkleTrieError,
    >
        decreases to - from,
    {
        if from < 0 || from >= to {
            Ok(current)
        } else {
            match self.parent_digest(parameters, from, current) {
                Ok(parent) => self.climb(parameters, from + 1, to, parent),
                Err(e) => Err(e),
            }
        }
    }

    /// The digest at the top of the path, given that the subtree below `level`
    /// has the digest `current`.
    pub open spec fn root_from<P: CRH>(self, parameters: P, level: int, current: Digest) -> Result<
        Digest,
        MerkleTrieError,
    > {
        self.climb(parameters, level, self.path.len() as int, current)
    }

    /// The root that the path yields for the leaf `(key, value)`.
    pub open spec fn root_spec<P: CRH>(self, parameters: P, key: Seq<u8>, value: Seq<u8>) -> Result<
        Digest,
        MerkleTrieError,
    > {
        match hash_leaf_spec(parameters, key, value) {
            Ok(leaf) => self.root_from(parameters, 0, leaf),
            Err(e) => Err(e),
        }
    }

    /// The outcome of checking the leaf `(key, value)` against `root_hash`:
    /// an error for a malformed path, `false` for a path without levels, and
    /// else whether the recomputed root is `root_hash`, or the error of the
    /// hash that failed on the way.
    pub open spec fn verify_spec<P: CRH>(
        self,
        parameters: P,
        root_hash: Digest,
        key: Seq<u8>,
        value: Seq<u8>,
    ) -> Result<bool, MerkleTrieError> {
        match self.malformation() {
            Some(e) => Err(e),
            None => if self.path.len() == 0 {
                Ok(false)
            } else {
                match self.root_spec(parameters, key, value) {
                    Ok(root) => Ok(root == root_hash),
                    Err(e) => Err(e),
                }
            },
        }
    }

    /// No level is reported out of bounds exactly when every level from
    /// `from` on is in bounds, and a reported level is the first such.
    pub proof fn lemma_first_out_of_bounds(self, from: int)
        requires
            0 <= from,
        ensures
            match self.first_out_of_bounds(from) {
                Some(level) => from <= level < self.path.len() && !self.in_bounds(level)
                    && forall|l: int| from <= l < level ==> self.in_bounds(l),
                None => forall|l: int| from <= l < self.path.len() ==> self.in_bounds(l),
            },
        decreases self.path.len() - from,
    {
        if from < self.path.len() && self.in_bounds(from) {
            self.lemma_first_out_of_bounds(from + 1);
        }
    }

    /// A path has no malformation exactly when it is well formed.
    pub proof fn lemma_malformation(self)
        ensures
            self.malformation() is None <==> self.well_formed(),
    {
        self.lemma_first_out_of_bounds(0);
    }
}

/// Pairs each traversal index with the sibling list of its level, by
/// `Itertools::zip_eq`, which walks both in lock step and panics when one
/// ends before the other. The contract admits only lists of one length and
/// says that entry `i` of the result refers to entry `i` of each.
#[verifier::external_body]
fn zip_levels<'a>(traversal: &'a Vec<usize>, path: &'a Vec<Vec<Digest>>) -> (levels: Vec<
    (&'a usize, &'a Vec<Digest>),
>)
    requires
        traversal@.len() == path@.len(),
    ensures
        levels@.len() == traversal@.len(),
        forall|i: int|
            0 <= i < levels@.len() ==> *(#[trigger] levels@[i]).0 == traversal@[i]
                && *levels@[i].1 == path@[i],
{
    Itertools::zip_eq(traversal.iter(), path.iter()).collect()
}

/// Checks that every traversal index of `levels` is in bounds, and names
/// the first level whose index is not.
fn check_bounds(levels: &Vec<(&usize, &Vec<Digest>)>, Ghost(view): Ghost<TriePathView>) -> (fault: Option<
    MerkleTrieError,
>)
    requires
        view.lengths_agree(),
        levels@.len() == view.path.len(),
        forall|l: int|
            0 <= l < levels@.len() ==> *(#[trigger] levels@[l]).0 == view.traversal[l]
                && levels@[l].1@ == view.path[l],
    ensures
        fault == view.malformation(),
{
    let mut i: usize = 0;
    while i < levels.len()
        invariant
            i <= levels@.len(),
            levels@.len() == view.path.len(),
            view.lengths_agree(),
            forall|l: int|
                0 <= l < levels@.len() ==> *(#[trigger] levels@[l]).0 == view.traversal[l]
                    && levels@[l].1@ == view.path[l],
            view.first_out_of_bounds(0) == view.first_out_of_bounds(i as int),
        decreases levels@.len() - i,
    {
        let (index, siblings) = levels[i];
        if *index > siblings.len() {
            return Some(MerkleTrieError::TraversalOutOfBounds(i));
        }
        i += 1;
    }
    None
}

/// Recomputes the root from the leaf `(key, value)` along the levels given
/// by `path`, `parents` and `traversal`, hashing with `parameters`, and says
/// whether it is `root_hash`.
pub fn verify_levels<P: CRH>(
    parameters: &Arc<P>,
    path: &Vec<Vec<Digest>>,
    parents: &Vec<(Vec<u8>, Option<Vec<u8>>)>,
    traversal: &Vec<usize>,
    root_hash: &Digest,
    key: &[u8],
    value: &[u8],
) -> (result: Result<bool, MerkleTrieError>)
    ensures
        result == levels_view(path@, parents@, traversal@).verify_spec(
            **parameters,
            *root_hash,
            key@,
            value@,
        ),
{
    let ghost view = levels_view(path@, parents@, traversal@);
    if path.len() != traversal.len() || parents.len() != traversal.len() {
        return Err(MerkleTrieError::LengthMismatch);
    }
    let levels = zip_levels(traversal, path);
    if let Some(fault) = check_bounds(&levels, Ghost(view)) {
        return Err(fault);
    }
    proof {
        view.lemma_first_out_of_bounds(0);
    }
    if path.is_empty() {
        return Ok(false);
    }
    let mut curr_hash = match hash_leaf(parameters, key, value) {
        Ok(leaf) => leaf,
        Err(e) => {
            return Err(e);
        },
    };
    let mut i: usize = 0;
    while i < levels.len()
        invariant
            i <= levels@.len(),
            levels@.len() == path@.len(),
            view == levels_view(path@, parents@, traversal@),
            view.well_formed(),
            view.malformation() is None,
            view.path.len() > 0,
            forall|l: int|
                0 <= l < levels@.len() ==> *(#[trigger] levels@[l]).0 == traversal@[l]
                    && *levels@[l].1 == path@[l],
            view.root_spec(**parameters, key@, value@) == view.root_from(
                **parameters,
                i as int,
                curr_hash,
            ),
        decreases levels@.len() - i,
    {
        let (index, siblings) = levels[i];
        let mut node_hashes: Vec<Digest> = Vec::new();
        let mut j: usize = 0;
        while j < siblings.len()
            invariant
                j <= siblings@.len(),
                node_hashes@ == siblings@.take(j as int),
            decreases siblings@.len() - j,
        {
            node_hashes.push(siblings[j]);
            j += 1;
        }
        assert(siblings@.take(siblings@.len() as int) == siblings@);
        assert(view.in_bounds(i as int));
        node_hashes.insert(*index, curr_hash);
        let parent = &parents[i];
        let parent_value: Option<&[u8]> = match &parent.1 {
            Some(v) => Some(v.as_slice()),
            None => None,
        };
        curr_hash = match calculate_root(parameters, parent.0.as_slice(), parent_value, &node_hashes) {
            Ok(digest) => digest,
            Err(e) => {
                return Err(e);
            },
        };
        i += 1;
    }
    Ok(digest_eq(&curr_hash, root_hash))
}

/// What a path holds: the hash it is evaluated with, and what it says level
/// by level.
pub struct MerkleTriePathView<P> {
    pub parameters: P,
    pub levels: TriePathView,
}

impl<P: CRH> MerkleTriePathView<P> {
    /// The outcome of checking the leaf `(key, value)` against `root_hash`
    /// along the path, with the path's own hash.
    pub open spec fn verify_spec(self, root_hash: Digest, key: Seq<u8>, value: Seq<u8>) -> Result<
        bool,
        MerkleTrieError,
    > {
        self.levels.verify_spec(self.parameters, root_hash, key, value)
    }
}

impl<P: CRH> View for MerkleTriePath<P> {
    type V = MerkleTriePathView<P>;

    open spec fn view(&self) -> MerkleTriePathView<P> {
        MerkleTriePathView {
            parameters: *self.parameters,
            levels: levels_view(self.path@, self.parents@, self.traversal@),
        }
    }
}

impl<P: CRH> MerkleTriePath<P> {
    /// Recomputes the root from the leaf `(key, value)` along the path and
    /// says whether it is `root_hash`.
    ///
    /// A path without levels authenticates nothing. A path whose lists differ
    /// in length, or with a traversal index beyond the end of its sibling
    /// list, is refused with an error before anything is hashed.
    pub fn verify(&self, root_hash: &Digest, key: &[u8], value: &[u8]) -> (result: Result<
        bool,
        MerkleTrieError,
    >)
        ensures
            result == self@.verify_spec(*root_hash, key@, value@),
    {
        verify_levels(&self.parameters, &self.path, &self.parents, &self.traversal, root_hash, key, value)
    }
}

} // verus!
