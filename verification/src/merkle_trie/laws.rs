//! What holds of every path: completeness, and soundness up to collisions of
//! the hash.

use vstd::prelude::*;
use crate::bytes::{concat_digests, Digest};
use crate::errors::MerkleTrieError;
use crate::merkle_trie::merkle_path::TriePathView;
use crate::merkle_trie::{hash_leaf_spec, node_preimage, value_part, with_length};
use vstd::bytes::{lemma_auto_spec_u64_to_from_le_bytes, spec_u64_from_le_bytes, spec_u64_to_le_bytes};
use crate::traits::CRH;

verus! {

/// Whether `a` and `b` are two different inputs that the hash accepts and
/// sends to one digest.
pub open spec fn is_collision<P: CRH>(parameters: P, a: Seq<u8>, b: Seq<u8>) -> bool {
    &&& a != b
    &&& parameters.hash_spec(a) is Ok
    &&& parameters.hash_spec(a) == parameters.hash_spec(b)
}

/// Whether the hash has a collision at all.
pub open spec fn has_collision<P: CRH>(parameters: P) -> bool {
    exists|a: Seq<u8>, b: Seq<u8>| is_collision(parameters, a, b)
}

/// Whether two paths say the same of `level`.
pub open spec fn same_level(p: TriePathView, q: TriePathView, level: int) -> bool {
    &&& p.path[level] == q.path[level]
    &&& p.parents[level] == q.parents[level]
    &&& p.traversal[level] == q.traversal[level]
}

/// Each digest contributes its 32 bytes.
pub proof fn lemma_concat_digests_len(digests: Seq<Digest>)
    ensures
        concat_digests(digests).len() == 32 * digests.len(),
    decreases digests.len(),
{
    if digests.len() > 0 {
        lemma_concat_digests_len(digests.drop_last());
    }
}

/// Two lists of digests that are written out alike are the same list.
pub proof fn lemma_concat_digests_injective(a: Seq<Digest>, b: Seq<Digest>)
    requires
        concat_digests(a) == concat_digests(b),
    ensures
        a == b,
    decreases a.len(),
{
    lemma_concat_digests_len(a);
    lemma_concat_digests_len(b);
    if a.len() > 0 {
        let front_a = concat_digests(a.drop_last());
        let front_b = concat_digests(b.drop_last());
        lemma_concat_digests_len(a.drop_last());
        lemma_concat_digests_len(b.drop_last());
        let whole = concat_digests(a);
        assert(whole == front_a + a.last()@);
        assert(whole == front_b + b.last()@);
        assert(front_a =~= whole.take(front_a.len() as int));
        assert(front_b =~= whole.take(front_b.len() as int));
        assert(a.last()@ =~= whole.skip(front_a.len() as int));
        assert(b.last()@ =~= whole.skip(front_b.len() as int));
        assert(a.last() == b.last()) by {
            assert(a.last() =~= b.last());
        }
        lemma_concat_digests_injective(a.drop_last(), b.drop_last());
        assert(a =~= a.drop_last().push(a.last()));
        assert(b =~= b.drop_last().push(b.last()));
    } else {
        assert(a =~= b);
    }
}

/// A node's preimage determines its children, its key and value given.
pub proof fn lemma_node_preimage_children(
    key: Seq<u8>,
    value: Option<Seq<u8>>,
    c1: Seq<Digest>,
    c2: Seq<Digest>,
)
    requires
        node_preimage(key, value, c1) == node_preimage(key, value, c2),
    ensures
        c1 == c2,
{
    let stored = with_length(key) + value_part(value);
    let whole = node_preimage(key, value, c1);
    assert(concat_digests(c1) =~= whole.skip(stored.len() as int));
    assert(concat_digests(c2) =~= whole.skip(stored.len() as int));
    lemma_concat_digests_injective(c1, c2);
}

/// A byte string is determined by what stands behind its length: two
/// strings of less than 2^64 bytes that are followed by anything and give
/// the same bytes are the same, and so is what follows them.
pub proof fn lemma_with_length_injective(a: Seq<u8>, rest_a: Seq<u8>, b: Seq<u8>, rest_b: Seq<u8>)
    requires
        a.len() <= u64::MAX,
        b.len() <= u64::MAX,
        with_length(a) + rest_a == with_length(b) + rest_b,
    ensures
        a == b,
        rest_a == rest_b,
{
    lemma_auto_spec_u64_to_from_le_bytes();
    let whole = with_length(a) + rest_a;
    let la = spec_u64_to_le_bytes(a.len() as u64);
    let lb = spec_u64_to_le_bytes(b.len() as u64);
    assert(la =~= whole.take(8));
    assert(lb =~= whole.take(8));
    assert(a.len() as u64 == spec_u64_from_le_bytes(la));
    assert(b.len() as u64 == spec_u64_from_le_bytes(lb));
    assert(a =~= whole.subrange(8, 8 + a.len() as int));
    assert(b =~= whole.subrange(8, 8 + b.len() as int));
    assert(rest_a =~= whole.skip(8 + a.len() as int));
    assert(rest_b =~= whole.skip(8 + b.len() as int));
}

/// A node's preimage determines the node: its key, its value and its
/// children, as long as key and value have less than 2^64 bytes.
pub proof fn lemma_node_preimage_injective(
    k1: Seq<u8>,
    v1: Option<Seq<u8>>,
    c1: Seq<Digest>,
    k2: Seq<u8>,
    v2: Option<Seq<u8>>,
    c2: Seq<Digest>,
)
    requires
        k1.len() <= u64::MAX,
        k2.len() <= u64::MAX,
        v1 matches Some(v) ==> v.len() <= u64::MAX,
        v2 matches Some(v) ==> v.len() <= u64::MAX,
        node_preimage(k1, v1, c1) == node_preimage(k2, v2, c2),
    ensures
        k1 == k2,
        v1 == v2,
        c1 == c2,
{
    let tail1 = value_part(v1) + concat_digests(c1);
    let tail2 = value_part(v2) + concat_digests(c2);
    assert(node_preimage(k1, v1, c1) =~= with_length(k1) + tail1);
    assert(node_preimage(k2, v2, c2) =~= with_length(k2) + tail2);
    lemma_with_length_injective(k1, tail1, k2, tail2);
    assert(tail1[0] == tail2[0]);
    match (v1, v2) {
        (Some(a), Some(b)) => {
            assert(tail1.skip(1) =~= with_length(a) + concat_digests(c1));
            assert(tail2.skip(1) =~= with_length(b) + concat_digests(c2));
            lemma_with_length_injective(a, concat_digests(c1), b, concat_digests(c2));
        },
        (None, None) => {
            assert(concat_digests(c1) =~= tail1.skip(1));
            assert(concat_digests(c2) =~= tail2.skip(1));
        },
        _ => {},
    }
    lemma_concat_digests_injective(c1, c2);
}

/// Where a digest put into a list at `t1` gives what another digest put in
/// at a later place `t2` gives, every entry from `t1` up to `t2` is the first
/// digest.
proof fn lemma_run_of_one_digest(siblings: Seq<Digest>, t1: int, d1: Digest, t2: int, d2: Digest, i: int)
    requires
        0 <= t1 <= i < t2 <= siblings.len(),
        siblings.insert(t1, d1) == siblings.insert(t2, d2),
    ensures
        siblings[i] == d1,
    decreases i - t1,
{
    let a = siblings.insert(t1, d1);
    let b = siblings.insert(t2, d2);
    if i == t1 {
        assert(a[t1] == d1);
        assert(b[t1] == siblings[t1]);
    } else {
        lemma_run_of_one_digest(siblings, t1, d1, t2, d2, i - 1);
        assert(a[i] == siblings[i - 1]);
        assert(b[i] == siblings[i]);
    }
}

/// Two different digests put into one list of siblings give two different
/// lists, wherever each is put.
pub proof fn lemma_inserts_differ(siblings: Seq<Digest>, t1: int, d1: Digest, t2: int, d2: Digest)
    requires
        0 <= t1 <= siblings.len(),
        0 <= t2 <= siblings.len(),
        d1 != d2,
    ensures
        siblings.insert(t1, d1) != siblings.insert(t2, d2),
{
    let a = siblings.insert(t1, d1);
    let b = siblings.insert(t2, d2);
    if a == b {
        if t1 == t2 {
            assert(a[t1] == d1);
            assert(b[t1] == d2);
        } else if t1 < t2 {
            lemma_run_of_one_digest(siblings, t1, d1, t2, d2, t2 - 1);
            assert(a[t2] == siblings[t2 - 1]);
            assert(b[t2] == d2);
        } else {
            lemma_run_of_one_digest(siblings, t2, d2, t1, d1, t1 - 1);
            assert(b[t1] == siblings[t1 - 1]);
            assert(a[t1] == d1);
        }
    }
}

/// Whether two paths have the same siblings and the same parents, level by
/// level, and so differ in their traversal indices at most.
pub open spec fn same_but_traversal(p: TriePathView, q: TriePathView) -> bool {
    &&& p.path == q.path
    &&& p.parents == q.parents
    &&& p.traversal.len() == q.traversal.len()
}

impl TriePathView {
    /// Climbing from `from` to `to` is climbing to `mid` and on from there.
    pub proof fn lemma_climb_split<P: CRH>(self, parameters: P, from: int, mid: int, to: int, current: Digest)
        requires
            0 <= from <= mid <= to,
        ensures
            self.climb(parameters, from, to, current) == match self.climb(parameters, from, mid, current) {
                Ok(digest) => self.climb(parameters, mid, to, digest),
                Err(e) => Err(e),
            },
        decreases mid - from,
    {
        if from < mid {
            match self.parent_digest(parameters, from, current) {
                Ok(parent) => {
                    self.lemma_climb_split(parameters, from + 1, mid, to, parent);
                },
                Err(_) => {},
            }
        }
    }

    /// Two paths that say the same of the levels from `from` up to `to` climb
    /// them alike.
    pub proof fn lemma_climb_agree<P: CRH>(
        self,
        other: TriePathView,
        parameters: P,
        from: int,
        to: int,
        current: Digest,
    )
        requires
            0 <= from,
            forall|level: int| from <= level < to ==> same_level(self, other, level),
        ensures
            self.climb(parameters, from, to, current) == other.climb(parameters, from, to, current),
        decreases to - from,
    {
        if from < to {
            assert(same_level(self, other, from));
            match self.parent_digest(parameters, from, current) {
                Ok(parent) => {
                    self.lemma_climb_agree(other, parameters, from + 1, to, parent);
                },
                Err(_) => {},
            }
        }
    }

    /// A path without levels is rejected, whatever the root, the key and the
    /// value.
    pub proof fn lemma_empty_path_rejected<P: CRH>(
        self,
        parameters: P,
        root_hash: Digest,
        key: Seq<u8>,
        value: Seq<u8>,
    )
        requires
            self.lengths_agree(),
            self.path.len() == 0,
        ensures
            self.verify_spec(parameters, root_hash, key, value) == Ok::<bool, MerkleTrieError>(false),
    {
    }

    /// A well-formed path with at least one level is accepted for the root
    /// that it yields itself.
    pub proof fn lemma_own_root_accepted<P: CRH>(self, parameters: P, key: Seq<u8>, value: Seq<u8>)
        requires
            self.well_formed(),
            self.path.len() > 0,
            self.root_spec(parameters, key, value) is Ok,
        ensures
            self.verify_spec(parameters, self.root_spec(parameters, key, value)->Ok_0, key, value)
                == Ok::<bool, MerkleTrieError>(true),
    {
        self.lemma_malformation();
    }

    /// A path is accepted for one root at most: the one it yields.
    pub proof fn lemma_accepted_root_is_own<P: CRH>(
        self,
        parameters: P,
        root_hash: Digest,
        key: Seq<u8>,
        value: Seq<u8>,
    )
        requires
            self.verify_spec(parameters, root_hash, key, value) == Ok::<bool, MerkleTrieError>(true),
        ensures
            self.well_formed(),
            self.path.len() > 0,
            self.root_spec(parameters, key, value) == Ok::<Digest, MerkleTrieError>(root_hash),
    {
        self.lemma_malformation();
    }

    /// Two climbs of one path that start at `level` with different digests and
    /// end in the same digest show a collision of the hash.
    pub proof fn lemma_diverged_digests_collide<P: CRH>(
        self,
        parameters: P,
        level: int,
        c1: Digest,
        c2: Digest,
    )
        requires
            0 <= level,
            self.well_formed(),
            c1 != c2,
            self.root_from(parameters, level, c1) is Ok,
            self.root_from(parameters, level, c1) == self.root_from(parameters, level, c2),
        ensures
            has_collision(parameters),
        decreases self.path.len() - level, 1int,
    {
        if level < self.path.len() {
            assert(self.in_bounds(level));
            let t = self.traversal[level] as int;
            assert(self.children_at(level, c1)[t] == c1);
            assert(self.children_at(level, c2)[t] == c2);
            self.lemma_changed_children_collide(self, parameters, level, c1, c2);
        }
    }

    /// Two paths that say the same of every level above `level` and name the
    /// same parent at `level`, but give that parent different children, show a
    /// collision of the hash when they end in the same digest.
    pub proof fn lemma_changed_children_collide<P: CRH>(
        self,
        other: TriePathView,
        parameters: P,
        level: int,
        c1: Digest,
        c2: Digest,
    )
        requires
            0 <= level < self.path.len(),
            self.well_formed(),
            other.well_formed(),
            self.path.len() == other.path.len(),
            self.parents[level] == other.parents[level],
            forall|l: int| level < l < self.path.len() ==> same_level(self, other, l),
            self.children_at(level, c1) != other.children_at(level, c2),
            self.root_from(parameters, level, c1) is Ok,
            self.root_from(parameters, level, c1) == other.root_from(parameters, level, c2),
        ensures
            has_collision(parameters),
        decreases self.path.len() - level, 0int,
    {
        let k1 = self.children_at(level, c1);
        let k2 = other.children_at(level, c2);
        let key = self.parents[level].0;
        let value = self.parents[level].1;
        let a = node_preimage(key, value, k1);
        let b = node_preimage(key, value, k2);
        if a == b {
            lemma_node_preimage_children(key, value, k1, k2);
        }
        let d1 = parameters.hash_spec(a);
        let d2 = parameters.hash_spec(b);
        assert(self.parent_digest(parameters, level, c1) is Ok);
        assert(other.parent_digest(parameters, level, c2) is Ok);
        if d1 == d2 {
            assert(is_collision(parameters, a, b));
        } else {
            let p1 = d1->Ok_0;
            let p2 = d2->Ok_0;
            self.lemma_climb_agree(other, parameters, level + 1, self.path.len() as int, p2);
            self.lemma_diverged_digests_collide(parameters, level + 1, p1, p2);
        }
    }

    /// Soundness in the leaf: a path that is accepted for one root and two
    /// different leaves shows a collision of the hash.
    pub proof fn lemma_two_leaves_collide<P: CRH>(
        self,
        parameters: P,
        root_hash: Digest,
        k1: Seq<u8>,
        v1: Seq<u8>,
        k2: Seq<u8>,
        v2: Seq<u8>,
    )
        requires
            k1 != k2 || v1 != v2,
            k1.len() <= u64::MAX,
            v1.len() <= u64::MAX,
            k2.len() <= u64::MAX,
            v2.len() <= u64::MAX,
            self.verify_spec(parameters, root_hash, k1, v1) == Ok::<bool, MerkleTrieError>(true),
            self.verify_spec(parameters, root_hash, k2, v2) == Ok::<bool, MerkleTrieError>(true),
        ensures
            has_collision(parameters),
    {
        self.lemma_malformation();
        let a = node_preimage(k1, Some(v1), Seq::empty());
        let b = node_preimage(k2, Some(v2), Seq::empty());
        if a == b {
            lemma_node_preimage_injective(k1, Some(v1), Seq::empty(), k2, Some(v2), Seq::empty());
        }
        let l1 = hash_leaf_spec(parameters, k1, v1);
        let l2 = hash_leaf_spec(parameters, k2, v2);
        if parameters.hash_spec(a) == parameters.hash_spec(b) {
            assert(is_collision(parameters, a, b));
        } else {
            self.lemma_diverged_digests_collide(parameters, 0, l1->Ok_0, l2->Ok_0);
        }
    }

    /// Soundness in the value: a path that is accepted for one root and one
    /// key with two different values shows a collision of the hash.
    pub proof fn lemma_two_values_collide<P: CRH>(
        self,
        parameters: P,
        root_hash: Digest,
        key: Seq<u8>,
        v1: Seq<u8>,
        v2: Seq<u8>,
    )
        requires
            v1 != v2,
            key.len() <= u64::MAX,
            v1.len() <= u64::MAX,
            v2.len() <= u64::MAX,
            self.verify_spec(parameters, root_hash, key, v1) == Ok::<bool, MerkleTrieError>(true),
            self.verify_spec(parameters, root_hash, key, v2) == Ok::<bool, MerkleTrieError>(true),
        ensures
            has_collision(parameters),
    {
        self.lemma_two_leaves_collide(parameters, root_hash, key, v1, key, v2);
    }

    /// The digest that enters `level` when the path is climbed from the leaf
    /// `(key, value)`.
    pub open spec fn entering<P: CRH>(self, parameters: P, level: int, key: Seq<u8>, value: Seq<u8>) -> Result<
        Digest,
        MerkleTrieError,
    > {
        match hash_leaf_spec(parameters, key, value) {
            Ok(leaf) => self.climb(parameters, 0, level, leaf),
            Err(e) => Err(e),
        }
    }

    /// Soundness in the path: two paths that differ in what they say of one
    /// level only, in the siblings or in the traversal index but not in the
    /// parent, and so that the parent gets other children, cannot both be
    /// accepted for one root and one leaf unless the hash has a collision.
    pub proof fn lemma_two_paths_collide<P: CRH>(
        self,
        other: TriePathView,
        parameters: P,
        level: int,
        root_hash: Digest,
        key: Seq<u8>,
        value: Seq<u8>,
    )
        requires
            0 <= level < self.path.len(),
            self.path.len() == other.path.len(),
            forall|l: int| 0 <= l < self.path.len() && l != level ==> same_level(self, other, l),
            self.parents[level] == other.parents[level],
            self.entering(parameters, level, key, value) matches Ok(current) ==> self.children_at(
                level,
                current,
            ) != other.children_at(level, current),
            self.verify_spec(parameters, root_hash, key, value) == Ok::<bool, MerkleTrieError>(true),
            other.verify_spec(parameters, root_hash, key, value) == Ok::<bool, MerkleTrieError>(true),
        ensures
            has_collision(parameters),
    {
        self.lemma_malformation();
        other.lemma_malformation();
        let top = self.path.len() as int;
        let leaf = hash_leaf_spec(parameters, key, value)->Ok_0;
        self.lemma_climb_split(parameters, 0, level, top, leaf);
        other.lemma_climb_split(parameters, 0, level, top, leaf);
        self.lemma_climb_agree(other, parameters, 0, level, leaf);
        let current = self.climb(parameters, 0, level, leaf)->Ok_0;
        self.lemma_changed_children_collide(other, parameters, level, current, current);
    }

    /// Soundness in a sibling: a path and the same path with one sibling
    /// digest replaced by another cannot both be accepted for one root and
    /// one leaf unless the hash has a collision.
    pub proof fn lemma_flipped_sibling_collides<P: CRH>(
        self,
        other: TriePathView,
        parameters: P,
        level: int,
        sibling: int,
        root_hash: Digest,
        key: Seq<u8>,
        value: Seq<u8>,
    )
        requires
            0 <= level < self.path.len(),
            0 <= sibling < self.path[level].len(),
            other.parents == self.parents,
            other.traversal == self.traversal,
            other.path.len() == self.path.len(),
            forall|l: int| 0 <= l < self.path.len() && l != level ==> other.path[l] == self.path[l],
            other.path[level].len() == self.path[level].len(),
            other.path[level][sibling] != self.path[level][sibling],
            self.verify_spec(parameters, root_hash, key, value) == Ok::<bool, MerkleTrieError>(true),
            other.verify_spec(parameters, root_hash, key, value) == Ok::<bool, MerkleTrieError>(true),
        ensures
            has_collision(parameters),
    {
        self.lemma_malformation();
        assert(self.in_bounds(level));
        let place = self.traversal[level] as int;
        let moved = if sibling < place {
            sibling
        } else {
            sibling + 1
        };
        assert forall|current: Digest|
            self.children_at(level, current) != other.children_at(level, current) by {
            assert(self.children_at(level, current)[moved] == self.path[level][sibling]);
            assert(other.children_at(level, current)[moved] == other.path[level][sibling]);
        }
        self.lemma_two_paths_collide(other, parameters, level, root_hash, key, value);
    }

    /// Soundness in the traversal: a path and the same path with the digest
    /// from below put in another place among the siblings of one level
    /// cannot both be accepted for one root and one leaf, unless the hash has
    /// a collision or the parent gets the same children either way.
    pub proof fn lemma_moved_traversal_collides<P: CRH>(
        self,
        other: TriePathView,
        parameters: P,
        level: int,
        root_hash: Digest,
        key: Seq<u8>,
        value: Seq<u8>,
    )
        requires
            0 <= level < self.path.len(),
            other.parents == self.parents,
            other.path == self.path,
            other.traversal.len() == self.traversal.len(),
            forall|l: int|
                0 <= l < self.path.len() && l != level ==> other.traversal[l] == self.traversal[l],
            self.verify_spec(parameters, root_hash, key, value) == Ok::<bool, MerkleTrieError>(true),
            other.verify_spec(parameters, root_hash, key, value) == Ok::<bool, MerkleTrieError>(true),
        ensures
            has_collision(parameters) || (self.entering(parameters, level, key, value) matches Ok(
                current,
            ) && self.children_at(level, current) == other.children_at(level, current)),
    {
        self.lemma_malformation();
        let leaf = hash_leaf_spec(parameters, key, value)->Ok_0;
        self.lemma_climb_split(parameters, 0, level, self.path.len() as int, leaf);
        let current = self.climb(parameters, 0, level, leaf)->Ok_0;
        if self.children_at(level, current) != other.children_at(level, current) {
            self.lemma_two_paths_collide(other, parameters, level, root_hash, key, value);
        }
    }

    /// Two paths that differ in their traversal indices at most, climbed
    /// from `level` on with different digests, show a collision of the hash
    /// when they end in the same digest.
    pub proof fn lemma_diverged_traversals_collide<P: CRH>(
        self,
        other: TriePathView,
        parameters: P,
        level: int,
        c1: Digest,
        c2: Digest,
    )
        requires
            0 <= level,
            self.well_formed(),
            other.well_formed(),
            same_but_traversal(self, other),
            c1 != c2,
            self.root_from(parameters, level, c1) is Ok,
            self.root_from(parameters, level, c1) == other.root_from(parameters, level, c2),
        ensures
            has_collision(parameters),
        decreases self.path.len() - level,
    {
        if level < self.path.len() {
            assert(self.in_bounds(level));
            assert(other.in_bounds(level));
            let k1 = self.children_at(level, c1);
            let k2 = other.children_at(level, c2);
            lemma_inserts_differ(
                self.path[level],
                self.traversal[level] as int,
                c1,
                other.traversal[level] as int,
                c2,
            );
            let key = self.parents[level].0;
            let value = self.parents[level].1;
            let a = node_preimage(key, value, k1);
            let b = node_preimage(key, value, k2);
            if a == b {
                lemma_node_preimage_children(key, value, k1, k2);
            }
            let d1 = parameters.hash_spec(a);
            let d2 = parameters.hash_spec(b);
            assert(self.parent_digest(parameters, level, c1) is Ok);
            assert(other.parent_digest(parameters, level, c2) is Ok);
            if d1 == d2 {
                assert(is_collision(parameters, a, b));
            } else {
                self.lemma_diverged_traversals_collide(other, parameters, level + 1, d1->Ok_0, d2->Ok_0);
            }
        }
    }

    /// Whether two paths give the parent at `level` the same children when
    /// they are climbed from `leaf`: the same digest enters the level on
    /// both, and it comes to stand among the same digests in the same
    /// place.
    pub open spec fn same_children_at<P: CRH>(
        self,
        other: TriePathView,
        parameters: P,
        level: int,
        leaf: Digest,
    ) -> bool {
        &&& self.climb(parameters, 0, level, leaf) is Ok
        &&& other.climb(parameters, 0, level, leaf) == self.climb(parameters, 0, level, leaf)
        &&& other.children_at(level, self.climb(parameters, 0, level, leaf)->Ok_0) == self.children_at(
            level,
            self.climb(parameters, 0, level, leaf)->Ok_0,
        )
    }

    /// The step of `lemma_two_traversals_collide` from `level` on.
    proof fn lemma_same_children_from<P: CRH>(
        self,
        other: TriePathView,
        parameters: P,
        leaf: Digest,
        level: int,
        current: Digest,
    )
        requires
            0 <= level <= self.path.len(),
            self.well_formed(),
            other.well_formed(),
            same_but_traversal(self, other),
            self.climb(parameters, 0, level, leaf) == Ok::<Digest, MerkleTrieError>(current),
            other.climb(parameters, 0, level, leaf) == Ok::<Digest, MerkleTrieError>(current),
            self.root_from(parameters, level, current) is Ok,
            self.root_from(parameters, level, current) == other.root_from(parameters, level, current),
        ensures
            has_collision(parameters) || forall|l: int|
                level <= l < self.path.len() ==> #[trigger] self.same_children_at(other, parameters, l, leaf),
        decreases self.path.len() - level,
    {
        if level < self.path.len() {
            let k1 = self.children_at(level, current);
            let k2 = other.children_at(level, current);
            let key = self.parents[level].0;
            let value = self.parents[level].1;
            let a = node_preimage(key, value, k1);
            let b = node_preimage(key, value, k2);
            let d1 = parameters.hash_spec(a);
            let d2 = parameters.hash_spec(b);
            assert(self.parent_digest(parameters, level, current) is Ok);
            assert(other.parent_digest(parameters, level, current) is Ok);
            if k1 != k2 {
                if a == b {
                    lemma_node_preimage_children(key, value, k1, k2);
                }
                if d1 == d2 {
                    assert(is_collision(parameters, a, b));
                } else {
                    self.lemma_diverged_traversals_collide(other, parameters, level + 1, d1->Ok_0, d2->Ok_0);
                }
            } else {
                let parent = d1->Ok_0;
                self.lemma_climb_split(parameters, 0, level, level + 1, leaf);
                other.lemma_climb_split(parameters, 0, level, level + 1, leaf);
                assert(self.climb(parameters, level + 1, level + 1, parent) == Ok::<Digest, MerkleTrieError>(
                    parent,
                ));
                assert(other.climb(parameters, level + 1, level + 1, parent) == Ok::<
                    Digest,
                    MerkleTrieError,
                >(parent));
                assert(self.climb(parameters, level, level + 1, current) == Ok::<Digest, MerkleTrieError>(
                    parent,
                ));
                assert(other.climb(parameters, level, level + 1, current) == Ok::<Digest, MerkleTrieError>(
                    parent,
                ));
                self.lemma_same_children_from(other, parameters, leaf, level + 1, parent);
                assert(self.same_children_at(other, parameters, level, leaf));
            }
        }
    }

    /// Soundness in the traversal, for indices changed at any number of
    /// levels: two paths that differ in their traversal indices at most and
    /// are both accepted for one root and one leaf show a collision of the
    /// hash, unless they give every parent the same children.
    pub proof fn lemma_two_traversals_collide<P: CRH>(
        self,
        other: TriePathView,
        parameters: P,
        root_hash: Digest,
        key: Seq<u8>,
        value: Seq<u8>,
    )
        requires
            same_but_traversal(self, other),
            self.verify_spec(parameters, root_hash, key, value) == Ok::<bool, MerkleTrieError>(true),
            other.verify_spec(parameters, root_hash, key, value) == Ok::<bool, MerkleTrieError>(true),
        ensures
            has_collision(parameters) || forall|l: int|
                0 <= l < self.path.len() ==> #[trigger] self.same_children_at(
                    other,
                    parameters,
                    l,
                    hash_leaf_spec(parameters, key, value)->Ok_0,
                ),
    {
        self.lemma_malformation();
        other.lemma_malformation();
        let leaf = hash_leaf_spec(parameters, key, value)->Ok_0;
        self.lemma_same_children_from(other, parameters, leaf, 0, leaf);
    }

    /// A path that is accepted for a root and a leaf is not accepted for them
    /// once traversal indices are changed, at one level or at several, so
    /// that some parent gets other children, unless the hash has a
    /// collision.
    pub proof fn lemma_changed_traversals_not_accepted<P: CRH>(
        self,
        other: TriePathView,
        parameters: P,
        level: int,
        root_hash: Digest,
        key: Seq<u8>,
        value: Seq<u8>,
    )
        requires
            same_but_traversal(self, other),
            0 <= level < self.path.len(),
            !self.same_children_at(other, parameters, level, hash_leaf_spec(parameters, key, value)->Ok_0),
            self.verify_spec(parameters, root_hash, key, value) == Ok::<bool, MerkleTrieError>(true),
            !has_collision(parameters),
        ensures
            other.verify_spec(parameters, root_hash, key, value) != Ok::<bool, MerkleTrieError>(true),
    {
        if other.verify_spec(parameters, root_hash, key, value) == Ok::<bool, MerkleTrieError>(true) {
            self.lemma_two_traversals_collide(other, parameters, root_hash, key, value);
        }
    }
}

} // verus!
