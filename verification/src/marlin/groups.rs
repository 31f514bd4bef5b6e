//! Values grouped by circuit, the groups in the order of the circuits.

use vstd::prelude::*;
use crate::marlin::circuit_id::{lemma_order_is_total, lemma_order_is_transitive, precedes, CircuitId};

verus! {

/// Lists of values, one per circuit: list `k` belongs to circuit `ids[k]`.
pub struct Groups<F> {
    pub ids: Seq<CircuitId>,
    pub lists: Seq<Seq<F>>,
}

/// Whether `ids` ascends strictly.
pub open spec fn ascending(ids: Seq<CircuitId>) -> bool {
    forall|i: int, j: int| 0 <= i < j < ids.len() ==> precedes(#[trigger] ids[i], #[trigger] ids[j])
}

/// The first place at or behind `from` whose identifier does not come before
/// `id`: there `id` stands, or belongs.
pub open spec fn place_from(ids: Seq<CircuitId>, id: CircuitId, from: int) -> int
    decreases ids.len() - from,
{
    if from < 0 || from >= ids.len() {
        ids.len() as int
    } else if precedes(ids[from], id) {
        place_from(ids, id, from + 1)
    } else {
        from
    }
}

/// The place of `id` among `ids`.
pub open spec fn place(ids: Seq<CircuitId>, id: CircuitId) -> int {
    place_from(ids, id, 0)
}

/// Whether `id` has a group among `ids`.
pub open spec fn has_group(ids: Seq<CircuitId>, id: CircuitId) -> bool {
    place(ids, id) < ids.len() && ids[place(ids, id)] == id
}

impl<F> Groups<F> {
    /// No groups.
    pub open spec fn empty() -> Groups<F> {
        Groups { ids: Seq::empty(), lists: Seq::empty() }
    }

    /// Whether there is one list per identifier and the identifiers ascend
    /// strictly.
    pub open spec fn well_formed(self) -> bool {
        &&& self.ids.len() == self.lists.len()
        &&& ascending(self.ids)
    }

    /// The groups with `value` added to the group of `id`: at the end of
    /// its list where the circuit has one, else as a new list in the place
    /// where `id` belongs.
    pub open spec fn add(self, id: CircuitId, value: F) -> Groups<F> {
        let k = place(self.ids, id);
        if has_group(self.ids, id) {
            Groups { ids: self.ids, lists: self.lists.update(k, self.lists[k].push(value)) }
        } else {
            Groups { ids: self.ids.insert(k, id), lists: self.lists.insert(k, seq![value]) }
        }
    }

    /// Adding a value keeps the groups well formed.
    pub proof fn lemma_add_well_formed(self, id: CircuitId, value: F)
        requires
            self.well_formed(),
        ensures
            self.add(id, value).well_formed(),
    {
        let k = place(self.ids, id);
        lemma_place(self.ids, id, 0);
        if !has_group(self.ids, id) {
            let ids = self.ids.insert(k, id);
            assert forall|i: int, j: int| 0 <= i < j < ids.len() implies precedes(
                #[trigger] ids[i],
                #[trigger] ids[j],
            ) by {
                if j == k {
                    assert(ids[i] == self.ids[i]);
                } else if i == k {
                    assert(ids[j] == self.ids[j - 1]);
                    lemma_order_is_total(self.ids[k], id);
                    if j - 1 > k {
                        lemma_order_is_transitive(id, self.ids[k], self.ids[j - 1]);
                    }
                } else {
                    let a = if i < k {
                        i
                    } else {
                        i - 1
                    };
                    let b = if j < k {
                        j
                    } else {
                        j - 1
                    };
                    assert(ids[i] == self.ids[a]);
                    assert(ids[j] == self.ids[b]);
                }
            }
        }
    }
}

/// Every identifier between `from` and the place of `id` comes before `id`,
/// and the one at its place does not.
pub proof fn lemma_place(ids: Seq<CircuitId>, id: CircuitId, from: int)
    requires
        0 <= from <= ids.len(),
    ensures
        from <= place_from(ids, id, from) <= ids.len(),
        forall|i: int| from <= i < place_from(ids, id, from) ==> precedes(#[trigger] ids[i], id),
        place_from(ids, id, from) < ids.len() ==> !precedes(ids[place_from(ids, id, from)], id),
    decreases ids.len() - from,
{
    if from < ids.len() && precedes(ids[from], id) {
        lemma_place(ids, id, from + 1);
    }
}

/// What a list of lists holds.
pub open spec fn lists_view<F>(lists: Seq<Vec<F>>) -> Seq<Seq<F>> {
    Seq::new(lists.len(), |i: int| lists[i]@)
}

/// Finds the place of `id` among `ids`.
pub(crate) fn find_place(ids: &Vec<CircuitId>, id: &CircuitId) -> (k: usize)
    ensures
        k == place(ids@, *id),
        k <= ids@.len(),
{
    let mut k: usize = 0;
    while k < ids.len()
        invariant
            k <= ids@.len(),
            place(ids@, *id) == place_from(ids@, *id, k as int),
        decreases ids@.len() - k,
    {
        if !ids[k].lt(id) {
            return k;
        }
        k += 1;
    }
    k
}

/// Adds `value` to the list that is known to stand at `k`.
pub(crate) fn push_to_list<F>(lists: &mut Vec<Vec<F>>, k: usize, value: F)
    requires
        k < old(lists)@.len(),
    ensures
        lists_view(final(lists)@) == lists_view(old(lists)@).update(
            k as int,
            old(lists)@[k as int]@.push(value),
        ),
{
    let mut list = lists.remove(k);
    list.push(value);
    lists.insert(k, list);
    assert(lists_view(lists@) =~= lists_view(old(lists)@).update(
        k as int,
        old(lists)@[k as int]@.push(value),
    ));
}

/// Puts a new list that holds `value` at `k`.
pub(crate) fn insert_list<F>(lists: &mut Vec<Vec<F>>, k: usize, value: F)
    requires
        k <= old(lists)@.len(),
    ensures
        lists_view(final(lists)@) == lists_view(old(lists)@).insert(k as int, seq![value]),
{
    let mut list: Vec<F> = Vec::new();
    list.push(value);
    lists.insert(k, list);
    assert(lists_view(lists@) =~= lists_view(old(lists)@).insert(k as int, seq![value]));
}

} // verus!
