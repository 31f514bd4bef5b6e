//! Consistency of program ids: the records in use belong to the executable
//! program, and the padding behind them to none.

use vstd::prelude::*;
use crate::bytes::{field_elements, same_field_elements};
use crate::dpc::record::Record;

verus! {

/// The program ids of `records`, in their order.
pub open spec fn record_program_ids(records: Seq<Record>) -> Seq<Seq<u8>> {
    Seq::new(records.len(), |i: int| records[i].program_id@)
}

/// Whether `id` is what the record at `index` has to carry: the id of the
/// executable up to `count`, the reserved id from there on. Ids are compared
/// as field elements.
pub open spec fn program_id_fits(
    id: Seq<u8>,
    index: int,
    count: int,
    executable: Seq<u8>,
    noop: Seq<u8>,
) -> bool {
    if index < count {
        field_elements(id) == field_elements(executable)
    } else {
        field_elements(id) == field_elements(noop)
    }
}

/// Whether a list of program ids is consistent with an executable that uses
/// `count` records out of the `capacity` that the network allows: `count` is
/// within `capacity`, and every id is what its place asks for.
pub open spec fn program_ids_consistent(
    ids: Seq<Seq<u8>>,
    executable: Seq<u8>,
    noop: Seq<u8>,
    count: int,
    capacity: int,
) -> bool {
    &&& count <= capacity
    &&& forall|i: int| 0 <= i < ids.len() ==> program_id_fits(ids[i], i, count, executable, noop)
}

/// A record behind the count that does not carry the reserved id makes the
/// list inconsistent.
pub proof fn lemma_padding_must_be_noop(
    ids: Seq<Seq<u8>>,
    executable: Seq<u8>,
    noop: Seq<u8>,
    count: int,
    capacity: int,
    index: int,
)
    requires
        0 <= index < ids.len(),
        count <= index,
        field_elements(ids[index]) != field_elements(noop),
    ensures
        !program_ids_consistent(ids, executable, noop, count, capacity),
{
    assert(!program_id_fits(ids[index], index, count, executable, noop));
}

/// A record within the count that does not carry the id of the executable
/// makes the list inconsistent.
pub proof fn lemma_used_must_be_executable(
    ids: Seq<Seq<u8>>,
    executable: Seq<u8>,
    noop: Seq<u8>,
    count: int,
    capacity: int,
    index: int,
)
    requires
        0 <= index < ids.len(),
        index < count,
        field_elements(ids[index]) != field_elements(executable),
    ensures
        !program_ids_consistent(ids, executable, noop, count, capacity),
{
    assert(!program_id_fits(ids[index], index, count, executable, noop));
}

/// A count beyond the capacity makes the list inconsistent.
pub proof fn lemma_count_within_capacity(
    ids: Seq<Seq<u8>>,
    executable: Seq<u8>,
    noop: Seq<u8>,
    count: int,
    capacity: int,
)
    requires
        count > capacity,
    ensures
        !program_ids_consistent(ids, executable, noop, count, capacity),
{
}

/// Checks the program ids of `records` against an executable that uses
/// `count` of them, on a network that allows `capacity`.
pub fn check_program_ids(
    records: &Vec<Record>,
    executable: &[u8],
    noop: &[u8],
    count: u8,
    capacity: usize,
) -> (consistent: bool)
    ensures
        consistent == program_ids_consistent(
            record_program_ids(records@),
            executable@,
            noop@,
            count as int,
            capacity as int,
        ),
{
    let ghost ids = record_program_ids(records@);
    if count as usize > capacity {
        return false;
    }
    let mut i: usize = 0;
    while i < records.len()
        invariant
            i <= records@.len(),
            ids == record_program_ids(records@),
            count <= capacity,
            forall|k: int|
                0 <= k < i ==> program_id_fits(#[trigger] ids[k], k, count as int, executable@, noop@),
        decreases records@.len() - i,
    {
        let id = records[i].program_id.as_slice();
        assert(id@ == ids[i as int]);
        let expected = if i < count as usize {
            executable
        } else {
            noop
        };
        if !same_field_elements(id, expected) {
            assert(!program_id_fits(ids[i as int], i as int, count as int, executable@, noop@));
            return false;
        }
        i += 1;
    }
    true
}

} // verus!
