//! The public and private variables of the transaction predicate.

use vstd::prelude::*;
use crate::bytes::{is_zero_digest, zero_digest, Digest};
use crate::dpc::kernel::TransactionKernel;
use crate::dpc::record::Record;
use crate::merkle_trie::merkle_path::{levels_view, TriePathView};
use crate::traits::Network;

verus! {

/// The witness that a commitment is on the ledger: the key under which the
/// ledger's trie stores it, and the path from there to the root.
#[derive(Clone, Debug, PartialEq, Eq)]
pub struct LedgerWitness {
    pub key: Vec<u8>,
    pub path: Vec<Vec<Digest>>,
    pub parents: Vec<(Vec<u8>, Option<Vec<u8>>)>,
    pub traversal: Vec<usize>,
}

impl LedgerWitness {
    /// The levels of the path.
    pub open spec fn levels(&self) -> TriePathView {
        levels_view(self.path@, self.parents@, self.traversal@)
    }

    /// Whether the witness is the blank one: no key and no levels.
    pub open spec fn is_blank(&self) -> bool {
        &&& self.key@.len() == 0
        &&& self.path@.len() == 0
        &&& self.parents@.len() == 0
        &&& self.traversal@.len() == 0
    }

    /// The witness without key and levels.
    pub fn blank() -> (witness: LedgerWitness)
        ensures
            witness.is_blank(),
    {
        LedgerWitness { key: Vec::new(), path: Vec::new(), parents: Vec::new(), traversal: Vec::new() }
    }
}

/// What the verifier of a transaction knows.
#[derive(Clone, Debug, PartialEq, Eq)]
pub struct InnerPublicVariables {
    /// The id of the transaction.
    pub transaction_id: Digest,
    /// The root of the ledger that the spent records are on.
    pub ledger_digest: Digest,
    /// The ids of the encryptions of the output records, in their order.
    pub encrypted_record_ids: Vec<Digest>,
    /// The id of the executable program.
    pub program_id: Option<Vec<u8>>,
}

/// What only the author of a transaction knows.
#[derive(Clone, Debug, PartialEq, Eq)]
pub struct InnerPrivateVariables {
    /// The kernel of the transaction.
    pub kernel: TransactionKernel,
    /// The records that are spent.
    pub input_records: Vec<Record>,
    /// For each input record, the witness that it is on the ledger.
    pub input_witnesses: Vec<LedgerWitness>,
    /// For each input record, its owner's signature on the kernel.
    pub signatures: Vec<Vec<u8>>,
    /// The records that are created.
    pub output_records: Vec<Record>,
    /// For each output record, the randomness of its encryption.
    pub encrypted_record_randomizers: Vec<Vec<u8>>,
    /// The number of input records that the executable uses.
    pub number_of_inputs: u8,
    /// The number of output records that the executable uses.
    pub number_of_outputs: u8,
}

/// Whether every digest of `digests` is zero and there are `count` of them.
pub open spec fn zero_digests(digests: Seq<Digest>, count: int) -> bool {
    &&& digests.len() == count
    &&& forall|i: int| 0 <= i < digests.len() ==> is_zero_digest(#[trigger] digests[i])
}

/// Whether every byte string of `strings` is empty and there are `count` of
/// them.
pub open spec fn empty_strings(strings: Seq<Vec<u8>>, count: int) -> bool {
    &&& strings.len() == count
    &&& forall|i: int| 0 <= i < strings.len() ==> (#[trigger] strings[i])@.len() == 0
}

/// A list of `count` zero digests.
pub fn make_zero_digests(count: usize) -> (digests: Vec<Digest>)
    ensures
        zero_digests(digests@, count as int),
{
    let mut digests: Vec<Digest> = Vec::new();
    let mut i: usize = 0;
    while i < count
        invariant
            i <= count,
            zero_digests(digests@, i as int),
        decreases count - i,
    {
        digests.push(zero_digest());
        i += 1;
    }
    digests
}

/// A list of `count` empty byte strings.
pub fn make_empty_strings(count: usize) -> (strings: Vec<Vec<u8>>)
    ensures
        empty_strings(strings@, count as int),
{
    let mut strings: Vec<Vec<u8>> = Vec::new();
    let mut i: usize = 0;
    while i < count
        invariant
            i <= count,
            empty_strings(strings@, i as int),
        decreases count - i,
    {
        strings.push(Vec::new());
        i += 1;
    }
    strings
}

/// Whether `records` are `count` blank records of the network.
pub open spec fn blank_records<N: Network>(records: Seq<Record>, count: int) -> bool {
    &&& records.len() == count
    &&& forall|i: int| 0 <= i < records.len() ==> (#[trigger] records[i]).is_blank::<N>()
}

/// A list of `count` blank records.
pub fn make_blank_records<N: Network>(count: usize) -> (records: Vec<Record>)
    ensures
        blank_records::<N>(records@, count as int),
{
    let mut records: Vec<Record> = Vec::new();
    let mut i: usize = 0;
    while i < count
        invariant
            i <= count,
            blank_records::<N>(records@, i as int),
        decreases count - i,
    {
        records.push(Record::blank::<N>());
        i += 1;
    }
    records
}

impl InnerPublicVariables {
    /// Whether these are the blank public variables of the network: zero
    /// digests, one encrypted record id per output record of the network, and
    /// the reserved program id.
    pub open spec fn is_blank<N: Network>(&self) -> bool {
        &&& is_zero_digest(self.transaction_id)
        &&& is_zero_digest(self.ledger_digest)
        &&& zero_digests(self.encrypted_record_ids@, N::num_output_records_spec() as int)
        &&& self.program_id matches Some(id) && id@ == N::noop_program_id_spec()
    }

    /// The blank public variables of the network.
    pub fn blank<N: Network>() -> (public: InnerPublicVariables)
        ensures
            public.is_blank::<N>(),
    {
        InnerPublicVariables {
            transaction_id: zero_digest(),
            ledger_digest: zero_digest(),
            encrypted_record_ids: make_zero_digests(N::num_output_records()),
            program_id: Some(N::noop_program_id()),
        }
    }
}

impl InnerPrivateVariables {
    /// Whether these are the blank private variables of the network: as many
    /// blank records, witnesses, signatures and randomizers as the network
    /// has places for, and a kernel of zero digests that moves no value.
    pub open spec fn is_blank<N: Network>(&self) -> bool {
        let inputs = N::num_input_records_spec() as int;
        let outputs = N::num_output_records_spec() as int;
        &&& self.kernel.network_id == 0
        &&& zero_digests(self.kernel.serial_numbers@, inputs)
        &&& zero_digests(self.kernel.commitments@, outputs)
        &&& self.kernel.value_balance == 0
        &&& self.kernel.memo@.len() == 0
        &&& blank_records::<N>(self.input_records@, inputs)
        &&& self.input_witnesses@.len() == inputs
        &&& forall|i: int| 0 <= i < inputs ==> (#[trigger] self.input_witnesses@[i]).is_blank()
        &&& empty_strings(self.signatures@, inputs)
        &&& blank_records::<N>(self.output_records@, outputs)
        &&& empty_strings(self.encrypted_record_randomizers@, outputs)
        &&& self.number_of_inputs == 0
        &&& self.number_of_outputs == 0
    }

    /// The blank private variables of the network.
    pub fn blank<N: Network>() -> (private: InnerPrivateVariables)
        ensures
            private.is_blank::<N>(),
    {
        let inputs = N::num_input_records();
        let outputs = N::num_output_records();
        let mut input_witnesses: Vec<LedgerWitness> = Vec::new();
        let mut i: usize = 0;
        while i < inputs
            invariant
                i <= inputs,
                input_witnesses@.len() == i,
                forall|k: int| 0 <= k < i ==> (#[trigger] input_witnesses@[k]).is_blank(),
            decreases inputs - i,
        {
            input_witnesses.push(LedgerWitness::blank());
            i += 1;
        }
        InnerPrivateVariables {
            kernel: TransactionKernel::new(
                0,
                make_zero_digests(inputs),
                make_zero_digests(outputs),
                0,
                Vec::new(),
            ),
            input_records: make_blank_records::<N>(inputs),
            input_witnesses,
            signatures: make_empty_strings(inputs),
            output_records: make_blank_records::<N>(outputs),
            encrypted_record_randomizers: make_empty_strings(outputs),
            number_of_inputs: 0,
            number_of_outputs: 0,
        }
    }
}

} // verus!
