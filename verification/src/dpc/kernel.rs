//! The transaction kernel: what a transaction publishes, and what its id and
//! its signatures bind.

use vstd::prelude::*;
use crate::bytes::{
    append_balance,
    append_bytes,
    append_digests,
    append_network_id,
    balance_bytes,
    concat_digests,
    network_id_bytes,
    Digest,
};
use crate::errors::CRHError;
use crate::traits::{CRH, Network};

verus! {

/// The kernel of a transaction.
#[derive(Clone, Debug, PartialEq, Eq)]
pub struct TransactionKernel {
    /// The network that the transaction is for.
    pub network_id: u16,
    /// The serial numbers of the records that are spent, in their order.
    pub serial_numbers: Vec<Digest>,
    /// The commitments of the records that are created, in their order.
    pub commitments: Vec<Digest>,
    /// The value of the inputs less the value of the outputs.
    pub value_balance: i64,
    /// Free data.
    pub memo: Vec<u8>,
}

/// The bytes of a kernel with these fields: the network id, the serial
/// numbers, the commitments, the value balance and the memo, in this order.
pub open spec fn kernel_bytes(
    network_id: u16,
    serial_numbers: Seq<Digest>,
    commitments: Seq<Digest>,
    value_balance: i64,
    memo: Seq<u8>,
) -> Seq<u8> {
    network_id_bytes(network_id) + concat_digests(serial_numbers) + concat_digests(commitments)
        + balance_bytes(value_balance) + memo
}

impl TransactionKernel {
    /// The bytes of the kernel: the message that is signed, and the preimage
    /// of the transaction id.
    pub open spec fn message(&self) -> Seq<u8> {
        kernel_bytes(
            self.network_id,
            self.serial_numbers@,
            self.commitments@,
            self.value_balance,
            self.memo@,
        )
    }

    /// The id of the transaction: the digest of the kernel's bytes.
    pub open spec fn transaction_id_spec<N: Network>(&self) -> Result<Digest, CRHError> {
        N::transaction_id_crh_spec().hash_spec(self.message())
    }

    /// Makes a kernel from its fields.
    pub fn new(
        network_id: u16,
        serial_numbers: Vec<Digest>,
        commitments: Vec<Digest>,
        value_balance: i64,
        memo: Vec<u8>,
    ) -> (kernel: TransactionKernel)
        ensures
            kernel.network_id == network_id,
            kernel.serial_numbers == serial_numbers,
            kernel.commitments == commitments,
            kernel.value_balance == value_balance,
            kernel.memo == memo,
    {
        TransactionKernel { network_id, serial_numbers, commitments, value_balance, memo }
    }

    /// Writes out the bytes of the kernel.
    pub fn to_bytes(&self) -> (bytes: Vec<u8>)
        ensures
            bytes@ == self.message(),
    {
        let mut bytes: Vec<u8> = Vec::new();
        append_network_id(&mut bytes, self.network_id);
        assert(bytes@ == network_id_bytes(self.network_id));
        append_digests(&mut bytes, &self.serial_numbers);
        append_digests(&mut bytes, &self.commitments);
        append_balance(&mut bytes, self.value_balance);
        append_bytes(&mut bytes, self.memo.as_slice());
        bytes
    }

    /// Computes the id of the transaction.
    pub fn to_transaction_id<N: Network>(&self) -> (id: Result<Digest, CRHError>)
        ensures
            id == self.transaction_id_spec::<N>(),
    {
        let bytes = self.to_bytes();
        N::transaction_id_crh().hash(bytes.as_slice())
    }
}

} // verus!
