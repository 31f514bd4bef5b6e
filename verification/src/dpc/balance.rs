//! Conservation of value.

use vstd::prelude::*;
use crate::dpc::record::Record;

verus! {

/// The sum of `values`.
pub open spec fn total(values: Seq<u64>) -> int
    decreases values.len(),
{
    if values.len() == 0 {
        0
    } else {
        total(values.drop_last()) + values.last()
    }
}

/// The values of `records`, in their order.
pub open spec fn record_values(records: Seq<Record>) -> Seq<u64> {
    Seq::new(records.len(), |i: int| records[i].value)
}

/// The value balance of a transaction with these input and output values:
/// the inputs less the outputs, computed in signed 64-bit arithmetic by
/// adding the inputs one by one and then taking off the outputs one by one.
/// `None` where a value or an intermediate result does not fit.
pub open spec fn value_balance_spec(inputs: Seq<u64>, outputs: Seq<u64>) -> Option<int> {
    if total(inputs) <= i64::MAX && (forall|j: int| 0 <= j < outputs.len() ==> outputs[j] <= i64::MAX)
        && total(inputs) - total(outputs) >= i64::MIN {
        Some(total(inputs) - total(outputs))
    } else {
        None
    }
}

/// Whether `declared` is the value balance of the transaction.
pub open spec fn value_balance_holds(inputs: Seq<u64>, outputs: Seq<u64>, declared: i64) -> bool {
    value_balance_spec(inputs, outputs) == Some(declared as int)
}

/// A sum of amounts is not negative.
pub proof fn lemma_total_nonnegative(values: Seq<u64>)
    ensures
        total(values) >= 0,
    decreases values.len(),
{
    if values.len() > 0 {
        lemma_total_nonnegative(values.drop_last());
    }
}

/// The sum of the first `n` values is at most the sum of all.
pub proof fn lemma_total_prefix(values: Seq<u64>, n: int)
    requires
        0 <= n <= values.len(),
    ensures
        total(values.take(n)) <= total(values),
    decreases values.len() - n,
{
    if n < values.len() {
        lemma_total_prefix(values, n + 1);
        assert(values.take(n + 1).drop_last() == values.take(n));
    } else {
        assert(values.take(n) == values);
    }
}

/// The sum of values that are all zero is zero.
pub proof fn lemma_total_of_zeros(values: Seq<u64>)
    requires
        forall|i: int| 0 <= i < values.len() ==> values[i] == 0,
    ensures
        total(values) == 0,
    decreases values.len(),
{
    if values.len() > 0 {
        lemma_total_of_zeros(values.drop_last());
    }
}

/// A transaction whose outputs sum to what its inputs sum to balances at
/// zero, provided that the sum fits into a signed 64-bit integer.
pub proof fn lemma_equal_sums_balance_at_zero(inputs: Seq<u64>, outputs: Seq<u64>)
    requires
        total(inputs) == total(outputs),
        total(inputs) <= i64::MAX,
    ensures
        value_balance_holds(inputs, outputs, 0),
{
    assert forall|j: int| 0 <= j < outputs.len() implies outputs[j] <= i64::MAX by {
        lemma_total_prefix(outputs, j + 1);
        lemma_total_nonnegative(outputs.take(j));
        assert(outputs.take(j + 1).drop_last() == outputs.take(j));
        assert(outputs.take(j + 1).last() == outputs[j]);
    }
}

/// A declared balance that is not the inputs less the outputs, be it off by
/// one unit only, does not hold.
pub proof fn lemma_wrong_balance_rejected(inputs: Seq<u64>, outputs: Seq<u64>, declared: i64)
    requires
        declared != total(inputs) - total(outputs),
    ensures
        !value_balance_holds(inputs, outputs, declared),
{
}

/// A transaction in which no record has a value, as when all of them are
/// dummies, balances at zero.
pub proof fn lemma_no_value_balances_at_zero(inputs: Seq<u64>, outputs: Seq<u64>)
    requires
        forall|i: int| 0 <= i < inputs.len() ==> inputs[i] == 0,
        forall|j: int| 0 <= j < outputs.len() ==> outputs[j] == 0,
    ensures
        value_balance_holds(inputs, outputs, 0),
{
    lemma_total_of_zeros(inputs);
    lemma_total_of_zeros(outputs);
}

/// Checks that `declared` is the value of `inputs` less the value of
/// `outputs`, in signed 64-bit arithmetic without wraparound.
pub fn check_value_balance(inputs: &Vec<Record>, outputs: &Vec<Record>, declared: i64) -> (holds: bool)
    ensures
        holds == value_balance_holds(record_values(inputs@), record_values(outputs@), declared),
{
    let ghost ins = record_values(inputs@);
    let ghost outs = record_values(outputs@);
    let mut candidate: i64 = 0;
    let mut i: usize = 0;
    while i < inputs.len()
        invariant
            i <= inputs@.len(),
            ins == record_values(inputs@),
            candidate == total(ins.take(i as int)),
        decreases inputs@.len() - i,
    {
        let value = inputs[i].value;
        proof {
            assert(ins.take(i + 1).drop_last() == ins.take(i as int));
            assert(ins.take(i + 1).last() == value);
            assert(total(ins.take(i + 1)) == total(ins.take(i as int)) + value);
            lemma_total_prefix(ins, i + 1);
            lemma_total_nonnegative(ins.take(i as int));
        }
        if value > 0x7fff_ffff_ffff_ffff {
            return false;
        }
        candidate = match candidate.checked_add(value as i64) {
            Some(sum) => sum,
            None => {
                return false;
            },
        };
        i += 1;
    }
    assert(ins.take(inputs@.len() as int) == ins);
    let mut j: usize = 0;
    while j < outputs.len()
        invariant
            j <= outputs@.len(),
            ins == record_values(inputs@),
            outs == record_values(outputs@),
            total(ins) <= i64::MAX,
            forall|k: int| 0 <= k < j ==> outs[k] <= i64::MAX,
            candidate == total(ins) - total(outs.take(j as int)),
        decreases outputs@.len() - j,
    {
        let value = outputs[j].value;
        proof {
            assert(outs.take(j + 1).drop_last() == outs.take(j as int));
            assert(outs.take(j + 1).last() == value);
            assert(total(outs.take(j + 1)) == total(outs.take(j as int)) + value);
            lemma_total_prefix(outs, j + 1);
        }
        if value > 0x7fff_ffff_ffff_ffff {
            assert(outs[j as int] > i64::MAX);
            return false;
        }
        candidate = match candidate.checked_sub(value as i64) {
            Some(difference) => difference,
            None => {
                return false;
            },
        };
        j += 1;
    }
    assert(outs.take(outputs@.len() as int) == outs);
    candidate == declared
}

} // verus!
