//! The evaluations of a proof.

use vstd::prelude::*;
use crate::marlin::label::{
    contains,
    contains_spec,
    find,
    find_spec,
    g_1_label,
    g_a_marker,
    g_b_marker,
    g_c_marker,
    lemma_find_from,
    occurs_at,
    parse_usize,
    parse_usize_spec,
    z_b_marker,
};
use crate::bytes::bytes_eq;
use crate::errors::SNARKError;
use crate::marlin::circuit_id::{from_witness_label_spec, CircuitId};
use crate::marlin::groups::{
    find_place,
    has_group,
    insert_list,
    lists_view,
    push_to_list,
    Groups,
};
use vstd::utf8::encode_utf8;
use vstd::string::StringSliceAdditionalSpecFns;

verus! {

/// Evaluations of some of the committed polynomials.
#[derive(Clone, Debug, PartialEq, Eq)]
pub struct Evaluations<F> {
    /// Evaluations of the `z_b` polynomials, one list per circuit with one
    /// entry per instance.
    pub z_b_evals: Vec<Vec<F>>,
    /// Evaluation of `g_1`.
    pub g_1_eval: F,
    /// Evaluations of the `g_a` polynomials, one per circuit.
    pub g_a_evals: Vec<F>,
    /// Evaluations of the `g_b` polynomials, one per circuit.
    pub g_b_evals: Vec<F>,
    /// Evaluations of the `g_c` polynomials, one per circuit.
    pub g_c_evals: Vec<F>,
}

/// What evaluations hold.
pub struct EvaluationsView<F> {
    pub z_b_evals: Seq<Seq<F>>,
    pub g_1_eval: F,
    pub g_a_evals: Seq<F>,
    pub g_b_evals: Seq<F>,
    pub g_c_evals: Seq<F>,
}

impl<F> View for Evaluations<F> {
    type V = EvaluationsView<F>;

    open spec fn view(&self) -> EvaluationsView<F> {
        EvaluationsView {
            z_b_evals: lists_view(self.z_b_evals@),
            g_1_eval: self.g_1_eval,
            g_a_evals: self.g_a_evals@,
            g_b_evals: self.g_b_evals@,
            g_c_evals: self.g_c_evals@,
        }
    }
}

/// The evaluations gathered from the labelled ones: those of the `z_b`
/// grouped by circuit, and those of the `g_a`, the `g_b` and the `g_c` in
/// the order in which they came.
pub struct Gathered<F> {
    pub z_b: Groups<F>,
    pub g_a: Seq<F>,
    pub g_b: Seq<F>,
    pub g_c: Seq<F>,
}

/// The labels and values of a list of labelled evaluations.
pub open spec fn entries_view<F>(map: Seq<(String, F)>) -> Seq<(Seq<u8>, F)> {
    Seq::new(map.len(), |i: int| (encode_utf8(map[i].0@), map[i].1))
}

/// The circuits that have a batch size.
pub open spec fn known_circuits(batch_sizes: Seq<(CircuitId, usize)>) -> Set<CircuitId> {
    Set::new(|id: CircuitId| exists|i: int| 0 <= i < batch_sizes.len() && #[trigger] batch_sizes[i].0 == id)
}

/// What is gathered once the evaluation `value` with label `label` is added
/// to `gathered`. The label has to name a circuit. A label that holds `z_b_`
/// adds to the group of its circuit, which has to have a batch size where
/// the group is new; one that holds `g_a`, `g_b` or `g_c` adds to that list;
/// any other adds nothing.
pub open spec fn gather_one<F>(
    gathered: Gathered<F>,
    label: Seq<u8>,
    value: F,
    known: Set<CircuitId>,
) -> Result<Gathered<F>, SNARKError> {
    match from_witness_label_spec(label) {
        None => Err(SNARKError::InvalidLabel),
        Some(id) => if contains_spec(label, z_b_marker()) {
            if has_group(gathered.z_b.ids, id) || known.contains(id) {
                Ok(Gathered { z_b: gathered.z_b.add(id, value), ..gathered })
            } else {
                Err(SNARKError::UnknownCircuit)
            }
        } else if contains_spec(label, g_a_marker()) {
            Ok(Gathered { g_a: gathered.g_a.push(value), ..gathered })
        } else if contains_spec(label, g_b_marker()) {
            Ok(Gathered { g_b: gathered.g_b.push(value), ..gathered })
        } else if contains_spec(label, g_c_marker()) {
            Ok(Gathered { g_c: gathered.g_c.push(value), ..gathered })
        } else {
            Ok(gathered)
        },
    }
}

/// What is gathered from `entries`, taken in their order, or the error of
/// the first entry that cannot be added.
pub open spec fn gather<F>(entries: Seq<(Seq<u8>, F)>, known: Set<CircuitId>) -> Result<
    Gathered<F>,
    SNARKError,
>
    decreases entries.len(),
{
    if entries.len() == 0 {
        Ok(Gathered { z_b: Groups::empty(), g_a: Seq::empty(), g_b: Seq::empty(), g_c: Seq::empty() })
    } else {
        match gather(entries.drop_last(), known) {
            Ok(gathered) => gather_one(gathered, entries.last().0, entries.last().1, known),
            Err(e) => Err(e),
        }
    }
}

/// The place of the first entry at or behind `from` with the label `g_1`,
/// if there is one.
pub open spec fn g_1_from<F>(entries: Seq<(Seq<u8>, F)>, from: int) -> Option<int>
    decreases entries.len() - from,
{
    if from < 0 || from >= entries.len() {
        None
    } else if entries[from].0 == g_1_label() {
        Some(from)
    } else {
        g_1_from(entries, from + 1)
    }
}

/// The evaluations that a list of labelled evaluations gives. The entries
/// in front of the one labelled `g_1` are gathered; that one gives the
/// evaluation of `g_1`, and what follows it is not looked at.
pub open spec fn from_map_spec<F>(entries: Seq<(Seq<u8>, F)>, known: Set<CircuitId>) -> Result<
    EvaluationsView<F>,
    SNARKError,
> {
    match g_1_from(entries, 0) {
        Some(at) => match gather(entries.take(at), known) {
            Ok(gathered) => Ok(
                EvaluationsView {
                    z_b_evals: gathered.z_b.lists,
                    g_1_eval: entries[at].1,
                    g_a_evals: gathered.g_a,
                    g_b_evals: gathered.g_b,
                    g_c_evals: gathered.g_c,
                },
            ),
            Err(e) => Err(e),
        },
        None => match gather(entries, known) {
            Ok(_) => Err(SNARKError::MissingEvaluation),
            Err(e) => Err(e),
        },
    }
}

/// What is gathered has its groups in the strictly ascending order of
/// their circuits, one list per circuit.
pub proof fn lemma_gathered_groups_ascend<F>(entries: Seq<(Seq<u8>, F)>, known: Set<CircuitId>)
    ensures
        gather(entries, known) matches Ok(gathered) ==> gathered.z_b.well_formed(),
    decreases entries.len(),
{
    if entries.len() > 0 {
        lemma_gathered_groups_ascend(entries.drop_last(), known);
        match gather(entries.drop_last(), known) {
            Ok(gathered) => {
                match from_witness_label_spec(entries.last().0) {
                    Some(id) => {
                        gathered.z_b.lemma_add_well_formed(id, entries.last().1);
                    },
                    None => {},
                }
            },
            Err(_) => {},
        }
    }
}

/// An entry that is found with the label `g_1` is the first such at or
/// behind `from`.
pub proof fn lemma_g_1_from<F>(entries: Seq<(Seq<u8>, F)>, from: int)
    requires
        0 <= from,
    ensures
        g_1_from(entries, from) matches Some(at) ==> from <= at < entries.len() && entries[at].0
            == g_1_label() && forall|i: int| from <= i < at ==> entries[i].0 != g_1_label(),
        g_1_from(entries, from) is None ==> forall|i: int|
            from <= i < entries.len() ==> entries[i].0 != g_1_label(),
    decreases entries.len() - from,
{
    if from < entries.len() && entries[from].0 != g_1_label() {
        lemma_g_1_from(entries, from + 1);
    }
}

/// Once gathering has failed on the first `n` entries, it fails in the same
/// way on any more of them.
pub proof fn lemma_rest_is_error<F>(entries: Seq<(Seq<u8>, F)>, known: Set<CircuitId>, n: int)
    requires
        0 <= n <= entries.len(),
        gather(entries.take(n), known) is Err,
    ensures
        forall|m: int|
            n <= m <= entries.len() ==> #[trigger] gather(entries.take(m), known) == gather(
                entries.take(n),
                known,
            ),
{
    assert forall|m: int| n <= m <= entries.len() implies #[trigger] gather(entries.take(m), known)
        == gather(entries.take(n), known) by {
        lemma_error_stays(entries, known, n, m);
    }
}

/// The step of `lemma_rest_is_error` for one longer prefix.
proof fn lemma_error_stays<F>(entries: Seq<(Seq<u8>, F)>, known: Set<CircuitId>, n: int, m: int)
    requires
        0 <= n <= m <= entries.len(),
        gather(entries.take(n), known) is Err,
    ensures
        gather(entries.take(m), known) == gather(entries.take(n), known),
    decreases m - n,
{
    if n < m {
        lemma_error_stays(entries, known, n, m - 1);
        assert(entries.take(m).drop_last() =~= entries.take(m - 1));
    }
}

/// Whether `id` is among the circuits of `batch_sizes`.
fn is_known(batch_sizes: &Vec<(CircuitId, usize)>, id: &CircuitId) -> (known: bool)
    ensures
        known == known_circuits(batch_sizes@).contains(*id),
{
    let mut i: usize = 0;
    while i < batch_sizes.len()
        invariant
            i <= batch_sizes@.len(),
            forall|k: int| 0 <= k < i ==> (#[trigger] batch_sizes@[k]).0 != *id,
        decreases batch_sizes@.len() - i,
    {
        if batch_sizes[i].0.same(id) {
            return true;
        }
        i += 1;
    }
    false
}

/// One item of the written form of the evaluations.
#[derive(Clone, Debug, PartialEq, Eq)]
pub enum EvaluationPart<F> {
    /// Lists of evaluations, one list per circuit.
    Lists(Vec<Vec<F>>),
    /// A single evaluation.
    Single(F),
    /// A list of evaluations, one per circuit.
    List(Vec<F>),
}

/// What an item of the written form of the evaluations holds.
#[derive(Clone, Copy, Debug, PartialEq, Eq)]
pub enum EvaluationPartKind {
    /// Lists of evaluations, one list per circuit.
    Lists,
    /// A single evaluation.
    Single,
    /// A list of evaluations, one per circuit.
    List,
}

/// What item `index` of the written form of evaluations holds: the lists
/// of the `z_b` come first, then the evaluation of `g_1`, then the lists of
/// the `g_a`, the `g_b` and the `g_c`. `None` behind the end.
pub open spec fn evaluation_part_kind_spec(index: int) -> Option<EvaluationPartKind> {
    if index == 0 {
        Some(EvaluationPartKind::Lists)
    } else if index == 1 {
        Some(EvaluationPartKind::Single)
    } else if 2 <= index < 5 {
        Some(EvaluationPartKind::List)
    } else {
        None
    }
}

/// Says what item `index` of the written form of evaluations holds.
pub fn evaluation_part_kind(index: usize) -> (kind: Option<EvaluationPartKind>)
    ensures
        kind == evaluation_part_kind_spec(index as int),
{
    if index == 0 {
        Some(EvaluationPartKind::Lists)
    } else if index == 1 {
        Some(EvaluationPartKind::Single)
    } else if index < 5 {
        Some(EvaluationPartKind::List)
    } else {
        None
    }
}

impl<F> EvaluationPart<F> {
    /// What the item holds.
    pub open spec fn kind(self) -> EvaluationPartKind {
        match self {
            EvaluationPart::Lists(_) => EvaluationPartKind::Lists,
            EvaluationPart::Single(_) => EvaluationPartKind::Single,
            EvaluationPart::List(_) => EvaluationPartKind::List,
        }
    }
}

/// Whether `parts` has the shape of the written form of evaluations: five
/// items, each of the kind of its place.
pub open spec fn evaluations_laid_out<F>(parts: Seq<EvaluationPart<F>>) -> bool {
    &&& parts.len() == 5
    &&& forall|i: int|
        0 <= i < parts.len() ==> Some((#[trigger] parts[i]).kind()) == evaluation_part_kind_spec(i)
}

impl<F> Evaluations<F> {
    /// The written form of the evaluations: those of the `z_b`, that of
    /// `g_1`, those of the `g_a`, of the `g_b` and of the `g_c`, in this
    /// order.
    pub open spec fn parts(&self) -> Seq<EvaluationPart<F>> {
        seq![
            EvaluationPart::Lists(self.z_b_evals),
            EvaluationPart::Single(self.g_1_eval),
            EvaluationPart::List(self.g_a_evals),
            EvaluationPart::List(self.g_b_evals),
            EvaluationPart::List(self.g_c_evals),
        ]
    }

    /// The written form of evaluations has the shape that `from_parts` asks
    /// for, and evaluations with one written form are the same.
    pub proof fn lemma_parts(&self, other: &Self)
        ensures
            evaluations_laid_out(self.parts()),
            self.parts() == other.parts() ==> *self == *other,
    {
        if self.parts() == other.parts() {
            assert(self.parts()[0] == other.parts()[0]);
            assert(self.parts()[1] == other.parts()[1]);
            assert(self.parts()[2] == other.parts()[2]);
            assert(self.parts()[3] == other.parts()[3]);
            assert(self.parts()[4] == other.parts()[4]);
        }
    }

    /// Takes the evaluations apart into their written form.
    pub fn into_parts(self) -> (parts: Vec<EvaluationPart<F>>)
        ensures
            parts@ == self.parts(),
    {
        let mut parts: Vec<EvaluationPart<F>> = Vec::new();
        parts.push(EvaluationPart::Lists(self.z_b_evals));
        parts.push(EvaluationPart::Single(self.g_1_eval));
        parts.push(EvaluationPart::List(self.g_a_evals));
        parts.push(EvaluationPart::List(self.g_b_evals));
        parts.push(EvaluationPart::List(self.g_c_evals));
        parts
    }

    /// Puts evaluations together from their written form. Parts of another
    /// shape are refused.
    pub fn from_parts(parts: Vec<EvaluationPart<F>>) -> (made: Result<Self, SNARKError>)
        ensures
            match made {
                Ok(evaluations) => evaluations_laid_out(parts@) && evaluations.parts() == parts@,
                Err(e) => e == SNARKError::InvalidLayout && !evaluations_laid_out(parts@),
            },
    {
        let ghost all = parts@;
        let mut parts = parts;
        if parts.len() != 5 {
            return Err(SNARKError::InvalidLayout);
        }
        let fifth = parts.pop();
        let fourth = parts.pop();
        let third = parts.pop();
        let second = parts.pop();
        let first = parts.pop();
        match (first, second, third, fourth, fifth) {
            (
                Some(EvaluationPart::Lists(z_b_evals)),
                Some(EvaluationPart::Single(g_1_eval)),
                Some(EvaluationPart::List(g_a_evals)),
                Some(EvaluationPart::List(g_b_evals)),
                Some(EvaluationPart::List(g_c_evals)),
            ) => {
                let evaluations = Evaluations { z_b_evals, g_1_eval, g_a_evals, g_b_evals, g_c_evals };
                assert(evaluations.parts() =~= all);
                Ok(evaluations)
            },
            _ => {
                assert(all[0] == first->Some_0);
                assert(all[1] == second->Some_0);
                assert(all[2] == third->Some_0);
                assert(all[3] == fourth->Some_0);
                assert(all[4] == fifth->Some_0);
                Err(SNARKError::InvalidLayout)
            },
        }
    }
}

/// The entries of the lists of `groups`, one list after the other.
pub open spec fn flatten<F>(groups: Seq<Vec<F>>) -> Seq<F>
    decreases groups.len(),
{
    if groups.len() == 0 {
        Seq::empty()
    } else {
        flatten(groups.drop_last()) + groups.last()@
    }
}

/// Entry `index` of `list`, if there is one.
pub open spec fn entry<F>(list: Seq<F>, index: int) -> Option<F> {
    if 0 <= index < list.len() {
        Some(list[index])
    } else {
        None
    }
}

/// Entry `index` of `list`, if there is one.
fn get_entry<F: Copy>(list: &Vec<F>, index: usize) -> (found: Option<F>)
    ensures
        found == entry(list@, index as int),
{
    if index < list.len() {
        Some(list[index])
    } else {
        None
    }
}

impl<F: Copy> Evaluations<F> {
    /// All the evaluations in one list: those of the `z_b` circuit by
    /// circuit, then that of `g_1`, then those of the `g_a`, the `g_b` and
    /// the `g_c`.
    pub open spec fn field_elements_spec(&self) -> Seq<F> {
        flatten(self.z_b_evals@) + seq![self.g_1_eval] + self.g_a_evals@ + self.g_b_evals@
            + self.g_c_evals@
    }

    /// The evaluation of the `z_b` polynomial of circuit `circuit_index`
    /// that the text `instance` names, if it names one.
    pub open spec fn z_b_eval_spec(&self, circuit_index: int, instance: Seq<u8>) -> Option<F> {
        if 0 <= circuit_index < self.z_b_evals@.len() {
            match parse_usize_spec(instance) {
                Some(instance_index) => entry(self.z_b_evals@[circuit_index]@, instance_index as int),
                None => None,
            }
        } else {
            None
        }
    }

    /// The evaluation that goes by `label` for the circuit at
    /// `circuit_index`: that of `g_1` for the label `g_1`; for a label that
    /// holds `z_b_`, that of the instance whose number follows it; for a
    /// label that holds `g_a`, `g_b` or `g_c`, that of the circuit. `None`
    /// where there is no such evaluation.
    pub open spec fn get_spec(&self, circuit_index: int, label: Seq<u8>) -> Option<F> {
        if label == g_1_label() {
            Some(self.g_1_eval)
        } else {
            match find_spec(label, z_b_marker()) {
                Some(at) => self.z_b_eval_spec(circuit_index, label.skip(at + 4)),
                None => if contains_spec(label, g_a_marker()) {
                    entry(self.g_a_evals@, circuit_index)
                } else if contains_spec(label, g_b_marker()) {
                    entry(self.g_b_evals@, circuit_index)
                } else if contains_spec(label, g_c_marker()) {
                    entry(self.g_c_evals@, circuit_index)
                } else {
                    None
                },
            }
        }
    }

    /// Makes the evaluations from labelled ones, given in the ascending order
    /// of their labels, and the batch sizes of the circuits.
    pub fn from_map(map: &Vec<(String, F)>, batch_sizes: &Vec<(CircuitId, usize)>) -> (made: Result<
        Self,
        SNARKError,
    >)
        ensures
            match made {
                Ok(evaluations) => from_map_spec(entries_view(map@), known_circuits(batch_sizes@)) == Ok::<
                    EvaluationsView<F>,
                    SNARKError,
                >(evaluations@),
                Err(e) => from_map_spec(entries_view(map@), known_circuits(batch_sizes@)) == Err::<
                    EvaluationsView<F>,
                    SNARKError,
                >(e),
            },
    {
        let ghost entries = entries_view(map@);
        let ghost known = known_circuits(batch_sizes@);
        let g_1: [u8; 3] = [0x67, 0x5f, 0x31];
        let z_b: [u8; 4] = [0x7a, 0x5f, 0x62, 0x5f];
        let g_a: [u8; 3] = [0x67, 0x5f, 0x61];
        let g_b: [u8; 3] = [0x67, 0x5f, 0x62];
        let g_c: [u8; 3] = [0x67, 0x5f, 0x63];
        assert(g_1@ =~= g_1_label());
        assert(z_b@ =~= z_b_marker());
        assert(g_a@ =~= g_a_marker());
        assert(g_b@ =~= g_b_marker());
        assert(g_c@ =~= g_c_marker());
        let mut ids: Vec<CircuitId> = Vec::new();
        let mut z_b_evals: Vec<Vec<F>> = Vec::new();
        let mut g_a_evals: Vec<F> = Vec::new();
        let mut g_b_evals: Vec<F> = Vec::new();
        let mut g_c_evals: Vec<F> = Vec::new();
        let ghost mut gathered = Gathered {
            z_b: Groups::<F>::empty(),
            g_a: Seq::<F>::empty(),
            g_b: Seq::<F>::empty(),
            g_c: Seq::<F>::empty(),
        };
        assert(lists_view(z_b_evals@) =~= gathered.z_b.lists);
        assert(entries.take(0) =~= Seq::<(Seq<u8>, F)>::empty());
        let mut i: usize = 0;
        while i < map.len()
            invariant
                i <= map@.len(),
                entries == entries_view(map@),
                known == known_circuits(batch_sizes@),
                g_1@ == g_1_label(),
                z_b@ == z_b_marker(),
                g_a@ == g_a_marker(),
                g_b@ == g_b_marker(),
                g_c@ == g_c_marker(),
                g_1_from(entries, 0) == g_1_from(entries, i as int),
                gather(entries.take(i as int), known) == Ok::<Gathered<F>, SNARKError>(gathered),
                gathered.z_b.ids == ids@,
                gathered.z_b.lists == lists_view(z_b_evals@),
                gathered.z_b.well_formed(),
                gathered.g_a == g_a_evals@,
                gathered.g_b == g_b_evals@,
                gathered.g_c == g_c_evals@,
            decreases map@.len() - i,
        {
            let label = map[i].0.as_str().as_bytes();
            let value = map[i].1;
            assert(label@ == entries[i as int].0);
            assert(value == entries[i as int].1);
            if bytes_eq(label, g_1.as_slice()) {
                return Ok(Evaluations { z_b_evals, g_1_eval: value, g_a_evals, g_b_evals, g_c_evals });
            }
            proof {
                assert(entries.take(i + 1).drop_last() =~= entries.take(i as int));
                assert(entries.take(i + 1).last() == entries[i as int]);
                assert(entries.take(entries.len() as int) =~= entries);
                lemma_g_1_from(entries, i + 1);
            }
            let id = match CircuitId::from_witness_label(label) {
                Some(id) => id,
                None => {
                    proof {
                        lemma_rest_is_error(entries, known, i + 1);
                    }
                    return Err(SNARKError::InvalidLabel);
                },
            };
            if contains(label, z_b.as_slice()) {
                let k = find_place(&ids, &id);
                if k < ids.len() && ids[k].same(&id) {
                    push_to_list(&mut z_b_evals, k, value);
                } else {
                    if !is_known(batch_sizes, &id) {
                        proof {
                            lemma_rest_is_error(entries, known, i + 1);
                        }
                        return Err(SNARKError::UnknownCircuit);
                    }
                    ids.insert(k, id);
                    insert_list(&mut z_b_evals, k, value);
                }
                proof {
                    gathered.z_b.lemma_add_well_formed(id, value);
                    gathered = Gathered { z_b: gathered.z_b.add(id, value), ..gathered };
                }
            } else if contains(label, g_a.as_slice()) {
                g_a_evals.push(value);
                proof {
                    gathered = Gathered { g_a: gathered.g_a.push(value), ..gathered };
                }
            } else if contains(label, g_b.as_slice()) {
                g_b_evals.push(value);
                proof {
                    gathered = Gathered { g_b: gathered.g_b.push(value), ..gathered };
                }
            } else if contains(label, g_c.as_slice()) {
                g_c_evals.push(value);
                proof {
                    gathered = Gathered { g_c: gathered.g_c.push(value), ..gathered };
                }
            }
            i += 1;
        }
        assert(entries.take(map@.len() as int) =~= entries);
        Err(SNARKError::MissingEvaluation)
    }

    /// Looks up the evaluation that goes by `label` for the circuit at
    /// `circuit_index`.
    pub fn get(&self, circuit_index: usize, label: &str) -> (evaluation: Option<F>)
        ensures
            evaluation == self.get_spec(circuit_index as int, label.spec_bytes()),
    {
        let label = label.as_bytes();
        let g_1: [u8; 3] = [0x67, 0x5f, 0x31];
        let z_b: [u8; 4] = [0x7a, 0x5f, 0x62, 0x5f];
        let g_a: [u8; 3] = [0x67, 0x5f, 0x61];
        let g_b: [u8; 3] = [0x67, 0x5f, 0x62];
        let g_c: [u8; 3] = [0x67, 0x5f, 0x63];
        assert(g_1@ =~= g_1_label());
        assert(z_b@ =~= z_b_marker());
        assert(g_a@ =~= g_a_marker());
        assert(g_b@ =~= g_b_marker());
        assert(g_c@ =~= g_c_marker());
        if bytes_eq(label, g_1.as_slice()) {
            return Some(self.g_1_eval);
        }
        if let Some(at) = find(label, z_b.as_slice()) {
            let length = label.len();
            proof {
                lemma_find_from(label@, z_b_marker(), 0);
                assert(occurs_at(label@, z_b_marker(), at as int));
                assert(z_b_marker().len() == 4);
            }
            if circuit_index >= self.z_b_evals.len() {
                return None;
            }
            let mut instance: Vec<u8> = Vec::new();
            let mut i: usize = at + 4;
            while i < label.len()
                invariant
                    at + 4 <= i <= label@.len(),
                    instance@ == label@.subrange(at + 4, i as int),
                decreases label@.len() - i,
            {
                instance.push(label[i]);
                i += 1;
            }
            assert(instance@ =~= label@.skip(at + 4));
            match parse_usize(instance.as_slice()) {
                Some(instance_index) => get_entry(&self.z_b_evals[circuit_index], instance_index),
                None => None,
            }
        } else if contains(label, g_a.as_slice()) {
            get_entry(&self.g_a_evals, circuit_index)
        } else if contains(label, g_b.as_slice()) {
            get_entry(&self.g_b_evals, circuit_index)
        } else if contains(label, g_c.as_slice()) {
            get_entry(&self.g_c_evals, circuit_index)
        } else {
            None
        }
    }

    /// Lists all the evaluations: those of the `z_b` circuit by circuit,
    /// then that of `g_1`, then those of the `g_a`, the `g_b` and the `g_c`.
    pub fn to_field_elements(&self) -> (result: Vec<F>)
        ensures
            result@ == self.field_elements_spec(),
    {
        let mut result: Vec<F> = Vec::new();
        let mut i: usize = 0;
        while i < self.z_b_evals.len()
            invariant
                i <= self.z_b_evals@.len(),
                result@ == flatten(self.z_b_evals@.take(i as int)),
            decreases self.z_b_evals@.len() - i,
        {
            assert(self.z_b_evals@.take(i + 1).drop_last() == self.z_b_evals@.take(i as int));
            extend(&mut result, &self.z_b_evals[i]);
            i += 1;
        }
        assert(self.z_b_evals@.take(self.z_b_evals@.len() as int) == self.z_b_evals@);
        result.push(self.g_1_eval);
        extend(&mut result, &self.g_a_evals);
        extend(&mut result, &self.g_b_evals);
        extend(&mut result, &self.g_c_evals);
        result
    }
}

/// Appends the entries of `list` to `out`.
fn extend<F: Copy>(out: &mut Vec<F>, list: &Vec<F>)
    ensures
        final(out)@ == old(out)@ + list@,
{
    let mut i: usize = 0;
    while i < list.len()
        invariant
            i <= list@.len(),
            out@ == old(out)@ + list@.take(i as int),
        decreases list@.len() - i,
    {
        out.push(list[i]);
        i += 1;
    }
    assert(list@.take(list@.len() as int) == list@);
}

} // verus!
