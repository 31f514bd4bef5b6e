//! Futures: calls that a program has yet to make.

use vstd::prelude::*;

verus! {

/// A future: the function of a program that is to be called, and the inputs
/// it is to be called with. `P` is the type of program ids, `I` that of
/// function names and `V` that of input values.
#[derive(Clone)]
pub struct Future<P, I, V> {
    /// The program ID.
    program_id: P,
    /// The name of the function.
    function_name: I,
    /// The inputs.
    inputs: Vec<V>,
}

impl<P, I, V> Future<P, I, V> {
    /// The program ID.
    pub closed spec fn program_id_spec(&self) -> P {
        self.program_id
    }

    /// The name of the function.
    pub closed spec fn function_name_spec(&self) -> I {
        self.function_name
    }

    /// The inputs.
    pub closed spec fn inputs_spec(&self) -> Seq<V> {
        self.inputs@
    }

    /// Initializes a new future.
    pub fn new(program_id: P, function_name: I, inputs: Vec<V>) -> (future: Self)
        ensures
            future.program_id_spec() == program_id,
            future.function_name_spec() == function_name,
            future.inputs_spec() == inputs@,
    {
        Self { program_id, function_name, inputs }
    }

    /// Returns the program ID.
    pub fn program_id(&self) -> (program_id: &P)
        ensures
            *program_id == self.program_id_spec(),
    {
        &self.program_id
    }

    /// Returns the name of the function.
    pub fn function_name(&self) -> (function_name: &I)
        ensures
            *function_name == self.function_name_spec(),
    {
        &self.function_name
    }

    /// Returns the inputs.
    pub fn inputs(&self) -> (inputs: &[V])
        ensures
            inputs@ == self.inputs_spec(),
    {
        self.inputs.as_slice()
    }
}

} // verus!
