use vstd::prelude::*;

verus! {

/// Why a gate or an input could not be added to a circuit.
#[derive(Clone, Copy, Debug, PartialEq, Eq, Structural)]
pub enum CompilationError {
    /// An operand handle does not name a variable of this circuit.
    UnknownVariable,
    /// A gate cannot produce an input variable.
    InputAsGateResult,
}

/// The failures of the compile / setup / prove pipeline.
#[derive(Clone, Copy, Debug, PartialEq, Eq, Structural)]
pub enum Error {
    Compilation(CompilationError),
    /// The compiled matrices are not strictly lower triangular (A, B) or diagonal
    /// (C): a witness reads an output, which comes after it in the witness vector.
    StructuralViolation,
    /// No admissible evaluation domain exists for a requested size.
    Setup,
    /// The witness does not satisfy the constraint system.
    ProofGeneration,
}

} // verus!
