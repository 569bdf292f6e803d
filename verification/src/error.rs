use vstd::prelude::*;

verus! {

/// Why an operation was refused. A refused operation changes nothing.
#[derive(Clone, Copy, Debug, PartialEq, Eq, Structural)]
pub enum MultisigError {
    /// The caller's role or stake does not allow the operation.
    Unauthorized,
    /// The action is absent or already settled, has not gathered its quorum,
    /// or the system is paused.
    InvalidState,
    /// The operation would break a rule on quorum, board size or stake.
    InvariantViolation,
    /// The batch was proposed before; the action that holds it is given.
    DuplicateProposal(usize),
    /// A delegated service is not a contract, or answered in an unusable shape.
    ExternalCallFailure,
    /// A counter or balance would leave the range of its machine type.
    LimitExceeded,
}

} // verus!
