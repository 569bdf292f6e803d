use vstd::prelude::*;

verus! {

/// What a participant may do. Ordered by capability:
/// `NoRole` < `Proposer` < `BoardMember`.
#[derive(Clone, Copy, Debug, PartialEq, Eq, Structural)]
pub enum UserRole {
    NoRole,
    Proposer,
    BoardMember,
}

impl UserRole {
    /// Position in the capability order.
    pub open spec fn rank(self) -> nat {
        match self {
            UserRole::NoRole => 0,
            UserRole::Proposer => 1,
            UserRole::BoardMember => 2,
        }
    }

    /// Proposers and board members may propose.
    pub open spec fn spec_can_propose(self) -> bool {
        self.rank() >= 1
    }

    /// Proposers and board members may trigger a ratified action.
    pub open spec fn spec_can_perform_action(self) -> bool {
        self.rank() >= 1
    }

    /// Proposers and board members may discard an action nobody backs.
    pub open spec fn spec_can_discard_action(self) -> bool {
        self.rank() >= 1
    }

    /// Only board members may sign.
    pub open spec fn spec_can_sign(self) -> bool {
        self.rank() >= 2
    }

    /// Proposers and board members may propose.
    #[verifier::when_used_as_spec(spec_can_propose)]
    pub fn can_propose(self) -> (r: bool)
        ensures
            r == self.spec_can_propose(),
    {
        match self {
            UserRole::NoRole => false,
            UserRole::Proposer => true,
            UserRole::BoardMember => true,
        }
    }

    /// Proposers and board members may trigger a ratified action.
    #[verifier::when_used_as_spec(spec_can_perform_action)]
    pub fn can_perform_action(self) -> (r: bool)
        ensures
            r == self.spec_can_perform_action(),
    {
        self.can_propose()
    }

    /// Proposers and board members may discard an action nobody backs.
    #[verifier::when_used_as_spec(spec_can_discard_action)]
    pub fn can_discard_action(self) -> (r: bool)
        ensures
            r == self.spec_can_discard_action(),
    {
        self.can_propose()
    }

    /// Only board members may sign.
    #[verifier::when_used_as_spec(spec_can_sign)]
    pub fn can_sign(self) -> (r: bool)
        ensures
            r == self.spec_can_sign(),
    {
        match self {
            UserRole::NoRole => false,
            UserRole::Proposer => false,
            UserRole::BoardMember => true,
        }
    }
}

} // verus!
