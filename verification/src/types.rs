//! The records the escrow keeps.

use vstd::prelude::*;

verus! {

/// Where a milestone stands in its lifecycle.
#[derive(Clone, Copy, Debug, PartialEq, Eq, Structural)]
pub enum MilestoneStatus {
    Pending,
    EvidenceSubmitted,
    Verified,
    Rejected,
}

/// Why an operation was refused. A refused operation changes nothing.
#[derive(Clone, Copy, Debug, PartialEq, Eq, Structural)]
pub enum EscrowError {
    AlreadyInitialized,
    MalformedMilestones,
    BudgetExceeded,
    NotFound,
    ProjectInactive,
    InvalidAmount,
    InvalidIndex,
    NotPending,
    NotAwaitingVerification,
    DeadlineNotReached,
    AlreadyVerified,
    Unauthorized,
    TokenNotConfigured,
    VerifierNotConfigured,
}

/// Who an account is: the 56 characters of its address key.
#[derive(Clone, Copy, Debug, PartialEq, Eq)]
pub struct Identity {
    pub key: [u8; 56],
}

impl Identity {
    pub fn new(key: [u8; 56]) -> (r: Identity)
        ensures
            r.key == key,
    {
        Identity { key }
    }

    /// Whether two identities name the same account.
    pub fn same(&self, other: &Identity) -> (r: bool)
        ensures
            r == (*self == *other),
    {
        let mut i: usize = 0;
        while i < 56
            invariant
                i <= 56,
                forall|j: int| 0 <= j < i ==> self.key[j] == other.key[j],
            decreases 56 - i,
        {
            if self.key[i] != other.key[i] {
                return false;
            }
            i = i + 1;
        }
        assert(self.key =~= other.key);
        true
    }
}

/// One deadline-bound share of a project's goal.
#[derive(Clone, Copy, Debug, PartialEq, Eq)]
pub struct Milestone {
    pub amount: i128,
    pub deadline: u64,
    pub status: MilestoneStatus,
    pub evidence_hash: Option<[u8; 32]>,
}

impl Milestone {
    /// A milestone as it stands at project creation.
    pub open spec fn pending(amount: i128, deadline: u64) -> Milestone {
        Milestone { amount, deadline, status: MilestoneStatus::Pending, evidence_hash: None }
    }

    /// Whether the milestone's share still counts towards a refund.
    pub open spec fn unverified(self) -> bool {
        self.status != MilestoneStatus::Verified
    }
}

/// One deposit, as recorded when it was made.
#[derive(Clone, Copy, Debug, PartialEq, Eq)]
pub struct Investment {
    pub investor: Identity,
    pub amount: i128,
    pub timestamp: u64,
}

/// One end of a transfer.
#[derive(Clone, Copy, Debug, PartialEq, Eq)]
pub enum Party {
    /// The account in which the contract holds funds.
    Escrow,
    Account(Identity),
}

/// An instruction to the payment rail.
#[derive(Clone, Copy, Debug, PartialEq, Eq)]
pub struct Transfer {
    pub from: Party,
    pub to: Party,
    pub amount: i128,
}

impl Transfer {
    pub open spec fn deposit(investor: Identity, amount: i128) -> Transfer {
        Transfer { from: Party::Account(investor), to: Party::Escrow, amount }
    }

    pub open spec fn payout(to: Identity, amount: i128) -> Transfer {
        Transfer { from: Party::Escrow, to: Party::Account(to), amount }
    }
}

/// The logical key under which one piece of the contract's state is kept.
#[derive(Clone, Copy, Debug, PartialEq, Eq)]
pub enum DataKey {
    ProjectCounter,
    Project(u32),
    ProjectInvestments(u32),
    InvestorAmount(u32, Identity),
    Verifier,
    Token,
}

/// A funding project and its milestones.
#[derive(Clone, Debug, PartialEq, Eq)]
pub struct Project {
    pub id: u32,
    pub owner: Identity,
    pub goal_amount: i128,
    pub raised: i128,
    pub milestones: Vec<Milestone>,
    pub active: bool,
}

/// A project as a mathematical value.
#[verifier::ext_equal]
pub struct ProjectView {
    pub id: u32,
    pub owner: Identity,
    pub goal_amount: i128,
    pub raised: i128,
    pub milestones: Seq<Milestone>,
    pub active: bool,
}

impl View for Project {
    type V = ProjectView;

    open spec fn view(&self) -> ProjectView {
        ProjectView {
            id: self.id,
            owner: self.owner,
            goal_amount: self.goal_amount,
            raised: self.raised,
            milestones: self.milestones@,
            active: self.active,
        }
    }
}

} // verus!
