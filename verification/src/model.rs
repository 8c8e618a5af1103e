//! The escrow as a mathematical state machine: what the contract holds, when
//! each operation is refused, and what it leaves behind.

use vstd::prelude::*;
use crate::host::{all_readable, entries};
use crate::types::{EscrowError, Identity, Investment, Milestone, MilestoneStatus, ProjectView, Transfer};

verus! {

/// The sum of a sequence of amounts.
pub open spec fn sum_amounts(s: Seq<i128>) -> int
    decreases s.len(),
{
    if s.len() == 0 {
        0
    } else {
        sum_amounts(s.drop_last()) + s.last()
    }
}

/// The amounts of the milestones, in order.
pub open spec fn milestone_amounts(ms: Seq<Milestone>) -> Seq<i128> {
    ms.map_values(|m: Milestone| m.amount)
}

/// The sum of all milestone amounts.
pub open spec fn milestone_total(ms: Seq<Milestone>) -> int {
    sum_amounts(milestone_amounts(ms))
}

/// What each milestone adds to a refund: its amount unless it is verified.
pub open spec fn refundable_amounts(ms: Seq<Milestone>) -> Seq<i128> {
    ms.map_values(|m: Milestone| if m.unverified() { m.amount } else { 0i128 })
}

/// The sum of the amounts of the milestones at `from` and after that are not
/// verified.
pub open spec fn unverified_amount(ms: Seq<Milestone>, from: int) -> int {
    sum_amounts(refundable_amounts(ms).subrange(from, ms.len() as int))
}

/// The milestones of a new project: one per amount and deadline, all pending.
pub open spec fn pending_milestones(amounts: Seq<i128>, deadlines: Seq<u64>) -> Seq<Milestone> {
    Seq::new(amounts.len(), |i: int| Milestone::pending(amounts[i], deadlines[i]))
}

/// The amounts of the investments, in order.
pub open spec fn investment_amounts(invs: Seq<Investment>) -> Seq<i128> {
    invs.map_values(|i: Investment| i.amount)
}

/// The sum of all investments.
pub open spec fn invested_total(invs: Seq<Investment>) -> int {
    sum_amounts(investment_amounts(invs))
}

/// What each investment adds to the total of one investor.
pub open spec fn amounts_by(invs: Seq<Investment>, who: Identity) -> Seq<i128> {
    invs.map_values(|i: Investment| if i.investor == who { i.amount } else { 0i128 })
}

/// The sum of the investments of one investor.
pub open spec fn contributed(invs: Seq<Investment>, who: Identity) -> int {
    sum_amounts(amounts_by(invs, who))
}

/// Whether every investment has a positive amount.
pub open spec fn all_positive(invs: Seq<Investment>) -> bool {
    forall|i: int| 0 <= i < invs.len() ==> (#[trigger] invs[i]).amount > 0
}

/// The share of the unverified amount that one investment gets back:
/// `amount * unverified / raised`, rounded down.
pub open spec fn refund_share(amount: int, unverified: int, raised: int) -> int {
    (amount * unverified) / raised
}

/// The refunds to dispatch, in the order of the investments: one for each
/// investment whose share is positive.
pub open spec fn refunds(invs: Seq<Investment>, unverified: int, raised: int) -> Seq<Transfer>
    decreases invs.len(),
{
    if invs.len() == 0 {
        Seq::empty()
    } else {
        let before = refunds(invs.drop_last(), unverified, raised);
        let share = refund_share(invs.last().amount as int, unverified, raised);
        if share > 0 {
            before.push(Transfer::payout(invs.last().investor, share as i128))
        } else {
            before
        }
    }
}

/// The amounts of the transfers, in order.
pub open spec fn transfer_amounts(ts: Seq<Transfer>) -> Seq<i128> {
    ts.map_values(|t: Transfer| t.amount)
}

/// The sum of the amounts of the transfers.
pub open spec fn transferred_total(ts: Seq<Transfer>) -> int {
    sum_amounts(transfer_amounts(ts))
}

impl ProjectView {
    /// What holds of every project the contract keeps: its milestones stay
    /// within its goal, and a milestone has an evidence hash exactly when it
    /// is past pending.
    pub open spec fn wf(self) -> bool {
        &&& milestone_total(self.milestones) <= self.goal_amount
        &&& forall|j: int|
            0 <= j < self.milestones.len() ==> ((#[trigger] self.milestones[j]).evidence_hash.is_some()
                <==> self.milestones[j].status != MilestoneStatus::Pending)
    }

    pub open spec fn has_milestone(self, index: u32) -> bool {
        index < self.milestones.len()
    }

    /// The project with the milestone at `index` replaced.
    pub open spec fn with_milestone(self, index: u32, m: Milestone) -> ProjectView {
        ProjectView { milestones: self.milestones.update(index as int, m), ..self }
    }
}

/// Everything the contract holds.
#[verifier::ext_equal]
pub struct ContractView {
    pub verifier: Option<Identity>,
    pub token: Option<Identity>,
    /// The project with id `i + 1` stands at position `i`.
    pub projects: Seq<ProjectView>,
    /// The investments of each project, in the order they were made.
    pub investments: Seq<Seq<Investment>>,
}

impl ContractView {
    pub open spec fn empty() -> ContractView {
        ContractView {
            verifier: None,
            token: None,
            projects: Seq::empty(),
            investments: Seq::empty(),
        }
    }

    /// What holds of the contract between operations.
    pub open spec fn wf(self) -> bool {
        &&& self.verifier.is_some() == self.token.is_some()
        &&& self.projects.len() == self.investments.len()
        &&& self.projects.len() <= u32::MAX
        &&& forall|i: int|
            0 <= i < self.projects.len() ==> (#[trigger] self.projects[i]).id == i + 1
                && self.projects[i].wf()
        &&& forall|i: int|
            0 <= i < self.investments.len() ==> all_positive(#[trigger] self.investments[i])
                && self.projects[i].raised == invested_total(self.investments[i])
    }

    pub open spec fn project_count(self) -> nat {
        self.projects.len()
    }

    pub open spec fn has_project(self, id: u32) -> bool {
        1 <= id <= self.projects.len()
    }

    pub open spec fn project(self, id: u32) -> ProjectView {
        self.projects[id - 1]
    }

    pub open spec fn investments_of(self, id: u32) -> Seq<Investment> {
        self.investments[id - 1]
    }

    /// What one investor has put into one project; nothing where there is no
    /// such project.
    pub open spec fn investor_amount(self, id: u32, who: Identity) -> int {
        if self.has_project(id) {
            contributed(self.investments_of(id), who)
        } else {
            0
        }
    }

    /// The contract with the project `id` replaced.
    pub open spec fn with_project(self, id: u32, p: ProjectView) -> ContractView {
        ContractView { projects: self.projects.update(id - 1, p), ..self }
    }

    // ---- initialize ----

    pub open spec fn initialize_outcome(self, caller: Identity, verifier: Identity) -> Result<(), EscrowError> {
        if self.verifier.is_some() {
            Err(EscrowError::AlreadyInitialized)
        } else if caller != verifier {
            Err(EscrowError::Unauthorized)
        } else {
            Ok(())
        }
    }

    pub open spec fn after_initialize(self, verifier: Identity, token: Identity) -> ContractView {
        ContractView { verifier: Some(verifier), token: Some(token), ..self }
    }

    // ---- create_project ----

    pub open spec fn create_project_outcome(
        self,
        caller: Identity,
        owner: Identity,
        goal_amount: i128,
        amounts: Seq<i128>,
        deadlines: Seq<u64>,
    ) -> Result<u32, EscrowError> {
        if caller != owner {
            Err(EscrowError::Unauthorized)
        } else if amounts.len() != deadlines.len() {
            Err(EscrowError::MalformedMilestones)
        } else if sum_amounts(amounts) > goal_amount {
            Err(EscrowError::BudgetExceeded)
        } else {
            Ok((self.projects.len() + 1) as u32)
        }
    }

    pub open spec fn after_create_project(
        self,
        owner: Identity,
        goal_amount: i128,
        amounts: Seq<i128>,
        deadlines: Seq<u64>,
    ) -> ContractView {
        ContractView {
            projects: self.projects.push(
                ProjectView {
                    id: (self.projects.len() + 1) as u32,
                    owner,
                    goal_amount,
                    raised: 0,
                    milestones: pending_milestones(amounts, deadlines),
                    active: true,
                },
            ),
            investments: self.investments.push(Seq::empty()),
            ..self
        }
    }

    /// When the creation of a project from the host's vectors is refused, and
    /// the id it gets otherwise. A vector with an entry that does not read is
    /// malformed.
    pub open spec fn create_project_host_outcome(
        self,
        caller: Identity,
        owner: Identity,
        goal_amount: i128,
        amounts: Seq<Option<i128>>,
        deadlines: Seq<Option<u64>>,
    ) -> Result<u32, EscrowError> {
        if caller != owner {
            Err(EscrowError::Unauthorized)
        } else if !all_readable(amounts) || !all_readable(deadlines) {
            Err(EscrowError::MalformedMilestones)
        } else {
            self.create_project_outcome(caller, owner, goal_amount, entries(amounts), entries(deadlines))
        }
    }

    // ---- invest ----

    pub open spec fn invest_outcome(
        self,
        caller: Identity,
        id: u32,
        investor: Identity,
        amount: i128,
    ) -> Result<Transfer, EscrowError> {
        if caller != investor {
            Err(EscrowError::Unauthorized)
        } else if !self.has_project(id) {
            Err(EscrowError::NotFound)
        } else if !self.project(id).active {
            Err(EscrowError::ProjectInactive)
        } else if amount <= 0 {
            Err(EscrowError::InvalidAmount)
        } else if self.token.is_none() {
            Err(EscrowError::TokenNotConfigured)
        } else {
            Ok(Transfer::deposit(investor, amount))
        }
    }

    pub open spec fn after_invest(self, id: u32, investor: Identity, amount: i128, now: u64) -> ContractView {
        ContractView {
            projects: self.projects.update(
                id - 1,
                ProjectView { raised: (self.project(id).raised + amount) as i128, ..self.project(id) },
            ),
            investments: self.investments.update(
                id - 1,
                self.investments_of(id).push(Investment { investor, amount, timestamp: now }),
            ),
            ..self
        }
    }

    // ---- submit_evidence ----

    pub open spec fn submit_evidence_outcome(self, caller: Identity, id: u32, index: u32) -> Result<
        (),
        EscrowError,
    > {
        if !self.has_project(id) {
            Err(EscrowError::NotFound)
        } else if caller != self.project(id).owner {
            Err(EscrowError::Unauthorized)
        } else if !self.project(id).has_milestone(index) {
            Err(EscrowError::InvalidIndex)
        } else if self.project(id).milestones[index as int].status != MilestoneStatus::Pending {
            Err(EscrowError::NotPending)
        } else {
            Ok(())
        }
    }

    pub open spec fn after_submit_evidence(self, id: u32, index: u32, hash: [u8; 32]) -> ContractView {
        self.with_project(
            id,
            self.project(id).with_milestone(
                index,
                Milestone {
                    status: MilestoneStatus::EvidenceSubmitted,
                    evidence_hash: Some(hash),
                    ..self.project(id).milestones[index as int]
                },
            ),
        )
    }

    // ---- verify_milestone ----

    pub open spec fn verify_milestone_outcome(
        self,
        caller: Identity,
        id: u32,
        index: u32,
        approved: bool,
    ) -> Result<Option<Transfer>, EscrowError> {
        if self.verifier.is_none() {
            Err(EscrowError::VerifierNotConfigured)
        } else if caller != self.verifier.unwrap() {
            Err(EscrowError::Unauthorized)
        } else if !self.has_project(id) {
            Err(EscrowError::NotFound)
        } else if !self.project(id).has_milestone(index) {
            Err(EscrowError::InvalidIndex)
        } else if self.project(id).milestones[index as int].status != MilestoneStatus::EvidenceSubmitted {
            Err(EscrowError::NotAwaitingVerification)
        } else if approved {
            Ok(Some(Transfer::payout(self.project(id).owner, self.project(id).milestones[index as int].amount)))
        } else {
            Ok(None)
        }
    }

    pub open spec fn after_verify_milestone(self, id: u32, index: u32, approved: bool) -> ContractView {
        self.with_project(
            id,
            self.project(id).with_milestone(
                index,
                Milestone {
                    status: if approved {
                        MilestoneStatus::Verified
                    } else {
                        MilestoneStatus::Rejected
                    },
                    ..self.project(id).milestones[index as int]
                },
            ),
        )
    }

    // ---- trigger_refund ----

    /// The unverified amount that a refund from milestone `index` of project
    /// `id` gives back.
    pub open spec fn refund_pool(self, id: u32, index: u32) -> int {
        unverified_amount(self.project(id).milestones, index as int)
    }

    /// Why a refund is refused, if it is.
    pub open spec fn refund_refusal(self, id: u32, index: u32, now: u64) -> Option<EscrowError> {
        if !self.has_project(id) {
            Some(EscrowError::NotFound)
        } else if !self.project(id).has_milestone(index) {
            Some(EscrowError::InvalidIndex)
        } else if now < self.project(id).milestones[index as int].deadline {
            Some(EscrowError::DeadlineNotReached)
        } else if self.project(id).milestones[index as int].status == MilestoneStatus::Verified {
            Some(EscrowError::AlreadyVerified)
        } else if !self.project(id).active {
            Some(EscrowError::ProjectInactive)
        } else if self.token.is_none() {
            Some(EscrowError::TokenNotConfigured)
        } else {
            None
        }
    }

    pub open spec fn trigger_refund_outcome(self, id: u32, index: u32, now: u64) -> Result<
        Seq<Transfer>,
        EscrowError,
    > {
        match self.refund_refusal(id, index, now) {
            Some(e) => Err(e),
            None => Ok(
                refunds(self.investments_of(id), self.refund_pool(id, index), self.project(id).raised as int),
            ),
        }
    }

    pub open spec fn after_trigger_refund(self, id: u32) -> ContractView {
        self.with_project(id, ProjectView { active: false, ..self.project(id) })
    }
}

} // verus!
