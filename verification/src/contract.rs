//! The escrow contract: its state and its operations.

use vstd::prelude::*;
use crate::model::{
    all_positive, amounts_by, invested_total, investment_amounts, milestone_amounts, pending_milestones, sum_amounts,
    ContractView,
};
use crate::arith::{Clamped, WideSum};
use crate::host::{entries, host_amounts, host_deadlines, read_amounts, read_deadlines};
use crate::refund::{
    lemma_investments_within_raised, lemma_no_refund_without_pool, proportional_refunds, unverified_sum,
};
use crate::sums::{lemma_sum_nonnegative, lemma_sum_pointwise, lemma_sum_push};
use crate::types::{EscrowError, Identity, Investment, Milestone, MilestoneStatus, Party, Project, Transfer};

verus! {

/// The escrow and everything it holds. Each operation either takes effect as
/// a whole or is refused and changes nothing.
pub struct StellarBridgeContract {
    verifier: Option<Identity>,
    token: Option<Identity>,
    projects: Vec<Project>,
    investments: Vec<Vec<Investment>>,
}

/// The contract that holds these records.
pub open spec fn assembled(
    verifier: Option<Identity>,
    token: Option<Identity>,
    projects: Seq<Project>,
    investments: Seq<Vec<Investment>>,
) -> ContractView {
    ContractView {
        verifier,
        token,
        projects: projects.map_values(|p: Project| p@),
        investments: investments.map_values(|v: Vec<Investment>| v@),
    }
}

impl View for StellarBridgeContract {
    type V = ContractView;

    closed spec fn view(&self) -> ContractView {
        assembled(self.verifier, self.token, self.projects@, self.investments@)
    }
}

/// Whether the project is within its goal and each of its milestones has an
/// evidence hash exactly when it is past pending.
pub fn project_is_well_formed(p: &Project) -> (r: bool)
    ensures
        r == p@.wf(),
{
    let n: usize = p.milestones.len();
    let mut total: WideSum = WideSum::zero();
    let mut j: usize = 0;
    let ghost terms = milestone_amounts(p.milestones@);
    assert(terms.take(0) =~= Seq::<i128>::empty());
    while j < n
        invariant
            j <= n,
            n == p.milestones.len(),
            terms == milestone_amounts(p.milestones@),
            total.value() == sum_amounts(terms.take(j as int)),
            total.terms() == j,
            forall|k: int|
                0 <= k < j ==> ((#[trigger] p.milestones@[k]).evidence_hash.is_some() <==> p.milestones@[k].status
                    != MilestoneStatus::Pending),
        decreases n - j,
    {
        let m: Milestone = p.milestones[j];
        if m.evidence_hash.is_some() != (m.status != MilestoneStatus::Pending) {
            return false;
        }
        proof {
            assert(terms.take(j + 1) =~= terms.take(j as int).push(m.amount));
            lemma_sum_push(terms.take(j as int), m.amount);
        }
        total = total.plus(m.amount);
        j = j + 1;
    }
    assert(terms.take(n as int) =~= terms);
    match total.settle() {
        Clamped::Under => true,
        Clamped::Exact(sum) => sum <= p.goal_amount,
        Clamped::Over => false,
    }
}

/// Whether every investment is positive and together they make up `raised`.
pub fn investments_add_up(investments: &Vec<Investment>, raised: i128) -> (r: bool)
    ensures
        r == (all_positive(investments@) && raised == invested_total(investments@)),
{
    let n: usize = investments.len();
    let mut total: WideSum = WideSum::zero();
    let mut k: usize = 0;
    let ghost terms = investment_amounts(investments@);
    assert(terms.take(0) =~= Seq::<i128>::empty());
    while k < n
        invariant
            k <= n,
            n == investments.len(),
            terms == investment_amounts(investments@),
            total.value() == sum_amounts(terms.take(k as int)),
            total.terms() == k,
            forall|i: int| 0 <= i < k ==> (#[trigger] investments@[i]).amount > 0,
        decreases n - k,
    {
        let inv: Investment = investments[k];
        if inv.amount <= 0 {
            return false;
        }
        proof {
            assert(terms.take(k + 1) =~= terms.take(k as int).push(inv.amount));
            lemma_sum_push(terms.take(k as int), inv.amount);
        }
        total = total.plus(inv.amount);
        k = k + 1;
    }
    assert(terms.take(n as int) =~= terms);
    match total.settle() {
        Clamped::Exact(sum) => sum == raised,
        _ => false,
    }
}

impl StellarBridgeContract {
    /// What holds of the contract between operations.
    pub open spec fn wf(&self) -> bool {
        self@.wf()
    }

    /// A contract that holds nothing and is not yet initialized.
    pub fn new() -> (r: StellarBridgeContract)
        ensures
            r.wf(),
            r@ == ContractView::empty(),
    {
        let r = StellarBridgeContract {
            verifier: None,
            token: None,
            projects: Vec::new(),
            investments: Vec::new(),
        };
        assert(r@ =~~= ContractView::empty());
        r
    }

    /// The contract that holds these records, where they fit together: the
    /// verifier and the token are set together, each project has its list of
    /// investments and the id that its position gives it, stays within its
    /// goal, and has raised what its investments add up to.
    pub fn restore(
        verifier: Option<Identity>,
        token: Option<Identity>,
        projects: Vec<Project>,
        investments: Vec<Vec<Investment>>,
    ) -> (r: Option<StellarBridgeContract>)
        ensures
            r is Some <==> assembled(verifier, token, projects@, investments@).wf(),
            r matches Some(c) ==> c.wf() && c@ == assembled(verifier, token, projects@, investments@),
    {
        let ghost whole = assembled(verifier, token, projects@, investments@);
        if verifier.is_some() != token.is_some() {
            return None;
        }
        if projects.len() != investments.len() || projects.len() > 0xffff_ffff {
            return None;
        }
        let n: usize = projects.len();
        let mut i: usize = 0;
        while i < n
            invariant
                i <= n,
                n == projects.len(),
                n == investments.len(),
                n <= u32::MAX,
                whole == assembled(verifier, token, projects@, investments@),
                forall|k: int| 0 <= k < i ==> (#[trigger] whole.projects[k]).id == k + 1 && whole.projects[k].wf(),
                forall|k: int|
                    0 <= k < i ==> all_positive(#[trigger] whole.investments[k]) && whole.projects[k].raised
                        == invested_total(whole.investments[k]),
            decreases n - i,
        {
            let p: &Project = &projects[i];
            assert(whole.projects[i as int] == p@);
            assert(whole.investments[i as int] == investments@[i as int]@);
            if p.id as usize != i + 1 {
                return None;
            }
            if !project_is_well_formed(p) {
                return None;
            }
            if !investments_add_up(&investments[i], p.raised) {
                return None;
            }
            i = i + 1;
        }
        Some(StellarBridgeContract { verifier, token, projects, investments })
    }

    /// Sets the verifier and the token, once. Refused with
    /// `AlreadyInitialized` where they are set, else with `Unauthorized`
    /// where the caller is not the verifier being set. Projects created
    /// before keep their ids: the project counter never goes back.
    pub fn initialize(&mut self, caller: &Identity, verifier: Identity, token: Identity) -> (r: Result<
        (),
        EscrowError,
    >)
        requires
            old(self).wf(),
        ensures
            final(self).wf(),
            r == old(self)@.initialize_outcome(*caller, verifier),
            final(self)@ == if r is Ok {
                old(self)@.after_initialize(verifier, token)
            } else {
                old(self)@
            },
    {
        if self.verifier.is_some() {
            return Err(EscrowError::AlreadyInitialized);
        }
        if !caller.same(&verifier) {
            return Err(EscrowError::Unauthorized);
        }
        self.verifier = Some(verifier);
        self.token = Some(token);
        assert(self@ =~~= old(self)@.after_initialize(verifier, token));
        Ok(())
    }

    /// Creates a project from the amounts and deadlines that the host handed
    /// over, one pending milestone for each pair, in order, and gives its id:
    /// one more than the number of projects before. Refused with
    /// `Unauthorized` where the caller is not the owner; else with
    /// `MalformedMilestones` where the vectors differ in length or hold an
    /// entry that does not read; else with `BudgetExceeded` where the amounts
    /// add up to more than the goal, the sum taken exactly.
    ///
    /// The contract must hold fewer than `u32::MAX` projects.
    pub fn create_project(
        &mut self,
        caller: &Identity,
        owner: Identity,
        goal_amount: i128,
        milestone_amounts: &soroban_sdk::Vec<i128>,
        milestone_deadlines: &soroban_sdk::Vec<u64>,
    ) -> (r: Result<u32, EscrowError>)
        requires
            old(self).wf(),
            old(self)@.project_count() < u32::MAX,
        ensures
            final(self).wf(),
            r == old(self)@.create_project_host_outcome(
                *caller,
                owner,
                goal_amount,
                host_amounts(*milestone_amounts),
                host_deadlines(*milestone_deadlines),
            ),
            final(self)@ == if r is Ok {
                old(self)@.after_create_project(
                    owner,
                    goal_amount,
                    entries(host_amounts(*milestone_amounts)),
                    entries(host_deadlines(*milestone_deadlines)),
                )
            } else {
                old(self)@
            },
    {
        if !caller.same(&owner) {
            return Err(EscrowError::Unauthorized);
        }
        let amounts: Vec<i128> = match read_amounts(milestone_amounts) {
            Some(v) => v,
            None => {
                return Err(EscrowError::MalformedMilestones);
            },
        };
        let deadlines: Vec<u64> = match read_deadlines(milestone_deadlines) {
            Some(v) => v,
            None => {
                return Err(EscrowError::MalformedMilestones);
            },
        };
        self.register_project(caller, owner, goal_amount, &amounts, &deadlines)
    }

    /// Creates a project from amounts and deadlines given as plain vectors,
    /// one pending milestone for each pair, in order, and gives its id: one
    /// more than the number of projects before. Refused with `Unauthorized`
    /// where the caller is not the owner; else with `MalformedMilestones`
    /// where the vectors differ in length; else with `BudgetExceeded` where
    /// the amounts add up to more than the goal, the sum taken exactly.
    ///
    /// The contract must hold fewer than `u32::MAX` projects.
    pub fn register_project(
        &mut self,
        caller: &Identity,
        owner: Identity,
        goal_amount: i128,
        amounts: &Vec<i128>,
        deadlines: &Vec<u64>,
    ) -> (r: Result<u32, EscrowError>)
        requires
            old(self).wf(),
            old(self)@.project_count() < u32::MAX,
        ensures
            final(self).wf(),
            r == old(self)@.create_project_outcome(*caller, owner, goal_amount, amounts@, deadlines@),
            final(self)@ == if r is Ok {
                old(self)@.after_create_project(owner, goal_amount, amounts@, deadlines@)
            } else {
                old(self)@
            },
    {
        if !caller.same(&owner) {
            return Err(EscrowError::Unauthorized);
        }
        if amounts.len() != deadlines.len() {
            return Err(EscrowError::MalformedMilestones);
        }
        let n: usize = amounts.len();
        let mut milestones: Vec<Milestone> = Vec::new();
        let mut total: WideSum = WideSum::zero();
        let mut i: usize = 0;
        assert(amounts@.take(0) =~= Seq::<i128>::empty());
        while i < n
            invariant
                i <= n,
                n == amounts.len(),
                n == deadlines.len(),
                milestones@.len() == i,
                forall|k: int|
                    0 <= k < i ==> #[trigger] milestones@[k] == Milestone::pending(amounts@[k], deadlines@[k]),
                total.value() == sum_amounts(amounts@.take(i as int)),
                total.terms() == i,
            decreases n - i,
        {
            let amount: i128 = amounts[i];
            let deadline: u64 = deadlines[i];
            proof {
                assert(amounts@.take(i + 1) =~= amounts@.take(i as int).push(amount));
                lemma_sum_push(amounts@.take(i as int), amount);
            }
            milestones.push(
                Milestone { amount, deadline, status: MilestoneStatus::Pending, evidence_hash: None },
            );
            total = total.plus(amount);
            i = i + 1;
        }
        assert(amounts@.take(n as int) =~= amounts@);
        let within_goal: bool = match total.settle() {
            Clamped::Under => true,
            Clamped::Exact(sum) => sum <= goal_amount,
            Clamped::Over => false,
        };
        if !within_goal {
            return Err(EscrowError::BudgetExceeded);
        }
        let id: u32 = self.projects.len() as u32 + 1;
        self.projects.push(
            Project { id, owner, goal_amount, raised: 0, milestones, active: true },
        );
        self.investments.push(Vec::new());
        proof {
            let before = old(self)@;
            let after = before.after_create_project(owner, goal_amount, amounts@, deadlines@);
            let fresh = pending_milestones(amounts@, deadlines@);
            assert(milestones@ =~= fresh);
            assert(milestone_amounts(fresh) =~= amounts@);
            assert(investment_amounts(Seq::<Investment>::empty()) =~= Seq::<i128>::empty());
            assert(self@ =~~= after);
        }
        Ok(id)
    }

    /// Why an investment would be refused, if it would.
    pub fn invest_refusal(&self, caller: &Identity, project_id: u32, investor: &Identity, amount: i128) -> (r:
        Option<EscrowError>)
        requires
            self.wf(),
        ensures
            r == match self@.invest_outcome(*caller, project_id, *investor, amount) {
                Ok(_) => None::<EscrowError>,
                Err(e) => Some(e),
            },
    {
        if !caller.same(investor) {
            return Some(EscrowError::Unauthorized);
        }
        if project_id == 0 || project_id as usize > self.projects.len() {
            return Some(EscrowError::NotFound);
        }
        if !self.projects[(project_id - 1) as usize].active {
            return Some(EscrowError::ProjectInactive);
        }
        if amount <= 0 {
            return Some(EscrowError::InvalidAmount);
        }
        if self.token.is_none() {
            return Some(EscrowError::TokenNotConfigured);
        }
        None
    }

    /// Records an investment made at time `now` and hands back the deposit
    /// to carry out, from the investor into escrow. Refused with
    /// `Unauthorized` where the caller is not the investor; else with
    /// `NotFound` where there is no such project; else with `ProjectInactive`
    /// where the project is closed; else with `InvalidAmount` where the
    /// amount is not positive; else with `TokenNotConfigured` where the
    /// contract is not initialized.
    ///
    /// What the project has raised must stay within `i128::MAX`.
    pub fn invest(
        &mut self,
        caller: &Identity,
        project_id: u32,
        investor: &Identity,
        amount: i128,
        now: u64,
    ) -> (r: Result<Transfer, EscrowError>)
        requires
            old(self).wf(),
            old(self)@.invest_outcome(*caller, project_id, *investor, amount) is Ok ==> old(
                self,
            )@.project(project_id).raised + amount <= i128::MAX,
        ensures
            final(self).wf(),
            r == old(self)@.invest_outcome(*caller, project_id, *investor, amount),
            final(self)@ == if r is Ok {
                old(self)@.after_invest(project_id, *investor, amount, now)
            } else {
                old(self)@
            },
    {
        if let Some(e) = self.invest_refusal(caller, project_id, investor, amount) {
            return Err(e);
        }
        let at: usize = (project_id - 1) as usize;
        let raised: i128 = self.projects[at].raised;
        self.projects[at].raised = raised + amount;
        self.investments[at].push(Investment { investor: *investor, amount, timestamp: now });
        proof {
            let before = old(self)@;
            let after = before.after_invest(project_id, *investor, amount, now);
            lemma_sum_push(
                investment_amounts(before.investments[at as int]),
                amount,
            );
            assert(investment_amounts(after.investments[at as int]) =~= investment_amounts(
                before.investments[at as int],
            ).push(amount));
            assert(self@ =~~= after);
        }
        Ok(Transfer { from: Party::Account(*investor), to: Party::Escrow, amount })
    }

    /// Attaches the evidence hash to a pending milestone, which then awaits
    /// verification. Refused with `NotFound` where there is no such project;
    /// else with `Unauthorized` where the caller is not its owner; else with
    /// `InvalidIndex` where it has no such milestone; else with `NotPending`
    /// where the milestone is past pending.
    pub fn submit_evidence(
        &mut self,
        caller: &Identity,
        project_id: u32,
        milestone_index: u32,
        evidence_hash: [u8; 32],
    ) -> (r: Result<(), EscrowError>)
        requires
            old(self).wf(),
        ensures
            final(self).wf(),
            r == old(self)@.submit_evidence_outcome(*caller, project_id, milestone_index),
            final(self)@ == if r is Ok {
                old(self)@.after_submit_evidence(project_id, milestone_index, evidence_hash)
            } else {
                old(self)@
            },
    {
        if project_id == 0 || project_id as usize > self.projects.len() {
            return Err(EscrowError::NotFound);
        }
        let at: usize = (project_id - 1) as usize;
        if !caller.same(&self.projects[at].owner) {
            return Err(EscrowError::Unauthorized);
        }
        if milestone_index as usize >= self.projects[at].milestones.len() {
            return Err(EscrowError::InvalidIndex);
        }
        let j: usize = milestone_index as usize;
        if self.projects[at].milestones[j].status != MilestoneStatus::Pending {
            return Err(EscrowError::NotPending);
        }
        self.projects[at].milestones[j].evidence_hash = Some(evidence_hash);
        self.projects[at].milestones[j].status = MilestoneStatus::EvidenceSubmitted;
        proof {
            let before = old(self)@;
            let after = before.after_submit_evidence(project_id, milestone_index, evidence_hash);
            assert(milestone_amounts(after.projects[at as int].milestones) =~= milestone_amounts(
                before.projects[at as int].milestones,
            ));
            assert(self@ =~~= after);
        }
        Ok(())
    }

    /// Settles a milestone that awaits verification: verified on approval,
    /// rejected otherwise. On approval hands back the payout to carry out, of
    /// exactly the milestone's amount from escrow to the project's owner.
    /// Refused with `VerifierNotConfigured` where the contract is not
    /// initialized; else with `Unauthorized` where the caller is not the
    /// verifier; else with `NotFound` where there is no such project; else
    /// with `InvalidIndex` where it has no such milestone; else with
    /// `NotAwaitingVerification` where no evidence awaits a verdict.
    pub fn verify_milestone(
        &mut self,
        caller: &Identity,
        project_id: u32,
        milestone_index: u32,
        approved: bool,
    ) -> (r: Result<Option<Transfer>, EscrowError>)
        requires
            old(self).wf(),
        ensures
            final(self).wf(),
            r == old(self)@.verify_milestone_outcome(*caller, project_id, milestone_index, approved),
            final(self)@ == if r is Ok {
                old(self)@.after_verify_milestone(project_id, milestone_index, approved)
            } else {
                old(self)@
            },
    {
        let verifier: Identity = match self.verifier {
            Some(v) => v,
            None => {
                return Err(EscrowError::VerifierNotConfigured);
            },
        };
        if !caller.same(&verifier) {
            return Err(EscrowError::Unauthorized);
        }
        if project_id == 0 || project_id as usize > self.projects.len() {
            return Err(EscrowError::NotFound);
        }
        let at: usize = (project_id - 1) as usize;
        if milestone_index as usize >= self.projects[at].milestones.len() {
            return Err(EscrowError::InvalidIndex);
        }
        let j: usize = milestone_index as usize;
        if self.projects[at].milestones[j].status != MilestoneStatus::EvidenceSubmitted {
            return Err(EscrowError::NotAwaitingVerification);
        }
        let payout: Option<Transfer> = if approved {
            self.projects[at].milestones[j].status = MilestoneStatus::Verified;
            Some(
                Transfer {
                    from: Party::Escrow,
                    to: Party::Account(self.projects[at].owner),
                    amount: self.projects[at].milestones[j].amount,
                },
            )
        } else {
            self.projects[at].milestones[j].status = MilestoneStatus::Rejected;
            None
        };
        proof {
            let before = old(self)@;
            let after = before.after_verify_milestone(project_id, milestone_index, approved);
            assert(milestone_amounts(after.projects[at as int].milestones) =~= milestone_amounts(
                before.projects[at as int].milestones,
            ));
            assert(self@ =~~= after);
        }
        Ok(payout)
    }

    /// Why a refund would be refused, if it would.
    pub fn refund_refusal(&self, project_id: u32, milestone_index: u32, now: u64) -> (r: Option<EscrowError>)
        requires
            self.wf(),
        ensures
            r == self@.refund_refusal(project_id, milestone_index, now),
    {
        if project_id == 0 || project_id as usize > self.projects.len() {
            return Some(EscrowError::NotFound);
        }
        let p: &Project = &self.projects[(project_id - 1) as usize];
        if milestone_index as usize >= p.milestones.len() {
            return Some(EscrowError::InvalidIndex);
        }
        let m: Milestone = p.milestones[milestone_index as usize];
        if now < m.deadline {
            return Some(EscrowError::DeadlineNotReached);
        }
        if m.status == MilestoneStatus::Verified {
            return Some(EscrowError::AlreadyVerified);
        }
        if !p.active {
            return Some(EscrowError::ProjectInactive);
        }
        if self.token.is_none() {
            return Some(EscrowError::TokenNotConfigured);
        }
        None
    }

    /// Settles a project whose milestone missed its deadline unverified:
    /// closes the project and hands back the refunds to dispatch, one for
    /// each investment in order, of `amount * unverified / raised` rounded
    /// down, where that is positive. `unverified` is the sum of the amounts
    /// of the milestones from `milestone_index` on that are not verified.
    /// Anyone may ask. Refused with `NotFound` where there is no such
    /// project; else with `InvalidIndex` where it has no such milestone; else
    /// with `DeadlineNotReached` where `now` is before the milestone's
    /// deadline; else with `AlreadyVerified` where the milestone is verified;
    /// else with `ProjectInactive` where the project was closed before; else
    /// with `TokenNotConfigured` where the contract is not initialized.
    ///
    /// The unverified amount must be within `i128::MAX`.
    pub fn trigger_refund(&mut self, project_id: u32, milestone_index: u32, now: u64) -> (r: Result<
        Vec<Transfer>,
        EscrowError,
    >)
        requires
            old(self).wf(),
            old(self)@.refund_refusal(project_id, milestone_index, now) is None ==> old(self)@.refund_pool(
                project_id,
                milestone_index,
            ) <= i128::MAX,
        ensures
            final(self).wf(),
            match r {
                Ok(transfers) => old(self)@.trigger_refund_outcome(project_id, milestone_index, now) == Ok::<
                    Seq<Transfer>,
                    EscrowError,
                >(transfers@),
                Err(e) => old(self)@.trigger_refund_outcome(project_id, milestone_index, now) == Err::<
                    Seq<Transfer>,
                    EscrowError,
                >(e),
            },
            final(self)@ == if r is Ok {
                old(self)@.after_trigger_refund(project_id)
            } else {
                old(self)@
            },
    {
        if let Some(e) = self.refund_refusal(project_id, milestone_index, now) {
            return Err(e);
        }
        let at: usize = (project_id - 1) as usize;
        let j: usize = milestone_index as usize;
        let raised: i128 = self.projects[at].raised;
        proof {
            lemma_investments_within_raised(self@.investments[at as int]);
        }
        let transfers: Vec<Transfer> = match unverified_sum(&self.projects[at].milestones, j) {
            Clamped::Exact(pool) => proportional_refunds(&self.investments[at], pool, raised),
            _ => {
                proof {
                    lemma_no_refund_without_pool(
                        self@.investments[at as int],
                        self@.refund_pool(project_id, milestone_index),
                        raised as int,
                    );
                }
                Vec::new()
            },
        };
        self.projects[at].active = false;
        proof {
            assert(self@ =~~= old(self)@.after_trigger_refund(project_id));
        }
        Ok(transfers)
    }

    /// The project with this id, as it stands; `NotFound` where there is
    /// none.
    pub fn get_project(&self, project_id: u32) -> (r: Result<Project, EscrowError>)
        requires
            self.wf(),
        ensures
            match r {
                Ok(p) => self@.has_project(project_id) && p@ == self@.project(project_id),
                Err(e) => !self@.has_project(project_id) && e == EscrowError::NotFound,
            },
    {
        if project_id == 0 || project_id as usize > self.projects.len() {
            return Err(EscrowError::NotFound);
        }
        let p: &Project = &self.projects[(project_id - 1) as usize];
        let snapshot = Project {
            id: p.id,
            owner: p.owner,
            goal_amount: p.goal_amount,
            raised: p.raised,
            milestones: p.milestones.clone(),
            active: p.active,
        };
        assert(snapshot@ =~~= p@);
        Ok(snapshot)
    }

    /// What one investor has put into one project so far; nothing where there
    /// is no such project or no such investor.
    pub fn get_investor_amount(&self, project_id: u32, investor: &Identity) -> (r: i128)
        requires
            self.wf(),
        ensures
            r == self@.investor_amount(project_id, *investor),
    {
        if project_id == 0 || project_id as usize > self.projects.len() {
            return 0;
        }
        let at: usize = (project_id - 1) as usize;
        let invs: &Vec<Investment> = &self.investments[at];
        let n: usize = invs.len();
        let mut total: WideSum = WideSum::zero();
        let mut k: usize = 0;
        let ghost terms = amounts_by(invs@, *investor);
        assert(terms.take(0) =~= Seq::<i128>::empty());
        while k < n
            invariant
                k <= n,
                n == invs.len(),
                terms == amounts_by(invs@, *investor),
                total.value() == sum_amounts(terms.take(k as int)),
                total.terms() == k,
            decreases n - k,
        {
            let x: i128 = if invs[k].investor.same(investor) {
                invs[k].amount
            } else {
                0
            };
            proof {
                assert(terms.take(k + 1) =~= terms.take(k as int).push(x));
                lemma_sum_push(terms.take(k as int), x);
            }
            total = total.plus(x);
            k = k + 1;
        }
        proof {
            assert(terms.take(n as int) =~= terms);
            assert(invs@ == self@.investments[at as int]);
            assert(all_positive(invs@));
            lemma_sum_pointwise(terms, investment_amounts(invs@));
            lemma_sum_nonnegative(terms);
        }
        match total.settle() {
            Clamped::Exact(sum) => sum,
            _ => 0,
        }
    }

    /// How many projects were created.
    pub fn get_project_count(&self) -> (r: u32)
        requires
            self.wf(),
        ensures
            r == self@.project_count(),
    {
        self.projects.len() as u32
    }

    /// The investments of a project, in the order they were made; none where
    /// there is no such project.
    pub fn get_investments(&self, project_id: u32) -> (r: Vec<Investment>)
        requires
            self.wf(),
        ensures
            r@ == if self@.has_project(project_id) {
                self@.investments_of(project_id)
            } else {
                Seq::<Investment>::empty()
            },
    {
        if project_id == 0 || project_id as usize > self.projects.len() {
            return Vec::new();
        }
        self.investments[(project_id - 1) as usize].clone()
    }

    /// The verifier, once the contract is initialized.
    pub fn get_verifier(&self) -> (r: Option<Identity>)
        ensures
            r == self@.verifier,
    {
        self.verifier
    }

    /// The token that the escrow holds, once the contract is initialized.
    pub fn get_token(&self) -> (r: Option<Identity>)
        ensures
            r == self@.token,
    {
        self.token
    }
}

} // verus!
