//! What holds of the escrow whatever is asked of it.

use vstd::prelude::*;
use crate::model::{
    all_positive, amounts_by, invested_total, investment_amounts, milestone_amounts, milestone_total,
    pending_milestones, refund_share, refunds, sum_amounts, transferred_total, ContractView,
};
use crate::refund::{
    lemma_investments_within_raised, lemma_refund_has_investment, lemma_refunds_bounded, lemma_refunds_rounding,
};
use crate::sums::lemma_sum_push;
use crate::types::{EscrowError, Identity, Investment, Milestone, MilestoneStatus, Party, ProjectView, Transfer};

verus! {

/// One request to the contract, with its arguments.
pub enum Call {
    Initialize { caller: Identity, verifier: Identity, token: Identity },
    CreateProject { caller: Identity, owner: Identity, goal_amount: i128, amounts: Seq<i128>, deadlines: Seq<u64> },
    Invest { caller: Identity, project_id: u32, investor: Identity, amount: i128, now: u64 },
    SubmitEvidence { caller: Identity, project_id: u32, milestone_index: u32, evidence_hash: [u8; 32] },
    VerifyMilestone { caller: Identity, project_id: u32, milestone_index: u32, approved: bool },
    TriggerRefund { project_id: u32, milestone_index: u32, now: u64 },
}

impl ContractView {
    /// Whether the request takes effect.
    pub open spec fn accepts(self, call: Call) -> bool {
        match call {
            Call::Initialize { caller, verifier, token } => self.initialize_outcome(caller, verifier) is Ok,
            Call::CreateProject { caller, owner, goal_amount, amounts, deadlines } => self.create_project_outcome(
                caller,
                owner,
                goal_amount,
                amounts,
                deadlines,
            ) is Ok,
            Call::Invest { caller, project_id, investor, amount, now } => self.invest_outcome(
                caller,
                project_id,
                investor,
                amount,
            ) is Ok,
            Call::SubmitEvidence { caller, project_id, milestone_index, evidence_hash } => self.submit_evidence_outcome(
                caller,
                project_id,
                milestone_index,
            ) is Ok,
            Call::VerifyMilestone { caller, project_id, milestone_index, approved } => self.verify_milestone_outcome(
                caller,
                project_id,
                milestone_index,
                approved,
            ) is Ok,
            Call::TriggerRefund { project_id, milestone_index, now } => self.trigger_refund_outcome(
                project_id,
                milestone_index,
                now,
            ) is Ok,
        }
    }

    /// Whether the request stays within what the machine can hold: the
    /// project counter, the raised amount and the refund pool fit their
    /// types.
    pub open spec fn in_range(self, call: Call) -> bool {
        match call {
            Call::CreateProject { .. } => self.project_count() < u32::MAX,
            Call::Invest { project_id, amount, .. } => self.project(project_id).raised + amount <= i128::MAX,
            Call::TriggerRefund { project_id, milestone_index, .. } => self.refund_pool(project_id, milestone_index)
                <= i128::MAX,
            _ => true,
        }
    }

    /// The contract after the request: changed where the request takes
    /// effect, as it was where it is refused.
    pub open spec fn step(self, call: Call) -> ContractView {
        if !self.accepts(call) {
            self
        } else {
            match call {
                Call::Initialize { caller, verifier, token } => self.after_initialize(verifier, token),
                Call::CreateProject { caller, owner, goal_amount, amounts, deadlines } => self.after_create_project(
                    owner,
                    goal_amount,
                    amounts,
                    deadlines,
                ),
                Call::Invest { caller, project_id, investor, amount, now } => self.after_invest(
                    project_id,
                    investor,
                    amount,
                    now,
                ),
                Call::SubmitEvidence { caller, project_id, milestone_index, evidence_hash } => self.after_submit_evidence(
                    project_id,
                    milestone_index,
                    evidence_hash,
                ),
                Call::VerifyMilestone { caller, project_id, milestone_index, approved } => self.after_verify_milestone(
                    project_id,
                    milestone_index,
                    approved,
                ),
                Call::TriggerRefund { project_id, milestone_index, now } => self.after_trigger_refund(project_id),
            }
        }
    }

    /// The transfers that the request hands to the payment rail.
    pub open spec fn transfers(self, call: Call) -> Seq<Transfer> {
        match call {
            Call::Invest { caller, project_id, investor, amount, now } => match self.invest_outcome(
                caller,
                project_id,
                investor,
                amount,
            ) {
                Ok(t) => seq![t],
                Err(_) => Seq::empty(),
            },
            Call::VerifyMilestone { caller, project_id, milestone_index, approved } => match self.verify_milestone_outcome(
                caller,
                project_id,
                milestone_index,
                approved,
            ) {
                Ok(Some(t)) => seq![t],
                _ => Seq::empty(),
            },
            Call::TriggerRefund { project_id, milestone_index, now } => match self.trigger_refund_outcome(
                project_id,
                milestone_index,
                now,
            ) {
                Ok(ts) => ts,
                Err(_) => Seq::empty(),
            },
            _ => Seq::empty(),
        }
    }

    /// The contract after a run of requests, each on what the one before
    /// left.
    pub open spec fn run(self, calls: Seq<Call>) -> ContractView
        decreases calls.len(),
    {
        if calls.len() == 0 {
            self
        } else {
            self.run(calls.drop_last()).step(calls.last())
        }
    }

    /// Whether every request of the run stays within what the machine can
    /// hold, on the state it meets.
    pub open spec fn run_in_range(self, calls: Seq<Call>) -> bool
        decreases calls.len(),
    {
        calls.len() > 0 ==> self.run_in_range(calls.drop_last()) && (self.run(calls.drop_last()).accepts(
            calls.last(),
        ) ==> self.run(calls.drop_last()).in_range(calls.last()))
    }

    /// Whether `later` can be what this contract has become: nothing it holds
    /// was taken back.
    pub open spec fn grows_into(self, later: ContractView) -> bool {
        &&& self.projects.len() <= later.projects.len()
        &&& self.investments.len() <= later.investments.len()
        &&& self.verifier.is_some() ==> later.verifier == self.verifier && later.token == self.token
        &&& forall|i: int|
            0 <= i < self.projects.len() ==> (#[trigger] self.projects[i]).grows_into(later.projects[i])
        &&& forall|i: int|
            0 <= i < self.investments.len() ==> (#[trigger] self.investments[i]).is_prefix_of(
                later.investments[i],
            )
    }
}

/// Whether a milestone in status `from` may be found in status `to` one
/// operation later: where it was, or one step along
/// Pending, EvidenceSubmitted, then Verified or Rejected.
pub open spec fn moves_to(from: MilestoneStatus, to: MilestoneStatus) -> bool {
    ||| to == from
    ||| from == MilestoneStatus::Pending && to == MilestoneStatus::EvidenceSubmitted
    ||| from == MilestoneStatus::EvidenceSubmitted && (to == MilestoneStatus::Verified || to
        == MilestoneStatus::Rejected)
}

/// Whether a milestone in status `from` may be found in status `to` any time
/// later.
pub open spec fn leads_to(from: MilestoneStatus, to: MilestoneStatus) -> bool {
    match from {
        MilestoneStatus::Pending => true,
        MilestoneStatus::EvidenceSubmitted => to != MilestoneStatus::Pending,
        MilestoneStatus::Verified => to == MilestoneStatus::Verified,
        MilestoneStatus::Rejected => to == MilestoneStatus::Rejected,
    }
}

impl Milestone {
    /// Whether `later` can be what this milestone has become.
    pub open spec fn grows_into(self, later: Milestone) -> bool {
        &&& later.amount == self.amount
        &&& later.deadline == self.deadline
        &&& leads_to(self.status, later.status)
        &&& self.evidence_hash.is_some() ==> later.evidence_hash == self.evidence_hash
    }
}

impl ProjectView {
    /// Whether `later` can be what this project has become.
    pub open spec fn grows_into(self, later: ProjectView) -> bool {
        &&& later.id == self.id
        &&& later.owner == self.owner
        &&& later.goal_amount == self.goal_amount
        &&& later.raised >= self.raised
        &&& later.active ==> self.active
        &&& later.milestones.len() == self.milestones.len()
        &&& forall|j: int|
            0 <= j < self.milestones.len() ==> (#[trigger] self.milestones[j]).grows_into(later.milestones[j])
    }
}

/// Every operation leaves the contract well formed.
pub proof fn law_step_keeps_well_formed(s: ContractView, call: Call)
    requires
        s.wf(),
        s.accepts(call) ==> s.in_range(call),
    ensures
        s.step(call).wf(),
{
    if s.accepts(call) {
        let t = s.step(call);
        match call {
            Call::Initialize { .. } => {},
            Call::CreateProject { caller, owner, goal_amount, amounts, deadlines } => {
                assert(milestone_amounts(pending_milestones(amounts, deadlines)) =~= amounts);
                assert(investment_amounts(Seq::<Investment>::empty()) =~= Seq::<i128>::empty());
            },
            Call::Invest { caller, project_id, investor, amount, now } => {
                let at = project_id - 1;
                lemma_sum_push(investment_amounts(s.investments[at]), amount);
                assert(investment_amounts(t.investments[at]) =~= investment_amounts(s.investments[at]).push(
                    amount,
                ));
            },
            Call::SubmitEvidence { caller, project_id, milestone_index, evidence_hash } => {
                let at = project_id - 1;
                assert(milestone_amounts(t.projects[at].milestones) =~= milestone_amounts(
                    s.projects[at].milestones,
                ));
            },
            Call::VerifyMilestone { caller, project_id, milestone_index, approved } => {
                let at = project_id - 1;
                assert(milestone_amounts(t.projects[at].milestones) =~= milestone_amounts(
                    s.projects[at].milestones,
                ));
            },
            Call::TriggerRefund { .. } => {},
        }
    }
}

/// One operation moves the status of a milestone at most one step along
/// Pending, EvidenceSubmitted, then Verified or Rejected, never back and never
/// past EvidenceSubmitted in one go; and it changes nothing else of what a
/// project or milestone was created with.
pub proof fn law_status_moves_one_step(s: ContractView, call: Call, project_id: u32, milestone_index: u32)
    requires
        s.wf(),
        s.has_project(project_id),
        s.project(project_id).has_milestone(milestone_index),
    ensures
        s.step(call).has_project(project_id),
        s.step(call).project(project_id).has_milestone(milestone_index),
        moves_to(
            s.project(project_id).milestones[milestone_index as int].status,
            s.step(call).project(project_id).milestones[milestone_index as int].status,
        ),
        s.project(project_id).milestones[milestone_index as int].grows_into(
            s.step(call).project(project_id).milestones[milestone_index as int],
        ),
{
}

/// What an operation leaves behind holds everything that was there before:
/// projects keep their id, owner, goal and milestones, the raised amount does
/// not fall, a closed project stays closed, a status does not go back, and
/// the record of investments only grows.
pub proof fn law_step_grows(s: ContractView, call: Call)
    requires
        s.wf(),
        s.accepts(call) ==> s.in_range(call),
    ensures
        s.grows_into(s.step(call)),
{
    let t = s.step(call);
    assert forall|i: int| 0 <= i < s.investments.len() implies (#[trigger] s.investments[i]).is_prefix_of(
        t.investments[i],
    ) by {
        assert(s.investments[i] =~= t.investments[i].subrange(0, s.investments[i].len() as int));
    }
    assert forall|i: int| 0 <= i < s.projects.len() implies (#[trigger] s.projects[i]).grows_into(
        t.projects[i],
    ) by {
        assert(s.projects[i].wf());
    }
}

/// Growth carries over: what has grown out of a contract that itself grew out
/// of another has grown out of that one.
pub proof fn law_growth_is_transitive(a: ContractView, b: ContractView, c: ContractView)
    requires
        a.grows_into(b),
        b.grows_into(c),
    ensures
        a.grows_into(c),
{
    assert forall|i: int| 0 <= i < a.projects.len() implies (#[trigger] a.projects[i]).grows_into(
        c.projects[i],
    ) by {
        assert(a.projects[i].grows_into(b.projects[i]));
        assert(b.projects[i].grows_into(c.projects[i]));
        assert forall|j: int| 0 <= j < a.projects[i].milestones.len() implies (
        #[trigger] a.projects[i].milestones[j]).grows_into(c.projects[i].milestones[j]) by {
            assert(a.projects[i].milestones[j].grows_into(b.projects[i].milestones[j]));
            assert(b.projects[i].milestones[j].grows_into(c.projects[i].milestones[j]));
        }
    }
    assert forall|i: int| 0 <= i < a.investments.len() implies (#[trigger] a.investments[i]).is_prefix_of(
        c.investments[i],
    ) by {
        let x = a.investments[i];
        let y = b.investments[i];
        let z = c.investments[i];
        assert(x.is_prefix_of(y));
        assert(y.is_prefix_of(z));
        assert(x =~= y.subrange(0, x.len() as int));
        assert(y =~= z.subrange(0, y.len() as int));
        assert(x =~= z.subrange(0, x.len() as int));
    }
}

/// Over any run of operations the contract stays well formed and only grows:
/// in particular the status of a milestone follows Pending,
/// EvidenceSubmitted, then Verified or Rejected, and never goes back.
pub proof fn law_run_grows(s: ContractView, calls: Seq<Call>)
    requires
        s.wf(),
        s.run_in_range(calls),
    ensures
        s.run(calls).wf(),
        s.grows_into(s.run(calls)),
    decreases calls.len(),
{
    if calls.len() == 0 {
        assert forall|i: int| 0 <= i < s.investments.len() implies (#[trigger] s.investments[i]).is_prefix_of(
            s.investments[i],
        ) by {
            assert(s.investments[i] =~= s.investments[i].subrange(0, s.investments[i].len() as int));
        }
    } else {
        let mid = s.run(calls.drop_last());
        law_run_grows(s, calls.drop_last());
        law_step_keeps_well_formed(mid, calls.last());
        law_step_grows(mid, calls.last());
        law_growth_is_transitive(s, mid, mid.step(calls.last()));
    }
}

/// A project is created only within its goal: where the amounts add up to
/// more than the goal the request is refused and nothing changes, and a
/// created project's milestones add up to at most its goal.
pub proof fn law_created_project_within_goal(
    s: ContractView,
    caller: Identity,
    owner: Identity,
    goal_amount: i128,
    amounts: Seq<i128>,
    deadlines: Seq<u64>,
)
    requires
        s.wf(),
        s.project_count() < u32::MAX,
    ensures
        ({
            let call = Call::CreateProject { caller, owner, goal_amount, amounts, deadlines };
            let outcome = s.create_project_outcome(caller, owner, goal_amount, amounts, deadlines);
            &&& sum_amounts(amounts) > goal_amount ==> outcome is Err && s.step(call) == s
            &&& outcome matches Ok(id) ==> sum_amounts(amounts) <= goal_amount && milestone_total(
                s.step(call).project(id).milestones,
            ) == sum_amounts(amounts)
        }),
{
    assert(amounts.len() == deadlines.len() ==> milestone_amounts(pending_milestones(amounts, deadlines))
        =~= amounts);
}

/// A project that was just created reads back as it was given: the next id,
/// the owner, the goal, nothing raised, active, and one pending milestone for
/// each amount and deadline, in order.
pub proof fn law_created_project_reads_back(
    s: ContractView,
    caller: Identity,
    owner: Identity,
    goal_amount: i128,
    amounts: Seq<i128>,
    deadlines: Seq<u64>,
)
    requires
        s.wf(),
        s.project_count() < u32::MAX,
        s.create_project_outcome(caller, owner, goal_amount, amounts, deadlines) is Ok,
    ensures
        ({
            let id = s.create_project_outcome(caller, owner, goal_amount, amounts, deadlines)->Ok_0;
            let after = s.after_create_project(owner, goal_amount, amounts, deadlines);
            &&& id == s.project_count() + 1
            &&& after.project_count() == id
            &&& after.has_project(id)
            &&& after.project(id).id == id
            &&& after.project(id).owner == owner
            &&& after.project(id).goal_amount == goal_amount
            &&& after.project(id).raised == 0
            &&& after.project(id).active
            &&& after.project(id).milestones.len() == amounts.len()
            &&& forall|j: int|
                0 <= j < amounts.len() ==> #[trigger] after.project(id).milestones[j] == Milestone::pending(
                    amounts[j],
                    deadlines[j],
                )
            &&& after.investments_of(id) == Seq::<Investment>::empty()
        }),
{
}

/// A closed project takes no investment, whatever the amount.
pub proof fn law_inactive_project_takes_no_investment(
    s: ContractView,
    caller: Identity,
    project_id: u32,
    investor: Identity,
    amount: i128,
)
    requires
        s.has_project(project_id),
        !s.project(project_id).active,
    ensures
        s.invest_outcome(caller, project_id, investor, amount) is Err,
        caller == investor ==> s.invest_outcome(caller, project_id, investor, amount) == Err::<
            Transfer,
            EscrowError,
        >(EscrowError::ProjectInactive),
{
}

/// An investment that is taken is credited: the project's raised amount and
/// the investor's total grow by the amount, the investment is the last on the
/// project's record, and no other investor's total changes.
pub proof fn law_investment_is_credited(
    s: ContractView,
    caller: Identity,
    project_id: u32,
    investor: Identity,
    amount: i128,
    now: u64,
    other: Identity,
)
    requires
        s.wf(),
        s.invest_outcome(caller, project_id, investor, amount) is Ok,
        s.project(project_id).raised + amount <= i128::MAX,
    ensures
        ({
            let after = s.after_invest(project_id, investor, amount, now);
            &&& after.project(project_id).raised == s.project(project_id).raised + amount
            &&& after.investments_of(project_id) == s.investments_of(project_id).push(
                Investment { investor, amount, timestamp: now },
            )
            &&& after.investor_amount(project_id, investor) == s.investor_amount(project_id, investor) + amount
            &&& other != investor ==> after.investor_amount(project_id, other) == s.investor_amount(
                project_id,
                other,
            )
        }),
{
    let invs = s.investments_of(project_id);
    let inv = Investment { investor, amount, timestamp: now };
    assert(amounts_by(invs.push(inv), investor) =~= amounts_by(invs, investor).push(amount));
    lemma_sum_push(amounts_by(invs, investor), amount);
    if other != investor {
        assert(amounts_by(invs.push(inv), other) =~= amounts_by(invs, other).push(0i128));
        lemma_sum_push(amounts_by(invs, other), 0i128);
    }
}

/// Funds leave escrow for the owner on approval only. A transfer out of
/// escrow comes either from an approval, and is then the one transfer of
/// exactly the milestone's amount to the project's owner, for a milestone
/// that awaited verification and is verified from then on; or from a refund,
/// and then goes to the investor of one of the project's investments and is
/// that investment's share.
pub proof fn law_payout_only_on_approval(s: ContractView, call: Call, k: int)
    requires
        s.wf(),
        0 <= k < s.transfers(call).len(),
        s.transfers(call)[k].from == Party::Escrow,
    ensures
        match call {
            Call::VerifyMilestone { caller, project_id, milestone_index, approved } => {
                &&& approved
                &&& s.project(project_id).milestones[milestone_index as int].status
                    == MilestoneStatus::EvidenceSubmitted
                &&& s.step(call).project(project_id).milestones[milestone_index as int].status
                    == MilestoneStatus::Verified
                &&& s.transfers(call) == seq![
                    Transfer::payout(
                        s.project(project_id).owner,
                        s.project(project_id).milestones[milestone_index as int].amount,
                    ),
                ]
            },
            Call::TriggerRefund { project_id, milestone_index, now } => {
                let invs = s.investments_of(project_id);
                let pool = s.refund_pool(project_id, milestone_index);
                let raised = s.project(project_id).raised as int;
                exists|i: int|
                    0 <= i < invs.len() && refund_share((#[trigger] invs[i]).amount as int, pool, raised) > 0
                        && s.transfers(call)[k] == Transfer::payout(
                        invs[i].investor,
                        refund_share(invs[i].amount as int, pool, raised) as i128,
                    )
            },
            _ => false,
        },
{
    match call {
        Call::TriggerRefund { project_id, milestone_index, now } => {
            lemma_refund_has_investment(
                s.investments_of(project_id),
                s.refund_pool(project_id, milestone_index),
                s.project(project_id).raised as int,
                k,
            );
        },
        _ => {},
    }
}

/// A verified milestone is settled for good: whatever is asked of the
/// contract afterwards, it stays verified, it is not paid out again, and it
/// is not refunded.
pub proof fn law_verified_milestone_is_final(
    s: ContractView,
    calls: Seq<Call>,
    project_id: u32,
    milestone_index: u32,
    caller: Identity,
    approved: bool,
    now: u64,
)
    requires
        s.wf(),
        s.run_in_range(calls),
        s.has_project(project_id),
        s.project(project_id).has_milestone(milestone_index),
        s.project(project_id).milestones[milestone_index as int].status == MilestoneStatus::Verified,
    ensures
        s.run(calls).has_project(project_id),
        s.run(calls).project(project_id).has_milestone(milestone_index),
        s.run(calls).project(project_id).milestones[milestone_index as int].status == MilestoneStatus::Verified,
        s.run(calls).verify_milestone_outcome(caller, project_id, milestone_index, approved) is Err,
        s.run(calls).trigger_refund_outcome(project_id, milestone_index, now) is Err,
{
    law_run_grows(s, calls);
    let at = project_id - 1;
    assert(s.projects[at].grows_into(s.run(calls).projects[at]));
    assert(s.projects[at].milestones[milestone_index as int].grows_into(
        s.run(calls).projects[at].milestones[milestone_index as int],
    ));
}

/// A refund takes effect only for a milestone of an active project that is
/// past its deadline and not verified.
pub proof fn law_refund_needs_missed_deadline(s: ContractView, project_id: u32, milestone_index: u32, now: u64)
    ensures
        s.trigger_refund_outcome(project_id, milestone_index, now) is Ok ==> {
            &&& s.has_project(project_id)
            &&& s.project(project_id).has_milestone(milestone_index)
            &&& s.project(project_id).milestones[milestone_index as int].deadline <= now
            &&& s.project(project_id).milestones[milestone_index as int].status != MilestoneStatus::Verified
            &&& s.project(project_id).active
        },
{
}

/// A refund closes the project, so that it is refunded once: after it, a
/// further refund and a further investment are refused.
pub proof fn law_refund_closes_project(
    s: ContractView,
    project_id: u32,
    milestone_index: u32,
    now: u64,
    caller: Identity,
    investor: Identity,
    amount: i128,
    again_index: u32,
    again_now: u64,
)
    requires
        s.wf(),
        s.trigger_refund_outcome(project_id, milestone_index, now) is Ok,
    ensures
        ({
            let after = s.after_trigger_refund(project_id);
            &&& !after.project(project_id).active
            &&& after.trigger_refund_outcome(project_id, again_index, again_now) is Err
            &&& after.invest_outcome(caller, project_id, investor, amount) is Err
        }),
{
}

/// The refunds of one call add up to at most the unverified amount, and fall
/// short of it by less than one unit for each investment.
pub proof fn law_refunds_within_pool(s: ContractView, project_id: u32, milestone_index: u32, now: u64)
    requires
        s.wf(),
        s.trigger_refund_outcome(project_id, milestone_index, now) is Ok,
        0 <= s.refund_pool(project_id, milestone_index) <= i128::MAX,
    ensures
        ({
            let dispatched = s.trigger_refund_outcome(project_id, milestone_index, now)->Ok_0;
            let pool = s.refund_pool(project_id, milestone_index);
            let count = s.investments_of(project_id).len();
            &&& 0 <= transferred_total(dispatched) <= pool
            &&& count > 0 ==> pool - transferred_total(dispatched) < count
            &&& count == 0 ==> transferred_total(dispatched) == 0
        }),
{
    let invs = s.investments_of(project_id);
    let pool = s.refund_pool(project_id, milestone_index);
    let raised = s.project(project_id).raised as int;
    let total = transferred_total(refunds(invs, pool, raised));
    let count = invs.len() as int;
    assert(all_positive(invs));
    assert(raised == invested_total(invs));
    lemma_investments_within_raised(invs);
    lemma_refunds_bounded(invs, pool, raised);
    lemma_refunds_rounding(invs, pool, raised);
    if invs.len() > 0 {
        assert(invs[0].amount > 0);
        assert(total <= pool && pool - total < count) by (nonlinear_arith)
            requires
                raised > 0,
                total * raised <= pool * raised,
                total * raised + count * raised > pool * raised,
        ;
    }
}

} // verus!
