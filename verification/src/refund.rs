//! The refund engine: what is still unverified, and each investor's share of
//! it.

use vstd::prelude::*;
use crate::arith::{mul_div, Clamped, WideSum};
use crate::model::{
    all_positive, invested_total, investment_amounts, refund_share, refundable_amounts, refunds, sum_amounts,
    transfer_amounts, transferred_total, unverified_amount,
};
use crate::sums::{lemma_sum_push, lemma_term_within_sum};
use crate::types::{Investment, Milestone, MilestoneStatus, Party, Transfer};

verus! {

/// The sum of the amounts of the milestones at `from` and after that are not
/// verified, or on which side of the 128-bit range it falls.
pub fn unverified_sum(milestones: &Vec<Milestone>, from: usize) -> (r: Clamped)
    requires
        from <= milestones.len(),
    ensures
        r.is_clamp_of(unverified_amount(milestones@, from as int)),
{
    let n: usize = milestones.len();
    let mut acc: WideSum = WideSum::zero();
    let mut j: usize = from;
    let ghost terms = refundable_amounts(milestones@);
    assert(terms.subrange(from as int, from as int) =~= Seq::<i128>::empty());
    while j < n
        invariant
            from <= j <= n,
            n == milestones.len(),
            terms == refundable_amounts(milestones@),
            acc.value() == sum_amounts(terms.subrange(from as int, j as int)),
            acc.terms() == j - from,
        decreases n - j,
    {
        let m: Milestone = milestones[j];
        let x: i128 = if m.status != MilestoneStatus::Verified {
            m.amount
        } else {
            0
        };
        proof {
            assert(terms.subrange(from as int, j + 1) =~= terms.subrange(from as int, j as int).push(x));
            lemma_sum_push(terms.subrange(from as int, j as int), x);
        }
        acc = acc.plus(x);
        j = j + 1;
    }
    acc.settle()
}

/// No refund is due from an unverified amount that is not positive.
pub proof fn lemma_no_refund_without_pool(invs: Seq<Investment>, unverified: int, raised: int)
    requires
        unverified <= 0,
        forall|i: int| 0 <= i < invs.len() ==> 0 < (#[trigger] invs[i]).amount <= raised,
    ensures
        refunds(invs, unverified, raised) == Seq::<Transfer>::empty(),
    decreases invs.len(),
{
    if invs.len() > 0 {
        lemma_no_refund_without_pool(invs.drop_last(), unverified, raised);
        let a = invs.last().amount as int;
        assert((a * unverified) / raised <= 0) by (nonlinear_arith)
            requires
                0 < a <= raised,
                unverified <= 0,
        ;
    }
}

/// The refunds to dispatch for one project, in the order of its investments:
/// to each investor `amount * unverified / raised`, rounded down, where that
/// is positive.
pub fn proportional_refunds(investments: &Vec<Investment>, unverified: i128, raised: i128) -> (r: Vec<
    Transfer,
>)
    requires
        forall|i: int| 0 <= i < investments.len() ==> 0 < (#[trigger] investments[i]).amount <= raised,
    ensures
        r@ == refunds(investments@, unverified as int, raised as int),
{
    let mut out: Vec<Transfer> = Vec::new();
    if unverified <= 0 {
        proof {
            lemma_no_refund_without_pool(investments@, unverified as int, raised as int);
        }
        return out;
    }
    let n: usize = investments.len();
    let mut k: usize = 0;
    assert(investments@.take(0) =~= Seq::<Investment>::empty());
    while k < n
        invariant
            k <= n,
            n == investments.len(),
            unverified > 0,
            forall|i: int| 0 <= i < investments.len() ==> 0 < (#[trigger] investments[i]).amount <= raised,
            out@ == refunds(investments@.take(k as int), unverified as int, raised as int),
        decreases n - k,
    {
        let inv: Investment = investments[k];
        let share: i128 = mul_div(inv.amount, unverified, raised);
        proof {
            assert(investments@.take(k + 1).drop_last() =~= investments@.take(k as int));
            assert(investments@.take(k + 1).last() == inv);
        }
        if share > 0 {
            out.push(Transfer { from: Party::Escrow, to: Party::Account(inv.investor), amount: share });
        }
        k = k + 1;
    }
    assert(investments@.take(n as int) =~= investments@);
    out
}

/// Every investment of a project is positive and within what was raised.
pub proof fn lemma_investments_within_raised(invs: Seq<Investment>)
    requires
        all_positive(invs),
    ensures
        forall|i: int| 0 <= i < invs.len() ==> 0 < (#[trigger] invs[i]).amount <= invested_total(invs),
{
    assert forall|i: int| 0 <= i < invs.len() implies 0 < (#[trigger] invs[i]).amount <= invested_total(
        invs,
    ) by {
        assert forall|j: int| 0 <= j < investment_amounts(invs).len() implies investment_amounts(invs)[j]
            >= 0 by {
            assert(invs[j].amount > 0);
        }
        lemma_term_within_sum(investment_amounts(invs), i);
    }
}

/// The refunds of one call never add up to more than the unverified amount
/// they are shares of: `sum(refunds) * raised <= unverified * sum(investments)`.
pub proof fn lemma_refunds_bounded(invs: Seq<Investment>, unverified: int, raised: int)
    requires
        0 <= unverified <= i128::MAX,
        forall|i: int| 0 <= i < invs.len() ==> 0 < (#[trigger] invs[i]).amount <= raised,
    ensures
        transferred_total(refunds(invs, unverified, raised)) * raised <= unverified * invested_total(invs),
        transferred_total(refunds(invs, unverified, raised)) >= 0,
    decreases invs.len(),
{
    if invs.len() == 0 {
        assert(transfer_amounts(Seq::<Transfer>::empty()) =~= Seq::<i128>::empty());
        assert(investment_amounts(invs) =~= Seq::<i128>::empty());
        assert(0 * raised <= unverified * 0) by (nonlinear_arith);
    } else {
        let before = invs.drop_last();
        lemma_refunds_bounded(before, unverified, raised);
        let a = invs.last().amount as int;
        let share = refund_share(a, unverified, raised);
        let t0 = transferred_total(refunds(before, unverified, raised));
        let s0 = invested_total(before);
        assert(investment_amounts(invs).drop_last() =~= investment_amounts(before));
        assert(invested_total(invs) == s0 + a);
        assert(0 <= share <= unverified && share * raised <= a * unverified) by (nonlinear_arith)
            requires
                share == (a * unverified) / raised,
                0 < a <= raised,
                unverified >= 0,
        ;
        if share > 0 {
            let t = Transfer::payout(invs.last().investor, share as i128);
            assert(transfer_amounts(refunds(before, unverified, raised).push(t)) =~= transfer_amounts(
                refunds(before, unverified, raised),
            ).push(t.amount));
            lemma_sum_push(transfer_amounts(refunds(before, unverified, raised)), t.amount);
        }
        let t1 = transferred_total(refunds(invs, unverified, raised));
        assert(t1 == t0 + share);
        assert(t1 * raised <= unverified * (s0 + a)) by (nonlinear_arith)
            requires
                t0 * raised <= unverified * s0,
                share * raised <= a * unverified,
                t1 == t0 + share,
                raised > 0,
        ;
    }
}

/// Rounding down loses less than one unit for each investment:
/// `sum(refunds) * raised + count * raised > unverified * sum(investments)`
/// where there is an investment.
pub proof fn lemma_refunds_rounding(invs: Seq<Investment>, unverified: int, raised: int)
    requires
        0 <= unverified <= i128::MAX,
        forall|i: int| 0 <= i < invs.len() ==> 0 < (#[trigger] invs[i]).amount <= raised,
    ensures
        invs.len() == 0 ==> transferred_total(refunds(invs, unverified, raised)) == 0,
        invs.len() > 0 ==> transferred_total(refunds(invs, unverified, raised)) * raised + invs.len() * raised
            > unverified * invested_total(invs),
    decreases invs.len(),
{
    if invs.len() == 0 {
        assert(transfer_amounts(Seq::<Transfer>::empty()) =~= Seq::<i128>::empty());
    } else {
        let before = invs.drop_last();
        lemma_refunds_rounding(before, unverified, raised);
        let a = invs.last().amount as int;
        let share = refund_share(a, unverified, raised);
        let t0 = transferred_total(refunds(before, unverified, raised));
        let s0 = invested_total(before);
        let n0 = before.len() as int;
        assert(investment_amounts(invs).drop_last() =~= investment_amounts(before));
        assert(invested_total(invs) == s0 + a);
        if before.len() == 0 {
            assert(investment_amounts(before) =~= Seq::<i128>::empty());
        }
        assert(0 <= share <= unverified && share * raised + raised > a * unverified) by (nonlinear_arith)
            requires
                share == (a * unverified) / raised,
                0 < a <= raised,
                unverified >= 0,
        ;
        if share > 0 {
            let t = Transfer::payout(invs.last().investor, share as i128);
            assert(transfer_amounts(refunds(before, unverified, raised).push(t)) =~= transfer_amounts(
                refunds(before, unverified, raised),
            ).push(t.amount));
            lemma_sum_push(transfer_amounts(refunds(before, unverified, raised)), t.amount);
        }
        let t1 = transferred_total(refunds(invs, unverified, raised));
        assert(t1 == t0 + share);
        assert(t1 * raised + (n0 + 1) * raised > unverified * (s0 + a)) by (nonlinear_arith)
            requires
                n0 == 0 ==> t0 == 0 && s0 == 0,
                n0 > 0 ==> t0 * raised + n0 * raised > unverified * s0,
                n0 >= 0,
                share * raised + raised > a * unverified,
                t1 == t0 + share,
        ;
    }
}

/// Each refund goes to the investor of one of the investments and is that
/// investment's share.
pub proof fn lemma_refund_has_investment(invs: Seq<Investment>, unverified: int, raised: int, k: int)
    requires
        0 <= k < refunds(invs, unverified, raised).len(),
    ensures
        exists|i: int|
            0 <= i < invs.len() && refund_share((#[trigger] invs[i]).amount as int, unverified, raised) > 0
                && refunds(invs, unverified, raised)[k] == Transfer::payout(
                invs[i].investor,
                refund_share(invs[i].amount as int, unverified, raised) as i128,
            ),
    decreases invs.len(),
{
    let before = refunds(invs.drop_last(), unverified, raised);
    let last = invs.len() - 1;
    if k < before.len() {
        lemma_refund_has_investment(invs.drop_last(), unverified, raised, k);
        let i = choose|i: int|
            0 <= i < invs.drop_last().len() && refund_share(
                (#[trigger] invs.drop_last()[i]).amount as int,
                unverified,
                raised,
            ) > 0 && before[k] == Transfer::payout(
                invs.drop_last()[i].investor,
                refund_share(invs.drop_last()[i].amount as int, unverified, raised) as i128,
            );
        assert(invs[i] == invs.drop_last()[i]);
    } else {
        assert(invs[last] == invs.last());
    }
}

} // verus!
