use soroban_sdk::{Env, TryFromVal};
use stellarbridge::contract::StellarBridgeContract;
use stellarbridge::types::{
    EscrowError, Identity, Investment, Milestone, MilestoneStatus, Party, Project, Transfer,
};

fn who(n: u8) -> Identity {
    Identity::new([n; 56])
}

const OWNER: u8 = 1;
const VERIFIER: u8 = 2;
const TOKEN: u8 = 3;
const ALICE: u8 = 10;
const BOB: u8 = 11;

fn amounts(env: &Env, items: &[i128]) -> soroban_sdk::Vec<i128> {
    soroban_sdk::Vec::from_slice(env, items)
}

fn deadlines(env: &Env, items: &[u64]) -> soroban_sdk::Vec<u64> {
    soroban_sdk::Vec::from_slice(env, items)
}

fn payout(to: u8, amount: i128) -> Transfer {
    Transfer { from: Party::Escrow, to: Party::Account(who(to)), amount }
}

fn deposit(from: u8, amount: i128) -> Transfer {
    Transfer { from: Party::Account(who(from)), to: Party::Escrow, amount }
}

/// An initialized contract with one project: goal 1000, milestones
/// (400, t=100) and (600, t=200).
fn funded_setup() -> StellarBridgeContract {
    let env = Env::default();
    let mut c = StellarBridgeContract::new();
    assert_eq!(c.initialize(&who(VERIFIER), who(VERIFIER), who(TOKEN)), Ok(()));
    let id = c.create_project(
        &who(OWNER),
        who(OWNER),
        1000,
        &amounts(&env, &[400, 600]),
        &deadlines(&env, &[100, 200]),
    );
    assert_eq!(id, Ok(1));
    c
}

#[test]
fn new_contract_holds_nothing() {
    let c = StellarBridgeContract::new();
    assert_eq!(c.get_project_count(), 0);
    assert_eq!(c.get_verifier(), None);
    assert_eq!(c.get_token(), None);
    assert_eq!(c.get_project(1), Err(EscrowError::NotFound));
    assert_eq!(c.get_project(0), Err(EscrowError::NotFound));
    assert_eq!(c.get_investor_amount(1, &who(ALICE)), 0);
    assert_eq!(c.get_investments(1), vec![]);
}

#[test]
fn initialize_sets_verifier_and_token_once() {
    let mut c = StellarBridgeContract::new();
    assert_eq!(c.initialize(&who(VERIFIER), who(VERIFIER), who(TOKEN)), Ok(()));
    assert_eq!(c.get_verifier(), Some(who(VERIFIER)));
    assert_eq!(c.get_token(), Some(who(TOKEN)));
    assert_eq!(c.get_project_count(), 0);
    assert_eq!(
        c.initialize(&who(VERIFIER), who(VERIFIER), who(TOKEN)),
        Err(EscrowError::AlreadyInitialized)
    );
    assert_eq!(c.initialize(&who(BOB), who(BOB), who(ALICE)), Err(EscrowError::AlreadyInitialized));
    assert_eq!(c.get_verifier(), Some(who(VERIFIER)));
    assert_eq!(c.get_token(), Some(who(TOKEN)));
}

#[test]
fn initialize_needs_the_verifier_to_authorize() {
    let mut c = StellarBridgeContract::new();
    assert_eq!(c.initialize(&who(BOB), who(VERIFIER), who(TOKEN)), Err(EscrowError::Unauthorized));
    assert_eq!(c.get_verifier(), None);
    assert_eq!(c.get_token(), None);
    assert_eq!(c.initialize(&who(VERIFIER), who(VERIFIER), who(TOKEN)), Ok(()));
}

#[test]
fn create_project_round_trip() {
    let env = Env::default();
    let mut c = StellarBridgeContract::new();
    let id = c
        .create_project(
            &who(OWNER),
            who(OWNER),
            1000,
            &amounts(&env, &[400, 600]),
            &deadlines(&env, &[100, 200]),
        )
        .unwrap();
    assert_eq!(id, 1);
    assert_eq!(c.get_project_count(), 1);
    let p = c.get_project(1).unwrap();
    assert_eq!(
        p,
        Project {
            id: 1,
            owner: who(OWNER),
            goal_amount: 1000,
            raised: 0,
            milestones: vec![
                Milestone { amount: 400, deadline: 100, status: MilestoneStatus::Pending, evidence_hash: None },
                Milestone { amount: 600, deadline: 200, status: MilestoneStatus::Pending, evidence_hash: None },
            ],
            active: true,
        }
    );
    assert_eq!(c.get_investments(1), vec![]);
}

#[test]
fn project_ids_count_up_from_one() {
    let env = Env::default();
    let mut c = StellarBridgeContract::new();
    for expected in 1u32..=5 {
        let id = c.create_project(
            &who(OWNER),
            who(OWNER),
            10,
            &amounts(&env, &[1]),
            &deadlines(&env, &[1]),
        );
        assert_eq!(id, Ok(expected));
        assert_eq!(c.get_project_count(), expected);
        assert_eq!(c.get_project(expected).unwrap().id, expected);
    }
    assert_eq!(c.get_project(6), Err(EscrowError::NotFound));
}

#[test]
fn project_without_milestones_is_accepted() {
    let env = Env::default();
    let mut c = StellarBridgeContract::new();
    let id = c.create_project(&who(OWNER), who(OWNER), 0, &amounts(&env, &[]), &deadlines(&env, &[]));
    assert_eq!(id, Ok(1));
    assert_eq!(c.get_project(1).unwrap().milestones, vec![]);
}

#[test]
fn create_project_rejects_mismatched_lengths() {
    let env = Env::default();
    let mut c = StellarBridgeContract::new();
    let r = c.create_project(
        &who(OWNER),
        who(OWNER),
        1000,
        &amounts(&env, &[400, 600]),
        &deadlines(&env, &[100]),
    );
    assert_eq!(r, Err(EscrowError::MalformedMilestones));
    assert_eq!(c.get_project_count(), 0);
    assert_eq!(c.get_project(1), Err(EscrowError::NotFound));
}

#[test]
fn create_project_rejects_vectors_that_do_not_read() {
    let env = Env::default();
    let mut c = StellarBridgeContract::new();
    let words: soroban_sdk::Vec<u32> = soroban_sdk::Vec::from_array(&env, [400u32, 600]);
    let bad: soroban_sdk::Vec<i128> = soroban_sdk::Vec::try_from_val(&env, &words.to_val()).unwrap();
    let r = c.create_project(&who(OWNER), who(OWNER), 1000, &bad, &deadlines(&env, &[100, 200]));
    assert_eq!(r, Err(EscrowError::MalformedMilestones));
    assert_eq!(c.get_project_count(), 0);
}

#[test]
fn create_project_rejects_budget_over_goal() {
    let env = Env::default();
    let mut c = StellarBridgeContract::new();
    let r = c.create_project(
        &who(OWNER),
        who(OWNER),
        999,
        &amounts(&env, &[400, 600]),
        &deadlines(&env, &[100, 200]),
    );
    assert_eq!(r, Err(EscrowError::BudgetExceeded));
    assert_eq!(c.get_project_count(), 0);
    let r = c.create_project(
        &who(OWNER),
        who(OWNER),
        1000,
        &amounts(&env, &[400, 600]),
        &deadlines(&env, &[100, 200]),
    );
    assert_eq!(r, Ok(1));
}

#[test]
fn budget_is_compared_exactly_beyond_128_bits() {
    let env = Env::default();
    let mut c = StellarBridgeContract::new();
    let r = c.create_project(
        &who(OWNER),
        who(OWNER),
        i128::MAX,
        &amounts(&env, &[i128::MAX, 1]),
        &deadlines(&env, &[1, 2]),
    );
    assert_eq!(r, Err(EscrowError::BudgetExceeded));
    let r = c.create_project(
        &who(OWNER),
        who(OWNER),
        i128::MAX,
        &amounts(&env, &[i128::MAX, i128::MAX, i128::MIN]),
        &deadlines(&env, &[1, 2, 3]),
    );
    assert_eq!(r, Ok(1));
    let r = c.create_project(
        &who(OWNER),
        who(OWNER),
        i128::MIN,
        &amounts(&env, &[i128::MIN, -1]),
        &deadlines(&env, &[1, 2]),
    );
    assert_eq!(r, Ok(2));
    let r = c.create_project(
        &who(OWNER),
        who(OWNER),
        -2,
        &amounts(&env, &[i128::MAX, i128::MIN]),
        &deadlines(&env, &[1, 2]),
    );
    assert_eq!(r, Err(EscrowError::BudgetExceeded));
}

#[test]
fn create_project_needs_the_owner_to_authorize() {
    let env = Env::default();
    let mut c = StellarBridgeContract::new();
    let r = c.create_project(
        &who(BOB),
        who(OWNER),
        1000,
        &amounts(&env, &[400, 600]),
        &deadlines(&env, &[100]),
    );
    assert_eq!(r, Err(EscrowError::Unauthorized));
    assert_eq!(c.get_project_count(), 0);
}

#[test]
fn register_project_takes_plain_vectors() {
    let mut c = StellarBridgeContract::new();
    assert_eq!(c.register_project(&who(OWNER), who(OWNER), 50, &vec![20, 30], &vec![7, 8]), Ok(1));
    assert_eq!(
        c.register_project(&who(OWNER), who(OWNER), 49, &vec![20, 30], &vec![7, 8]),
        Err(EscrowError::BudgetExceeded)
    );
    assert_eq!(
        c.register_project(&who(OWNER), who(OWNER), 50, &vec![20, 30], &vec![7]),
        Err(EscrowError::MalformedMilestones)
    );
    assert_eq!(
        c.register_project(&who(ALICE), who(OWNER), 50, &vec![20, 30], &vec![7, 8]),
        Err(EscrowError::Unauthorized)
    );
    let p = c.get_project(1).unwrap();
    assert_eq!(p.milestones.len(), 2);
    assert_eq!(p.milestones[1].amount, 30);
    assert_eq!(p.milestones[1].deadline, 8);
    assert_eq!(c.get_project_count(), 1);
}

#[test]
fn invest_records_the_deposit() {
    let mut c = funded_setup();
    assert_eq!(c.invest(&who(ALICE), 1, &who(ALICE), 700, 5), Ok(deposit(ALICE, 700)));
    assert_eq!(c.invest(&who(BOB), 1, &who(BOB), 300, 6), Ok(deposit(BOB, 300)));
    assert_eq!(c.invest(&who(ALICE), 1, &who(ALICE), 50, 7), Ok(deposit(ALICE, 50)));
    assert_eq!(c.get_project(1).unwrap().raised, 1050);
    assert_eq!(c.get_investor_amount(1, &who(ALICE)), 750);
    assert_eq!(c.get_investor_amount(1, &who(BOB)), 300);
    assert_eq!(c.get_investor_amount(1, &who(OWNER)), 0);
    assert_eq!(c.get_investor_amount(2, &who(ALICE)), 0);
    assert_eq!(
        c.get_investments(1),
        vec![
            Investment { investor: who(ALICE), amount: 700, timestamp: 5 },
            Investment { investor: who(BOB), amount: 300, timestamp: 6 },
            Investment { investor: who(ALICE), amount: 50, timestamp: 7 },
        ]
    );
}

#[test]
fn invest_rejects_unknown_project() {
    let mut c = funded_setup();
    assert_eq!(c.invest(&who(ALICE), 2, &who(ALICE), 700, 5), Err(EscrowError::NotFound));
    assert_eq!(c.invest(&who(ALICE), 0, &who(ALICE), 700, 5), Err(EscrowError::NotFound));
    assert_eq!(c.get_project(1).unwrap().raised, 0);
}

#[test]
fn invest_rejects_amounts_that_are_not_positive() {
    let mut c = funded_setup();
    assert_eq!(c.invest(&who(ALICE), 1, &who(ALICE), 0, 5), Err(EscrowError::InvalidAmount));
    assert_eq!(c.invest(&who(ALICE), 1, &who(ALICE), -1, 5), Err(EscrowError::InvalidAmount));
    assert_eq!(c.invest(&who(ALICE), 1, &who(ALICE), i128::MIN, 5), Err(EscrowError::InvalidAmount));
    assert_eq!(c.get_project(1).unwrap().raised, 0);
    assert_eq!(c.get_investments(1), vec![]);
}

#[test]
fn invest_needs_the_investor_to_authorize() {
    let mut c = funded_setup();
    assert_eq!(c.invest(&who(BOB), 1, &who(ALICE), 700, 5), Err(EscrowError::Unauthorized));
    assert_eq!(c.invest(&who(BOB), 9, &who(ALICE), 700, 5), Err(EscrowError::Unauthorized));
    assert_eq!(c.get_investor_amount(1, &who(ALICE)), 0);
}

#[test]
fn invest_needs_a_token() {
    let mut c = StellarBridgeContract::new();
    assert_eq!(c.register_project(&who(OWNER), who(OWNER), 50, &vec![20, 30], &vec![7, 8]), Ok(1));
    assert_eq!(c.invest(&who(ALICE), 1, &who(ALICE), 10, 5), Err(EscrowError::TokenNotConfigured));
    assert_eq!(c.get_project(1).unwrap().raised, 0);
    assert_eq!(c.initialize(&who(VERIFIER), who(VERIFIER), who(TOKEN)), Ok(()));
    assert_eq!(c.get_project_count(), 1);
    assert_eq!(c.invest(&who(ALICE), 1, &who(ALICE), 10, 5), Ok(deposit(ALICE, 10)));
}

#[test]
fn invest_in_inactive_project_fails_whatever_the_amount() {
    let mut c = funded_setup();
    assert_eq!(c.invest(&who(ALICE), 1, &who(ALICE), 1000, 0), Ok(deposit(ALICE, 1000)));
    assert!(c.trigger_refund(1, 0, 100).is_ok());
    assert!(!c.get_project(1).unwrap().active);
    for amount in [1i128, 1000, i128::MAX, 0, -1, i128::MIN] {
        assert_eq!(c.invest(&who(BOB), 1, &who(BOB), amount, 300), Err(EscrowError::ProjectInactive));
    }
    assert_eq!(c.get_project(1).unwrap().raised, 1000);
    assert_eq!(c.get_investor_amount(1, &who(BOB)), 0);
}

#[test]
fn submit_evidence_attaches_the_hash() {
    let mut c = funded_setup();
    assert_eq!(c.submit_evidence(&who(OWNER), 1, 1, [7u8; 32]), Ok(()));
    let p = c.get_project(1).unwrap();
    assert_eq!(p.milestones[1].status, MilestoneStatus::EvidenceSubmitted);
    assert_eq!(p.milestones[1].evidence_hash, Some([7u8; 32]));
    assert_eq!(p.milestones[1].amount, 600);
    assert_eq!(p.milestones[1].deadline, 200);
    assert_eq!(p.milestones[0].status, MilestoneStatus::Pending);
    assert_eq!(p.milestones[0].evidence_hash, None);
}

#[test]
fn submit_evidence_is_one_shot() {
    let mut c = funded_setup();
    assert_eq!(c.submit_evidence(&who(OWNER), 1, 0, [7u8; 32]), Ok(()));
    assert_eq!(c.submit_evidence(&who(OWNER), 1, 0, [8u8; 32]), Err(EscrowError::NotPending));
    assert_eq!(c.get_project(1).unwrap().milestones[0].evidence_hash, Some([7u8; 32]));
    assert_eq!(c.verify_milestone(&who(VERIFIER), 1, 0, false), Ok(None));
    assert_eq!(c.get_project(1).unwrap().milestones[0].status, MilestoneStatus::Rejected);
    assert_eq!(c.submit_evidence(&who(OWNER), 1, 0, [8u8; 32]), Err(EscrowError::NotPending));
    assert_eq!(c.get_project(1).unwrap().milestones[0].evidence_hash, Some([7u8; 32]));
}

#[test]
fn submit_evidence_errors() {
    let mut c = funded_setup();
    assert_eq!(c.submit_evidence(&who(OWNER), 2, 0, [7u8; 32]), Err(EscrowError::NotFound));
    assert_eq!(c.submit_evidence(&who(BOB), 2, 0, [7u8; 32]), Err(EscrowError::NotFound));
    assert_eq!(c.submit_evidence(&who(BOB), 1, 0, [7u8; 32]), Err(EscrowError::Unauthorized));
    assert_eq!(c.submit_evidence(&who(BOB), 1, 2, [7u8; 32]), Err(EscrowError::Unauthorized));
    assert_eq!(c.submit_evidence(&who(OWNER), 1, 2, [7u8; 32]), Err(EscrowError::InvalidIndex));
    assert_eq!(c.submit_evidence(&who(OWNER), 1, u32::MAX, [7u8; 32]), Err(EscrowError::InvalidIndex));
    assert_eq!(c.get_project(1).unwrap().milestones[0].status, MilestoneStatus::Pending);
    assert_eq!(c.get_project(1).unwrap().milestones[1].status, MilestoneStatus::Pending);
}

#[test]
fn verify_milestone_pays_the_owner_once() {
    let mut c = funded_setup();
    assert_eq!(c.invest(&who(ALICE), 1, &who(ALICE), 1000, 0), Ok(deposit(ALICE, 1000)));
    assert_eq!(c.submit_evidence(&who(OWNER), 1, 0, [7u8; 32]), Ok(()));
    assert_eq!(c.verify_milestone(&who(VERIFIER), 1, 0, true), Ok(Some(payout(OWNER, 400))));
    assert_eq!(c.get_project(1).unwrap().milestones[0].status, MilestoneStatus::Verified);
    assert_eq!(c.get_project(1).unwrap().milestones[0].evidence_hash, Some([7u8; 32]));
    assert_eq!(c.verify_milestone(&who(VERIFIER), 1, 0, true), Err(EscrowError::NotAwaitingVerification));
    assert_eq!(c.verify_milestone(&who(VERIFIER), 1, 0, false), Err(EscrowError::NotAwaitingVerification));
    assert_eq!(c.get_project(1).unwrap().milestones[0].status, MilestoneStatus::Verified);
    assert_eq!(c.get_project(1).unwrap().raised, 1000);
}

#[test]
fn verify_milestone_rejection_moves_no_funds() {
    let mut c = funded_setup();
    assert_eq!(c.submit_evidence(&who(OWNER), 1, 1, [7u8; 32]), Ok(()));
    assert_eq!(c.verify_milestone(&who(VERIFIER), 1, 1, false), Ok(None));
    assert_eq!(c.get_project(1).unwrap().milestones[1].status, MilestoneStatus::Rejected);
    assert_eq!(c.verify_milestone(&who(VERIFIER), 1, 1, true), Err(EscrowError::NotAwaitingVerification));
}

#[test]
fn verify_milestone_errors() {
    let mut c = funded_setup();
    assert_eq!(c.verify_milestone(&who(OWNER), 1, 0, true), Err(EscrowError::Unauthorized));
    assert_eq!(c.verify_milestone(&who(OWNER), 7, 0, true), Err(EscrowError::Unauthorized));
    assert_eq!(c.verify_milestone(&who(VERIFIER), 7, 0, true), Err(EscrowError::NotFound));
    assert_eq!(c.verify_milestone(&who(VERIFIER), 0, 0, true), Err(EscrowError::NotFound));
    assert_eq!(c.verify_milestone(&who(VERIFIER), 1, 2, true), Err(EscrowError::InvalidIndex));
    // evidence cannot be skipped
    assert_eq!(c.verify_milestone(&who(VERIFIER), 1, 0, true), Err(EscrowError::NotAwaitingVerification));
    assert_eq!(c.get_project(1).unwrap().milestones[0].status, MilestoneStatus::Pending);
}

#[test]
fn verify_milestone_needs_a_verifier() {
    let mut c = StellarBridgeContract::new();
    assert_eq!(c.register_project(&who(OWNER), who(OWNER), 50, &vec![20, 30], &vec![7, 8]), Ok(1));
    assert_eq!(c.submit_evidence(&who(OWNER), 1, 0, [1u8; 32]), Ok(()));
    assert_eq!(c.verify_milestone(&who(VERIFIER), 1, 0, true), Err(EscrowError::VerifierNotConfigured));
    assert_eq!(c.verify_milestone(&who(VERIFIER), 9, 0, true), Err(EscrowError::VerifierNotConfigured));
    assert_eq!(c.get_project(1).unwrap().milestones[0].status, MilestoneStatus::EvidenceSubmitted);
}

#[test]
fn scenario_single_investor_refund() {
    let mut c = funded_setup();
    assert_eq!(c.invest(&who(ALICE), 1, &who(ALICE), 1000, 0), Ok(deposit(ALICE, 1000)));
    assert_eq!(c.get_project(1).unwrap().raised, 1000);
    assert_eq!(c.submit_evidence(&who(OWNER), 1, 0, [7u8; 32]), Ok(()));
    assert_eq!(c.verify_milestone(&who(VERIFIER), 1, 0, true), Ok(Some(payout(OWNER, 400))));
    assert_eq!(c.get_project(1).unwrap().milestones[0].status, MilestoneStatus::Verified);
    assert_eq!(c.get_project(1).unwrap().milestones[1].status, MilestoneStatus::Pending);
    assert_eq!(c.trigger_refund(1, 1, 250), Ok(vec![payout(ALICE, 600)]));
    let p = c.get_project(1).unwrap();
    assert!(!p.active);
    assert_eq!(p.raised, 1000);
    assert_eq!(p.milestones[1].status, MilestoneStatus::Pending);
}

#[test]
fn scenario_two_investors_refund() {
    let mut c = funded_setup();
    assert_eq!(c.invest(&who(ALICE), 1, &who(ALICE), 700, 0), Ok(deposit(ALICE, 700)));
    assert_eq!(c.invest(&who(BOB), 1, &who(BOB), 300, 1), Ok(deposit(BOB, 300)));
    assert_eq!(c.submit_evidence(&who(OWNER), 1, 0, [7u8; 32]), Ok(()));
    assert_eq!(c.verify_milestone(&who(VERIFIER), 1, 0, true), Ok(Some(payout(OWNER, 400))));
    let refunds = c.trigger_refund(1, 1, 250).unwrap();
    assert_eq!(refunds, vec![payout(ALICE, 420), payout(BOB, 180)]);
    assert_eq!(refunds.iter().map(|t| t.amount).sum::<i128>(), 600);
    assert!(!c.get_project(1).unwrap().active);
}

#[test]
fn refund_leaves_rounding_dust_in_escrow() {
    let mut c = StellarBridgeContract::new();
    assert_eq!(c.initialize(&who(VERIFIER), who(VERIFIER), who(TOKEN)), Ok(()));
    assert_eq!(c.register_project(&who(OWNER), who(OWNER), 100, &vec![100], &vec![10]), Ok(1));
    assert_eq!(c.invest(&who(ALICE), 1, &who(ALICE), 1, 0), Ok(deposit(ALICE, 1)));
    assert_eq!(c.invest(&who(BOB), 1, &who(BOB), 1, 0), Ok(deposit(BOB, 1)));
    assert_eq!(c.invest(&who(OWNER), 1, &who(OWNER), 1, 0), Ok(deposit(OWNER, 1)));
    // each share is floor(1 * 100 / 3) = 33; 1 of the 100 stays behind
    let refunds = c.trigger_refund(1, 0, 10).unwrap();
    assert_eq!(refunds, vec![payout(ALICE, 33), payout(BOB, 33), payout(OWNER, 33)]);
    let total: i128 = refunds.iter().map(|t| t.amount).sum();
    assert!(total <= 100 && 100 - total < 3);
}

#[test]
fn refund_is_one_per_investment_not_per_investor() {
    let mut c = StellarBridgeContract::new();
    assert_eq!(c.initialize(&who(VERIFIER), who(VERIFIER), who(TOKEN)), Ok(()));
    assert_eq!(c.register_project(&who(OWNER), who(OWNER), 10, &vec![10], &vec![10]), Ok(1));
    assert_eq!(c.invest(&who(ALICE), 1, &who(ALICE), 3, 0), Ok(deposit(ALICE, 3)));
    assert_eq!(c.invest(&who(BOB), 1, &who(BOB), 4, 1), Ok(deposit(BOB, 4)));
    assert_eq!(c.invest(&who(ALICE), 1, &who(ALICE), 3, 2), Ok(deposit(ALICE, 3)));
    assert_eq!(
        c.trigger_refund(1, 0, 11),
        Ok(vec![payout(ALICE, 3), payout(BOB, 4), payout(ALICE, 3)])
    );
}

#[test]
fn refund_counts_unverified_milestones_from_the_index_on() {
    let mut c = StellarBridgeContract::new();
    assert_eq!(c.initialize(&who(VERIFIER), who(VERIFIER), who(TOKEN)), Ok(()));
    assert_eq!(
        c.register_project(&who(OWNER), who(OWNER), 1000, &vec![100, 200, 300, 400], &vec![10, 20, 30, 40]),
        Ok(1)
    );
    assert_eq!(c.invest(&who(ALICE), 1, &who(ALICE), 1000, 0), Ok(deposit(ALICE, 1000)));
    // milestone 2 verified, milestone 3 rejected, milestones 0 and 1 pending
    assert_eq!(c.submit_evidence(&who(OWNER), 1, 2, [1u8; 32]), Ok(()));
    assert_eq!(c.verify_milestone(&who(VERIFIER), 1, 2, true), Ok(Some(payout(OWNER, 300))));
    assert_eq!(c.submit_evidence(&who(OWNER), 1, 3, [2u8; 32]), Ok(()));
    assert_eq!(c.verify_milestone(&who(VERIFIER), 1, 3, false), Ok(None));
    // from milestone 1 on: 200 (pending) + 400 (rejected); 100 lies before, 300 is verified
    assert_eq!(c.trigger_refund(1, 1, 20), Ok(vec![payout(ALICE, 600)]));
}

#[test]
fn refund_without_investments_closes_the_project() {
    let mut c = funded_setup();
    assert_eq!(c.trigger_refund(1, 0, 100), Ok(vec![]));
    assert!(!c.get_project(1).unwrap().active);
    assert_eq!(c.get_project(1).unwrap().raised, 0);
}

#[test]
fn refund_never_before_the_deadline() {
    let mut c = funded_setup();
    assert_eq!(c.invest(&who(ALICE), 1, &who(ALICE), 1000, 0), Ok(deposit(ALICE, 1000)));
    assert_eq!(c.trigger_refund(1, 0, 0), Err(EscrowError::DeadlineNotReached));
    assert_eq!(c.trigger_refund(1, 0, 99), Err(EscrowError::DeadlineNotReached));
    assert_eq!(c.trigger_refund(1, 1, 199), Err(EscrowError::DeadlineNotReached));
    assert!(c.get_project(1).unwrap().active);
    // at the deadline itself the refund is due
    assert_eq!(c.trigger_refund(1, 1, 200), Ok(vec![payout(ALICE, 600)]));
}

#[test]
fn refund_never_on_a_verified_milestone() {
    let mut c = funded_setup();
    assert_eq!(c.invest(&who(ALICE), 1, &who(ALICE), 1000, 0), Ok(deposit(ALICE, 1000)));
    assert_eq!(c.submit_evidence(&who(OWNER), 1, 0, [7u8; 32]), Ok(()));
    assert_eq!(c.verify_milestone(&who(VERIFIER), 1, 0, true), Ok(Some(payout(OWNER, 400))));
    assert_eq!(c.trigger_refund(1, 0, 50), Err(EscrowError::DeadlineNotReached));
    assert_eq!(c.trigger_refund(1, 0, 100), Err(EscrowError::AlreadyVerified));
    assert_eq!(c.trigger_refund(1, 0, u64::MAX), Err(EscrowError::AlreadyVerified));
    assert!(c.get_project(1).unwrap().active);
}

#[test]
fn refund_errors() {
    let mut c = funded_setup();
    assert_eq!(c.trigger_refund(2, 0, 1000), Err(EscrowError::NotFound));
    assert_eq!(c.trigger_refund(0, 0, 1000), Err(EscrowError::NotFound));
    assert_eq!(c.trigger_refund(1, 2, 1000), Err(EscrowError::InvalidIndex));
    assert!(c.get_project(1).unwrap().active);
}

#[test]
fn refund_is_refused_the_second_time() {
    let mut c = funded_setup();
    assert_eq!(c.invest(&who(ALICE), 1, &who(ALICE), 1000, 0), Ok(deposit(ALICE, 1000)));
    assert_eq!(c.trigger_refund(1, 0, 300), Ok(vec![payout(ALICE, 1000)]));
    assert_eq!(c.trigger_refund(1, 0, 300), Err(EscrowError::ProjectInactive));
    assert_eq!(c.trigger_refund(1, 1, 300), Err(EscrowError::ProjectInactive));
    assert_eq!(c.trigger_refund(1, 1, 150), Err(EscrowError::DeadlineNotReached));
}

#[test]
fn refund_needs_a_token() {
    let mut c = StellarBridgeContract::new();
    assert_eq!(c.register_project(&who(OWNER), who(OWNER), 50, &vec![20, 30], &vec![7, 8]), Ok(1));
    assert_eq!(c.trigger_refund(1, 0, 7), Err(EscrowError::TokenNotConfigured));
    assert!(c.get_project(1).unwrap().active);
}

#[test]
fn refund_from_a_pool_that_is_not_positive_pays_nothing() {
    let mut c = StellarBridgeContract::new();
    assert_eq!(c.initialize(&who(VERIFIER), who(VERIFIER), who(TOKEN)), Ok(()));
    assert_eq!(c.register_project(&who(OWNER), who(OWNER), 0, &vec![-5], &vec![10]), Ok(1));
    assert_eq!(c.invest(&who(ALICE), 1, &who(ALICE), 10, 0), Ok(deposit(ALICE, 10)));
    assert_eq!(c.trigger_refund(1, 0, 10), Ok(vec![]));
    assert!(!c.get_project(1).unwrap().active);
}

#[test]
fn refund_shares_are_exact_for_the_largest_amounts() {
    let mut c = StellarBridgeContract::new();
    assert_eq!(c.initialize(&who(VERIFIER), who(VERIFIER), who(TOKEN)), Ok(()));
    assert_eq!(
        c.register_project(&who(OWNER), who(OWNER), i128::MAX, &vec![i128::MAX], &vec![10]),
        Ok(1)
    );
    assert_eq!(c.invest(&who(ALICE), 1, &who(ALICE), i128::MAX - 1, 0), Ok(deposit(ALICE, i128::MAX - 1)));
    assert_eq!(c.invest(&who(BOB), 1, &who(BOB), 1, 0), Ok(deposit(BOB, 1)));
    assert_eq!(
        c.trigger_refund(1, 0, 10),
        Ok(vec![payout(ALICE, i128::MAX - 1), payout(BOB, 1)])
    );
}

#[test]
fn status_never_goes_back() {
    let mut c = funded_setup();
    assert_eq!(c.invest(&who(ALICE), 1, &who(ALICE), 1000, 0), Ok(deposit(ALICE, 1000)));
    assert_eq!(c.submit_evidence(&who(OWNER), 1, 0, [7u8; 32]), Ok(()));
    assert_eq!(c.verify_milestone(&who(VERIFIER), 1, 0, true), Ok(Some(payout(OWNER, 400))));
    // nothing asked afterwards changes the verified milestone
    let _ = c.submit_evidence(&who(OWNER), 1, 0, [8u8; 32]);
    let _ = c.verify_milestone(&who(VERIFIER), 1, 0, false);
    let _ = c.invest(&who(BOB), 1, &who(BOB), 5, 10);
    let _ = c.trigger_refund(1, 1, 500);
    let _ = c.trigger_refund(1, 0, 500);
    let m = c.get_project(1).unwrap().milestones[0];
    assert_eq!(m.status, MilestoneStatus::Verified);
    assert_eq!(m.evidence_hash, Some([7u8; 32]));
    assert_eq!(m.amount, 400);
    assert_eq!(m.deadline, 100);
}

#[test]
fn restore_takes_back_what_the_contract_gave() {
    let mut c = funded_setup();
    assert_eq!(c.invest(&who(ALICE), 1, &who(ALICE), 700, 0), Ok(deposit(ALICE, 700)));
    assert_eq!(c.submit_evidence(&who(OWNER), 1, 0, [7u8; 32]), Ok(()));
    let back = StellarBridgeContract::restore(
        c.get_verifier(),
        c.get_token(),
        vec![c.get_project(1).unwrap()],
        vec![c.get_investments(1)],
    )
    .unwrap();
    assert_eq!(back.get_project_count(), 1);
    assert_eq!(back.get_project(1), c.get_project(1));
    assert_eq!(back.get_investments(1), c.get_investments(1));
    assert_eq!(back.get_investor_amount(1, &who(ALICE)), 700);
    assert_eq!(back.get_verifier(), Some(who(VERIFIER)));
    assert_eq!(back.get_token(), Some(who(TOKEN)));
}

#[test]
fn restore_refuses_records_that_do_not_fit() {
    let good = Project {
        id: 1,
        owner: who(OWNER),
        goal_amount: 1000,
        raised: 700,
        milestones: vec![Milestone {
            amount: 400,
            deadline: 100,
            status: MilestoneStatus::Pending,
            evidence_hash: None,
        }],
        active: true,
    };
    let copy = |change: &dyn Fn(&mut Project)| {
        let mut p = Project {
            id: good.id,
            owner: good.owner,
            goal_amount: good.goal_amount,
            raised: good.raised,
            milestones: good.milestones.clone(),
            active: good.active,
        };
        change(&mut p);
        p
    };
    let invs = || vec![Investment { investor: who(ALICE), amount: 700, timestamp: 0 }];
    assert!(StellarBridgeContract::restore(None, None, vec![copy(&|_| {})], vec![invs()]).is_some());
    assert!(StellarBridgeContract::restore(None, None, vec![], vec![]).is_some());
    // the verifier without the token
    assert!(StellarBridgeContract::restore(Some(who(VERIFIER)), None, vec![], vec![]).is_none());
    // a project without its list of investments
    assert!(StellarBridgeContract::restore(None, None, vec![copy(&|_| {})], vec![]).is_none());
    // an id that is not the position
    assert!(StellarBridgeContract::restore(None, None, vec![copy(&|p| p.id = 2)], vec![invs()]).is_none());
    // raised that is not the sum of the investments
    assert!(StellarBridgeContract::restore(None, None, vec![copy(&|p| p.raised = 699)], vec![invs()]).is_none());
    // milestones over the goal
    assert!(StellarBridgeContract::restore(None, None, vec![copy(&|p| p.goal_amount = 399)], vec![invs()])
        .is_none());
    // a pending milestone with evidence
    assert!(StellarBridgeContract::restore(
        None,
        None,
        vec![copy(&|p| p.milestones[0].evidence_hash = Some([1u8; 32]))],
        vec![invs()]
    )
    .is_none());
    // an investment that is not positive
    assert!(StellarBridgeContract::restore(
        None,
        None,
        vec![copy(&|p| p.raised = 0)],
        vec![vec![Investment { investor: who(ALICE), amount: 0, timestamp: 0 }]]
    )
    .is_none());
}

#[test]
fn identities_compare_by_their_key() {
    let mut key = [5u8; 56];
    assert!(who(5).same(&Identity::new(key)));
    key[55] = 6;
    assert!(!who(5).same(&Identity::new(key)));
    key[55] = 5;
    key[0] = 6;
    assert!(!who(5).same(&Identity::new(key)));
}
