//! Milestone-gated crowdfunding escrow.
//!
//! Investors deposit funds for a project. Each milestone's share is released
//! to the project owner once the verifier approves its evidence; the share of
//! milestones that miss their deadline unverified goes back to the investors
//! in proportion to what each put in.
//!
//! The library keeps the books and decides; it moves no money, proves no
//! signature and reads no clock. An operation that needs authorization takes
//! the `caller`, the identity whose control was proved to whoever calls the
//! library; one that depends on the time takes it as `now`; and one that
//! moves funds hands back the transfers to carry out. Each operation either
//! takes effect as a whole or is refused and changes nothing.
//!
//! [`model`] states the contract as a mathematical state machine, [`contract`]
//! implements it, and [`laws`] proves what holds of it whatever is asked.

pub mod arith;
pub mod contract;
pub mod host;
pub mod keys;
pub mod laws;
pub mod model;
pub mod refund;
pub mod sums;
pub mod types;
