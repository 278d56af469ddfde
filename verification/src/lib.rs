//! # Treasury
//!
//! The treasury keeps a "pot" of funds that can be managed by stakeholders in a system, and a
//! structure for making spending proposals from this pot.
//!
//! ## Overview
//!
//! The treasury provides the pot to store funds, and a means for stakeholders to propose,
//! approve, and deny expenditures. The chain will need to provide a method (e.g. inflation,
//! fees) for collecting funds.
//!
//! ### Tipping
//!
//! A separate subsystem exists to allow for an agile "tipping" process, whereby a reward may be
//! given without first having a pre-determined stakeholder group come to consensus on how much
//! should be paid.
//!
//! A group of tippers is determined by the chain. After half of these have declared some amount
//! that they believe a particular reported reason deserves, then a countdown period is entered
//! where any remaining members can declare their tip amounts also. After the close of the
//! countdown period, the median of all declared tips is paid to the reported beneficiary, along
//! with any finders fee, in case of a public (and bonded) original report.
//!
//! ### How it works
//!
//! [`Module`] holds the treasury's records. A call takes what the chain's configuration and its
//! currency say as plain values, changes the records, and yields the [`types::Effect`]s that the
//! chain is to carry out, in order. A call that is refused changes nothing. The records are kept
//! under hashes of the chain's own hash function, [`runtime::Hashing`].
//!
//! ### Modules
//!
//! - [`types`]: the values the treasury works on, its events and errors, and the effects.
//! - [`module`]: the records, what they keep to, and the pot.
//! - [`proposals`] and [`spending`]: proposing, rejecting and approving a spend, and spending.
//! - [`tips`] and [`tipping`]: lists of declared tips, and the course of a tip.
//! - [`amount_laws`], [`refusal_laws`], [`record_laws`], [`spending_laws`], [`declaration_laws`],
//!   [`tipping_laws`] and [`deposit_laws`]: what holds of it all.
//! - [`origin`], [`bytes`], [`storage`], [`effects`] and [`seqs`]: what the others are built from.
//! - [`runtime`]: what is taken on trust of the chain's runtime.

pub mod amount_laws;
pub mod bytes;
pub mod declaration_laws;
pub mod deposit_laws;
pub mod effects;
pub mod module;
pub mod origin;
pub mod proposals;
pub mod record_laws;
pub mod refusal_laws;
pub mod runtime;
pub mod seqs;
pub mod spending;
pub mod spending_laws;
pub mod storage;
pub mod tipping;
pub mod tipping_laws;
pub mod tips;
pub mod types;

pub use crate::module::Module;
pub use crate::types::{OpenTip, Proposal, ProposalIndex};
