//! A deterministic gate and lab broker for AI coding and security agents:
//! every proposed file write, edit and shell command, and every lab
//! technique attempt, is decided by plain, verified rules over declared
//! scope and logged evidence — never by a model.
//!
//! The harness side: three hook adapters turn hook payloads into a
//! [`proposal::Proposal`]; [`static_analysis`] and [`gate_policy`] check
//! it; [`review`] says what evidence that produces;
//! [`gate_verdict`] decides from the evidence.
//!
//! The lab: [`scope`] is the declared boundary, [`broker`] grants or denies
//! each technique against it, [`research`] builds the technique queue,
//! [`lab`] holds the attacker's and defender's decisions, and [`verdict`]
//! computes the final verdicts from the audit log ([`audit`]).

pub mod audit;
pub mod broker;
pub mod claude_code;
pub mod copilot_cli;
pub mod decision;
pub mod edits;
pub mod gate_policy;
pub mod gate_verdict;
pub mod json;
pub mod lab;
pub mod pi;
pub mod proposal;
pub mod research;
pub mod review;
pub mod scope;
pub mod static_analysis;
pub mod text;
pub mod verdict;
