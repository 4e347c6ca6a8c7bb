//! What an AI coding agent proposes before anything touches disk or runs.
use vstd::prelude::*;

verus! {

/// A file write or shell command an agent has proposed, before it happens.
/// It is the evidence that is examined; it never decides anything itself.
#[derive(Debug, Clone, PartialEq, Eq)]
pub enum Proposal {
    FileWrite { path: String, content: String },
    ShellCommand { command: String },
}

/// A proposal with its texts as characters.
pub enum ProposalView {
    FileWrite { path: Seq<char>, content: Seq<char> },
    ShellCommand { command: Seq<char> },
}

impl View for Proposal {
    type V = ProposalView;

    open spec fn view(&self) -> ProposalView {
        match self {
            Proposal::FileWrite { path, content } => ProposalView::FileWrite {
                path: path@,
                content: content@,
            },
            Proposal::ShellCommand { command } => ProposalView::ShellCommand { command: command@ },
        }
    }
}

} // verus!
