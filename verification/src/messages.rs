//! The message envelope model: the closed set of protocol messages a
//! participant can send or receive, the inbound envelope carrying provenance,
//! and the validation response record.
//!
//! Payloads are plain values (hashes and indices as integers); the payload
//! shape is fixed per variant, and substitution always builds a new,
//! fully-formed variant.

use vstd::prelude::*;

verus! {

/// Describes a candidate block: the parachain it belongs to and the relay
/// parent it was built on.
#[derive(Clone, Copy, Debug, PartialEq, Eq, Structural)]
pub struct CandidateDescriptor {
    /// Identifier of the parachain the candidate belongs to.
    pub para_id: u32,
    /// Hash of the relay-chain block the candidate was built on.
    pub relay_parent: u64,
}

/// A candidate receipt: the descriptor plus the hash of the candidate's
/// commitments.
#[derive(Clone, Copy, Debug, PartialEq, Eq, Structural)]
pub struct CandidateReceipt {
    /// The candidate's descriptor.
    pub descriptor: CandidateDescriptor,
    /// Hash of the candidate's commitments.
    pub commitments_hash: u64,
}

/// Messages addressed to or emitted by the approval-distribution participant.
#[derive(Clone, Copy, Debug, PartialEq, Eq, Structural)]
pub enum ApprovalDistributionMessage {
    /// Distribute an approval vote for a candidate.
    DistributeApproval { validator: u32, candidate_hash: u64 },
    /// Distribute an assignment certificate for a candidate.
    DistributeAssignment { validator: u32, candidate_hash: u64 },
}

/// Messages addressed to or emitted by the candidate-backing participant.
#[derive(Clone, Copy, Debug, PartialEq, Eq, Structural)]
pub enum CandidateBackingMessage {
    /// Ask the participant to second a candidate.
    Second { relay_parent: u64, receipt: CandidateReceipt },
    /// A statement about a candidate under the given relay parent.
    Statement { relay_parent: u64, candidate_hash: u64 },
}

/// Messages addressed to or emitted by the dispute-coordination participant.
#[derive(Clone, Copy, Debug, PartialEq, Eq, Structural)]
pub enum DisputeCoordinatorMessage {
    /// Import statements about a candidate into the dispute coordinator.
    ImportStatements { candidate_hash: u64, candidate_receipt: CandidateReceipt, session: u32 },
    /// Issue a local statement about a candidate's validity.
    IssueLocalStatement {
        session: u32,
        candidate_hash: u64,
        candidate_receipt: CandidateReceipt,
        valid: bool,
    },
}

/// Messages addressed to the candidate-validation participant.  A request
/// carries the channel on which the verdict is owed.
#[derive(Clone, Copy, Debug, PartialEq, Eq, Structural)]
pub enum CandidateValidationMessage {
    /// Validate a candidate from exhaustive parameters.
    ValidateFromExhaustive { candidate_receipt: CandidateReceipt, response_channel: u64 },
    /// Validate a candidate from chain state.
    ValidateFromChainState { candidate_receipt: CandidateReceipt, response_channel: u64 },
}

/// The closed set of protocol messages, one variant per participant kind.
#[derive(Clone, Copy, Debug, PartialEq, Eq, Structural)]
pub enum Message {
    /// A message of the approval-distribution participant.
    ApprovalDistribution(ApprovalDistributionMessage),
    /// A message of the candidate-backing participant.
    CandidateBacking(CandidateBackingMessage),
    /// A message of the dispute-coordination participant.
    DisputeCoordinator(DisputeCoordinatorMessage),
    /// A message of the candidate-validation participant.
    CandidateValidation(CandidateValidationMessage),
}

/// Where an inbound message came from.
#[derive(Clone, Copy, Debug, PartialEq, Eq, Structural)]
pub enum Provenance {
    /// Sent by the orchestrator that routes messages between participants.
    Orchestrator,
    /// Sent by a peer participant.
    Peer,
}

/// An inbound envelope: a message together with its provenance.  Used only on
/// the receive path of a participant.
#[derive(Clone, Copy, Debug, PartialEq, Eq, Structural)]
pub struct Envelope {
    /// Who sent the message.
    pub provenance: Provenance,
    /// The message itself.
    pub msg: Message,
}

/// The reason a candidate was found invalid.
#[derive(Clone, Copy, Debug, PartialEq, Eq, Structural)]
pub enum InvalidCandidate {
    /// The candidate's outputs were invalid.
    InvalidOutputs,
    /// Execution of the candidate failed.
    ExecutionError,
    /// Validation did not finish in time.
    Timeout,
}

/// The verdict of candidate validation.
#[derive(Clone, Copy, Debug, PartialEq, Eq, Structural)]
pub enum ValidationOutcome {
    /// The candidate is valid.
    Valid,
    /// The candidate is invalid for the given reason.
    Invalid { reason: InvalidCandidate },
}

/// A validation verdict delivered on the response channel a validation
/// request named.
#[derive(Clone, Copy, Debug, PartialEq, Eq, Structural)]
pub struct ValidationResponse {
    /// The channel the corresponding request carried.
    pub response_channel: u64,
    /// The verdict.
    pub outcome: ValidationOutcome,
}

impl Message {
    /// Whether this is an approval-distribution "distribute approval" message.
    pub open spec fn is_distribute_approval(self) -> bool {
        self matches Message::ApprovalDistribution(
            ApprovalDistributionMessage::DistributeApproval { .. },
        )
    }

    /// Whether this is a candidate-validation request.
    pub open spec fn is_validation_request(self) -> bool {
        self is CandidateValidation
    }

    /// The response channel of a validation request.
    pub open spec fn request_channel(self) -> u64
        recommends
            self.is_validation_request(),
    {
        match self {
            Message::CandidateValidation(
                CandidateValidationMessage::ValidateFromExhaustive { response_channel, .. },
            ) => response_channel,
            Message::CandidateValidation(
                CandidateValidationMessage::ValidateFromChainState { response_channel, .. },
            ) => response_channel,
            _ => 0,
        }
    }
}

} // verus!
