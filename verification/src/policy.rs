//! The interception policy: for each message crossing a wrapped
//! participant's boundary, decide whether and how it is altered.
//!
//! A policy implements two total decision functions, one for inbound
//! envelopes and one for outbound messages, each returning either the
//! (possibly rewritten) message or "suppress".  A variant a policy does not
//! special-case passes through unchanged; a policy never fails.

use vstd::prelude::*;

use crate::messages::{
    ApprovalDistributionMessage, CandidateReceipt, CandidateValidationMessage,
    DisputeCoordinatorMessage, Envelope, InvalidCandidate, Message, ValidationOutcome,
    ValidationResponse,
};

verus! {

/// Whether fabricated candidate validation is switched on.
#[derive(Clone, Copy, Debug, PartialEq, Eq, Structural)]
pub enum FakeCandidateValidation {
    /// Validation requests pass through to the genuine participant.
    Disabled,
    /// Validation requests are answered with a fabricated verdict.
    Enabled,
}

/// The invalid verdict a fabricated validation reports.
#[derive(Clone, Copy, Debug, PartialEq, Eq, Structural)]
pub enum FakeCandidateValidationError {
    /// Report the candidate's outputs as invalid.
    InvalidOutputs,
    /// Report a failed execution.
    ExecutionError,
    /// Report a validation timeout.
    Timeout,
}

impl FakeCandidateValidationError {
    /// The invalid-candidate reason this configured error reports.
    pub open spec fn reason_spec(self) -> InvalidCandidate {
        match self {
            FakeCandidateValidationError::InvalidOutputs => InvalidCandidate::InvalidOutputs,
            FakeCandidateValidationError::ExecutionError => InvalidCandidate::ExecutionError,
            FakeCandidateValidationError::Timeout => InvalidCandidate::Timeout,
        }
    }

    /// Returns the invalid-candidate reason this configured error reports.
    pub fn reason(&self) -> (r: InvalidCandidate)
        ensures
            r == self.reason_spec(),
    {
        match self {
            FakeCandidateValidationError::InvalidOutputs => InvalidCandidate::InvalidOutputs,
            FakeCandidateValidationError::ExecutionError => InvalidCandidate::ExecutionError,
            FakeCandidateValidationError::Timeout => InvalidCandidate::Timeout,
        }
    }
}

/// A pluggable interception policy.  The closed set of variants keeps the
/// total-function contract explicit: a `match` over a policy and a message is
/// exhaustively checked.
#[derive(Clone, Copy, Debug, PartialEq, Eq, Structural)]
pub enum InterceptionPolicy {
    /// Forward every message unchanged in both directions.
    PassThrough,
    /// Suppress outgoing approval distribution and rewrite outgoing dispute
    /// statement imports into invalid local statements.
    ReplaceApprovalsWithDisputes,
    /// When enabled, answer inbound validation requests with the configured
    /// fabricated verdict instead of letting genuine validation run.
    ReplaceValidationResult {
        fake_validation: FakeCandidateValidation,
        fake_validation_error: FakeCandidateValidationError,
    },
}

/// The outcome of running a policy over one inbound envelope: the envelope to
/// deliver to the wrapped participant, if any, and the synthetic responses
/// the policy fabricates.  The responses are handed back as data so the
/// caller can deliver them asynchronously, off the interception call path.
#[derive(Debug)]
pub struct IncomingDecision {
    /// `Some` to deliver the (possibly rewritten) envelope, `None` to drop it
    /// before the participant observes it.
    pub forward: Option<Envelope>,
    /// Fabricated validation verdicts to deliver on the requests' own
    /// response channels.
    pub synthetic: Vec<ValidationResponse>,
}

impl InterceptionPolicy {
    /// Whether `msg` is special-cased by this policy's outbound decision.
    /// Everything else passes through unchanged.
    pub open spec fn special_outgoing(self, msg: Message) -> bool {
        self is ReplaceApprovalsWithDisputes && (msg.is_distribute_approval() || msg matches
        Message::DisputeCoordinator(DisputeCoordinatorMessage::ImportStatements { .. }))
    }

    /// Whether `env` is special-cased by this policy's inbound decision.
    /// Everything else passes through unchanged.
    pub open spec fn special_incoming(self, env: Envelope) -> bool {
        &&& self matches InterceptionPolicy::ReplaceValidationResult { fake_validation, .. }
        &&& fake_validation is Enabled
        &&& env.msg.is_validation_request()
    }

    /// The outbound decision: `None` suppresses the message, `Some` forwards
    /// the carried message in its place.
    pub open spec fn outgoing_spec(self, msg: Message) -> Option<Message> {
        match self {
            InterceptionPolicy::ReplaceApprovalsWithDisputes => match msg {
                Message::ApprovalDistribution(
                    ApprovalDistributionMessage::DistributeApproval { .. },
                ) => None,
                Message::DisputeCoordinator(
                    DisputeCoordinatorMessage::ImportStatements {
                        candidate_hash,
                        candidate_receipt,
                        session,
                    },
                ) => Some(
                    Message::DisputeCoordinator(
                        DisputeCoordinatorMessage::IssueLocalStatement {
                            session,
                            candidate_hash,
                            candidate_receipt,
                            valid: false,
                        },
                    ),
                ),
                _ => Some(msg),
            },
            _ => Some(msg),
        }
    }

    /// The inbound forwarding decision: `None` drops the envelope, `Some`
    /// delivers the carried envelope in its place.
    pub open spec fn incoming_forward_spec(self, env: Envelope) -> Option<Envelope> {
        if self.special_incoming(env) {
            None
        } else {
            Some(env)
        }
    }

    /// The synthetic responses the inbound decision fabricates: exactly one
    /// per intercepted validation request, on the request's own channel, with
    /// the configured invalid verdict; none otherwise.
    pub open spec fn incoming_synthetic_spec(self, env: Envelope) -> Seq<ValidationResponse> {
        match self {
            InterceptionPolicy::ReplaceValidationResult {
                fake_validation,
                fake_validation_error,
            } => if self.special_incoming(env) {
                seq![
                    ValidationResponse {
                        response_channel: env.msg.request_channel(),
                        outcome: ValidationOutcome::Invalid {
                            reason: fake_validation_error.reason_spec(),
                        },
                    },
                ]
            } else {
                Seq::empty()
            },
            _ => Seq::empty(),
        }
    }

    /// Runs the outbound decision.  Total over the message domain; a variant
    /// the policy does not special-case is returned unchanged.
    pub fn intercept_outgoing(&self, msg: Message) -> (r: Option<Message>)
        ensures
            r == self.outgoing_spec(msg),
    {
        match self {
            InterceptionPolicy::ReplaceApprovalsWithDisputes => match msg {
                Message::ApprovalDistribution(
                    ApprovalDistributionMessage::DistributeApproval { .. },
                ) => {
                    // Drop the approval on the floor.
                    None
                },
                Message::DisputeCoordinator(
                    DisputeCoordinatorMessage::ImportStatements {
                        candidate_hash,
                        candidate_receipt,
                        session,
                    },
                ) => {
                    // Dispute the candidate, whether or not this node was
                    // ever assigned to approve it: deliberate harness
                    // behaviour, not a protocol bug.
                    Some(
                        Message::DisputeCoordinator(
                            DisputeCoordinatorMessage::IssueLocalStatement {
                                session,
                                candidate_hash,
                                candidate_receipt,
                                valid: false,
                            },
                        ),
                    )
                },
                other => Some(other),
            },
            _ => Some(msg),
        }
    }

    /// Runs the inbound decision.  Total over the envelope domain; a shape
    /// the policy does not special-case is forwarded unchanged with no
    /// synthetic response.
    pub fn intercept_incoming(&self, env: Envelope) -> (r: IncomingDecision)
        ensures
            r.forward == self.incoming_forward_spec(env),
            r.synthetic@ == self.incoming_synthetic_spec(env),
    {
        match self {
            InterceptionPolicy::ReplaceValidationResult {
                fake_validation: FakeCandidateValidation::Enabled,
                fake_validation_error,
            } => match env.msg {
                Message::CandidateValidation(req) => {
                    let response_channel = match req {
                        CandidateValidationMessage::ValidateFromExhaustive {
                            response_channel,
                            ..
                        } => response_channel,
                        CandidateValidationMessage::ValidateFromChainState {
                            response_channel,
                            ..
                        } => response_channel,
                    };
                    let response = ValidationResponse {
                        response_channel,
                        outcome: ValidationOutcome::Invalid {
                            reason: fake_validation_error.reason(),
                        },
                    };
                    let synthetic: Vec<ValidationResponse> = vec![response];
                    proof {
                        assert(synthetic@ =~= self.incoming_synthetic_spec(env));
                    }
                    IncomingDecision { forward: None, synthetic }
                },
                _ => IncomingDecision { forward: Some(env), synthetic: Vec::new() },
            },
            _ => {
                proof {
                    assert(self.incoming_synthetic_spec(env) =~= Seq::<
                        ValidationResponse,
                    >::empty());
                }
                IncomingDecision { forward: Some(env), synthetic: Vec::new() }
            },
        }
    }
}

/// Law: for every message or envelope a policy does not special-case, both
/// decisions are the identity — the message is forwarded exactly as it came,
/// and nothing is fabricated.
pub proof fn lemma_default_is_identity(p: InterceptionPolicy, env: Envelope, msg: Message)
    ensures
        !p.special_outgoing(msg) ==> p.outgoing_spec(msg) == Some(msg),
        !p.special_incoming(env) ==> p.incoming_forward_spec(env) == Some(env),
        !p.special_incoming(env) ==> p.incoming_synthetic_spec(env) === Seq::empty(),
{
    if !p.special_incoming(env) {
        assert(p.incoming_synthetic_spec(env) =~= Seq::<ValidationResponse>::empty());
    }
}

/// Law: the approvals→disputes policy suppresses every outgoing "distribute
/// approval" message, and replaces an outgoing "import statements" message
/// for a candidate and session by exactly the one "issue local statement"
/// message for the same candidate, receipt and session, with its validity
/// flag forced to false.  Its inbound decision is the identity.
pub proof fn lemma_replace_approvals_with_disputes(
    msg: Message,
    env: Envelope,
    candidate_hash: u64,
    candidate_receipt: CandidateReceipt,
    session: u32,
)
    ensures
        msg.is_distribute_approval()
            ==> InterceptionPolicy::ReplaceApprovalsWithDisputes.outgoing_spec(msg) is None,
        InterceptionPolicy::ReplaceApprovalsWithDisputes.outgoing_spec(
            Message::DisputeCoordinator(
                DisputeCoordinatorMessage::ImportStatements {
                    candidate_hash,
                    candidate_receipt,
                    session,
                },
            ),
        ) == Some(
            Message::DisputeCoordinator(
                DisputeCoordinatorMessage::IssueLocalStatement {
                    session,
                    candidate_hash,
                    candidate_receipt,
                    valid: false,
                },
            ),
        ),
        InterceptionPolicy::ReplaceApprovalsWithDisputes.incoming_forward_spec(env) == Some(env),
        InterceptionPolicy::ReplaceApprovalsWithDisputes.incoming_synthetic_spec(env)
            === Seq::empty(),
{
    lemma_default_is_identity(InterceptionPolicy::ReplaceApprovalsWithDisputes, env, msg);
}

/// Law: with fabricated validation disabled, the fake-validation policy is
/// the identity in both directions — validation requests pass through
/// unmodified to genuine validation and nothing is fabricated.
pub proof fn lemma_fake_validation_disabled(
    err: FakeCandidateValidationError,
    env: Envelope,
    msg: Message,
)
    ensures
        ({
            let p = InterceptionPolicy::ReplaceValidationResult {
                fake_validation: FakeCandidateValidation::Disabled,
                fake_validation_error: err,
            };
            &&& p.incoming_forward_spec(env) == Some(env)
            &&& p.incoming_synthetic_spec(env) === Seq::empty()
            &&& p.outgoing_spec(msg) == Some(msg)
        }),
{
    let p = InterceptionPolicy::ReplaceValidationResult {
        fake_validation: FakeCandidateValidation::Disabled,
        fake_validation_error: err,
    };
    lemma_default_is_identity(p, env, msg);
}

/// Law: with fabricated validation enabled, every intercepted validation
/// request yields exactly one synthetic response, on the channel the request
/// carried, reporting the configured invalid verdict; the request itself is
/// dropped, so genuine validation never observes it.  Every other envelope
/// passes through untouched.
pub proof fn lemma_fake_validation_enabled(err: FakeCandidateValidationError, env: Envelope)
    ensures
        ({
            let p = InterceptionPolicy::ReplaceValidationResult {
                fake_validation: FakeCandidateValidation::Enabled,
                fake_validation_error: err,
            };
            &&& env.msg.is_validation_request() ==> {
                &&& p.incoming_forward_spec(env) is None
                &&& p.incoming_synthetic_spec(env) =~= seq![
                    ValidationResponse {
                        response_channel: env.msg.request_channel(),
                        outcome: ValidationOutcome::Invalid { reason: err.reason_spec() },
                    },
                ]
            }
            &&& !env.msg.is_validation_request() ==> {
                &&& p.incoming_forward_spec(env) == Some(env)
                &&& p.incoming_synthetic_spec(env) === Seq::empty()
            }
        }),
{
    let p = InterceptionPolicy::ReplaceValidationResult {
        fake_validation: FakeCandidateValidation::Enabled,
        fake_validation_error: err,
    };
    if !env.msg.is_validation_request() {
        assert(p.incoming_synthetic_spec(env) =~= Seq::<ValidationResponse>::empty());
    }
}

} // verus!
