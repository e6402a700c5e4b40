use malus::assembly::{NodeParticipant, Recipe};
use malus::messages::{
    ApprovalDistributionMessage, CandidateDescriptor, CandidateReceipt,
    CandidateValidationMessage, DisputeCoordinatorMessage, Envelope, InvalidCandidate, Message,
    Provenance, ValidationOutcome, ValidationResponse,
};
use malus::participant::ParticipantKind;
use malus::policy::{FakeCandidateValidation, FakeCandidateValidationError, InterceptionPolicy};
use malus::variants::{DisputeAncestorOptions, DisputeValidCandidates};

fn candidate_x() -> CandidateReceipt {
    CandidateReceipt {
        descriptor: CandidateDescriptor { para_id: 1000, relay_parent: 31 },
        commitments_hash: 4096,
    }
}

#[test]
fn enabled_fake_validation_end_to_end() {
    let generator = DisputeValidCandidates::new(DisputeAncestorOptions {
        fake_validation: FakeCandidateValidation::Enabled,
        fake_validation_error: FakeCandidateValidationError::InvalidOutputs,
    });
    let recipe = Recipe::prepared();
    let mut node = generator.generate(&recipe).unwrap();

    let request = Envelope {
        provenance: Provenance::Orchestrator,
        msg: Message::CandidateValidation(CandidateValidationMessage::ValidateFromExhaustive {
            candidate_receipt: candidate_x(),
            response_channel: 17,
        }),
    };
    let responses = node.dispatch(ParticipantKind::CandidateValidation, request).unwrap();

    // Exactly one response, reporting the configured reason on the request's
    // own channel.
    assert_eq!(
        responses,
        vec![ValidationResponse {
            response_channel: 17,
            outcome: ValidationOutcome::Invalid { reason: InvalidCandidate::InvalidOutputs },
        }]
    );

    // The genuine validation participant never observed the request.
    for participant in node.participants.iter() {
        if let NodeParticipant::Wrapped(w) = participant {
            if w.subsystem.kind == ParticipantKind::CandidateValidation {
                assert!(w.subsystem.received.is_empty());
                return;
            }
        }
    }
    panic!("the candidate-validation participant must be wrapped");
}

#[test]
fn disabled_fake_validation_reaches_genuine_validation() {
    let generator = DisputeValidCandidates::new(DisputeAncestorOptions {
        fake_validation: FakeCandidateValidation::Disabled,
        fake_validation_error: FakeCandidateValidationError::InvalidOutputs,
    });
    let mut node = generator.generate(&Recipe::prepared()).unwrap();

    let request = Envelope {
        provenance: Provenance::Orchestrator,
        msg: Message::CandidateValidation(CandidateValidationMessage::ValidateFromChainState {
            candidate_receipt: candidate_x(),
            response_channel: 8,
        }),
    };
    let responses = node.dispatch(ParticipantKind::CandidateValidation, request).unwrap();
    assert!(responses.is_empty());

    for participant in node.participants.iter() {
        if let NodeParticipant::Wrapped(w) = participant {
            if w.subsystem.kind == ParticipantKind::CandidateValidation {
                assert_eq!(w.subsystem.received, vec![request]);
                return;
            }
        }
    }
    panic!("the candidate-validation participant must be wrapped");
}

#[test]
fn generated_node_wraps_backing_and_validation_only() {
    let generator = DisputeValidCandidates::new(DisputeAncestorOptions {
        fake_validation: FakeCandidateValidation::Enabled,
        fake_validation_error: FakeCandidateValidationError::Timeout,
    });
    let node = generator.generate(&Recipe::prepared()).unwrap();
    for participant in node.participants.iter() {
        match participant {
            NodeParticipant::Wrapped(w) => match w.subsystem.kind {
                ParticipantKind::CandidateBacking => assert_eq!(
                    w.policy,
                    InterceptionPolicy::ReplaceApprovalsWithDisputes
                ),
                ParticipantKind::CandidateValidation => assert_eq!(
                    w.policy,
                    InterceptionPolicy::ReplaceValidationResult {
                        fake_validation: FakeCandidateValidation::Enabled,
                        fake_validation_error: FakeCandidateValidationError::Timeout,
                    }
                ),
                other => panic!("unexpected wrapped participant: {:?}", other),
            },
            NodeParticipant::Plain(s) => assert!(matches!(
                s.kind,
                ParticipantKind::ApprovalDistribution | ParticipantKind::DisputeCoordinator
            )),
        }
    }
}

#[test]
fn backing_wrapper_turns_imports_into_disputes_end_to_end() {
    let generator = DisputeValidCandidates::new(DisputeAncestorOptions {
        fake_validation: FakeCandidateValidation::Disabled,
        fake_validation_error: FakeCandidateValidationError::InvalidOutputs,
    });
    let node = generator.generate(&Recipe::prepared()).unwrap();
    let backing = node
        .participants
        .iter()
        .find_map(|p| match p {
            NodeParticipant::Wrapped(w) if w.subsystem.kind == ParticipantKind::CandidateBacking => {
                Some(w)
            }
            _ => None,
        })
        .expect("the candidate-backing participant must be wrapped");

    let emitted = vec![
        Message::ApprovalDistribution(ApprovalDistributionMessage::DistributeApproval {
            validator: 2,
            candidate_hash: 4096,
        }),
        Message::DisputeCoordinator(DisputeCoordinatorMessage::ImportStatements {
            candidate_hash: 4096,
            candidate_receipt: candidate_x(),
            session: 6,
        }),
    ];
    let out = backing.filter_outgoing(&emitted);
    assert_eq!(
        out,
        vec![Message::DisputeCoordinator(DisputeCoordinatorMessage::IssueLocalStatement {
            session: 6,
            candidate_hash: 4096,
            candidate_receipt: candidate_x(),
            valid: false,
        })]
    );
}
