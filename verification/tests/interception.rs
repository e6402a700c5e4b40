use malus::interceptor::InterceptedSubsystem;
use malus::messages::{
    ApprovalDistributionMessage, CandidateBackingMessage, CandidateDescriptor, CandidateReceipt,
    DisputeCoordinatorMessage, Envelope, Message, Provenance,
};
use malus::participant::{ParticipantKind, Subsystem};
use malus::policy::{FakeCandidateValidation, FakeCandidateValidationError, InterceptionPolicy};

fn receipt(para_id: u32, commitments_hash: u64) -> CandidateReceipt {
    CandidateReceipt {
        descriptor: CandidateDescriptor { para_id, relay_parent: 100 },
        commitments_hash,
    }
}

#[test]
fn non_special_messages_pass_unchanged_outgoing() {
    let policies = [
        InterceptionPolicy::PassThrough,
        InterceptionPolicy::ReplaceApprovalsWithDisputes,
        InterceptionPolicy::ReplaceValidationResult {
            fake_validation: FakeCandidateValidation::Enabled,
            fake_validation_error: FakeCandidateValidationError::InvalidOutputs,
        },
    ];
    let msg = Message::CandidateBacking(CandidateBackingMessage::Statement {
        relay_parent: 7,
        candidate_hash: 9,
    });
    for policy in policies.iter() {
        assert_eq!(policy.intercept_outgoing(msg), Some(msg));
    }
    let assignment = Message::ApprovalDistribution(
        ApprovalDistributionMessage::DistributeAssignment { validator: 4, candidate_hash: 5 },
    );
    for policy in policies.iter() {
        assert_eq!(policy.intercept_outgoing(assignment), Some(assignment));
    }
}

#[test]
fn non_special_envelopes_pass_unchanged_incoming() {
    let policies = [
        InterceptionPolicy::PassThrough,
        InterceptionPolicy::ReplaceApprovalsWithDisputes,
        InterceptionPolicy::ReplaceValidationResult {
            fake_validation: FakeCandidateValidation::Enabled,
            fake_validation_error: FakeCandidateValidationError::Timeout,
        },
    ];
    let env = Envelope {
        provenance: Provenance::Orchestrator,
        msg: Message::CandidateBacking(CandidateBackingMessage::Second {
            relay_parent: 3,
            receipt: receipt(2, 11),
        }),
    };
    for policy in policies.iter() {
        let decision = policy.intercept_incoming(env);
        assert_eq!(decision.forward, Some(env));
        assert!(decision.synthetic.is_empty());
    }
}

#[test]
fn distribute_approval_is_suppressed() {
    let policy = InterceptionPolicy::ReplaceApprovalsWithDisputes;
    let approval = Message::ApprovalDistribution(
        ApprovalDistributionMessage::DistributeApproval { validator: 1, candidate_hash: 42 },
    );
    assert_eq!(policy.intercept_outgoing(approval), None);
}

#[test]
fn import_statements_becomes_invalid_local_statement() {
    let policy = InterceptionPolicy::ReplaceApprovalsWithDisputes;
    let r = receipt(6, 77);
    let import = Message::DisputeCoordinator(DisputeCoordinatorMessage::ImportStatements {
        candidate_hash: 42,
        candidate_receipt: r,
        session: 9,
    });
    let expected = Message::DisputeCoordinator(DisputeCoordinatorMessage::IssueLocalStatement {
        session: 9,
        candidate_hash: 42,
        candidate_receipt: r,
        valid: false,
    });
    assert_eq!(policy.intercept_outgoing(import), Some(expected));
}

#[test]
fn outgoing_batch_keeps_order_and_drops_approvals() {
    let wrapper = InterceptedSubsystem::new(
        Subsystem::new(ParticipantKind::CandidateBacking),
        InterceptionPolicy::ReplaceApprovalsWithDisputes,
    );
    let r = receipt(1, 5);
    let approval = Message::ApprovalDistribution(
        ApprovalDistributionMessage::DistributeApproval { validator: 0, candidate_hash: 8 },
    );
    let import = Message::DisputeCoordinator(DisputeCoordinatorMessage::ImportStatements {
        candidate_hash: 8,
        candidate_receipt: r,
        session: 2,
    });
    let statement = Message::CandidateBacking(CandidateBackingMessage::Statement {
        relay_parent: 3,
        candidate_hash: 8,
    });
    let batch = vec![approval, import, statement];
    let out = wrapper.filter_outgoing(&batch);
    let substituted = Message::DisputeCoordinator(DisputeCoordinatorMessage::IssueLocalStatement {
        session: 2,
        candidate_hash: 8,
        candidate_receipt: r,
        valid: false,
    });
    assert_eq!(out, vec![substituted, statement]);
}

#[test]
fn suppression_does_not_block_later_messages() {
    let wrapper = InterceptedSubsystem::new(
        Subsystem::new(ParticipantKind::CandidateBacking),
        InterceptionPolicy::ReplaceApprovalsWithDisputes,
    );
    let suppressed = Message::ApprovalDistribution(
        ApprovalDistributionMessage::DistributeApproval { validator: 1, candidate_hash: 2 },
    );
    let forwarded = Message::CandidateBacking(CandidateBackingMessage::Statement {
        relay_parent: 4,
        candidate_hash: 2,
    });
    let out = wrapper.filter_outgoing(&vec![suppressed, forwarded]);
    assert_eq!(out, vec![forwarded]);
}

#[test]
fn empty_batches_stay_empty() {
    let mut wrapper = InterceptedSubsystem::new(
        Subsystem::new(ParticipantKind::CandidateBacking),
        InterceptionPolicy::ReplaceApprovalsWithDisputes,
    );
    assert!(wrapper.filter_outgoing(&Vec::new()).is_empty());
    assert!(wrapper.handle_incoming_all(&Vec::new()).is_empty());
    assert!(wrapper.subsystem.received.is_empty());
}

#[test]
fn incoming_batch_preserves_arrival_order() {
    let mut wrapper = InterceptedSubsystem::new(
        Subsystem::new(ParticipantKind::CandidateBacking),
        InterceptionPolicy::ReplaceApprovalsWithDisputes,
    );
    let first = Envelope {
        provenance: Provenance::Orchestrator,
        msg: Message::CandidateBacking(CandidateBackingMessage::Second {
            relay_parent: 1,
            receipt: receipt(1, 1),
        }),
    };
    let second = Envelope {
        provenance: Provenance::Peer,
        msg: Message::CandidateBacking(CandidateBackingMessage::Statement {
            relay_parent: 1,
            candidate_hash: 3,
        }),
    };
    let synthetic = wrapper.handle_incoming_all(&vec![first, second]);
    assert!(synthetic.is_empty());
    assert_eq!(wrapper.subsystem.received, vec![first, second]);
}
