use malus::assembly::{assemble, AssemblyError, Node, NodeParticipant, Recipe};
use malus::messages::{CandidateBackingMessage, Envelope, Message, Provenance};
use malus::participant::ParticipantKind;
use malus::policy::InterceptionPolicy;

fn kinds_of(node: &Node) -> Vec<ParticipantKind> {
    node.participants.iter().map(|p| p.kind()).collect()
}

#[test]
fn override_wraps_exactly_the_named_kind() {
    let recipe = Recipe::prepared();
    let overrides = vec![
        (ParticipantKind::CandidateBacking, InterceptionPolicy::ReplaceApprovalsWithDisputes),
    ];
    let node = assemble(&recipe, &overrides).unwrap();
    assert_eq!(
        kinds_of(&node),
        vec![
            ParticipantKind::ApprovalDistribution,
            ParticipantKind::CandidateBacking,
            ParticipantKind::DisputeCoordinator,
            ParticipantKind::CandidateValidation,
        ]
    );
    for participant in node.participants.iter() {
        match participant {
            NodeParticipant::Wrapped(w) => {
                assert_eq!(w.subsystem.kind, ParticipantKind::CandidateBacking);
                assert_eq!(w.policy, InterceptionPolicy::ReplaceApprovalsWithDisputes);
                assert!(w.subsystem.received.is_empty());
            }
            NodeParticipant::Plain(s) => {
                assert_ne!(s.kind, ParticipantKind::CandidateBacking);
                assert!(s.received.is_empty());
            }
        }
    }
}

#[test]
fn override_for_missing_kind_fails_at_construction() {
    let recipe = Recipe::new(vec![
        ParticipantKind::ApprovalDistribution,
        ParticipantKind::DisputeCoordinator,
    ]);
    let overrides = vec![
        (ParticipantKind::CandidateBacking, InterceptionPolicy::ReplaceApprovalsWithDisputes),
    ];
    match assemble(&recipe, &overrides) {
        Err(e) => assert_eq!(
            e,
            AssemblyError::UnknownParticipant { kind: ParticipantKind::CandidateBacking }
        ),
        Ok(_) => panic!("assembly must fail"),
    }
}

#[test]
fn two_overrides_for_one_kind_fail_at_construction() {
    let recipe = Recipe::prepared();
    let overrides = vec![
        (ParticipantKind::CandidateBacking, InterceptionPolicy::ReplaceApprovalsWithDisputes),
        (ParticipantKind::CandidateBacking, InterceptionPolicy::PassThrough),
    ];
    match assemble(&recipe, &overrides) {
        Err(e) => assert_eq!(
            e,
            AssemblyError::DuplicateOverride { kind: ParticipantKind::CandidateBacking }
        ),
        Ok(_) => panic!("assembly must fail"),
    }
}

#[test]
fn recipe_with_repeated_kind_fails_at_construction() {
    let recipe = Recipe::new(vec![
        ParticipantKind::CandidateBacking,
        ParticipantKind::CandidateBacking,
    ]);
    match assemble(&recipe, &Vec::new()) {
        Err(e) => assert_eq!(
            e,
            AssemblyError::DuplicateParticipant { kind: ParticipantKind::CandidateBacking }
        ),
        Ok(_) => panic!("assembly must fail"),
    }
}

#[test]
fn empty_override_set_builds_the_unmodified_node() {
    let recipe = Recipe::prepared();
    let node = assemble(&recipe, &Vec::new()).unwrap();
    assert_eq!(node.participants.len(), 4);
    for participant in node.participants.iter() {
        assert!(matches!(participant, NodeParticipant::Plain(_)));
    }
}

#[test]
fn empty_recipe_builds_an_empty_node() {
    let recipe = Recipe::new(Vec::new());
    let node = assemble(&recipe, &Vec::new()).unwrap();
    assert!(node.participants.is_empty());
}

#[test]
fn dispatch_reaches_the_addressed_participant_only() {
    let recipe = Recipe::prepared();
    let mut node = assemble(&recipe, &Vec::new()).unwrap();
    let env = Envelope {
        provenance: Provenance::Orchestrator,
        msg: Message::CandidateBacking(CandidateBackingMessage::Statement {
            relay_parent: 1,
            candidate_hash: 2,
        }),
    };
    let responses = node.dispatch(ParticipantKind::CandidateBacking, env).unwrap();
    assert!(responses.is_empty());
    for participant in node.participants.iter() {
        match participant {
            NodeParticipant::Plain(s) => {
                if s.kind == ParticipantKind::CandidateBacking {
                    assert_eq!(s.received, vec![env]);
                } else {
                    assert!(s.received.is_empty());
                }
            }
            NodeParticipant::Wrapped(_) => panic!("nothing was overridden"),
        }
    }
}

#[test]
fn dispatch_to_an_absent_kind_reports_none() {
    let recipe = Recipe::new(vec![ParticipantKind::ApprovalDistribution]);
    let mut node = assemble(&recipe, &Vec::new()).unwrap();
    let env = Envelope {
        provenance: Provenance::Orchestrator,
        msg: Message::CandidateBacking(CandidateBackingMessage::Statement {
            relay_parent: 1,
            candidate_hash: 2,
        }),
    };
    assert!(node.dispatch(ParticipantKind::CandidateBacking, env).is_none());
}
