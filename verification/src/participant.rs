//! The model of an underlying protocol participant ("subsystem").
//!
//! The protocol logic a participant runs is an external collaborator and out
//! of scope here; what matters to the interception layer is the boundary:
//! which envelopes the participant is handed, in which order.  The model
//! therefore records every delivered envelope.  A wrapped participant whose
//! log never contains a validation request is one whose genuine validation
//! path never executed.

use vstd::prelude::*;

use crate::messages::Envelope;

verus! {

/// The participant kinds a node is assembled from, one per protocol concern.
#[derive(Clone, Copy, Debug, PartialEq, Eq, Structural)]
pub enum ParticipantKind {
    /// Distributes approval votes and assignments.
    ApprovalDistribution,
    /// Seconds and backs candidates.
    CandidateBacking,
    /// Coordinates disputes about candidate validity.
    DisputeCoordinator,
    /// Validates candidates.
    CandidateValidation,
}

/// An underlying participant: its kind and the log of envelopes delivered to
/// it, in delivery order.
#[derive(Debug)]
pub struct Subsystem {
    /// The protocol concern this participant is responsible for.
    pub kind: ParticipantKind,
    /// Every envelope delivered to the participant, oldest first.
    pub received: Vec<Envelope>,
}

impl Subsystem {
    /// Creates a participant of the given kind that has observed nothing yet.
    pub fn new(kind: ParticipantKind) -> (s: Subsystem)
        ensures
            s.kind == kind,
            s.received@ === Seq::empty(),
    {
        Subsystem { kind, received: Vec::new() }
    }

    /// Delivers one envelope: the participant observes it after everything
    /// delivered before, and nothing else changes.
    pub fn deliver(&mut self, env: Envelope)
        ensures
            final(self).kind == old(self).kind,
            final(self).received@ == old(self).received@.push(env),
    {
        self.received.push(env);
    }
}

} // verus!
