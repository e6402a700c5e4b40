//! The malicious node variant that replaces approvals with invalid disputes
//! against valid candidates and, when configured, fakes candidate
//! validation.
//!
//! For use against test networks only: the variant exists to exercise the
//! surrounding network's dispute resolution and approval checking under
//! injected faults.

use vstd::prelude::*;

use crate::assembly::{
    assemble, assembly_fault, lemma_assembly_succeeds, override_for, participant_matches,
    AssemblyError, Node, Recipe,
};
use crate::participant::ParticipantKind;
use crate::policy::{FakeCandidateValidation, FakeCandidateValidationError, InterceptionPolicy};

verus! {

/// Configuration of the variant: whether candidate validation is faked, and
/// which invalid verdict a faked validation reports.  The host node's run
/// parameters are an opaque pass-through and stay with the process
/// bootstrap, outside this model.  Both fields are closed enumerations, so
/// every combination expressible here is a valid configuration.
#[derive(Clone, Copy, Debug, PartialEq, Eq, Structural)]
pub struct DisputeAncestorOptions {
    /// Whether fabricated candidate validation is switched on.
    pub fake_validation: FakeCandidateValidation,
    /// The invalid verdict a fabricated validation reports.
    pub fake_validation_error: FakeCandidateValidationError,
}

/// The node generator of the variant.
#[derive(Clone, Copy, Debug, PartialEq, Eq, Structural)]
pub struct DisputeValidCandidates {
    /// Fake validation config (applies to disputes as well).
    pub opts: DisputeAncestorOptions,
}

/// The overrides this generator installs: the candidate-backing participant
/// goes behind the approvals→disputes policy, the candidate-validation
/// participant behind the fake-validation policy built from `opts`.
pub open spec fn malus_overrides(opts: DisputeAncestorOptions) -> Seq<
    (ParticipantKind, InterceptionPolicy),
> {
    seq![
        (ParticipantKind::CandidateBacking, InterceptionPolicy::ReplaceApprovalsWithDisputes),
        (
            ParticipantKind::CandidateValidation,
            InterceptionPolicy::ReplaceValidationResult {
                fake_validation: opts.fake_validation,
                fake_validation_error: opts.fake_validation_error,
            },
        ),
    ]
}

impl DisputeValidCandidates {
    /// A generator with the given configuration.
    pub fn new(opts: DisputeAncestorOptions) -> (g: DisputeValidCandidates)
        ensures
            g.opts == opts,
    {
        DisputeValidCandidates { opts }
    }

    /// Generates the node from the base recipe, wrapping the
    /// candidate-backing and candidate-validation participants behind this
    /// variant's policies and building everything else exactly as the
    /// unmodified node would.  A recipe the overrides do not fit is refused
    /// before the node starts; partial assembly never escapes.
    pub fn generate(&self, recipe: &Recipe) -> (r: Result<Node, AssemblyError>)
        ensures
            r is Err <==> assembly_fault(recipe.kinds@, malus_overrides(self.opts)) is Some,
            r matches Err(e) ==> assembly_fault(recipe.kinds@, malus_overrides(self.opts))
                == Some(e),
            r matches Ok(node) ==> {
                &&& node.participants@.len() == recipe.kinds@.len()
                &&& forall|i: int|
                    0 <= i < recipe.kinds@.len() ==> participant_matches(
                        #[trigger] node.participants@[i],
                        recipe.kinds@[i],
                        override_for(malus_overrides(self.opts), recipe.kinds@[i]),
                    )
            },
    {
        let backing_filter = InterceptionPolicy::ReplaceApprovalsWithDisputes;
        let validation_filter = InterceptionPolicy::ReplaceValidationResult {
            fake_validation: self.opts.fake_validation,
            fake_validation_error: self.opts.fake_validation_error,
        };
        let overrides: Vec<(ParticipantKind, InterceptionPolicy)> = vec![
            (ParticipantKind::CandidateBacking, backing_filter),
            (ParticipantKind::CandidateValidation, validation_filter),
        ];
        proof {
            assert(overrides@ =~= malus_overrides(self.opts));
        }
        assemble(recipe, &overrides)
    }
}

/// Law: on the prepared base recipe the generator always succeeds, for
/// every configuration — each kind appears once there, and both installed
/// overrides name kinds the recipe contains.
pub proof fn lemma_generate_on_prepared_succeeds(opts: DisputeAncestorOptions)
    ensures
        ({
            let kinds = seq![
                ParticipantKind::ApprovalDistribution,
                ParticipantKind::CandidateBacking,
                ParticipantKind::DisputeCoordinator,
                ParticipantKind::CandidateValidation,
            ];
            assembly_fault(kinds, malus_overrides(opts)) is None
        }),
{
    let kinds = seq![
        ParticipantKind::ApprovalDistribution,
        ParticipantKind::CandidateBacking,
        ParticipantKind::DisputeCoordinator,
        ParticipantKind::CandidateValidation,
    ];
    let overrides = malus_overrides(opts);
    assert forall|i: int, j: int| 0 <= i < j < kinds.len() implies kinds[i] != kinds[j] by {
        assert(kinds[0] == ParticipantKind::ApprovalDistribution);
        assert(kinds[1] == ParticipantKind::CandidateBacking);
        assert(kinds[2] == ParticipantKind::DisputeCoordinator);
        assert(kinds[3] == ParticipantKind::CandidateValidation);
    }
    assert forall|i: int| 0 <= i < overrides.len() implies crate::assembly::has_kind(
        kinds,
        (#[trigger] overrides[i]).0,
    ) by {
        if i == 0 {
            assert(kinds[1] == overrides[0].0);
        } else {
            assert(kinds[3] == overrides[1].0);
        }
    }
    lemma_assembly_succeeds(kinds, overrides);
}

} // verus!
