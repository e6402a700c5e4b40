//! Node assembly: from an ordered recipe of participant kinds and a set of
//! (kind → policy) overrides, build a node in which every overridden
//! participant sits behind an intercepting wrapper and every other
//! participant is untouched.
//!
//! Assembly either fully succeeds or fails with a construction error before
//! the node starts; partial assembly is not a valid state.  Faults are
//! reported in scan order: duplicate recipe entries first, then each
//! override in turn, an unknown kind before a repeated one.

use vstd::prelude::*;

use crate::interceptor::{forwarded_seq, InterceptedSubsystem};
use crate::messages::{Envelope, ValidationResponse};
use crate::participant::{ParticipantKind, Subsystem};
use crate::policy::InterceptionPolicy;

verus! {

/// A construction error: assembly refused the recipe or the overrides.
#[derive(Clone, Copy, Debug, PartialEq, Eq, Structural)]
pub enum AssemblyError {
    /// An override names a kind the recipe does not contain.
    UnknownParticipant { kind: ParticipantKind },
    /// Two overrides name the same kind.
    DuplicateOverride { kind: ParticipantKind },
    /// The recipe lists the same kind twice.
    DuplicateParticipant { kind: ParticipantKind },
}

/// A base construction recipe: the participant kinds the node is built
/// from, in construction order.
#[derive(Debug)]
pub struct Recipe {
    /// The participant kinds, in order.
    pub kinds: Vec<ParticipantKind>,
}

impl Recipe {
    /// A recipe over the given kinds, in the given order.
    pub fn new(kinds: Vec<ParticipantKind>) -> (r: Recipe)
        ensures
            r.kinds@ == kinds@,
    {
        Recipe { kinds }
    }

    /// The prepared base recipe of the host node: one participant per known
    /// protocol concern, in a fixed order.
    pub fn prepared() -> (r: Recipe)
        ensures
            r.kinds@ == seq![
                ParticipantKind::ApprovalDistribution,
                ParticipantKind::CandidateBacking,
                ParticipantKind::DisputeCoordinator,
                ParticipantKind::CandidateValidation,
            ],
    {
        let kinds: Vec<ParticipantKind> = vec![
            ParticipantKind::ApprovalDistribution,
            ParticipantKind::CandidateBacking,
            ParticipantKind::DisputeCoordinator,
            ParticipantKind::CandidateValidation,
        ];
        proof {
            assert(kinds@ =~= seq![
                ParticipantKind::ApprovalDistribution,
                ParticipantKind::CandidateBacking,
                ParticipantKind::DisputeCoordinator,
                ParticipantKind::CandidateValidation,
            ]);
        }
        Recipe { kinds }
    }
}

/// One participant of an assembled node: wrapped behind an interceptor, or
/// plain, exactly as the unmodified node would build it.
#[derive(Debug)]
pub enum NodeParticipant {
    /// The normal participant, untouched.
    Plain(Subsystem),
    /// The normal participant behind an intercepting wrapper.
    Wrapped(InterceptedSubsystem),
}

/// The kind of an assembled participant, wrapped or not.
pub open spec fn participant_kind(p: NodeParticipant) -> ParticipantKind {
    match p {
        NodeParticipant::Plain(s) => s.kind,
        NodeParticipant::Wrapped(w) => w.subsystem.kind,
    }
}

/// Whether `kinds` contains `k`.
pub open spec fn has_kind(kinds: Seq<ParticipantKind>, k: ParticipantKind) -> bool {
    exists|i: int| 0 <= i < kinds.len() && kinds[i] == k
}

/// Whether some override names `k`.
pub open spec fn overrides_name(
    overrides: Seq<(ParticipantKind, InterceptionPolicy)>,
    k: ParticipantKind,
) -> bool {
    exists|i: int| 0 <= i < overrides.len() && overrides[i].0 == k
}

/// The policy of the first override naming `k`, if any.
pub open spec fn override_for(
    overrides: Seq<(ParticipantKind, InterceptionPolicy)>,
    k: ParticipantKind,
) -> Option<InterceptionPolicy>
    decreases overrides.len(),
{
    if overrides.len() == 0 {
        None
    } else if overrides[0].0 == k {
        Some(overrides[0].1)
    } else {
        override_for(overrides.drop_first(), k)
    }
}

/// The first kind the recipe lists twice, in scan order, if any.
pub open spec fn first_duplicate_kind(kinds: Seq<ParticipantKind>) -> Option<ParticipantKind>
    decreases kinds.len(),
{
    if kinds.len() == 0 {
        None
    } else {
        match first_duplicate_kind(kinds.drop_last()) {
            Some(k) => Some(k),
            None => if has_kind(kinds.drop_last(), kinds.last()) {
                Some(kinds.last())
            } else {
                None
            },
        }
    }
}

/// The first fault among the overrides, in scan order: an override naming a
/// kind outside the recipe, or naming a kind already overridden.
pub open spec fn first_override_fault(
    recipe_kinds: Seq<ParticipantKind>,
    overrides: Seq<(ParticipantKind, InterceptionPolicy)>,
) -> Option<AssemblyError>
    decreases overrides.len(),
{
    if overrides.len() == 0 {
        None
    } else {
        match first_override_fault(recipe_kinds, overrides.drop_last()) {
            Some(e) => Some(e),
            None => if !has_kind(recipe_kinds, overrides.last().0) {
                Some(AssemblyError::UnknownParticipant { kind: overrides.last().0 })
            } else if overrides_name(overrides.drop_last(), overrides.last().0) {
                Some(AssemblyError::DuplicateOverride { kind: overrides.last().0 })
            } else {
                None
            },
        }
    }
}

/// The construction error assembly reports, if any: a duplicate recipe
/// entry first, otherwise the first override fault.
pub open spec fn assembly_fault(
    recipe_kinds: Seq<ParticipantKind>,
    overrides: Seq<(ParticipantKind, InterceptionPolicy)>,
) -> Option<AssemblyError> {
    match first_duplicate_kind(recipe_kinds) {
        Some(k) => Some(AssemblyError::DuplicateParticipant { kind: k }),
        None => first_override_fault(recipe_kinds, overrides),
    }
}

/// Whether an assembled participant is what the recipe and overrides owe at
/// its position: wrapped with the overriding policy around a fresh normal
/// participant of kind `kind`, or that fresh participant plain.
pub open spec fn participant_matches(
    p: NodeParticipant,
    kind: ParticipantKind,
    ov: Option<InterceptionPolicy>,
) -> bool {
    match ov {
        None => {
            &&& p matches NodeParticipant::Plain(s)
            &&& s.kind == kind
            &&& s.received@ === Seq::<Envelope>::empty()
        },
        Some(pol) => {
            &&& p matches NodeParticipant::Wrapped(w)
            &&& w.subsystem.kind == kind
            &&& w.subsystem.received@ === Seq::<Envelope>::empty()
            &&& w.policy == pol
        },
    }
}

/// An assembled node.  Its participant list is the control surface the
/// orchestrator dispatches envelopes through.
#[derive(Debug)]
pub struct Node {
    /// The assembled participants, in recipe order.
    pub participants: Vec<NodeParticipant>,
}

impl NodeParticipant {
    /// The kind of this participant, wrapped or not.
    pub fn kind(&self) -> (k: ParticipantKind)
        ensures
            k == participant_kind(*self),
    {
        match self {
            NodeParticipant::Plain(s) => s.kind,
            NodeParticipant::Wrapped(w) => w.subsystem.kind,
        }
    }
}

/// The index of the first participant of `kind`, if any.
pub open spec fn first_kind_index(
    parts: Seq<NodeParticipant>,
    kind: ParticipantKind,
) -> Option<int>
    decreases parts.len(),
{
    if parts.len() == 0 {
        None
    } else if participant_kind(parts[0]) == kind {
        Some(0)
    } else {
        match first_kind_index(parts.drop_first(), kind) {
            Some(i) => Some(i + 1),
            None => None,
        }
    }
}

/// What dispatching one envelope does to the addressed participant: a plain
/// participant observes it directly with nothing fabricated; a wrapped one
/// observes exactly what its policy forwards, and the policy's synthetic
/// responses come back.  Policy and kind never change.
pub open spec fn dispatch_step(
    before: NodeParticipant,
    env: Envelope,
    after: NodeParticipant,
    synthetic: Seq<ValidationResponse>,
) -> bool {
    match before {
        NodeParticipant::Plain(s) => {
            &&& after matches NodeParticipant::Plain(s2)
            &&& s2.kind == s.kind
            &&& s2.received@ == s.received@.push(env)
            &&& synthetic === Seq::<ValidationResponse>::empty()
        },
        NodeParticipant::Wrapped(w) => {
            &&& after matches NodeParticipant::Wrapped(w2)
            &&& w2.policy == w.policy
            &&& w2.subsystem.kind == w.subsystem.kind
            &&& w2.subsystem.received@ == w.subsystem.received@ + forwarded_seq(w.policy, env)
            &&& synthetic == w.policy.incoming_synthetic_spec(env)
        },
    }
}

proof fn lemma_first_kind_index_found(parts: Seq<NodeParticipant>, kind: ParticipantKind, i: int)
    requires
        0 <= i < parts.len(),
        participant_kind(parts[i]) == kind,
        forall|j: int| 0 <= j < i ==> participant_kind(#[trigger] parts[j]) != kind,
    ensures
        first_kind_index(parts, kind) == Some(i),
    decreases i,
{
    if i > 0 {
        let rest = parts.drop_first();
        assert(rest[i - 1] == parts[i]);
        assert forall|j: int| 0 <= j < i - 1 implies participant_kind(#[trigger] rest[j])
            != kind by {
            assert(rest[j] == parts[j + 1]);
        }
        lemma_first_kind_index_found(rest, kind, i - 1);
    }
}

proof fn lemma_first_kind_index_missing(parts: Seq<NodeParticipant>, kind: ParticipantKind)
    requires
        forall|j: int| 0 <= j < parts.len() ==> participant_kind(#[trigger] parts[j]) != kind,
    ensures
        first_kind_index(parts, kind) is None,
    decreases parts.len(),
{
    if parts.len() > 0 {
        let rest = parts.drop_first();
        assert forall|j: int| 0 <= j < rest.len() implies participant_kind(#[trigger] rest[j])
            != kind by {
            assert(rest[j] == parts[j + 1]);
        }
        lemma_first_kind_index_missing(rest, kind);
    }
}

impl Node {
    /// Routes one envelope to this node's participant of the given kind, as
    /// the orchestrator does.  Returns the fabricated responses owed for
    /// asynchronous delivery, or `None` when no participant of that kind
    /// exists; every other participant is untouched.
    #[verifier::loop_isolation(false)]
    pub fn dispatch(&mut self, kind: ParticipantKind, env: Envelope) -> (r: Option<
        Vec<ValidationResponse>,
    >)
        ensures
            r is Some <==> first_kind_index(old(self).participants@, kind) is Some,
            first_kind_index(old(self).participants@, kind) matches Some(i) ==> {
                &&& final(self).participants@.len() == old(self).participants@.len()
                &&& forall|j: int|
                    0 <= j < old(self).participants@.len() && j != i
                        ==> final(self).participants@[j] == old(self).participants@[j]
                &&& r matches Some(synthetic) && dispatch_step(
                    old(self).participants@[i],
                    env,
                    final(self).participants@[i],
                    synthetic@,
                )
            },
            first_kind_index(old(self).participants@, kind) is None ==> final(self).participants@
                == old(self).participants@,
    {
        let n = self.participants.len();
        let mut i: usize = 0;
        while i < n
            invariant
                i <= n,
                self.participants@ == old(self).participants@,
                forall|j: int|
                    0 <= j < i ==> participant_kind(#[trigger] self.participants@[j]) != kind,
            decreases n - i,
        {
            if self.participants[i].kind() == kind {
                proof {
                    lemma_first_kind_index_found(self.participants@, kind, i as int);
                }
                let part = self.participants.remove(i);
                let ghost before = old(self).participants@;
                let (rebuilt, synthetic): (NodeParticipant, Vec<ValidationResponse>) = match part {
                    NodeParticipant::Plain(mut s) => {
                        s.deliver(env);
                        (NodeParticipant::Plain(s), Vec::new())
                    },
                    NodeParticipant::Wrapped(mut w) => {
                        let fabricated = w.handle_incoming(env);
                        (NodeParticipant::Wrapped(w), fabricated)
                    },
                };
                self.participants.insert(i, rebuilt);
                proof {
                    assert(self.participants@ =~= before.update(i as int, rebuilt));
                }
                return Some(synthetic);
            }
            i = i + 1;
        }
        proof {
            lemma_first_kind_index_missing(self.participants@, kind);
        }
        None
    }
}

/// Law: assembly success is owed whenever the recipe lists each kind at
/// most once, every override names a kind the recipe contains, and no two
/// overrides name the same kind.  Together with the exactness of
/// `assembly_fault` this pins down exactly when a node is produced.
pub proof fn lemma_assembly_succeeds(
    kinds: Seq<ParticipantKind>,
    overrides: Seq<(ParticipantKind, InterceptionPolicy)>,
)
    requires
        forall|i: int, j: int| 0 <= i < j < kinds.len() ==> kinds[i] != kinds[j],
        forall|i: int| 0 <= i < overrides.len() ==> has_kind(kinds, (#[trigger] overrides[i]).0),
        forall|i: int, j: int|
            0 <= i < j < overrides.len() ==> overrides[i].0 != overrides[j].0,
    ensures
        assembly_fault(kinds, overrides) is None,
{
    lemma_no_duplicate_kind(kinds);
    lemma_no_override_fault(kinds, overrides);
}

proof fn lemma_no_duplicate_kind(kinds: Seq<ParticipantKind>)
    requires
        forall|i: int, j: int| 0 <= i < j < kinds.len() ==> kinds[i] != kinds[j],
    ensures
        first_duplicate_kind(kinds) is None,
    decreases kinds.len(),
{
    if kinds.len() > 0 {
        let prefix = kinds.drop_last();
        assert forall|i: int, j: int| 0 <= i < j < prefix.len() implies prefix[i] != prefix[j] by {
            assert(prefix[i] == kinds[i]);
            assert(prefix[j] == kinds[j]);
        }
        lemma_no_duplicate_kind(prefix);
        if has_kind(prefix, kinds.last()) {
            let w = choose|w: int| 0 <= w < prefix.len() && prefix[w] == kinds.last();
            assert(kinds[w] == kinds[kinds.len() - 1]);
            assert(false);
        }
    }
}

proof fn lemma_no_override_fault(
    kinds: Seq<ParticipantKind>,
    overrides: Seq<(ParticipantKind, InterceptionPolicy)>,
)
    requires
        forall|i: int| 0 <= i < overrides.len() ==> has_kind(kinds, (#[trigger] overrides[i]).0),
        forall|i: int, j: int|
            0 <= i < j < overrides.len() ==> overrides[i].0 != overrides[j].0,
    ensures
        first_override_fault(kinds, overrides) is None,
    decreases overrides.len(),
{
    if overrides.len() > 0 {
        let prefix = overrides.drop_last();
        assert forall|i: int| 0 <= i < prefix.len() implies has_kind(
            kinds,
            (#[trigger] prefix[i]).0,
        ) by {
            assert(prefix[i] == overrides[i]);
        }
        assert forall|i: int, j: int| 0 <= i < j < prefix.len() implies prefix[i].0
            != prefix[j].0 by {
            assert(prefix[i] == overrides[i]);
            assert(prefix[j] == overrides[j]);
        }
        lemma_no_override_fault(kinds, prefix);
        assert(has_kind(kinds, overrides.last().0));
        if overrides_name(prefix, overrides.last().0) {
            let w = choose|w: int| 0 <= w < prefix.len() && prefix[w].0 == overrides.last().0;
            assert(overrides[w].0 == overrides[overrides.len() - 1].0);
            assert(false);
        }
    }
}

/// A duplicate found in a prefix of the recipe stays the first duplicate of
/// the whole recipe.
proof fn lemma_first_duplicate_extends(kinds: Seq<ParticipantKind>, m: int)
    requires
        0 <= m <= kinds.len(),
        first_duplicate_kind(kinds.subrange(0, m)) is Some,
    ensures
        first_duplicate_kind(kinds) == first_duplicate_kind(kinds.subrange(0, m)),
    decreases kinds.len() - m,
{
    if m == kinds.len() {
        assert(kinds.subrange(0, m) =~= kinds);
    } else {
        let ext = kinds.subrange(0, m + 1);
        assert(ext.drop_last() =~= kinds.subrange(0, m));
        lemma_first_duplicate_extends(kinds, m + 1);
    }
}

/// A fault found among a prefix of the overrides stays the first fault of
/// the whole override list.
proof fn lemma_first_override_fault_extends(
    recipe_kinds: Seq<ParticipantKind>,
    overrides: Seq<(ParticipantKind, InterceptionPolicy)>,
    m: int,
)
    requires
        0 <= m <= overrides.len(),
        first_override_fault(recipe_kinds, overrides.subrange(0, m)) is Some,
    ensures
        first_override_fault(recipe_kinds, overrides) == first_override_fault(
            recipe_kinds,
            overrides.subrange(0, m),
        ),
    decreases overrides.len() - m,
{
    if m == overrides.len() {
        assert(overrides.subrange(0, m) =~= overrides);
    } else {
        let ext = overrides.subrange(0, m + 1);
        assert(ext.drop_last() =~= overrides.subrange(0, m));
        lemma_first_override_fault_extends(recipe_kinds, overrides, m + 1);
    }
}

/// Whether the first `upto` recipe entries contain `k`.
#[verifier::loop_isolation(false)]
fn kind_in_prefix(kinds: &Vec<ParticipantKind>, upto: usize, k: ParticipantKind) -> (b: bool)
    requires
        upto <= kinds.len(),
    ensures
        b == has_kind(kinds@.subrange(0, upto as int), k),
{
    let mut i: usize = 0;
    while i < upto
        invariant
            i <= upto,
            forall|j: int| 0 <= j < i ==> kinds@[j] != k,
        decreases upto - i,
    {
        if kinds[i] == k {
            proof {
                assert(kinds@.subrange(0, upto as int)[i as int] == k);
            }
            return true;
        }
        i = i + 1;
    }
    proof {
        assert forall|j: int| 0 <= j < upto implies kinds@.subrange(0, upto as int)[j] != k by {}
    }
    false
}

/// Whether the first `upto` overrides name `k`.
#[verifier::loop_isolation(false)]
fn override_in_prefix(
    overrides: &Vec<(ParticipantKind, InterceptionPolicy)>,
    upto: usize,
    k: ParticipantKind,
) -> (b: bool)
    requires
        upto <= overrides.len(),
    ensures
        b == overrides_name(overrides@.subrange(0, upto as int), k),
{
    let mut i: usize = 0;
    while i < upto
        invariant
            i <= upto,
            forall|j: int| 0 <= j < i ==> (#[trigger] overrides@[j]).0 != k,
        decreases upto - i,
    {
        let (name, _policy) = overrides[i];
        if name == k {
            proof {
                assert(overrides@.subrange(0, upto as int)[i as int].0 == k);
            }
            return true;
        }
        i = i + 1;
    }
    proof {
        assert forall|j: int| 0 <= j < upto implies (#[trigger] overrides@.subrange(
            0,
            upto as int,
        )[j]).0 != k by {
            assert(overrides@.subrange(0, upto as int)[j] == overrides@[j]);
        }
    }
    false
}

/// The policy of the first override naming `k`, if any.
#[verifier::loop_isolation(false)]
fn override_lookup(
    overrides: &Vec<(ParticipantKind, InterceptionPolicy)>,
    k: ParticipantKind,
) -> (r: Option<InterceptionPolicy>)
    ensures
        r == override_for(overrides@, k),
{
    let end: usize = overrides.len();
    proof {
        assert(overrides@.subrange(0, end as int) =~= overrides@);
    }
    let mut j: usize = 0;
    while j < end
        invariant
            j <= end,
            override_for(overrides@, k) == override_for(
                overrides@.subrange(j as int, end as int),
                k,
            ),
        decreases end - j,
    {
        let ghost suffix = overrides@.subrange(j as int, end as int);
        proof {
            assert(suffix[0] == overrides@[j as int]);
        }
        let (name, policy) = overrides[j];
        if name == k {
            return Some(policy);
        }
        j = j + 1;
        proof {
            assert(suffix.drop_first() =~= overrides@.subrange(j as int, end as int));
        }
    }
    proof {
        assert(overrides@.subrange(end as int, end as int) =~= Seq::<
            (ParticipantKind, InterceptionPolicy),
        >::empty());
    }
    None
}

/// Assembles a node: each overridden kind becomes an intercepting wrapper
/// holding the supplied policy around the normal participant, every other
/// kind is built exactly as in the unmodified node, in recipe order.
/// Assembly fails, before anything runs, on a recipe listing a kind twice,
/// an override naming a kind the recipe lacks, or two overrides for one
/// kind — reporting the first fault in scan order.
#[verifier::loop_isolation(false)]
pub fn assemble(
    recipe: &Recipe,
    overrides: &Vec<(ParticipantKind, InterceptionPolicy)>,
) -> (r: Result<Node, AssemblyError>)
    ensures
        r is Err <==> assembly_fault(recipe.kinds@, overrides@) is Some,
        r matches Err(e) ==> assembly_fault(recipe.kinds@, overrides@) == Some(e),
        r matches Ok(node) ==> {
            &&& node.participants@.len() == recipe.kinds@.len()
            &&& forall|i: int|
                0 <= i < recipe.kinds@.len() ==> participant_matches(
                    #[trigger] node.participants@[i],
                    recipe.kinds@[i],
                    override_for(overrides@, recipe.kinds@[i]),
                )
        },
{
    let kinds = &recipe.kinds;

    // Refuse a recipe that lists the same kind twice.
    let mut i: usize = 0;
    while i < kinds.len()
        invariant
            i <= kinds.len(),
            first_duplicate_kind(kinds@.subrange(0, i as int)) is None,
        decreases kinds.len() - i,
    {
        let ghost prefix = kinds@.subrange(0, i as int);
        if kind_in_prefix(kinds, i, kinds[i]) {
            proof {
                let ext = kinds@.subrange(0, i as int + 1);
                assert(ext.drop_last() =~= prefix);
                assert(ext.last() == kinds@[i as int]);
                lemma_first_duplicate_extends(kinds@, i as int + 1);
            }
            return Err(AssemblyError::DuplicateParticipant { kind: kinds[i] });
        }
        i = i + 1;
        proof {
            let ext = kinds@.subrange(0, i as int);
            assert(ext.drop_last() =~= prefix);
        }
    }
    proof {
        assert(kinds@.subrange(0, kinds@.len() as int) =~= kinds@);
    }

    // Refuse an override naming an unknown kind or a kind already overridden.
    let mut j: usize = 0;
    while j < overrides.len()
        invariant
            j <= overrides.len(),
            first_override_fault(kinds@, overrides@.subrange(0, j as int)) is None,
        decreases overrides.len() - j,
    {
        let ghost prefix = overrides@.subrange(0, j as int);
        let (name, _policy) = overrides[j];
        let known = kind_in_prefix(kinds, kinds.len(), name);
        proof {
            assert(kinds@.subrange(0, kinds@.len() as int) =~= kinds@);
        }
        if !known {
            proof {
                let ext = overrides@.subrange(0, j as int + 1);
                assert(ext.drop_last() =~= prefix);
                assert(ext.last() == overrides@[j as int]);
                lemma_first_override_fault_extends(kinds@, overrides@, j as int + 1);
            }
            return Err(AssemblyError::UnknownParticipant { kind: name });
        }
        if override_in_prefix(overrides, j, name) {
            proof {
                let ext = overrides@.subrange(0, j as int + 1);
                assert(ext.drop_last() =~= prefix);
                assert(ext.last() == overrides@[j as int]);
                lemma_first_override_fault_extends(kinds@, overrides@, j as int + 1);
            }
            return Err(AssemblyError::DuplicateOverride { kind: name });
        }
        j = j + 1;
        proof {
            let ext = overrides@.subrange(0, j as int);
            assert(ext.drop_last() =~= prefix);
            assert(ext.last() == overrides@[j - 1]);
        }
    }
    proof {
        assert(overrides@.subrange(0, overrides@.len() as int) =~= overrides@);
    }

    // Build, wrapping exactly the overridden kinds.
    let mut participants: Vec<NodeParticipant> = Vec::new();
    let mut b: usize = 0;
    while b < kinds.len()
        invariant
            b <= kinds.len(),
            participants@.len() == b,
            forall|t: int|
                0 <= t < b ==> participant_matches(
                    #[trigger] participants@[t],
                    kinds@[t],
                    override_for(overrides@, kinds@[t]),
                ),
        decreases kinds.len() - b,
    {
        let kind = kinds[b];
        match override_lookup(overrides, kind) {
            Some(policy) => {
                let wrapped = InterceptedSubsystem::new(Subsystem::new(kind), policy);
                participants.push(NodeParticipant::Wrapped(wrapped));
            },
            None => {
                participants.push(NodeParticipant::Plain(Subsystem::new(kind)));
            },
        }
        b = b + 1;
    }
    Ok(Node { participants })
}

} // verus!
