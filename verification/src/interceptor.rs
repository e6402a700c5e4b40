//! The intercepting wrapper: an adapter that owns an underlying participant
//! and a policy, and multiplexes the participant's message traffic through
//! the policy.
//!
//! Interception is transparent to both sides: a forwarded envelope is
//! delivered exactly as it would be without the wrapper, a suppressed one is
//! never observed, and the relative order of forwarded traffic equals the
//! order of arrival or emission — a suppressed message leaves no gap and
//! blocks nothing behind it.

use vstd::prelude::*;

use crate::messages::{Envelope, Message, ValidationResponse};
use crate::participant::Subsystem;
use crate::policy::InterceptionPolicy;

verus! {

/// The envelopes that reach the wrapped participant when `env` arrives:
/// the forwarded envelope, or nothing.
pub open spec fn forwarded_seq(p: InterceptionPolicy, env: Envelope) -> Seq<Envelope> {
    match p.incoming_forward_spec(env) {
        Some(f) => seq![f],
        None => Seq::empty(),
    }
}

/// The envelopes that reach the wrapped participant when `envs` arrive in
/// order: each arrival contributes its forwarded envelope, or nothing, in
/// arrival order.
pub open spec fn delivered_all(p: InterceptionPolicy, envs: Seq<Envelope>) -> Seq<Envelope>
    decreases envs.len(),
{
    if envs.len() == 0 {
        Seq::empty()
    } else {
        delivered_all(p, envs.drop_last()) + forwarded_seq(p, envs.last())
    }
}

/// The synthetic responses fabricated while `envs` arrive in order.
pub open spec fn synthetic_all(p: InterceptionPolicy, envs: Seq<Envelope>) -> Seq<
    ValidationResponse,
>
    decreases envs.len(),
{
    if envs.len() == 0 {
        Seq::empty()
    } else {
        synthetic_all(p, envs.drop_last()) + p.incoming_synthetic_spec(envs.last())
    }
}

/// The messages that leave the wrapper when the participant emits `msgs` in
/// order: each emission is forwarded, substituted in place, or suppressed.
pub open spec fn outgoing_all(p: InterceptionPolicy, msgs: Seq<Message>) -> Seq<Message>
    decreases msgs.len(),
{
    if msgs.len() == 0 {
        Seq::empty()
    } else {
        match p.outgoing_spec(msgs.last()) {
            Some(m) => outgoing_all(p, msgs.drop_last()).push(m),
            None => outgoing_all(p, msgs.drop_last()),
        }
    }
}

/// An intercepting wrapper: the underlying participant together with the
/// policy every crossing message runs through.  The wrapper is the
/// participant's only handle from the node's point of view.
#[derive(Debug)]
pub struct InterceptedSubsystem {
    /// The wrapped participant.
    pub subsystem: Subsystem,
    /// The policy applied to every inbound envelope and outbound message.
    pub policy: InterceptionPolicy,
}

impl InterceptedSubsystem {
    /// Wraps `subsystem` so that all its traffic runs through `policy`.
    pub fn new(subsystem: Subsystem, policy: InterceptionPolicy) -> (w: InterceptedSubsystem)
        ensures
            w.subsystem == subsystem,
            w.policy == policy,
    {
        InterceptedSubsystem { subsystem, policy }
    }

    /// Handles one inbound envelope: runs the policy, delivers the forwarded
    /// envelope to the participant if there is one, and hands back the
    /// fabricated responses for asynchronous delivery.  A suppressed
    /// envelope is no error: the participant is simply not invoked.
    pub fn handle_incoming(&mut self, env: Envelope) -> (synthetic: Vec<ValidationResponse>)
        ensures
            final(self).policy == old(self).policy,
            final(self).subsystem.kind == old(self).subsystem.kind,
            final(self).subsystem.received@ == old(self).subsystem.received@ + forwarded_seq(
                old(self).policy,
                env,
            ),
            synthetic@ == old(self).policy.incoming_synthetic_spec(env),
    {
        let decision = self.policy.intercept_incoming(env);
        match decision.forward {
            Some(forwarded) => {
                self.subsystem.deliver(forwarded);
            },
            None => (),
        }
        proof {
            assert(self.subsystem.received@ =~= old(self).subsystem.received@ + forwarded_seq(
                old(self).policy,
                env,
            ));
        }
        decision.synthetic
    }

    /// Handles a batch of inbound envelopes in arrival order.  The
    /// participant observes exactly the forwarded envelopes, in arrival
    /// order, and the fabricated responses come back in the same order.
    pub fn handle_incoming_all(&mut self, envs: &Vec<Envelope>) -> (synthetic: Vec<
        ValidationResponse,
    >)
        ensures
            final(self).policy == old(self).policy,
            final(self).subsystem.kind == old(self).subsystem.kind,
            final(self).subsystem.received@ == old(self).subsystem.received@ + delivered_all(
                old(self).policy,
                envs@,
            ),
            synthetic@ == synthetic_all(old(self).policy, envs@),
    {
        let mut synthetic: Vec<ValidationResponse> = Vec::new();
        let mut i: usize = 0;
        while i < envs.len()
            invariant
                i <= envs.len(),
                self.policy == old(self).policy,
                self.subsystem.kind == old(self).subsystem.kind,
                self.subsystem.received@ == old(self).subsystem.received@ + delivered_all(
                    old(self).policy,
                    envs@.subrange(0, i as int),
                ),
                synthetic@ == synthetic_all(old(self).policy, envs@.subrange(0, i as int)),
            decreases envs.len() - i,
        {
            let ghost prefix = envs@.subrange(0, i as int);
            let mut step = self.handle_incoming(envs[i]);
            synthetic.append(&mut step);
            i = i + 1;
            proof {
                let extended = envs@.subrange(0, i as int);
                assert(extended.drop_last() =~= prefix);
                assert(extended.last() == envs@[i - 1]);
                assert(self.subsystem.received@ =~= old(self).subsystem.received@ + delivered_all(
                    old(self).policy,
                    extended,
                ));
            }
        }
        proof {
            assert(envs@.subrange(0, envs.len() as int) =~= envs@);
        }
        synthetic
    }

    /// Filters a batch of messages the participant emits, in emission order:
    /// each message is forwarded, substituted in its ordinal position, or
    /// silently swallowed, and forwarded traffic keeps its relative order.
    pub fn filter_outgoing(&self, msgs: &Vec<Message>) -> (out: Vec<Message>)
        ensures
            out@ == outgoing_all(self.policy, msgs@),
    {
        let mut out: Vec<Message> = Vec::new();
        let mut i: usize = 0;
        while i < msgs.len()
            invariant
                i <= msgs.len(),
                out@ == outgoing_all(self.policy, msgs@.subrange(0, i as int)),
            decreases msgs.len() - i,
        {
            let ghost prefix = msgs@.subrange(0, i as int);
            match self.policy.intercept_outgoing(msgs[i]) {
                Some(m) => out.push(m),
                None => (),
            }
            i = i + 1;
            proof {
                let extended = msgs@.subrange(0, i as int);
                assert(extended.drop_last() =~= prefix);
                assert(extended.last() == msgs@[i - 1]);
            }
        }
        proof {
            assert(msgs@.subrange(0, msgs.len() as int) =~= msgs@);
        }
        out
    }
}

/// Law: outbound filtering treats each emission independently — the output
/// for a batch split anywhere is the concatenation of the outputs of its
/// parts.  In particular a suppressed message cannot delay or reorder
/// anything emitted after it.
pub proof fn lemma_outgoing_all_concat(p: InterceptionPolicy, s1: Seq<Message>, s2: Seq<Message>)
    ensures
        outgoing_all(p, s1 + s2) == outgoing_all(p, s1) + outgoing_all(p, s2),
    decreases s2.len(),
{
    if s2.len() == 0 {
        assert(s1 + s2 =~= s1);
        assert(outgoing_all(p, s1) + outgoing_all(p, s2) =~= outgoing_all(p, s1));
    } else {
        lemma_outgoing_all_concat(p, s1, s2.drop_last());
        assert((s1 + s2).drop_last() =~= s1 + s2.drop_last());
        assert((s1 + s2).last() == s2.last());
        match p.outgoing_spec(s2.last()) {
            Some(m) => {
                assert(outgoing_all(p, s1) + outgoing_all(p, s2) =~= (outgoing_all(p, s1)
                    + outgoing_all(p, s2.drop_last())).push(m));
            },
            None => {},
        }
    }
}

/// Law: a suppressed message leaves no observable gap — the output for a
/// batch beginning with a suppressed message equals the output for the rest
/// of the batch alone, so everything behind it is delivered undelayed.
pub proof fn lemma_suppression_no_blocking(p: InterceptionPolicy, a: Message, rest: Seq<Message>)
    requires
        p.outgoing_spec(a) is None,
    ensures
        outgoing_all(p, seq![a] + rest) == outgoing_all(p, rest),
{
    lemma_outgoing_all_concat(p, seq![a], rest);
    assert(seq![a].drop_last() =~= Seq::<Message>::empty());
    assert(outgoing_all(p, Seq::<Message>::empty()) =~= Seq::<Message>::empty());
    assert(outgoing_all(p, seq![a]) =~= Seq::<Message>::empty());
    assert(outgoing_all(p, seq![a]) + outgoing_all(p, rest) =~= outgoing_all(p, rest));
}

/// Law: inbound handling treats each arrival independently as well — both
/// what reaches the participant and what is fabricated for a batch split
/// anywhere is the concatenation over its parts.  A dropped envelope
/// therefore cannot delay or reorder anything that arrives after it.
pub proof fn lemma_incoming_batch_split(p: InterceptionPolicy, e1: Seq<Envelope>, e2: Seq<Envelope>)
    ensures
        delivered_all(p, e1 + e2) == delivered_all(p, e1) + delivered_all(p, e2),
        synthetic_all(p, e1 + e2) == synthetic_all(p, e1) + synthetic_all(p, e2),
    decreases e2.len(),
{
    if e2.len() == 0 {
        assert(e1 + e2 =~= e1);
        assert(delivered_all(p, e1) + delivered_all(p, e2) =~= delivered_all(p, e1));
        assert(synthetic_all(p, e1) + synthetic_all(p, e2) =~= synthetic_all(p, e1));
    } else {
        lemma_incoming_batch_split(p, e1, e2.drop_last());
        assert((e1 + e2).drop_last() =~= e1 + e2.drop_last());
        assert((e1 + e2).last() == e2.last());
        assert(delivered_all(p, e1) + delivered_all(p, e2) =~= (delivered_all(p, e1)
            + delivered_all(p, e2.drop_last())) + forwarded_seq(p, e2.last()));
        assert(synthetic_all(p, e1) + synthetic_all(p, e2) =~= (synthetic_all(p, e1)
            + synthetic_all(p, e2.drop_last())) + p.incoming_synthetic_spec(e2.last()));
    }
}

/// Law: a batch in which the policy special-cases nothing passes through
/// outbound filtering as the identity, order and contents untouched.
pub proof fn lemma_outgoing_identity(p: InterceptionPolicy, msgs: Seq<Message>)
    requires
        forall|i: int| 0 <= i < msgs.len() ==> !p.special_outgoing(#[trigger] msgs[i]),
    ensures
        outgoing_all(p, msgs) == msgs,
    decreases msgs.len(),
{
    if msgs.len() == 0 {
        assert(outgoing_all(p, msgs) =~= msgs);
    } else {
        lemma_outgoing_identity(p, msgs.drop_last());
        assert(p.outgoing_spec(msgs.last()) == Some(msgs.last()));
        assert(outgoing_all(p, msgs) =~= msgs);
    }
}

/// Law: when nothing in a batch is suppressed, a substituted message
/// occupies exactly the ordinal position of the message it replaced: the
/// output has the input's length, and each position holds what the policy
/// decided for the input at that position.
pub proof fn lemma_substitution_in_place(p: InterceptionPolicy, msgs: Seq<Message>)
    requires
        forall|i: int| 0 <= i < msgs.len() ==> (#[trigger] p.outgoing_spec(msgs[i])) is Some,
    ensures
        outgoing_all(p, msgs).len() == msgs.len(),
        forall|i: int|
            0 <= i < msgs.len() ==> p.outgoing_spec(#[trigger] msgs[i]) == Some(
                outgoing_all(p, msgs)[i],
            ),
    decreases msgs.len(),
{
    if msgs.len() > 0 {
        let prefix = msgs.drop_last();
        assert forall|i: int| 0 <= i < prefix.len() implies (#[trigger] p.outgoing_spec(
            prefix[i],
        )) is Some by {
            assert(prefix[i] == msgs[i]);
        }
        lemma_substitution_in_place(p, prefix);
        let out = outgoing_all(p, msgs);
        let out_prefix = outgoing_all(p, prefix);
        assert(p.outgoing_spec(msgs.last()) is Some);
        assert forall|i: int| 0 <= i < msgs.len() implies p.outgoing_spec(#[trigger] msgs[i])
            == Some(out[i]) by {
            if i < msgs.len() - 1 {
                assert(prefix[i] == msgs[i]);
                assert(out[i] == out_prefix[i]);
            } else {
                assert(msgs[i] == msgs.last());
            }
        }
    }
}

/// Law: inbound delivery through a policy that special-cases none of the
/// arriving envelopes is transparent — the wrapped participant observes
/// exactly the arrivals, in arrival order, and nothing is fabricated.  This
/// is how a wrapper with fabricated validation disabled behaves on every
/// batch: as if the wrapper were absent.
pub proof fn lemma_transparent_delivery(p: InterceptionPolicy, envs: Seq<Envelope>)
    requires
        forall|i: int| 0 <= i < envs.len() ==> !p.special_incoming(#[trigger] envs[i]),
    ensures
        delivered_all(p, envs) == envs,
        synthetic_all(p, envs) === Seq::empty(),
    decreases envs.len(),
{
    if envs.len() == 0 {
        assert(delivered_all(p, envs) =~= envs);
        assert(synthetic_all(p, envs) =~= Seq::<ValidationResponse>::empty());
    } else {
        lemma_transparent_delivery(p, envs.drop_last());
        crate::policy::lemma_default_is_identity(
            p,
            envs.last(),
            envs.last().msg,
        );
        assert(delivered_all(p, envs) =~= envs);
        assert(synthetic_all(p, envs) =~= Seq::<ValidationResponse>::empty());
    }
}

/// Law: under the approvals→disputes policy not one "distribute approval"
/// message survives outbound filtering of any batch: zero such messages ever
/// reach destinations.
pub proof fn lemma_no_approval_reaches_destinations(msgs: Seq<Message>)
    ensures
        forall|i: int|
            0 <= i < outgoing_all(
                InterceptionPolicy::ReplaceApprovalsWithDisputes,
                msgs,
            ).len() ==> !(#[trigger] outgoing_all(
                InterceptionPolicy::ReplaceApprovalsWithDisputes,
                msgs,
            )[i]).is_distribute_approval(),
    decreases msgs.len(),
{
    let p = InterceptionPolicy::ReplaceApprovalsWithDisputes;
    if msgs.len() > 0 {
        lemma_no_approval_reaches_destinations(msgs.drop_last());
        let prefix_out = outgoing_all(p, msgs.drop_last());
        let out = outgoing_all(p, msgs);
        match p.outgoing_spec(msgs.last()) {
            Some(m) => {
                assert(!m.is_distribute_approval());
                assert(out == prefix_out.push(m));
                assert forall|i: int| 0 <= i < out.len() implies !(#[trigger] out[i])
                    .is_distribute_approval() by {
                    if i < prefix_out.len() {
                        assert(out[i] == prefix_out[i]);
                    } else {
                        assert(out[i] == m);
                    }
                }
            },
            None => {
                assert(out == prefix_out);
                assert forall|i: int| 0 <= i < out.len() implies !(#[trigger] out[i])
                    .is_distribute_approval() by {
                    assert(out[i] == prefix_out[i]);
                }
            },
        }
    }
}

} // verus!
