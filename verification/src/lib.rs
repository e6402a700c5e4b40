//! A fault-injection harness for a distributed consensus node.
//!
//! The crate models the message interception and substitution layer of an
//! adversarial ("malus") node: every message a wrapped protocol participant
//! sends or receives passes through a policy that may forward it unchanged,
//! rewrite it, or suppress it.  Concrete policies replace outgoing approvals
//! with disputes against valid candidates, or fake candidate-validation
//! outcomes.  A node assembly layer wires selected participants behind such
//! interception wrappers while leaving the rest untouched.
//!
//! The consensus protocol itself, network transport and the host scheduler
//! are external collaborators: the model speaks of them only through the
//! closed message envelope types defined here.

pub mod assembly;
pub mod interceptor;
pub mod messages;
pub mod participant;
pub mod policy;
pub mod variants;
