//! The host-facing layer around the evaluator: identified entities, the
//! audit record, authorization events, the policy-store interface and the
//! per-request decision.

use vstd::prelude::*;

use crate::evaluation::evaluate;
use crate::evaluation::spec_evaluate;
use crate::model::policy_views;
use crate::model::Context;
use crate::model::Effect;
use crate::model::Policy;
use crate::model::Principal;
use crate::model::Resource;

verus! {

/// Identifier: names one entity of the host application; the entity can stand
/// in a request as its principal or as its resource.
#[derive(Debug, PartialEq, Eq)]
pub struct Identifier {
    /// Id.
    pub id: String,
    /// Noun.
    pub noun: String,
    /// Scope.
    pub scope: String,
}

impl Clone for Identifier {
    /// Clones the identifier; the clone equals the original.
    fn clone(&self) -> (result: Self)
        ensures
            result == *self,
    {
        Identifier { id: self.id.clone(), noun: self.noun.clone(), scope: self.scope.clone() }
    }
}

impl<'a> vstd::std_specs::convert::FromSpecImpl<&'a Identifier> for Principal {
    open spec fn obeys_from_spec() -> bool {
        true
    }

    open spec fn from_spec(value: &'a Identifier) -> Principal {
        Principal { id: value.id, noun: value.noun, scope: value.scope }
    }
}

impl<'a> From<&'a Identifier> for Principal {
    /// The principal an identifier names: the same id, noun and scope.
    fn from(value: &'a Identifier) -> (result: Self) {
        Principal { id: value.id.clone(), noun: value.noun.clone(), scope: value.scope.clone() }
    }
}

impl<'a> vstd::std_specs::convert::FromSpecImpl<&'a Identifier> for Resource {
    open spec fn obeys_from_spec() -> bool {
        true
    }

    open spec fn from_spec(value: &'a Identifier) -> Resource {
        Resource { id: value.id, noun: value.noun, scope: value.scope }
    }
}

impl<'a> From<&'a Identifier> for Resource {
    /// The resource an identifier names: the same id, noun and scope.
    fn from(value: &'a Identifier) -> (result: Self) {
        Resource { id: value.id.clone(), noun: value.noun.clone(), scope: value.scope.clone() }
    }
}

/// Audit: one evaluation outcome, the context that was decided and the policy
/// that decided it, if any matched.
#[derive(Debug, PartialEq, Eq)]
pub struct Audit {
    /// Context.
    pub context: Context,
    /// Policy.
    pub policy: Option<Policy>,
}

impl Clone for Audit {
    /// Clones the audit record; the clone has the same views.
    fn clone(&self) -> (result: Self)
        ensures
            result.context@ == self.context@,
            match self.policy {
                Some(policy) => result.policy matches Some(recorded) && recorded@ == policy@,
                None => result.policy is None,
            },
    {
        Audit {
            context: self.context.clone(),
            policy: match &self.policy {
                Some(policy) => Some(policy.clone()),
                None => None,
            },
        }
    }
}

/// Unauthorized: a request event of the host application that has not passed
/// authorization yet, raised by an actor.
#[derive(Debug, PartialEq, Eq)]
pub struct Unauthorized<T> {
    /// Actor: the entity that raised the event.
    pub actor: u64,
    /// Data.
    pub data: T,
}

impl<T: Clone> Clone for Unauthorized<T> {
    /// Clones the event; the data is cloned as its type clones.
    fn clone(&self) -> (result: Self)
        ensures
            result.actor == self.actor,
            cloned(self.data, result.data),
    {
        Unauthorized { actor: self.actor, data: self.data.clone() }
    }
}

/// Authorized: a request event that passed authorization. Values arise only
/// through [`Unauthorized::to_authorized`].
#[derive(Debug, PartialEq, Eq)]
#[non_exhaustive]
pub struct Authorized<T> {
    /// Actor: the entity that raised the event.
    pub actor: u64,
    /// Data.
    pub data: T,
}

impl<T: Clone> Clone for Authorized<T> {
    /// Clones the event; the data is cloned as its type clones.
    fn clone(&self) -> (result: Self)
        ensures
            result.actor == self.actor,
            cloned(self.data, result.data),
    {
        Authorized { actor: self.actor, data: self.data.clone() }
    }
}

impl<T: Clone> Unauthorized<T> {
    /// Converts an [`Unauthorized`] into [`Authorized`]: the same actor, the
    /// data cloned.
    #[must_use]
    pub fn to_authorized(&self) -> (result: Authorized<T>)
        ensures
            result.actor == self.actor,
            cloned(self.data, result.data),
    {
        Authorized { actor: self.actor, data: self.data.clone() }
    }
}

/// Database: the policy store the host application keeps.
pub trait Database {
    /// Returns all [`Policy`] containing the [`Principal`].
    fn query_by_principal(&self, principal: &Principal) -> Vec<Policy>;
}

/// Decides one request: evaluates the policies against the context and
/// returns the audit record to publish together with whether the request is
/// granted. The request is granted exactly when the deciding policy allows;
/// absence of a deciding policy is an implicit denial.
pub fn authorize(context: Context, policies: &Vec<Policy>) -> (result: (Audit, bool))
    ensures
        result.0.context == context,
        match spec_evaluate(context@, policy_views(policies@)) {
            Some(decided) => {
                &&& result.0.policy matches Some(recorded) && recorded@ == decided
                &&& result.1 == (decided.effect == Effect::Allow)
            },
            None => result.0.policy is None && !result.1,
        },
{
    let outcome = evaluate(&context, policies);
    let (policy, granted): (Option<Policy>, bool) = match outcome {
        Some(found) => {
            let granted = found.effect == Effect::Allow;
            (Some(found.clone()), granted)
        },
        None => (None, false),
    };
    (Audit { context, policy }, granted)
}

} // verus!
