//! The data model: actions, principals, resources, conditions, effects,
//! policies and request contexts, each with a mathematical view.

use vstd::prelude::*;

use crate::collections::StringMap;

verus! {

/// Action: the operation being requested, decomposed into noun, scope and
/// verb. Any field may be the wildcard string `"*"` inside a policy.
#[derive(Debug, PartialEq, Eq)]
pub struct Action {
    /// Noun.
    pub noun: String,
    /// Scope.
    pub scope: String,
    /// Verb.
    pub verb: String,
}

/// Mathematical image of an [`Action`]: each field as a character sequence.
#[verifier::ext_equal]
pub struct ActionView {
    /// Noun.
    pub noun: Seq<char>,
    /// Scope.
    pub scope: Seq<char>,
    /// Verb.
    pub verb: Seq<char>,
}

impl View for Action {
    type V = ActionView;

    open spec fn view(&self) -> ActionView {
        ActionView { noun: self.noun@, scope: self.scope@, verb: self.verb@ }
    }
}

impl Clone for Action {
    /// Clones the action; the clone equals the original.
    fn clone(&self) -> (result: Self)
        ensures
            result == *self,
    {
        Action { noun: self.noun.clone(), scope: self.scope.clone(), verb: self.verb.clone() }
    }
}

/// Principal: the actor requesting access. Any field may be the wildcard
/// string `"*"` inside a policy, never inside a context.
#[derive(Debug, PartialEq, Eq)]
pub struct Principal {
    /// Id.
    pub id: String,
    /// Noun.
    pub noun: String,
    /// Scope.
    pub scope: String,
}

/// Mathematical image of a [`Principal`].
#[verifier::ext_equal]
pub struct PrincipalView {
    /// Id.
    pub id: Seq<char>,
    /// Noun.
    pub noun: Seq<char>,
    /// Scope.
    pub scope: Seq<char>,
}

impl View for Principal {
    type V = PrincipalView;

    open spec fn view(&self) -> PrincipalView {
        PrincipalView { id: self.id@, noun: self.noun@, scope: self.scope@ }
    }
}

impl Clone for Principal {
    /// Clones the principal; the clone equals the original.
    fn clone(&self) -> (result: Self)
        ensures
            result == *self,
    {
        Principal { id: self.id.clone(), noun: self.noun.clone(), scope: self.scope.clone() }
    }
}

/// Resource: the object being accessed. Any field may be the wildcard string
/// `"*"` inside a policy, never inside a context.
#[derive(Debug, PartialEq, Eq)]
pub struct Resource {
    /// Id.
    pub id: String,
    /// Noun.
    pub noun: String,
    /// Scope.
    pub scope: String,
}

/// Mathematical image of a [`Resource`].
#[verifier::ext_equal]
pub struct ResourceView {
    /// Id.
    pub id: Seq<char>,
    /// Noun.
    pub noun: Seq<char>,
    /// Scope.
    pub scope: Seq<char>,
}

impl View for Resource {
    type V = ResourceView;

    open spec fn view(&self) -> ResourceView {
        ResourceView { id: self.id@, noun: self.noun@, scope: self.scope@ }
    }
}

impl Clone for Resource {
    /// Clones the resource; the clone equals the original.
    fn clone(&self) -> (result: Self)
        ensures
            result == *self,
    {
        Resource { id: self.id.clone(), noun: self.noun.clone(), scope: self.scope.clone() }
    }
}

/// Effect: the outcome a matching policy asserts.
#[derive(Debug, Clone, Copy, PartialEq, Eq, Structural)]
pub enum Effect {
    /// Grant the request.
    Allow,
    /// Refuse the request.
    Deny,
}

/// Condition: an extensible predicate over a context's ambient data. Each
/// present operator must hold; a condition with no operator set is satisfied.
#[derive(Debug, PartialEq, Eq)]
pub struct Condition {
    /// String Equals: per key, the set of values the data may take.
    pub string_equals: Option<StringMap>,
}

/// Mathematical image of a [`Condition`].
#[verifier::ext_equal]
pub struct ConditionView {
    /// String Equals.
    pub string_equals: Option<Map<Seq<char>, Set<Seq<char>>>>,
}

impl View for Condition {
    type V = ConditionView;

    open spec fn view(&self) -> ConditionView {
        ConditionView {
            string_equals: match self.string_equals {
                Some(criteria) => Some(criteria@),
                None => None,
            },
        }
    }
}

impl Clone for Condition {
    /// Clones the condition; the clone has the same view.
    fn clone(&self) -> (result: Self)
        ensures
            result@ == self@,
    {
        Condition {
            string_equals: match &self.string_equals {
                Some(criteria) => Some(criteria.clone()),
                None => None,
            },
        }
    }
}

impl Default for Condition {
    /// The default condition has no operator set and is always satisfied.
    fn default() -> (result: Self)
        ensures
            result@.string_equals is None,
    {
        Condition { string_equals: None }
    }
}

/// Policy: a named rule granting or denying a set of actions to a set of
/// principals over a set of resources, optionally gated by conditions.
#[derive(Debug, PartialEq, Eq)]
pub struct Policy {
    /// Actions.
    pub actions: Vec<Action>,
    /// Conditions.
    pub conditions: Vec<Condition>,
    /// Effect.
    pub effect: Effect,
    /// Id.
    pub id: String,
    /// Principals.
    pub principals: Vec<Principal>,
    /// Resources.
    pub resources: Vec<Resource>,
}

/// The views of a sequence of actions.
pub open spec fn action_views(actions: Seq<Action>) -> Seq<ActionView> {
    actions.map_values(|a: Action| a@)
}

/// The views of a sequence of conditions.
pub open spec fn condition_views(conditions: Seq<Condition>) -> Seq<ConditionView> {
    conditions.map_values(|c: Condition| c@)
}

/// The views of a sequence of principals.
pub open spec fn principal_views(principals: Seq<Principal>) -> Seq<PrincipalView> {
    principals.map_values(|p: Principal| p@)
}

/// The views of a sequence of resources.
pub open spec fn resource_views(resources: Seq<Resource>) -> Seq<ResourceView> {
    resources.map_values(|r: Resource| r@)
}

/// Mathematical image of a [`Policy`].
#[verifier::ext_equal]
pub struct PolicyView {
    /// Actions.
    pub actions: Seq<ActionView>,
    /// Conditions.
    pub conditions: Seq<ConditionView>,
    /// Effect.
    pub effect: Effect,
    /// Id.
    pub id: Seq<char>,
    /// Principals.
    pub principals: Seq<PrincipalView>,
    /// Resources.
    pub resources: Seq<ResourceView>,
}

impl View for Policy {
    type V = PolicyView;

    open spec fn view(&self) -> PolicyView {
        PolicyView {
            actions: action_views(self.actions@),
            conditions: condition_views(self.conditions@),
            effect: self.effect,
            id: self.id@,
            principals: principal_views(self.principals@),
            resources: resource_views(self.resources@),
        }
    }
}

/// The views of a sequence of policies.
pub open spec fn policy_views(policies: Seq<Policy>) -> Seq<PolicyView> {
    policies.map_values(|p: Policy| p@)
}

impl Clone for Policy {
    /// Clones the policy; the clone has the same view.
    fn clone(&self) -> (result: Self)
        ensures
            result@ == self@,
    {
        let result = Policy {
            actions: self.actions.clone(),
            conditions: self.conditions.clone(),
            effect: self.effect,
            id: self.id.clone(),
            principals: self.principals.clone(),
            resources: self.resources.clone(),
        };
        proof {
            assert forall|i: int| 0 <= i < self.actions@.len() implies result.actions@[i]
                == self.actions@[i] by {
                assert(cloned::<Action>(self.actions@[i], result.actions@[i]));
            }
            assert(result.actions@ =~= self.actions@);
            assert forall|i: int| 0 <= i < self.principals@.len() implies result.principals@[i]
                == self.principals@[i] by {
                assert(cloned::<Principal>(self.principals@[i], result.principals@[i]));
            }
            assert(result.principals@ =~= self.principals@);
            assert forall|i: int| 0 <= i < self.resources@.len() implies result.resources@[i]
                == self.resources@[i] by {
                assert(cloned::<Resource>(self.resources@[i], result.resources@[i]));
            }
            assert(result.resources@ =~= self.resources@);
            assert forall|i: int| 0 <= i < self.conditions@.len() implies #[trigger] result.conditions@[i]@
                == self.conditions@[i]@ by {
                assert(cloned::<Condition>(self.conditions@[i], result.conditions@[i]));
            }
            assert(condition_views(result.conditions@) =~= condition_views(self.conditions@));
            assert(result@ =~= self@);
        }
        result
    }
}

/// Context: one authorization request. Its action, principal and resource are
/// concrete; `data` holds ambient request attributes consumed by conditions.
#[derive(Debug, PartialEq, Eq)]
pub struct Context {
    /// Action.
    pub action: Action,
    /// Data.
    pub data: StringMap,
    /// Principal.
    pub principal: Principal,
    /// Resource.
    pub resource: Resource,
}

/// Mathematical image of a [`Context`].
#[verifier::ext_equal]
pub struct ContextView {
    /// Action.
    pub action: ActionView,
    /// Data.
    pub data: Map<Seq<char>, Set<Seq<char>>>,
    /// Principal.
    pub principal: PrincipalView,
    /// Resource.
    pub resource: ResourceView,
}

impl View for Context {
    type V = ContextView;

    open spec fn view(&self) -> ContextView {
        ContextView {
            action: self.action@,
            data: self.data@,
            principal: self.principal@,
            resource: self.resource@,
        }
    }
}

impl Clone for Context {
    /// Clones the context; the clone has the same view.
    fn clone(&self) -> (result: Self)
        ensures
            result@ == self@,
    {
        Context {
            action: self.action.clone(),
            data: self.data.clone(),
            principal: self.principal.clone(),
            resource: self.resource.clone(),
        }
    }
}

} // verus!
