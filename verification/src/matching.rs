//! Matching semantics: wildcard-aware field matching for actions, principals
//! and resources, condition satisfaction, and the policy-match predicate.

use vstd::prelude::*;

use crate::collections::criteria_satisfied;
use crate::collections::StringMap;
use crate::model::action_views;
use crate::model::condition_views;
use crate::model::principal_views;
use crate::model::resource_views;
use crate::model::Action;
use crate::model::ActionView;
use crate::model::Condition;
use crate::model::ConditionView;
use crate::model::Context;
use crate::model::ContextView;
use crate::model::Policy;
use crate::model::PolicyView;
use crate::model::Principal;
use crate::model::PrincipalView;
use crate::model::Resource;
use crate::model::ResourceView;

verus! {

/// A policy field matches a context field when it is the reserved wildcard
/// `"*"` or is equal to it.
pub open spec fn field_matches(policy_field: Seq<char>, context_field: Seq<char>) -> bool {
    policy_field == "*"@ || policy_field == context_field
}

/// Wildcard law: a policy field set to `"*"` matches every context value,
/// the empty string included.
pub proof fn lemma_wildcard_matches(context_field: Seq<char>)
    ensures
        field_matches("*"@, context_field),
{
}

/// An action of a policy matches the context's action when all three fields
/// match.
pub open spec fn action_matches(policy_action: ActionView, context_action: ActionView) -> bool {
    &&& field_matches(policy_action.noun, context_action.noun)
    &&& field_matches(policy_action.scope, context_action.scope)
    &&& field_matches(policy_action.verb, context_action.verb)
}

/// A principal of a policy matches the context's principal when all three
/// fields match.
pub open spec fn principal_matches(
    policy_principal: PrincipalView,
    context_principal: PrincipalView,
) -> bool {
    &&& field_matches(policy_principal.id, context_principal.id)
    &&& field_matches(policy_principal.noun, context_principal.noun)
    &&& field_matches(policy_principal.scope, context_principal.scope)
}

/// A resource of a policy matches the context's resource when all three
/// fields match.
pub open spec fn resource_matches(
    policy_resource: ResourceView,
    context_resource: ResourceView,
) -> bool {
    &&& field_matches(policy_resource.id, context_resource.id)
    &&& field_matches(policy_resource.noun, context_resource.noun)
    &&& field_matches(policy_resource.scope, context_resource.scope)
}

/// A condition is satisfied when each operator it carries is; a condition
/// without operators is satisfied.
pub open spec fn condition_satisfied(
    condition: ConditionView,
    data: Map<Seq<char>, Set<Seq<char>>>,
) -> bool {
    match condition.string_equals {
        Some(criteria) => criteria_satisfied(criteria, data),
        None => true,
    }
}

/// A policy matches a context when some action, some principal and some
/// resource of the policy match the context's, and, if the policy carries
/// conditions, some condition is satisfied by the context's data.
pub open spec fn policy_matches(policy: PolicyView, context: ContextView) -> bool {
    &&& exists|i: int| 0 <= i < policy.actions.len() && action_matches(
        #[trigger] policy.actions[i],
        context.action,
    )
    &&& exists|i: int| 0 <= i < policy.principals.len() && principal_matches(
        #[trigger] policy.principals[i],
        context.principal,
    )
    &&& exists|i: int| 0 <= i < policy.resources.len() && resource_matches(
        #[trigger] policy.resources[i],
        context.resource,
    )
    &&& (policy.conditions.len() == 0 || exists|i: int| 0 <= i < policy.conditions.len()
        && condition_satisfied(#[trigger] policy.conditions[i], context.data))
}

/// Returns true when a policy field is the wildcard or equals the context
/// field.
fn matches_field(policy_field: &String, context_field: &String) -> (result: bool)
    ensures
        result == field_matches(policy_field@, context_field@),
{
    let star: String = "*".to_owned();
    *policy_field == star || *policy_field == *context_field
}

/// Returns true if [`Action`] matches [`Context`].
pub(crate) fn matches_action(context: &Context, action: &Action) -> (result: bool)
    ensures
        result == action_matches(action@, context@.action),
{
    if !matches_field(&action.noun, &context.action.noun) {
        return false;
    }
    if !matches_field(&action.scope, &context.action.scope) {
        return false;
    }
    if !matches_field(&action.verb, &context.action.verb) {
        return false;
    }
    true
}

/// Returns true if [`Condition`] matches [`Context`].
pub(crate) fn matches_condition(context: &Context, condition: &Condition) -> (result: bool)
    ensures
        result == condition_satisfied(condition@, context@.data),
{
    if let Some(string_equals) = &condition.string_equals {
        if !matches_condition_string_equals(context, string_equals) {
            return false;
        }
    }
    true
}

/// Returns true if [`Context`] data stays within the criteria.
pub(crate) fn matches_condition_string_equals(
    context: &Context,
    criteria: &StringMap,
) -> (result: bool)
    ensures
        result == criteria_satisfied(criteria@, context@.data),
{
    criteria.satisfied_by(&context.data)
}

/// Returns true if [`Principal`] matches [`Context`].
pub(crate) fn matches_principal(context: &Context, principal: &Principal) -> (result: bool)
    ensures
        result == principal_matches(principal@, context@.principal),
{
    if !matches_field(&principal.id, &context.principal.id) {
        return false;
    }
    if !matches_field(&principal.noun, &context.principal.noun) {
        return false;
    }
    if !matches_field(&principal.scope, &context.principal.scope) {
        return false;
    }
    true
}

/// Returns true if [`Resource`] matches [`Context`].
pub(crate) fn match_resource(context: &Context, resource: &Resource) -> (result: bool)
    ensures
        result == resource_matches(resource@, context@.resource),
{
    if !matches_field(&resource.id, &context.resource.id) {
        return false;
    }
    if !matches_field(&resource.noun, &context.resource.noun) {
        return false;
    }
    if !matches_field(&resource.scope, &context.resource.scope) {
        return false;
    }
    true
}

/// Returns true if some action in `actions` matches the context's action.
fn any_action_matches(context: &Context, actions: &Vec<Action>) -> (result: bool)
    ensures
        result == exists|i: int| 0 <= i < action_views(actions@).len() && action_matches(
            #[trigger] action_views(actions@)[i],
            context@.action,
        ),
{
    let mut i: usize = 0;
    while i < actions.len()
        invariant
            i <= actions@.len(),
            forall|j: int| 0 <= j < i ==> !action_matches(
                #[trigger] action_views(actions@)[j],
                context@.action,
            ),
        decreases actions@.len() - i,
    {
        if matches_action(context, &actions[i]) {
            proof {
                assert(action_views(actions@)[i as int] == actions@[i as int]@);
            }
            return true;
        }
        i = i + 1;
    }
    false
}

/// Returns true if some principal in `principals` matches the context's
/// principal.
fn any_principal_matches(context: &Context, principals: &Vec<Principal>) -> (result: bool)
    ensures
        result == exists|i: int| 0 <= i < principal_views(principals@).len() && principal_matches(
            #[trigger] principal_views(principals@)[i],
            context@.principal,
        ),
{
    let mut i: usize = 0;
    while i < principals.len()
        invariant
            i <= principals@.len(),
            forall|j: int| 0 <= j < i ==> !principal_matches(
                #[trigger] principal_views(principals@)[j],
                context@.principal,
            ),
        decreases principals@.len() - i,
    {
        if matches_principal(context, &principals[i]) {
            proof {
                assert(principal_views(principals@)[i as int] == principals@[i as int]@);
            }
            return true;
        }
        i = i + 1;
    }
    false
}

/// Returns true if some resource in `resources` matches the context's
/// resource.
fn any_resource_matches(context: &Context, resources: &Vec<Resource>) -> (result: bool)
    ensures
        result == exists|i: int| 0 <= i < resource_views(resources@).len() && resource_matches(
            #[trigger] resource_views(resources@)[i],
            context@.resource,
        ),
{
    let mut i: usize = 0;
    while i < resources.len()
        invariant
            i <= resources@.len(),
            forall|j: int| 0 <= j < i ==> !resource_matches(
                #[trigger] resource_views(resources@)[j],
                context@.resource,
            ),
        decreases resources@.len() - i,
    {
        if match_resource(context, &resources[i]) {
            proof {
                assert(resource_views(resources@)[i as int] == resources@[i as int]@);
            }
            return true;
        }
        i = i + 1;
    }
    false
}

/// Returns true if some condition in `conditions` is satisfied by the
/// context's data.
fn any_condition_matches(context: &Context, conditions: &Vec<Condition>) -> (result: bool)
    ensures
        result == exists|i: int| 0 <= i < condition_views(conditions@).len() && condition_satisfied(
            #[trigger] condition_views(conditions@)[i],
            context@.data,
        ),
{
    let mut i: usize = 0;
    while i < conditions.len()
        invariant
            i <= conditions@.len(),
            forall|j: int| 0 <= j < i ==> !condition_satisfied(
                #[trigger] condition_views(conditions@)[j],
                context@.data,
            ),
        decreases conditions@.len() - i,
    {
        if matches_condition(context, &conditions[i]) {
            proof {
                assert(condition_views(conditions@)[i as int] == conditions@[i as int]@);
            }
            return true;
        }
        i = i + 1;
    }
    false
}

/// Returns true if [`Policy`] matches [`Context`]: some action, principal and
/// resource match, and some condition is satisfied when any are present.
pub(crate) fn matches_policy(context: &Context, policy: &Policy) -> (result: bool)
    ensures
        result == policy_matches(policy@, context@),
{
    if !any_action_matches(context, &policy.actions) {
        return false;
    }
    if !any_principal_matches(context, &policy.principals) {
        return false;
    }
    if !any_resource_matches(context, &policy.resources) {
        return false;
    }
    if policy.conditions.len() != 0 {
        if !any_condition_matches(context, &policy.conditions) {
            return false;
        }
    }
    proof {
        let pv = policy@;
        let cv = context@;
        let i1 = choose|i: int| 0 <= i < action_views(policy.actions@).len() && action_matches(
            #[trigger] action_views(policy.actions@)[i],
            cv.action,
        );
        assert(0 <= i1 < pv.actions.len() && action_matches(pv.actions[i1], cv.action));
        let i2 = choose|i: int| 0 <= i < principal_views(policy.principals@).len()
            && principal_matches(#[trigger] principal_views(policy.principals@)[i], cv.principal);
        assert(0 <= i2 < pv.principals.len() && principal_matches(pv.principals[i2], cv.principal));
        let i3 = choose|i: int| 0 <= i < resource_views(policy.resources@).len()
            && resource_matches(#[trigger] resource_views(policy.resources@)[i], cv.resource);
        assert(0 <= i3 < pv.resources.len() && resource_matches(pv.resources[i3], cv.resource));
        if pv.conditions.len() != 0 {
            let i4 = choose|i: int| 0 <= i < condition_views(policy.conditions@).len()
                && condition_satisfied(#[trigger] condition_views(policy.conditions@)[i], cv.data);
            assert(0 <= i4 < pv.conditions.len() && condition_satisfied(pv.conditions[i4], cv.data));
        }
    }
    true
}

} // verus!
