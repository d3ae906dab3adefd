//! The evaluator: two-pass, deny-overrides-allow policy selection, its
//! mathematical description, and the laws it obeys.

use vstd::prelude::*;

use crate::matching::matches_policy;
use crate::matching::policy_matches;
use crate::model::policy_views;
use crate::model::Context;
use crate::model::ContextView;
use crate::model::Effect;
use crate::model::Policy;
use crate::model::PolicyView;

verus! {

/// The policy at position `i` carries the wanted effect and matches the
/// context.
pub open spec fn is_match(
    context: ContextView,
    policies: Seq<PolicyView>,
    effect: Effect,
    i: int,
) -> bool {
    &&& 0 <= i < policies.len()
    &&& policies[i].effect == effect
    &&& policy_matches(policies[i], context)
}

/// The first policy, in order, that carries the wanted effect and matches the
/// context.
pub open spec fn first_match(
    context: ContextView,
    policies: Seq<PolicyView>,
    effect: Effect,
) -> Option<PolicyView>
    decreases policies.len(),
{
    if policies.len() == 0 {
        None
    } else if policies[0].effect == effect && policy_matches(policies[0], context) {
        Some(policies[0])
    } else {
        first_match(context, policies.drop_first(), effect)
    }
}

/// The policy that decides the outcome: the first matching deny policy, or,
/// when no deny policy matches, the first matching allow policy.
pub open spec fn spec_evaluate(context: ContextView, policies: Seq<PolicyView>) -> Option<
    PolicyView,
> {
    match first_match(context, policies, Effect::Deny) {
        Some(policy) => Some(policy),
        None => first_match(context, policies, Effect::Allow),
    }
}

/// There is no first match exactly when no policy with the effect matches.
proof fn lemma_first_match_none(context: ContextView, policies: Seq<PolicyView>, effect: Effect)
    ensures
        (first_match(context, policies, effect) is None) <==> (forall|i: int|
            !is_match(context, policies, effect, i)),
    decreases policies.len(),
{
    if policies.len() == 0 {
        assert(forall|i: int| !is_match(context, policies, effect, i));
    } else if policies[0].effect == effect && policy_matches(policies[0], context) {
        assert(is_match(context, policies, effect, 0));
    } else {
        let tail = policies.drop_first();
        lemma_first_match_none(context, tail, effect);
        if first_match(context, policies, effect) is None {
            assert forall|i: int| !is_match(context, policies, effect, i) by {
                if 1 <= i < policies.len() {
                    assert(!is_match(context, tail, effect, i - 1));
                    assert(tail[i - 1] == policies[i]);
                }
            }
        } else {
            let i = choose|i: int| is_match(context, tail, effect, i);
            assert(tail[i] == policies[i + 1]);
            assert(is_match(context, policies, effect, i + 1));
        }
    }
}

/// A first match carries the effect, matches the context, and stands in the
/// sequence with no earlier policy of that effect matching.
proof fn lemma_first_match_props(context: ContextView, policies: Seq<PolicyView>, effect: Effect)
    ensures
        first_match(context, policies, effect) matches Some(policy) ==> {
            &&& policy.effect == effect
            &&& policy_matches(policy, context)
            &&& exists|i: int| is_match(context, policies, effect, i) && policies[i] == policy
        },
    decreases policies.len(),
{
    if policies.len() == 0 {
    } else if policies[0].effect == effect && policy_matches(policies[0], context) {
        assert(is_match(context, policies, effect, 0));
    } else {
        let tail = policies.drop_first();
        lemma_first_match_props(context, tail, effect);
        match first_match(context, tail, effect) {
            Some(policy) => {
                let i = choose|i: int|
                    is_match(context, tail, effect, i) && tail[i] == policy;
                assert(tail[i] == policies[i + 1]);
                assert(is_match(context, policies, effect, i + 1));
            },
            None => {},
        }
    }
}

/// When position `i` holds a match and no earlier position does, the first
/// match is the policy at `i`.
proof fn lemma_first_match_at(
    context: ContextView,
    policies: Seq<PolicyView>,
    effect: Effect,
    i: int,
)
    requires
        is_match(context, policies, effect, i),
        forall|j: int| 0 <= j < i ==> !is_match(context, policies, effect, j),
    ensures
        first_match(context, policies, effect) == Some(policies[i]),
    decreases policies.len(),
{
    if i == 0 {
    } else {
        assert(!is_match(context, policies, effect, 0));
        let tail = policies.drop_first();
        assert(tail[i - 1] == policies[i]);
        assert(is_match(context, tail, effect, i - 1));
        assert forall|j: int| 0 <= j < i - 1 implies !is_match(context, tail, effect, j) by {
            assert(tail[j] == policies[j + 1]);
            assert(!is_match(context, policies, effect, j + 1));
        }
        lemma_first_match_at(context, tail, effect, i - 1);
    }
}

/// Deny-overrides-allow law: whenever some deny policy matches the context,
/// the evaluation outcome is a matching deny policy, never an allow policy,
/// whatever the order of the policies.
pub proof fn lemma_deny_overrides(context: ContextView, policies: Seq<PolicyView>)
    requires
        exists|i: int| is_match(context, policies, Effect::Deny, i),
    ensures
        spec_evaluate(context, policies) matches Some(policy) && policy.effect == Effect::Deny
            && policy_matches(policy, context),
{
    lemma_first_match_none(context, policies, Effect::Deny);
    lemma_first_match_props(context, policies, Effect::Deny);
}

/// First-allow law: when no deny policy matches and position `i` holds the
/// first matching allow policy, the evaluation outcome is that policy.
pub proof fn lemma_first_allow_wins(context: ContextView, policies: Seq<PolicyView>, i: int)
    requires
        forall|j: int| !is_match(context, policies, Effect::Deny, j),
        is_match(context, policies, Effect::Allow, i),
        forall|j: int| 0 <= j < i ==> !is_match(context, policies, Effect::Allow, j),
    ensures
        spec_evaluate(context, policies) == Some(policies[i]),
{
    lemma_first_match_none(context, policies, Effect::Deny);
    lemma_first_match_at(context, policies, Effect::Allow, i);
}

/// Empty-collection law: with no policies the evaluation outcome is absence.
pub proof fn lemma_empty_policies(context: ContextView)
    ensures
        spec_evaluate(context, Seq::<PolicyView>::empty()) is None,
{
}

/// Find.
///
/// Searches for the first policy with the given effect that matches the
/// context.
fn find<'a>(context: &Context, policies: &'a Vec<Policy>, effect: Effect) -> (result: Option<
    &'a Policy,
>)
    ensures
        match result {
            Some(policy) => first_match(context@, policy_views(policies@), effect) == Some(
                policy@,
            ),
            None => first_match(context@, policy_views(policies@), effect) is None,
        },
{
    let ghost views = policy_views(policies@);
    let mut i: usize = 0;
    while i < policies.len()
        invariant
            i <= policies@.len(),
            views == policy_views(policies@),
            forall|j: int| 0 <= j < i ==> !is_match(context@, views, effect, j),
        decreases policies@.len() - i,
    {
        let policy = &policies[i];
        proof {
            assert(views[i as int] == policies@[i as int]@);
        }
        if policy.effect == effect && matches_policy(context, policy) {
            proof {
                assert(is_match(context@, views, effect, i as int));
                lemma_first_match_at(context@, views, effect, i as int);
            }
            return Some(policy);
        }
        i = i + 1;
    }
    proof {
        lemma_first_match_none(context@, views, effect);
    }
    None
}

/// Evaluate.
///
/// Returns the policy that determines the outcome: the first matching policy
/// whose effect is deny, or, when no deny policy matches, the first matching
/// policy whose effect is allow.
///
/// Returns `None` if no policy matches; the caller treats that absence as an
/// implicit denial.
#[must_use]
pub fn evaluate<'a>(context: &Context, policies: &'a Vec<Policy>) -> (result: Option<&'a Policy>)
    ensures
        match result {
            Some(policy) => spec_evaluate(context@, policy_views(policies@)) == Some(policy@),
            None => spec_evaluate(context@, policy_views(policies@)) is None,
        },
{
    if let Some(policy) = find(context, policies, Effect::Deny) {
        return Some(policy);
    }
    if let Some(policy) = find(context, policies, Effect::Allow) {
        return Some(policy);
    }
    None
}

} // verus!
