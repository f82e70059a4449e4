use vstd::prelude::*;

use crate::db::{
    bindings_in, clear_current_plan, clear_current_write, list_bindings, reset_binding_usage,
    reset_usage_write, set_current_plan, set_current_write, stored_binding, Aggregator,
    BindingWithPlan, CodingPlan, LIST_BINDINGS_SQL,
};
use crate::sqlite::{changes, one_query, Db, Param, Sent};

verus! {

// ---------------------------------------------------------------------------
// Selection predicates over the bindings of an aggregator (in binding order)
// ---------------------------------------------------------------------------

/// The binding's plan is enabled.
pub open spec fn enabled() -> spec_fn(BindingWithPlan) -> bool {
    |b: BindingWithPlan| b.plan.enabled
}

/// The binding's plan is enabled and its usage is still below `threshold`.
pub open spec fn usable(threshold: i64) -> spec_fn(BindingWithPlan) -> bool {
    |b: BindingWithPlan| b.plan.enabled && b.used_tokens < threshold
}

/// The binding's plan is enabled and has id `plan_id`.
pub open spec fn pinned(plan_id: i64) -> spec_fn(BindingWithPlan) -> bool {
    |b: BindingWithPlan| b.plan.enabled && b.plan.id == plan_id
}

/// The binding's plan is enabled and configured for `model`.
pub open spec fn serves(model: Seq<char>) -> spec_fn(BindingWithPlan) -> bool {
    |b: BindingWithPlan| b.plan.enabled && b.plan.supports(model)
}

/// `i` is the first position of `bs` whose binding satisfies `p`.
pub open spec fn is_first_where(
    bs: Seq<BindingWithPlan>,
    p: spec_fn(BindingWithPlan) -> bool,
    i: int,
) -> bool {
    &&& 0 <= i < bs.len()
    &&& p(bs[i])
    &&& forall|j: int| 0 <= j < i ==> !p(#[trigger] bs[j])
}

/// The first position of `bs` whose binding satisfies `p`, if any.
pub open spec fn first_where(bs: Seq<BindingWithPlan>, p: spec_fn(BindingWithPlan) -> bool) -> Option<
    int,
> {
    if exists|i: int| is_first_where(bs, p, i) {
        Some(choose|i: int| is_first_where(bs, p, i))
    } else {
        None
    }
}

/// `i` is the first of the least-used bindings that serve `model`.
pub open spec fn is_least_used(bs: Seq<BindingWithPlan>, model: Seq<char>, i: int) -> bool {
    &&& 0 <= i < bs.len()
    &&& serves(model)(bs[i])
    &&& forall|j: int|
        0 <= j < bs.len() && serves(model)(#[trigger] bs[j]) ==> bs[i].used_tokens <= bs[j].used_tokens
    &&& forall|j: int|
        0 <= j < i && serves(model)(#[trigger] bs[j]) ==> bs[i].used_tokens < bs[j].used_tokens
}

/// The first of the least-used bindings serving `model` (meaningful when one serves it).
pub open spec fn least_used(bs: Seq<BindingWithPlan>, model: Seq<char>) -> int {
    choose|i: int| is_least_used(bs, model, i)
}

pub proof fn lemma_first_where_unique(bs: Seq<BindingWithPlan>, p: spec_fn(BindingWithPlan) -> bool, i: int)
    requires
        is_first_where(bs, p, i),
    ensures
        first_where(bs, p) == Some(i),
{
    let k = choose|k: int| is_first_where(bs, p, k);
    assert(is_first_where(bs, p, k));
    if k < i {
        assert(!p(bs[k]));
    } else if i < k {
        assert(!p(bs[i]));
    }
}

/// Some binding satisfying `p` implies a first such binding.
pub proof fn lemma_first_exists(bs: Seq<BindingWithPlan>, p: spec_fn(BindingWithPlan) -> bool, j: int)
    requires
        0 <= j < bs.len(),
        p(bs[j]),
    ensures
        exists|i: int| is_first_where(bs, p, i),
        first_where(bs, p) is Some,
    decreases j,
{
    if exists|k: int| 0 <= k < j && p(#[trigger] bs[k]) {
        let k = choose|k: int| 0 <= k < j && p(#[trigger] bs[k]);
        lemma_first_exists(bs, p, k);
    } else {
        assert(is_first_where(bs, p, j));
    }
}

pub proof fn lemma_first_where_none(bs: Seq<BindingWithPlan>, p: spec_fn(BindingWithPlan) -> bool)
    requires
        forall|j: int| 0 <= j < bs.len() ==> !p(#[trigger] bs[j]),
    ensures
        first_where(bs, p) is None,
{
}

proof fn lemma_least_used_unique(bs: Seq<BindingWithPlan>, model: Seq<char>, i: int)
    requires
        is_least_used(bs, model, i),
    ensures
        least_used(bs, model) == i,
{
    let k = least_used(bs, model);
    assert(is_least_used(bs, model, k));
    if k < i {
        assert(serves(model)(bs[k]));
        assert(bs[i].used_tokens <= bs[k].used_tokens);
    } else if i < k {
        assert(serves(model)(bs[i]));
        assert(bs[k].used_tokens <= bs[i].used_tokens);
    }
}

// ---------------------------------------------------------------------------
// Routing decisions
// ---------------------------------------------------------------------------

/// What a routing step chose and which persistent changes it asks for.
pub struct Route {
    /// Position (in binding order) of the chosen binding; `None` when no plan is usable.
    pub choice: Option<usize>,
    /// Drop the aggregator's manually pinned plan.
    pub clear_pin: bool,
    /// Reset the usage of every binding of the aggregator to zero.
    pub reset_usage: bool,
    /// Persist this plan id as the aggregator's current plan.
    pub set_current: Option<i64>,
}

/// A route with the given choice and no side effects.
pub open spec fn quiet(choice: Option<int>) -> Route {
    Route {
        choice: match choice {
            Some(i) => Some(i as usize),
            None => None,
        },
        clear_pin: false,
        reset_usage: false,
        set_current: None,
    }
}

/// Threshold rotation:
/// 1. a pinned current plan that is bound, enabled and below the threshold wins;
/// 2. an invalid pin is cleared and rotation resumes;
/// 3. the first enabled binding below the threshold is chosen;
/// 4. when all enabled bindings reached the threshold, usage is reset and the first one is chosen;
/// 5. without any enabled binding nothing is chosen.
pub open spec fn threshold_route(bs: Seq<BindingWithPlan>, current: Option<i64>, threshold: i64) -> Route {
    match first_where(bs, enabled()) {
        None => quiet(None),
        Some(first) => {
            let pin = match current {
                Some(pid) => match first_where(bs, pinned(pid)) {
                    Some(i) => if bs[i].used_tokens < threshold {
                        Some(i)
                    } else {
                        None
                    },
                    None => None,
                },
                None => None,
            };
            match pin {
                Some(i) => quiet(Some(i)),
                None => {
                    let clear = current is Some;
                    match first_where(bs, usable(threshold)) {
                        Some(i) => Route {
                            choice: Some(i as usize),
                            clear_pin: clear,
                            reset_usage: false,
                            set_current: None,
                        },
                        None => Route {
                            choice: Some(first as usize),
                            clear_pin: clear,
                            reset_usage: true,
                            set_current: None,
                        },
                    }
                },
            }
        },
    }
}

/// Model match (the current plan is sticky):
/// 1. some enabled binding serves `model` and the current plan is among them: keep it;
/// 2. some serve `model` but not the current plan: switch to the least-used of them
///    (first in binding order on ties) and persist it;
/// 3. nothing serves `model` (or no model given): keep the current plan;
/// 4. the current plan is missing or disabled: fall back to the first enabled binding and persist it;
/// 5. without any enabled binding nothing is chosen.
pub open spec fn model_route(bs: Seq<BindingWithPlan>, current: Option<i64>, model: Seq<char>) -> Route {
    match first_where(bs, enabled()) {
        None => quiet(None),
        Some(first) => {
            let cur = match current {
                Some(pid) => first_where(bs, pinned(pid)),
                None => None,
            };
            let any_match = model.len() > 0 && exists|j: int|
                0 <= j < bs.len() && serves(model)(#[trigger] bs[j]);
            if any_match {
                let cur_matches = match cur {
                    Some(c) => exists|j: int|
                        0 <= j < bs.len() && serves(model)(#[trigger] bs[j]) && bs[j].plan.id
                            == bs[c].plan.id,
                    None => false,
                };
                if cur_matches {
                    quiet(cur)
                } else {
                    let best = least_used(bs, model);
                    Route {
                        choice: Some(best as usize),
                        clear_pin: false,
                        reset_usage: false,
                        set_current: Some(bs[best].plan.id),
                    }
                }
            } else {
                match cur {
                    Some(c) => quiet(Some(c)),
                    None => Route {
                        choice: Some(first as usize),
                        clear_pin: false,
                        reset_usage: false,
                        set_current: Some(bs[first].plan.id),
                    },
                }
            }
        },
    }
}

/// The route for the aggregator's configured strategy; unknown strategy values fall back
/// to threshold rotation.
pub open spec fn route_for(bs: Seq<BindingWithPlan>, agg: Aggregator, model: Seq<char>) -> Route {
    if agg.strategy@ == crate::db::STRATEGY_MODEL_MATCH@ {
        model_route(bs, agg.current_plan_id, model)
    } else {
        threshold_route(bs, agg.current_plan_id, agg.token_threshold)
    }
}

/// The plan the threshold rotation would use next, without any side effect.
pub open spec fn threshold_peek(bs: Seq<BindingWithPlan>, current: Option<i64>, threshold: i64) -> Option<
    i64,
> {
    match threshold_route(bs, current, threshold).choice {
        Some(i) => Some(bs[i as int].plan.id),
        None => None,
    }
}

/// The plan the model match would show as current, without any side effect: the current plan
/// when it is bound and enabled, else the first enabled binding.
pub open spec fn model_peek(bs: Seq<BindingWithPlan>, current: Option<i64>) -> Option<i64> {
    match first_where(bs, enabled()) {
        None => None,
        Some(first) => if exists|j: int|
            0 <= j < bs.len() && bs[j].plan.enabled && Some(#[trigger] bs[j].plan.id) == current {
            current
        } else {
            Some(bs[first].plan.id)
        },
    }
}

/// The side-effect-free view of `route_for` used for listings.
pub open spec fn peek_for(bs: Seq<BindingWithPlan>, agg: Aggregator) -> Option<i64> {
    if agg.strategy@ == crate::db::STRATEGY_MODEL_MATCH@ {
        model_peek(bs, agg.current_plan_id)
    } else {
        threshold_peek(bs, agg.current_plan_id, agg.token_threshold)
    }
}

// ---------------------------------------------------------------------------
// Executable searches
// ---------------------------------------------------------------------------

fn first_enabled(bs: &Vec<BindingWithPlan>) -> (r: Option<usize>)
    ensures
        match r {
            Some(i) => is_first_where(bs@, enabled(), i as int) && first_where(bs@, enabled()) == Some(
                i as int,
            ),
            None => first_where(bs@, enabled()) is None && forall|j: int|
                0 <= j < bs@.len() ==> !enabled()(#[trigger] bs@[j]),
        },
{
    let mut i: usize = 0;
    while i < bs.len()
        invariant
            0 <= i <= bs@.len(),
            forall|j: int| 0 <= j < i ==> !enabled()(#[trigger] bs@[j]),
        decreases bs.len() - i,
    {
        if bs[i].plan.enabled {
            proof {
                lemma_first_where_unique(bs@, enabled(), i as int);
            }
            return Some(i);
        }
        i = i + 1;
    }
    proof {
        lemma_first_where_none(bs@, enabled());
    }
    None
}

fn first_pinned(bs: &Vec<BindingWithPlan>, plan_id: i64) -> (r: Option<usize>)
    ensures
        match r {
            Some(i) => is_first_where(bs@, pinned(plan_id), i as int) && first_where(bs@, pinned(plan_id)) == Some(
                i as int,
            ),
            None => first_where(bs@, pinned(plan_id)) is None && forall|j: int|
                0 <= j < bs@.len() ==> !pinned(plan_id)(#[trigger] bs@[j]),
        },
{
    let mut i: usize = 0;
    while i < bs.len()
        invariant
            0 <= i <= bs@.len(),
            forall|j: int| 0 <= j < i ==> !pinned(plan_id)(#[trigger] bs@[j]),
        decreases bs.len() - i,
    {
        if bs[i].plan.enabled && bs[i].plan.id == plan_id {
            proof {
                lemma_first_where_unique(bs@, pinned(plan_id), i as int);
            }
            return Some(i);
        }
        i = i + 1;
    }
    proof {
        lemma_first_where_none(bs@, pinned(plan_id));
    }
    None
}

fn first_usable(bs: &Vec<BindingWithPlan>, threshold: i64) -> (r: Option<usize>)
    ensures
        match r {
            Some(i) => is_first_where(bs@, usable(threshold), i as int) && first_where(bs@, usable(threshold)) == Some(
                i as int,
            ),
            None => first_where(bs@, usable(threshold)) is None && forall|j: int|
                0 <= j < bs@.len() ==> !usable(threshold)(#[trigger] bs@[j]),
        },
{
    let mut i: usize = 0;
    while i < bs.len()
        invariant
            0 <= i <= bs@.len(),
            forall|j: int| 0 <= j < i ==> !usable(threshold)(#[trigger] bs@[j]),
        decreases bs.len() - i,
    {
        if bs[i].plan.enabled && bs[i].used_tokens < threshold {
            proof {
                lemma_first_where_unique(bs@, usable(threshold), i as int);
            }
            return Some(i);
        }
        i = i + 1;
    }
    proof {
        lemma_first_where_none(bs@, usable(threshold));
    }
    None
}

/// Whether `plan` is configured for `model`.
pub fn plan_supports(plan: &CodingPlan, model: &String) -> (r: bool)
    ensures
        r == plan.supports(model@),
{
    let mut k: usize = 0;
    while k < plan.models.len()
        invariant
            0 <= k <= plan.models@.len(),
            forall|j: int| 0 <= j < k ==> (#[trigger] plan.models@[j])@ != model@,
        decreases plan.models.len() - k,
    {
        if plan.models[k] == *model {
            return true;
        }
        k = k + 1;
    }
    false
}

/// Position of the first least-used binding serving `model`, if any binding serves it.
fn least_used_serving(bs: &Vec<BindingWithPlan>, model: &String) -> (r: Option<usize>)
    ensures
        match r {
            Some(i) => {
                &&& is_least_used(bs@, model@, i as int)
                &&& least_used(bs@, model@) == i as int
            },
            None => forall|j: int| 0 <= j < bs@.len() ==> !serves(model@)(#[trigger] bs@[j]),
        },
{
    let mut best: Option<usize> = None;
    let mut i: usize = 0;
    while i < bs.len()
        invariant
            0 <= i <= bs@.len(),
            match best {
                Some(b) => {
                    &&& b < i
                    &&& serves(model@)(bs@[b as int])
                    &&& forall|j: int|
                        0 <= j < i && serves(model@)(#[trigger] bs@[j]) ==> bs@[b as int].used_tokens
                            <= bs@[j].used_tokens
                    &&& forall|j: int|
                        0 <= j < b && serves(model@)(#[trigger] bs@[j]) ==> bs@[b as int].used_tokens
                            < bs@[j].used_tokens
                },
                None => forall|j: int| 0 <= j < i ==> !serves(model@)(#[trigger] bs@[j]),
            },
        decreases bs.len() - i,
    {
        let serving = bs[i].plan.enabled && plan_supports(&bs[i].plan, model);
        if serving {
            match best {
                None => {
                    best = Some(i);
                },
                Some(b) => {
                    if bs[i].used_tokens < bs[b].used_tokens {
                        best = Some(i);
                    }
                },
            }
        }
        i = i + 1;
    }
    match best {
        Some(b) => {
            proof {
                lemma_least_used_unique(bs@, model@, b as int);
            }
            Some(b)
        },
        None => None,
    }
}

/// Whether some binding serving `model` carries plan `plan_id`.
fn serving_has_plan(bs: &Vec<BindingWithPlan>, model: &String, plan_id: i64) -> (r: bool)
    ensures
        r == exists|j: int|
            0 <= j < bs@.len() && serves(model@)(#[trigger] bs@[j]) && bs@[j].plan.id == plan_id,
{
    let mut i: usize = 0;
    while i < bs.len()
        invariant
            0 <= i <= bs@.len(),
            forall|j: int|
                0 <= j < i ==> !(serves(model@)(#[trigger] bs@[j]) && bs@[j].plan.id == plan_id),
        decreases bs.len() - i,
    {
        if bs[i].plan.enabled && bs[i].plan.id == plan_id && plan_supports(&bs[i].plan, model) {
            return true;
        }
        i = i + 1;
    }
    false
}

// ---------------------------------------------------------------------------
// Decisions
// ---------------------------------------------------------------------------

/// Threshold-rotation decision over the aggregator's bindings (in binding order).
pub fn decide_threshold_rotation(bs: &Vec<BindingWithPlan>, current: Option<i64>, threshold: i64) -> (r:
    Route)
    ensures
        r == threshold_route(bs@, current, threshold),
        // a choice is made exactly when some plan is enabled
        r.choice is Some <==> exists|j: int| 0 <= j < bs@.len() && bs@[j].plan.enabled,
        // the chosen plan is always enabled
        r.choice matches Some(i) ==> i < bs@.len() && bs@[i as int].plan.enabled,
        // usage is only reset when every enabled plan reached the threshold
        r.reset_usage <==> (r.choice is Some && forall|j: int|
            0 <= j < bs@.len() && bs@[j].plan.enabled ==> bs@[j].used_tokens >= threshold),
        // without a reset the chosen plan is below the threshold
        r.choice matches Some(i) ==> (!r.reset_usage ==> bs@[i as int].used_tokens < threshold),
        r.set_current is None,
{
    match first_enabled(bs) {
        None => {
            assert forall|j: int| 0 <= j < bs@.len() implies !bs@[j].plan.enabled by {
                assert(!enabled()(bs@[j]));
            }
            Route { choice: None, clear_pin: false, reset_usage: false, set_current: None }
        },
        Some(first) => {
            let mut pin: Option<usize> = None;
            if let Some(pid) = current {
                if let Some(i) = first_pinned(bs, pid) {
                    if bs[i].used_tokens < threshold {
                        pin = Some(i);
                    }
                }
            }
            match pin {
                Some(i) => Route { choice: Some(i), clear_pin: false, reset_usage: false, set_current: None },
                None => {
                    let clear = current.is_some();
                    match first_usable(bs, threshold) {
                        Some(i) => Route {
                            choice: Some(i),
                            clear_pin: clear,
                            reset_usage: false,
                            set_current: None,
                        },
                        None => Route {
                            choice: Some(first),
                            clear_pin: clear,
                            reset_usage: true,
                            set_current: None,
                        },
                    }
                },
            }
        },
    }
}

/// Model-match decision over the aggregator's bindings (in binding order) for a request
/// carrying `model` (empty when the request names none).
pub fn decide_model_match(bs: &Vec<BindingWithPlan>, current: Option<i64>, model: &String) -> (r: Route)
    ensures
        r == model_route(bs@, current, model@),
        r.choice is Some <==> exists|j: int| 0 <= j < bs@.len() && bs@[j].plan.enabled,
        r.choice matches Some(i) ==> i < bs@.len() && bs@[i as int].plan.enabled,
        // when some enabled plan serves the requested model, the chosen one does
        (model@.len() > 0 && exists|j: int| 0 <= j < bs@.len() && serves(model@)(#[trigger] bs@[j]))
            ==> (r.choice matches Some(i) && exists|j: int|
            0 <= j < bs@.len() && serves(model@)(#[trigger] bs@[j]) && bs@[j].plan.id == bs@[i as int].plan.id),
        // a switch is persisted; staying means the current plan was chosen
        r.choice matches Some(i) ==> (match r.set_current {
            Some(id) => id == bs@[i as int].plan.id,
            None => current == Some(bs@[i as int].plan.id),
        }),
        !r.clear_pin,
        !r.reset_usage,
{
    match first_enabled(bs) {
        None => Route { choice: None, clear_pin: false, reset_usage: false, set_current: None },
        Some(first) => {
            let cur = match current {
                Some(pid) => first_pinned(bs, pid),
                None => None,
            };
            let best = if !model.as_str().is_empty() {
                least_used_serving(bs, model)
            } else {
                None
            };
            proof {
                if model@.len() > 0 && best is None {
                    assert(!exists|j: int| 0 <= j < bs@.len() && serves(model@)(#[trigger] bs@[j]));
                }
                if best is Some {
                    let b = best.unwrap() as int;
                    assert(serves(model@)(bs@[b]) && bs@[b].plan.id == bs@[b].plan.id);
                }
            }
            match best {
                Some(b) => {
                    let cur_matches = match cur {
                        Some(c) => serving_has_plan(bs, model, bs[c].plan.id),
                        None => false,
                    };
                    if cur_matches {
                        proof {
                            let c = cur.unwrap() as int;
                            let j = choose|j: int|
                                0 <= j < bs@.len() && serves(model@)(#[trigger] bs@[j]) && bs@[j].plan.id
                                    == bs@[c].plan.id;
                            assert(bs@[c].plan.id == bs@[j].plan.id);
                        }
                        Route { choice: cur, clear_pin: false, reset_usage: false, set_current: None }
                    } else {
                        Route {
                            choice: Some(b),
                            clear_pin: false,
                            reset_usage: false,
                            set_current: Some(bs[b].plan.id),
                        }
                    }
                },
                None => match cur {
                    Some(c) => Route {
                        choice: Some(c),
                        clear_pin: false,
                        reset_usage: false,
                        set_current: None,
                    },
                    None => Route {
                        choice: Some(first),
                        clear_pin: false,
                        reset_usage: false,
                        set_current: Some(bs[first].plan.id),
                    },
                },
            }
        },
    }
}

/// Whether the aggregator's strategy is model match.
pub fn is_model_match(strategy: &String) -> (r: bool)
    ensures
        r == (strategy@ == crate::db::STRATEGY_MODEL_MATCH@),
{
    let known = crate::db::STRATEGY_MODEL_MATCH.to_owned();
    *strategy == known
}

/// The routing decision for the aggregator's strategy (unknown values route by threshold
/// rotation, so old data never turns into a refusal).
pub fn decide_route(bs: &Vec<BindingWithPlan>, agg: &Aggregator, model: &String) -> (r: Route)
    ensures
        r == route_for(bs@, *agg, model@),
        r.choice matches Some(i) ==> i < bs@.len(),
{
    if is_model_match(&agg.strategy) {
        decide_model_match(bs, agg.current_plan_id, model)
    } else {
        decide_threshold_rotation(bs, agg.current_plan_id, agg.token_threshold)
    }
}

/// Side-effect-free preview of the plan the aggregator would route to next.
pub fn peek_route(bs: &Vec<BindingWithPlan>, agg: &Aggregator) -> (r: Option<i64>)
    ensures
        r == peek_for(bs@, *agg),
{
    if is_model_match(&agg.strategy) {
        match first_enabled(bs) {
            None => None,
            Some(first) => {
                let mut i: usize = 0;
                while i < bs.len()
                    invariant
                        0 <= i <= bs@.len(),
                        first_where(bs@, enabled()) == Some(first as int),
                        agg.strategy@ == crate::db::STRATEGY_MODEL_MATCH@,
                        forall|j: int|
                            0 <= j < i ==> !(bs@[j].plan.enabled && Some(
                                #[trigger] bs@[j].plan.id,
                            ) == agg.current_plan_id),
                    decreases bs.len() - i,
                {
                    if bs[i].plan.enabled && Some(bs[i].plan.id) == agg.current_plan_id {
                        assert(bs@[i as int].plan.enabled && Some(bs@[i as int].plan.id)
                            == agg.current_plan_id);
                        return agg.current_plan_id;
                    }
                    i = i + 1;
                }
                Some(bs[first].plan.id)
            },
        }
    } else {
        let route = decide_threshold_rotation(bs, agg.current_plan_id, agg.token_threshold);
        match route.choice {
            Some(i) => Some(bs[i].plan.id),
            None => None,
        }
    }
}

/// The preview names exactly the plan that routing a request without a model would choose:
/// listings and forwarding agree.
pub proof fn lemma_peek_agrees_with_route(bindings: Vec<BindingWithPlan>, agg: Aggregator)
    ensures
        ({
            let bs = bindings@;
            peek_for(bs, agg) == (match route_for(bs, agg, Seq::empty()).choice {
                Some(i) => Some(bs[i as int].plan.id),
                None => None,
            })
        }),
{
    let bs = bindings@;
    let model = Seq::<char>::empty();
    assert(bs.len() == bindings.len() && bindings.len() <= usize::MAX);
    if agg.strategy@ == crate::db::STRATEGY_MODEL_MATCH@ {
        let current = agg.current_plan_id;
        let route = model_route(bs, current, model);
        assert(route_for(bs, agg, model) == route);
        assert(peek_for(bs, agg) == model_peek(bs, current));
        match first_where(bs, enabled()) {
            None => {},
            Some(first) => {
                let f2 = choose|i: int| is_first_where(bs, enabled(), i);
                assert(is_first_where(bs, enabled(), f2));
                assert(0 <= first < bs.len());
                let cur = match current {
                    Some(pid) => first_where(bs, pinned(pid)),
                    None => None,
                };
                let ex = exists|j: int|
                    0 <= j < bs.len() && bs[j].plan.enabled && Some(#[trigger] bs[j].plan.id) == current;
                match cur {
                    Some(c) => {
                        let pid = current.unwrap();
                        let c2 = choose|i: int| is_first_where(bs, pinned(pid), i);
                        assert(is_first_where(bs, pinned(pid), c2));
                        assert(c == c2);
                        assert(pinned(pid)(bs[c]));
                        assert(bs[c].plan.enabled && Some(bs[c].plan.id) == current);
                        assert(ex);
                        assert(route.choice == Some(c as usize));
                        assert(model_peek(bs, current) == current);
                    },
                    None => {
                        if ex {
                            let j = choose|j: int|
                                0 <= j < bs.len() && bs[j].plan.enabled && Some(#[trigger] bs[j].plan.id)
                                    == current;
                            let pid = current.unwrap();
                            assert(pinned(pid)(bs[j]));
                            lemma_first_exists(bs, pinned(pid), j);
                        }
                        assert(!ex);
                        assert(route.choice == Some(first as usize));
                        assert(model_peek(bs, current) == Some(bs[first].plan.id));
                    },
                }
            },
        }
    }
}


/// Threshold rotation uses the bindings in order: without a pinned plan, the binding chosen is
/// the first enabled one still below the threshold; once every enabled binding reached it, the
/// usage is reset and the first enabled binding is chosen again.
pub proof fn lemma_rotation_in_binding_order(bindings: Vec<BindingWithPlan>, threshold: i64)
    ensures
        ({
            let bs = bindings@;
            let r = threshold_route(bs, None, threshold);
            r.choice matches Some(c) ==> {
                let i = c as int;
                &&& 0 <= i < bs.len() && bs[i].plan.enabled
                &&& !r.reset_usage ==> bs[i].used_tokens < threshold && forall|j: int|
                    0 <= j < i && bs[j].plan.enabled ==> #[trigger] bs[j].used_tokens >= threshold
                &&& r.reset_usage ==> (forall|j: int| 0 <= j < i ==> !(#[trigger] bs[j]).plan.enabled)
                    && (forall|j: int| 0 <= j < bs.len() && bs[j].plan.enabled ==> #[trigger] bs[j].used_tokens >= threshold)
            }
        }),
{
    let bs = bindings@;
    assert(bs.len() == bindings.len() && bindings.len() <= usize::MAX);
    match first_where(bs, enabled()) {
        None => {},
        Some(first) => {
            let f = choose|i: int| is_first_where(bs, enabled(), i);
            assert(is_first_where(bs, enabled(), f));
            match first_where(bs, usable(threshold)) {
                Some(u) => {
                    let k = choose|i: int| is_first_where(bs, usable(threshold), i);
                    assert(is_first_where(bs, usable(threshold), k));
                    assert forall|j: int| 0 <= j < u && bs[j].plan.enabled implies #[trigger] bs[j].used_tokens >= threshold by {
                        assert(!usable(threshold)(bs[j]));
                    }
                },
                None => {
                    assert forall|j: int| 0 <= j < first implies !(#[trigger] bs[j]).plan.enabled by {
                        assert(!enabled()(bs[j]));
                    }
                    assert forall|j: int| 0 <= j < bs.len() && bs[j].plan.enabled implies #[trigger] bs[j].used_tokens >= threshold by {
                        if bs[j].used_tokens < threshold {
                            assert(usable(threshold)(bs[j]));
                            lemma_first_exists(bs, usable(threshold), j);
                        }
                    }
                },
            }
        },
    }
}

/// A valid pin is kept: under threshold rotation, when the pinned plan is bound (once), enabled
/// and still below the threshold, the request goes to it and nothing is cleared, reset or
/// persisted, whatever the order or usage of the other bindings.
pub proof fn lemma_valid_pin_kept(bindings: Vec<BindingWithPlan>, pid: i64, threshold: i64, k: int)
    requires
        0 <= k < bindings@.len(),
        bindings@[k].plan.id == pid,
        bindings@[k].plan.enabled,
        bindings@[k].used_tokens < threshold,
        forall|i: int, j: int|
            0 <= i < bindings@.len() && 0 <= j < bindings@.len() && #[trigger] bindings@[i].plan.id
                == #[trigger] bindings@[j].plan.id ==> i == j,
    ensures
        ({
            let r = threshold_route(bindings@, Some(pid), threshold);
            &&& r.choice == Some(k as usize)
            &&& !r.clear_pin && !r.reset_usage && r.set_current is None
        }),
{
    let bs = bindings@;
    assert(bs.len() == bindings.len() && bindings.len() <= usize::MAX);
    assert(enabled()(bs[k]));
    lemma_first_exists(bs, enabled(), k);
    assert(pinned(pid)(bs[k]));
    lemma_first_exists(bs, pinned(pid), k);
    let c = choose|i: int| is_first_where(bs, pinned(pid), i);
    assert(is_first_where(bs, pinned(pid), c));
    assert(pinned(pid)(bs[c]));
    assert(bs[c].plan.id == bs[k].plan.id);
    assert(c == k);
}

/// Model match is sticky: when the current plan is bound, enabled and serves the requested
/// model, the request goes to it and nothing is persisted, whatever the usage of the other
/// plans serving the model.
pub proof fn lemma_model_match_sticky(bindings: Vec<BindingWithPlan>, current: i64, model: Seq<char>, k: int)
    requires
        model.len() > 0,
        0 <= k < bindings@.len(),
        bindings@[k].plan.id == current,
        serves(model)(bindings@[k]),
    ensures
        ({
            let bs = bindings@;
            let r = model_route(bs, Some(current), model);
            &&& r.choice matches Some(c) && bs[c as int].plan.id == current
            &&& r.set_current is None && !r.clear_pin && !r.reset_usage
        }),
{
    let bs = bindings@;
    assert(bs.len() == bindings.len() && bindings.len() <= usize::MAX);
    assert(enabled()(bs[k]));
    lemma_first_exists(bs, enabled(), k);
    assert(pinned(current)(bs[k]));
    lemma_first_exists(bs, pinned(current), k);
    let c = choose|i: int| is_first_where(bs, pinned(current), i);
    assert(is_first_where(bs, pinned(current), c));
    assert(pinned(current)(bs[c]));
    assert(serves(model)(bs[k]) && bs[k].plan.id == bs[c].plan.id);
}

// ---------------------------------------------------------------------------
// Routing against the database
// ---------------------------------------------------------------------------

/// The plan chosen for one forwarded request, with the binding its usage is counted on.
pub struct StrategyPick {
    pub binding_id: i64,
    pub plan: CodingPlan,
}

/// Threshold rotation, whatever plan is pinned, routes without a reset only to an enabled
/// binding below the threshold: the pinned plan, or else the first such binding in order.
pub proof fn lemma_threshold_choice_usable(bs: Seq<BindingWithPlan>, current: Option<i64>, threshold: i64)
    ensures
        ({
            let r = threshold_route(bs, current, threshold);
            r.choice is Some && !r.reset_usage ==> exists|i: int|
                0 <= i < bs.len() && r.choice == Some(i as usize) && (#[trigger] bs[i]).plan.enabled
                    && bs[i].used_tokens < threshold && (Some(bs[i].plan.id) == current || forall|j: int|
                    0 <= j < i && (#[trigger] bs[j]).plan.enabled ==> bs[j].used_tokens >= threshold)
        }),
{
    let r = threshold_route(bs, current, threshold);
    if let Some(first) = first_where(bs, enabled()) {
        let pin = match current {
            Some(pid) => match first_where(bs, pinned(pid)) {
                Some(i) => if bs[i].used_tokens < threshold {
                    Some(i)
                } else {
                    None
                },
                None => None,
            },
            None => None,
        };
        match pin {
            Some(i) => {
                let pid = current->0;
                assert(exists|k: int| is_first_where(bs, pinned(pid), k));
                assert(is_first_where(bs, pinned(pid), i));
                assert(pinned(pid)(bs[i]));
            },
            None => {
                if let Some(u) = first_where(bs, usable(threshold)) {
                    assert(exists|k: int| is_first_where(bs, usable(threshold), k));
                    assert(is_first_where(bs, usable(threshold), u));
                    assert(usable(threshold)(bs[u]));
                    assert forall|j: int| 0 <= j < u && (#[trigger] bs[j]).plan.enabled implies bs[j].used_tokens
                        >= threshold by {
                        assert(!usable(threshold)(bs[j]));
                    }
                }
            },
        }
    }
}

/// Among bindings of which some serve `model`, a first least-used one exists.
pub proof fn lemma_least_used_exists(bs: Seq<BindingWithPlan>, model: Seq<char>)
    requires
        exists|j: int| 0 <= j < bs.len() && serves(model)(#[trigger] bs[j]),
    ensures
        exists|i: int| is_least_used(bs, model, i),
    decreases bs.len(),
{
    let n = bs.len() - 1;
    let init = bs.drop_last();
    if exists|j: int| 0 <= j < init.len() && serves(model)(#[trigger] init[j]) {
        lemma_least_used_exists(init, model);
        let i0 = choose|i: int| is_least_used(init, model, i);
        assert(is_least_used(init, model, i0));
        if serves(model)(bs[n]) && bs[n].used_tokens < bs[i0].used_tokens {
            assert forall|j: int| 0 <= j < bs.len() && serves(model)(#[trigger] bs[j]) implies bs[n].used_tokens
                <= bs[j].used_tokens by {
                if j < n {
                    assert(init[j] == bs[j]);
                }
            }
            assert forall|j: int| 0 <= j < n && serves(model)(#[trigger] bs[j]) implies bs[n].used_tokens
                < bs[j].used_tokens by {
                assert(init[j] == bs[j]);
            }
            assert(is_least_used(bs, model, n));
        } else {
            assert forall|j: int| 0 <= j < bs.len() && serves(model)(#[trigger] bs[j]) implies bs[i0].used_tokens
                <= bs[j].used_tokens by {
                if j < n {
                    assert(init[j] == bs[j]);
                }
            }
            assert forall|j: int| 0 <= j < i0 && serves(model)(#[trigger] bs[j]) implies bs[i0].used_tokens
                < bs[j].used_tokens by {
                assert(init[j] == bs[j]);
            }
            assert(is_least_used(bs, model, i0));
        }
    } else {
        let j = choose|j: int| 0 <= j < bs.len() && serves(model)(#[trigger] bs[j]);
        if j < n {
            assert(init[j] == bs[j]);
        }
        assert forall|k: int| 0 <= k < n implies !serves(model)(#[trigger] bs[k]) by {
            assert(init[k] == bs[k]);
        }
        assert(is_least_used(bs, model, n));
    }
}

/// Under model match, when some enabled binding is configured for the requested model but the
/// current plan is not one of them, the request switches to the least-used binding serving the
/// model (the first of them in binding order on a tie), and that plan becomes the current one.
pub proof fn lemma_model_switch_to_least_used(bs: Seq<BindingWithPlan>, current: Option<i64>, model: Seq<char>)
    requires
        model.len() > 0,
        exists|j: int| 0 <= j < bs.len() && (#[trigger] bs[j]).plan.enabled && bs[j].plan.supports(model),
        forall|j: int|
            0 <= j < bs.len() && (#[trigger] bs[j]).plan.enabled && bs[j].plan.supports(model) ==> Some(
                bs[j].plan.id,
            ) != current,
    ensures
        exists|k: int|
            0 <= k < bs.len() && model_route(bs, current, model).choice == Some(k as usize)
                && (#[trigger] bs[k]).plan.enabled && bs[k].plan.supports(model)
                && (forall|j: int|
                0 <= j < bs.len() && (#[trigger] bs[j]).plan.enabled && bs[j].plan.supports(model) ==> bs[k].used_tokens
                    <= bs[j].used_tokens) && (forall|j: int|
                0 <= j < k && (#[trigger] bs[j]).plan.enabled && bs[j].plan.supports(model) ==> bs[k].used_tokens
                    < bs[j].used_tokens) && model_route(bs, current, model).set_current == Some(bs[k].plan.id),
{
    let j0 = choose|j: int| 0 <= j < bs.len() && (#[trigger] bs[j]).plan.enabled && bs[j].plan.supports(model);
    assert(serves(model)(bs[j0]));
    lemma_first_exists(bs, enabled(), j0);
    lemma_least_used_exists(bs, model);
    let best = least_used(bs, model);
    assert(is_least_used(bs, model, best));
    if let Some(pid) = current {
        if let Some(c) = first_where(bs, pinned(pid)) {
            assert(exists|i: int| is_first_where(bs, pinned(pid), i));
            assert(is_first_where(bs, pinned(pid), c));
            assert(bs[c].plan.id == pid);
            assert forall|j: int| 0 <= j < bs.len() && serves(model)(#[trigger] bs[j]) implies bs[j].plan.id
                != bs[c].plan.id by {
                assert(bs[j].plan.enabled && bs[j].plan.supports(model));
            }
        }
    }
    assert forall|j: int| 0 <= j < bs.len() && (#[trigger] bs[j]).plan.enabled && bs[j].plan.supports(model) implies bs[best].used_tokens
        <= bs[j].used_tokens by {
        assert(serves(model)(bs[j]));
    }
    assert forall|j: int| 0 <= j < best && (#[trigger] bs[j]).plan.enabled && bs[j].plan.supports(model) implies bs[best].used_tokens
        < bs[j].used_tokens by {
        assert(serves(model)(bs[j]));
    }
}

/// Threshold rotation resets the usage exactly when some plan is enabled and every enabled
/// binding has reached the threshold; it then routes to the first enabled binding in binding
/// order, whatever plan was pinned, and drops any pin.
pub proof fn lemma_threshold_reset_routes_to_first(bs: Seq<BindingWithPlan>, current: Option<i64>, threshold: i64)
    ensures
        threshold_route(bs, current, threshold).reset_usage <==> ((exists|j: int|
            0 <= j < bs.len() && (#[trigger] bs[j]).plan.enabled) && forall|j: int|
            0 <= j < bs.len() && (#[trigger] bs[j]).plan.enabled ==> bs[j].used_tokens >= threshold),
        threshold_route(bs, current, threshold).reset_usage ==> exists|k: int|
            0 <= k < bs.len() && threshold_route(bs, current, threshold).choice == Some(k as usize)
                && (#[trigger] bs[k]).plan.enabled && (forall|j: int| 0 <= j < k ==> !(#[trigger] bs[j]).plan.enabled)
                && threshold_route(bs, current, threshold).clear_pin == (current is Some),
{
    let r = threshold_route(bs, current, threshold);
    match first_where(bs, enabled()) {
        None => {
            if exists|j: int| 0 <= j < bs.len() && (#[trigger] bs[j]).plan.enabled {
                let j = choose|j: int| 0 <= j < bs.len() && (#[trigger] bs[j]).plan.enabled;
                lemma_first_exists(bs, enabled(), j);
            }
        },
        Some(first) => {
            assert(exists|i: int| is_first_where(bs, enabled(), i));
            assert(is_first_where(bs, enabled(), first));
            assert(bs[first].plan.enabled);
            let pin = match current {
                Some(pid) => match first_where(bs, pinned(pid)) {
                    Some(i) => if bs[i].used_tokens < threshold {
                        Some(i)
                    } else {
                        None
                    },
                    None => None,
                },
                None => None,
            };
            match pin {
                Some(i) => {
                    let pid = current->0;
                    assert(exists|k: int| is_first_where(bs, pinned(pid), k));
                    assert(is_first_where(bs, pinned(pid), i));
                    assert(bs[i].plan.enabled && bs[i].used_tokens < threshold);
                },
                None => {
                    match first_where(bs, usable(threshold)) {
                        Some(i) => {
                            assert(exists|k: int| is_first_where(bs, usable(threshold), k));
                            assert(is_first_where(bs, usable(threshold), i));
                            assert(bs[i].plan.enabled && bs[i].used_tokens < threshold);
                        },
                        None => {
                            assert forall|j: int|
                                0 <= j < bs.len() && (#[trigger] bs[j]).plan.enabled implies bs[j].used_tokens
                                >= threshold by {
                                if bs[j].used_tokens < threshold {
                                    lemma_first_exists(bs, usable(threshold), j);
                                }
                            }
                            assert(forall|j: int| 0 <= j < first ==> !(#[trigger] bs[j]).plan.enabled) by {
                                assert forall|j: int| 0 <= j < first implies !(#[trigger] bs[j]).plan.enabled by {
                                    assert(!enabled()(bs[j]));
                                }
                            }
                        },
                    }
                },
            }
        },
    }
}

/// Under model match, when no enabled binding is configured for the requested model (or no
/// model is named) and the current plan is not an enabled bound plan, the request goes to the
/// first enabled binding in binding order, and its plan becomes the current one.
pub proof fn lemma_model_fallback_to_first(bs: Seq<BindingWithPlan>, current: Option<i64>, model: Seq<char>)
    requires
        exists|j: int| 0 <= j < bs.len() && (#[trigger] bs[j]).plan.enabled,
        model.len() == 0 || forall|j: int|
            0 <= j < bs.len() && (#[trigger] bs[j]).plan.enabled ==> !bs[j].plan.supports(model),
        forall|j: int| 0 <= j < bs.len() && (#[trigger] bs[j]).plan.enabled ==> Some(bs[j].plan.id) != current,
    ensures
        exists|k: int|
            0 <= k < bs.len() && model_route(bs, current, model).choice == Some(k as usize)
                && (#[trigger] bs[k]).plan.enabled && (forall|j: int| 0 <= j < k ==> !(#[trigger] bs[j]).plan.enabled)
                && model_route(bs, current, model).set_current == Some(bs[k].plan.id),
{
    let j0 = choose|j: int| 0 <= j < bs.len() && (#[trigger] bs[j]).plan.enabled;
    lemma_first_exists(bs, enabled(), j0);
    let first = first_where(bs, enabled())->0;
    assert(is_first_where(bs, enabled(), first));
    if let Some(pid) = current {
        assert forall|j: int| 0 <= j < bs.len() implies !pinned(pid)(#[trigger] bs[j]) by {
            if bs[j].plan.enabled {
                assert(Some(bs[j].plan.id) != current);
            }
        }
        lemma_first_where_none(bs, pinned(pid));
    }
    if model.len() > 0 {
        assert(!exists|j: int| 0 <= j < bs.len() && serves(model)(#[trigger] bs[j]));
    }
    assert forall|j: int| 0 <= j < first implies !(#[trigger] bs[j]).plan.enabled by {
        assert(!enabled()(bs[j]));
    }
}

/// The writes that carry out `route` for the aggregator `agg_id`, in the order they are sent:
/// dropping the pin, resetting the usage, storing the new current plan.
pub open spec fn route_changes(agg_id: i64, route: Route) -> Seq<Sent> {
    (if route.clear_pin { seq![clear_current_write(agg_id)] } else { Seq::empty() }) + (if route.reset_usage {
        seq![reset_usage_write(agg_id)]
    } else {
        Seq::empty()
    }) + match route.set_current {
        Some(pid) => seq![set_current_write(agg_id, pid)],
        None => Seq::empty(),
    }
}

/// Routing chooses nothing exactly when no bound plan is enabled, and then it sends no write.
pub proof fn lemma_no_choice_changes_nothing(bs: Seq<BindingWithPlan>, agg: Aggregator, model: Seq<char>)
    ensures
        (route_for(bs, agg, model).choice is None) == (first_where(bs, enabled()) is None),
        route_for(bs, agg, model).choice is None ==> route_changes(agg.id, route_for(bs, agg, model))
            == Seq::<Sent>::empty(),
{
    let r = route_for(bs, agg, model);
    if r.choice is None {
        assert(route_changes(agg.id, r) =~= Seq::<Sent>::empty());
    }
}

/// `p` is what routing `model` through `agg` picks among the bindings `bs`.
pub open spec fn picked(bs: Seq<BindingWithPlan>, agg: Aggregator, model: Seq<char>, p: Option<StrategyPick>) -> bool {
    match route_for(bs, agg, model).choice {
        None => p is None,
        Some(i) => p matches Some(s) && 0 <= i < bs.len() && s.binding_id == bs[i as int].binding_id
            && s.plan.same_as(bs[i as int].plan),
    }
}

/// Chooses the plan that forwards a request for `model` (empty when the request names none),
/// following the aggregator's strategy over its current bindings, and records what the
/// decision changes: a dropped pin, a usage reset, a new current plan. `None` when no bound
/// plan is enabled.
pub fn pick_plan(db: &mut Db, agg: &Aggregator, model: &str) -> (r: Result<
    Option<StrategyPick>,
    rusqlite::Error,
>)
    ensures
        r matches Ok(p) ==> {
            let h = final(db).history();
            let n = old(db).history().len() as int;
            &&& one_query(old(db).history(), h.take(n + 1), LIST_BINDINGS_SQL@, seq![Param::Int(agg.id)])
            &&& exists|bs: Seq<BindingWithPlan>|
                #[trigger] bindings_in(h[n].rows, bs)
                && (forall|j: int| 0 <= j < bs.len() ==> stored_binding(#[trigger] bs[j]))
                && picked(bs, *agg, model@, p)
                && h.skip(n + 1) == route_changes(agg.id, route_for(bs, *agg, model@))
        },
{
    let ghost h0 = db.history();
    let bindings = list_bindings(db, agg.id)?;
    let ghost h1 = db.history();
    let wanted = model.to_owned();
    let route = decide_route(&bindings, agg, &wanted);
    if route.clear_pin {
        clear_current_plan(db, agg.id)?;
    }
    let ghost h2 = db.history();
    assert(h2 == h1 + (if route.clear_pin { seq![clear_current_write(agg.id)] } else { Seq::empty() }));
    if route.reset_usage {
        reset_binding_usage(db, agg.id)?;
    }
    let ghost h3 = db.history();
    assert(h3 == h2 + (if route.reset_usage { seq![reset_usage_write(agg.id)] } else { Seq::empty() }));
    if let Some(pid) = route.set_current {
        set_current_plan(db, agg.id, pid)?;
    }
    proof {
        let tail = match route.set_current {
            Some(pid) => seq![set_current_write(agg.id, pid)],
            None => Seq::empty(),
        };
        assert(db.history() == h3 + tail);
        assert(db.history() =~= h1 + route_changes(agg.id, route));
        assert(h1 =~= db.history().take(h0.len() as int + 1));
        assert(db.history().skip(h0.len() as int + 1) =~= route_changes(agg.id, route));
        assert(db.history()[h0.len() as int] == h1.last());
    }
    let pick = match route.choice {
        None => None,
        Some(i) => Some(
            StrategyPick { binding_id: bindings[i].binding_id, plan: bindings[i].plan.duplicate() },
        ),
    };
    assert(picked(bindings@, *agg, model@, pick));
    Ok(pick)
}

/// The plan the aggregator would route to next (as [`pick_plan`] for a request without a
/// model), without changing anything.
pub fn peek_plan(db: &mut Db, agg: &Aggregator) -> (r: Result<Option<i64>, rusqlite::Error>)
    ensures
        one_query(old(db).history(), final(db).history(), LIST_BINDINGS_SQL@, seq![Param::Int(agg.id)]),
        changes(final(db).history()) == changes(old(db).history()),
        r matches Ok(p) ==> exists|bs: Seq<BindingWithPlan>|
            #[trigger] bindings_in(final(db).history().last().rows, bs)
            && (forall|j: int| 0 <= j < bs.len() ==> stored_binding(#[trigger] bs[j]))
            && peek_for(bs, *agg) == p,
{
    let bindings = list_bindings(db, agg.id)?;
    let p = peek_route(&bindings, agg);
    assert(peek_for(bindings@, *agg) == p);
    Ok(p)
}

} // verus!
