use vstd::prelude::*;
use crate::sqlite::{change, changes, Db, Param, Sent};
use std::collections::HashSet;

use crate::commands::errors::{db_error, is_db_error};
use crate::db::{self, lemma_no_usage_stored, stored_aggregator, stored_binding, stored_usage, Aggregator, BindingWithPlan, UsageStats};
use crate::strategy::{first_where, is_first_where, lemma_first_where_none, lemma_first_where_unique, peek_for, peek_plan};
use crate::text::{int_chars, int_text, trim, trim_text};
use crate::token::{generate_token, is_token};

verus! {

broadcast use vstd::std_specs::hash::group_hash_axioms;

/// Message of a refused port outside `1..=65535`.
pub const PORT_OUT_OF_RANGE: &'static str = "端口必须在 1-65535 之间";

/// Message when no port of the automatic range is free.
pub const NO_FREE_PORT: &'static str = "8300-8399 范围内没有可用端口";

/// Message of a refused empty aggregator name.
pub const EMPTY_AGGREGATOR_NAME: &'static str = "聚合器名称不能为空";

/// Message of a refused token threshold.
pub const BAD_THRESHOLD: &'static str = "token 阈值必须大于 0";

/// Message of an operation on an aggregator that does not exist.
pub const NO_SUCH_AGGREGATOR: &'static str = "聚合器不存在";

/// Message of a port change refused while the aggregator serves.
pub const PORT_CHANGE_WHILE_RUNNING: &'static str = "服务运行中不能修改端口，请先停止服务";

/// Message of a refused disabled current plan.
pub const DISABLED_CURRENT_PLAN: &'static str = "该计划已禁用，不能设为当前计划";

/// First port of the automatic range.
pub const AUTO_PORT_FIRST: i64 = 8300;

/// Last port of the automatic range.
pub const AUTO_PORT_LAST: i64 = 8399;

/// Token threshold of a new aggregator when none is given.
pub const DEFAULT_THRESHOLD: i64 = 1000000;

/// `p` is a valid TCP port.
pub open spec fn valid_port(p: i64) -> bool {
    1 <= p <= 65535
}

/// The message of a port already used by another aggregator.
pub open spec fn port_taken_message(p: i64) -> Seq<char> {
    "端口 "@ + int_chars(p as int) + " 已被其他聚合器使用"@
}

/// Builds [`port_taken_message`].
pub fn port_taken(p: i64) -> (r: String)
    ensures
        r@ == port_taken_message(p),
{
    let mut out = "端口 ".to_owned();
    let n = int_text(p);
    out.append(n.as_str());
    out.append(" 已被其他聚合器使用");
    out
}

/// `p` of the automatic range may be used: no aggregator has it and the probe could bind it.
pub open spec fn port_usable<F: Fn(i64) -> bool>(taken: Set<i64>, bindable: F, p: i64) -> bool {
    !taken.contains(p) && bindable.ensures((p,), true)
}

/// `p` of the automatic range was passed over: an aggregator has it or the probe could not
/// bind it.
pub open spec fn port_passed<F: Fn(i64) -> bool>(taken: Set<i64>, bindable: F, p: i64) -> bool {
    taken.contains(p) || bindable.ensures((p,), false)
}

/// The first port of `8300..=8399` that no aggregator has and that `bindable` (a bind test,
/// tried only on ports no aggregator has) accepts.
pub fn find_free_port<F: Fn(i64) -> bool>(taken: &HashSet<i64>, bindable: F) -> (r: Option<i64>)
    requires
        forall|p: i64| bindable.requires((p,)),
    ensures
        match r {
            Some(p) => AUTO_PORT_FIRST <= p <= AUTO_PORT_LAST && port_usable(taken@, bindable, p)
                && forall|q: i64| AUTO_PORT_FIRST <= q < p ==> port_passed(taken@, bindable, q),
            None => forall|q: i64| AUTO_PORT_FIRST <= q <= AUTO_PORT_LAST ==> port_passed(taken@, bindable, q),
        },
{
    let mut p: i64 = AUTO_PORT_FIRST;
    while p <= AUTO_PORT_LAST
        invariant
            AUTO_PORT_FIRST <= p <= AUTO_PORT_LAST + 1,
            forall|q: i64| bindable.requires((q,)),
            forall|q: i64| AUTO_PORT_FIRST <= q < p ==> port_passed(taken@, bindable, q),
        decreases AUTO_PORT_LAST + 1 - p,
    {
        if !taken.contains(&p) {
            let ok = bindable(p);
            if ok {
                return Some(p);
            }
        }
        p = p + 1;
    }
    None
}

/// The port of a new aggregator: an explicit port must be valid and unused by other
/// aggregators; without one, the first free port of the automatic range (see
/// [`find_free_port`]).
pub fn resolve_create_port<F: Fn(i64) -> bool>(explicit: Option<i64>, taken: &HashSet<i64>, bindable: F) -> (r: Result<i64, String>)
    requires
        forall|p: i64| bindable.requires((p,)),
    ensures
        match explicit {
            Some(p) => if !valid_port(p) {
                r matches Err(e) && e@ == PORT_OUT_OF_RANGE@
            } else if taken@.contains(p) {
                r matches Err(e) && e@ == port_taken_message(p)
            } else {
                r == Ok::<i64, String>(p)
            },
            None => match r {
                Ok(p) => AUTO_PORT_FIRST <= p <= AUTO_PORT_LAST && port_usable(taken@, bindable, p)
                    && forall|q: i64| AUTO_PORT_FIRST <= q < p ==> port_passed(taken@, bindable, q),
                Err(e) => e@ == NO_FREE_PORT@ && forall|q: i64|
                    AUTO_PORT_FIRST <= q <= AUTO_PORT_LAST ==> port_passed(taken@, bindable, q),
            },
        },
{
    match explicit {
        Some(p) => {
            if !(1 <= p && p <= 65535) {
                Err(PORT_OUT_OF_RANGE.to_owned())
            } else if taken.contains(&p) {
                Err(port_taken(p))
            } else {
                Ok(p)
            }
        },
        None => match find_free_port(taken, bindable) {
            Some(p) => Ok(p),
            None => Err(NO_FREE_PORT.to_owned()),
        },
    }
}


/// The strategy a request asks for, trimmed (none is the empty text).
pub open spec fn asked_strategy(strategy: Option<&str>) -> Seq<char> {
    match strategy {
        Some(s) => trim(s@),
        None => Seq::empty(),
    }
}

/// Prefix of the message refusing an unknown strategy.
pub const UNKNOWN_STRATEGY: &'static str = "未知的路由策略：";

/// The strategy to store: threshold rotation when none (or only white space) is given, the
/// trimmed name when it is a known strategy; an unknown name is refused.
pub fn resolve_strategy(strategy: Option<&str>) -> (r: Result<String, String>)
    ensures
        ({
            let s = asked_strategy(strategy);
            if s.len() == 0 {
                r matches Ok(v) && v@ == db::STRATEGY_THRESHOLD_ROTATION@
            } else if db::known_strategy(s) {
                r matches Ok(v) && v@ == s
            } else {
                r matches Err(e) && e@ == UNKNOWN_STRATEGY@ + s
            }
        }),
{
    let s = match strategy {
        Some(t) => trim_text(t),
        None => String::new(),
    };
    if s.as_str().is_empty() {
        return Ok(db::STRATEGY_THRESHOLD_ROTATION.to_owned());
    }
    if !db::is_known_strategy(s.as_str()) {
        let mut message = UNKNOWN_STRATEGY.to_owned();
        message.append(s.as_str());
        return Err(message);
    }
    Ok(s)
}

/// `ids` without repeats, each kept where it first occurs.
pub open spec fn first_occurrences(ids: Seq<i64>) -> Seq<i64>
    decreases ids.len(),
{
    if ids.len() == 0 {
        Seq::empty()
    } else {
        let kept = first_occurrences(ids.drop_last());
        if kept.contains(ids.last()) {
            kept
        } else {
            kept.push(ids.last())
        }
    }
}

/// `ids` without repeats, in the order of first occurrence.
pub fn dedup_keep_order(ids: Vec<i64>) -> (r: Vec<i64>)
    ensures
        r@ == first_occurrences(ids@),
{
    let mut seen: HashSet<i64> = HashSet::new();
    let mut out: Vec<i64> = Vec::new();
    let mut i: usize = 0;
    while i < ids.len()
        invariant
            0 <= i <= ids@.len(),
            out@ == first_occurrences(ids@.take(i as int)),
            forall|x: i64| seen@.contains(x) <==> out@.contains(x),
        decreases ids.len() - i,
    {
        let id = ids[i];
        proof {
            assert(ids@.take(i + 1).drop_last() =~= ids@.take(i as int));
            assert(ids@.take(i + 1).last() == id);
        }
        let ghost seen0 = seen@;
        let ghost out0 = out@;
        if seen.insert(id) {
            out.push(id);
            proof {
                assert forall|x: i64| seen@.contains(x) <==> out@.contains(x) by {
                    if x == id {
                        assert(out@[out@.len() - 1] == id);
                    } else {
                        if out0.contains(x) {
                            let k = choose|k: int| 0 <= k < out0.len() && out0[k] == x;
                            assert(out@[k] == x);
                        }
                        if out@.contains(x) {
                            let k = choose|k: int| 0 <= k < out@.len() && out@[k] == x;
                            assert(k < out0.len());
                            assert(out0[k] == x);
                        }
                    }
                }
            }
        }
        i = i + 1;
    }
    assert(ids@.take(ids@.len() as int) =~= ids@);
    out
}


/// A bound plan as shown with its aggregator.
pub struct BindingView {
    pub plan_id: i64,
    pub plan_name: String,
    pub enabled: bool,
    pub position: i64,
    pub used_tokens: i64,
    /// The aggregator's threshold (the same for all its bindings).
    pub token_threshold: i64,
    /// The plan's models (what the model-match strategy routes by).
    pub models: Vec<String>,
}

/// An aggregator as shown: its settings, whether it serves, its public URL, its bindings,
/// its usage, the plan the next request goes to, and the stored current plan.
pub struct AggregatorView {
    pub aggregator: Aggregator,
    pub running: bool,
    pub base_url: String,
    pub bindings: Vec<BindingView>,
    pub stats: UsageStats,
    /// The plan the next request would be forwarded to (see [`peek_plan`]).
    pub current_plan_id: Option<i64>,
    /// The stored current plan: the pinned plan of threshold rotation, the sticky target of
    /// model match.
    pub manual_current_plan_id: Option<i64>,
}

/// `v` shows binding `b` of an aggregator whose threshold is `threshold`.
pub open spec fn shows_binding(b: BindingWithPlan, threshold: i64, v: BindingView) -> bool {
    &&& v.plan_id == b.plan.id
    &&& v.plan_name == b.plan.name
    &&& v.enabled == b.plan.enabled
    &&& v.position == b.position
    &&& v.used_tokens == b.used_tokens
    &&& v.token_threshold == threshold
    &&& v.models@ == b.plan.models@
}

/// Shows a binding.
pub fn binding_view(b: &BindingWithPlan, threshold: i64) -> (v: BindingView)
    ensures
        shows_binding(*b, threshold, v),
{
    let plan = b.plan.duplicate();
    BindingView {
        plan_id: plan.id,
        plan_name: plan.name,
        enabled: plan.enabled,
        position: b.position,
        used_tokens: b.used_tokens,
        token_threshold: threshold,
        models: plan.models,
    }
}

/// `v` shows a stored binding of an aggregator whose threshold is `threshold`.
pub open spec fn shows_stored_binding(v: BindingView, threshold: i64) -> bool {
    exists|b: BindingWithPlan| stored_binding(b) && #[trigger] shows_binding(b, threshold, v)
}

/// The local URL an aggregator serves on.
pub open spec fn local_base_url(port: i64) -> Seq<char> {
    "http://127.0.0.1:"@ + int_chars(port as int)
}

/// Shows an aggregator. Reading its bindings, usage or next plan never fails the view: a part
/// that cannot be read is shown empty (no bindings, no usage, no next plan).
pub fn build_view(db: &mut Db, agg: Aggregator, running: bool) -> (v: AggregatorView)
    ensures
        changes(final(db).history()) == changes(old(db).history()),
        final(db).history().take(old(db).history().len() as int) == old(db).history(),
        final(db).history().len() == old(db).history().len() + 3,
        v.aggregator == agg,
        v.running == running,
        v.base_url@ == local_base_url(agg.port),
        v.manual_current_plan_id == agg.current_plan_id,
        forall|i: int| 0 <= i < v.bindings@.len() ==> (#[trigger] v.bindings@[i]).token_threshold
            == agg.token_threshold,
        v.current_plan_id is Some ==> exists|bs: Seq<BindingWithPlan>| #[trigger] peek_for(bs, agg)
            == v.current_plan_id,
        forall|i: int| 0 <= i < v.bindings@.len() ==> shows_stored_binding(
            #[trigger] v.bindings@[i],
            agg.token_threshold,
        ),
        stored_usage(v.stats),
{
    let ghost h0 = db.history();
    let bindings: Vec<BindingWithPlan> = match db::list_bindings(db, agg.id) {
        Ok(bs) => bs,
        Err(_) => Vec::new(),
    };
    let ghost h1 = db.history();
    let mut views: Vec<BindingView> = Vec::new();
    let mut i: usize = 0;
    while i < bindings.len()
        invariant
            0 <= i <= bindings@.len(),
            views@.len() == i,
            forall|j: int| 0 <= j < i ==> shows_binding(bindings@[j], agg.token_threshold, #[trigger] views@[j]),
            forall|j: int| 0 <= j < bindings@.len() ==> stored_binding(#[trigger] bindings@[j]),
            forall|j: int| 0 <= j < i ==> shows_stored_binding(#[trigger] views@[j], agg.token_threshold),
        decreases bindings.len() - i,
    {
        views.push(binding_view(&bindings[i], agg.token_threshold));
        assert(stored_binding(bindings@[i as int]));
        assert(shows_binding(bindings@[i as int], agg.token_threshold, views@[i as int]));
        i = i + 1;
    }
    let stats = match db::aggregator_stats(db, agg.id) {
        Ok(s) => s,
        Err(_) => {
            proof {
                lemma_no_usage_stored();
            }
            UsageStats::zero()
        },
    };
    let ghost h2 = db.history();
    let current_plan_id = match peek_plan(db, &agg) {
        Ok(p) => p,
        Err(_) => None,
    };
    assert(db.history() =~= h0.push(h1.last()).push(h2.last()).push(db.history().last()));
    assert(db.history().take(h0.len() as int) =~= h0);
    let mut base_url = "http://127.0.0.1:".to_owned();
    let port = int_text(agg.port);
    base_url.append(port.as_str());
    let manual_current_plan_id = agg.current_plan_id;
    AggregatorView {
        aggregator: agg,
        running,
        base_url,
        bindings: views,
        stats,
        current_plan_id,
        manual_current_plan_id,
    }
}

/// Shows the aggregator with id `id`.
pub fn get_view(db: &mut Db, id: i64, running: bool) -> (r: Result<AggregatorView, String>)
    ensures
        changes(final(db).history()) == changes(old(db).history()),
        final(db).history().len() >= old(db).history().len(),
        final(db).history().take(old(db).history().len() as int) == old(db).history(),
        match r {
            Ok(v) => v.running == running && stored_aggregator(v.aggregator) && stored_usage(v.stats),
            Err(e) => is_db_error(e@) || e@ == NO_SUCH_AGGREGATOR@,
        },
{
    let ghost h0 = db.history();
    let found = db::get_aggregator(db, id);
    assert(db.history().take(h0.len() as int) =~= h0);
    match found {
        Ok(Some(agg)) => {
            let ghost h1 = db.history();
            let v = build_view(db, agg, running);
            assert(db.history().take(h0.len() as int) =~= h1.take(h0.len() as int));
            Ok(v)
        },
        Ok(None) => Err(NO_SUCH_AGGREGATOR.to_owned()),
        Err(e) => Err(db_error(e)),
    }
}

/// All aggregators as shown; those whose ids are in `running_ids` are serving.
pub fn list_aggregators(db: &mut Db, running_ids: &[i64]) -> (r: Result<Vec<AggregatorView>, String>)
    ensures
        changes(final(db).history()) == changes(old(db).history()),
        match r {
            Ok(vs) => forall|i: int| 0 <= i < vs@.len() ==> (#[trigger] vs@[i]).running
                == running_ids@.contains(vs@[i].aggregator.id) && stored_aggregator(vs@[i].aggregator),
            Err(e) => is_db_error(e@),
        },
{
    let aggs = match db::list_aggregators(db) {
        Ok(a) => a,
        Err(e) => return Err(db_error(e)),
    };
    let mut views: Vec<AggregatorView> = Vec::new();
    let mut aggs = aggs;
    while aggs.len() > 0
        invariant
            forall|i: int| 0 <= i < views@.len() ==> (#[trigger] views@[i]).running
                == running_ids@.contains(views@[i].aggregator.id) && stored_aggregator(views@[i].aggregator),
            forall|i: int| 0 <= i < aggs@.len() ==> stored_aggregator(#[trigger] aggs@[i]),
            changes(db.history()) == changes(old(db).history()),
        decreases aggs.len(),
    {
        assert(stored_aggregator(aggs@[0]));
        let agg = aggs.remove(0);
        let id = agg.id;
        let running = contains_id(running_ids, id);
        let v = build_view(db, agg, running);
        views.push(v);
    }
    Ok(views)
}

fn contains_id(ids: &[i64], id: i64) -> (r: bool)
    ensures
        r == ids@.contains(id),
{
    let mut i: usize = 0;
    while i < ids.len()
        invariant
            0 <= i <= ids@.len(),
            forall|j: int| 0 <= j < i ==> ids@[j] != id,
        decreases ids.len() - i,
    {
        if ids[i] == id {
            assert(ids@[i as int] == id);
            return true;
        }
        i = i + 1;
    }
    false
}


/// The threshold of a new aggregator: the given one (at least 1), else `DEFAULT_THRESHOLD`.
pub open spec fn new_threshold(token_threshold: Option<i64>) -> i64 {
    match token_threshold {
        Some(t) => if t < 1 { 1 } else { t },
        None => DEFAULT_THRESHOLD,
    }
}

/// The text of an optional string (none is the empty text).
pub open spec fn opt_chars(s: Option<String>) -> Seq<char> {
    match s {
        Some(t) => t@,
        None => Seq::empty(),
    }
}

fn opt_str(s: &Option<String>) -> (r: &str)
    ensures
        r@ == opt_chars(*s),
{
    proof {
        reveal_strlit("");
        assert(""@ =~= Seq::<char>::empty());
    }
    match s {
        Some(t) => t.as_str(),
        None => "",
    }
}

/// Why the settings of a new aggregator are refused before any port is looked at, if they are:
/// an empty (trimmed) name, then an unknown strategy.
pub open spec fn create_refusal(name: Seq<char>, strategy: Option<String>) -> Option<Seq<char>> {
    let s = trim(opt_chars(strategy));
    if trim(name).len() == 0 {
        Some(EMPTY_AGGREGATOR_NAME@)
    } else if s.len() != 0 && !db::known_strategy(s) {
        Some(UNKNOWN_STRATEGY@ + s)
    } else {
        None
    }
}

/// The strategy stored for a request asking for `strategy` (when it is accepted).
pub open spec fn stored_strategy(strategy: Option<String>) -> Seq<char> {
    let s = trim(opt_chars(strategy));
    if s.len() == 0 {
        db::STRATEGY_THRESHOLD_ROTATION@
    } else {
        s
    }
}

/// Creates an aggregator with a fresh token, not serving yet. Its port is the explicit one, or
/// the first free one of the automatic range, where `bindable` is the bind test of a port.
pub fn create_aggregator<F: Fn(i64) -> bool>(
    db: &mut Db,
    name: String,
    port: Option<i64>,
    token_threshold: Option<i64>,
    strategy: Option<String>,
    bindable: F,
) -> (r: Result<AggregatorView, String>)
    requires
        forall|p: i64| bindable.requires((p,)),
    ensures
        match create_refusal(name@, strategy) {
            Some(e) => r matches Err(m) && m@ == e,
            None => match r {
                Ok(v) => {
                    &&& v.aggregator.name@ == trim(name@)
                    &&& v.aggregator.token_threshold == new_threshold(token_threshold)
                    &&& v.aggregator.strategy@ == stored_strategy(strategy)
                    &&& is_token(v.aggregator.auth_token@)
                    &&& v.aggregator.current_plan_id is None
                    &&& !v.running
                    &&& match port {
                        Some(p) => v.aggregator.port == p && valid_port(p),
                        None => AUTO_PORT_FIRST <= v.aggregator.port <= AUTO_PORT_LAST
                            && bindable.ensures((v.aggregator.port,), true),
                    }
                },
                Err(e) => is_db_error(e@) || match port {
                    Some(p) => (!valid_port(p) && e@ == PORT_OUT_OF_RANGE@) || e@ == port_taken_message(p),
                    None => e@ == NO_FREE_PORT@,
                },
            },
        },
        r matches Err(e) && !is_db_error(e@) ==> changes(final(db).history()) == changes(old(db).history()),
        r matches Ok(v) ==> changes(final(db).history()) == changes(old(db).history()).push(
            db::new_aggregator_write(v.aggregator),
        ),
{
    let name = trim_text(name.as_str());
    if name.as_str().is_empty() {
        return Err(EMPTY_AGGREGATOR_NAME.to_owned());
    }
    let token_threshold = match token_threshold {
        Some(t) => if t < 1 { 1 } else { t },
        None => DEFAULT_THRESHOLD,
    };
    let strategy = resolve_strategy(Some(opt_str(&strategy)))?;
    let aggs = match db::list_aggregators(db) {
        Ok(a) => a,
        Err(e) => return Err(db_error(e)),
    };
    let mut taken: HashSet<i64> = HashSet::new();
    let mut i: usize = 0;
    while i < aggs.len()
        invariant
            0 <= i <= aggs@.len(),
        decreases aggs.len() - i,
    {
        taken.insert(aggs[i].port);
        i = i + 1;
    }
    let port = resolve_create_port(port, &taken, bindable)?;
    let token = generate_token();
    match db::create_aggregator(db, name.as_str(), port, token.as_str(), token_threshold, strategy.as_str()) {
        Ok(agg) => Ok(build_view(db, agg, false)),
        Err(e) => Err(db_error(e)),
    }
}

/// Why new settings of an aggregator are refused before it is looked up, if they are (in this
/// order): an empty (trimmed) name, an invalid port, a threshold below 1, an unknown strategy.
pub open spec fn update_refusal(name: Seq<char>, port: i64, token_threshold: i64, strategy: Option<String>) -> Option<Seq<char>> {
    let s = trim(opt_chars(strategy));
    if trim(name).len() == 0 {
        Some(EMPTY_AGGREGATOR_NAME@)
    } else if !valid_port(port) {
        Some(PORT_OUT_OF_RANGE@)
    } else if token_threshold < 1 {
        Some(BAD_THRESHOLD@)
    } else if s.len() != 0 && !db::known_strategy(s) {
        Some(UNKNOWN_STRATEGY@ + s)
    } else {
        None
    }
}

fn port_used_by_other(aggs: &Vec<Aggregator>, id: i64, port: i64) -> (r: bool)
    ensures
        r == exists|k: int| 0 <= k < aggs@.len() && (#[trigger] aggs@[k]).id != id && aggs@[k].port == port,
{
    let mut i: usize = 0;
    while i < aggs.len()
        invariant
            0 <= i <= aggs@.len(),
            forall|k: int| 0 <= k < i ==> !((#[trigger] aggs@[k]).id != id && aggs@[k].port == port),
        decreases aggs.len() - i,
    {
        if aggs[i].id != id && aggs[i].port == port {
            return true;
        }
        i = i + 1;
    }
    false
}

/// What updating aggregator `id` to `port` and `strategy` decides once its stored settings
/// `old` and all aggregators `aggs` are read: a port change while it serves is refused, then a
/// port another aggregator has; otherwise the update goes on, dropping the stored current plan
/// exactly when the strategy changes (`Ok(true)`).
pub open spec fn update_check(old: Aggregator, aggs: Seq<Aggregator>, id: i64, port: i64, running: bool, strategy: Seq<char>) -> Result<bool, Seq<char>> {
    if running && old.port != port {
        Err(PORT_CHANGE_WHILE_RUNNING@)
    } else if exists|k: int| 0 <= k < aggs.len() && (#[trigger] aggs[k]).id != id && aggs[k].port == port {
        Err(port_taken_message(port))
    } else {
        Ok(old.strategy@ != strategy)
    }
}

/// Decides [`update_check`].
pub fn update_decision(old: &Aggregator, aggs: &Vec<Aggregator>, id: i64, port: i64, running: bool, strategy: &String) -> (r: Result<bool, String>)
    ensures
        match r {
            Ok(b) => update_check(*old, aggs@, id, port, running, strategy@) == Ok::<bool, Seq<char>>(b),
            Err(e) => update_check(*old, aggs@, id, port, running, strategy@) == Err::<bool, Seq<char>>(e@),
        },
{
    if running && old.port != port {
        return Err(PORT_CHANGE_WHILE_RUNNING.to_owned());
    }
    if port_used_by_other(aggs, id, port) {
        return Err(port_taken(port));
    }
    Ok(!(old.strategy == *strategy))
}

/// Updates an aggregator's settings (effective for the next request). Its port cannot change
/// while it serves (`running`), nor be another aggregator's; switching strategy drops the
/// stored current plan, whose meaning differs between strategies.
pub fn update_aggregator(
    db: &mut Db,
    id: i64,
    name: String,
    port: i64,
    token_threshold: i64,
    strategy: Option<String>,
    running: bool,
) -> (r: Result<AggregatorView, String>)
    ensures
        match update_refusal(name@, port, token_threshold, strategy) {
            Some(e) => r matches Err(m) && m@ == e,
            None => match r {
                Ok(v) => v.running == running && stored_aggregator(v.aggregator),
                Err(e) => is_db_error(e@) || e@ == NO_SUCH_AGGREGATOR@ || (running
                    && e@ == PORT_CHANGE_WHILE_RUNNING@) || e@ == port_taken_message(port),
            },
        },
        r matches Err(e) && !is_db_error(e@) && e@ != NO_SUCH_AGGREGATOR@ ==> changes(final(db).history())
            == changes(old(db).history()),
        r matches Err(e) ==> (update_refusal(name@, port, token_threshold, strategy) is None && !is_db_error(e@)
            && e@ != NO_SUCH_AGGREGATOR@ ==> {
            let h = final(db).history();
            &&& e@ == PORT_CHANGE_WHILE_RUNNING@ ==> running && exists|prev: Aggregator|
                stored_aggregator(prev) && #[trigger] read_aggregator(h, h.len() - 1, id, prev) && prev.port != port
            &&& e@ == port_taken_message(port) ==> exists|aggs: Seq<Aggregator>|
                #[trigger] read_aggregators(h, h.len() - 1, aggs) && port_used_by(aggs, id, port)
        }),
        r is Ok ==> exists|k: int, aggs: Seq<Aggregator>|
            old(db).history().len() <= k && #[trigger] read_aggregators(final(db).history(), k, aggs)
                && !port_used_by(aggs, id, port),
        r is Ok ==> exists|prev: Aggregator, k: int|
            stored_aggregator(prev) && !(running && prev.port != port) && #[trigger] read_aggregator(
                final(db).history(),
                k,
                id,
                prev,
            ) && old(db).history().len() <= k && changes(final(db).history()) == changes(old(db).history())
                + (if prev.strategy@ != stored_strategy(strategy) {
                seq![db::clear_current_write(id)]
            } else {
                Seq::empty()
            }).push(db::update_aggregator_write(id, trim(name@), port, token_threshold, stored_strategy(strategy))),
{
    let ghost name_in = name@;
    let ghost strategy_in = strategy;
    let name = trim_text(name.as_str());
    if name.as_str().is_empty() {
        return Err(EMPTY_AGGREGATOR_NAME.to_owned());
    }
    if !(1 <= port && port <= 65535) {
        return Err(PORT_OUT_OF_RANGE.to_owned());
    }
    if token_threshold < 1 {
        return Err(BAD_THRESHOLD.to_owned());
    }
    let strategy = resolve_strategy(Some(opt_str(&strategy)))?;
    let prev = match db::get_aggregator(db, id) {
        Ok(Some(a)) => a,
        Ok(None) => return Err(NO_SUCH_AGGREGATOR.to_owned()),
        Err(e) => return Err(db_error(e)),
    };
    let ghost hp = db.history();
    let ghost k = hp.len() - 1;
    assert(read_aggregator(hp, k, id, prev));
    if running && prev.port != port {
        proof {
            lemma_port_messages_differ(port);
        }
        return Err(PORT_CHANGE_WHILE_RUNNING.to_owned());
    }
    let aggs = match db::list_aggregators(db) {
        Ok(a) => a,
        Err(e) => return Err(db_error(e)),
    };
    let ghost hl = db.history();
    let ghost kl = hl.len() - 1;
    assert(read_aggregators(hl, kl, aggs@));
    let drop_current = match update_decision(&prev, &aggs, id, port, running, &strategy) {
        Ok(b) => b,
        Err(e) => {
            proof {
                lemma_port_messages_differ(port);
                assert(e@ == port_taken_message(port));
                assert(port_used_by(aggs@, id, port));
            }
            return Err(e);
        },
    };
    assert(!port_used_by(aggs@, id, port));
    let ghost h0 = db.history();
    if drop_current {
        if let Err(e) = db::clear_current_plan(db, id) {
            return Err(db_error(e));
        }
    }
    let ghost h1 = db.history();
    assert(h1.len() >= hp.len() && h1.take(hp.len() as int) =~= hp);
    if let Err(e) = db::update_aggregator(db, id, name.as_str(), port, token_threshold, strategy.as_str()) {
        return Err(db_error(e));
    }
    let ghost h2 = db.history();
    assert(h2.take(hp.len() as int) =~= hp);
    let r = get_view(db, id, running);
    proof {
        assert(db.history().take(hp.len() as int) =~= hp);
        assert(db.history()[k] == hp[k]);
        assert(read_aggregator(db.history(), k, id, prev));
        assert(h1.len() >= hl.len() && h1.take(hl.len() as int) =~= hl);
        assert(h2.take(hl.len() as int) =~= hl);
        assert(db.history().take(hl.len() as int) =~= hl);
        assert(db.history()[kl] == hl[kl]);
        assert(read_aggregators(db.history(), kl, aggs@));
        let clear: Seq<Sent> = if prev.strategy@ != stored_strategy(strategy_in) {
            seq![db::clear_current_write(id)]
        } else {
            Seq::empty()
        };
        assert(changes(db.history()) =~= changes(old(db).history()) + clear.push(
            db::update_aggregator_write(id, trim(name_in), port, token_threshold, stored_strategy(strategy_in)),
        ));
    }
    r
}

/// `h[k]` read all aggregators, whose stored settings are `aggs`.
pub open spec fn read_aggregators(h: Seq<Sent>, k: int, aggs: Seq<Aggregator>) -> bool {
    &&& 0 <= k < h.len()
    &&& h[k].query && h[k].sql == db::LIST_AGGREGATORS_SQL@ && h[k].args == Seq::<Param>::empty()
    &&& db::aggregators_in(h[k].rows, aggs)
}

/// Some aggregator of `aggs` other than `id` has the port `port`.
pub open spec fn port_used_by(aggs: Seq<Aggregator>, id: i64, port: i64) -> bool {
    exists|k: int| 0 <= k < aggs.len() && (#[trigger] aggs[k]).id != id && aggs[k].port == port
}

/// The refusal of a taken port never reads as the refusal of a port change while serving.
pub proof fn lemma_port_messages_differ(port: i64)
    ensures
        port_taken_message(port) != PORT_CHANGE_WHILE_RUNNING@,
{
    reveal_strlit("端口 ");
    reveal_strlit("服务运行中不能修改端口，请先停止服务");
    assert(port_taken_message(port)[0] == '端');
    assert(PORT_CHANGE_WHILE_RUNNING@[0] == '服');
}

/// `h[k]` read the aggregator `id`, whose stored settings are `a`.
pub open spec fn read_aggregator(h: Seq<Sent>, k: int, id: i64, a: Aggregator) -> bool {
    &&& 0 <= k < h.len()
    &&& h[k].query && h[k].sql == db::GET_AGGREGATOR_SQL@ && h[k].args == seq![Param::Int(id)]
    &&& h[k].rows.len() > 0 && db::aggregator_row(h[k].rows[0], a)
}

/// The message refusing a plan that is not bound to the aggregator.
pub open spec fn plan_not_bound_message(plan_id: i64) -> Seq<char> {
    "计划 "@ + int_chars(plan_id as int) + " 未绑定到该聚合器"@
}

/// The message refusing a plan that does not exist.
pub open spec fn plan_missing_message(plan_id: i64) -> Seq<char> {
    "计划 "@ + int_chars(plan_id as int) + " 不存在"@
}

fn plan_message(plan_id: i64, tail: &str) -> (r: String)
    ensures
        r@ == "计划 "@ + int_chars(plan_id as int) + tail@,
{
    let mut out = "计划 ".to_owned();
    let n = int_text(plan_id);
    out.append(n.as_str());
    out.append(tail);
    out
}

/// The binding's plan has id `plan_id`.
pub open spec fn bound_to(plan_id: i64) -> spec_fn(BindingWithPlan) -> bool {
    |b: BindingWithPlan| b.plan.id == plan_id
}

/// Why plan `plan_id` cannot become the current plan over the bindings `bs`, if it cannot: it
/// is not bound, or its (first) binding's plan is disabled.
pub open spec fn current_plan_refusal(bs: Seq<BindingWithPlan>, plan_id: i64) -> Option<Seq<char>> {
    match first_where(bs, bound_to(plan_id)) {
        None => Some(plan_not_bound_message(plan_id)),
        Some(k) => if bs[k].plan.enabled {
            None
        } else {
            Some(DISABLED_CURRENT_PLAN@)
        },
    }
}

/// Decides [`current_plan_refusal`].
pub fn current_plan_check(bs: &Vec<BindingWithPlan>, plan_id: i64) -> (r: Result<(), String>)
    ensures
        match current_plan_refusal(bs@, plan_id) {
            Some(e) => r matches Err(m) && m@ == e,
            None => r is Ok,
        },
{
    let mut i: usize = 0;
    while i < bs.len()
        invariant
            0 <= i <= bs@.len(),
            forall|j: int| 0 <= j < i ==> !bound_to(plan_id)(#[trigger] bs@[j]),
        decreases bs.len() - i,
    {
        if bs[i].plan.id == plan_id {
            proof {
                assert(is_first_where(bs@, bound_to(plan_id), i as int));
                lemma_first_where_unique(bs@, bound_to(plan_id), i as int);
            }
            if !bs[i].plan.enabled {
                return Err(DISABLED_CURRENT_PLAN.to_owned());
            }
            return Ok(());
        }
        i = i + 1;
    }
    proof {
        lemma_first_where_none(bs@, bound_to(plan_id));
    }
    Err(plan_message(plan_id, " 未绑定到该聚合器"))
}

/// `q` read the bindings of `aggregator_id`, and they allow `plan_id` as its current plan.
pub open spec fn bindings_allow(q: Sent, aggregator_id: i64, plan_id: i64) -> bool {
    &&& q.query && q.sql == db::LIST_BINDINGS_SQL@ && q.args == seq![Param::Int(aggregator_id)]
    &&& exists|bs: Seq<BindingWithPlan>|
        (forall|j: int| 0 <= j < bs.len() ==> stored_binding(#[trigger] bs[j]))
        && db::bindings_in(q.rows, bs) && #[trigger] current_plan_refusal(bs, plan_id) is None
}

/// Stores (or, for `None`, drops) the aggregator's current plan, which must be bound to it and
/// enabled: under threshold rotation it pins the plan until it is exhausted or disabled; under
/// model match it is the sticky target.
pub fn set_current_plan(db: &mut Db, aggregator_id: i64, plan_id: Option<i64>, running: bool) -> (r:
    Result<AggregatorView, String>)
    ensures
        match r {
            Ok(v) => v.running == running && stored_aggregator(v.aggregator),
            Err(e) => is_db_error(e@) || e@ == NO_SUCH_AGGREGATOR@ || match plan_id {
                Some(pid) => e@ == plan_not_bound_message(pid) || e@ == DISABLED_CURRENT_PLAN@,
                None => false,
            },
        },
        match plan_id {
            Some(pid) => {
                &&& r is Ok ==> changes(final(db).history()) == changes(old(db).history()).push(
                    db::set_current_write(aggregator_id, pid),
                )
                &&& r is Ok ==> exists|k: int|
                    old(db).history().len() <= k && k + 1 < final(db).history().len()
                        && #[trigger] final(db).history()[k + 1] == db::set_current_write(aggregator_id, pid)
                        && bindings_allow(final(db).history()[k], aggregator_id, pid)
                &&& r matches Err(e) ==> (!is_db_error(e@) && e@ != NO_SUCH_AGGREGATOR@ ==> (changes(
                    final(db).history(),
                ) == changes(old(db).history()) && exists|bs: Seq<BindingWithPlan>|
                    (forall|j: int| 0 <= j < bs.len() ==> stored_binding(#[trigger] bs[j]))
                    && db::bindings_in(final(db).history().last().rows, bs)
                    && final(db).history().last().sql == db::LIST_BINDINGS_SQL@
                    && final(db).history().last().args == seq![Param::Int(aggregator_id)]
                    && #[trigger] current_plan_refusal(bs, pid) == Some(e@)))
            },
            None => r is Ok ==> changes(final(db).history()) == changes(old(db).history()).push(
                db::clear_current_write(aggregator_id),
            ),
        },
{
    match db::get_aggregator(db, aggregator_id) {
        Ok(Some(_)) => {},
        Ok(None) => return Err(NO_SUCH_AGGREGATOR.to_owned()),
        Err(e) => return Err(db_error(e)),
    }
    let ghost mut k: int = 0;
    let ghost mut hs: Seq<Sent> = Seq::empty();
    let updated = match plan_id {
        Some(pid) => {
            let bindings = match db::list_bindings(db, aggregator_id) {
                Ok(bs) => bs,
                Err(e) => return Err(db_error(e)),
            };
            let checked = current_plan_check(&bindings, pid);
            if let Err(e) = checked {
                assert(current_plan_refusal(bindings@, pid) == Some(e@));
                return Err(e);
            }
            assert(current_plan_refusal(bindings@, pid) is None);
            let ghost hq = db.history();
            assert(bindings_allow(hq.last(), aggregator_id, pid));
            let b = match db::set_current_plan(db, aggregator_id, pid) {
                Ok(b) => b,
                Err(e) => return Err(db_error(e)),
            };
            proof {
                k = hq.len() - 1;
                hs = db.history();
                assert(hs[k] == hq.last());
                assert(0 <= k && k + 1 < hs.len() && hs[k + 1] == db::set_current_write(aggregator_id, pid));
                assert(bindings_allow(hs[k], aggregator_id, pid));
            }
            b
        },
        None => match db::clear_current_plan(db, aggregator_id) {
            Ok(b) => b,
            Err(e) => return Err(db_error(e)),
        },
    };
    if !updated {
        return Err(NO_SUCH_AGGREGATOR.to_owned());
    }
    let ghost hw = db.history();
    let r = get_view(db, aggregator_id, running);
    proof {
        if plan_id is Some {
            assert(hw == hs);
            assert(0 <= k && k + 1 < hw.len());
            assert(db.history().take(hw.len() as int)[k] == hw[k]);
            assert(db.history().take(hw.len() as int)[k + 1] == hw[k + 1]);
            assert(db.history()[k + 1] == db::set_current_write(aggregator_id, plan_id->0));
            assert(bindings_allow(db.history()[k], aggregator_id, plan_id->0));
        }
    }
    r
}

/// Deletes an aggregator (its server stopped first) and its bindings.
pub fn delete_aggregator(db: &mut Db, id: i64) -> (r: Result<(), String>)
    ensures
        r matches Err(e) ==> (is_db_error(e@) || e@ == NO_SUCH_AGGREGATOR@),
        r is Ok ==> final(db).history() == old(db).history() + seq![
            change(db::UNBIND_AGGREGATOR_SQL@, seq![Param::Int(id)]),
            change(db::DELETE_AGGREGATOR_SQL@, seq![Param::Int(id)]),
        ],
{
    match db::delete_aggregator(db, id) {
        Ok(0) => Err(NO_SUCH_AGGREGATOR.to_owned()),
        Ok(_) => Ok(()),
        Err(e) => Err(db_error(e)),
    }
}

/// Binds the aggregator to `plan_ids` (all of which must exist), in that rotation order,
/// repeats dropped; plans that stay bound keep their usage.
pub fn set_aggregator_plans(db: &mut Db, aggregator_id: i64, plan_ids: Vec<i64>, running: bool) -> (r:
    Result<AggregatorView, String>)
    ensures
        match r {
            Ok(v) => v.running == running && stored_aggregator(v.aggregator),
            Err(e) => is_db_error(e@) || e@ == NO_SUCH_AGGREGATOR@ || exists|k: int|
                0 <= k < plan_ids@.len() && e@ == plan_missing_message(#[trigger] plan_ids@[k]),
        },
        r matches Err(e) && !is_db_error(e@) && e@ != NO_SUCH_AGGREGATOR@ ==> changes(final(db).history())
            == changes(old(db).history()),
        r is Ok ==> exists|k: int|
            old(db).history().len() <= k < final(db).history().len() && #[trigger] final(db).history()[k].query
                && final(db).history()[k].sql == db::BOUND_USAGE_SQL@ && final(db).history()[k].args
                == seq![Param::Int(aggregator_id)] && changes(final(db).history()) == changes(
                old(db).history(),
            ) + seq![change(db::UNBIND_AGGREGATOR_SQL@, seq![Param::Int(aggregator_id)])]
                + db::binding_inserts(
                aggregator_id,
                db::usage_pairs(final(db).history()[k].rows),
                first_occurrences(plan_ids@),
            ),
{
    let ghost asked = plan_ids@;
    match db::get_aggregator(db, aggregator_id) {
        Ok(Some(_)) => {},
        Ok(None) => return Err(NO_SUCH_AGGREGATOR.to_owned()),
        Err(e) => return Err(db_error(e)),
    }
    let mut i: usize = 0;
    while i < plan_ids.len()
        invariant
            0 <= i <= plan_ids@.len(),
            changes(db.history()) == changes(old(db).history()),
            db.history().len() >= old(db).history().len(),
        decreases plan_ids.len() - i,
    {
        let pid = plan_ids[i];
        match db::get_plan(db, pid) {
            Ok(Some(_)) => {},
            Ok(None) => {
                let m = plan_message(pid, " 不存在");
                assert(m@ == plan_missing_message(plan_ids@[i as int]));
                return Err(m);
            },
            Err(e) => return Err(db_error(e)),
        }
        i = i + 1;
    }
    let plan_ids = dedup_keep_order(plan_ids);
    let ghost h0 = db.history();
    if let Err(e) = db::set_aggregator_plans(db, aggregator_id, plan_ids.as_slice()) {
        return Err(db_error(e));
    }
    let ghost h1 = db.history();
    let ghost k = h0.len() as int;
    let ghost kept = db::usage_pairs(h1[k].rows);
    assert(k < h1.len() && h1.take(k + 1)[k] == h1[k]);
    assert(h1.take(k + 1).last() == h1[k]);
    assert(h1[k].query && h1[k].sql == db::BOUND_USAGE_SQL@ && h1[k].args == seq![Param::Int(aggregator_id)]);
    let r = get_view(db, aggregator_id, running);
    proof {
        assert(db.history().take(h1.len() as int) =~= h1);
        assert(db.history()[k] == h1[k]);
        assert(old(db).history().len() <= k);
        assert(changes(db.history()) == changes(old(db).history()) + seq![
            change(db::UNBIND_AGGREGATOR_SQL@, seq![Param::Int(aggregator_id)]),
        ] + db::binding_inserts(aggregator_id, kept, first_occurrences(asked)));
    }
    r
}

/// Resets the usage of all bindings of the aggregator.
pub fn reset_aggregator_usage(db: &mut Db, aggregator_id: i64, running: bool) -> (r: Result<
    AggregatorView,
    String,
>)
    ensures
        match r {
            Ok(v) => v.running == running && stored_aggregator(v.aggregator),
            Err(e) => is_db_error(e@) || e@ == NO_SUCH_AGGREGATOR@,
        },
        r is Ok ==> changes(final(db).history()) == changes(old(db).history()).push(
            db::reset_usage_write(aggregator_id),
        ),
{
    if let Err(e) = db::reset_binding_usage(db, aggregator_id) {
        return Err(db_error(e));
    }
    get_view(db, aggregator_id, running)
}

} // verus!
