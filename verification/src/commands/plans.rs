use vstd::prelude::*;
use crate::json::json_string_list;
use crate::sqlite::{change, changes, Db, Param};

use crate::commands::errors::{db_error, is_db_error};
use crate::db::{self, lemma_no_usage_stored, stored_plan, stored_usage, CodingPlan, UsageStats};
use crate::text::{chars_of, has_prefix, starts_with, trim, trim_text};

verus! {

/// A plan with the usage of all messages forwarded to it.
pub struct PlanView {
    pub plan: CodingPlan,
    pub stats: UsageStats,
}

/// Message of a refused empty plan name.
pub const EMPTY_PLAN_NAME: &'static str = "计划名称不能为空";

/// Message of a refused base URL.
pub const BAD_BASE_URL: &'static str = "BASE_URL 必须以 http:// 或 https:// 开头";

/// Message of a refused empty plan token.
pub const EMPTY_PLAN_TOKEN: &'static str = "AUTH_TOKEN 不能为空";

/// Message of an operation on a plan that does not exist.
pub const NO_SUCH_PLAN: &'static str = "计划不存在";

/// Why plan settings are refused (checked on the trimmed texts, in this order), if they are:
/// an empty name, a base URL that is not `http://` or `https://`, and, when `token_required`,
/// an empty token.
pub open spec fn plan_input_error(name: Seq<char>, base_url: Seq<char>, auth_token: Seq<char>, token_required: bool) -> Option<Seq<char>> {
    if trim(name).len() == 0 {
        Some(EMPTY_PLAN_NAME@)
    } else if !(starts_with(trim(base_url), "http://"@) || starts_with(trim(base_url), "https://"@)) {
        Some(BAD_BASE_URL@)
    } else if token_required && trim(auth_token).len() == 0 {
        Some(EMPTY_PLAN_TOKEN@)
    } else {
        None
    }
}

/// Checks plan settings; the trimmed name, base URL and token when they are accepted.
pub fn check_plan_input(name: &str, base_url: &str, auth_token: &str, token_required: bool) -> (r: Result<
    (String, String, String),
    String,
>)
    ensures
        match r {
            Ok((n, b, t)) => plan_input_error(name@, base_url@, auth_token@, token_required) is None
                && n@ == trim(name@) && b@ == trim(base_url@) && t@ == trim(auth_token@),
            Err(e) => plan_input_error(name@, base_url@, auth_token@, token_required) == Some(e@),
        },
{
    let name = trim_text(name);
    let base_url = trim_text(base_url);
    let auth_token = trim_text(auth_token);
    if name.as_str().is_empty() {
        return Err(EMPTY_PLAN_NAME.to_owned());
    }
    let url = chars_of(base_url.as_str());
    let http = chars_of("http://");
    let https = chars_of("https://");
    if !has_prefix(url.as_slice(), http.as_slice()) && !has_prefix(url.as_slice(), https.as_slice()) {
        return Err(BAD_BASE_URL.to_owned());
    }
    if token_required && auth_token.as_str().is_empty() {
        return Err(EMPTY_PLAN_TOKEN.to_owned());
    }
    Ok((name, base_url, auth_token))
}

/// All plans with their usage (a plan whose usage cannot be read shows none).
pub fn list_plans(db: &mut Db) -> (r: Result<Vec<PlanView>, String>)
    ensures
        r matches Err(e) ==> is_db_error(e@),
        r matches Ok(vs) ==> forall|j: int|
            0 <= j < vs@.len() ==> stored_plan((#[trigger] vs@[j]).plan) && stored_usage(vs@[j].stats),
        changes(final(db).history()) == changes(old(db).history()),
{
    let plans = match db::list_plans(db) {
        Ok(p) => p,
        Err(e) => return Err(db_error(e)),
    };
    let mut views: Vec<PlanView> = Vec::new();
    let mut i: usize = 0;
    while i < plans.len()
        invariant
            0 <= i <= plans@.len(),
            views@.len() == i,
            forall|j: int| 0 <= j < i ==> (#[trigger] views@[j]).plan.same_as(plans@[j]),
            forall|j: int| 0 <= j < plans@.len() ==> stored_plan(#[trigger] plans@[j]),
            forall|j: int|
                0 <= j < i ==> stored_plan((#[trigger] views@[j]).plan) && stored_usage(views@[j].stats),
            changes(db.history()) == changes(old(db).history()),
        decreases plans.len() - i,
    {
        let plan = plans[i].duplicate();
        proof {
            assert(stored_plan(plans@[i as int]));
            let row = choose|row: Seq<crate::sqlite::SqlValue>|
                crate::sqlite::row_fits(row, db::plan_kind_seq()) && #[trigger] db::plan_row(row, 0, plans@[i as int]);
            assert(db::plan_row(row, 0, plan));
        }
        let stats = match db::plan_stats(db, plan.id) {
            Ok(s) => s,
            Err(_) => {
                proof {
                    lemma_no_usage_stored();
                }
                UsageStats::zero()
            },
        };
        views.push(PlanView { plan, stats });
        i = i + 1;
    }
    Ok(views)
}

/// Creates an enabled plan from trimmed settings (remark default empty, no models by
/// default).
pub fn create_plan(
    db: &mut Db,
    name: String,
    base_url: String,
    auth_token: String,
    remark: Option<String>,
    models: Option<Vec<String>>,
) -> (r: Result<CodingPlan, String>)
    ensures
        match plan_input_error(name@, base_url@, auth_token@, true) {
            Some(e) => r matches Err(m) && m@ == e,
            None => match r {
                Ok(p) => p.name@ == trim(name@) && p.base_url@ == trim(base_url@) && p.auth_token@
                    == trim(auth_token@) && p.enabled && p.remark@ == (match remark {
                    Some(t) => t@,
                    None => Seq::empty(),
                }) && p.models@ == (match models {
                    Some(m) => m@,
                    None => Seq::empty(),
                }),
                Err(e) => is_db_error(e@),
            },
        },
        plan_input_error(name@, base_url@, auth_token@, true) is Some ==> final(db).history() == old(db).history(),
        r matches Ok(p) ==> final(db).history() == old(db).history().push(change(
            db::INSERT_PLAN_SQL@,
            seq![
                Param::Text(trim(name@)),
                Param::Text(trim(base_url@)),
                Param::Text(trim(auth_token@)),
                Param::Text(p.remark@),
                Param::Text(p.created_at@),
                Param::Text(json_string_list(p.models@)),
            ],
        )),
{
    let (name, base_url, auth_token) = check_plan_input(name.as_str(), base_url.as_str(), auth_token.as_str(), true)?;
    let remark = match remark {
        Some(t) => t,
        None => String::new(),
    };
    let models = match models {
        Some(m) => m,
        None => Vec::new(),
    };
    match db::create_plan(db, name.as_str(), base_url.as_str(), auth_token.as_str(), remark.as_str(), models.as_slice()) {
        Ok(p) => Ok(p),
        Err(e) => Err(db_error(e)),
    }
}

/// Updates a plan from trimmed settings; whether it is enabled and its models stay as they
/// were unless given.
pub fn update_plan(
    db: &mut Db,
    id: i64,
    name: String,
    base_url: String,
    auth_token: String,
    remark: Option<String>,
    enabled: Option<bool>,
    models: Option<Vec<String>>,
) -> (r: Result<CodingPlan, String>)
    ensures
        match plan_input_error(name@, base_url@, auth_token@, false) {
            Some(e) => r matches Err(m) && m@ == e,
            None => r matches Err(e) ==> (is_db_error(e@) || e@ == NO_SUCH_PLAN@),
        },
        r matches Ok(p) ==> stored_plan(p),
        plan_input_error(name@, base_url@, auth_token@, false) is Some ==> final(db).history() == old(db).history(),
        r is Ok ==> exists|prev: CodingPlan|
            stored_plan(prev) && #[trigger] changes(final(db).history()) == changes(old(db).history()).push(
                db::update_plan_write(
                    id,
                    trim(name@),
                    trim(base_url@),
                    trim(auth_token@),
                    match remark {
                        Some(t) => t@,
                        None => Seq::empty(),
                    },
                    match enabled {
                        Some(b) => b,
                        None => prev.enabled,
                    },
                    match models {
                        Some(m) => m@,
                        None => prev.models@,
                    },
                ),
            ),
{
    let (name, base_url, auth_token) = check_plan_input(name.as_str(), base_url.as_str(), auth_token.as_str(), false)?;
    let existing = match db::get_plan(db, id) {
        Ok(Some(p)) => p,
        Ok(None) => return Err(NO_SUCH_PLAN.to_owned()),
        Err(e) => return Err(db_error(e)),
    };
    let enabled = match enabled {
        Some(b) => b,
        None => existing.enabled,
    };
    let models = match models {
        Some(m) => m,
        None => existing.models,
    };
    let remark = match remark {
        Some(t) => t,
        None => String::new(),
    };
    match db::update_plan(
        db,
        id,
        name.as_str(),
        base_url.as_str(),
        auth_token.as_str(),
        remark.as_str(),
        enabled,
        models.as_slice(),
    ) {
        Ok(Some(p)) => Ok(p),
        Ok(None) => Err(NO_SUCH_PLAN.to_owned()),
        Err(e) => Err(db_error(e)),
    }
}

/// Deletes a plan (unbinding it everywhere).
pub fn delete_plan(db: &mut Db, id: i64) -> (r: Result<(), String>)
    ensures
        r matches Err(e) ==> (is_db_error(e@) || e@ == NO_SUCH_PLAN@),
        r is Ok ==> final(db).history() == old(db).history() + seq![
            change(db::UNBIND_PLAN_SQL@, seq![Param::Int(id)]),
            change(db::DELETE_PLAN_SQL@, seq![Param::Int(id)]),
        ],
{
    match db::delete_plan(db, id) {
        Ok(0) => Err(NO_SUCH_PLAN.to_owned()),
        Ok(_) => Ok(()),
        Err(e) => Err(db_error(e)),
    }
}

} // verus!
