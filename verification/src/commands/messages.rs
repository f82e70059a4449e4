use vstd::prelude::*;
use crate::sqlite::{change, changes, one_query, Db, Param};

use crate::clock::local_date_days_ago;
use crate::commands::errors::{db_error, is_db_error};
use crate::db::{self, stored_bucket, stored_message, stored_summary, stored_usage, MessageRow, MessageSummary, StatsBucket, TripStats, UsageStats};

verus! {

/// One page of messages.
pub struct MessagePage {
    /// Number of messages in all pages.
    pub total: i64,
    /// The page number (from 1).
    pub page: i64,
    pub page_size: i64,
    pub items: Vec<MessageSummary>,
}

/// Message of a lookup of a message that does not exist.
pub const NO_SUCH_MESSAGE: &'static str = "消息不存在";

/// Page size when none is asked for.
pub const DEFAULT_PAGE_SIZE: i64 = 20;

/// Largest page size.
pub const MAX_PAGE_SIZE: i64 = 200;

/// Days covered by the daily statistic when none are asked for.
pub const DEFAULT_DAYS: i64 = 30;

/// Most days covered by the daily statistic.
pub const MAX_DAYS: i64 = 365;

/// `v` clamped into `lo..=hi`.
pub open spec fn clamped(v: i64, lo: i64, hi: i64) -> i64 {
    if v < lo {
        lo
    } else if v > hi {
        hi
    } else {
        v
    }
}

/// The page asked for (from 1; the first by default).
pub open spec fn page_number(page: Option<i64>) -> i64 {
    match page {
        Some(p) => if p < 1 { 1 } else { p },
        None => 1,
    }
}

/// The page size asked for, within `1..=MAX_PAGE_SIZE` (`DEFAULT_PAGE_SIZE` by default).
pub open spec fn page_size_of(page_size: Option<i64>) -> i64 {
    match page_size {
        Some(s) => clamped(s, 1, MAX_PAGE_SIZE),
        None => DEFAULT_PAGE_SIZE,
    }
}

/// The page's first message counted from the newest (what `(page - 1) * page_size` gives).
pub open spec fn page_offset(page: Option<i64>, page_size: Option<i64>) -> int {
    (page_number(page) - 1) * page_size_of(page_size)
}

/// The paging of a listing: page, page size and offset.
pub fn paging(page: Option<i64>, page_size: Option<i64>) -> (r: (i64, i64, i64))
    requires
        page_offset(page, page_size) <= i64::MAX,
    ensures
        r.0 == page_number(page) && r.1 == page_size_of(page_size) && r.2 == page_offset(page, page_size),
{
    let page = match page {
        Some(p) => if p < 1 { 1 } else { p },
        None => 1,
    };
    let size = match page_size {
        Some(s) => if s < 1 { 1 } else if s > MAX_PAGE_SIZE { MAX_PAGE_SIZE } else { s },
        None => DEFAULT_PAGE_SIZE,
    };
    assert(0 <= (page - 1) * size) by (nonlinear_arith)
        requires
            page >= 1,
            size >= 1,
    ;
    let offset = (page - 1) * size;
    (page, size, offset)
}

/// Whether the offset of the page asked for fits in an `i64` (a listing needs it).
pub fn paging_fits(page: Option<i64>, page_size: Option<i64>) -> (r: bool)
    ensures
        r == (page_offset(page, page_size) <= i64::MAX),
{
    let page = match page {
        Some(p) => if p < 1 { 1 } else { p },
        None => 1,
    };
    let size = match page_size {
        Some(s) => if s < 1 { 1 } else if s > MAX_PAGE_SIZE { MAX_PAGE_SIZE } else { s },
        None => DEFAULT_PAGE_SIZE,
    };
    let q = i64::MAX / size;
    proof {
        let a = (page - 1) as int;
        let b = size as int;
        assert(a <= q ==> a * b <= i64::MAX) by (nonlinear_arith)
            requires
                b >= 1,
                q == (i64::MAX as int) / b,
                a >= 0,
        ;
        assert(a > q ==> a * b > i64::MAX) by (nonlinear_arith)
            requires
                b >= 1,
                q == (i64::MAX as int) / b,
                a >= 0,
        ;
    }
    (page - 1) <= q
}

/// One page of messages (newest first), optionally of one aggregator.
pub fn list_messages(db: &mut Db, aggregator_id: Option<i64>, page: Option<i64>, page_size: Option<i64>) -> (r:
    Result<MessagePage, String>)
    requires
        page_offset(page, page_size) <= i64::MAX,
    ensures
        match r {
            Ok(p) => p.page == page_number(page) && p.page_size == page_size_of(page_size)
                && forall|j: int| 0 <= j < p.items@.len() ==> stored_summary(#[trigger] p.items@[j]),
            Err(e) => is_db_error(e@),
        },
        changes(final(db).history()) == changes(old(db).history()),
        r matches Ok(p) ==> final(db).history().take(old(db).history().len() as int) == old(db).history()
            && db::page_read(
            final(db).history(),
            old(db).history().len() as int,
            aggregator_id,
            page_size_of(page_size),
            page_offset(page, page_size) as i64,
            p.total,
            p.items@,
        ),
{
    let (page, page_size, offset) = paging(page, page_size);
    match db::list_messages(db, aggregator_id, page_size, offset) {
        Ok((total, items)) => Ok(MessagePage { total, page, page_size, items }),
        Err(e) => Err(db_error(e)),
    }
}

/// A message with its bodies.
pub fn get_message(db: &mut Db, id: i64) -> (r: Result<MessageRow, String>)
    ensures
        r matches Ok(m) ==> stored_message(m),
        r matches Err(e) ==> (is_db_error(e@) || e@ == NO_SUCH_MESSAGE@),
        one_query(old(db).history(), final(db).history(), db::GET_MESSAGE_SQL@, seq![Param::Int(id)]),
        r matches Ok(m) ==> final(db).history().last().rows.len() > 0 && db::message_row(
            final(db).history().last().rows[0],
            m,
        ),
        r matches Err(e) && !is_db_error(e@) ==> final(db).history().last().rows.len() == 0,
{
    match db::get_message(db, id) {
        Ok(Some(m)) => Ok(m),
        Ok(None) => Err(NO_SUCH_MESSAGE.to_owned()),
        Err(e) => Err(db_error(e)),
    }
}

/// Deletes the messages of one aggregator, or all; how many were deleted.
pub fn clear_messages(db: &mut Db, aggregator_id: Option<i64>) -> (r: Result<usize, String>)
    ensures
        r matches Err(e) ==> is_db_error(e@),
        final(db).history() == old(db).history().push(
            match aggregator_id {
                Some(id) => change(db::CLEAR_AGGREGATOR_MESSAGES_SQL@, seq![Param::Int(id)]),
                None => change(db::CLEAR_ALL_MESSAGES_SQL@, Seq::empty()),
            },
        ),
{
    match db::clear_messages(db, aggregator_id) {
        Ok(n) => Ok(n),
        Err(e) => Err(db_error(e)),
    }
}

/// Usage of all messages.
pub fn global_stats(db: &mut Db) -> (r: Result<UsageStats, String>)
    ensures
        r matches Ok(u) ==> stored_usage(u),
        r matches Err(e) ==> is_db_error(e@),
        changes(final(db).history()) == changes(old(db).history()),
        one_query(old(db).history(), final(db).history(), db::stats_sql(db::NO_FILTER@), Seq::empty()),
        r matches Ok(u) ==> db::usage_in(final(db).history().last().rows, u),
{
    match db::global_stats(db) {
        Ok(s) => Ok(s),
        Err(e) => Err(db_error(e)),
    }
}

/// The days covered by the daily statistic: `DEFAULT_DAYS` by default, within `1..=MAX_DAYS`.
pub open spec fn days_of(days: Option<i64>) -> i64 {
    match days {
        Some(d) => clamped(d, 1, MAX_DAYS),
        None => DEFAULT_DAYS,
    }
}

fn days_exec(days: Option<i64>) -> (r: i64)
    ensures
        r == days_of(days),
{
    match days {
        Some(d) => if d < 1 { 1 } else if d > MAX_DAYS { MAX_DAYS } else { d },
        None => DEFAULT_DAYS,
    }
}

/// Usage per day over the last days (see [`days_of`]), oldest first.
pub fn daily_stats(db: &mut Db, aggregator_id: Option<i64>, days: Option<i64>) -> (r: Result<
    Vec<StatsBucket>,
    String,
>)
    ensures
        r matches Ok(v) ==> forall|k: int| 0 <= k < v@.len() ==> stored_bucket(#[trigger] v@[k]),
        r matches Err(e) ==> is_db_error(e@),
        changes(final(db).history()) == changes(old(db).history()),
        final(db).history() == old(db).history().push(final(db).history().last()),
        final(db).dates() == old(db).dates().push(((days_of(days) - 1) as i64, final(db).dates().last().1)),
        r matches Ok(v) ==> db::daily_read(final(db).history().last(), aggregator_id, final(db).dates().last().1, v@),
{
    let days = days_exec(days);
    match db::stats_daily(db, aggregator_id, days) {
        Ok(v) => Ok(v),
        Err(e) => Err(db_error(e)),
    }
}

/// Usage per hour of a local date (`YYYY-MM-DD`; today by default).
pub fn hourly_stats(db: &mut Db, aggregator_id: Option<i64>, date: Option<String>) -> (r: Result<
    Vec<StatsBucket>,
    String,
>)
    ensures
        r matches Ok(v) ==> forall|k: int| 0 <= k < v@.len() ==> stored_bucket(#[trigger] v@[k]),
        r matches Err(e) ==> is_db_error(e@),
        changes(final(db).history()) == changes(old(db).history()),
        final(db).history() == old(db).history().push(final(db).history().last()),
        final(db).history().last().query && final(db).history().last().sql == db::bucket_sql(
            db::HOUR_KEY@,
            db::hourly_filter(aggregator_id is Some),
            db::HOUR_ORDER@,
        ),
        date is Some ==> final(db).history().last().args == db::aggregator_date_params(
            aggregator_id,
            date->0@,
        ),
        r matches Ok(v) ==> db::buckets_in(final(db).history().last().rows, v@),
{
    let day = match &date {
        Some(d) => d.clone(),
        None => local_date_days_ago(0),
    };
    match db::stats_hourly(db, aggregator_id, day.as_str()) {
        Ok(v) => Ok(v),
        Err(e) => Err(db_error(e)),
    }
}

/// Usage per model, largest first, over all time.
pub fn model_stats(db: &mut Db, aggregator_id: Option<i64>) -> (r: Result<Vec<StatsBucket>, String>)
    ensures
        r matches Ok(v) ==> forall|k: int| 0 <= k < v@.len() ==> stored_bucket(#[trigger] v@[k]),
        r matches Err(e) ==> is_db_error(e@),
        changes(final(db).history()) == changes(old(db).history()),
        final(db).history() == old(db).history().push(final(db).history().last()),
        final(db).dates() == old(db).dates(),
        r matches Ok(v) ==> db::model_read(final(db).history().last(), aggregator_id, None, v@),
{
    match db::stats_by_model(db, aggregator_id, None) {
        Ok(v) => Ok(v),
        Err(e) => Err(db_error(e)),
    }
}

/// The trip meter.
pub fn trip_stats(db: &mut Db) -> (r: Result<TripStats, String>)
    ensures
        r matches Ok(t) ==> stored_usage(t.stats),
        r matches Err(e) ==> is_db_error(e@),
        changes(final(db).history()) == changes(old(db).history()),
        r matches Ok(t) ==> final(db).history().take(old(db).history().len() as int) == old(db).history()
            && db::trip_read(final(db).history(), old(db).history().len() as int, t),
{
    match db::trip_stats(db) {
        Ok(t) => Ok(t),
        Err(e) => Err(db_error(e)),
    }
}

/// Resets the trip meter; then its statistics.
pub fn reset_trip(db: &mut Db) -> (r: Result<TripStats, String>)
    ensures
        r matches Ok(t) ==> stored_usage(t.stats),
        r matches Err(e) ==> is_db_error(e@),
        r matches Ok(t) ==> {
            let h = final(db).history();
            &&& h.len() >= old(db).history().len() + 7 && db::trip_read(h, h.len() - 4, t)
            &&& exists|now: Seq<char>|
                changes(h) == changes(old(db).history()) + #[trigger] db::reset_changes(now)
        },
{
    match db::reset_trip(db) {
        Ok(t) => Ok(t),
        Err(e) => Err(db_error(e)),
    }
}

/// Pauses or resumes the trip meter; then its statistics.
pub fn toggle_trip_pause(db: &mut Db) -> (r: Result<TripStats, String>)
    ensures
        r matches Ok(t) ==> stored_usage(t.stats),
        r matches Err(e) ==> is_db_error(e@),
        r matches Ok(t) ==> {
            let h = final(db).history();
            let n = old(db).history().len() as int;
            &&& h.take(n) == old(db).history()
            &&& h[n].query && h[n].sql == db::GET_SETTING_SQL@ && h[n].args == seq![
                Param::Text(db::SETTING_TRIP_PAUSED_AT@),
            ]
            &&& h.len() >= n + 4 && db::trip_read(h, h.len() - 4, t)
            &&& exists|paused_at: Option<String>, now: String|
                db::opt_view(paused_at) == db::setting_in(h[n].rows) && #[trigger] db::toggle_changes(
                    paused_at,
                    db::pauses_in(h[n + 1].rows),
                    now,
                ) == changes(h).skip(changes(old(db).history()).len() as int) && changes(h).take(
                    changes(old(db).history()).len() as int,
                ) == changes(old(db).history())
        },
{
    match db::toggle_trip_pause(db) {
        Ok(t) => Ok(t),
        Err(e) => Err(db_error(e)),
    }
}

} // verus!
